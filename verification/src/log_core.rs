use crate::error::{err, is_err_of, ErrKind, Error};
use crate::log_types::{LogConfig, LogConfigOption, LogConfigOptionName, LogLevel};
use crate::paths::{file_name_of, join_path, parent_of, path_file_name, path_join, path_parent};
use crate::rng::random_u64;
use crate::frames::{backtrace_text, caller_location, is_frame_location, FrameSearch};
use crate::text::{append_decimal, colons_to_dashes, dec_bytes, dec_chars, last_index_of, push_decimal, replace_colons, rfind_char};
use vstd::string::StringSliceAdditionalSpecFns;
use vstd::utf8::encode_utf8;
use vstd::prelude::*;
use std::time::Instant;

verus! {

/// The first problem found in a configuration, in the order in which the fields are checked,
/// or `None` when the configuration is valid. `path_is_dir` tells whether the configured
/// file path names an existing directory.
pub open spec fn config_problem(config: LogConfig, path_is_dir: bool) -> Option<Seq<char>> {
    if !(config.file_path is FilePath) {
        Some("file_path must be of the form FilePath(Option<PathBuf>)"@)
    } else if config.file_path->FilePath_0 is Some && path_is_dir {
        Some("file_path must not be a directory"@)
    } else if config.file_path->FilePath_0 is Some
        && path_parent(config.file_path->FilePath_0->Some_0@) is None {
        Some("if file_path specifies a PathBuf, the PathBuf mustnot terminate in a root or a prefix"@)
    } else if !(config.colors is Colors) {
        Some("colors must be of the form Colors(bool)"@)
    } else if !(config.stdout is Stdout) {
        Some("stdout must be of the form Stdout(bool)"@)
    } else if !(config.max_size_bytes is MaxSizeBytes) {
        Some("max_size_bytes must be of the form MaxSizeBytes(u64)"@)
    } else if !(config.max_age_millis is MaxAgeMillis) {
        Some("max_age_millis must be of the form MaxAgeMillis(u64)"@)
    } else if !(config.timestamp is Timestamp) {
        Some("timestamp must be of the form Timestamp(bool)"@)
    } else if !(config.level is Level) {
        Some("level must be of the form Level(bool)"@)
    } else if !(config.line_num is LineNum) {
        Some("line_num must be of the form LineNum(bool)"@)
    } else if !(config.show_millis is ShowMillis) {
        Some("show_millis must be of the form ShowMillis(bool)"@)
    } else if !(config.auto_rotate is AutoRotate) {
        Some("auto_rotate must be of the form AutoRotate(bool)"@)
    } else if !(config.show_bt is ShowBt) {
        Some("show_bt must be of the form ShowBt(bool)"@)
    } else if !(config.line_num_data_max_len is LineNumDataMaxLen) {
        Some("line_num_data_max_len must be of the form LineNumDataMaxLen(u64)"@)
    } else if !(config.delete_rotation is DeleteRotation) {
        Some("delete_rotation must be of the form DeleteRotation(bool)"@)
    } else if !(config.file_header is FileHeader) {
        Some("file_header must be of the form FileHeader(String)"@)
    } else {
        None
    }
}

/// Checks a log configuration. It is valid when each field holds the option of its own name
/// and a configured file path is neither a directory nor a root or a prefix.
pub fn check_config(config: &LogConfig, path_is_dir: bool) -> (r: Result<(), Error>)
    ensures
        r is Ok <==> config_problem(*config, path_is_dir) is None,
        r matches Err(e) ==> is_err_of(e, ErrKind::Configuration, config_problem(*config, path_is_dir)->Some_0),
{
    match &config.file_path {
        LogConfigOption::FilePath(file_path) => match file_path {
            Some(p) => {
                if path_is_dir {
                    return Err(err(ErrKind::Configuration, "file_path must not be a directory"));
                }
                if parent_of(p.as_str()).is_none() {
                    return Err(
                        err(
                            ErrKind::Configuration,
                            "if file_path specifies a PathBuf, the PathBuf mustnot terminate in a root or a prefix",
                        ),
                    );
                }
            },
            None => {},
        },
        _ => {
            return Err(
                err(ErrKind::Configuration, "file_path must be of the form FilePath(Option<PathBuf>)"),
            );
        },
    }
    if !(config.colors.option_name() == LogConfigOptionName::Colors) {
        return Err(err(ErrKind::Configuration, "colors must be of the form Colors(bool)"));
    }
    if !(config.stdout.option_name() == LogConfigOptionName::Stdout) {
        return Err(err(ErrKind::Configuration, "stdout must be of the form Stdout(bool)"));
    }
    if !(config.max_size_bytes.option_name() == LogConfigOptionName::MaxSizeBytes) {
        return Err(err(ErrKind::Configuration, "max_size_bytes must be of the form MaxSizeBytes(u64)"));
    }
    if !(config.max_age_millis.option_name() == LogConfigOptionName::MaxAgeMillis) {
        return Err(err(ErrKind::Configuration, "max_age_millis must be of the form MaxAgeMillis(u64)"));
    }
    if !(config.timestamp.option_name() == LogConfigOptionName::Timestamp) {
        return Err(err(ErrKind::Configuration, "timestamp must be of the form Timestamp(bool)"));
    }
    if !(config.level.option_name() == LogConfigOptionName::Level) {
        return Err(err(ErrKind::Configuration, "level must be of the form Level(bool)"));
    }
    if !(config.line_num.option_name() == LogConfigOptionName::LineNum) {
        return Err(err(ErrKind::Configuration, "line_num must be of the form LineNum(bool)"));
    }
    if !(config.show_millis.option_name() == LogConfigOptionName::ShowMillis) {
        return Err(err(ErrKind::Configuration, "show_millis must be of the form ShowMillis(bool)"));
    }
    if !(config.auto_rotate.option_name() == LogConfigOptionName::AutoRotate) {
        return Err(err(ErrKind::Configuration, "auto_rotate must be of the form AutoRotate(bool)"));
    }
    if !(config.show_bt.option_name() == LogConfigOptionName::ShowBt) {
        return Err(err(ErrKind::Configuration, "show_bt must be of the form ShowBt(bool)"));
    }
    if !(config.line_num_data_max_len.option_name() == LogConfigOptionName::LineNumDataMaxLen) {
        return Err(err(ErrKind::Configuration, "line_num_data_max_len must be of the form LineNumDataMaxLen(u64)"));
    }
    if !(config.delete_rotation.option_name() == LogConfigOptionName::DeleteRotation) {
        return Err(err(ErrKind::Configuration, "delete_rotation must be of the form DeleteRotation(bool)"));
    }
    if !(config.file_header.option_name() == LogConfigOptionName::FileHeader) {
        return Err(err(ErrKind::Configuration, "file_header must be of the form FileHeader(String)"));
    }
    Ok(())
}

/// A log that has not yet written anything: its configuration, whether it was initialized,
/// whether it writes to a file, the number of bytes in that file and the time in milliseconds
/// of the last rotation, on the log's own clock: the monotonic clock, counted from the moment
/// the log was built. The writes themselves are made by the caller, which asks this state
/// what to write.
pub struct LogCore {
    config: LogConfig,
    init: bool,
    has_file: bool,
    cur_size: u64,
    last_rotation: u128,
    clock: Instant,
}

impl LogCore {
    /// The configuration of this log.
    pub closed spec fn spec_config(&self) -> LogConfig {
        self.config
    }

    /// Whether this log was initialized.
    pub closed spec fn spec_init(&self) -> bool {
        self.init
    }

    /// Whether this log writes to a file.
    pub closed spec fn spec_has_file(&self) -> bool {
        self.has_file
    }

    /// The size in bytes of the file this log writes to.
    pub closed spec fn spec_cur_size(&self) -> u64 {
        self.cur_size
    }

    /// The time in milliseconds of the last rotation (or of the opening of the file).
    pub closed spec fn spec_last_rotation(&self) -> u128 {
        self.last_rotation
    }
}

/// The only way a log can be created: see [`LogBuilder::build`].
pub struct LogBuilder {}

impl LogBuilder {
    /// Builds a log for the given configuration, or returns the configuration error.
    /// `path_is_dir` tells whether the configured file path names an existing directory.
    pub fn build(config: LogConfig, path_is_dir: bool) -> (r: Result<LogCore, Error>)
        ensures
            r is Ok <==> config_problem(config, path_is_dir) is None,
            r matches Err(e) ==> is_err_of(e, ErrKind::Configuration, config_problem(config, path_is_dir)->Some_0),
            r matches Ok(log) ==> {
                &&& log.spec_config() == config
                &&& !log.spec_init()
                &&& !log.spec_has_file()
                &&& log.spec_cur_size() == 0
                &&& log.spec_last_rotation() == 0
                &&& log.wf()
            },
    {
        check_config(&config, path_is_dir)?;
        let clock = instant_now();
        Ok(LogCore { config, init: false, has_file: false, cur_size: 0, last_rotation: 0, clock })
    }

    /// Builds a log that can be shared between threads; see [`LogBuilder::build`].
    pub fn build_send_sync(config: LogConfig, path_is_dir: bool) -> (r: Result<LogCore, Error>)
        ensures
            r is Ok <==> config_problem(config, path_is_dir) is None,
            r matches Err(e) ==> is_err_of(e, ErrKind::Configuration, config_problem(config, path_is_dir)->Some_0),
            r matches Ok(log) ==> {
                &&& log.spec_config() == config
                &&& !log.spec_init()
                &&& !log.spec_has_file()
                &&& log.spec_cur_size() == 0
            },
    {
        Self::build(config, path_is_dir)
    }
}

/// std's moment of the monotonic clock.
#[verifier::external_type_specification]
#[verifier::external_body]
pub struct ExInstant(Instant);

/// `Instant::now`: the present moment of the monotonic clock.
#[verifier::external_body]
fn instant_now() -> Instant {
    Instant::now()
}

/// `Instant::elapsed`, in whole milliseconds: the time the monotonic clock has run since
/// `start`. Nothing is claimed of the number: it depends on the moment of the call.
#[verifier::external_body]
fn millis_since(start: &Instant) -> u128 {
    start.elapsed().as_millis()
}

impl LogCore {
    /// The present time on the log's clock: the milliseconds since the log was built, on the
    /// monotonic clock.
    pub fn clock_millis(&self) -> u128 {
        millis_since(&self.clock)
    }
}

/// Whether, at time `now`, a rotation is due: more than `max_age` milliseconds passed since
/// the last rotation, or the file holds more than `max_size` bytes.
pub open spec fn rotation_due(last_rotation: u128, cur_size: u64, max_age: u128, max_size: u64, now: u128) -> bool {
    (if now >= last_rotation { now - last_rotation } else { 0 }) > max_age || cur_size > max_size
}

/// What must happen to the file when the log is rotated.
#[derive(Debug)]
pub enum RotationPlan {
    /// The log has no file: nothing to rotate.
    Nothing,
    /// The file at `path` is deleted, then reopened empty.
    Remove { path: String },
    /// The file at `from` is renamed to `to`, then `from` is reopened empty.
    Rename { from: String, to: String },
}

/// The stem of a file name: the part before its last `.`, or the whole name.
pub open spec fn name_stem(name: Seq<char>) -> Seq<char> {
    match last_index_of(name, '.') {
        Some(i) => name.subrange(0, i),
        None => name,
    }
}

/// The name a rotated file receives: the stem of the original name, the rotation stamp with
/// its colons replaced by dashes, an underscore, the decimal tag and `.log`.
pub open spec fn rotated_name(name: Seq<char>, stamp: Seq<char>, tag: u64) -> Seq<char> {
    name_stem(name) + colons_to_dashes(stamp) + "_"@ + dec_chars(tag as nat) + ".log"@
}

impl LogCore {
    /// The state is the same but for the configuration.
    pub open spec fn same_but_config(&self, other: &LogCore) -> bool {
        &&& self.spec_init() == other.spec_init()
        &&& self.spec_has_file() == other.spec_has_file()
        &&& self.spec_cur_size() == other.spec_cur_size()
        &&& self.spec_last_rotation() == other.spec_last_rotation()
    }

    /// Sets a configuration option. Every option but the file path may be set; setting the
    /// file path is an error.
    pub fn set_config_option(&mut self, value: LogConfigOption) -> (r: Result<(), Error>)
        ensures
            value is FilePath ==> (r matches Err(e) && is_err_of(
                e,
                ErrKind::Log,
                "filepath cannot be set after log is initialized"@,
            )),
            value is FilePath ==> final(self).spec_config() == old(self).spec_config(),
            !(value is FilePath) ==> r is Ok,
            !(value is FilePath) ==> final(self).spec_config() == old(self).spec_config().with(value),
            final(self).same_but_config(old(self)),
            old(self).wf() ==> final(self).wf(),
    {
        proof {
            use_type_invariant(&*self);
        }
        match value.option_name() {
            LogConfigOptionName::FilePath => {
                return Err(err(ErrKind::Log, "filepath cannot be set after log is initialized"));
            },
            LogConfigOptionName::Colors => {
                self.config.colors = value;
            },
            LogConfigOptionName::Stdout => {
                self.config.stdout = value;
            },
            LogConfigOptionName::MaxSizeBytes => {
                self.config.max_size_bytes = value;
            },
            LogConfigOptionName::MaxAgeMillis => {
                self.config.max_age_millis = value;
            },
            LogConfigOptionName::Timestamp => {
                self.config.timestamp = value;
            },
            LogConfigOptionName::Level => {
                self.config.level = value;
            },
            LogConfigOptionName::LineNum => {
                self.config.line_num = value;
            },
            LogConfigOptionName::ShowMillis => {
                self.config.show_millis = value;
            },
            LogConfigOptionName::AutoRotate => {
                self.config.auto_rotate = value;
            },
            LogConfigOptionName::ShowBt => {
                self.config.show_bt = value;
            },
            LogConfigOptionName::LineNumDataMaxLen => {
                self.config.line_num_data_max_len = value;
            },
            LogConfigOptionName::DeleteRotation => {
                self.config.delete_rotation = value;
            },
            LogConfigOptionName::FileHeader => {
                self.config.file_header = value;
            },
        }
        Ok(())
    }

    /// Returns the current value of the named configuration option.
    pub fn get_config_option(&self, name: LogConfigOptionName) -> (r: Result<&LogConfigOption, Error>)
        ensures
            r matches Ok(o) && *o == self.spec_config().get(name),
    {
        Ok(
            match name {
                LogConfigOptionName::Colors => &self.config.colors,
                LogConfigOptionName::Stdout => &self.config.stdout,
                LogConfigOptionName::MaxSizeBytes => &self.config.max_size_bytes,
                LogConfigOptionName::MaxAgeMillis => &self.config.max_age_millis,
                LogConfigOptionName::Timestamp => &self.config.timestamp,
                LogConfigOptionName::Level => &self.config.level,
                LogConfigOptionName::LineNum => &self.config.line_num,
                LogConfigOptionName::ShowMillis => &self.config.show_millis,
                LogConfigOptionName::AutoRotate => &self.config.auto_rotate,
                LogConfigOptionName::FilePath => &self.config.file_path,
                LogConfigOptionName::ShowBt => &self.config.show_bt,
                LogConfigOptionName::LineNumDataMaxLen => &self.config.line_num_data_max_len,
                LogConfigOptionName::DeleteRotation => &self.config.delete_rotation,
                LogConfigOptionName::FileHeader => &self.config.file_header,
            },
        )
    }

    /// First step of initialization: returns the path of the file to open, or `None` when
    /// the log writes to standard output only.
    pub fn init_target(&self) -> (r: Result<Option<String>, Error>)
        ensures
            self.spec_init() ==> (r matches Err(e) && is_err_of(e, ErrKind::Log, "log already initialized"@)),
            !self.spec_init() && !(self.spec_config().file_path is FilePath) ==> (r matches Err(e)
                && is_err_of(e, ErrKind::Log, "file_path must be of the form FilePath(Option<PathBuf>)"@)),
            !self.spec_init() && self.spec_config().file_path is FilePath ==> (r matches Ok(t) && match self.spec_config().file_path->FilePath_0 {
                Some(p) => t matches Some(q) && q@ == p@,
                None => t is None,
            }),
    {
        if self.init {
            return Err(err(ErrKind::Log, "log already initialized"));
        }
        match &self.config.file_path {
            LogConfigOption::FilePath(p) => match p {
                Some(p) => Ok(Some(p.clone())),
                None => Ok(None),
            },
            _ => Err(err(ErrKind::Log, "file_path must be of the form FilePath(Option<PathBuf>)")),
        }
    }

    /// What to write at the top of a file just opened whose length is `file_len`, and the size
    /// the file then has: an empty file receives the configured header and a newline, unless
    /// the header is empty.
    pub fn header_plan(&self, file_len: u64) -> (r: Result<(Option<Vec<u8>>, u64), Error>)
        requires
            self.spec_config().file_header matches LogConfigOption::FileHeader(h) ==> encode_utf8(h@).len() < u64::MAX,
        ensures
            file_len > 0 ==> (r matches Ok((w, n)) && w is None && n == file_len),
            file_len == 0 && !(self.spec_config().file_header is FileHeader) ==> (r matches Err(e)
                && is_err_of(e, ErrKind::Configuration, "file_header must be of the form FileHeader(String)"@)),
            file_len == 0 && self.spec_config().file_header is FileHeader ==> (r matches Ok((w, n)) && {
                let h = encode_utf8(self.spec_config().file_header->FileHeader_0@);
                if h.len() > 0 {
                    w matches Some(b) && b@ == h.push(10u8) && n == h.len() + 1
                } else {
                    w is None && n == 0
                }
            }),
    {
        if file_len > 0 {
            return Ok((None, file_len));
        }
        match &self.config.file_header {
            LogConfigOption::FileHeader(header) => {
                let bytes = header.as_str().as_bytes();
                if bytes.len() > 0 {
                    let mut w: Vec<u8> = Vec::new();
                    w.extend_from_slice(bytes);
                    w.push(10u8);
                    let n: u64 = bytes.len() as u64 + 1;
                    Ok((Some(w), n))
                } else {
                    Ok((None, 0))
                }
            },
            _ => Err(err(ErrKind::Configuration, "file_header must be of the form FileHeader(String)")),
        }
    }

    /// Records that the file was opened: its canonical path, its size and the time of
    /// opening, from which the age of the file is counted.
    pub fn finish_open(&mut self, canonical: String, cur_size: u64, now: u128)
        ensures
            final(self).spec_config() == old(self).spec_config().with(LogConfigOption::FilePath(Some(canonical))),
            final(self).spec_has_file(),
            final(self).spec_cur_size() == cur_size,
            final(self).spec_last_rotation() == now,
            final(self).spec_init() == old(self).spec_init(),
            old(self).wf() ==> final(self).wf(),
    {
        proof {
            use_type_invariant(&*self);
        }
        self.config.file_path = LogConfigOption::FilePath(Some(canonical));
        self.has_file = true;
        self.cur_size = cur_size;
        self.last_rotation = now;
    }

    /// Last step of initialization.
    pub fn finish_init(&mut self)
        ensures
            final(self).spec_init(),
            final(self).spec_config() == old(self).spec_config(),
            final(self).spec_has_file() == old(self).spec_has_file(),
            final(self).spec_cur_size() == old(self).spec_cur_size(),
            final(self).spec_last_rotation() == old(self).spec_last_rotation(),
            old(self).wf() ==> final(self).wf(),
    {
        proof {
            use_type_invariant(&*self);
        }
        self.init = true;
    }

    /// The problem with the rotation limits of the configuration, if any.
    pub open spec fn limits_problem(&self) -> Option<Seq<char>> {
        if !(self.spec_config().max_age_millis is MaxAgeMillis) {
            Some("max_age_millis must be of form MaxAgeMillis(u128)"@)
        } else if !(self.spec_config().max_size_bytes is MaxSizeBytes) {
            Some("max_size_bytes must be of form MaxSizeBytes(u64)"@)
        } else {
            None
        }
    }

    /// Whether the configured limits make a rotation due at time `now`.
    pub open spec fn due_at(&self, now: u128) -> bool {
        rotation_due(
            self.spec_last_rotation(),
            self.spec_cur_size(),
            self.spec_config().max_age_millis->MaxAgeMillis_0,
            self.spec_config().max_size_bytes->MaxSizeBytes_0,
            now,
        )
    }

    /// The rotation limits of the configuration, or the error for an ill-formed one.
    fn limits(&self) -> (r: Result<(u128, u64), Error>)
        ensures
            self.limits_problem() matches Some(m) ==> (r matches Err(e) && is_err_of(e, ErrKind::IllegalArgument, m)),
            self.limits_problem() is None ==> r == Ok::<(u128, u64), Error>((
                self.spec_config().max_age_millis->MaxAgeMillis_0,
                self.spec_config().max_size_bytes->MaxSizeBytes_0,
            )),
    {
        let max_age = match self.config.max_age_millis {
            LogConfigOption::MaxAgeMillis(m) => m,
            _ => {
                return Err(err(ErrKind::IllegalArgument, "max_age_millis must be of form MaxAgeMillis(u128)"));
            },
        };
        let max_size = match self.config.max_size_bytes {
            LogConfigOption::MaxSizeBytes(m) => m,
            _ => {
                return Err(err(ErrKind::IllegalArgument, "max_size_bytes must be of form MaxSizeBytes(u64)"));
            },
        };
        Ok((max_age, max_size))
    }

    /// Whether the log needs to be rotated at time `now` (milliseconds).
    pub fn need_rotate_at(&self, now: u128) -> (r: Result<bool, Error>)
        ensures
            !self.spec_init() ==> (r matches Err(e) && is_err_of(e, ErrKind::Log, "log not initialized"@)),
            self.spec_init() && self.limits_problem() is Some ==> (r matches Err(e)
                && is_err_of(e, ErrKind::IllegalArgument, self.limits_problem()->Some_0)),
            self.spec_init() && self.limits_problem() is None ==> r == Ok::<bool, Error>(self.due_at(now)),
    {
        if !self.init {
            return Err(err(ErrKind::Log, "log not initialized"));
        }
        let (max_age, max_size) = self.limits()?;
        let elapsed = now.saturating_sub(self.last_rotation);
        Ok(elapsed > max_age || self.cur_size > max_size)
    }

    /// Whether the log needs to be rotated now, or at time `now` on the log's clock when it is
    /// given.
    pub fn need_rotate(&self, now: Option<u128>) -> (r: Result<bool, Error>)
        ensures
            !self.spec_init() ==> (r matches Err(e) && is_err_of(e, ErrKind::Log, "log not initialized"@)),
            self.spec_init() && self.limits_problem() is Some ==> (r matches Err(e)
                && is_err_of(e, ErrKind::IllegalArgument, self.limits_problem()->Some_0)),
            self.spec_init() && self.limits_problem() is None && now is Some ==> r == Ok::<bool, Error>(
                self.due_at(now->Some_0),
            ),
            self.spec_init() && self.limits_problem() is None && now is None ==> (r matches Ok(b) && exists|t: u128|
                b == self.due_at(t)),
    {
        let t = match now {
            Some(t) => t,
            None => self.clock_millis(),
        };
        self.need_rotate_at(t)
    }

    /// Whether a log call at time `now` must first rotate the file, or the message of the
    /// illegal-argument error that the configuration causes.
    pub open spec fn auto_rotation(&self, now: u128) -> Result<bool, Seq<char>> {
        if !(self.spec_config().auto_rotate is AutoRotate) {
            Err("autorotate must be of form AutoRotate(bool)"@)
        } else if !self.spec_config().auto_rotate->AutoRotate_0 {
            Ok(false)
        } else {
            match self.limits_problem() {
                Some(m) => Err(m),
                None => Ok(self.due_at(now)),
            }
        }
    }

    /// Whether a log call at time `now` must first rotate the file: automatic rotation is on
    /// and a rotation is due.
    pub fn rotate_if_needed_at(&self, now: u128) -> (r: Result<bool, Error>)
        ensures
            self.auto_rotation(now) matches Ok(b) ==> r == Ok::<bool, Error>(b),
            self.auto_rotation(now) matches Err(m) ==> (r matches Err(e) && is_err_of(e, ErrKind::IllegalArgument, m)),
    {
        match self.config.auto_rotate {
            LogConfigOption::AutoRotate(on) => {
                if !on {
                    return Ok(false);
                }
            },
            _ => {
                return Err(err(ErrKind::IllegalArgument, "autorotate must be of form AutoRotate(bool)"));
            },
        }
        let (max_age, max_size) = self.limits()?;
        let elapsed = now.saturating_sub(self.last_rotation);
        Ok(elapsed > max_age || self.cur_size > max_size)
    }

    /// First step of a log call at time `now`: the log must be initialized; returns whether
    /// the file must be rotated before the line is written.
    pub fn log_start_at(&self, now: u128) -> (r: Result<bool, Error>)
        ensures
            !self.spec_init() ==> (r matches Err(e) && is_err_of(e, ErrKind::Log, "log not initialized"@)),
            self.spec_init() ==> (self.auto_rotation(now) matches Ok(b) ==> r == Ok::<bool, Error>(b)),
            self.spec_init() ==> (self.auto_rotation(now) matches Err(m) ==> (r matches Err(e) && is_err_of(
                e,
                ErrKind::IllegalArgument,
                m,
            ))),
    {
        if !self.init {
            return Err(err(ErrKind::Log, "log not initialized"));
        }
        self.rotate_if_needed_at(now)
    }
}

/// Whether `c` is a decimal digit.
pub open spec fn is_digit(c: char) -> bool {
    '0' <= c <= '9'
}

/// The shape of a rotation stamp, as chrono's `.r_%m_%d_%Y_%T` writes it whatever the time:
/// `.r_`, the two digits of the month, `_`, the two digits of the day, `_`, the year, `_`,
/// and the time as two digits each of hours, minutes and seconds, parted by colons.
pub open spec fn is_rotation_stamp(s: Seq<char>) -> bool {
    let n = s.len() as int;
    &&& n >= 22
    &&& s.subrange(0, 3) == ".r_"@
    &&& is_digit(s[3]) && is_digit(s[4]) && s[5] == '_' && is_digit(s[6]) && is_digit(s[7]) && s[8] == '_'
    &&& s[n - 9] == '_' && is_digit(s[n - 8]) && is_digit(s[n - 7]) && s[n - 6] == ':'
    &&& is_digit(s[n - 5]) && is_digit(s[n - 4]) && s[n - 3] == ':' && is_digit(s[n - 2]) && is_digit(s[n - 1])
}

/// The rotation stamp of the current local time, as chrono formats `.r_%m_%d_%Y_%T`: the
/// literal `.r_`, the zero-padded month and day, the year and the zero-padded `%H:%M:%S`,
/// parted by underscores. Which time it shows is not claimed: it depends on the clock and
/// the time zone; nor how many characters the year takes.
#[verifier::external_body]
pub(crate) fn rotation_stamp() -> (r: String)
    ensures
        is_rotation_stamp(r@),
{
    chrono::Local::now().format(".r_%m_%d_%Y_%T").to_string()
}

/// Whether `b` is the byte of a decimal digit.
pub open spec fn is_digit_byte(b: u8) -> bool {
    48 <= b <= 57
}

/// The shape of a date as chrono's `%Y-%m-%d %H:%M:%S` writes it whatever the time: the year,
/// of at least four digits and signed only outside years 0 to 9999, then `-`, the two
/// digits of the month, `-`, the two digits of the day, a space, and two digits each of
/// hours, minutes and seconds parted by colons.
pub open spec fn is_date_bytes(s: Seq<u8>) -> bool {
    let n = s.len() as int;
    &&& n >= 19
    &&& forall|i: int| 0 <= i < n - 15 ==> is_digit_byte(#[trigger] s[i]) || (i == 0 && (s[0] == 43u8 || s[0] == 45u8))
    &&& s[n - 15] == 45u8 && is_digit_byte(s[n - 14]) && is_digit_byte(s[n - 13])
    &&& s[n - 12] == 45u8 && is_digit_byte(s[n - 11]) && is_digit_byte(s[n - 10])
    &&& s[n - 9] == 32u8 && is_digit_byte(s[n - 8]) && is_digit_byte(s[n - 7])
    &&& s[n - 6] == 58u8 && is_digit_byte(s[n - 5]) && is_digit_byte(s[n - 4])
    &&& s[n - 3] == 58u8 && is_digit_byte(s[n - 2]) && is_digit_byte(s[n - 1])
}

/// The current local date as chrono formats `%Y-%m-%d %H:%M:%S`, as bytes, and the
/// timestamp in milliseconds since the Unix epoch. The date has the shape that format
/// gives whatever the time; which time it shows is not claimed: it depends on the clock and
/// the time zone.
#[verifier::external_body]
pub(crate) fn local_timestamp() -> (r: (Vec<u8>, i64))
    ensures
        is_date_bytes(r.0@),
{
    let date = chrono::Local::now();
    (date.format("%Y-%m-%d %H:%M:%S").to_string().into_bytes(), date.timestamp_millis())
}

/// How a log call is displayed.
#[derive(Debug, Clone, Copy, PartialEq, Eq, Structural)]
pub enum LogType {
    /// As configured.
    Regular,
    /// As configured, and on standard output whatever the configuration says.
    All,
    /// The line alone, with no timestamp, level or line number.
    Plain,
}

/// The style in which a piece of standard output is printed.
#[derive(Debug, Clone, Copy, PartialEq, Eq, Structural)]
pub enum Style {
    /// No color.
    Plain,
    /// Dimmed.
    Dimmed,
    /// Magenta.
    Magenta,
    /// Green.
    Green,
    /// Yellow.
    Yellow,
    /// Red.
    Red,
}

/// A piece of standard output and its style.
#[derive(Debug)]
pub struct Segment {
    /// The bytes printed.
    pub text: Vec<u8>,
    /// The style they are printed in.
    pub style: Style,
}

/// What one log call writes: the bytes appended to the file and the pieces printed on
/// standard output, in order.
#[derive(Debug)]
pub struct LogOutput {
    /// The bytes appended to the file (empty when the log has no file).
    pub file_bytes: Vec<u8>,
    /// The pieces printed on standard output.
    pub stdout: Vec<Segment>,
}

/// The bytes of the text of a level.
pub open spec fn level_bytes(level: LogLevel) -> Seq<u8> {
    match level {
        LogLevel::Trace => seq![84u8, 82u8, 65u8, 67u8, 69u8],
        LogLevel::Debug => seq![68u8, 69u8, 66u8, 85u8, 71u8],
        LogLevel::Info => seq![73u8, 78u8, 70u8, 79u8],
        LogLevel::Warn => seq![87u8, 65u8, 82u8, 78u8],
        LogLevel::Error => seq![69u8, 82u8, 82u8, 79u8, 82u8],
        LogLevel::Fatal => seq![70u8, 65u8, 84u8, 65u8, 76u8],
    }
}

/// Returns the bytes of the text of a level.
pub fn level_text_bytes(level: LogLevel) -> (r: Vec<u8>)
    ensures
        r@ == level_bytes(level),
{
    let r = match level {
        LogLevel::Trace => vec![84u8, 82u8, 65u8, 67u8, 69u8],
        LogLevel::Debug => vec![68u8, 69u8, 66u8, 85u8, 71u8],
        LogLevel::Info => vec![73u8, 78u8, 70u8, 79u8],
        LogLevel::Warn => vec![87u8, 65u8, 82u8, 78u8],
        LogLevel::Error => vec![69u8, 82u8, 82u8, 79u8, 82u8],
        LogLevel::Fatal => vec![70u8, 65u8, 84u8, 65u8, 76u8],
    };
    assert(r@ =~= level_bytes(level));
    r
}

/// The decimal text of an integer, with a minus sign when negative.
pub open spec fn int_bytes(n: int) -> Seq<u8> {
    if n < 0 {
        seq![45u8] + dec_bytes((-n) as nat)
    } else {
        dec_bytes(n as nat)
    }
}

/// The text of the milliseconds of a timestamp: its decimal text, preceded by one zero when
/// it is less than 100 and by another when it is less than 10.
pub open spec fn millis_bytes(millis: i64) -> Seq<u8> {
    (if millis < 10 { seq![48u8] } else { Seq::empty() }) + (if millis < 100 {
        seq![48u8]
    } else {
        Seq::empty()
    }) + int_bytes(millis as int)
}

/// Returns the text of the milliseconds of a timestamp, padded with zeros to three digits:
/// 7 gives `007`, 77 gives `077` and 777 gives `777`.
pub fn format_millis(millis: i64) -> (r: Vec<u8>)
    ensures
        r@ == millis_bytes(millis),
{
    let mut r: Vec<u8> = Vec::new();
    if millis < 10 {
        r.push(48u8);
    }
    if millis < 100 {
        r.push(48u8);
    }
    let ghost pre = r@;
    if millis < 0 {
        r.push(45u8);
        let m: u64 = if millis == i64::MIN {
            9_223_372_036_854_775_808u64
        } else {
            (-millis) as u64
        };
        push_decimal(&mut r, m);
        assert(r@ =~= pre + (seq![45u8] + dec_bytes((-millis) as nat)));
    } else {
        push_decimal(&mut r, millis as u64);
    }
    r
}

/// The location shown for a log call: when longer than `max_len`, two dots and its last
/// `max_len` bytes.
pub open spec fn shown_location(location: Seq<u8>, max_len: usize) -> Seq<u8> {
    if location.len() > max_len {
        seq![46u8, 46u8] + location.subrange(location.len() - max_len, location.len() as int)
    } else {
        location
    }
}

/// `[`, the text, then `]: `.
pub open spec fn bracketed(t: Seq<u8>) -> Seq<u8> {
    seq![91u8] + t + seq![93u8, 58u8, 32u8]
}

/// `(`, the level, then `) `.
pub open spec fn parenthesized(t: Seq<u8>) -> Seq<u8> {
    seq![40u8] + t + seq![41u8, 32u8]
}

/// The color of a level on standard output.
pub open spec fn level_style(level: LogLevel) -> Style {
    match level {
        LogLevel::Trace | LogLevel::Debug => Style::Magenta,
        LogLevel::Info => Style::Green,
        LogLevel::Warn => Style::Yellow,
        LogLevel::Error | LogLevel::Fatal => Style::Red,
    }
}

/// The pieces `[`, the text in the style, then `]: `.
pub open spec fn bracketed_segments(t: Seq<u8>, style: Style) -> Seq<(Seq<u8>, Style)> {
    seq![(seq![91u8], Style::Plain), (t, style), (seq![93u8, 58u8, 32u8], Style::Plain)]
}

/// The view of a piece of output.
pub open spec fn segment_view(s: Segment) -> (Seq<u8>, Style) {
    (s.text@, s.style)
}

impl LogCore {
    /// The configuration holds in each field the option of that field's name.
    pub closed spec fn wf(&self) -> bool {
        self.config.well_formed()
    }

    /// Every log keeps a well-formed configuration: it is built with one, and each change
    /// sets a field to an option of that field's name.
    #[verifier::type_invariant]
    spec fn config_stays_well_formed(&self) -> bool {
        self.wf()
    }

    /// Whether standard output shows a call of the given type.
    pub open spec fn shows_stdout(&self, log_type: LogType) -> bool {
        self.spec_config().stdout->Stdout_0 || log_type == LogType::All
    }

    /// Whether a call of the given type shows the timestamp.
    pub open spec fn shows_timestamp(&self, log_type: LogType) -> bool {
        self.spec_config().timestamp->Timestamp_0 && log_type != LogType::Plain
    }

    /// Whether a call of the given type shows the level.
    pub open spec fn shows_level(&self, log_type: LogType) -> bool {
        self.spec_config().level->Level_0 && log_type != LogType::Plain
    }

    /// Whether a call of the given type shows the line number information.
    pub open spec fn shows_line_num(&self, log_type: LogType) -> bool {
        self.spec_config().line_num->LineNum_0 && log_type != LogType::Plain
    }

    /// Whether a call of the given type shows milliseconds in the timestamp.
    pub open spec fn shows_millis(&self, log_type: LogType) -> bool {
        self.spec_config().show_millis->ShowMillis_0 && log_type != LogType::Plain
    }

    /// Whether a call at the given level shows a backtrace.
    pub open spec fn shows_backtrace(&self, level: LogLevel) -> bool {
        self.spec_config().show_bt->ShowBt_0 && (level == LogLevel::Error || level == LogLevel::Fatal)
    }

    /// The timestamp shown: the date, then a dot and the milliseconds when they are shown.
    pub open spec fn timestamp_text(&self, log_type: LogType, date: Seq<u8>, millis: i64) -> Seq<u8> {
        date + if self.shows_millis(log_type) { seq![46u8] + millis_bytes(millis) } else { Seq::empty() }
    }

    /// The timestamp part of the file bytes.
    pub open spec fn ts_part(&self, log_type: LogType, date: Seq<u8>, millis: i64) -> Seq<u8> {
        if self.shows_timestamp(log_type) {
            bracketed(self.timestamp_text(log_type, date, millis))
        } else {
            Seq::empty()
        }
    }

    /// The level part of the file bytes.
    pub open spec fn level_part(&self, level: LogLevel, log_type: LogType) -> Seq<u8> {
        if self.shows_level(log_type) {
            parenthesized(level_bytes(level))
        } else {
            Seq::empty()
        }
    }

    /// The location part of the file bytes.
    pub open spec fn location_part(&self, log_type: LogType, location: Seq<u8>) -> Seq<u8> {
        if self.shows_line_num(log_type) {
            bracketed(shown_location(location, self.spec_config().line_num_data_max_len->LineNumDataMaxLen_0))
        } else {
            Seq::empty()
        }
    }

    /// The backtrace part of the file bytes.
    pub open spec fn backtrace_part(&self, level: LogLevel, backtrace: Seq<u8>) -> Seq<u8> {
        if self.shows_backtrace(level) {
            backtrace
        } else {
            Seq::empty()
        }
    }

    /// The bytes one log call appends to the file.
    pub open spec fn file_text(
        &self,
        level: LogLevel,
        line: Seq<u8>,
        log_type: LogType,
        date: Seq<u8>,
        millis: i64,
        location: Seq<u8>,
        backtrace: Seq<u8>,
    ) -> Seq<u8> {
        if !self.spec_has_file() {
            Seq::empty()
        } else {
            self.ts_part(log_type, date, millis) + self.level_part(level, log_type) + self.location_part(
                log_type,
                location,
            ) + line.push(10u8) + self.backtrace_part(level, backtrace)
        }
    }

    /// Whether colors are used on standard output.
    pub open spec fn colored(&self) -> bool {
        self.spec_config().colors->Colors_0
    }

    /// The timestamp pieces of standard output.
    pub open spec fn ts_segments(&self, log_type: LogType, date: Seq<u8>, millis: i64) -> Seq<(Seq<u8>, Style)> {
        if self.shows_timestamp(log_type) {
            bracketed_segments(
                self.timestamp_text(log_type, date, millis),
                if self.colored() { Style::Dimmed } else { Style::Plain },
            )
        } else {
            Seq::empty()
        }
    }

    /// The level pieces of standard output.
    pub open spec fn level_segments(&self, level: LogLevel, log_type: LogType) -> Seq<(Seq<u8>, Style)> {
        if self.shows_level(log_type) {
            seq![
                (seq![40u8], Style::Plain),
                (level_bytes(level), if self.colored() { level_style(level) } else { Style::Plain }),
                (seq![41u8, 32u8], Style::Plain),
            ]
        } else {
            Seq::empty()
        }
    }

    /// The location pieces of standard output.
    pub open spec fn location_segments(&self, log_type: LogType, location: Seq<u8>) -> Seq<(Seq<u8>, Style)> {
        if self.shows_line_num(log_type) {
            bracketed_segments(
                shown_location(location, self.spec_config().line_num_data_max_len->LineNumDataMaxLen_0),
                if self.colored() { Style::Yellow } else { Style::Plain },
            )
        } else {
            Seq::empty()
        }
    }

    /// The backtrace pieces of standard output.
    pub open spec fn backtrace_segments(&self, level: LogLevel, backtrace: Seq<u8>) -> Seq<(Seq<u8>, Style)> {
        if self.shows_backtrace(level) {
            seq![(backtrace, Style::Plain)]
        } else {
            Seq::empty()
        }
    }

    /// The pieces one log call prints on standard output.
    pub open spec fn stdout_text(
        &self,
        level: LogLevel,
        line: Seq<u8>,
        log_type: LogType,
        date: Seq<u8>,
        millis: i64,
        location: Seq<u8>,
        backtrace: Seq<u8>,
    ) -> Seq<(Seq<u8>, Style)> {
        if !self.shows_stdout(log_type) {
            Seq::empty()
        } else {
            self.ts_segments(log_type, date, millis) + self.level_segments(level, log_type)
                + self.location_segments(log_type, location) + seq![(line.push(10u8), Style::Plain)]
                + self.backtrace_segments(level, backtrace)
        }
    }
}

/// `a + b`, or `u64::MAX` when the sum does not fit.
pub open spec fn sat_add(a: u64, b: nat) -> u64 {
    if a + b > u64::MAX {
        u64::MAX
    } else {
        (a + b) as u64
    }
}

/// The views of pieces of output.
pub open spec fn segments_view(v: Seq<Segment>) -> Seq<(Seq<u8>, Style)> {
    v.map_values(|s: Segment| segment_view(s))
}

/// Appends `[`, the text and `]: ` to the file bytes when `to_file` holds, and the pieces of
/// the same text, the text in `style`, to the output when `to_stdout` holds.
fn emit_bracketed(
    file: &mut Vec<u8>,
    out: &mut Vec<Segment>,
    to_file: bool,
    to_stdout: bool,
    text: Vec<u8>,
    style: Style,
)
    ensures
        final(file)@ == old(file)@ + if to_file { bracketed(text@) } else { Seq::empty() },
        segments_view(final(out)@) == segments_view(old(out)@) + if to_stdout {
            bracketed_segments(text@, style)
        } else {
            Seq::empty()
        },
{
    let ghost t = text@;
    if to_file {
        file.push(91u8);
        file.extend_from_slice(text.as_slice());
        file.push(93u8);
        file.push(58u8);
        file.push(32u8);
        assert(file@ =~= old(file)@ + bracketed(t));
    } else {
        assert(file@ =~= old(file)@ + Seq::<u8>::empty());
    }
    if to_stdout {
        let open_b = vec![91u8];
        assert(open_b@ =~= seq![91u8]);
        out.push(Segment { text: open_b, style: Style::Plain });
        out.push(Segment { text, style });
        let close_b = vec![93u8, 58u8, 32u8];
        assert(close_b@ =~= seq![93u8, 58u8, 32u8]);
        out.push(Segment { text: close_b, style: Style::Plain });
        assert(segments_view(out@) =~= segments_view(old(out)@) + bracketed_segments(t, style));
    } else {
        assert(segments_view(out@) =~= segments_view(old(out)@) + Seq::<(Seq<u8>, Style)>::empty());
    }
}

/// Appends `(`, the level and `) ` to the file bytes when `to_file` holds, and the same
/// pieces, the level in `style`, to the output when `to_stdout` holds.
fn emit_level(
    file: &mut Vec<u8>,
    out: &mut Vec<Segment>,
    to_file: bool,
    to_stdout: bool,
    level: LogLevel,
    style: Style,
)
    ensures
        final(file)@ == old(file)@ + if to_file { parenthesized(level_bytes(level)) } else { Seq::empty() },
        segments_view(final(out)@) == segments_view(old(out)@) + if to_stdout {
            seq![(seq![40u8], Style::Plain), (level_bytes(level), style), (seq![41u8, 32u8], Style::Plain)]
        } else {
            Seq::empty()
        },
{
    let lb = level_text_bytes(level);
    if to_file {
        file.push(40u8);
        file.extend_from_slice(lb.as_slice());
        file.push(41u8);
        file.push(32u8);
        assert(file@ =~= old(file)@ + parenthesized(level_bytes(level)));
    } else {
        assert(file@ =~= old(file)@ + Seq::<u8>::empty());
    }
    if to_stdout {
        let open_p = vec![40u8];
        assert(open_p@ =~= seq![40u8]);
        out.push(Segment { text: open_p, style: Style::Plain });
        out.push(Segment { text: lb, style });
        let close_p = vec![41u8, 32u8];
        assert(close_p@ =~= seq![41u8, 32u8]);
        out.push(Segment { text: close_p, style: Style::Plain });
        assert(segments_view(out@) =~= segments_view(old(out)@) + seq![
            (seq![40u8], Style::Plain),
            (level_bytes(level), style),
            (seq![41u8, 32u8], Style::Plain),
        ]);
    } else {
        assert(segments_view(out@) =~= segments_view(old(out)@) + Seq::<(Seq<u8>, Style)>::empty());
    }
}

/// Appends a piece of plain output holding a copy of `text`.
fn emit_plain(out: &mut Vec<Segment>, text: &[u8])
    ensures
        segments_view(final(out)@) == segments_view(old(out)@).push((text@, Style::Plain)),
{
    let mut b: Vec<u8> = Vec::new();
    b.extend_from_slice(text);
    assert(b@ =~= text@);
    out.push(Segment { text: b, style: Style::Plain });
    assert(segments_view(out@) =~= segments_view(old(out)@).push((text@, Style::Plain)));
}

/// Returns the location shown for a log call; see [`shown_location`].
pub fn shorten_location(location: &[u8], max_len: usize) -> (r: Vec<u8>)
    ensures
        r@ == shown_location(location@, max_len),
{
    let mut shown: Vec<u8> = Vec::new();
    let len = location.len();
    if len > max_len {
        let start = len - max_len;
        shown.push(46u8);
        shown.push(46u8);
        let mut i = start;
        while i < len
            invariant
                start <= i <= len,
                len == location@.len(),
                shown@ == seq![46u8, 46u8] + location@.subrange(start as int, i as int),
            decreases len - i,
        {
            shown.push(location[i]);
            assert(location@.subrange(start as int, i + 1) =~= location@.subrange(start as int, i as int).push(
                location@[i as int],
            ));
            i = i + 1;
        }
    } else {
        shown.extend_from_slice(location);
    }
    assert(shown@ =~= shown_location(location@, max_len));
    shown
}

impl LogCore {
    /// Adds `n` bytes to the size of the file, saturating at `u64::MAX`.
    fn grow(&mut self, n: usize)
        ensures
            final(self).spec_cur_size() == sat_add(old(self).spec_cur_size(), n as nat),
            final(self).spec_config() == old(self).spec_config(),
            final(self).spec_init() == old(self).spec_init(),
            final(self).spec_has_file() == old(self).spec_has_file(),
            final(self).spec_last_rotation() == old(self).spec_last_rotation(),
    {
        proof {
            use_type_invariant(&*self);
        }
        let added: u64 = n as u64;
        self.cur_size = self.cur_size.saturating_add(added);
    }

    #[verifier::rlimit(30)]
    /// Renders one log call: the timestamp date and milliseconds, the location of the caller
    /// and the backtrace are those the caller obtained. The size of the file grows by the
    /// bytes appended to it.
    pub fn render(
        &mut self,
        level: LogLevel,
        line: &[u8],
        log_type: LogType,
        date: &[u8],
        millis: i64,
        location: &[u8],
        backtrace: &[u8],
    ) -> (r: LogOutput)
        ensures
            final(self).wf(),
            r.file_bytes@ == old(self).file_text(level, line@, log_type, date@, millis, location@, backtrace@),
            segments_view(r.stdout@) == old(self).stdout_text(
                level,
                line@,
                log_type,
                date@,
                millis,
                location@,
                backtrace@,
            ),
            final(self).spec_cur_size() == sat_add(old(self).spec_cur_size(), r.file_bytes@.len()),
            final(self).spec_config() == old(self).spec_config(),
            final(self).spec_init() == old(self).spec_init(),
            final(self).spec_has_file() == old(self).spec_has_file(),
            final(self).spec_last_rotation() == old(self).spec_last_rotation(),
    {
        proof {
            use_type_invariant(&*self);
        }
        let show_stdout = match self.config.stdout {
            LogConfigOption::Stdout(s) => s || log_type == LogType::All,
            _ => false,
        };
        let show_timestamp = match self.config.timestamp {
            LogConfigOption::Timestamp(t) => t && log_type != LogType::Plain,
            _ => false,
        };
        let colors = match self.config.colors {
            LogConfigOption::Colors(c) => c,
            _ => false,
        };
        let show_level = match self.config.level {
            LogConfigOption::Level(l) => l && log_type != LogType::Plain,
            _ => false,
        };
        let show_line_num = match self.config.line_num {
            LogConfigOption::LineNum(l) => l && log_type != LogType::Plain,
            _ => false,
        };
        let show_millis = match self.config.show_millis {
            LogConfigOption::ShowMillis(m) => m && log_type != LogType::Plain,
            _ => false,
        };
        let show_bt = match self.config.show_bt {
            LogConfigOption::ShowBt(b) => b && (level == LogLevel::Error || level == LogLevel::Fatal),
            _ => false,
        };
        let max_len = match self.config.line_num_data_max_len {
            LogConfigOption::LineNumDataMaxLen(m) => m,
            _ => 0,
        };
        let has_file = self.has_file;
        let mut file: Vec<u8> = Vec::new();
        let mut out: Vec<Segment> = Vec::new();
        let ghost tsv = self.timestamp_text(log_type, date@, millis);
        if show_timestamp {
            let mut ts: Vec<u8> = Vec::new();
            ts.extend_from_slice(date);
            if show_millis {
                ts.push(46u8);
                let m = format_millis(millis);
                ts.extend_from_slice(m.as_slice());
            }
            assert(ts@ =~= tsv);
            let st = if colors { Style::Dimmed } else { Style::Plain };
            emit_bracketed(&mut file, &mut out, has_file, show_stdout, ts, st);
        }
        assert(file@ =~= if has_file { self.ts_part(log_type, date@, millis) } else { Seq::empty() });
        assert(segments_view(out@) =~= if show_stdout { self.ts_segments(log_type, date@, millis) } else { Seq::empty() });
        let ghost f1 = file@;
        let ghost o1 = segments_view(out@);
        if show_level {
            let st = if colors {
                match level {
                    LogLevel::Trace | LogLevel::Debug => Style::Magenta,
                    LogLevel::Info => Style::Green,
                    LogLevel::Warn => Style::Yellow,
                    LogLevel::Error | LogLevel::Fatal => Style::Red,
                }
            } else {
                Style::Plain
            };
            emit_level(&mut file, &mut out, has_file, show_stdout, level, st);
        }
        assert(file@ =~= f1 + if has_file { self.level_part(level, log_type) } else { Seq::empty() });
        assert(segments_view(out@) =~= o1 + if show_stdout { self.level_segments(level, log_type) } else { Seq::empty() });
        let ghost f2 = file@;
        let ghost o2 = segments_view(out@);
        if show_line_num {
            let shown = shorten_location(location, max_len);
            let st = if colors { Style::Yellow } else { Style::Plain };
            emit_bracketed(&mut file, &mut out, has_file, show_stdout, shown, st);
        }
        assert(file@ =~= f2 + if has_file { self.location_part(log_type, location@) } else { Seq::empty() });
        assert(segments_view(out@) =~= o2 + if show_stdout { self.location_segments(log_type, location@) } else { Seq::empty() });
        let ghost f3 = file@;
        let ghost o3 = segments_view(out@);
        if has_file {
            file.extend_from_slice(line);
            file.push(10u8);
            if show_bt {
                file.extend_from_slice(backtrace);
            }
            assert(file@ =~= f3 + line@.push(10u8) + self.backtrace_part(level, backtrace@));
        }
        if show_stdout {
            let mut l: Vec<u8> = Vec::new();
            l.extend_from_slice(line);
            l.push(10u8);
            assert(l@ =~= line@.push(10u8));
            emit_plain(&mut out, l.as_slice());
            if show_bt {
                emit_plain(&mut out, backtrace);
            }
            assert(segments_view(out@) =~= o3 + seq![(line@.push(10u8), Style::Plain)] + self.backtrace_segments(level, backtrace@));
        }
        proof {
            assert(file@ =~= self.file_text(level, line@, log_type, date@, millis, location@, backtrace@));
            assert(segments_view(out@) =~= self.stdout_text(
                level,
                line@,
                log_type,
                date@,
                millis,
                location@,
                backtrace@,
            ));
        }
        self.grow(file.len());
        LogOutput { file_bytes: file, stdout: out }
    }
}

impl LogCore {
    /// Renders one log call of `line` at `level`, reading the clock for the timestamp, the
    /// call stack for the caller's location (the first frame after those whose file contains
    /// `marker` or `alt_marker`) and the stack's backtrace, each only where it is shown. What
    /// those readings give depends on the machine and the moment; whatever they give, the
    /// output is the rendering of the line with them.
    pub fn compose(&mut self, level: LogLevel, line: &str, log_type: LogType, marker: &str, alt_marker: &str) -> (r: LogOutput)
        ensures
            final(self).wf(),
            exists|date: Seq<u8>, millis: i64, location: Seq<u8>, backtrace: Seq<u8>|
                {
                    &&& old(self).shows_timestamp(log_type) ==> is_date_bytes(date) && -1000 < millis < 1000
                    &&& !old(self).shows_timestamp(log_type) ==> date.len() == 0 && millis == 0
                    &&& old(self).shows_line_num(log_type) ==> exists|loc: Seq<char>|
                        #[trigger] is_frame_location(loc, marker@, alt_marker@) && location == encode_utf8(loc)
                    &&& !old(self).shows_line_num(log_type) ==> location.len() == 0
                    &&& !old(self).shows_backtrace(level) ==> backtrace.len() == 0
                    &&& r.file_bytes@ == old(self).file_text(level, line.spec_bytes(), log_type, date, millis, location, backtrace)
                    &&& segments_view(r.stdout@) == old(self).stdout_text(
                        level,
                        line.spec_bytes(),
                        log_type,
                        date,
                        millis,
                        location,
                        backtrace,
                    )
                },
            final(self).spec_cur_size() == sat_add(old(self).spec_cur_size(), r.file_bytes@.len()),
            final(self).spec_config() == old(self).spec_config(),
            final(self).spec_init() == old(self).spec_init(),
            final(self).spec_has_file() == old(self).spec_has_file(),
            final(self).spec_last_rotation() == old(self).spec_last_rotation(),
    {
        proof {
            use_type_invariant(&*self);
        }
        let (date, millis) = if self.shows_timestamp_now(log_type) {
            let (date, stamp) = local_timestamp();
            let millis = stamp % 1000;
            assert(-1000 < millis < 1000);
            (date, millis)
        } else {
            (Vec::new(), 0i64)
        };
        let location = if self.shows_line_num_now(log_type) {
            caller_location(FrameSearch::new(), marker, alt_marker)
        } else {
            String::new()
        };
        proof {
            if self.shows_line_num(log_type) {
                assert(is_frame_location(location@, marker@, alt_marker@));
            }
        }
        let backtrace = if self.shows_backtrace_now(level) {
            backtrace_text()
        } else {
            Vec::new()
        };
        self.render(
            level,
            line.as_bytes(),
            log_type,
            date.as_slice(),
            millis,
            location.as_str().as_bytes(),
            backtrace.as_slice(),
        )
    }

    /// Whether a call of this type shows a timestamp.
    fn shows_timestamp_now(&self, log_type: LogType) -> (r: bool)
        ensures
            r == self.shows_timestamp(log_type),
    {
        proof {
            use_type_invariant(self);
        }
        match self.config.timestamp {
            LogConfigOption::Timestamp(t) => t && log_type != LogType::Plain,
            _ => false,
        }
    }

    /// Whether a call of this type shows the caller's location.
    fn shows_line_num_now(&self, log_type: LogType) -> (r: bool)
        ensures
            r == self.shows_line_num(log_type),
    {
        proof {
            use_type_invariant(self);
        }
        match self.config.line_num {
            LogConfigOption::LineNum(l) => l && log_type != LogType::Plain,
            _ => false,
        }
    }

    /// Whether a call at this level shows a backtrace.
    fn shows_backtrace_now(&self, level: LogLevel) -> (r: bool)
        ensures
            r == self.shows_backtrace(level),
    {
        proof {
            use_type_invariant(self);
        }
        match self.config.show_bt {
            LogConfigOption::ShowBt(b) => b && (level == LogLevel::Error || level == LogLevel::Fatal),
            _ => false,
        }
    }
}

impl LogCore {
    /// The problem that keeps the file from being rotated, if any: the file path must be
    /// set and have a parent and a final component, and the delete-rotation option must be
    /// well formed.
    pub open spec fn rotation_problem(&self) -> Option<Seq<char>> {
        let fp = self.spec_config().file_path;
        if !(fp is FilePath) || fp->FilePath_0 is None {
            Some("file_path must be of the for FilePath(Option<PathBuf>)"@)
        } else if path_parent(fp->FilePath_0->Some_0@) is None {
            Some("file_path has an unexpected illegal value of None for parent"@)
        } else if path_file_name(fp->FilePath_0->Some_0@) is None {
            Some("file_path has an unexpected illegal value of None for file_name"@)
        } else if !(self.spec_config().delete_rotation is DeleteRotation) {
            Some("delete_rotation has an unexpected illegal value"@)
        } else {
            None
        }
    }

    /// The configured file path.
    pub open spec fn path_view(&self) -> Seq<char> {
        self.spec_config().file_path->FilePath_0->Some_0@
    }

    /// Plans a rotation: the file is deleted when the delete-rotation option is set, and
    /// otherwise renamed, in its own directory, to the rotated name built from `stamp` and
    /// `tag` (see [`rotated_name`]). The file is then reopened under its own path.
    pub fn rotation_plan(&self, stamp: &str, tag: u64) -> (r: Result<RotationPlan, Error>)
        ensures
            !self.spec_init() ==> (r matches Err(e) && is_err_of(e, ErrKind::Log, "log not initialized"@)),
            self.spec_init() && !self.spec_has_file() ==> r matches Ok(RotationPlan::Nothing),
            self.spec_init() && self.spec_has_file() && self.rotation_problem() is Some ==> (r matches Err(e)
                && is_err_of(e, ErrKind::IllegalArgument, self.rotation_problem()->Some_0)),
            self.spec_init() && self.spec_has_file() && self.rotation_problem() is None
                && self.spec_config().delete_rotation->DeleteRotation_0 ==> (r matches Ok(RotationPlan::Remove { path })
                && path@ == self.path_view()),
            self.spec_init() && self.spec_has_file() && self.rotation_problem() is None
                && !self.spec_config().delete_rotation->DeleteRotation_0 ==> (r matches Ok(RotationPlan::Rename { from, to })
                && from@ == self.path_view() && to@ == path_join(
                path_parent(self.path_view())->Some_0,
                rotated_name(path_file_name(self.path_view())->Some_0, stamp@, tag),
            )),
    {
        if !self.init {
            return Err(err(ErrKind::Log, "log not initialized"));
        }
        if !self.has_file {
            return Ok(RotationPlan::Nothing);
        }
        let path: &String = match &self.config.file_path {
            LogConfigOption::FilePath(Some(p)) => p,
            _ => {
                return Err(err(ErrKind::IllegalArgument, "file_path must be of the for FilePath(Option<PathBuf>)"));
            },
        };
        let parent = match parent_of(path.as_str()) {
            Some(p) => p,
            None => {
                return Err(
                    err(ErrKind::IllegalArgument, "file_path has an unexpected illegal value of None for parent"),
                );
            },
        };
        let name = match file_name_of(path.as_str()) {
            Some(n) => n,
            None => {
                return Err(
                    err(ErrKind::IllegalArgument, "file_path has an unexpected illegal value of None for file_name"),
                );
            },
        };
        let mut new_name = match rfind_char(name.as_str(), '.') {
            Some(pos) => String::from_str(name.as_str().substring_char(0, pos)),
            None => name.clone(),
        };
        let dashed = replace_colons(stamp);
        new_name.append(dashed.as_str());
        proof {
            reveal_strlit("_");
            reveal_strlit(".log");
        }
        new_name.append("_");
        append_decimal(&mut new_name, tag as u128);
        new_name.append(".log");
        assert(new_name@ =~= rotated_name(name@, stamp@, tag));
        match self.config.delete_rotation {
            LogConfigOption::DeleteRotation(delete) => {
                if delete {
                    Ok(RotationPlan::Remove { path: path.clone() })
                } else {
                    let to = join_path(parent.as_str(), new_name.as_str());
                    Ok(RotationPlan::Rename { from: path.clone(), to })
                }
            },
            _ => Err(err(ErrKind::IllegalArgument, "delete_rotation has an unexpected illegal value")),
        }
    }

    /// Plans a rotation at the current local time with a random tag; see
    /// [`LogCore::rotation_plan`].
    pub fn rotate_begin(&self) -> (r: Result<RotationPlan, Error>)
        ensures
            !self.spec_init() ==> (r matches Err(e) && is_err_of(e, ErrKind::Log, "log not initialized"@)),
            self.spec_init() && !self.spec_has_file() ==> r matches Ok(RotationPlan::Nothing),
            self.spec_init() && self.spec_has_file() && self.rotation_problem() is Some ==> (r matches Err(e)
                && is_err_of(e, ErrKind::IllegalArgument, self.rotation_problem()->Some_0)),
            self.spec_init() && self.spec_has_file() && self.rotation_problem() is None
                && self.spec_config().delete_rotation->DeleteRotation_0 ==> (r matches Ok(RotationPlan::Remove { path })
                && path@ == self.path_view()),
            self.spec_init() && self.spec_has_file() && self.rotation_problem() is None
                && !self.spec_config().delete_rotation->DeleteRotation_0 ==> (r matches Ok(RotationPlan::Rename { from, to })
                && from@ == self.path_view() && exists|stamp: Seq<char>, tag: u64|
                is_rotation_stamp(stamp) && to@ == path_join(
                    path_parent(self.path_view())->Some_0,
                    #[trigger] rotated_name(path_file_name(self.path_view())->Some_0, stamp, tag),
                )),
    {
        let stamp = rotation_stamp();
        let tag = random_u64();
        self.rotation_plan(stamp.as_str(), tag)
    }
}

} // verus!
