use vstd::prelude::*;

verus! {

/// Standard 6 log levels.
#[derive(Debug, Clone, Copy, PartialEq, Eq, Structural)]
pub enum LogLevel {
    /// Very fine grained logging information, mostly for debugging.
    Trace,
    /// Debugging information.
    Debug,
    /// Standard information usually displayed to the user.
    Info,
    /// Warning of something the user should be aware of.
    Warn,
    /// Error that the user must be aware of.
    Error,
    /// Fatal error that usually makes the application unusable.
    Fatal,
}

/// The text of a log level: `TRACE`, `DEBUG`, `INFO`, `WARN`, `ERROR` or `FATAL`.
pub open spec fn level_text(level: LogLevel) -> Seq<char> {
    match level {
        LogLevel::Trace => "TRACE"@,
        LogLevel::Debug => "DEBUG"@,
        LogLevel::Info => "INFO"@,
        LogLevel::Warn => "WARN"@,
        LogLevel::Error => "ERROR"@,
        LogLevel::Fatal => "FATAL"@,
    }
}

impl LogLevel {
    /// Returns the text of this level, for instance `INFO`.
    pub fn to_string(&self) -> (r: String)
        ensures
            r@ == level_text(*self),
    {
        let s: &str = match self {
            LogLevel::Trace => "TRACE",
            LogLevel::Debug => "DEBUG",
            LogLevel::Info => "INFO",
            LogLevel::Warn => "WARN",
            LogLevel::Error => "ERROR",
            LogLevel::Fatal => "FATAL",
        };
        String::from_str(s)
    }
}

/// The names of the configuration options. See [`LogConfigOption`].
#[derive(Debug, Clone, Copy, PartialEq, Eq, Structural)]
pub enum LogConfigOptionName {
    /// The name of [`LogConfigOption::Colors`].
    Colors,
    /// The name of [`LogConfigOption::Stdout`].
    Stdout,
    /// The name of [`LogConfigOption::MaxSizeBytes`].
    MaxSizeBytes,
    /// The name of [`LogConfigOption::MaxAgeMillis`].
    MaxAgeMillis,
    /// The name of [`LogConfigOption::Timestamp`].
    Timestamp,
    /// The name of [`LogConfigOption::Level`].
    Level,
    /// The name of [`LogConfigOption::LineNum`].
    LineNum,
    /// The name of [`LogConfigOption::ShowMillis`].
    ShowMillis,
    /// The name of [`LogConfigOption::AutoRotate`].
    AutoRotate,
    /// The name of [`LogConfigOption::FilePath`].
    FilePath,
    /// The name of [`LogConfigOption::ShowBt`].
    ShowBt,
    /// The name of [`LogConfigOption::LineNumDataMaxLen`].
    LineNumDataMaxLen,
    /// The name of [`LogConfigOption::DeleteRotation`].
    DeleteRotation,
    /// The name of [`LogConfigOption::FileHeader`].
    FileHeader,
}

/// A log setting. Every setting but [`LogConfigOption::FilePath`] may be changed after the
/// log is initialized.
#[derive(Debug)]
pub enum LogConfigOption {
    /// Whether or not to display colors for this log. The default value is true.
    Colors(bool),
    /// Whether or not to log to standard output for this log. The default value is true.
    Stdout(bool),
    /// The maximum size in bytes before this log needs to be rotated. The default value is 1_048_576 bytes or 1 mb.
    MaxSizeBytes(u64),
    /// The maximum time in milliseconds before this log needs to be rotated. The default value is 3_600_000 ms or 1 hour.
    MaxAgeMillis(u128),
    /// Whether or not to display the timestamp with this log. The default value is true.
    Timestamp(bool),
    /// Whether or not to display the log level with this log. The default value is true.
    Level(bool),
    /// Whether or not to display the line number information with this log. The default value is true.
    LineNum(bool),
    /// Whether or not to show milliseconds with this log. The default value is true.
    ShowMillis(bool),
    /// Whether or not to auto-rotate this log. The default value is true.
    AutoRotate(bool),
    /// The optional file path that this log writes to. The default value is None.
    FilePath(Option<String>),
    /// Whether or not to show backtraces with this log. Backtraces are only displayed at the Error and Fatal levels. The default value is true.
    ShowBt(bool),
    /// The maximum length of the line number data that is logged. The default value is 25 characters.
    LineNumDataMaxLen(usize),
    /// Whether or not to delete the rotated file instead of keeping it. The default value is false.
    DeleteRotation(bool),
    /// A header line written at the top of each file produced by this logger. The default value is an empty string which is not displayed.
    FileHeader(String),
}

impl LogConfigOption {
    /// The name of this option.
    pub open spec fn name(self) -> LogConfigOptionName {
        match self {
            LogConfigOption::Colors(_) => LogConfigOptionName::Colors,
            LogConfigOption::Stdout(_) => LogConfigOptionName::Stdout,
            LogConfigOption::MaxSizeBytes(_) => LogConfigOptionName::MaxSizeBytes,
            LogConfigOption::MaxAgeMillis(_) => LogConfigOptionName::MaxAgeMillis,
            LogConfigOption::Timestamp(_) => LogConfigOptionName::Timestamp,
            LogConfigOption::Level(_) => LogConfigOptionName::Level,
            LogConfigOption::LineNum(_) => LogConfigOptionName::LineNum,
            LogConfigOption::ShowMillis(_) => LogConfigOptionName::ShowMillis,
            LogConfigOption::AutoRotate(_) => LogConfigOptionName::AutoRotate,
            LogConfigOption::FilePath(_) => LogConfigOptionName::FilePath,
            LogConfigOption::ShowBt(_) => LogConfigOptionName::ShowBt,
            LogConfigOption::LineNumDataMaxLen(_) => LogConfigOptionName::LineNumDataMaxLen,
            LogConfigOption::DeleteRotation(_) => LogConfigOptionName::DeleteRotation,
            LogConfigOption::FileHeader(_) => LogConfigOptionName::FileHeader,
        }
    }

    /// Whether two options are the same setting with the same value.
    pub open spec fn same(self, other: LogConfigOption) -> bool {
        match (self, other) {
            (LogConfigOption::Colors(a), LogConfigOption::Colors(b)) => a == b,
            (LogConfigOption::Stdout(a), LogConfigOption::Stdout(b)) => a == b,
            (LogConfigOption::MaxSizeBytes(a), LogConfigOption::MaxSizeBytes(b)) => a == b,
            (LogConfigOption::MaxAgeMillis(a), LogConfigOption::MaxAgeMillis(b)) => a == b,
            (LogConfigOption::Timestamp(a), LogConfigOption::Timestamp(b)) => a == b,
            (LogConfigOption::Level(a), LogConfigOption::Level(b)) => a == b,
            (LogConfigOption::LineNum(a), LogConfigOption::LineNum(b)) => a == b,
            (LogConfigOption::ShowMillis(a), LogConfigOption::ShowMillis(b)) => a == b,
            (LogConfigOption::AutoRotate(a), LogConfigOption::AutoRotate(b)) => a == b,
            (LogConfigOption::FilePath(a), LogConfigOption::FilePath(b)) => match (a, b) {
                (None, None) => true,
                (Some(x), Some(y)) => x@ == y@,
                _ => false,
            },
            (LogConfigOption::ShowBt(a), LogConfigOption::ShowBt(b)) => a == b,
            (LogConfigOption::LineNumDataMaxLen(a), LogConfigOption::LineNumDataMaxLen(b)) => a == b,
            (LogConfigOption::DeleteRotation(a), LogConfigOption::DeleteRotation(b)) => a == b,
            (LogConfigOption::FileHeader(a), LogConfigOption::FileHeader(b)) => a@ == b@,
            _ => false,
        }
    }

    /// Returns the name of this option.
    pub fn option_name(&self) -> (r: LogConfigOptionName)
        ensures
            r == self.name(),
    {
        match self {
            LogConfigOption::Colors(_) => LogConfigOptionName::Colors,
            LogConfigOption::Stdout(_) => LogConfigOptionName::Stdout,
            LogConfigOption::MaxSizeBytes(_) => LogConfigOptionName::MaxSizeBytes,
            LogConfigOption::MaxAgeMillis(_) => LogConfigOptionName::MaxAgeMillis,
            LogConfigOption::Timestamp(_) => LogConfigOptionName::Timestamp,
            LogConfigOption::Level(_) => LogConfigOptionName::Level,
            LogConfigOption::LineNum(_) => LogConfigOptionName::LineNum,
            LogConfigOption::ShowMillis(_) => LogConfigOptionName::ShowMillis,
            LogConfigOption::AutoRotate(_) => LogConfigOptionName::AutoRotate,
            LogConfigOption::FilePath(_) => LogConfigOptionName::FilePath,
            LogConfigOption::ShowBt(_) => LogConfigOptionName::ShowBt,
            LogConfigOption::LineNumDataMaxLen(_) => LogConfigOptionName::LineNumDataMaxLen,
            LogConfigOption::DeleteRotation(_) => LogConfigOptionName::DeleteRotation,
            LogConfigOption::FileHeader(_) => LogConfigOptionName::FileHeader,
        }
    }
}

impl Clone for LogConfigOption {
    fn clone(&self) -> (r: Self)
        ensures
            r == *self,
    {
        match self {
            LogConfigOption::Colors(x) => LogConfigOption::Colors(*x),
            LogConfigOption::Stdout(x) => LogConfigOption::Stdout(*x),
            LogConfigOption::MaxSizeBytes(x) => LogConfigOption::MaxSizeBytes(*x),
            LogConfigOption::MaxAgeMillis(x) => LogConfigOption::MaxAgeMillis(*x),
            LogConfigOption::Timestamp(x) => LogConfigOption::Timestamp(*x),
            LogConfigOption::Level(x) => LogConfigOption::Level(*x),
            LogConfigOption::LineNum(x) => LogConfigOption::LineNum(*x),
            LogConfigOption::ShowMillis(x) => LogConfigOption::ShowMillis(*x),
            LogConfigOption::AutoRotate(x) => LogConfigOption::AutoRotate(*x),
            LogConfigOption::FilePath(x) => LogConfigOption::FilePath(match x {
                Some(s) => Some(s.clone()),
                None => None,
            }),
            LogConfigOption::ShowBt(x) => LogConfigOption::ShowBt(*x),
            LogConfigOption::LineNumDataMaxLen(x) => LogConfigOption::LineNumDataMaxLen(*x),
            LogConfigOption::DeleteRotation(x) => LogConfigOption::DeleteRotation(*x),
            LogConfigOption::FileHeader(x) => LogConfigOption::FileHeader(x.clone()),
        }
    }
}

impl PartialEq for LogConfigOption {
    fn eq(&self, other: &Self) -> (r: bool) {
        match self {
            LogConfigOption::Colors(a) => match other {
                LogConfigOption::Colors(b) => *a == *b,
                _ => false,
            },
            LogConfigOption::Stdout(a) => match other {
                LogConfigOption::Stdout(b) => *a == *b,
                _ => false,
            },
            LogConfigOption::MaxSizeBytes(a) => match other {
                LogConfigOption::MaxSizeBytes(b) => *a == *b,
                _ => false,
            },
            LogConfigOption::MaxAgeMillis(a) => match other {
                LogConfigOption::MaxAgeMillis(b) => *a == *b,
                _ => false,
            },
            LogConfigOption::Timestamp(a) => match other {
                LogConfigOption::Timestamp(b) => *a == *b,
                _ => false,
            },
            LogConfigOption::Level(a) => match other {
                LogConfigOption::Level(b) => *a == *b,
                _ => false,
            },
            LogConfigOption::LineNum(a) => match other {
                LogConfigOption::LineNum(b) => *a == *b,
                _ => false,
            },
            LogConfigOption::ShowMillis(a) => match other {
                LogConfigOption::ShowMillis(b) => *a == *b,
                _ => false,
            },
            LogConfigOption::AutoRotate(a) => match other {
                LogConfigOption::AutoRotate(b) => *a == *b,
                _ => false,
            },
            LogConfigOption::FilePath(a) => match other {
                LogConfigOption::FilePath(b) => match a {
                    Some(x) => match b {
                        Some(y) => *x == *y,
                        None => false,
                    },
                    None => b.is_none(),
                },
                _ => false,
            },
            LogConfigOption::ShowBt(a) => match other {
                LogConfigOption::ShowBt(b) => *a == *b,
                _ => false,
            },
            LogConfigOption::LineNumDataMaxLen(a) => match other {
                LogConfigOption::LineNumDataMaxLen(b) => *a == *b,
                _ => false,
            },
            LogConfigOption::DeleteRotation(a) => match other {
                LogConfigOption::DeleteRotation(b) => *a == *b,
                _ => false,
            },
            LogConfigOption::FileHeader(a) => match other {
                LogConfigOption::FileHeader(b) => *a == *b,
                _ => false,
            },
        }
    }
}

impl vstd::std_specs::cmp::PartialEqSpecImpl for LogConfigOption {
    open spec fn obeys_eq_spec() -> bool {
        true
    }

    open spec fn eq_spec(&self, other: &LogConfigOption) -> bool {
        self.same(*other)
    }
}

/// The log configuration. Each field holds the option of the same name; a field that holds
/// an option of another name makes the configuration invalid.
#[derive(Debug)]
pub struct LogConfig {
    /// See [`LogConfigOption::Colors`].
    pub colors: LogConfigOption,
    /// See [`LogConfigOption::Stdout`].
    pub stdout: LogConfigOption,
    /// See [`LogConfigOption::MaxSizeBytes`].
    pub max_size_bytes: LogConfigOption,
    /// See [`LogConfigOption::MaxAgeMillis`].
    pub max_age_millis: LogConfigOption,
    /// See [`LogConfigOption::Timestamp`].
    pub timestamp: LogConfigOption,
    /// See [`LogConfigOption::Level`].
    pub level: LogConfigOption,
    /// See [`LogConfigOption::LineNum`].
    pub line_num: LogConfigOption,
    /// See [`LogConfigOption::ShowMillis`].
    pub show_millis: LogConfigOption,
    /// See [`LogConfigOption::AutoRotate`].
    pub auto_rotate: LogConfigOption,
    /// See [`LogConfigOption::FilePath`].
    pub file_path: LogConfigOption,
    /// See [`LogConfigOption::ShowBt`].
    pub show_bt: LogConfigOption,
    /// See [`LogConfigOption::LineNumDataMaxLen`].
    pub line_num_data_max_len: LogConfigOption,
    /// See [`LogConfigOption::DeleteRotation`].
    pub delete_rotation: LogConfigOption,
    /// See [`LogConfigOption::FileHeader`].
    pub file_header: LogConfigOption,
}

impl LogConfig {
    /// The option held by the field of the given name.
    pub open spec fn get(self, name: LogConfigOptionName) -> LogConfigOption {
        match name {
            LogConfigOptionName::Colors => self.colors,
            LogConfigOptionName::Stdout => self.stdout,
            LogConfigOptionName::MaxSizeBytes => self.max_size_bytes,
            LogConfigOptionName::MaxAgeMillis => self.max_age_millis,
            LogConfigOptionName::Timestamp => self.timestamp,
            LogConfigOptionName::Level => self.level,
            LogConfigOptionName::LineNum => self.line_num,
            LogConfigOptionName::ShowMillis => self.show_millis,
            LogConfigOptionName::AutoRotate => self.auto_rotate,
            LogConfigOptionName::FilePath => self.file_path,
            LogConfigOptionName::ShowBt => self.show_bt,
            LogConfigOptionName::LineNumDataMaxLen => self.line_num_data_max_len,
            LogConfigOptionName::DeleteRotation => self.delete_rotation,
            LogConfigOptionName::FileHeader => self.file_header,
        }
    }

    /// The configuration in which the field of the option's name holds `value`.
    pub open spec fn with(self, value: LogConfigOption) -> LogConfig {
        match value.name() {
            LogConfigOptionName::Colors => LogConfig { colors: value, ..self },
            LogConfigOptionName::Stdout => LogConfig { stdout: value, ..self },
            LogConfigOptionName::MaxSizeBytes => LogConfig { max_size_bytes: value, ..self },
            LogConfigOptionName::MaxAgeMillis => LogConfig { max_age_millis: value, ..self },
            LogConfigOptionName::Timestamp => LogConfig { timestamp: value, ..self },
            LogConfigOptionName::Level => LogConfig { level: value, ..self },
            LogConfigOptionName::LineNum => LogConfig { line_num: value, ..self },
            LogConfigOptionName::ShowMillis => LogConfig { show_millis: value, ..self },
            LogConfigOptionName::AutoRotate => LogConfig { auto_rotate: value, ..self },
            LogConfigOptionName::FilePath => LogConfig { file_path: value, ..self },
            LogConfigOptionName::ShowBt => LogConfig { show_bt: value, ..self },
            LogConfigOptionName::LineNumDataMaxLen => LogConfig { line_num_data_max_len: value, ..self },
            LogConfigOptionName::DeleteRotation => LogConfig { delete_rotation: value, ..self },
            LogConfigOptionName::FileHeader => LogConfig { file_header: value, ..self },
        }
    }

    /// Every field holds an option of its own name.
    pub open spec fn well_formed(self) -> bool {
        self.colors is Colors
        && self.stdout is Stdout
        && self.max_size_bytes is MaxSizeBytes
        && self.max_age_millis is MaxAgeMillis
        && self.timestamp is Timestamp
        && self.level is Level
        && self.line_num is LineNum
        && self.show_millis is ShowMillis
        && self.auto_rotate is AutoRotate
        && self.file_path is FilePath
        && self.show_bt is ShowBt
        && self.line_num_data_max_len is LineNumDataMaxLen
        && self.delete_rotation is DeleteRotation
        && self.file_header is FileHeader
    }

    /// The default configuration.
    pub open spec fn is_default(self) -> bool {
        self.colors == LogConfigOption::Colors(true)
        && self.stdout == LogConfigOption::Stdout(true)
        && self.max_size_bytes == LogConfigOption::MaxSizeBytes(1_048_576u64)
        && self.max_age_millis == LogConfigOption::MaxAgeMillis(3_600_000u128)
        && self.timestamp == LogConfigOption::Timestamp(true)
        && self.level == LogConfigOption::Level(true)
        && self.line_num == LogConfigOption::LineNum(true)
        && self.show_millis == LogConfigOption::ShowMillis(true)
        && self.auto_rotate == LogConfigOption::AutoRotate(true)
        && self.file_path == LogConfigOption::FilePath(None)
        && self.show_bt == LogConfigOption::ShowBt(true)
        && self.line_num_data_max_len == LogConfigOption::LineNumDataMaxLen(25)
        && self.delete_rotation == LogConfigOption::DeleteRotation(false)
        && (self.file_header matches LogConfigOption::FileHeader(h) && h@.len() == 0)
    }
}

impl Clone for LogConfig {
    fn clone(&self) -> (r: Self)
        ensures
            r == *self,
    {
        LogConfig {
            colors: self.colors.clone(),
            stdout: self.stdout.clone(),
            max_size_bytes: self.max_size_bytes.clone(),
            max_age_millis: self.max_age_millis.clone(),
            timestamp: self.timestamp.clone(),
            level: self.level.clone(),
            line_num: self.line_num.clone(),
            show_millis: self.show_millis.clone(),
            auto_rotate: self.auto_rotate.clone(),
            file_path: self.file_path.clone(),
            show_bt: self.show_bt.clone(),
            line_num_data_max_len: self.line_num_data_max_len.clone(),
            delete_rotation: self.delete_rotation.clone(),
            file_header: self.file_header.clone(),
        }
    }
}

impl Default for LogConfig {
    fn default() -> (r: Self)
        ensures
            r.is_default(),
    {
        LogConfig {
            colors: LogConfigOption::Colors(true),
            stdout: LogConfigOption::Stdout(true),
            max_size_bytes: LogConfigOption::MaxSizeBytes(1024 * 1024),
            max_age_millis: LogConfigOption::MaxAgeMillis(1000 * 60 * 60),
            timestamp: LogConfigOption::Timestamp(true),
            level: LogConfigOption::Level(true),
            line_num: LogConfigOption::LineNum(true),
            show_millis: LogConfigOption::ShowMillis(true),
            auto_rotate: LogConfigOption::AutoRotate(true),
            file_path: LogConfigOption::FilePath(None),
            show_bt: LogConfigOption::ShowBt(true),
            line_num_data_max_len: LogConfigOption::LineNumDataMaxLen(25),
            delete_rotation: LogConfigOption::DeleteRotation(false),
            file_header: LogConfigOption::FileHeader(String::new()),
        }
    }
}

/// The default configuration holds in each field an option of that field's name.
pub proof fn lemma_default_well_formed(config: LogConfig)
    requires
        config.is_default(),
    ensures
        config.well_formed(),
{
}

} // verus!
