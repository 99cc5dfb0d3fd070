use vstd::prelude::*;
use crate::log_core::{config_problem, level_bytes, millis_bytes, shown_location, LogCore, LogType, int_bytes};
use crate::log_types::{level_text, LogConfig, LogConfigOption, LogConfigOptionName, LogLevel};
use crate::text::dec_bytes;

verus! {

/// Reading an option back after setting it gives the value set, and every other option
/// keeps its value.
pub proof fn law_set_then_get(config: LogConfig, value: LogConfigOption, name: LogConfigOptionName)
    ensures
        config.with(value).get(value.name()) == value,
        name != value.name() ==> config.with(value).get(name) == config.get(name),
{
}

/// Setting an option keeps every field holding an option of its own name.
pub proof fn law_set_keeps_well_formed(config: LogConfig, value: LogConfigOption)
    requires
        config.well_formed(),
    ensures
        config.with(value).well_formed(),
{
}

/// The default configuration passes the configuration check.
pub proof fn law_default_config_valid(config: LogConfig, path_is_dir: bool)
    requires
        config.is_default(),
    ensures
        config_problem(config, path_is_dir) is None,
{
}

/// A number below 10 has one digit, a number below 100 at most two, one below 1000 at
/// most three, and each further digit needs a factor ten more.
proof fn lemma_dec_len(n: nat)
    ensures
        n < 10 ==> dec_bytes(n).len() == 1,
        10 <= n < 100 ==> dec_bytes(n).len() == 2,
        100 <= n < 1000 ==> dec_bytes(n).len() == 3,
    decreases n,
{
    if n >= 10 {
        lemma_dec_len(n / 10);
    }
}

/// The milliseconds of a timestamp are always shown with exactly three digits.
pub proof fn law_millis_three_digits(millis: i64)
    requires
        0 <= millis < 1000,
    ensures
        millis_bytes(millis).len() == 3,
{
    lemma_dec_len(millis as nat);
    assert(int_bytes(millis as int) == dec_bytes(millis as nat));
}

/// The location shown is never longer than the configured maximum and the two dots that
/// mark a cut.
pub proof fn law_location_bounded(location: Seq<u8>, max_len: usize)
    ensures
        shown_location(location, max_len).len() <= max_len + 2,
        location.len() <= max_len ==> shown_location(location, max_len) == location,
{
}

/// Below the error level, the backtrace never appears in the file.
pub proof fn law_backtrace_only_for_errors(
    log: LogCore,
    level: LogLevel,
    line: Seq<u8>,
    log_type: LogType,
    date: Seq<u8>,
    millis: i64,
    location: Seq<u8>,
    bt1: Seq<u8>,
    bt2: Seq<u8>,
)
    requires
        level != LogLevel::Error,
        level != LogLevel::Fatal,
    ensures
        log.file_text(level, line, log_type, date, millis, location, bt1) == log.file_text(
            level,
            line,
            log_type,
            date,
            millis,
            location,
            bt2,
        ),
        log.stdout_text(level, line, log_type, date, millis, location, bt1) == log.stdout_text(
            level,
            line,
            log_type,
            date,
            millis,
            location,
            bt2,
        ),
{
}

/// A plain call writes the line and a newline, and nothing else, below the error level.
pub proof fn law_plain_is_line_only(
    log: LogCore,
    level: LogLevel,
    line: Seq<u8>,
    date: Seq<u8>,
    millis: i64,
    location: Seq<u8>,
    backtrace: Seq<u8>,
)
    requires
        log.spec_has_file(),
        level != LogLevel::Error,
        level != LogLevel::Fatal,
    ensures
        log.file_text(level, line, LogType::Plain, date, millis, location, backtrace) == line.push(10u8),
{
    assert(log.file_text(level, line, LogType::Plain, date, millis, location, backtrace) =~= line.push(10u8));
}

/// With automatic rotation on and well-formed limits, the check made before each log line
/// asks for a rotation exactly when more than `max_age_millis` passed since the last
/// rotation or the file holds more than `max_size_bytes` bytes, the same answer as
/// `need_rotate_at` gives for an initialized log.
pub proof fn law_auto_rotation_by_age_or_size(log: LogCore, now: u128, max_age: u128, max_size: u64)
    requires
        log.spec_config().auto_rotate == LogConfigOption::AutoRotate(true),
        log.spec_config().max_age_millis == LogConfigOption::MaxAgeMillis(max_age),
        log.spec_config().max_size_bytes == LogConfigOption::MaxSizeBytes(max_size),
    ensures
        log.auto_rotation(now) == Ok::<bool, Seq<char>>(
            (now >= log.spec_last_rotation() && now - log.spec_last_rotation() > max_age) || log.spec_cur_size()
                > max_size,
        ),
        log.limits_problem() is None,
        log.auto_rotation(now) == Ok::<bool, Seq<char>>(log.due_at(now)),
{
}

/// A file that holds more than `max_size_bytes` bytes is rotated before the next line when
/// automatic rotation is on, however recently it was rotated.
pub proof fn law_oversized_file_rotates(log: LogCore, now: u128, max_age: u128, max_size: u64)
    requires
        log.spec_config().auto_rotate == LogConfigOption::AutoRotate(true),
        log.spec_config().max_age_millis == LogConfigOption::MaxAgeMillis(max_age),
        log.spec_config().max_size_bytes == LogConfigOption::MaxSizeBytes(max_size),
        log.spec_cur_size() > max_size,
    ensures
        log.auto_rotation(now) == Ok::<bool, Seq<char>>(true),
        log.due_at(now),
{
}

/// A file is never rotated automatically when automatic rotation is off.
pub proof fn law_no_auto_rotation_when_off(log: LogCore, now: u128)
    requires
        log.spec_config().auto_rotate == LogConfigOption::AutoRotate(false),
    ensures
        log.auto_rotation(now) == Ok::<bool, Seq<char>>(false),
{
}

/// The level written in a log line is the ASCII text that `LogLevel::to_string` gives.
pub proof fn law_level_bytes_are_level_text(level: LogLevel)
    ensures
        level_bytes(level).len() == level_text(level).len(),
        forall|i: int| 0 <= i < level_bytes(level).len() ==> level_bytes(level)[i] as int == level_text(level)[i] as int,
{
    reveal_strlit("TRACE");
    reveal_strlit("DEBUG");
    reveal_strlit("INFO");
    reveal_strlit("WARN");
    reveal_strlit("ERROR");
    reveal_strlit("FATAL");
}

/// Different levels are written with different texts.
pub proof fn law_levels_written_apart(a: LogLevel, b: LogLevel)
    requires
        a != b,
    ensures
        level_bytes(a) != level_bytes(b),
{
    law_level_bytes_are_level_text(a);
    law_level_bytes_are_level_text(b);
    reveal_strlit("TRACE");
    reveal_strlit("DEBUG");
    reveal_strlit("INFO");
    reveal_strlit("WARN");
    reveal_strlit("ERROR");
    reveal_strlit("FATAL");
    if level_bytes(a).len() == level_bytes(b).len() {
        if level_bytes(a)[0] == level_bytes(b)[0] {
            assert(level_bytes(a)[1] != level_bytes(b)[1] || level_bytes(a)[4] != level_bytes(b)[4]);
        }
    }
}

} // verus!
