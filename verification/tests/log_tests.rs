use bmw::error::ErrKind;
use bmw::frames::FrameSearch;
use bmw::log_core::{format_millis, shorten_location, LogBuilder, LogType, RotationPlan, Style};
use bmw::log_types::{LogConfig, LogConfigOption, LogConfigOptionName, LogLevel};
use bmw::log_types::LogConfigOption::{
    AutoRotate, Colors, DeleteRotation, FileHeader, FilePath, Level, LineNum, LineNumDataMaxLen, MaxAgeMillis,
    MaxSizeBytes, ShowBt, ShowMillis, Stdout, Timestamp,
};
use std::path::Path;

fn now_ms() -> u128 {
    std::time::SystemTime::now()
        .duration_since(std::time::UNIX_EPOCH)
        .unwrap()
        .as_millis()
}

fn is_dir(p: &str) -> bool {
    Path::new(p).is_dir()
}

#[test]
fn test_log_config() {
    let d = LogConfig::default();
    assert_eq!(d.colors, LogConfigOption::Colors(true));
}

#[test]
fn test_display_levels() {
    assert_eq!(LogLevel::Trace.to_string(), "TRACE".to_string());
    assert_eq!(LogLevel::Debug.to_string(), "DEBUG".to_string());
    assert_eq!(LogLevel::Info.to_string(), "INFO".to_string());
    assert_eq!(LogLevel::Warn.to_string(), "WARN".to_string());
    assert_eq!(LogLevel::Error.to_string(), "ERROR".to_string());
    assert_eq!(LogLevel::Fatal.to_string(), "FATAL".to_string());
}

#[test]
fn test_format_millis() {
    assert_eq!(String::from_utf8(format_millis(777)).unwrap(), "777".to_string());
    assert_eq!(String::from_utf8(format_millis(77)).unwrap(), "077".to_string());
    assert_eq!(String::from_utf8(format_millis(7)).unwrap(), "007".to_string());
    assert_eq!(String::from_utf8(format_millis(0)).unwrap(), "000".to_string());
}

fn build_with(f: impl FnOnce(&mut LogConfig)) -> bool {
    let mut c = LogConfig::default();
    f(&mut c);
    let dir = match &c.file_path {
        LogConfigOption::FilePath(Some(p)) => is_dir(p),
        _ => false,
    };
    LogBuilder::build(c, dir).is_ok()
}

#[test]
fn test_bad_configs() {
    assert!(build_with(|_| {}));
    assert!(build_with(|c| c.colors = Colors(false)));
    assert!(!build_with(|c| c.colors = DeleteRotation(false)));
    assert!(build_with(|c| c.stdout = Stdout(false)));
    assert!(!build_with(|c| c.stdout = DeleteRotation(false)));
    assert!(build_with(|c| c.max_size_bytes = MaxSizeBytes(1_000_000)));
    assert!(!build_with(|c| c.max_size_bytes = Level(false)));
    assert!(build_with(|c| c.max_age_millis = MaxAgeMillis(3_600_000)));
    assert!(!build_with(|c| c.max_age_millis = Colors(true)));
    assert!(build_with(|c| c.timestamp = Timestamp(false)));
    assert!(!build_with(|c| c.timestamp = FilePath(None)));
    assert!(build_with(|c| c.level = Level(false)));
    assert!(!build_with(|c| c.level = ShowBt(true)));
    assert!(build_with(|c| c.line_num = LineNum(false)));
    assert!(!build_with(|c| c.line_num = FileHeader("file_header_value".to_string())));
    assert!(build_with(|c| c.show_millis = ShowMillis(true)));
    assert!(!build_with(|c| c.show_millis = DeleteRotation(false)));
    assert!(build_with(|c| c.auto_rotate = AutoRotate(true)));
    assert!(!build_with(|c| c.auto_rotate = Stdout(false)));
    assert!(build_with(|c| c.file_path = FilePath(Some("./anything".to_string()))));
    // error because it's a root path
    assert!(!build_with(|c| c.file_path = FilePath(Some("".to_string()))));
    // error because it's a directory
    assert!(!build_with(|c| c.file_path = FilePath(Some(".".to_string()))));
    // none is ok (stdout only)
    assert!(build_with(|c| c.file_path = FilePath(None)));
    assert!(!build_with(|c| c.file_path = Stdout(false)));
    assert!(build_with(|c| c.show_bt = ShowBt(true)));
    assert!(!build_with(|c| c.show_bt = Stdout(false)));
    assert!(build_with(|c| c.line_num_data_max_len = LineNumDataMaxLen(30)));
    assert!(!build_with(|c| c.line_num_data_max_len = FileHeader("".to_string())));
    assert!(build_with(|c| c.delete_rotation = DeleteRotation(false)));
    assert!(!build_with(|c| c.delete_rotation = Colors(false)));
    assert!(build_with(|c| c.file_header = FileHeader("some_value".to_string())));
    assert!(!build_with(|c| c.file_header = AutoRotate(false)));
}

#[test]
fn test_config_options() {
    let mut log = LogBuilder::build(LogConfig::default(), false).unwrap();

    assert_eq!(log.get_config_option(LogConfigOptionName::Colors).unwrap(), &Colors(true));
    log.set_config_option(Colors(false)).unwrap();
    assert_eq!(log.get_config_option(LogConfigOptionName::Colors).unwrap(), &Colors(false));

    assert_eq!(log.get_config_option(LogConfigOptionName::Stdout).unwrap(), &Stdout(true));
    log.set_config_option(Stdout(false)).unwrap();
    assert_eq!(log.get_config_option(LogConfigOptionName::Stdout).unwrap(), &Stdout(false));

    assert_eq!(
        log.get_config_option(LogConfigOptionName::MaxAgeMillis).unwrap(),
        &MaxAgeMillis(60 * 60 * 1000)
    );
    log.set_config_option(MaxAgeMillis(30 * 60 * 1000)).unwrap();
    assert_eq!(
        log.get_config_option(LogConfigOptionName::MaxAgeMillis).unwrap(),
        &MaxAgeMillis(30 * 60 * 1000)
    );

    assert_eq!(log.get_config_option(LogConfigOptionName::Timestamp).unwrap(), &Timestamp(true));
    log.set_config_option(Timestamp(false)).unwrap();
    assert_eq!(log.get_config_option(LogConfigOptionName::Timestamp).unwrap(), &Timestamp(false));

    assert_eq!(log.get_config_option(LogConfigOptionName::Level).unwrap(), &Level(true));
    log.set_config_option(Level(false)).unwrap();
    assert_eq!(log.get_config_option(LogConfigOptionName::Level).unwrap(), &Level(false));

    assert_eq!(log.get_config_option(LogConfigOptionName::LineNum).unwrap(), &LineNum(true));
    log.set_config_option(LineNum(false)).unwrap();
    assert_eq!(log.get_config_option(LogConfigOptionName::LineNum).unwrap(), &LineNum(false));

    assert_eq!(log.get_config_option(LogConfigOptionName::ShowMillis).unwrap(), &ShowMillis(true));
    log.set_config_option(ShowMillis(false)).unwrap();
    assert_eq!(log.get_config_option(LogConfigOptionName::ShowMillis).unwrap(), &ShowMillis(false));

    assert_eq!(log.get_config_option(LogConfigOptionName::AutoRotate).unwrap(), &AutoRotate(true));
    log.set_config_option(AutoRotate(false)).unwrap();
    assert_eq!(log.get_config_option(LogConfigOptionName::AutoRotate).unwrap(), &AutoRotate(false));

    assert_eq!(log.get_config_option(LogConfigOptionName::FilePath).unwrap(), &FilePath(None));
    // file_path cannot be set
    assert!(log.set_config_option(FilePath(Some("./anything".to_string()))).is_err());

    assert_eq!(log.get_config_option(LogConfigOptionName::ShowBt).unwrap(), &ShowBt(true));
    log.set_config_option(ShowBt(false)).unwrap();
    assert_eq!(log.get_config_option(LogConfigOptionName::ShowBt).unwrap(), &ShowBt(false));

    assert_eq!(
        log.get_config_option(LogConfigOptionName::LineNumDataMaxLen).unwrap(),
        &LineNumDataMaxLen(25)
    );
    log.set_config_option(LineNumDataMaxLen(35)).unwrap();
    assert_eq!(
        log.get_config_option(LogConfigOptionName::LineNumDataMaxLen).unwrap(),
        &LineNumDataMaxLen(35)
    );

    assert_eq!(
        log.get_config_option(LogConfigOptionName::DeleteRotation).unwrap(),
        &DeleteRotation(false)
    );
    log.set_config_option(DeleteRotation(true)).unwrap();
    assert_eq!(
        log.get_config_option(LogConfigOptionName::DeleteRotation).unwrap(),
        &DeleteRotation(true)
    );

    assert_eq!(
        log.get_config_option(LogConfigOptionName::FileHeader).unwrap(),
        &FileHeader("".to_string())
    );
    log.set_config_option(FileHeader("anything".to_string())).unwrap();
    assert_eq!(
        log.get_config_option(LogConfigOptionName::FileHeader).unwrap(),
        &FileHeader("anything".to_string())
    );
}

const STR: &str = "01234567890123456789012345678901234567890123456789";

#[test]
fn test_other_config_options() {
    let config = LogConfig {
        file_path: FilePath(Some("dir/test.log".to_string())),
        auto_rotate: AutoRotate(false),
        delete_rotation: DeleteRotation(true),
        show_bt: ShowBt(false),
        ..Default::default()
    };
    let mut log = LogBuilder::build(config, false).unwrap();
    log.finish_open("dir/test.log".to_string(), 0, now_ms());
    log.finish_init();
    for _ in 0..5 {
        let out = log.compose(LogLevel::Info, STR, LogType::Regular, "/src/log_core.rs", "\\src\\log_core.rs");
        assert!(out.file_bytes.len() > STR.len());
    }
    // this is more than 100 bytes check if rotation needed.
    assert!(!log.need_rotate(None).unwrap());
    assert_eq!(
        log.get_config_option(LogConfigOptionName::MaxSizeBytes).unwrap(),
        &MaxSizeBytes(1024 * 1024)
    );
    log.set_config_option(MaxSizeBytes(100)).unwrap();
    assert_eq!(
        log.get_config_option(LogConfigOptionName::MaxSizeBytes).unwrap(),
        &MaxSizeBytes(100)
    );
    // we now need a rotation
    assert!(log.need_rotate(None).unwrap());
}

fn file_log(f: impl FnOnce(&mut LogConfig)) -> bmw::log_core::LogCore {
    let mut config = LogConfig {
        file_path: LogConfigOption::FilePath(Some("logs/test.log".to_string())),
        ..Default::default()
    };
    f(&mut config);
    let mut log = LogBuilder::build(config, false).unwrap();
    log.finish_open("logs/test.log".to_string(), 0, 1_000);
    log.finish_init();
    log
}

#[test]
fn render_line_with_every_part() {
    let mut log = file_log(|_| {});
    let out = log.render(
        LogLevel::Info,
        b"hello",
        LogType::Regular,
        b"2022-11-10 22:31:52",
        7,
        b"src/main.rs:10",
        b"BT",
    );
    assert_eq!(
        String::from_utf8(out.file_bytes.clone()).unwrap(),
        "[2022-11-10 22:31:52.007]: (INFO) [src/main.rs:10]: hello\n".to_string()
    );
    // standard output shows the same text
    let mut shown = Vec::new();
    for s in &out.stdout {
        shown.extend_from_slice(&s.text);
    }
    assert_eq!(shown, out.file_bytes);
    assert_eq!(out.stdout[0].style, Style::Plain);
    assert_eq!(out.stdout[1].style, Style::Dimmed);
}

#[test]
fn render_error_shows_backtrace_and_plain_shows_line() {
    let mut log = file_log(|_| {});
    let out = log.render(LogLevel::Error, b"bad", LogType::Plain, b"D", 5, b"L", b"TRACE\n");
    assert_eq!(out.file_bytes, b"bad\nTRACE\n".to_vec());
    let out = log.render(LogLevel::Warn, b"warn", LogType::Plain, b"D", 5, b"L", b"TRACE\n");
    assert_eq!(out.file_bytes, b"warn\n".to_vec());
}

#[test]
fn render_shortens_location() {
    let mut log = file_log(|c| {
        c.line_num_data_max_len = LogConfigOption::LineNumDataMaxLen(5);
        c.timestamp = LogConfigOption::Timestamp(false);
        c.level = LogConfigOption::Level(false);
    });
    let out = log.render(LogLevel::Info, b"x", LogType::Regular, b"", 0, b"abcdefghij", b"");
    assert_eq!(out.file_bytes, b"[..fghij]: x\n".to_vec());
    assert_eq!(shorten_location(b"abc", 5), b"abc".to_vec());
}

#[test]
fn render_grows_size_by_file_bytes() {
    let mut log = file_log(|_| {});
    let out = log.render(LogLevel::Info, b"abc", LogType::Plain, b"", 0, b"", b"");
    assert_eq!(out.file_bytes.len(), 4);
    assert_eq!(log.need_rotate_at(2_000).unwrap(), false);
    log.set_config_option(LogConfigOption::MaxSizeBytes(3)).unwrap();
    assert_eq!(log.need_rotate_at(2_000).unwrap(), true);
}

#[test]
fn log_before_init_is_refused() {
    let log = LogBuilder::build(LogConfig::default(), false).unwrap();
    let e = log.log_start_at(0).unwrap_err();
    assert_eq!(e.kind().kind_name(), ErrKind::Log);
    assert_eq!(e.kind().message_string(), "log not initialized".to_string());
    assert!(log.need_rotate_at(0).is_err());
}

#[test]
fn rotation_is_due_by_age() {
    let log = file_log(|_| {});
    assert!(!log.need_rotate_at(1_000 + 3_600_000).unwrap());
    assert!(log.need_rotate_at(1_000 + 3_600_001).unwrap());
    assert!(log.log_start_at(1_000 + 3_600_001).unwrap());
    let log = file_log(|c| c.auto_rotate = LogConfigOption::AutoRotate(false));
    assert!(!log.log_start_at(1_000 + 3_600_001).unwrap());
}

#[test]
fn rotation_plan_renames_with_stamp() {
    let log = file_log(|_| {});
    match log.rotation_plan(".r_11_10_2022_22:31:52", 42).unwrap() {
        RotationPlan::Rename { from, to } => {
            assert_eq!(from, "logs/test.log".to_string());
            assert_eq!(to, "logs/test.r_11_10_2022_22-31-52_42.log".to_string());
        }
        _ => panic!("expected a rename"),
    }
    let log = file_log(|c| c.delete_rotation = LogConfigOption::DeleteRotation(true));
    match log.rotation_plan(".r_x", 1).unwrap() {
        RotationPlan::Remove { path } => assert_eq!(path, "logs/test.log".to_string()),
        _ => panic!("expected a removal"),
    }
}

#[test]
fn frame_search_finds_caller() {
    let mut s = FrameSearch::new();
    assert_eq!(s.location, "*********unknown**********".to_string());
    s.step(Some("/x/src/log_core.rs".to_string()), Some(10), "/src/log_core.rs", "\\src\\log_core.rs");
    assert!(s.found_logger);
    assert!(s.keep_going());
    s.step(Some("/x/app/main.rs".to_string()), Some(42), "/src/log_core.rs", "\\src\\log_core.rs");
    assert!(!s.keep_going());
    assert_eq!(s.location, "/x/app/main.rs:42".to_string());
    let mut s = FrameSearch::new();
    s.step(Some("/x/lib.rs".to_string()), None, "/src/log_core.rs", "\\src\\log_core.rs");
    assert!(s.keep_going());
    s.step(Some("C:\\x\\src\\log_core.rs".to_string()), None, "/src/log_core.rs", "\\src\\log_core.rs");
    s.step(Some("/y.rs".to_string()), None, "/src/log_core.rs", "\\src\\log_core.rs");
    assert_eq!(s.location, "/y.rs:".to_string());
}

#[test]
fn rotation_now_names_the_file_by_the_date() {
    let log = file_log(|_| {});
    match log.rotate_begin().unwrap() {
        RotationPlan::Rename { from, to } => {
            assert_eq!(from, "logs/test.log".to_string());
            let name = to.strip_prefix("logs/test.r_").unwrap();
            let b = name.as_bytes();
            assert!(b[0].is_ascii_digit() && b[1].is_ascii_digit() && b[2] == b'_');
            assert!(b[3].is_ascii_digit() && b[4].is_ascii_digit() && b[5] == b'_');
            assert!(name.ends_with(".log"));
            assert!(!name.contains(':'));
        }
        _ => panic!("expected a rename"),
    }
}

#[test]
fn test_resolve_frame_error() {
    // a call stack in which the logger's own frames are never found still logs the line
    let mut log = LogBuilder::build(LogConfig::default(), false).unwrap();
    log.finish_init();
    let out = log.compose(LogLevel::Info, "", LogType::Regular, "/no/such/logger.rs", "\\no\\such\\logger.rs");
    let printed: Vec<u8> = out.stdout.iter().flat_map(|s| s.text.clone()).collect();
    let printed = String::from_utf8(printed).unwrap();
    assert!(printed.contains("unknown"));
    assert!(out.file_bytes.is_empty());
}

#[test]
fn test_init() {
    let config = LogConfig { file_path: FilePath(Some(".test_init.bmw/test.log".to_string())), ..Default::default() };
    let mut log = LogBuilder::build(config, false).unwrap();
    // the file to open is the configured one
    assert_eq!(log.init_target().unwrap(), Some(".test_init.bmw/test.log".to_string()));
    let (header, size) = log.header_plan(0).unwrap();
    assert!(header.is_none());
    assert_eq!(size, 0);
    log.finish_open(".test_init.bmw/test.log".to_string(), size, 0);
    log.finish_init();
    let a = log.compose(LogLevel::Info, "test", LogType::Regular, "/src/log_core.rs", "\\src\\log_core.rs");
    let b = log.compose(LogLevel::Debug, "test2", LogType::Regular, "/src/log_core.rs", "\\src\\log_core.rs");
    assert!(a.file_bytes.ends_with(b"test\n"));
    assert!(b.file_bytes.ends_with(b"test2\n"));
    // a second initialization is refused
    let e = log.init_target().unwrap_err();
    assert_eq!(e.kind().message_string(), "log already initialized".to_string());
}

#[test]
fn test_invalid_flags() {
    // a frame whose line number is unknown is shown with an empty line number
    let mut s = FrameSearch::new();
    s.step(Some("/x/src/log_core.rs".to_string()), Some(1), "/src/log_core.rs", "\\src\\log_core.rs");
    s.step(Some("/x/src/caller.rs".to_string()), None, "/src/log_core.rs", "\\src\\log_core.rs");
    assert_eq!(s.location, "/x/src/caller.rs:".to_string());
    // a line logged without a line number still logs
    let mut log = LogBuilder::build(LogConfig::default(), false).unwrap();
    log.finish_init();
    let out = log.compose(LogLevel::Info, "", LogType::Regular, "/src/log_core.rs", "\\src\\log_core.rs");
    assert!(!out.stdout.is_empty());
}
