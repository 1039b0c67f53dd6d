use cutoff_common::logging::Level;
use cutoff_common::logging::OkOrLog;
use cutoff_common::util::lang_util::LogAndNone;

#[test]
fn test_ok_or_log_ok() {
    let x: Result<u32, &str> = Ok(2);
    assert_eq!(OkOrLog::ok_or_log(x, Level::Info), Some(2));
}

#[test]
fn test_ok_or_log_err() {
    let x: Result<u32, &str> = Err("nothing here");
    assert_eq!(OkOrLog::ok_or_log(x, Level::Warn), None);
}

#[test]
fn test_log_and_none() {
    let x: Result<u32, &str> = Ok(7);
    assert_eq!(LogAndNone::ok_or_log(x, Level::Debug), Some(7));
    let y: Result<u32, &str> = Err("gone");
    assert_eq!(LogAndNone::ok_or_log(y, Level::Error), None);
}
