use heimdall::codec::DecodeError;
use heimdall::log::{RsContext, RsLog, RsVar};
use heimdall::logger::{describe_os, global_log, BuildError, LogError, Logger, LoggerBuilder};
use heimdall::timestamp::Timestamp;

#[test]
fn builder_without_address_fails() {
    let built = Logger::builder().build_for(1, "os".to_string());
    assert_eq!(built.err(), Some(BuildError::MissingBind));
    assert_eq!(LoggerBuilder::default().build(1).err(), Some(BuildError::MissingBind));
    assert_eq!(BuildError::MissingBind.message(), "Bind address must be specified");
}

#[test]
fn builder_defaults() {
    let logger = Logger::builder().with_bind("tcp://h:1".to_string()).build_for(5, "os".to_string()).unwrap();
    assert_eq!(logger.bind, "tcp://h:1");
    assert_eq!(
        logger.context,
        RsContext { app: "default".to_string(), pid: 5, os: "os".to_string(), version: "0.0.0".to_string() }
    );
}

#[test]
fn builder_with_everything() {
    let logger = LoggerBuilder::default()
        .with_address_port("127.0.0.1", 62000)
        .with_app_name("piper")
        .with_version("1.4.2")
        .build_for(4321, "Linux 6.8".to_string())
        .unwrap();
    assert_eq!(logger.bind, "tcp://127.0.0.1:62000");
    assert_eq!(
        logger.context,
        RsContext { app: "piper".to_string(), pid: 4321, os: "Linux 6.8".to_string(), version: "1.4.2".to_string() }
    );
}

#[test]
fn later_address_replaces_earlier() {
    let logger = Logger::builder()
        .with_bind("tcp://a:1".to_string())
        .with_address_port("b", 0)
        .build_for(1, String::new())
        .unwrap();
    assert_eq!(logger.bind, "tcp://b:0");
    let other = Logger::builder()
        .with_address_port("b", 65535)
        .with_bind("ipc:///tmp/x".to_string())
        .build_for(1, String::new())
        .unwrap();
    assert_eq!(other.bind, "ipc:///tmp/x");
}

#[test]
fn build_reads_the_operating_system() {
    let logger = Logger::builder().with_address_port("h", 9).with_app_name("a").build(17).unwrap();
    assert_eq!(logger.context.pid, 17);
    assert_eq!(logger.context.app, "a");
    assert_eq!(logger.context.version, "0.0.0");
    // kind, one space, release
    assert!(logger.context.os.contains(' '));
}

#[test]
fn describe_os_joins_kind_and_release() {
    assert_eq!(describe_os(Some("Linux".to_string()), Some("6.1.0".to_string())), "Linux 6.1.0");
    assert_eq!(describe_os(None, Some("6.1.0".to_string())), "Unknown 6.1.0");
    assert_eq!(describe_os(Some("Darwin".to_string()), None), "Darwin Unknown");
    assert_eq!(describe_os(None, None), "Unknown Unknown");
}

fn logger() -> Logger {
    Logger::builder()
        .with_address_port("127.0.0.1", 62000)
        .with_app_name("app")
        .with_version("3")
        .build_for(8, "os".to_string())
        .unwrap()
}

#[test]
fn log_at_encodes_the_record() {
    let ts = Timestamp::new(100, 200, 300);
    let vars = vec![("id".to_string(), "7".to_string())];
    let buf = logger().log_at(ts, "Processing entry".to_string(), vars.clone());
    let want = RsLog::new(
        ts,
        "Processing entry".to_string(),
        RsContext { app: "app".to_string(), pid: 8, os: "os".to_string(), version: "3".to_string() },
        vars,
    );
    assert_eq!(buf, want.clone().build());
    assert_eq!(RsLog::from(&buf, String::new()), Ok::<RsLog, DecodeError>(want));
}

#[test]
fn log_stamps_the_record_with_the_time_of_the_call() {
    let buf = logger().log("now".to_string(), vec![("k".to_string(), "v".to_string())]);
    let back = RsLog::from(&buf, String::new()).unwrap();
    assert_eq!(back.msg, "now");
    assert_eq!(back.vars, vec![RsVar { key: "k".to_string(), val: "v".to_string() }]);
    assert_eq!(back.context.app, "app");
    // some time after 2020 and before 2100
    assert!(back.ts.secs > 1_577_836_800 && back.ts.secs < 4_102_444_800);
    assert!(back.ts.nanos < 2_000_000_000);
    assert!(back.ts.offset > -86_400 && back.ts.offset < 86_400);
}

#[test]
fn global_log_needs_a_logger() {
    let r = global_log(None, Timestamp::new(0, 0, 0), "m".to_string(), Vec::new());
    assert_eq!(r, Err(LogError::NotInitialized));
    assert_eq!(LogError::NotInitialized.message(), "Global logger is not initialized");
}

#[test]
fn global_log_logs_through_the_logger() {
    let l = logger();
    let ts = Timestamp::new(1, 2, 3);
    let r = global_log(Some(&l), ts, "m".to_string(), Vec::new());
    assert_eq!(r, Ok(l.log_at(ts, "m".to_string(), Vec::new())));
}
