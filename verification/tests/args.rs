use heimdall::args::{tcp_bind, Args, Cmd, PipeArgs, ServerArgs};
use heimdall::panels::{InfoPanel, StatusPanel};
use heimdall::log::{RsContext, RsLog};
use heimdall::text::decimal_text;
use heimdall::timestamp::Timestamp;

fn server() -> ServerArgs {
    ServerArgs { address: "127.0.0.1".to_string(), tui: false, nng: None, http: None, sqlite: None }
}

#[test]
fn decimal_text_of_numbers() {
    assert_eq!(decimal_text(0), "0");
    assert_eq!(decimal_text(7), "7");
    assert_eq!(decimal_text(10), "10");
    assert_eq!(decimal_text(62000), "62000");
    assert_eq!(decimal_text(1_234_567_890), "1234567890");
    assert_eq!(decimal_text(u64::MAX), "18446744073709551615");
}

#[test]
fn tcp_bind_formats_address_and_port() {
    assert_eq!(tcp_bind("127.0.0.1", 62000), "tcp://127.0.0.1:62000");
    assert_eq!(tcp_bind("", 0), "tcp://:0");
    assert_eq!(tcp_bind("host", 65535), "tcp://host:65535");
}

#[test]
fn listener_ports_and_their_defaults() {
    let mut args = server();
    assert_eq!(args.nng_port(), None);
    assert_eq!(args.http_port(), None);
    args.nng = Some(None);
    args.http = Some(None);
    assert_eq!(args.nng_port(), Some(62000));
    assert_eq!(args.http_port(), Some(62001));
    args.nng = Some(Some(1));
    args.http = Some(Some(2));
    assert_eq!(args.nng_port(), Some(1));
    assert_eq!(args.http_port(), Some(2));
}

#[test]
fn store_path_and_its_default() {
    let mut args = server();
    assert_eq!(args.sqlite_path(), None);
    args.sqlite = Some(None);
    assert_eq!(args.sqlite_path(), Some("logs.sqlite".to_string()));
    args.sqlite = Some(Some("/var/lib/l.db".to_string()));
    assert_eq!(args.sqlite_path(), Some("/var/lib/l.db".to_string()));
}

#[test]
fn bind_addresses() {
    assert_eq!(server().bind(62000), "tcp://127.0.0.1:62000");
    let pipe = PipeArgs { address: "10.1.2.3".to_string(), port: 9, json: true };
    assert_eq!(pipe.bind(), "tcp://10.1.2.3:9");
    let args = Args { cmd: Cmd::Pipe(pipe.clone()) };
    assert_eq!(args.cmd, Cmd::Pipe(pipe));
}

#[test]
fn status_panel_lines() {
    let panel = StatusPanel::from(1000);
    assert_eq!(panel.logs_amount, 1000);
    assert_eq!(panel.lines(), ("Logs amount: 1000".to_string(), "Press q to quit".to_string()));
    assert_eq!(StatusPanel::from(0).lines().0, "Logs amount: 0");
}

#[test]
fn info_panel_holds_the_record() {
    let log = RsLog::new(
        Timestamp::new(1, 2, 3),
        "m".to_string(),
        RsContext { app: "a".to_string(), pid: 1, os: "o".to_string(), version: "v".to_string() },
        Vec::new(),
    );
    assert_eq!(InfoPanel::from(log.clone()).log, log);
}

#[test]
fn record_on_one_line() {
    let mut log = RsLog::new(
        Timestamp::new(1_700_000_000, 123_456_789, 3600),
        "started".to_string(),
        RsContext { app: "a".to_string(), pid: 1, os: "o".to_string(), version: "v".to_string() },
        vec![("id".to_string(), "7".to_string()), ("user".to_string(), "root".to_string())],
    );
    assert_eq!(log.to_string(), "23:13:20.123: started id=7, user=root");
    assert_eq!(log.line("noon"), "noon: started id=7, user=root");
    log.vars.pop();
    assert_eq!(log.to_string(), "23:13:20.123: started id=7");
    log.vars.clear();
    assert_eq!(log.to_string(), "23:13:20.123: started ");
    log.ts = Timestamp::new(i64::MAX, 0, 0);
    assert_eq!(log.to_string(), ": started ");
}

#[test]
fn push_decimal_appends_digits() {
    let mut text = "n=".to_string();
    heimdall::text::push_decimal(&mut text, 405);
    assert_eq!(text, "n=405");
    heimdall::text::push_decimal(&mut text, 0);
    assert_eq!(text, "n=4050");
}

#[test]
fn record_clone_is_equal() {
    let log = RsLog::new(
        Timestamp::new(1, 2, 3),
        "m".to_string(),
        RsContext { app: "a".to_string(), pid: 1, os: "o".to_string(), version: "v".to_string() },
        vec![("k".to_string(), "v".to_string()), ("k2".to_string(), "v2".to_string())],
    );
    assert_eq!(log.clone(), log);
    assert_eq!(log.context.clone(), log.context);
    assert_eq!(log.vars[1].clone(), log.vars[1]);
}
