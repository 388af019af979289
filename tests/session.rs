use kiraftp::addr::DataAddr;
use kiraftp::command::{parse_command, Verb};
use kiraftp::session::{
    transfer_finished, transfer_started, Action, Config, FTPSession, Reply, TransferKind,
    TransferMode,
};
use kiraftp::transcode::TransferType;

fn config() -> Config {
    Config {
        listen: [127, 0, 0, 1],
        port: 2121,
        username: b"alice".to_vec(),
        password: b"secret".to_vec(),
        path: b"/srv/ftp".to_vec(),
    }
}

fn session() -> FTPSession<u32> {
    FTPSession::new(config())
}

fn run(s: &mut FTPSession<u32>, line: &str) -> Action<u32> {
    let cmd = parse_command(line.as_bytes());
    s.handle(&cmd)
}

fn reply_of(a: Action<u32>) -> Reply {
    match a {
        Action::Reply(r) => r,
        _ => panic!("expected a reply"),
    }
}

fn logged_in() -> FTPSession<u32> {
    let mut s = session();
    reply_of(run(&mut s, "USER alice"));
    assert!(matches!(reply_of(run(&mut s, "PASS secret")), Reply::LoginSuccessful));
    s
}

#[test]
fn get_session_size() {
    println!("FTP Session Size: {}", std::mem::size_of::<FTPSession<()>>())
}

#[test]
fn new_session_defaults() {
    let s = session();
    assert!(!s.is_logged_in());
    assert!(!s.is_anonymous());
    assert_eq!(s.transfer_type(), TransferType::Ascii);
    assert!(matches!(s.transfer_mode(), TransferMode::Disabled));
    assert_eq!(s.current_directory(), b"/".to_vec());
    assert!(s.current_user().is_empty());
    assert_eq!(s.welcome().code(), 220);
}

#[test]
fn anonymous_login_with_any_password() {
    let mut s = session();
    let r = reply_of(run(&mut s, "USER anonymous"));
    assert!(matches!(r, Reply::PasswordRequired));
    assert_eq!(r.code(), 331);
    let r = reply_of(run(&mut s, "PASS x"));
    assert!(matches!(r, Reply::LoginSuccessful));
    assert_eq!(r.code(), 230);
    assert!(s.is_logged_in());
    assert!(s.is_anonymous());
}

#[test]
fn unknown_user_with_wrong_password_fails() {
    let mut s = session();
    reply_of(run(&mut s, "USER bob"));
    let r = reply_of(run(&mut s, "PASS wrongpass"));
    assert!(matches!(r, Reply::LoginIncorrect));
    assert_eq!(r.code(), 530);
    assert!(!s.is_logged_in());
    assert!(!s.is_anonymous());
}

#[test]
fn configured_user_logs_in() {
    let s = logged_in();
    assert!(s.is_logged_in());
    assert!(!s.is_anonymous());
    assert_eq!(s.current_user(), &b"alice".to_vec());
}

#[test]
fn configured_user_with_wrong_password_fails() {
    let mut s = session();
    reply_of(run(&mut s, "USER alice"));
    assert!(matches!(reply_of(run(&mut s, "PASS nope")), Reply::LoginIncorrect));
    assert!(!s.is_logged_in());
    // the offered user name is kept
    assert_eq!(s.current_user(), &b"alice".to_vec());
    assert!(matches!(reply_of(run(&mut s, "PASS secret")), Reply::LoginSuccessful));
    assert!(s.is_logged_in());
    assert!(!s.is_anonymous());
}

#[test]
fn user_cannot_change_after_login() {
    let mut s = logged_in();
    let r = reply_of(run(&mut s, "USER anonymous"));
    assert!(matches!(r, Reply::CannotChangeUser));
    assert_eq!(r.code(), 530);
    assert_eq!(s.current_user(), &b"alice".to_vec());
    assert!(matches!(reply_of(run(&mut s, "PASS x")), Reply::AlreadyLoggedIn));
    assert!(!s.is_anonymous());
}

#[test]
fn gated_commands_refused_before_login() {
    for line in ["PORT 127,0,0,1,200,10", "PASV", "CWD /tmp", "PWD", "LIST", "RETR a", "STOR a"] {
        let mut s = session();
        let r = reply_of(run(&mut s, line));
        assert!(matches!(r, Reply::NotLoggedIn), "{}", line);
        assert_eq!(r.code(), 530);
        assert!(matches!(s.transfer_mode(), TransferMode::Disabled));
        assert_eq!(s.current_directory(), b"/".to_vec());
        assert!(!s.is_logged_in());
    }
}

#[test]
fn port_stores_remote_address() {
    let mut s = logged_in();
    let r = reply_of(run(&mut s, "PORT 127,0,0,1,200,10"));
    assert!(matches!(r, Reply::PortSuccessful));
    assert_eq!(r.code(), 200);
    match s.transfer_mode() {
        TransferMode::Active(a) => {
            assert_eq!(a.ip, [127, 0, 0, 1]);
            assert_eq!(a.port, 51210);
        }
        _ => panic!("expected active mode"),
    }
}

#[test]
fn port_with_wrong_octet_count_is_illegal() {
    let mut s = logged_in();
    reply_of(run(&mut s, "PORT 127,0,0,1,200,10"));
    let r = reply_of(run(&mut s, "PORT 1,2,3"));
    assert!(matches!(r, Reply::IllegalAddress));
    assert_eq!(r.code(), 501);
    assert!(matches!(s.transfer_mode(), TransferMode::Disabled));
}

#[test]
fn port_with_octet_out_of_range_is_illegal() {
    let mut s = logged_in();
    let r = reply_of(run(&mut s, "PORT 127,0,0,256,1,1"));
    assert!(matches!(r, Reply::IllegalAddress));
    assert!(matches!(s.transfer_mode(), TransferMode::Disabled));
}

#[test]
fn passive_binding_flow() {
    let mut s = logged_in();
    assert!(matches!(run(&mut s, "PASV"), Action::Bind));
    let addr = DataAddr { ip: [127, 0, 0, 1], port: 40000 };
    let r = s.passive_bound(7, addr);
    assert_eq!(r.code(), 227);
    match r {
        Reply::EnteringPassiveMode(a) => assert_eq!(a.port, 40000),
        _ => panic!("expected the passive address"),
    }
    assert!(matches!(s.transfer_mode(), TransferMode::Passive(7)));
    let r = s.passive_failed();
    assert!(matches!(r, Reply::CannotCreateSocket));
    assert_eq!(r.code(), 421);
    assert!(matches!(s.transfer_mode(), TransferMode::Disabled));
}

#[test]
fn transfer_uses_up_data_connection() {
    let mut s = logged_in();
    reply_of(run(&mut s, "PORT 10,0,0,2,4,1"));
    match run(&mut s, "RETR notes.txt") {
        Action::Transfer(t) => {
            assert_eq!(t.kind, TransferKind::Retrieve);
            assert_eq!(t.path, b"/srv/ftp/notes.txt".to_vec());
            assert_eq!(t.transfer_type, TransferType::Ascii);
            match t.mode {
                TransferMode::Active(a) => {
                    assert_eq!(a.ip, [10, 0, 0, 2]);
                    assert_eq!(a.port, 1025);
                }
                _ => panic!("expected active mode"),
            }
        }
        _ => panic!("expected a transfer"),
    }
    assert!(matches!(s.transfer_mode(), TransferMode::Disabled));
    let r = reply_of(run(&mut s, "STOR again.txt"));
    assert!(matches!(r, Reply::UsePortOrPasv));
    assert_eq!(r.code(), 425);
    assert!(matches!(s.transfer_mode(), TransferMode::Disabled));
}

#[test]
fn transfer_outside_root_is_refused_and_disables() {
    let mut s = logged_in();
    reply_of(run(&mut s, "PORT 10,0,0,2,4,1"));
    match run(&mut s, "STOR ../../etc/passwd") {
        Action::Transfer(t) => assert_eq!(t.path, b"/srv/ftp/../../etc/passwd".to_vec()),
        _ => panic!("expected a transfer"),
    }
    assert!(matches!(s.transfer_mode(), TransferMode::Disabled));
    // what the system resolves it to lies outside the root
    assert!(!s.is_within_root(b"/etc/passwd"));
}

#[test]
fn list_skips_options_and_keeps_passive_listener() {
    let mut s = logged_in();
    run(&mut s, "PASV");
    s.passive_bound(9, DataAddr { ip: [0, 0, 0, 0], port: 5000 });
    reply_of(run(&mut s, "TYPE I"));
    match run(&mut s, "LIST -la docs") {
        Action::Transfer(t) => {
            assert_eq!(t.kind, TransferKind::List);
            assert_eq!(t.path, b"/srv/ftp/docs".to_vec());
            assert_eq!(t.transfer_type, TransferType::Binary);
            assert!(matches!(t.mode, TransferMode::Passive(9)));
        }
        _ => panic!("expected a transfer"),
    }
    assert!(matches!(s.transfer_mode(), TransferMode::Disabled));
}

#[test]
fn list_without_path_lists_current_directory() {
    let mut s = logged_in();
    reply_of(run(&mut s, "PORT 10,0,0,2,4,1"));
    match run(&mut s, "LIST") {
        Action::Transfer(t) => assert_eq!(t.path, b"/srv/ftp".to_vec()),
        _ => panic!("expected a transfer"),
    }
}

#[test]
fn cwd_up_from_root_stays_at_root() {
    let mut s = logged_in();
    for _ in 0..5 {
        match run(&mut s, "CWD ..") {
            Action::ChangeDirectory(p) => {
                assert_eq!(p, b"/srv/ftp/..".to_vec());
                // the system resolves it to the root's parent
                let r = s.finish_change_directory(Some(b"/srv".to_vec()));
                assert!(matches!(r, Reply::ChangeDirectoryFailed));
                assert_eq!(r.code(), 550);
            }
            _ => panic!("expected a directory to resolve"),
        }
        assert_eq!(s.current_directory(), b"/".to_vec());
    }
    match reply_of(run(&mut s, "PWD")) {
        Reply::CurrentDirectory(p) => assert_eq!(p, b"/".to_vec()),
        _ => panic!("expected the current directory"),
    }
}

#[test]
fn cwd_into_directory_and_back() {
    let mut s = logged_in();
    match run(&mut s, "CWD pub/docs") {
        Action::ChangeDirectory(p) => {
            assert_eq!(p, b"/srv/ftp/pub/docs".to_vec());
            let r = s.finish_change_directory(Some(p));
            assert!(matches!(r, Reply::DirectoryChanged));
            assert_eq!(r.code(), 250);
        }
        _ => panic!("expected a directory to resolve"),
    }
    assert_eq!(s.current_directory(), b"/pub/docs".to_vec());
    match run(&mut s, "CWD ..") {
        Action::ChangeDirectory(p) => {
            assert_eq!(p, b"/srv/ftp/pub/docs/..".to_vec());
            s.finish_change_directory(Some(b"/srv/ftp/pub".to_vec()));
        }
        _ => panic!("expected a directory to resolve"),
    }
    assert_eq!(s.current_directory(), b"/pub".to_vec());
    match run(&mut s, "CWD /") {
        Action::ChangeDirectory(p) => {
            assert_eq!(p, b"/srv/ftp/".to_vec());
            s.finish_change_directory(Some(b"/srv/ftp".to_vec()));
        }
        _ => panic!("expected a directory to resolve"),
    }
    assert_eq!(s.current_directory(), b"/".to_vec());
}

#[test]
fn cwd_through_link_outside_root_fails() {
    let mut s = logged_in();
    let r = s.finish_change_directory(Some(b"/etc".to_vec()));
    assert!(matches!(r, Reply::ChangeDirectoryFailed));
    let r = s.finish_change_directory(Some(b"/srv/ftpx".to_vec()));
    assert!(matches!(r, Reply::ChangeDirectoryFailed));
    let r = s.finish_change_directory(None);
    assert!(matches!(r, Reply::ChangeDirectoryFailed));
    assert_eq!(s.current_directory(), b"/".to_vec());
    assert!(s.is_within_root(b"/srv/ftp/a/b"));
    assert!(!s.is_within_root(b"/srv/ftpx"));
}

#[test]
fn type_mode_and_structure() {
    let mut s = session();
    assert!(matches!(reply_of(run(&mut s, "TYPE i")), Reply::SwitchedToBinary));
    assert_eq!(s.transfer_type(), TransferType::Binary);
    assert!(matches!(reply_of(run(&mut s, "TYPE A")), Reply::SwitchedToAscii));
    assert_eq!(s.transfer_type(), TransferType::Ascii);
    let r = reply_of(run(&mut s, "TYPE E"));
    assert!(matches!(r, Reply::UnsupportedType));
    assert_eq!(r.code(), 504);
    assert_eq!(s.transfer_type(), TransferType::Ascii);
    assert!(matches!(reply_of(run(&mut s, "MODE s")), Reply::ModeSet));
    assert!(matches!(reply_of(run(&mut s, "MODE B")), Reply::BadMode));
    assert!(matches!(reply_of(run(&mut s, "STRU F")), Reply::StructureSet));
    assert!(matches!(reply_of(run(&mut s, "STRU R")), Reply::BadStructure));
}

#[test]
fn static_replies() {
    let mut s = session();
    assert_eq!(reply_of(run(&mut s, "FEAT")).code(), 211);
    assert_eq!(reply_of(run(&mut s, "SYST")).code(), 215);
    assert_eq!(reply_of(run(&mut s, "NOOP")).code(), 200);
    assert!(matches!(reply_of(run(&mut s, "OPTS UTF8 ON")), Reply::AlwaysUtf8));
    assert_eq!(reply_of(run(&mut s, "XYZZY")).code(), 500);
    assert!(matches!(reply_of(run(&mut s, "PASV now")), Reply::UnknownCommand));
    assert!(matches!(run(&mut s, "quit"), Action::Quit));
}

#[test]
fn config_defaults_and_ports() {
    let c = Config::default();
    assert_eq!(c.listen, [0, 0, 0, 0]);
    assert_eq!(c.port, 21);
    assert_eq!(c.username, b"root".to_vec());
    assert_eq!(c.password, b"password".to_vec());
    assert_eq!(c.path, b"/".to_vec());
    assert_eq!(c.data_port(), 20);
    let a = c.address();
    assert_eq!(a.ip, [0, 0, 0, 0]);
    assert_eq!(a.port, 21);
    let mut z = config();
    z.port = 0;
    assert_eq!(z.data_port(), 0);
}

#[test]
fn parse_verbs_and_arguments() {
    let c = parse_command(b"user  Bob ");
    assert_eq!(c.verb, Verb::User);
    assert_eq!(c.arg, b"Bob".to_vec());
    let c = parse_command(b"cwd My Dir");
    assert_eq!(c.verb, Verb::Cwd);
    assert_eq!(c.arg, b"My Dir".to_vec());
    assert_eq!(parse_command(b"PASS").verb, Verb::Pass);
    assert_eq!(parse_command(b"USER").verb, Verb::Unknown);
    assert_eq!(parse_command(b"Retr").verb, Verb::Unknown);
    assert_eq!(parse_command(b"stor f").verb, Verb::Stor);
    assert_eq!(parse_command(b"opts utf8 on").verb, Verb::OptsUtf8);
    assert_eq!(parse_command(b"OPTS MLST").verb, Verb::Unknown);
    assert_eq!(parse_command(b"").verb, Verb::Unknown);
}

#[test]
fn transfer_replies() {
    assert!(matches!(transfer_started(TransferKind::List), Reply::ListingStarts));
    assert_eq!(transfer_started(TransferKind::Store).code(), 150);
    assert!(matches!(transfer_finished(TransferKind::List, true), Reply::ListingDone));
    assert!(matches!(transfer_finished(TransferKind::Retrieve, true), Reply::TransferComplete));
    assert_eq!(transfer_finished(TransferKind::Retrieve, true).code(), 226);
    let r = transfer_finished(TransferKind::Store, false);
    assert!(matches!(r, Reply::TransferAborted));
    assert_eq!(r.code(), 426);
}

#[test]
fn reply_codes() {
    let addr = DataAddr { ip: [1, 2, 3, 4], port: 5 };
    let cases: Vec<(Reply, u16)> = vec![
        (Reply::Welcome, 220),
        (Reply::PasswordRequired, 331),
        (Reply::LoginSuccessful, 230),
        (Reply::AlreadyLoggedIn, 230),
        (Reply::LoginIncorrect, 530),
        (Reply::CannotChangeUser, 530),
        (Reply::NotLoggedIn, 530),
        (Reply::PortSuccessful, 200),
        (Reply::IllegalAddress, 501),
        (Reply::EnteringPassiveMode(addr), 227),
        (Reply::CannotCreateSocket, 421),
        (Reply::SwitchedToAscii, 200),
        (Reply::SwitchedToBinary, 200),
        (Reply::UnsupportedType, 504),
        (Reply::ModeSet, 200),
        (Reply::BadMode, 504),
        (Reply::StructureSet, 200),
        (Reply::BadStructure, 504),
        (Reply::DirectoryChanged, 250),
        (Reply::ChangeDirectoryFailed, 550),
        (Reply::CurrentDirectory(b"/".to_vec()), 257),
        (Reply::UsePortOrPasv, 425),
        (Reply::CannotOpenDataConnection, 425),
        (Reply::ListingStarts, 150),
        (Reply::DataStarts, 150),
        (Reply::ListingDone, 226),
        (Reply::TransferComplete, 226),
        (Reply::TransferAborted, 426),
        (Reply::Features, 211),
        (Reply::SystemType, 215),
        (Reply::NoopOk, 200),
        (Reply::AlwaysUtf8, 200),
        (Reply::Goodbye, 221),
        (Reply::UnknownCommand, 500),
    ];
    for (reply, code) in cases {
        assert_eq!(reply.code(), code);
    }
}

#[test]
fn failed_login_keeps_session_not_anonymous() {
    let mut s = session();
    reply_of(run(&mut s, "USER bob"));
    reply_of(run(&mut s, "PASS x"));
    assert_eq!(s.current_user(), &b"bob".to_vec());
    assert!(!s.is_anonymous());
    reply_of(run(&mut s, "USER alice"));
    assert!(matches!(reply_of(run(&mut s, "PASS secret")), Reply::LoginSuccessful));
    assert!(!s.is_anonymous());
}
