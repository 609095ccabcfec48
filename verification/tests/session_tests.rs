use ftp_browser::error::{CoreError, map_err, u16_to_string};
use ftp_browser::path::{join_remote, normalize_cwd};
use ftp_browser::remote_copy::{mkdir_event_of, mkdir_ftp_event, CopyAction, CopyEngine, CopyEvent};
use ftp_browser::resolver::{connect_outcome, connection_plan, order_candidates};
use ftp_browser::session::Session;
use ftp_browser::upload::TransferFault;
use suppaftp::types::Response;
use suppaftp::{FtpError, Status};

#[test]
fn join_remote_avoids_double_slash() {
    assert_eq!(join_remote("/pub", "file.txt"), "/pub/file.txt");
    assert_eq!(join_remote("/pub/", "file.txt"), "/pub/file.txt");
    assert_eq!(join_remote("/", "file.txt"), "/file.txt");
    assert_eq!(join_remote("", "file.txt"), "/file.txt");
}

#[test]
fn normalize_cwd_maps_blank_and_quotes_to_root() {
    assert_eq!(normalize_cwd("".to_string()), "/");
    assert_eq!(normalize_cwd("  ".to_string()), "/");
    assert_eq!(normalize_cwd("\"\"".to_string()), "/");
    assert_eq!(normalize_cwd("\"/pub\"".to_string()), "/pub");
    assert_eq!(normalize_cwd("  \"/home/me\"  ".to_string()), "/home/me");
    assert_eq!(normalize_cwd("/already".to_string()), "/already");
}

#[test]
fn session_scenario_connect_then_list() {
    // Connecting to a server whose PWD reply is a quoted root yields cwd "/",
    // and listing a Unix-style reply yields one directory entry.
    let mut session = Session::new();
    assert!(session.require_connected().is_err());
    let cwd = session.apply_connect("\"/\"".to_string());
    assert_eq!(cwd, "/");
    assert!(session.require_connected().is_ok());
    let response = session.apply_listing(
        "\"/\"".to_string(),
        vec!["drwxr-xr-x 2 user group 4096 Jan 01 00:00 photos".to_string()],
    );
    assert_eq!(response.cwd, "/");
    assert_eq!(response.entries.len(), 1);
    assert_eq!(response.entries[0].name, "photos");
    assert!(response.entries[0].is_dir);
    assert_eq!(response.entries[0].size, None);
}

#[test]
fn session_disconnect_is_idempotent() {
    let mut session = Session::new();
    session.apply_connect("/".to_string());
    session.apply_disconnect();
    assert!(session.require_connected().is_err());
    session.apply_disconnect();
    assert!(!session.connected);
    assert_eq!(session.cwd, "");
}

#[test]
fn not_connected_message() {
    let session = Session::new();
    let err = session.require_connected().unwrap_err();
    assert_eq!(err.message(), "Not connected");
}

#[test]
fn resolve_error_message_carries_host_and_port() {
    let err = CoreError::ResolveFailed { host: "ftp.example.com".to_string(), port: 2121 };
    assert_eq!(err.message(), "Unable to resolve address: ftp.example.com:2121");
}

#[test]
fn u16_rendering() {
    assert_eq!(u16_to_string(0), "0");
    assert_eq!(u16_to_string(21), "21");
    assert_eq!(u16_to_string(65535), "65535");
}

#[test]
fn map_err_renders_displayable_values() {
    assert_eq!(map_err(5), "5");
    assert_eq!(map_err("boom"), "boom");
}

#[test]
fn candidates_are_ordered_ipv4_first_and_stable() {
    let fams = vec![false, true, false, true];
    assert_eq!(order_candidates(&fams), vec![1, 3, 0, 2]);
    let all_v4 = vec![true, true];
    assert_eq!(order_candidates(&all_v4), vec![0, 1]);
}

#[test]
fn connection_plan_fails_on_empty_resolution() {
    let err = connection_plan(&vec![], "ftp.example.com", 21).unwrap_err();
    assert_eq!(err.message(), "Unable to resolve address: ftp.example.com:21");
    let order = connection_plan(&vec![true, false], "ftp.example.com", 21).unwrap();
    assert_eq!(order, vec![0, 1]);
}

#[test]
fn connect_outcome_takes_first_success_or_last_error() {
    let attempts = vec![Some("refused".to_string()), None];
    assert_eq!(connect_outcome(&attempts).unwrap(), 1);
    let failures = vec![Some("refused".to_string()), Some("timed out".to_string())];
    let err = connect_outcome(&failures).unwrap_err();
    assert_eq!(err.message(), "timed out");
    let none: Vec<Option<String>> = vec![];
    assert_eq!(connect_outcome(&none).unwrap_err().message(), "Failed to connect");
}

#[test]
fn recursive_copy_reproduces_structure() {
    // A directory holding one subdirectory and one file: the engine asks for
    // the same two-level structure at the destination, depth-first.
    let mut engine = CopyEngine::new("/src".to_string(), "/dst".to_string(), true);
    match engine.next_action() {
        CopyAction::MakeDir { path } => assert_eq!(path, "/dst"),
        _ => panic!("expected MakeDir"),
    }
    engine.on_event(CopyEvent::DirCreated);
    match engine.next_action() {
        CopyAction::ReadListing { path } => assert_eq!(path, "/src"),
        _ => panic!("expected ReadListing"),
    }
    engine.on_event(CopyEvent::Listing {
        lines: vec![
            "drwxr-xr-x 2 user group 4096 Jan 01 00:00 sub".to_string(),
            "-rw-r--r-- 1 user group 9 Jan 01 00:00 a.txt".to_string(),
        ],
    });
    match engine.next_action() {
        CopyAction::MakeDir { path } => assert_eq!(path, "/dst/sub"),
        _ => panic!("expected MakeDir for the subdirectory"),
    }
    engine.on_event(CopyEvent::DirCreated);
    match engine.next_action() {
        CopyAction::ReadListing { path } => assert_eq!(path, "/src/sub"),
        _ => panic!("expected ReadListing for the subdirectory"),
    }
    engine.on_event(CopyEvent::Listing { lines: vec![] });
    match engine.next_action() {
        CopyAction::TransferFile { from, to } => {
            assert_eq!(from, "/src/a.txt");
            assert_eq!(to, "/dst/a.txt");
        },
        _ => panic!("expected TransferFile"),
    }
    engine.on_event(CopyEvent::FileCopied);
    assert!(matches!(engine.next_action(), CopyAction::Done));
}

#[test]
fn copy_aborts_on_first_child_failure() {
    let mut engine = CopyEngine::new("/src".to_string(), "/dst".to_string(), true);
    engine.on_event(CopyEvent::DirCreated);
    engine.on_event(CopyEvent::Listing {
        lines: vec![
            "-rw-r--r-- 1 user group 9 Jan 01 00:00 a.txt".to_string(),
            "-rw-r--r-- 1 user group 9 Jan 01 00:00 b.txt".to_string(),
        ],
    });
    assert!(matches!(engine.next_action(), CopyAction::TransferFile { .. }));
    engine.on_event(CopyEvent::Failed { message: "data connection lost".to_string() });
    match engine.next_action() {
        CopyAction::Failed { message } => assert_eq!(message, "data connection lost"),
        _ => panic!("expected the copy to be failed"),
    }
    // the sibling b.txt is never attempted
    assert!(matches!(engine.next_action(), CopyAction::Failed { .. }));
}

#[test]
fn copy_of_single_file_makes_no_directory() {
    let mut engine = CopyEngine::new("/src/a.txt".to_string(), "/dst/a.txt".to_string(), false);
    match engine.next_action() {
        CopyAction::TransferFile { from, to } => {
            assert_eq!(from, "/src/a.txt");
            assert_eq!(to, "/dst/a.txt");
        },
        _ => panic!("expected TransferFile"),
    }
    engine.on_event(CopyEvent::FileCopied);
    assert!(matches!(engine.next_action(), CopyAction::Done));
}

#[test]
fn mkdir_refusals_are_tolerated_but_connection_failures_end_the_copy() {
    assert!(matches!(mkdir_event_of(Ok(())), CopyEvent::DirCreated));
    let refusal = TransferFault::Protocol { code: 550, message: "exists".to_string() };
    assert!(matches!(mkdir_event_of(Err(refusal)), CopyEvent::DirCreated));
    let lost = TransferFault::Connection {
        timed_out: false,
        os_code: None,
        message: "broken pipe".to_string(),
    };
    match mkdir_event_of(Err(lost)) {
        CopyEvent::Failed { message } => assert_eq!(message, "broken pipe"),
        _ => panic!("expected Failed"),
    }
    let err550 = FtpError::UnexpectedResponse(Response { status: Status::from(550u32), body: vec![] });
    assert!(matches!(mkdir_ftp_event(Err(err550)), CopyEvent::DirCreated));
    let io = FtpError::ConnectionError(std::io::Error::new(std::io::ErrorKind::BrokenPipe, "gone"));
    assert!(matches!(mkdir_ftp_event(Err(io)), CopyEvent::Failed { .. }));
    assert!(matches!(mkdir_ftp_event(Ok(())), CopyEvent::DirCreated));
}

#[test]
fn copy_skips_dot_entries() {
    let mut engine = CopyEngine::new("/s".to_string(), "/d".to_string(), true);
    engine.on_event(CopyEvent::DirCreated);
    engine.on_event(CopyEvent::Listing {
        lines: vec![".".to_string(), "..".to_string()],
    });
    assert!(matches!(engine.next_action(), CopyAction::Done));
}
