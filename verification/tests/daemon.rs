use gesso::daemon::client::{doctor_checks, line_has_request, status_payload};
use gesso::daemon::engine::{after_attempt, Retry};
use gesso::daemon::lock::lock_path;
use gesso::daemon::utils::{
    is_broken_pipe, is_client_disconnect, root_io_msg, write_error_is_benign, Cause, IoKind,
};
use gesso::logrotate::{prepare_log_file, rotate, rotated_name, run_header, LogPolicy, LogStart, RotateStep};
use gesso::path::{expand_user_path, paths, state_base, HomeUnset, Paths};
use gesso::protocol::{CurrentStatus, DoctorCheck, Request, Response};
use gesso::session::{
    is_wayland_socket_name, probe_failure_message, wayland_socket_path, SessionProbe, Watch,
};
use gesso::spec::{Rgb, Spec, TransitionSpec};
use gesso::wallpaper::wayland::Probe;

fn cause(io: Option<IoKind>, message: &str) -> Cause {
    Cause { io, message: message.to_string() }
}

#[test]
fn broken_pipe_anywhere_in_the_chain() {
    assert!(!is_broken_pipe(&vec![]));
    assert!(!is_broken_pipe(&vec![cause(None, "flush"), cause(Some(IoKind::ConnectionReset), "reset")]));
    assert!(is_broken_pipe(&vec![cause(None, "flush"), cause(Some(IoKind::BrokenPipe), "pipe")]));
    assert!(is_broken_pipe(&vec![cause(Some(IoKind::BrokenPipe), "pipe"), cause(None, "x")]));
}

#[test]
fn client_disconnects() {
    assert!(!is_client_disconnect(&vec![]));
    assert!(!is_client_disconnect(&vec![cause(None, "parse"), cause(Some(IoKind::Other), "denied")]));
    for kind in [IoKind::BrokenPipe, IoKind::ConnectionReset, IoKind::UnexpectedEof] {
        assert!(is_client_disconnect(&vec![cause(None, "read"), cause(Some(kind), "gone")]));
    }
    assert!(is_client_disconnect(&vec![
        cause(Some(IoKind::Other), "denied"),
        cause(Some(IoKind::UnexpectedEof), "eof"),
    ]));
}

#[test]
fn root_message_is_the_first_io_error() {
    assert_eq!(root_io_msg(&vec![]), "");
    assert_eq!(root_io_msg(&vec![cause(None, "top"), cause(None, "below")]), "top");
    assert_eq!(
        root_io_msg(&vec![cause(None, "top"), cause(Some(IoKind::Other), "io one"), cause(Some(IoKind::BrokenPipe), "io two")]),
        "io one"
    );
}

#[test]
fn writes_to_a_gone_client_are_passed_over() {
    assert!(write_error_is_benign(IoKind::BrokenPipe));
    assert!(write_error_is_benign(IoKind::ConnectionReset));
    assert!(!write_error_is_benign(IoKind::UnexpectedEof));
    assert!(!write_error_is_benign(IoKind::Other));
}

#[test]
fn only_a_broken_pipe_is_tried_again_and_only_once() {
    let pipe = Some(vec![cause(None, "flush"), cause(Some(IoKind::BrokenPipe), "pipe")]);
    let other = Some(vec![cause(None, "unknown output")]);
    assert_eq!(after_attempt(0, &None), Retry::Accept);
    assert_eq!(after_attempt(1, &None), Retry::Accept);
    assert_eq!(after_attempt(0, &pipe), Retry::Rebuild);
    assert_eq!(after_attempt(1, &pipe), Retry::GiveUp);
    assert_eq!(after_attempt(0, &other), Retry::GiveUp);
}

#[test]
fn lock_file_lives_in_the_runtime_directory() {
    assert_eq!(lock_path("/run/user/1000/gesso"), "/run/user/1000/gesso/gesso.lock");
    assert_eq!(lock_path("/run/user/1000/gesso/"), "/run/user/1000/gesso/gesso.lock");
    assert_eq!(lock_path(""), "gesso.lock");
}

#[test]
fn health_report() {
    let probe = Probe { wayland_display: true, compositor: true, shm: false, layer_shell: true, outputs: 12 };
    let check = |name: &str, ok: bool, detail: &str| DoctorCheck {
        name: name.to_string(),
        ok,
        detail: detail.to_string(),
    };
    assert_eq!(
        doctor_checks(&probe),
        vec![
            check("WAYLAND_DISPLAY set", true, "Wayland-only"),
            check("wl_compositor", true, "required"),
            check("wl_shm", false, "required (v1 renderer)"),
            check("zwlr_layer_shell_v1", true, "required for wallpaper layer surfaces"),
            check("wl_output count", true, "seen: 12"),
        ]
    );
    let none = doctor_checks(&Probe { outputs: 0, ..probe });
    assert_eq!(none[4], check("wl_output count", false, "seen: 0"));
}

#[test]
fn status_report() {
    let spec = Spec::Colour { colour: Rgb { r: 1, g: 2, b: 3 }, output: None, transition: TransitionSpec::default() };
    assert_eq!(status_payload(None, true), None);
    assert_eq!(
        status_payload(Some(spec.clone()), true),
        Some(CurrentStatus { spec: spec.clone(), running: true, note: "running".to_string() })
    );
    assert_eq!(
        status_payload(Some(spec.clone()), false),
        Some(CurrentStatus { spec: spec.clone(), running: false, note: "not running".to_string() })
    );
    let response = Response::Status { current: status_payload(Some(spec.clone()), true) };
    assert_ne!(response, Response::Done);
    assert_ne!(Request::Apply { spec }, Request::Stop);
}

#[test]
fn blank_lines_hold_no_request() {
    assert!(!line_has_request(""));
    assert!(!line_has_request("\n"));
    assert!(!line_has_request(" \t \r\n"));
    assert!(line_has_request("\"Stop\"\n"));
    assert!(line_has_request("  x"));
}

#[test]
fn log_rotation() {
    let policy = LogPolicy::default();
    assert_eq!(policy, LogPolicy { max_bytes: 5 * 1024 * 1024, keep_backups: 5 });
    assert_eq!(prepare_log_file(None, policy), LogStart::Fresh);
    assert_eq!(prepare_log_file(Some(0), policy), LogStart::Fresh);
    assert_eq!(prepare_log_file(Some(1), policy), LogStart::Continue);
    assert_eq!(prepare_log_file(Some(5 * 1024 * 1024 - 1), policy), LogStart::Continue);
    assert_eq!(prepare_log_file(Some(5 * 1024 * 1024), policy), LogStart::Rotate);
    assert_eq!(rotated_name("/s/gesso.log", 3), "/s/gesso.log.3");
    assert_eq!(rotated_name("/s/gesso.log", 10), "/s/gesso.log.10");
    let rename = |from: &str, to: &str, if_exists: bool| RotateStep::Rename {
        from: from.to_string(),
        to: to.to_string(),
        if_exists,
    };
    assert_eq!(rotate("/s/l", 0), vec![RotateStep::Remove { path: "/s/l".to_string() }]);
    assert_eq!(rotate("/s/l", 1), vec![rename("/s/l", "/s/l.1", false)]);
    assert_eq!(
        rotate("/s/l", 3),
        vec![rename("/s/l.2", "/s/l.3", true), rename("/s/l.1", "/s/l.2", true), rename("/s/l", "/s/l.1", false)]
    );
    assert_eq!(rotate("/s/l", 5).len(), 5);
    assert_eq!(
        run_header(4242),
        "==================== gesso daemon run start (pid=4242) ===================="
    );
}

#[test]
fn daemon_paths() {
    assert_eq!(state_base(Some("/home/u/.local/state"), Some("/home/u")), Some("/home/u/.local/state".to_string()));
    assert_eq!(state_base(None, Some("/home/u")), Some("/home/u/.local/state".to_string()));
    assert_eq!(state_base(None, None), None);
    assert_eq!(
        paths("/home/u/.local/state", Some("/run/user/1000")),
        Paths {
            state_dir: "/home/u/.local/state/gesso".to_string(),
            runtime_dir: "/run/user/1000/gesso".to_string(),
            sock_path: "/run/user/1000/gesso/ctl.sock".to_string(),
            log_path: "/home/u/.local/state/gesso/gesso.log".to_string(),
            current_path: "/home/u/.local/state/gesso/current.json".to_string(),
        }
    );
    let p = paths("/s", None);
    assert_eq!(p.runtime_dir, "/s/gesso/gesso");
    assert_eq!(p.sock_path, "/s/gesso/gesso/ctl.sock");
}

#[test]
fn user_paths_expand() {
    let home = Some("/home/u");
    assert_eq!(expand_user_path("~", home), Ok("/home/u/".to_string()));
    assert_eq!(expand_user_path("~/Pictures/a.png", home), Ok("/home/u/Pictures/a.png".to_string()));
    assert_eq!(expand_user_path("  ~/a.png \n", home), Ok("/home/u/a.png".to_string()));
    assert_eq!(expand_user_path("~//a.png", home), Ok("/home/u/a.png".to_string()));
    assert_eq!(expand_user_path("$HOME/a.png", home), Ok("/home/u/a.png".to_string()));
    assert_eq!(expand_user_path("${HOME}/a.png", home), Ok("/home/u/a.png".to_string()));
    assert_eq!(expand_user_path("$HOME", home), Ok("/home/u/".to_string()));
    assert_eq!(expand_user_path("$HOMEless", home), Ok("/home/u/less".to_string()));
    assert_eq!(expand_user_path("/abs/a.png", home), Ok("/abs/a.png".to_string()));
    assert_eq!(expand_user_path(" rel/a.png ", None), Ok("rel/a.png".to_string()));
    assert_eq!(expand_user_path("~user/a.png", home), Ok("~user/a.png".to_string()));
    assert_eq!(expand_user_path("$OTHER/a.png", home), Ok("$OTHER/a.png".to_string()));
    assert_eq!(expand_user_path("", home), Ok("".to_string()));
    assert_eq!(expand_user_path("~/a.png", None), Err(HomeUnset));
    assert_eq!(expand_user_path("~", None), Err(HomeUnset));
    assert_eq!(expand_user_path("$HOME/a.png", None), Err(HomeUnset));
    assert_eq!(expand_user_path("${HOME}", None), Err(HomeUnset));
}

#[test]
fn session_watch_counts_failures_in_a_row() {
    let mut w = Watch::new();
    assert!(!w.on_socket(false));
    assert!(!w.on_socket(false));
    assert!(!w.on_socket(true));
    assert_eq!(w.socket_failures, 0);
    assert!(!w.on_socket(false));
    assert!(!w.on_socket(false));
    assert!(w.on_socket(false));
    assert!(w.on_socket(false));
    assert_eq!(w.socket_failures, 3);

    let mut w = Watch::new();
    assert!(!w.on_session(SessionProbe::Inactive));
    assert!(!w.on_session(SessionProbe::Inactive));
    assert!(!w.on_session(SessionProbe::Unknown));
    assert_eq!(w.inactive_failures, 0);
    assert!(!w.on_session(SessionProbe::Inactive));
    assert!(!w.on_session(SessionProbe::Active));
    assert!(!w.on_session(SessionProbe::Inactive));
    assert!(!w.on_session(SessionProbe::Inactive));
    assert!(w.on_session(SessionProbe::Inactive));
    assert_eq!(w, Watch { socket_failures: 0, inactive_failures: 3 });
}

#[test]
fn compositor_socket() {
    assert!(is_wayland_socket_name("wayland-0"));
    assert!(is_wayland_socket_name("wayland-1.lock"));
    assert!(!is_wayland_socket_name("wayland"));
    assert!(!is_wayland_socket_name("xwayland-0"));
    assert_eq!(wayland_socket_path("/run/user/1000", Some("wayland-1")), Some("/run/user/1000/wayland-1".to_string()));
    assert_eq!(wayland_socket_path("/run/user/1000", Some("")), None);
    assert_eq!(wayland_socket_path("/run/user/1000", None), None);
    assert_eq!(
        probe_failure_message(Some("x11"), "no socket"),
        "not a wayland session: XDG_SESSION_TYPE=x11"
    );
    assert_eq!(probe_failure_message(Some("wayland"), "no socket"), "no socket");
    assert_eq!(probe_failure_message(Some("<unset>"), "no socket"), "no socket");
    assert_eq!(probe_failure_message(None, "no socket"), "no socket");
}
