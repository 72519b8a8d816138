use std::time::Instant;

use gtkshutdown::cli::{post_cmd_parts, split_whitespace, white_space};
use gtkshutdown::client::{lua_close_args, ClientKiller as GenericKiller, WaylandClient};
use gtkshutdown::client_killer::hyprland::HyprlandWindowClient;
use gtkshutdown::client_killer::{BackendError, Client, KillStatus};
use gtkshutdown::order::{client_precedes, dedup_clients, sort_clients};
use gtkshutdown::signal::{alive_after_probe, is_proc_alive, ForceKillError, SignalError, SignalKind};
use gtkshutdown::text::{contains_str, fmt_i64, fmt_u64, lex_le_str, parse_u32, str_eq};
use gtkshutdown::timing::longer_than_secs;
use gtkshutdown::ui::{app_id_label, header_label, row_labels, title_label};

/// Checks that `cause` is a signal to `pid` refused for want of a process.
fn assert_no_such_process(cause: &gtkshutdown::client::KillCause, pid: i32, signal: SignalKind) {
    match cause {
        gtkshutdown::client::KillCause::Signal(f) => {
            assert_eq!(f.pid(), pid);
            assert_eq!(f.signal(), Some(signal));
            assert_eq!(f.error(), SignalError::NoSuchProcess);
        }
        other => panic!("unexpected cause {other:?}"),
    }
}

/// Checks that a round of `SIGKILL`s stopped at once, at `pid`.
fn assert_force_kill_refused(e: &ForceKillError, pid: i32) {
    assert!(e.delivered.is_empty());
    assert_eq!(e.refused.pid(), pid);
    assert_eq!(e.refused.signal(), Some(SignalKind::Kill));
    assert_eq!(e.refused.error(), SignalError::NoSuchProcess);
}

fn window(pid: i32, class: &str) -> Client {
    Client::from(HyprlandWindowClient {
        pid,
        address: format!("0x{pid}"),
        class: class.to_string(),
        title: String::from("title"),
    })
}

#[test]
fn decimal_rendering() {
    assert_eq!(fmt_u64(0), "0");
    assert_eq!(fmt_u64(1234567890), "1234567890");
    assert_eq!(fmt_u64(u64::MAX), u64::MAX.to_string());
    assert_eq!(fmt_i64(-42), "-42");
    assert_eq!(fmt_i64(i64::MIN), i64::MIN.to_string());
}

#[test]
fn string_helpers() {
    assert!(lex_le_str("abc", "abd"));
    assert!(lex_le_str("ab", "abc"));
    assert!(!lex_le_str("b", "abc"));
    assert!(lex_le_str("", ""));
    assert!(lex_le_str("Zed", "anki"));
    assert!(contains_str("an error occurred", "error"));
    assert!(!contains_str("err", "error"));
    assert!(contains_str("x", ""));
    assert!(str_eq("sway", "sway"));
    assert!(!str_eq("sway", "Sway"));
    assert_eq!(parse_u32("123"), Some(123));
    assert_eq!(parse_u32("12a"), None);
    assert!(longer_than_secs(5_000_000_001, 5));
    assert!(!longer_than_secs(5_000_000_000, 5));
}

#[test]
fn sort_and_dedup_clients() {
    let sorted = sort_clients(vec![window(2, "b"), window(1, "a"), window(1, "a")]);
    let names: Vec<&str> = sorted.iter().map(|c| c.app_id()).collect();
    assert_eq!(names, vec!["a", "a", "b"]);
    assert!(client_precedes(&sorted[0], &sorted[2]));
    assert!(!client_precedes(&sorted[2], &sorted[0]));
    let once = dedup_clients(sorted);
    assert_eq!(once.len(), 2);
    let mut a = window(1, "a");
    let mut b = window(1, "a");
    let now = Instant::now();
    a.status = KillStatus::GracefulSent(now);
    b.status = KillStatus::GracefulSent(now);
    assert_eq!(dedup_clients(vec![a.clone(), b]).len(), 1);
    let mut c = window(1, "a");
    c.status = KillStatus::TermSent(now);
    assert_eq!(dedup_clients(vec![a, c]).len(), 2);
}

#[test]
fn probes_and_process_liveness() {
    assert!(alive_after_probe(Ok(())));
    assert!(alive_after_probe(Err(SignalError::PermissionDenied)));
    assert!(!alive_after_probe(Err(SignalError::NoSuchProcess)));
    assert!(!alive_after_probe(Err(SignalError::Other(22))));
    let me = nix::unistd::getpid().as_raw();
    let probe = is_proc_alive(me);
    assert!(probe.alive);
    assert_eq!(probe.outcome.map(|d| (d.pid(), d.signal())), Ok((me, None)));
    let probe = is_proc_alive(2_000_000_000);
    assert!(!probe.alive);
    let refused = probe.outcome.unwrap_err();
    assert_eq!(refused.pid(), 2_000_000_000);
    assert_eq!(refused.signal(), None);
    assert_eq!(refused.error(), SignalError::NoSuchProcess);
}

#[test]
fn row_and_header_labels() {
    assert_eq!(app_id_label("anki", false, false), "anki");
    assert_eq!(app_id_label("anki", true, false), "* anki");
    assert_eq!(app_id_label("anki", false, true), "** anki");
    assert_eq!(app_id_label("anki", true, true), "* anki");
    assert_eq!(title_label(Some("User 1 - Anki"), false, false), "User 1 - Anki");
    assert_eq!(title_label(None, false, false), "");
    assert_eq!(
        title_label(Some("x"), true, false),
        "App has not closed yet, there may be unsaved progress."
    );
    assert_eq!(
        title_label(Some("x"), false, true),
        "App has not been killed yet, it may be hanging."
    );
    assert_eq!(header_label(3), "Closing 3 apps...");
    assert_eq!(header_label(0), "Closing 0 apps...");
    let (id, title) = row_labels(&window(3, "foot"));
    assert_eq!(id, "foot");
    assert_eq!(title, "title");
}

#[test]
fn post_cmd_is_split_on_white_space() {
    let (command, args) = post_cmd_parts("  systemctl   poweroff\t--now ").unwrap();
    assert_eq!(command, "systemctl");
    assert_eq!(args, vec![String::from("poweroff"), String::from("--now")]);
    assert_eq!(post_cmd_parts("   "), None);
    assert_eq!(post_cmd_parts(""), None);
    let (command, args) = post_cmd_parts("reboot").unwrap();
    assert_eq!(command, "reboot");
    assert!(args.is_empty());
    let text = "a\u{3000}b\u{85}c\u{a0}d e\u{2003}f";
    let expected: Vec<String> = text.split_whitespace().map(String::from).collect();
    assert_eq!(split_whitespace(text), expected);
    for c in ['\t', ' ', '\u{2028}', 'a', '\u{200b}', '\u{feff}'] {
        assert_eq!(white_space(c), c.is_whitespace(), "{c:?}");
    }
}

struct FakeClient {
    pid: i32,
    layer: bool,
    status: KillStatus,
}

impl WaylandClient for FakeClient {
    fn close_requested(&self) -> bool {
        false
    }

    fn client_pid(&self) -> i32 {
        self.pid
    }

    fn client_is_layer(&self) -> bool {
        self.layer
    }

    fn client_status(&self) -> KillStatus {
        self.status
    }

    fn pid(&self) -> i32 {
        self.client_pid()
    }

    fn app_id(&self) -> &str {
        "fake"
    }

    fn title(&self) -> Option<&str> {
        None
    }

    fn is_layer(&self) -> bool {
        self.layer
    }

    fn status(&self) -> &KillStatus {
        &self.status
    }

    fn gracefully_close(&self) -> Result<(), BackendError> {
        Err(BackendError {
            message: String::from("no compositor"),
        })
    }
}

#[test]
fn generic_killer_uses_the_client_itself() {
    let mut killer = GenericKiller::new();
    let mut clients = vec![FakeClient {
        pid: 2_000_000_000,
        layer: false,
        status: KillStatus::Alive,
    }];
    let err = killer.kill_clients(&mut clients).unwrap_err();
    assert_eq!(err.app_id, "fake");
    assert_eq!(err.pid, 2_000_000_000);
    assert_eq!(clients[0].status, KillStatus::Alive);
    clients[0].layer = true;
    let err = killer.kill_clients(&mut clients).unwrap_err();
    assert_no_such_process(&err.cause, 2_000_000_000, SignalKind::Terminate);
    clients[0].status = KillStatus::KillSent;
    let rounds = killer.kill_clients(&mut clients).unwrap();
    assert_eq!(rounds.len(), 1);
    assert_eq!(rounds[0].pid, 2_000_000_000);
    assert_eq!(rounds[0].status, KillStatus::KillSent);
    assert!(rounds[0].is_layer);
    assert_eq!(rounds[0].taken, None);
    assert_force_kill_refused(&killer.force_kill_clients(&clients).unwrap_err(), 2_000_000_000);
    let none: Vec<FakeClient> = Vec::new();
    assert_eq!(killer.force_kill_clients(&none), Ok(Vec::new()));
    assert_eq!(
        lua_close_args(321),
        "hl.dsp.window.close({ address = \"pid:321\" })"
    );
}
