use std::cell::RefCell;
use std::time::{Duration, Instant};

use gtkshutdown::client_killer::hyprland::{
    HyprlandBackend, HyprlandLayerClient, HyprlandStatus, HyprlandWindowClient, Monitor,
};
use gtkshutdown::client_killer::{
    detect_backend, BackendError, BackendKind, Client, ClientKiller, ClientKind, KillAction,
    KillCause, KillStatus, StepTaken, WaylandBackend,
};
use gtkshutdown::signal::{ForceKillError, SignalError, SignalKind};

const NO_SUCH_PID: i32 = 2_000_000_000;

/// Checks that `cause` is a signal to `pid` refused for want of a process.
fn assert_no_such_process(cause: &KillCause, pid: i32, signal: SignalKind) {
    match cause {
        KillCause::Signal(f) => {
            assert_eq!(f.pid(), pid);
            assert_eq!(f.signal(), Some(signal));
            assert_eq!(f.error(), SignalError::NoSuchProcess);
        }
        other => panic!("unexpected cause {other:?}"),
    }
}

/// Checks that a round of `SIGKILL`s stopped at once, at `pid`.
fn assert_force_kill_refused(e: &ForceKillError, pid: i32) {
    assert!(e.delivered.is_empty());
    assert_eq!(e.refused.pid(), pid);
    assert_eq!(e.refused.signal(), Some(SignalKind::Kill));
    assert_eq!(e.refused.error(), SignalError::NoSuchProcess);
}
const SEC: u128 = 1_000_000_000;

fn window(pid: i32, address: &str, class: &str, title: &str) -> HyprlandWindowClient {
    HyprlandWindowClient {
        pid,
        address: address.to_string(),
        class: class.to_string(),
        title: title.to_string(),
    }
}

fn layer(pid: i32, address: &str, namespace: &str) -> HyprlandLayerClient {
    HyprlandLayerClient {
        pid,
        address: address.to_string(),
        namespace: namespace.to_string(),
    }
}

struct RecordingBackend {
    closed: RefCell<Vec<String>>,
    fail: bool,
}

impl WaylandBackend for RecordingBackend {
    fn close_requested(&self, client: Client) -> bool {
        self.closed.borrow().contains(&client.unique_id)
    }

    fn open_clients(&self) -> Result<Vec<Client>, BackendError> {
        Ok(Vec::new())
    }

    fn gracefully_close(&self, client: &Client) -> Result<(), BackendError> {
        if self.fail {
            return Err(BackendError {
                message: String::from("refused"),
            });
        }
        self.closed.borrow_mut().push(client.unique_id().to_string());
        Ok(())
    }
}

fn recorder(fail: bool) -> RecordingBackend {
    RecordingBackend {
        closed: RefCell::new(Vec::new()),
        fail,
    }
}

#[test]
fn update_moves_one_step_until_kill_sent() {
    let s = KillStatus::Alive.update();
    assert!(matches!(s, KillStatus::GracefulSent(_)));
    let s = s.update();
    assert!(matches!(s, KillStatus::TermSent(_)));
    let s = s.update();
    assert_eq!(s, KillStatus::KillSent);
    assert_eq!(s.update(), KillStatus::KillSent);
}

#[test]
fn update_at_stamps_the_given_time() {
    let then = Instant::now();
    let later = then + Duration::from_secs(3);
    assert_eq!(KillStatus::Alive.update_at(later), KillStatus::GracefulSent(later));
    assert_eq!(
        KillStatus::GracefulSent(then).update_at(later),
        KillStatus::TermSent(later)
    );
    assert_eq!(KillStatus::TermSent(then).update_at(later), KillStatus::KillSent);
    assert_eq!(KillStatus::KillSent.update_at(later), KillStatus::KillSent);
    let before = Instant::now();
    match KillStatus::Alive.update() {
        KillStatus::GracefulSent(at) => assert!(at >= before),
        other => panic!("unexpected status {other:?}"),
    }
}

#[test]
fn elapsed_time_of_a_status() {
    assert_eq!(KillStatus::Alive.elapsed_nanos(), 0);
    assert_eq!(KillStatus::KillSent.elapsed_nanos(), 0);
    if let Some(long_ago) = Instant::now().checked_sub(Duration::from_secs(2)) {
        assert!(KillStatus::GracefulSent(long_ago).elapsed_nanos() >= 2 * SEC);
        assert!(KillStatus::TermSent(long_ago).elapsed_nanos() >= 2 * SEC);
    }
}

#[test]
fn one_round_takes_the_step_due() {
    let backend = recorder(false);
    let mut killer = ClientKiller::new();
    let mut c = Client::from(window(NO_SUCH_PID, "0xabc", "app", "t"));
    assert_eq!(
        killer.kill_client(&backend, &mut c),
        Ok(Some(StepTaken::CloseRequested))
    );
    assert!(matches!(c.status(), KillStatus::GracefulSent(_)));
    assert_eq!(killer.kill_client(&backend, &mut c), Ok(None));
    if let Some(long_ago) = Instant::now().checked_sub(Duration::from_secs(16)) {
        c.status = KillStatus::GracefulSent(long_ago);
        let cause = killer.kill_client(&backend, &mut c).unwrap_err();
        assert_no_such_process(&cause, NO_SUCH_PID, SignalKind::Terminate);
        assert_eq!(c.status, KillStatus::GracefulSent(long_ago));
    }
    assert_eq!(backend.closed.borrow().len(), 1);
}

#[test]
fn poll_after_follows_the_timeouts() {
    let now = Instant::now();
    assert_eq!(KillStatus::Alive.poll_after(0), Some(KillAction::Graceful));
    assert_eq!(KillStatus::Alive.poll_after(100 * SEC), Some(KillAction::Graceful));
    let graceful = KillStatus::GracefulSent(now);
    assert_eq!(graceful.poll_after(15 * SEC), None);
    assert_eq!(graceful.poll_after(15 * SEC + 1), Some(KillAction::Sigterm));
    let term = KillStatus::TermSent(now);
    assert_eq!(term.poll_after(30 * SEC), None);
    assert_eq!(term.poll_after(30 * SEC + 1), Some(KillAction::Sigkill));
    assert_eq!(term.poll_after(1000 * SEC), Some(KillAction::Sigkill));
    assert_eq!(KillStatus::KillSent.poll_after(1000 * SEC), None);
}

#[test]
fn poll_reads_the_clock() {
    assert_eq!(KillStatus::Alive.poll(), Some(KillAction::Graceful));
    assert_eq!(KillStatus::GracefulSent(Instant::now()).poll(), None);
    assert_eq!(KillStatus::TermSent(Instant::now()).poll(), None);
    assert_eq!(KillStatus::KillSent.poll(), None);
    if let Some(long_ago) = Instant::now().checked_sub(Duration::from_secs(31)) {
        assert_eq!(
            KillStatus::GracefulSent(long_ago).poll(),
            Some(KillAction::Sigterm)
        );
        assert_eq!(KillStatus::TermSent(long_ago).poll(), Some(KillAction::Sigkill));
    }
}

#[test]
fn window_and_layer_become_clients() {
    let w = Client::from(window(3441, "0x6071d717d3c0", "window", "~"));
    assert_eq!(w.pid(), 3441);
    assert_eq!(w.unique_id(), "0x6071d717d3c0");
    assert_eq!(w.app_id(), "window");
    assert_eq!(w.title(), Some("~"));
    assert!(!w.is_layer());
    assert_eq!(*w.status(), KillStatus::Alive);

    let l = Client::from(layer(3442, "0x6071d7158a90", "layer"));
    assert_eq!(l.pid(), 3442);
    assert_eq!(l.app_id(), "layer");
    assert_eq!(l.title(), None);
    assert!(l.is_layer());
}

#[test]
fn update_status_and_saving_hints() {
    let mut c = Client::from(window(10, "0x1", "app", "t"));
    assert!(!c.may_be_saving());
    assert!(!c.may_be_hanging());
    c.update_status();
    assert!(matches!(c.status(), KillStatus::GracefulSent(_)));
    assert!(!c.may_be_saving());
    assert_eq!(c.app_id(), "app");
    if let Some(long_ago) = Instant::now().checked_sub(Duration::from_secs(6)) {
        c.status = KillStatus::GracefulSent(long_ago);
        assert!(c.may_be_saving());
        assert!(!c.may_be_hanging());
        c.status = KillStatus::TermSent(long_ago);
        assert!(!c.may_be_saving());
        assert!(c.may_be_hanging());
    }
}

#[test]
fn open_clients_are_sorted_filtered_and_deduplicated() {
    let windows = vec![
        window(20, "0x2", "zed", "b"),
        window(-1, "0x3", "session", "x"),
        window(10, "0x1", "anki", "a"),
        window(0, "0x4", "zero", "y"),
    ];
    let layers = vec![
        layer(30, "0x5", "bar"),
        layer(30, "0x5", "bar"),
        layer(31, "0x6", "aaa"),
    ];
    let clients = HyprlandBackend::clients_from(windows, layers);
    let ids: Vec<(&str, i32, bool)> = clients
        .iter()
        .map(|c| (c.app_id(), c.pid(), c.is_layer()))
        .collect();
    assert_eq!(
        ids,
        vec![
            ("anki", 10, false),
            ("zed", 20, false),
            ("aaa", 31, true),
            ("bar", 30, true)
        ]
    );
}

#[test]
fn equal_keys_keep_their_order() {
    let windows = vec![
        window(2, "0xb", "same", "second"),
        window(1, "0xa", "same", "first"),
        window(2, "0xb", "same", "second"),
    ];
    let clients = HyprlandBackend::clients_from(windows, Vec::new());
    let pids: Vec<i32> = clients.iter().map(|c| c.pid()).collect();
    assert_eq!(pids, vec![2, 1, 2]);
}

const LAYERS_JSON: &str = r#"
{
"monitor_1": {
    "levels": {
        "0": [
                {
                    "address": "0x6071d7158a90",
                    "x": 1920,
                    "y": 0,
                    "w": 1920,
                    "h": 1080,
                    "alpha": 1,
                    "namespace": "layer",
                    "pid": 3442
                }
        ],
        "1": [
],
        "2": [
                {
                    "address": "0x6071d7158a90",
                    "x": 1920,
                    "y": 0,
                    "w": 1920,
                    "h": 48,
                    "alpha": 1,
                    "namespace": "layer",
                    "pid": 3442
                }
        ],
        "3": [
]
    }
},"monitor_2": {
    "levels": {

        "0": [
                {
                    "address": "0x6071d7158a90",
                    "x": 0,
                    "y": 0,
                    "w": 1920,
                    "h": 1080,
                    "alpha": 1,
                    "namespace": "layer",
                    "pid": 3442
                }
        ],
        "1": [
],
        "2": [
                {
                    "address": "0x6071d7158a90",
                    "x": 0,
                    "y": 0,
                    "w": 1920,
                    "h": 48,
                    "alpha": 0,
                    "namespace": "layer",
                    "pid": 3442
                }
        ],
        "3": [
]
    }
}
}
"#;

/// The monitors of a `hyprctl layers` reply, read field by field.
fn monitors_of(json: &str) -> Vec<Monitor> {
    let value: serde_json::Value =
        serde_json::from_str(json).expect("test JSON should be successfully deserialized");
    value
        .as_object()
        .unwrap()
        .values()
        .map(|monitor| Monitor {
            levels: monitor["levels"]
                .as_object()
                .unwrap()
                .values()
                .map(|level| {
                    level
                        .as_array()
                        .unwrap()
                        .iter()
                        .map(|l| HyprlandLayerClient {
                            pid: l["pid"].as_i64().unwrap() as i32,
                            address: l["address"].as_str().unwrap().to_string(),
                            namespace: l["namespace"].as_str().unwrap().to_string(),
                        })
                        .collect()
                })
                .collect(),
        })
        .collect()
}

#[test]
fn layers_reply_is_flattened() {
    let monitors = monitors_of(LAYERS_JSON);
    let expected_client = layer(3442, "0x6071d7158a90", "layer");

    let expected_levels = vec![
        vec![expected_client.clone()],
        vec![],
        vec![expected_client.clone()],
        vec![],
    ];
    assert_eq!(monitors.len(), 2);
    for monitor in &monitors {
        assert_eq!(monitor.levels, expected_levels);
    }

    let mut layers = HyprlandBackend::deserialize_layers(monitors);
    layers.sort_by_key(|c| (c.pid, c.namespace.clone()));
    let expected = vec![
        expected_client.clone(),
        expected_client.clone(),
        expected_client.clone(),
        expected_client,
    ];
    assert_eq!(layers, expected);
}

#[test]
fn layers_keep_monitor_and_level_order() {
    let m1 = Monitor {
        levels: vec![vec![layer(1, "a", "one")], vec![layer(2, "b", "two")]],
    };
    let m2 = Monitor {
        levels: vec![vec![], vec![layer(3, "c", "three"), layer(4, "d", "four")]],
    };
    let pids: Vec<i32> = HyprlandBackend::deserialize_layers(vec![m1, m2])
        .iter()
        .map(|l| l.pid)
        .collect();
    assert_eq!(pids, vec![1, 2, 3, 4]);
}

#[test]
fn lua_config_is_detected() {
    let lua = HyprlandStatus {
        config_provider: String::from("lua"),
    };
    let hyprlang = HyprlandStatus {
        config_provider: String::from("hyprlang"),
    };
    assert!(lua.is_using_lua());
    assert!(!hyprlang.is_using_lua());
    assert!(HyprlandBackend::new(&lua).is_using_lua);
    assert!(!HyprlandBackend::new(&hyprlang).is_using_lua);
}

#[test]
fn lua_close_args_name_the_pid() {
    assert_eq!(
        HyprlandBackend::lua_close_args(1234),
        "hl.dsp.window.close({ window = \"pid:1234\" })"
    );
    assert_eq!(
        HyprlandBackend::lua_close_args(-7),
        "hl.dsp.window.close({ window = \"pid:-7\" })"
    );
}

#[test]
fn backend_is_picked_from_the_desktop() {
    assert_eq!(detect_backend(Some("Hyprland")), Some(BackendKind::Hyprland));
    assert_eq!(detect_backend(Some("sway")), Some(BackendKind::Sway));
    assert_eq!(detect_backend(Some("GNOME")), None);
    assert_eq!(detect_backend(Some("hyprland")), None);
    assert_eq!(detect_backend(None), None);
}

#[test]
fn alive_window_is_asked_to_close_and_moves_on() {
    let backend = recorder(false);
    let mut killer = ClientKiller::new();
    let mut clients = vec![Client::from(window(NO_SUCH_PID, "0xabc", "app", "t"))];
    assert_eq!(
        killer.kill_clients(&backend, &mut clients),
        Ok(vec![Some(StepTaken::CloseRequested)])
    );
    assert_eq!(*backend.closed.borrow(), vec![String::from("0xabc")]);
    assert!(matches!(clients[0].status(), KillStatus::GracefulSent(_)));
    // Nothing is due until the timeout.
    assert_eq!(killer.kill_clients(&backend, &mut clients), Ok(vec![None]));
    assert_eq!(backend.closed.borrow().len(), 1);
    assert!(matches!(clients[0].status(), KillStatus::GracefulSent(_)));
}

#[test]
fn refused_close_names_the_client_and_keeps_its_status() {
    let backend = recorder(true);
    let mut killer = ClientKiller::new();
    let mut clients = vec![Client::from(window(NO_SUCH_PID, "0xabc", "app", "t"))];
    let err = killer.kill_clients(&backend, &mut clients).unwrap_err();
    assert_eq!(err.app_id, "app");
    assert_eq!(err.pid, NO_SUCH_PID);
    assert_eq!(
        err.cause,
        KillCause::Close(BackendError {
            message: String::from("refused")
        })
    );
    assert_eq!(*clients[0].status(), KillStatus::Alive);
}

#[test]
fn layer_gets_sigterm_and_keeps_its_status() {
    let backend = recorder(false);
    let mut killer = ClientKiller::new();
    let mut clients = vec![Client::from(layer(NO_SUCH_PID, "0x1", "bar"))];
    let err = killer.kill_clients(&backend, &mut clients).unwrap_err();
    assert_no_such_process(&err.cause, NO_SUCH_PID, SignalKind::Terminate);
    assert_eq!(err.app_id, "bar");
    assert!(backend.closed.borrow().is_empty());
    assert_eq!(*clients[0].status(), KillStatus::Alive);
}

#[test]
fn client_without_id_gets_sigterm() {
    let backend = recorder(false);
    let mut killer = ClientKiller::new();
    let mut clients = vec![Client::from(window(NO_SUCH_PID, "", "app", "t"))];
    let err = killer.kill_clients(&backend, &mut clients).unwrap_err();
    assert_no_such_process(&err.cause, NO_SUCH_PID, SignalKind::Terminate);
    assert!(backend.closed.borrow().is_empty());
}

#[test]
fn finished_clients_are_left_alone() {
    let backend = recorder(false);
    let mut killer = ClientKiller::new();
    let mut c = Client::from(window(NO_SUCH_PID, "0x1", "app", "t"));
    c.status = KillStatus::KillSent;
    let mut clients = vec![c];
    assert_eq!(killer.kill_clients(&backend, &mut clients), Ok(vec![None]));
    assert_eq!(*clients[0].status(), KillStatus::KillSent);
    assert!(backend.closed.borrow().is_empty());
}

#[test]
fn overdue_sigterm_escalates_to_sigkill() {
    let backend = recorder(false);
    let mut killer = ClientKiller::new();
    if let Some(long_ago) = Instant::now().checked_sub(Duration::from_secs(31)) {
        let mut c = Client::from(window(NO_SUCH_PID, "0x1", "app", "t"));
        c.status = KillStatus::TermSent(long_ago);
        let mut clients = vec![c];
        let err = killer.kill_clients(&backend, &mut clients).unwrap_err();
        assert_no_such_process(&err.cause, NO_SUCH_PID, SignalKind::Kill);
        assert!(matches!(clients[0].status(), KillStatus::TermSent(_)));
    }
}

#[test]
fn force_kill_stops_at_a_missing_process() {
    let killer = ClientKiller::new();
    let clients = vec![Client::from(window(NO_SUCH_PID, "0x1", "app", "t"))];
    assert_force_kill_refused(&killer.force_kill_clients(&clients).unwrap_err(), NO_SUCH_PID);
    assert_eq!(killer.force_kill_clients(&[]), Ok(Vec::new()));
}

#[test]
fn client_kinds_are_distinct() {
    assert_ne!(ClientKind::Window, ClientKind::Layer);
}

#[test]
fn saving_and_hanging_after_a_delay() {
    let now = Instant::now();
    let graceful = KillStatus::GracefulSent(now);
    let term = KillStatus::TermSent(now);
    assert!(!graceful.saving_after(5 * SEC));
    assert!(graceful.saving_after(5 * SEC + 1));
    assert!(!graceful.hanging_after(100 * SEC));
    assert!(!term.hanging_after(3 * SEC));
    assert!(term.hanging_after(3 * SEC + 1));
    assert!(!term.saving_after(100 * SEC));
    assert!(!KillStatus::Alive.saving_after(100 * SEC));
    assert!(!KillStatus::KillSent.hanging_after(100 * SEC));
}

#[test]
fn nothing_to_kill_succeeds() {
    let backend = recorder(true);
    let mut killer = ClientKiller::new();
    let mut clients: Vec<Client> = Vec::new();
    assert_eq!(killer.kill_clients(&backend, &mut clients), Ok(Vec::new()));
    assert_eq!(killer.force_kill_clients(&clients), Ok(Vec::new()));
}

#[test]
fn killer_client_names_itself_in_messages() {
    let c = Client::from(window(3441, "0x1", "window", "~"));
    assert_eq!(c.to_string(), "Client { app_id: window, pid: 3441 }");
}
