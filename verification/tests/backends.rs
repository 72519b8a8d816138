use std::cell::RefCell;

use gtkshutdown::backends::hyprland::{
    client_from_layer, client_from_window, Backend, HyprlandStatus, LayerClient, Monitor,
    WindowClient,
};
use gtkshutdown::backends::mango::{close_target, MangoClient};
use gtkshutdown::backends::sway::{
    clients_of_tree, kill_command, Client as SwayClient, Node, NodeType, RootNode, TreeError,
    WindowProperties,
};
use gtkshutdown::backends::{
    detect_backend, BackendError, BackendKind, Client, ClientKiller, ClientKind, CloseMethod,
    KillCause, WaylandBackend,
};
use gtkshutdown::client_killer::StepTaken;
use gtkshutdown::signal::{ForceKillError, SignalError, SignalKind};

const NO_SUCH_PID: i32 = 2_000_000_000;

/// Checks that `cause` is a signal to `pid` refused for want of a process.
fn assert_no_such_process(cause: &KillCause, pid: i32, signal: SignalKind) {
    match cause {
        KillCause::Signal(f) => {
            assert_eq!(f.pid(), pid);
            assert_eq!(f.signal(), Some(signal));
            assert_eq!(f.error(), SignalError::NoSuchProcess);
        }
        other => panic!("unexpected cause {other:?}"),
    }
}

/// Checks that a round of `SIGKILL`s stopped at once, at `pid`.
fn assert_force_kill_refused(e: &ForceKillError, pid: i32) {
    assert!(e.delivered.is_empty());
    assert_eq!(e.refused.pid(), pid);
    assert_eq!(e.refused.signal(), Some(SignalKind::Kill));
    assert_eq!(e.refused.error(), SignalError::NoSuchProcess);
}

fn window(pid: i32, address: &str, class: &str, title: &str) -> WindowClient {
    WindowClient {
        pid,
        address: address.to_string(),
        class: class.to_string(),
        title: title.to_string(),
    }
}

fn layer(pid: i32, address: &str, namespace: &str) -> LayerClient {
    LayerClient {
        pid,
        address: address.to_string(),
        namespace: namespace.to_string(),
    }
}

fn node(id: i64, node_type: NodeType, nodes: Vec<Node>, floating_nodes: Vec<Node>) -> Node {
    Node {
        id,
        name: None,
        node_type,
        nodes,
        floating_nodes,
        app_id: None,
        pid: None,
        window_properties: None,
    }
}

fn view(
    id: i64,
    pid: i32,
    name: Option<&str>,
    app_id: Option<&str>,
    title: Option<Option<&str>>,
) -> Node {
    Node {
        id,
        name: name.map(String::from),
        node_type: NodeType::Con,
        nodes: Vec::new(),
        floating_nodes: Vec::new(),
        app_id: app_id.map(String::from),
        pid: Some(pid),
        window_properties: title.map(|t| WindowProperties {
            title: t.map(String::from),
        }),
    }
}

struct RecordingBackend {
    closed: RefCell<Vec<String>>,
}

impl WaylandBackend for RecordingBackend {
    fn close_requested(&self, client: Client) -> bool {
        self.closed.borrow().contains(&client.unique_id)
    }

    fn open_clients(&self) -> Result<Vec<Client>, BackendError> {
        Ok(Vec::new())
    }

    fn gracefully_close(&self, client: &Client) -> Result<(), BackendError> {
        self.closed.borrow_mut().push(client.unique_id().to_string());
        Ok(())
    }

    fn compositor_pid(&self) -> i32 {
        1
    }

    fn compositor_id(&self) -> i32 {
        self.compositor_pid()
    }
}

const WINDOWS_JSON: &str = r#"
[{
    "address": "0x6071d717d3c0",
    "floating": false,
    "monitor": 1,
    "class": "window",
    "title": "~",
    "initialClass": "window",
    "initialTitle": "window",
    "pid": 3441,
    "xwayland": false,
    "pinned": false,
    "pinFullscreened": false,
    "fullscreen": 0,
    "fullscreenClient": 0,
    "fullscreenHandler": "scrolling",
    "allowedOverFullscreen": false,
    "grouped": [],
    "tags": [],
    "swallowing": "0x0",
    "focusHistoryID": 1,
    "inhibitingIdle": false,
    "xdgTag": "",
    "xdgDescription": "",
    "contentType": "none",
    "tearingHint": false,
    "stableId": "1800001b"
}]
"#;

/// The windows of a `hyprctl clients` reply, read field by field.
fn windows_of(json: &str) -> Vec<WindowClient> {
    let value: serde_json::Value =
        serde_json::from_str(json).expect("test JSON should be successfully deserialized");
    value
        .as_array()
        .unwrap()
        .iter()
        .map(|w| WindowClient {
            pid: w["pid"].as_i64().unwrap() as i32,
            address: w["address"].as_str().unwrap().to_string(),
            class: w["class"].as_str().unwrap().to_string(),
            title: w["title"].as_str().unwrap().to_string(),
        })
        .collect()
}

const LAYERS_JSON: &str = r#"
{
"monitor_1": {
    "levels": {
        "0": [
                {
                    "address": "0x6071d7158a90",
                    "x": 1920,
                    "y": 0,
                    "w": 1920,
                    "h": 1080,
                    "alpha": 1,
                    "namespace": "layer",
                    "pid": 3442
                }
        ],
        "1": [
],
        "2": [
                {
                    "address": "0x6071d7158a90",
                    "x": 1920,
                    "y": 0,
                    "w": 1920,
                    "h": 48,
                    "alpha": 1,
                    "namespace": "layer",
                    "pid": 3442
                }
        ],
        "3": [
]
    }
},"monitor_2": {
    "levels": {

        "0": [
                {
                    "address": "0x6071d7158a90",
                    "x": 0,
                    "y": 0,
                    "w": 1920,
                    "h": 1080,
                    "alpha": 1,
                    "namespace": "layer",
                    "pid": 3442
                }
        ],
        "1": [
],
        "2": [
                {
                    "address": "0x6071d7158a90",
                    "x": 0,
                    "y": 0,
                    "w": 1920,
                    "h": 48,
                    "alpha": 0,
                    "namespace": "layer",
                    "pid": 3442
                }
        ],
        "3": [
]
    }
}
}
"#;

/// The monitors of a `hyprctl layers` reply, read field by field.
fn monitors_of(json: &str) -> Vec<Monitor> {
    let value: serde_json::Value =
        serde_json::from_str(json).expect("test JSON should be successfully deserialized");
    value
        .as_object()
        .unwrap()
        .values()
        .map(|monitor| Monitor {
            levels: monitor["levels"]
                .as_object()
                .unwrap()
                .values()
                .map(|level| {
                    level
                        .as_array()
                        .unwrap()
                        .iter()
                        .map(|l| LayerClient {
                            pid: l["pid"].as_i64().unwrap() as i32,
                            address: l["address"].as_str().unwrap().to_string(),
                            namespace: l["namespace"].as_str().unwrap().to_string(),
                        })
                        .collect()
                })
                .collect(),
        })
        .collect()
}

#[test]
fn deserialize_layer_clients() {
    let monitors = monitors_of(LAYERS_JSON);
    let expected_client = layer(3442, "0x6071d7158a90", "layer");

    let expected_levels = vec![
        vec![expected_client.clone()],
        vec![],
        vec![expected_client.clone()],
        vec![],
    ];
    assert_eq!(monitors.len(), 2);
    for monitor in &monitors {
        assert_eq!(monitor.levels, expected_levels);
    }

    let mut layers = Backend::deserialize_layers(monitors);
    layers.sort_by_key(|c| (c.pid, c.namespace.clone()));
    let expected = vec![
        expected_client.clone(),
        expected_client.clone(),
        expected_client.clone(),
        expected_client,
    ];
    assert_eq!(layers, expected);
}

#[test]
fn deserialize_window_client() {
    let client = windows_of(WINDOWS_JSON);
    let expected = vec![window(3441, "0x6071d717d3c0", "window", "~")];
    assert_eq!(client, expected);

    let client = client_from_window(client.into_iter().next().unwrap());
    assert_eq!(client.pid(), 3441);
    assert_eq!(client.unique_id(), "0x6071d717d3c0");
    assert_eq!(client.app_id(), "window");
    assert_eq!(client.title(), Some("~"));
    assert!(!client.is_layer());
}

#[test]
fn layer_becomes_client() {
    let client = client_from_layer(layer(3442, "0x6071d7158a90", "layer"));
    assert_eq!(client.pid(), 3442);
    assert_eq!(client.app_id(), "layer");
    assert_eq!(client.title(), None);
    assert!(client.is_layer());
    assert_eq!(client.instant_started(), &client.instant_started);
    assert!(!client.may_be_saving());
    assert!(!client.may_be_hanging());
}

#[test]
fn hyprland_open_clients_are_sorted() {
    let windows = vec![window(2, "0x2", "zed", "z"), window(1, "0x1", "anki", "a")];
    let layers = vec![layer(3, "0x3", "bar")];
    let clients = Backend::clients_from(windows, layers);
    let names: Vec<&str> = clients.iter().map(|c| c.app_id()).collect();
    assert_eq!(names, vec!["anki", "zed", "bar"]);
}

#[test]
fn hyprland_layers_are_flattened() {
    let m = Monitor {
        levels: vec![vec![layer(1, "a", "one")], vec![], vec![layer(2, "b", "two")]],
    };
    let layers = Backend::deserialize_layers(vec![m]);
    assert_eq!(layers.len(), 2);
    assert_eq!(layers[1].namespace, "two");
}

#[test]
fn hyprland_close_command_depends_on_config() {
    let lua = Backend::new(&HyprlandStatus {
        config_provider: String::from("lua"),
    });
    let plain = Backend::new(&HyprlandStatus {
        config_provider: String::from("hyprlang"),
    });
    assert_eq!(
        lua.close_command("0xabc"),
        "dispatch hl.dsp.window.close({ window = \"address:0xabc\" })"
    );
    assert_eq!(
        plain.close_command("0xabc"),
        "dispatch closewindow address:0xabc"
    );
}

#[test]
fn hyprland_error_replies_are_refused() {
    assert_eq!(
        Backend::check_response(String::from("ok")),
        Ok(String::from("ok"))
    );
    assert_eq!(
        Backend::check_response(String::from("[]")),
        Ok(String::from("[]"))
    );
    assert_eq!(
        Backend::check_response(String::from("some error happened")),
        Err(BackendError {
            message: String::from("some error happened")
        })
    );
    assert_eq!(
        Backend::check_response(String::from("unknown request")),
        Err(BackendError {
            message: String::from("unknown request")
        })
    );
    assert!(Backend::check_response(String::from("unknown")).is_ok());
}

#[test]
fn hyprland_socket_path() {
    assert_eq!(
        Backend::socket_path("/run/user/1000", "abc"),
        "/run/user/1000/hypr/abc/.socket.sock"
    );
    assert_eq!(
        Backend::runtime_dir(Some("/tmp/rt"), Some("7")),
        Some(String::from("/tmp/rt"))
    );
    assert_eq!(
        Backend::runtime_dir(None, Some("1000")),
        Some(String::from("/run/user/1000"))
    );
    assert_eq!(Backend::runtime_dir(None, None), None);
}

#[test]
fn extract_clients_from_tree() {
    // Root, one output, one workspace with an xwayland urxvt and a termite.
    let urxvt = view(5, 23959, Some("urxvt"), None, Some(Some("urxvt")));
    let termite = view(6, 25370, Some(""), Some("termite"), None);
    let workspace = node(4, NodeType::Workspace, vec![urxvt, termite], vec![]);
    let output = node(3, NodeType::Output, vec![workspace], vec![]);
    let tree = node(1, NodeType::Root, vec![output], vec![]);
    let root = RootNode::try_from(tree).expect("tree should be a root Node");
    let mut clients = root.clients();

    let expected_urxvt = SwayClient {
        pid: 23959,
        id: 5,
        app_id: String::from("urxvt"),
        name: Some(String::from("urxvt")),
    };
    let expected_termite = SwayClient {
        pid: 25370,
        id: 6,
        app_id: String::from("termite"),
        name: None,
    };
    let mut expected = vec![expected_urxvt, expected_termite];

    expected.sort_by_key(|c| c.id);
    clients.sort_by_key(|c| c.id);

    assert_eq!(clients, expected);
}

#[test]
fn sway_walk_visits_later_children_first() {
    let a = view(10, 100, None, Some("a"), None);
    let b = view(11, 101, None, Some("b"), None);
    let f = view(12, 102, None, Some("f"), None);
    let inner = view(14, 104, None, Some("inner"), None);
    let con = node(13, NodeType::Con, vec![inner], vec![]);
    let ws = node(2, NodeType::Workspace, vec![a, b, con], vec![f]);
    let root = RootNode::try_from(node(1, NodeType::Root, vec![ws], vec![])).unwrap();
    let ids: Vec<i64> = root.clients().iter().map(|c| c.id).collect();
    assert_eq!(ids, vec![12, 14, 11, 10]);
}

#[test]
fn sway_views_must_be_nameable() {
    let good = node(1, NodeType::Root, vec![view(2, 20, None, Some("a"), None)], vec![]);
    assert!(good.views_nameable());
    let bad_view = view(3, 30, None, None, None);
    let deep = node(4, NodeType::Con, vec![], vec![bad_view]);
    let bad = node(1, NodeType::Root, vec![view(2, 20, None, Some("a"), None), deep], vec![]);
    assert!(!bad.views_nameable());
}

#[test]
fn sway_view_without_app_id_or_title_is_unknown() {
    let c = SwayClient::try_from(view(7, 70, None, None, Some(None))).unwrap();
    assert_eq!(c.app_id, "(unknown)");
    assert_eq!(c.name, None);
}

#[test]
fn sway_refuses_non_clients_and_non_roots() {
    let n = node(9, NodeType::Workspace, vec![], vec![]);
    assert_eq!(
        SwayClient::try_from(n),
        Err(TreeError::NotAClient { id: 9 })
    );
    assert_eq!(
        RootNode::try_from(node(2, NodeType::Output, vec![], vec![])),
        Err(TreeError::NotRoot {
            node_type: NodeType::Output
        })
    );
    assert!(node(3, NodeType::Con, vec![], vec![]).is_client() == false);
}

#[test]
fn sway_client_becomes_general_client() {
    let c = SwayClient {
        pid: 23959,
        id: 5,
        app_id: String::from("urxvt"),
        name: Some(String::from("urxvt")),
    }
    .to_client();
    assert_eq!(c.unique_id(), "5");
    assert_eq!(c.pid(), 23959);
    assert_eq!(c.app_id(), "urxvt");
    assert_eq!(c.title(), Some("urxvt"));
    assert_eq!(kill_command(23959), "[pid=23959] kill");
}

#[test]
fn mango_client_and_close_target() {
    let c = MangoClient {
        id: 42,
        pid: 4294967295,
        title: String::from("t"),
        appid: String::from("foot"),
    }
    .to_client();
    assert_eq!(c.pid(), -1);
    assert_eq!(c.unique_id(), "42");
    assert_eq!(c.app_id(), "foot");
    assert_eq!(c.title(), Some("t"));
    assert_eq!(close_target(&c), Some(42));
}

#[test]
fn mango_close_target_parses_like_str_parse() {
    let mut c = client_from_window(window(1, "", "a", "t"));
    for text in ["", "+", "7", "+7", "-7", "abc", "4294967295", "4294967296", "0042", " 1"] {
        c.unique_id = String::from(text);
        assert_eq!(close_target(&c), text.parse::<u32>().ok(), "{text}");
    }
}

#[test]
fn close_method_depends_on_kind_and_id() {
    assert_eq!(
        ClientKiller::close_method(&client_from_window(window(1, "0x1", "a", "t"))),
        CloseMethod::Graceful
    );
    assert_eq!(
        ClientKiller::close_method(&client_from_window(window(1, "", "a", "t"))),
        CloseMethod::Sigterm
    );
    assert_eq!(
        ClientKiller::close_method(&client_from_layer(layer(1, "0x1", "a"))),
        CloseMethod::Sigterm
    );
    assert_eq!(ClientKind::Layer, client_from_layer(layer(1, "0x1", "a")).kind);
}

#[test]
fn kill_clients_closes_windows_and_reports_signal_errors() {
    let backend = RecordingBackend {
        closed: RefCell::new(Vec::new()),
    };
    let mut clients = vec![client_from_window(window(NO_SUCH_PID, "0xa", "a", "t"))];
    assert_eq!(
        ClientKiller::kill_clients(&backend, &mut clients),
        Ok(vec![StepTaken::CloseRequested])
    );
    assert_eq!(*backend.closed.borrow(), vec![String::from("0xa")]);

    let mut clients = vec![client_from_layer(layer(NO_SUCH_PID, "0xb", "bar"))];
    let err = ClientKiller::kill_clients(&backend, &mut clients).unwrap_err();
    assert_no_such_process(&err.cause, NO_SUCH_PID, SignalKind::Terminate);
    assert_eq!(err.pid, NO_SUCH_PID);
    assert_eq!(err.app_id, "bar");
    assert_force_kill_refused(&ClientKiller::force_kill_clients(&clients).unwrap_err(), NO_SUCH_PID);
    assert_eq!(ClientKiller::force_kill_clients(&[]), Ok(Vec::new()));
    let mut none: Vec<Client> = Vec::new();
    assert_eq!(ClientKiller::kill_clients(&backend, &mut none), Ok(Vec::new()));
}

#[test]
fn backends_detect_backend() {
    assert_eq!(detect_backend(Some("sway")), Some(BackendKind::Sway));
    assert_eq!(detect_backend(Some("Hyprland")), Some(BackendKind::Hyprland));
    assert_eq!(detect_backend(Some("mango")), None);
}

#[test]
fn sorting_again_changes_nothing() {
    let windows = vec![
        window(3, "0x3", "b", "x"),
        window(1, "0x1", "a", "y"),
        window(2, "0x2", "b", "z"),
    ];
    let once = Backend::clients_from(windows, vec![layer(4, "0x4", "a")]);
    let pids: Vec<i32> = once.iter().map(|c| c.pid()).collect();
    assert_eq!(pids, vec![1, 3, 2, 4]);
    let again = gtkshutdown::order::sort_clients(once.clone());
    assert_eq!(again, once);
}

#[test]
fn saving_and_hanging_hints_follow_the_time_listed() {
    const SEC: u128 = 1_000_000_000;
    assert!(!Client::saving_after(5 * SEC));
    assert!(Client::saving_after(5 * SEC + 1));
    assert!(!Client::hanging_after(10 * SEC));
    assert!(Client::hanging_after(10 * SEC + 1));
    assert!(!Client::hanging_after(0));
}

#[test]
fn sway_tree_becomes_general_clients() {
    let urxvt = view(5, 23959, Some("urxvt"), None, Some(Some("urxvt")));
    let termite = view(6, 25370, Some(""), Some("termite"), None);
    let workspace = node(4, NodeType::Workspace, vec![urxvt, termite], vec![]);
    let tree = node(1, NodeType::Root, vec![workspace], vec![]);
    let clients = clients_of_tree(tree).unwrap();
    let listed: Vec<(i32, &str, &str, Option<&str>, bool)> = clients
        .iter()
        .map(|c| (c.pid(), c.unique_id(), c.app_id(), c.title(), c.is_layer()))
        .collect();
    assert_eq!(
        listed,
        vec![
            (25370, "6", "termite", None, false),
            (23959, "5", "urxvt", Some("urxvt"), false)
        ]
    );
    let workspace = node(4, NodeType::Workspace, vec![], vec![]);
    assert_eq!(
        clients_of_tree(workspace),
        Err(TreeError::NotRoot {
            node_type: NodeType::Workspace
        })
    );
}

#[test]
fn client_names_itself_in_messages() {
    let c = client_from_window(window(3441, "0x1", "anki", "t"));
    assert_eq!(c.to_string(), "Client { app_id: anki, pid: 3441 }");
    let c = client_from_layer(layer(-2, "0x2", "bar"));
    assert_eq!(c.to_string(), "Client { app_id: bar, pid: -2 }");
}
