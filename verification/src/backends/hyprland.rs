//! Hyprland: its window and layer listings turned into clients, its close
//! requests, and the checks on its IPC replies.
use vstd::prelude::*;

use crate::backends::{BackendError, Client, ClientData, ClientKind};
use crate::client_killer::hyprland::{monitor_clients, HyprlandBackend, HyprlandLayerClient, HyprlandWindowClient};
use crate::order::{dedup_clients, dedup_seq, is_stable_sort_of, sort_clients};
use crate::text::{contains_seq, contains_str};

pub use crate::client_killer::hyprland::{HyprlandStatus, Monitor};

verus! {

/// A window as `hyprctl clients` lists it.
pub type WindowClient = HyprlandWindowClient;

/// A layer surface as `hyprctl layers` lists it.
pub type LayerClient = HyprlandLayerClient;

/// The client of a window: its address names it, its class is its app ID.
pub open spec fn window_data(w: WindowClient) -> ClientData {
    ClientData {
        pid: w.pid,
        unique_id: w.address@,
        kind: ClientKind::Window,
        app_id: w.class@,
        title: Some(w.title@),
    }
}

/// The client of a layer surface: it has no title, and its namespace stands
/// for the app ID.
pub open spec fn layer_data(l: LayerClient) -> ClientData {
    ClientData {
        pid: l.pid,
        unique_id: l.address@,
        kind: ClientKind::Layer,
        app_id: l.namespace@,
        title: None,
    }
}

/// The client of a window, listed now.
pub fn client_from_window(w: WindowClient) -> (c: Client)
    ensures
        c.data() == window_data(w),
{
    Client::new(w.pid, w.address, ClientKind::Window, w.class, Some(w.title))
}

/// The client of a layer surface, listed now.
pub fn client_from_layer(l: LayerClient) -> (c: Client)
    ensures
        c.data() == layer_data(l),
{
    Client::new(l.pid, l.address, ClientKind::Layer, l.namespace, None)
}

/// `built` holds the clients of the windows, then those of the layers, one
/// for each, in order.
pub open spec fn built_from(built: Seq<Client>, windows: Seq<WindowClient>, layers: Seq<LayerClient>) -> bool {
    &&& built.len() == windows.len() + layers.len()
    &&& forall|i: int| 0 <= i < windows.len() ==> #[trigger] built[i].data() == window_data(windows[i])
    &&& forall|i: int|
        0 <= i < layers.len() ==> #[trigger] built[windows.len() + i].data() == layer_data(layers[i])
}

/// The text of a close request for the window at `address`.
pub open spec fn close_text(is_using_lua: bool, address: Seq<char>) -> Seq<char> {
    if is_using_lua {
        "dispatch hl.dsp.window.close({ window = \"address:"@ + address + "\" })"@
    } else {
        "dispatch closewindow address:"@ + address
    }
}

/// Hyprland answered a request with an error.
pub open spec fn is_error_reply(response: Seq<char>) -> bool {
    contains_seq(response, "error"@) || contains_seq(response, "unknown request"@)
}

/// The path of Hyprland's IPC socket.
pub open spec fn socket_path_text(runtime_dir: Seq<char>, signature: Seq<char>) -> Seq<char> {
    runtime_dir + "/hypr/"@ + signature + "/.socket.sock"@
}

/// The Hyprland backend.
#[derive(Clone, Copy, Debug, PartialEq, Eq)]
pub struct Backend {
    pub is_using_lua: bool,
}

impl Backend {
    pub fn new(status: &HyprlandStatus) -> (r: Self)
        ensures
            r.is_using_lua == (status.config_provider@ == "lua"@),
    {
        Backend { is_using_lua: status.is_using_lua() }
    }

    /// All layer surfaces of all monitors, in the order the monitors and
    /// their levels are given.
    pub fn deserialize_layers(monitors: Vec<Monitor>) -> (r: Vec<LayerClient>)
        ensures
            r@ == monitor_clients(monitors@),
    {
        HyprlandBackend::deserialize_layers(monitors)
    }

    /// The open clients: windows before layers, by app ID, each listed once
    /// where the same client comes twice in a row.
    pub fn clients_from(windows: Vec<WindowClient>, layers: Vec<LayerClient>) -> (r: Vec<Client>)
        ensures
            exists|built: Seq<Client>, sorted: Seq<Client>|
                built_from(built, windows@, layers@) && is_stable_sort_of(sorted, built) && r@
                    == dedup_seq(sorted),
    {
        let ghost ws = windows@;
        let ghost ls = layers@;
        let mut all: Vec<Client> = Vec::new();
        let mut rest = windows;
        let ghost mut k: int = 0;
        proof {
            assert(rest@ =~= ws.subrange(0, ws.len() as int));
        }
        while rest.len() > 0
            invariant
                0 <= k <= ws.len(),
                rest@ == ws.subrange(k, ws.len() as int),
                all@.len() == k,
                forall|i: int| 0 <= i < k ==> #[trigger] all@[i].data() == window_data(ws[i]),
            decreases rest.len(),
        {
            let w = rest.remove(0);
            assert(w == ws[k]);
            all.push(client_from_window(w));
            proof {
                k = k + 1;
                assert(rest@ =~= ws.subrange(k, ws.len() as int));
            }
        }
        let mut rest = layers;
        let ghost mut j: int = 0;
        proof {
            assert(rest@ =~= ls.subrange(0, ls.len() as int));
        }
        while rest.len() > 0
            invariant
                k == ws.len(),
                0 <= j <= ls.len(),
                rest@ == ls.subrange(j, ls.len() as int),
                all@.len() == k + j,
                forall|i: int| 0 <= i < k ==> #[trigger] all@[i].data() == window_data(ws[i]),
                forall|i: int| 0 <= i < j ==> #[trigger] all@[k + i].data() == layer_data(ls[i]),
            decreases rest.len(),
        {
            let l = rest.remove(0);
            assert(l == ls[j]);
            all.push(client_from_layer(l));
            proof {
                assert(all@[k + j].data() == layer_data(ls[j]));
                j = j + 1;
                assert(rest@ =~= ls.subrange(j, ls.len() as int));
            }
        }
        let ghost built = all@;
        assert(built_from(built, ws, ls));
        let sorted = sort_clients(all);
        let ghost s = sorted@;
        dedup_clients(sorted)
    }

    /// The request that closes the window at `address`.
    pub fn close_command(&self, address: &str) -> (r: String)
        ensures
            r@ == close_text(self.is_using_lua, address@),
    {
        if self.is_using_lua {
            let mut s = String::from_str("dispatch hl.dsp.window.close({ window = \"address:");
            s.append(address);
            s.append("\" })");
            s
        } else {
            let mut s = String::from_str("dispatch closewindow address:");
            s.append(address);
            s
        }
    }

    /// Accepts a reply, or turns it into an error when it reports one.
    pub fn check_response(response: String) -> (r: Result<String, BackendError>)
        ensures
            match r {
                Ok(text) => text@ == response@ && !is_error_reply(response@),
                Err(e) => e.message@ == response@ && is_error_reply(response@),
            },
    {
        if contains_str(response.as_str(), "error") || contains_str(
            response.as_str(),
            "unknown request",
        ) {
            Err(BackendError { message: response })
        } else {
            Ok(response)
        }
    }

    /// The path of Hyprland's IPC socket.
    pub fn socket_path(runtime_dir: &str, signature: &str) -> (r: String)
        ensures
            r@ == socket_path_text(runtime_dir@, signature@),
    {
        let mut s = String::from_str(runtime_dir);
        s.append("/hypr/");
        s.append(signature);
        s.append("/.socket.sock");
        s
    }

    /// The runtime directory: `XDG_RUNTIME_DIR`, or else `/run/user/<UID>`.
    pub fn runtime_dir(xdg_runtime_dir: Option<&str>, uid: Option<&str>) -> (r: Option<String>)
        ensures
            match xdg_runtime_dir {
                Some(d) => r is Some && r->0@ == d@,
                None => match uid {
                    Some(u) => r is Some && r->0@ == "/run/user/"@ + u@,
                    None => r is None,
                },
            },
    {
        match xdg_runtime_dir {
            Some(d) => Some(String::from_str(d)),
            None => match uid {
                Some(u) => {
                    let mut s = String::from_str("/run/user/");
                    s.append(u);
                    Some(s)
                },
                None => None,
            },
        }
    }
}

} // verus!
