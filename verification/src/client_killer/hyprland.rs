//! Hyprland: its window and layer listings turned into clients, and the
//! arguments of its close request.
use vstd::prelude::*;
use vstd::std_specs::convert::FromSpecImpl;

use crate::client_killer::{Client, ClientKind, KillStatus};
use crate::order::{dedup_clients, dedup_seq, is_stable_sort_of, law_stable_sort_keeps_clients, lemma_dedup_from, sort_clients};
use crate::text::{dec_int, fmt_i64, str_eq};

verus! {

/// A window as `hyprctl clients` lists it.
#[derive(Clone, Debug, PartialEq, Eq)]
pub struct HyprlandWindowClient {
    pub pid: i32,
    pub address: String,
    pub class: String,
    pub title: String,
}

/// The client of a window: its address names it, its class is its app ID.
pub open spec fn client_of_window(value: HyprlandWindowClient) -> Client {
    Client {
        pid: value.pid,
        unique_id: value.address,
        app_id: value.class,
        title: Some(value.title),
        kind: ClientKind::Window,
        status: KillStatus::Alive,
    }
}

impl From<HyprlandWindowClient> for Client {
    fn from(value: HyprlandWindowClient) -> (r: Client) {
        Client {
            pid: value.pid,
            unique_id: value.address,
            app_id: value.class,
            title: Some(value.title),
            kind: ClientKind::Window,
            status: KillStatus::Alive,
        }
    }
}

impl FromSpecImpl<HyprlandWindowClient> for Client {
    open spec fn obeys_from_spec() -> bool {
        true
    }

    open spec fn from_spec(value: HyprlandWindowClient) -> Client {
        client_of_window(value)
    }
}

/// The layer surfaces of one monitor, level by level, as `hyprctl layers`
/// lists them.
#[derive(Clone, Debug, PartialEq, Eq)]
pub struct Monitor {
    pub levels: Vec<Vec<HyprlandLayerClient>>,
}

/// A layer surface as `hyprctl layers` lists it.
#[derive(Clone, Debug, PartialEq, Eq)]
pub struct HyprlandLayerClient {
    pub pid: i32,
    pub address: String,
    pub namespace: String,
}

/// The client of a layer surface: it has no title, and its namespace stands
/// for the app ID.
pub open spec fn client_of_layer(value: HyprlandLayerClient) -> Client {
    Client {
        pid: value.pid,
        unique_id: value.address,
        app_id: value.namespace,
        title: None,
        kind: ClientKind::Layer,
        status: KillStatus::Alive,
    }
}

impl From<HyprlandLayerClient> for Client {
    fn from(value: HyprlandLayerClient) -> (r: Client) {
        Client {
            pid: value.pid,
            unique_id: value.address,
            app_id: value.namespace,
            title: None,
            kind: ClientKind::Layer,
            status: KillStatus::Alive,
        }
    }
}

impl FromSpecImpl<HyprlandLayerClient> for Client {
    open spec fn obeys_from_spec() -> bool {
        true
    }

    open spec fn from_spec(value: HyprlandLayerClient) -> Client {
        client_of_layer(value)
    }
}

/// The part of `hyprctl status` that matters here.
#[derive(Clone, Debug, PartialEq, Eq)]
pub struct HyprlandStatus {
    pub config_provider: String,
}

impl HyprlandStatus {
    /// Whether Hyprland is configured in Lua.
    pub fn is_using_lua(&self) -> (r: bool)
        ensures
            r == (self.config_provider@ == "lua"@),
    {
        str_eq(self.config_provider.as_str(), "lua")
    }
}

/// The Hyprland backend.
#[derive(Clone, Copy, Debug, PartialEq, Eq)]
pub struct HyprlandBackend {
    pub is_using_lua: bool,
}

/// The layer surfaces of a list of levels, level after level.
pub open spec fn level_clients(levels: Seq<Vec<HyprlandLayerClient>>) -> Seq<HyprlandLayerClient>
    decreases levels.len(),
{
    if levels.len() == 0 {
        seq![]
    } else {
        level_clients(levels.drop_last()) + levels.last()@
    }
}

/// The layer surfaces of all monitors, monitor after monitor.
pub open spec fn monitor_clients(monitors: Seq<Monitor>) -> Seq<HyprlandLayerClient>
    decreases monitors.len(),
{
    if monitors.len() == 0 {
        seq![]
    } else {
        monitor_clients(monitors.drop_last()) + level_clients(monitors.last().levels@)
    }
}

/// The clients made of the windows with a positive pid, in order.
pub open spec fn window_clients(windows: Seq<HyprlandWindowClient>) -> Seq<Client>
    decreases windows.len(),
{
    if windows.len() == 0 {
        seq![]
    } else {
        let r = window_clients(windows.drop_last());
        if windows.last().pid > 0 {
            r.push(client_of_window(windows.last()))
        } else {
            r
        }
    }
}

/// The clients made of the layers with a positive pid, in order.
pub open spec fn layer_clients(layers: Seq<HyprlandLayerClient>) -> Seq<Client>
    decreases layers.len(),
{
    if layers.len() == 0 {
        seq![]
    } else {
        let r = layer_clients(layers.drop_last());
        if layers.last().pid > 0 {
            r.push(client_of_layer(layers.last()))
        } else {
            r
        }
    }
}

/// The text of the Lua close request for the windows of process `pid`.
pub open spec fn lua_close_text(pid: int) -> Seq<char> {
    "hl.dsp.window.close({ window = \"pid:"@ + dec_int(pid) + "\" })"@
}

impl HyprlandBackend {
    pub fn new(status: &HyprlandStatus) -> (r: Self)
        ensures
            r.is_using_lua == (status.config_provider@ == "lua"@),
    {
        let is_using_lua = status.is_using_lua();
        HyprlandBackend { is_using_lua }
    }

    /// All layer surfaces of all monitors, in the order the monitors and
    /// their levels are given.
    pub fn deserialize_layers(monitors: Vec<Monitor>) -> (r: Vec<HyprlandLayerClient>)
        ensures
            r@ == monitor_clients(monitors@),
    {
        let ghost all = monitors@;
        let mut rest = monitors;
        let mut out: Vec<HyprlandLayerClient> = Vec::new();
        let ghost mut k: int = 0;
        proof {
            assert(rest@ =~= all.subrange(0, all.len() as int));
            assert(all.subrange(0, 0) =~= Seq::<Monitor>::empty());
        }
        while rest.len() > 0
            invariant
                0 <= k <= all.len(),
                rest@ == all.subrange(k, all.len() as int),
                out@ == monitor_clients(all.subrange(0, k)),
            decreases rest.len(),
        {
            let m = rest.remove(0);
            let ghost lv = m.levels@;
            let mut levels = m.levels;
            let ghost mut j: int = 0;
            let ghost base = out@;
            proof {
                assert(levels@ =~= lv.subrange(0, lv.len() as int));
                assert(lv.subrange(0, 0) =~= Seq::<Vec<HyprlandLayerClient>>::empty());
                assert(out@ =~= base + level_clients(lv.subrange(0, 0)));
            }
            while levels.len() > 0
                invariant
                    0 <= j <= lv.len(),
                    levels@ == lv.subrange(j, lv.len() as int),
                    out@ == base + level_clients(lv.subrange(0, j)),
                decreases levels.len(),
            {
                let mut level = levels.remove(0);
                proof {
                    assert(level == lv[j]);
                    assert(lv.subrange(0, j + 1).drop_last() =~= lv.subrange(0, j));
                }
                out.append(&mut level);
                proof {
                    assert(base + level_clients(lv.subrange(0, j)) + lv[j]@ =~= base + (
                    level_clients(lv.subrange(0, j)) + lv[j]@));
                    j = j + 1;
                    assert(levels@ =~= lv.subrange(j, lv.len() as int));
                }
            }
            proof {
                assert(m == all[k]);
                assert(lv.subrange(0, j) =~= lv);
                assert(all.subrange(0, k + 1).drop_last() =~= all.subrange(0, k));
                k = k + 1;
                assert(rest@ =~= all.subrange(k, all.len() as int));
            }
        }
        proof {
            assert(all.subrange(0, k) =~= all);
        }
        out
    }

    /// The open clients, made of the windows and layers with a positive pid
    /// (a pid of zero or below would signal a whole process group): windows
    /// before layers, by app ID, each listed once where the same client
    /// comes twice in a row.
    pub fn clients_from(windows: Vec<HyprlandWindowClient>, layers: Vec<HyprlandLayerClient>) -> (r:
        Vec<Client>)
        ensures
            exists|sorted: Seq<Client>|
                is_stable_sort_of(sorted, window_clients(windows@) + layer_clients(layers@)) && r@
                    == dedup_seq(sorted),
    {
        let mut all = Self::windows_to_clients(windows);
        let mut from_layers = Self::layers_to_clients(layers);
        all.append(&mut from_layers);
        let sorted = sort_clients(all);
        let ghost s = sorted@;
        let r = dedup_clients(sorted);
        assert(is_stable_sort_of(s, window_clients(windows@) + layer_clients(layers@)));
        r
    }

    fn windows_to_clients(windows: Vec<HyprlandWindowClient>) -> (r: Vec<Client>)
        ensures
            r@ == window_clients(windows@),
    {
        let ghost all = windows@;
        let mut rest = windows;
        let mut out: Vec<Client> = Vec::new();
        let ghost mut k: int = 0;
        proof {
            assert(rest@ =~= all.subrange(0, all.len() as int));
            assert(all.subrange(0, 0) =~= Seq::<HyprlandWindowClient>::empty());
        }
        while rest.len() > 0
            invariant
                0 <= k <= all.len(),
                rest@ == all.subrange(k, all.len() as int),
                out@ == window_clients(all.subrange(0, k)),
            decreases rest.len(),
        {
            let w = rest.remove(0);
            proof {
                assert(w == all[k]);
                assert(all.subrange(0, k + 1).drop_last() =~= all.subrange(0, k));
            }
            if w.pid > 0 {
                out.push(Client::from(w));
            }
            proof {
                k = k + 1;
                assert(rest@ =~= all.subrange(k, all.len() as int));
            }
        }
        proof {
            assert(all.subrange(0, k) =~= all);
        }
        out
    }

    fn layers_to_clients(layers: Vec<HyprlandLayerClient>) -> (r: Vec<Client>)
        ensures
            r@ == layer_clients(layers@),
    {
        let ghost all = layers@;
        let mut rest = layers;
        let mut out: Vec<Client> = Vec::new();
        let ghost mut k: int = 0;
        proof {
            assert(rest@ =~= all.subrange(0, all.len() as int));
            assert(all.subrange(0, 0) =~= Seq::<HyprlandLayerClient>::empty());
        }
        while rest.len() > 0
            invariant
                0 <= k <= all.len(),
                rest@ == all.subrange(k, all.len() as int),
                out@ == layer_clients(all.subrange(0, k)),
            decreases rest.len(),
        {
            let l = rest.remove(0);
            proof {
                assert(l == all[k]);
                assert(all.subrange(0, k + 1).drop_last() =~= all.subrange(0, k));
            }
            if l.pid > 0 {
                out.push(Client::from(l));
            }
            proof {
                k = k + 1;
                assert(rest@ =~= all.subrange(k, all.len() as int));
            }
        }
        proof {
            assert(all.subrange(0, k) =~= all);
        }
        out
    }

    /// The argument of `hyprctl dispatch` that closes the windows of process
    /// `pid` when Hyprland is configured in Lua.
    pub fn lua_close_args(pid: i32) -> (r: String)
        ensures
            r@ == lua_close_text(pid as int),
    {
        let mut s = String::from_str("hl.dsp.window.close({ window = \"pid:");
        let digits = fmt_i64(pid as i64);
        s.append(digits.as_str());
        s.append("\" })");
        s
    }
}

proof fn lemma_built_clients_have_positive_pids(
    windows: Seq<HyprlandWindowClient>,
    layers: Seq<HyprlandLayerClient>,
    x: Client,
)
    requires
        (window_clients(windows) + layer_clients(layers)).contains(x),
    ensures
        x.pid > 0,
{
    let w = window_clients(windows);
    let l = layer_clients(layers);
    let i = choose|i: int| 0 <= i < (w + l).len() && (w + l)[i] == x;
    if i < w.len() {
        lemma_window_clients_positive(windows, i);
    } else {
        lemma_layer_clients_positive(layers, i - w.len());
    }
}

proof fn lemma_window_clients_positive(windows: Seq<HyprlandWindowClient>, i: int)
    requires
        0 <= i < window_clients(windows).len(),
    ensures
        window_clients(windows)[i].pid > 0,
    decreases windows.len(),
{
    if windows.len() > 0 && i < window_clients(windows.drop_last()).len() {
        lemma_window_clients_positive(windows.drop_last(), i);
    }
}

proof fn lemma_layer_clients_positive(layers: Seq<HyprlandLayerClient>, i: int)
    requires
        0 <= i < layer_clients(layers).len(),
    ensures
        layer_clients(layers)[i].pid > 0,
    decreases layers.len(),
{
    if layers.len() > 0 && i < layer_clients(layers.drop_last()).len() {
        lemma_layer_clients_positive(layers.drop_last(), i);
    }
}

/// The open clients never include a pid of zero or below, which would
/// signal a whole process group.
pub proof fn law_listed_clients_have_positive_pids(
    windows: Seq<HyprlandWindowClient>,
    layers: Seq<HyprlandLayerClient>,
    sorted: Seq<Client>,
    i: int,
)
    requires
        is_stable_sort_of(sorted, window_clients(windows) + layer_clients(layers)),
        0 <= i < dedup_seq(sorted).len(),
    ensures
        dedup_seq(sorted)[i].pid > 0,
{
    let x = dedup_seq(sorted)[i];
    lemma_dedup_from(sorted, i);
    law_stable_sort_keeps_clients(sorted, window_clients(windows) + layer_clients(layers), x);
    lemma_built_clients_have_positive_pids(windows, layers, x);
}

} // verus!
