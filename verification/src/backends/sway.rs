//! Sway: the clients found in its tree of nodes, and its close command.
use vstd::prelude::*;

use crate::backends::{Client as BackendClient, ClientData, ClientKind};
use crate::text::{dec_int, fmt_i64};

verus! {

/// The kind of a node of sway's tree.
#[derive(Clone, Copy, Debug, PartialEq, Eq, Structural)]
pub enum NodeType {
    Root,
    Output,
    Workspace,
    Con,
    FloatingCon,
    Dockarea,
}

/// The X11 properties of an xwayland view that matter here.
#[derive(Clone, Debug, PartialEq, Eq)]
pub struct WindowProperties {
    pub title: Option<String>,
}

/// A node of sway's tree, with the fields that matter here.
#[derive(Debug, PartialEq, Eq)]
pub struct Node {
    pub id: i64,
    /// The name of the node, such as the output name or window title.
    pub name: Option<String>,
    pub node_type: NodeType,
    /// The tiling children.
    pub nodes: Vec<Node>,
    /// The floating children.
    pub floating_nodes: Vec<Node>,
    /// For an xdg-shell view, the name of the application, if set.
    pub app_id: Option<String>,
    /// For a view, the pid of the application that owns it.
    pub pid: Option<i32>,
    /// For an xwayland view, its X11 properties.
    pub window_properties: Option<WindowProperties>,
}

/// A client of sway: a view of its tree.
#[derive(Clone, Debug, PartialEq, Eq)]
pub struct Client {
    pub pid: i32,
    pub id: i64,
    pub app_id: String,
    pub name: Option<String>,
}

/// A sway client's fields as plain values.
pub struct ClientView {
    pub pid: i32,
    pub id: i64,
    pub app_id: Seq<char>,
    pub name: Option<Seq<char>>,
}

impl View for Client {
    type V = ClientView;

    open spec fn view(&self) -> ClientView {
        ClientView {
            pid: self.pid,
            id: self.id,
            app_id: self.app_id@,
            name: match self.name {
                Some(n) => Some(n@),
                None => None,
            },
        }
    }
}

/// Why a node could not be taken as what was asked.
#[derive(Clone, Copy, Debug, PartialEq, Eq)]
pub enum TreeError {
    /// The node is not a view: it has no pid.
    NotAClient { id: i64 },
    /// The tree does not start at a root node.
    NotRoot { node_type: NodeType },
}

/// The app ID given to a view that has none and no X11 title.
pub open spec fn unknown_title() -> Seq<char> {
    "(unknown)"@
}

/// A view can be named: it has an app ID or X11 properties.
pub open spec fn nameable(n: Node) -> bool {
    n.app_id is Some || n.window_properties is Some
}

/// The client of a view: its app ID is the view's, or else its X11 title,
/// or else `(unknown)`; an empty name counts as none.
pub open spec fn client_view_of(n: Node) -> ClientView {
    ClientView {
        pid: n.pid->0,
        id: n.id,
        app_id: match n.app_id {
            Some(a) => a@,
            None => match n.window_properties->0.title {
                Some(t) => t@,
                None => unknown_title(),
            },
        },
        name: match n.name {
            Some(s) => if s@.len() > 0 {
                Some(s@)
            } else {
                None
            },
            None => None,
        },
    }
}

/// The clients of the view `n`, if it is one.
pub open spec fn own_clients(n: Node) -> Seq<ClientView> {
    if n.pid is Some {
        seq![client_view_of(n)]
    } else {
        seq![]
    }
}

/// The clients found by a depth-first walk of a stack of nodes, taken from
/// its top (the end): a node, then the trees under its floating children
/// from the last, then those under its tiling children from the last.
pub open spec fn stack_clients(s: Seq<Node>) -> Seq<ClientView>
    decreases s,
{
    if s.len() == 0 {
        seq![]
    } else {
        let n = s[s.len() - 1];
        proof {
            assert(decreases_to!(s => n));
            assert(decreases_to!(n => n.floating_nodes));
            assert(decreases_to!(n => n.nodes));
            assert(decreases_to!(n.floating_nodes => n.floating_nodes@));
            assert(decreases_to!(n.nodes => n.nodes@));
        }
        own_clients(n) + stack_clients(n.floating_nodes@) + stack_clients(n.nodes@) + stack_clients(
            s.subrange(0, s.len() - 1),
        )
    }
}

/// Every view in the stack's trees can be named.
pub open spec fn stack_nameable(s: Seq<Node>) -> bool
    decreases s,
{
    if s.len() == 0 {
        true
    } else {
        let n = s[s.len() - 1];
        proof {
            assert(decreases_to!(s => n));
            assert(decreases_to!(n => n.floating_nodes));
            assert(decreases_to!(n => n.nodes));
            assert(decreases_to!(n.floating_nodes => n.floating_nodes@));
            assert(decreases_to!(n.nodes => n.nodes@));
        }
        (n.pid is Some ==> nameable(n)) && stack_nameable(n.floating_nodes@) && stack_nameable(
            n.nodes@,
        ) && stack_nameable(s.subrange(0, s.len() - 1))
    }
}

/// The number of nodes in the stack's trees.
pub open spec fn stack_size(s: Seq<Node>) -> nat
    decreases s,
{
    if s.len() == 0 {
        0
    } else {
        let n = s[s.len() - 1];
        proof {
            assert(decreases_to!(s => n));
            assert(decreases_to!(n => n.floating_nodes));
            assert(decreases_to!(n => n.nodes));
            assert(decreases_to!(n.floating_nodes => n.floating_nodes@));
            assert(decreases_to!(n.nodes => n.nodes@));
        }
        1 + stack_size(n.floating_nodes@) + stack_size(n.nodes@) + stack_size(
            s.subrange(0, s.len() - 1),
        )
    }
}

/// Walking `a` with `b` stacked on top walks `b`, then `a`.
pub proof fn lemma_stack_concat(a: Seq<Node>, b: Seq<Node>)
    ensures
        stack_clients(a + b) == stack_clients(b) + stack_clients(a),
        stack_nameable(a + b) == (stack_nameable(a) && stack_nameable(b)),
        stack_size(a + b) == stack_size(a) + stack_size(b),
    decreases b.len(),
{
    if b.len() == 0 {
        assert(a + b =~= a);
        assert(stack_clients(b) + stack_clients(a) =~= stack_clients(a));
    } else {
        let ab = a + b;
        let bl = b.subrange(0, b.len() - 1);
        let n = b[b.len() - 1];
        assert(ab[ab.len() - 1] == n);
        assert(ab.subrange(0, ab.len() - 1) =~= a + bl);
        lemma_stack_concat(a, bl);
        assert(stack_clients(ab) == own_clients(n) + stack_clients(n.floating_nodes@)
            + stack_clients(n.nodes@) + stack_clients(a + bl));
        assert(stack_clients(b) == own_clients(n) + stack_clients(n.floating_nodes@)
            + stack_clients(n.nodes@) + stack_clients(bl));
        assert(stack_clients(ab) =~= stack_clients(b) + stack_clients(a));
    }
}

/// A stack can be named all through exactly when each of its trees can.
pub proof fn lemma_stack_nameable_each(s: Seq<Node>)
    ensures
        stack_nameable(s) <==> forall|i: int| 0 <= i < s.len() ==> #[trigger] stack_nameable(seq![s[i]]),
    decreases s.len(),
{
    if s.len() > 0 {
        let n = s[s.len() - 1];
        let d = s.subrange(0, s.len() - 1);
        lemma_stack_nameable_each(d);
        let one = seq![n];
        assert(one[0] == n);
        assert(one.subrange(0, 0) =~= Seq::<Node>::empty());
        assert(stack_nameable(Seq::<Node>::empty()));
        assert(stack_nameable(one) == ((n.pid is Some ==> nameable(n)) && stack_nameable(
            n.floating_nodes@,
        ) && stack_nameable(n.nodes@)));
        if stack_nameable(s) {
            assert forall|i: int| 0 <= i < s.len() implies #[trigger] stack_nameable(seq![s[i]]) by {
                if i < s.len() - 1 {
                    assert(d[i] == s[i]);
                }
            }
        }
        if forall|i: int| 0 <= i < s.len() ==> #[trigger] stack_nameable(seq![s[i]]) {
            assert forall|i: int| 0 <= i < d.len() implies #[trigger] stack_nameable(seq![d[i]]) by {
                assert(d[i] == s[i]);
                assert(stack_nameable(seq![s[i]]));
            }
            assert(stack_nameable(seq![s[s.len() - 1]]));
        }
    }
}

proof fn lemma_one_nameable(n: Node)
    ensures
        stack_nameable(seq![n]) == ((n.pid is Some ==> nameable(n)) && stack_nameable(
            n.floating_nodes@,
        ) && stack_nameable(n.nodes@)),
{
    let one = seq![n];
    assert(one[0] == n);
    assert(one.subrange(0, 0) =~= Seq::<Node>::empty());
    assert(stack_nameable(Seq::<Node>::empty()));
}

impl Node {
    /// Whether every view of the tree under this node can be named: the
    /// condition `RootNode::clients` needs.
    pub fn views_nameable(&self) -> (r: bool)
        ensures
            r == stack_nameable(seq![*self]),
        decreases self,
    {
        proof {
            let one = seq![*self];
            assert(one[0] == *self);
            assert(one.subrange(0, 0) =~= Seq::<Node>::empty());
            assert(stack_nameable(Seq::<Node>::empty()));
            assert(stack_nameable(one) == ((self.pid is Some ==> nameable(*self)) && stack_nameable(
                self.floating_nodes@,
            ) && stack_nameable(self.nodes@)));
            lemma_stack_nameable_each(self.nodes@);
            lemma_stack_nameable_each(self.floating_nodes@);
        }
        if self.pid.is_some() && self.app_id.is_none() && self.window_properties.is_none() {
            return false;
        }
        let n = self.nodes.len();
        let mut i: usize = 0;
        while i < n
            invariant
                n == self.nodes@.len(),
                i <= n,
                forall|j: int| 0 <= j < i ==> #[trigger] stack_nameable(seq![self.nodes@[j]]),
            decreases n - i,
        {
            proof {
                assert(decreases_to!(*self => self.nodes));
                assert(decreases_to!(self.nodes => self.nodes@));
                assert(decreases_to!(self.nodes@ => self.nodes@[i as int]));
            }
            if !self.nodes[i].views_nameable() {
                proof {
                    lemma_one_nameable(*self);
                    lemma_stack_nameable_each(self.nodes@);
                }
                return false;
            }
            i = i + 1;
        }
        let m = self.floating_nodes.len();
        let mut k: usize = 0;
        while k < m
            invariant
                m == self.floating_nodes@.len(),
                k <= m,
                forall|j: int| 0 <= j < k ==> #[trigger] stack_nameable(seq![self.floating_nodes@[j]]),
            decreases m - k,
        {
            proof {
                assert(decreases_to!(*self => self.floating_nodes));
                assert(decreases_to!(self.floating_nodes => self.floating_nodes@));
                assert(decreases_to!(self.floating_nodes@ => self.floating_nodes@[k as int]));
            }
            if !self.floating_nodes[k].views_nameable() {
                proof {
                    lemma_one_nameable(*self);
                    lemma_stack_nameable_each(self.floating_nodes@);
                }
                return false;
            }
            k = k + 1;
        }
        true
    }

    /// Only views have a pid.
    pub fn is_client(&self) -> (r: bool)
        ensures
            r == self.pid is Some,
    {
        self.pid.is_some()
    }
}

fn clone_opt(s: &Option<String>) -> (r: Option<String>)
    ensures
        r == *s,
{
    match s {
        Some(x) => Some(x.clone()),
        None => None,
    }
}

/// The client of a view.
fn client_of_node(node: &Node) -> (c: Client)
    requires
        node.pid is Some,
        nameable(*node),
    ensures
        c@ == client_view_of(*node),
{
    let app_id = match &node.app_id {
        Some(a) => a.clone(),
        None => match &node.window_properties {
            Some(wp) => match &wp.title {
                Some(t) => t.clone(),
                None => String::from_str("(unknown)"),
            },
            None => String::new(),
        },
    };
    let name = match &node.name {
        Some(n) => if n.unicode_len() > 0 {
            Some(n.clone())
        } else {
            None
        },
        None => None,
    };
    let pid = match node.pid {
        Some(p) => p,
        None => 0,
    };
    Client { pid, id: node.id, app_id, name }
}

impl Client {
    /// The client of a node that is a view; any other node is refused.
    pub fn try_from(value: Node) -> (r: Result<Client, TreeError>)
        requires
            value.pid is Some ==> nameable(value),
        ensures
            match r {
                Ok(c) => value.pid is Some && c@ == client_view_of(value),
                Err(e) => value.pid is None && e == (TreeError::NotAClient { id: value.id }),
            },
    {
        if !value.is_client() {
            return Err(TreeError::NotAClient { id: value.id });
        }
        Ok(client_of_node(&value))
    }

    /// The general client, listed now: the node ID, in decimal, names it.
    pub fn to_client(self) -> (r: BackendClient)
        ensures
            r.data() == (ClientData {
                pid: self.pid,
                unique_id: dec_int(self.id as int),
                kind: ClientKind::Window,
                app_id: self@.app_id,
                title: self@.name,
            }),
    {
        let unique_id = fmt_i64(self.id);
        BackendClient::new(self.pid, unique_id, ClientKind::Window, self.app_id, self.name)
    }
}

/// The root of sway's tree.
#[derive(Debug, PartialEq, Eq)]
pub struct RootNode(pub Node);

impl RootNode {
    /// Takes a node as the root of the tree; any other kind of node is refused.
    pub fn try_from(value: Node) -> (r: Result<RootNode, TreeError>)
        ensures
            match r {
                Ok(root) => value.node_type == NodeType::Root && root.0 == value,
                Err(e) => value.node_type != NodeType::Root && e == (TreeError::NotRoot {
                    node_type: value.node_type,
                }),
            },
    {
        let node_type = value.node_type;
        if node_type != NodeType::Root {
            return Err(TreeError::NotRoot { node_type });
        }
        Ok(RootNode(value))
    }

    /// Every view of the tree, walked depth first from the root, later
    /// children first.
    pub fn clients(self) -> (r: Vec<Client>)
        requires
            stack_nameable(seq![self.0]),
        ensures
            r@.map_values(|c: Client| c@) == stack_clients(seq![self.0]),
    {
        let ghost start = seq![self.0];
        let mut clients: Vec<Client> = Vec::new();
        let mut queue: Vec<Node> = Vec::new();
        queue.push(self.0);
        proof {
            assert(queue@ =~= start);
            assert(clients@.map_values(|c: Client| c@) + stack_clients(queue@) =~= stack_clients(
                start,
            ));
        }
        while queue.len() > 0
            invariant
                clients@.map_values(|c: Client| c@) + stack_clients(queue@) == stack_clients(start),
                stack_nameable(queue@),
            decreases stack_size(queue@),
        {
            let ghost before = queue@;
            let child = queue.pop().unwrap();
            let ghost rest = queue@;
            proof {
                assert(before[before.len() - 1] == child);
                assert(before.subrange(0, before.len() - 1) =~= rest);
            }
            let ghost done = clients@.map_values(|c: Client| c@);
            if child.is_client() {
                let c = client_of_node(&child);
                clients.push(c);
                proof {
                    assert(clients@.map_values(|c: Client| c@) =~= done.push(client_view_of(child)));
                    assert(own_clients(child) =~= seq![client_view_of(child)]);
                }
            } else {
                proof {
                    assert(own_clients(child) =~= Seq::<ClientView>::empty());
                    assert(done + own_clients(child) =~= done);
                }
            }
            let Node { nodes, floating_nodes, .. } = child;
            let ghost nd = nodes@;
            let ghost fl = floating_nodes@;
            let mut nodes = nodes;
            let mut floating_nodes = floating_nodes;
            queue.append(&mut nodes);
            queue.append(&mut floating_nodes);
            proof {
                assert(queue@ =~= rest + nd + fl);
                lemma_stack_concat(rest, nd);
                lemma_stack_concat(rest + nd, fl);
                assert(clients@.map_values(|c: Client| c@) + stack_clients(queue@) =~= done
                    + own_clients(child) + stack_clients(fl) + stack_clients(nd) + stack_clients(
                    rest,
                ));
            }
        }
        proof {
            assert(clients@.map_values(|c: Client| c@) + stack_clients(queue@) =~= clients@.map_values(
                |c: Client| c@,
            ));
        }
        clients
    }
}

/// The general client of a sway view: the node ID, in decimal, names it.
pub open spec fn general_data(v: ClientView) -> ClientData {
    ClientData {
        pid: v.pid,
        unique_id: dec_int(v.id as int),
        kind: ClientKind::Window,
        app_id: v.app_id,
        title: v.name,
    }
}

/// The clients of the tree sway reports: every view, walked from the root as
/// `RootNode::clients` walks it, as general clients listed now. A tree that
/// does not start at the root is refused. Sway reports no layers.
pub fn clients_of_tree(tree: Node) -> (r: Result<Vec<BackendClient>, TreeError>)
    requires
        stack_nameable(seq![tree]),
    ensures
        match r {
            Ok(cs) => tree.node_type == NodeType::Root && cs@.len() == stack_clients(seq![tree]).len()
                && forall|i: int|
                0 <= i < cs@.len() ==> #[trigger] cs@[i].data() == general_data(
                    stack_clients(seq![tree])[i],
                ),
            Err(e) => tree.node_type != NodeType::Root && e == (TreeError::NotRoot {
                node_type: tree.node_type,
            }),
        },
{
    let ghost start = seq![tree];
    let root = match RootNode::try_from(tree) {
        Ok(root) => root,
        Err(e) => {
            return Err(e);
        },
    };
    assert(seq![root.0] == start);
    let views = root.clients();
    let ghost all = views@;
    let ghost n = all.len();
    let mut rest = views;
    let mut out: Vec<BackendClient> = Vec::new();
    let ghost mut k: int = 0;
    proof {
        assert(rest@ =~= all.subrange(0, n as int));
        assert forall|j: int| 0 <= j < n implies (#[trigger] all[j])@ == stack_clients(start)[j] by {
            assert(all.map_values(|c: Client| c@)[j] == all[j]@);
        }
    }
    while rest.len() > 0
        invariant
            0 <= k <= n,
            n == all.len(),
            n == stack_clients(start).len(),
            forall|j: int| 0 <= j < n ==> (#[trigger] all[j])@ == stack_clients(start)[j],
            rest@ == all.subrange(k, n as int),
            out@.len() == k,
            forall|j: int| 0 <= j < k ==> #[trigger] out@[j].data() == general_data(all[j]@),
        decreases rest.len(),
    {
        let c = rest.remove(0);
        proof {
            assert(c == all[k]);
        }
        out.push(c.to_client());
        proof {
            k = k + 1;
            assert(rest@ =~= all.subrange(k, n as int));
        }
    }
    proof {
        assert forall|j: int| 0 <= j < out@.len() implies #[trigger] out@[j].data() == general_data(
            stack_clients(start)[j],
        ) by {
            assert(out@[j].data() == general_data(all[j]@));
        }
    }
    Ok(out)
}

/// The command that closes the windows of process `pid`.
pub open spec fn kill_command_text(pid: int) -> Seq<char> {
    "[pid="@ + dec_int(pid) + "] kill"@
}

/// The command that closes the windows of process `pid`.
pub fn kill_command(pid: i32) -> (r: String)
    ensures
        r@ == kill_command_text(pid as int),
{
    let mut s = String::from_str("[pid=");
    let digits = fmt_i64(pid as i64);
    s.append(digits.as_str());
    s.append("] kill");
    s
}

} // verus!
