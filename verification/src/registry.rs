//! The node registry: the control plane's store of known agents, each an
//! endpoint with an optional credential, keyed by a unique, immutable id.
//! Mutation goes only through upsert and delete; the application persists
//! the listed snapshot after every mutation (last-writer-wins over the
//! whole collection). With nothing persisted, a single default local node
//! is registered.

use vstd::prelude::*;
use vstd::string::*;
use crate::text::str_eq;

verus! {

/// One registered agent.
pub struct NodeConfig {
    pub id: String,
    pub name: String,
    pub url: String,
    pub token: Option<String>,
}

/// The mathematical content of a `NodeConfig`.
pub ghost struct NodeConfigView {
    pub id: Seq<char>,
    pub name: Seq<char>,
    pub url: Seq<char>,
    pub token: Option<Seq<char>>,
}

impl View for NodeConfig {
    type V = NodeConfigView;

    open spec fn view(&self) -> NodeConfigView {
        NodeConfigView {
            id: self.id@,
            name: self.name@,
            url: self.url@,
            token: self.token.deep_view(),
        }
    }
}

impl DeepView for NodeConfig {
    type V = NodeConfigView;

    open spec fn deep_view(&self) -> NodeConfigView {
        self.view()
    }
}

/// The default local node registered when nothing was persisted.
pub open spec fn spec_default_node() -> NodeConfigView {
    NodeConfigView {
        id: "local"@,
        name: "Local Agent"@,
        url: "http://127.0.0.1:3001"@,
        token: Some("change_me_please"@),
    }
}

/// The node the registry starts from on a first run: the agent assumed on
/// the local host, with the placeholder secret.
pub fn default_node() -> (r: NodeConfig)
    ensures
        r@ == spec_default_node(),
{
    NodeConfig {
        id: String::from_str("local"),
        name: String::from_str("Local Agent"),
        url: String::from_str("http://127.0.0.1:3001"),
        token: Some(String::from_str("change_me_please")),
    }
}

/// No two entries share an id.
pub open spec fn unique_ids(nodes: Seq<NodeConfigView>) -> bool {
    forall|i: int, j: int|
        0 <= i < j < nodes.len() ==> #[trigger] nodes[i].id != #[trigger] nodes[j].id
}

/// Some entry carries this id.
pub open spec fn contains_id(nodes: Seq<NodeConfigView>, id: Seq<char>) -> bool {
    exists|i: int| 0 <= i < nodes.len() && (#[trigger] nodes[i]).id == id
}

/// The first index carrying this id, if any.
pub open spec fn spec_find_id(nodes: Seq<NodeConfigView>, id: Seq<char>) -> Option<int>
    decreases nodes.len(),
{
    if nodes.len() == 0 {
        None
    } else if nodes[0].id == id {
        Some(0)
    } else {
        match spec_find_id(nodes.skip(1), id) {
            Some(i) => Some(i + 1),
            None => None,
        }
    }
}

/// The first index whose entry serves this endpoint, if any.
pub open spec fn spec_find_url(nodes: Seq<NodeConfigView>, url: Seq<char>) -> Option<int>
    decreases nodes.len(),
{
    if nodes.len() == 0 {
        None
    } else if nodes[0].url == url {
        Some(0)
    } else {
        match spec_find_url(nodes.skip(1), url) {
            Some(i) => Some(i + 1),
            None => None,
        }
    }
}

/// What `spec_find_id` returns: the first match, or nothing when no entry
/// carries the id.
pub proof fn lemma_find_id_spec(nodes: Seq<NodeConfigView>, id: Seq<char>)
    ensures
        match spec_find_id(nodes, id) {
            Some(i) => 0 <= i < nodes.len() && nodes[i].id == id && forall|j: int|
                0 <= j < i ==> (#[trigger] nodes[j]).id != id,
            None => forall|j: int| 0 <= j < nodes.len() ==> (#[trigger] nodes[j]).id != id,
        },
    decreases nodes.len(),
{
    if nodes.len() > 0 && nodes[0].id != id {
        lemma_find_id_spec(nodes.skip(1), id);
        match spec_find_id(nodes.skip(1), id) {
            Some(i0) => {
                assert(nodes.skip(1)[i0] == nodes[i0 + 1]);
                assert forall|j: int| 0 <= j < i0 + 1 implies (#[trigger] nodes[j]).id != id by {
                    if j > 0 {
                        assert(nodes.skip(1)[j - 1] == nodes[j]);
                    }
                }
            },
            None => {
                assert forall|j: int| 0 <= j < nodes.len() implies (#[trigger] nodes[j]).id
                    != id by {
                    if j > 0 {
                        assert(nodes.skip(1)[j - 1] == nodes[j]);
                    }
                }
            },
        }
    }
}

/// The converse: a first match at `i` pins `spec_find_id` down.
pub proof fn lemma_find_id_first(nodes: Seq<NodeConfigView>, id: Seq<char>, i: int)
    requires
        0 <= i < nodes.len(),
        nodes[i].id == id,
        forall|j: int| 0 <= j < i ==> (#[trigger] nodes[j]).id != id,
    ensures
        spec_find_id(nodes, id) == Some(i),
    decreases i,
{
    if i > 0 {
        assert(forall|j: int| 0 <= j < nodes.skip(1).len() ==> nodes.skip(1)[j] == nodes[j + 1]);
        lemma_find_id_first(nodes.skip(1), id, i - 1);
    }
}

pub proof fn lemma_find_url_spec(nodes: Seq<NodeConfigView>, url: Seq<char>)
    ensures
        match spec_find_url(nodes, url) {
            Some(i) => 0 <= i < nodes.len() && nodes[i].url == url && forall|j: int|
                0 <= j < i ==> (#[trigger] nodes[j]).url != url,
            None => forall|j: int| 0 <= j < nodes.len() ==> (#[trigger] nodes[j]).url != url,
        },
    decreases nodes.len(),
{
    if nodes.len() > 0 && nodes[0].url != url {
        lemma_find_url_spec(nodes.skip(1), url);
        match spec_find_url(nodes.skip(1), url) {
            Some(i0) => {
                assert(nodes.skip(1)[i0] == nodes[i0 + 1]);
                assert forall|j: int| 0 <= j < i0 + 1 implies (#[trigger] nodes[j]).url != url by {
                    if j > 0 {
                        assert(nodes.skip(1)[j - 1] == nodes[j]);
                    }
                }
            },
            None => {
                assert forall|j: int| 0 <= j < nodes.len() implies (#[trigger] nodes[j]).url
                    != url by {
                    if j > 0 {
                        assert(nodes.skip(1)[j - 1] == nodes[j]);
                    }
                }
            },
        }
    }
}

pub proof fn lemma_find_url_first(nodes: Seq<NodeConfigView>, url: Seq<char>, i: int)
    requires
        0 <= i < nodes.len(),
        nodes[i].url == url,
        forall|j: int| 0 <= j < i ==> (#[trigger] nodes[j]).url != url,
    ensures
        spec_find_url(nodes, url) == Some(i),
    decreases i,
{
    if i > 0 {
        assert(forall|j: int| 0 <= j < nodes.skip(1).len() ==> nodes.skip(1)[j] == nodes[j + 1]);
        lemma_find_url_first(nodes.skip(1), url, i - 1);
    }
}

/// What upsert leaves: the entry with the same id replaced in place, or
/// the node appended when its id is new.
pub open spec fn spec_upsert(nodes: Seq<NodeConfigView>, node: NodeConfigView) -> Seq<
    NodeConfigView,
> {
    match spec_find_id(nodes, node.id) {
        Some(i) => nodes.update(i, node),
        None => nodes.push(node),
    }
}

/// What delete leaves: every entry whose id differs, in order.
pub open spec fn spec_delete(nodes: Seq<NodeConfigView>, id: Seq<char>) -> Seq<NodeConfigView> {
    nodes.filter(|n: NodeConfigView| n.id != id)
}

/// The credential attached to the first entry serving this endpoint.
pub open spec fn spec_token_for_url(nodes: Seq<NodeConfigView>, url: Seq<char>) -> Option<
    Seq<char>,
> {
    match spec_find_url(nodes, url) {
        Some(i) => nodes[i].token,
        None => None,
    }
}

/// The entries of `nodes` added to `acc` in order, entries whose id was
/// already taken dropped.
pub open spec fn dedup_by_id(nodes: Seq<NodeConfigView>, acc: Seq<NodeConfigView>) -> Seq<
    NodeConfigView,
>
    decreases nodes.len(),
{
    if nodes.len() == 0 {
        acc
    } else {
        let step = if contains_id(acc, nodes[0].id) {
            acc
        } else {
            acc.push(nodes[0])
        };
        dedup_by_id(nodes.skip(1), step)
    }
}

fn clone_string(s: &String) -> (r: String)
    ensures
        r == *s,
{
    s.clone()
}

fn clone_opt_string(s: &Option<String>) -> (r: Option<String>)
    ensures
        r.deep_view() == s.deep_view(),
{
    match s {
        Some(t) => Some(clone_string(t)),
        None => None,
    }
}

fn clone_node(n: &NodeConfig) -> (r: NodeConfig)
    ensures
        r@ == n@,
{
    NodeConfig {
        id: clone_string(&n.id),
        name: clone_string(&n.name),
        url: clone_string(&n.url),
        token: clone_opt_string(&n.token),
    }
}

fn vec_contains_node_id(v: &Vec<NodeConfig>, id: &str) -> (r: bool)
    ensures
        r == contains_id(v.deep_view(), id@),
{
    let mut j: usize = 0;
    while j < v.len()
        invariant
            0 <= j <= v.len(),
            forall|k: int| 0 <= k < j ==> (#[trigger] v.deep_view()[k]).id != id@,
        decreases v.len() - j,
    {
        if str_eq(v[j].id.as_str(), id) {
            proof {
                assert(v.deep_view()[j as int].id == id@);
            }
            return true;
        }
        j = j + 1;
    }
    false
}

/// The control plane's store of known agents. Its entries carry unique
/// ids; every constructor establishes that and every mutation keeps it.
pub struct NodeRegistry {
    nodes: Vec<NodeConfig>,
}

impl View for NodeRegistry {
    type V = Seq<NodeConfigView>;

    closed spec fn view(&self) -> Seq<NodeConfigView> {
        self.nodes.deep_view()
    }
}

impl NodeRegistry {
    /// Well-formedness: ids are unique.
    pub open spec fn wf(&self) -> bool {
        unique_ids(self@)
    }

    /// A registry from what the application loaded: the persisted entries
    /// with duplicate ids dropped (first wins), or — when nothing usable
    /// was persisted — exactly the single default local node.
    pub fn from_loaded(loaded: Option<Vec<NodeConfig>>) -> (r: NodeRegistry)
        ensures
            loaded is None ==> r@ == seq![spec_default_node()],
            loaded is Some ==> r@ == dedup_by_id(loaded.unwrap().deep_view(), Seq::empty()),
            r.wf(),
    {
        match loaded {
            None => {
                let mut nodes: Vec<NodeConfig> = Vec::new();
                nodes.push(default_node());
                let r = NodeRegistry { nodes };
                proof {
                    assert(r@ =~= seq![spec_default_node()]);
                }
                r
            },
            Some(entries) => {
                let ghost ev = entries.deep_view();
                let mut nodes: Vec<NodeConfig> = Vec::new();
                let mut i: usize = 0;
                proof {
                    assert(ev.skip(0) =~= ev);
                    assert(nodes.deep_view() =~= Seq::<NodeConfigView>::empty());
                    assert(unique_ids(nodes.deep_view()));
                }
                while i < entries.len()
                    invariant
                        0 <= i <= entries.len(),
                        ev == entries.deep_view(),
                        dedup_by_id(ev.skip(i as int), nodes.deep_view()) == dedup_by_id(
                            ev,
                            Seq::empty(),
                        ),
                        unique_ids(nodes.deep_view()),
                    decreases entries.len() - i,
                {
                    let ghost pre = nodes.deep_view();
                    proof {
                        assert(ev.skip(i as int)[0] == ev[i as int]);
                        assert(ev.skip(i as int).skip(1) =~= ev.skip(i as int + 1));
                    }
                    if !vec_contains_node_id(&nodes, entries[i].id.as_str()) {
                        nodes.push(clone_node(&entries[i]));
                        proof {
                            assert(nodes.deep_view() =~= pre.push(ev[i as int]));
                            assert forall|a: int, b: int|
                                0 <= a < b < nodes.deep_view().len() implies #[trigger] nodes.deep_view()[a].id
                                != #[trigger] nodes.deep_view()[b].id by {
                                if b == nodes.deep_view().len() - 1 {
                                    assert(!contains_id(pre, ev[i as int].id));
                                    assert(pre[a].id != ev[i as int].id);
                                }
                            }
                        }
                    }
                    i = i + 1;
                }
                proof {
                    assert(ev.skip(entries.len() as int) =~= Seq::<NodeConfigView>::empty());
                }
                NodeRegistry { nodes }
            },
        }
    }

    /// A snapshot of all configured nodes, in registry order — what the
    /// dashboard lists and what the application persists.
    pub fn list(&self) -> (r: Vec<NodeConfig>)
        ensures
            r.deep_view() == self@,
    {
        let mut out: Vec<NodeConfig> = Vec::new();
        let mut i: usize = 0;
        while i < self.nodes.len()
            invariant
                0 <= i <= self.nodes.len(),
                out.deep_view() =~= self.nodes.deep_view().take(i as int),
            decreases self.nodes.len() - i,
        {
            let ghost pre = out.deep_view();
            out.push(clone_node(&self.nodes[i]));
            proof {
                assert(out.deep_view() =~= pre.push(self.nodes.deep_view()[i as int]));
                assert(out.deep_view() =~= self.nodes.deep_view().take(i as int + 1));
            }
            i = i + 1;
        }
        proof {
            assert(self.nodes.deep_view().take(self.nodes.len() as int) =~= self@);
        }
        out
    }

    /// Replaces the entry carrying this node's id, or appends the node
    /// when the id is new; ids stay unique either way.
    pub fn upsert(&mut self, node: NodeConfig)
        requires
            old(self).wf(),
        ensures
            final(self)@ == spec_upsert(old(self)@, node@),
            final(self).wf(),
    {
        let ghost nv = self.nodes.deep_view();
        let mut i: usize = 0;
        while i < self.nodes.len()
            invariant
                0 <= i <= self.nodes.len(),
                nv == self.nodes.deep_view(),
                nv == old(self)@,
                unique_ids(nv),
                forall|j: int| 0 <= j < i ==> (#[trigger] nv[j]).id != node@.id,
            decreases self.nodes.len() - i,
        {
            if str_eq(self.nodes[i].id.as_str(), node.id.as_str()) {
                proof {
                    lemma_find_id_first(nv, node@.id, i as int);
                }
                self.nodes.set(i, node);
                proof {
                    assert(self.nodes.deep_view() =~= nv.update(i as int, node@));
                    assert forall|a: int, b: int|
                        0 <= a < b < self.nodes.deep_view().len() implies #[trigger] self.nodes.deep_view()[a].id
                        != #[trigger] self.nodes.deep_view()[b].id by {
                        assert(nv[a].id != nv[b].id);
                        assert(nv[i as int].id == node@.id);
                    }
                }
                return ;
            }
            i = i + 1;
        }
        proof {
            lemma_find_id_spec(nv, node@.id);
            if spec_find_id(nv, node@.id) is Some {
                let w = spec_find_id(nv, node@.id).unwrap();
                assert(nv[w].id == node@.id);
            }
        }
        let ghost pre = self.nodes.deep_view();
        self.nodes.push(node);
        proof {
            assert(self.nodes.deep_view() =~= pre.push(node@));
            assert forall|a: int, b: int|
                0 <= a < b < self.nodes.deep_view().len() implies #[trigger] self.nodes.deep_view()[a].id
                != #[trigger] self.nodes.deep_view()[b].id by {
                if b == self.nodes.deep_view().len() - 1 {
                    assert(pre[a].id != node@.id);
                }
            }
        }
    }

    /// Removes the entry carrying this id, if present; every other entry
    /// stays, in order.
    pub fn delete(&mut self, id: &str)
        requires
            old(self).wf(),
        ensures
            final(self)@ == spec_delete(old(self)@, id@),
            final(self).wf(),
    {
        broadcast use vstd::seq_lib::group_filter_ensures;

        let ghost nv = self.nodes.deep_view();
        let ghost pred = |n: NodeConfigView| n.id != id@;
        let mut kept: Vec<NodeConfig> = Vec::new();
        let mut i: usize = 0;
        proof {
            reveal(Seq::filter);
            assert(nv.take(0) =~= Seq::<NodeConfigView>::empty());
            assert(nv.take(0).filter(pred) =~= Seq::<NodeConfigView>::empty());
        }
        while i < self.nodes.len()
            invariant
                0 <= i <= self.nodes.len(),
                nv == self.nodes.deep_view(),
                unique_ids(nv),
                kept.deep_view() == nv.take(i as int).filter(pred),
                unique_ids(kept.deep_view()),
                forall|k: int|
                    0 <= k < kept.deep_view().len() ==> exists|j: int|
                        0 <= j < i && #[trigger] kept.deep_view()[k] == nv[j],
                pred == (|n: NodeConfigView| n.id != id@),
            decreases self.nodes.len() - i,
        {
            let ghost pre = kept.deep_view();
            let keep = !str_eq(self.nodes[i].id.as_str(), id);
            if keep {
                kept.push(clone_node(&self.nodes[i]));
            }
            proof {
                reveal(Seq::filter);
                let prefix = nv.take(i as int + 1);
                assert(prefix.drop_last() =~= nv.take(i as int));
                assert(prefix.last() == nv[i as int]);
                assert(keep == pred(nv[i as int]));
                if keep {
                    assert(kept.deep_view() =~= pre.push(nv[i as int]));
                    assert forall|k: int| 0 <= k < kept.deep_view().len() implies exists|j: int|
                        0 <= j < i + 1 && #[trigger] kept.deep_view()[k] == nv[j] by {
                        if k < pre.len() {
                            assert(pre[k] == kept.deep_view()[k]);
                            let j0 = choose|j0: int| 0 <= j0 < i && pre[k] == nv[j0];
                            assert(kept.deep_view()[k] == nv[j0]);
                        } else {
                            assert(kept.deep_view()[k] == nv[i as int]);
                        }
                    }
                    assert forall|a: int, b: int|
                        0 <= a < b < kept.deep_view().len() implies #[trigger] kept.deep_view()[a].id
                        != #[trigger] kept.deep_view()[b].id by {
                        if b == kept.deep_view().len() - 1 {
                            let j0 = choose|j0: int| 0 <= j0 < i && pre[a] == nv[j0];
                            assert(nv[j0].id != nv[i as int].id);
                        }
                    }
                }
            }
            i = i + 1;
        }
        proof {
            assert(nv.take(self.nodes.len() as int) =~= nv);
        }
        self.nodes = kept;
    }

    /// The credential of the first entry serving this endpoint: its token
    /// if it has one, nothing when the endpoint is unknown or bare.
    pub fn find_token(&self, url: &str) -> (r: Option<String>)
        ensures
            r.deep_view() == spec_token_for_url(self@, url@),
    {
        let ghost nv = self.nodes.deep_view();
        let mut i: usize = 0;
        while i < self.nodes.len()
            invariant
                0 <= i <= self.nodes.len(),
                nv == self.nodes.deep_view(),
                forall|j: int| 0 <= j < i ==> (#[trigger] nv[j]).url != url@,
            decreases self.nodes.len() - i,
        {
            if str_eq(self.nodes[i].url.as_str(), url) {
                proof {
                    lemma_find_url_first(nv, url@, i as int);
                }
                return clone_opt_string(&self.nodes[i].token);
            }
            i = i + 1;
        }
        proof {
            lemma_find_url_spec(nv, url@);
            if spec_find_url(nv, url@) is Some {
                let w = spec_find_url(nv, url@).unwrap();
                assert(nv[w].url == url@);
            }
        }
        None
    }
}

/// Law: upsert with an existing id replaces that entry's fields in place
/// and leaves the collection's length and every other entry unchanged.
pub proof fn lemma_upsert_existing(nodes: Seq<NodeConfigView>, node: NodeConfigView, i: int)
    requires
        unique_ids(nodes),
        0 <= i < nodes.len(),
        nodes[i].id == node.id,
    ensures
        spec_upsert(nodes, node).len() == nodes.len(),
        spec_upsert(nodes, node)[i] == node,
        forall|j: int| 0 <= j < nodes.len() && j != i ==> spec_upsert(nodes, node)[j] == nodes[j],
{
    assert(forall|j: int| 0 <= j < i ==> (#[trigger] nodes[j]).id != node.id);
    lemma_find_id_first(nodes, node.id, i);
}

/// Law: upsert with a new id appends the node, growing the collection by
/// exactly one and leaving every existing entry unchanged.
pub proof fn lemma_upsert_new(nodes: Seq<NodeConfigView>, node: NodeConfigView)
    requires
        !contains_id(nodes, node.id),
    ensures
        spec_upsert(nodes, node).len() == nodes.len() + 1,
        spec_upsert(nodes, node)[nodes.len() as int] == node,
        forall|j: int| 0 <= j < nodes.len() ==> spec_upsert(nodes, node)[j] == nodes[j],
{
    lemma_find_id_spec(nodes, node.id);
    if spec_find_id(nodes, node.id) is Some {
        let w = spec_find_id(nodes, node.id).unwrap();
        assert(nodes[w].id == node.id);
    }
}

/// Law: delete removes exactly the entries carrying the id — none
/// survives, and every entry with a different id survives.
pub proof fn lemma_delete_exact(nodes: Seq<NodeConfigView>, id: Seq<char>)
    ensures
        forall|j: int|
            0 <= j < spec_delete(nodes, id).len() ==> (#[trigger] spec_delete(nodes, id)[j]).id
                != id,
        forall|j: int|
            0 <= j < nodes.len() && (#[trigger] nodes[j]).id != id ==> spec_delete(
                nodes,
                id,
            ).contains(nodes[j]),
        spec_delete(nodes, id).len() <= nodes.len(),
{
    broadcast use vstd::seq_lib::group_filter_ensures;

    let pred = |n: NodeConfigView| n.id != id;
    assert forall|j: int| 0 <= j < nodes.len() && (#[trigger] nodes[j]).id != id implies spec_delete(
        nodes,
        id,
    ).contains(nodes[j]) by {
        assert(pred(nodes[j]));
        nodes.lemma_filter_contains(pred, j);
    }
    assert forall|j: int|
        0 <= j < spec_delete(nodes, id).len() implies (#[trigger] spec_delete(nodes, id)[j]).id
        != id by {
        nodes.lemma_filter_pred(pred, j);
    }
}

} // verus!
