//! The link-stripping pass over a parsed changelog.
//!
//! A document tree is seen here as its nodes in pre-order (depth-first, in
//! document order), each with its depth below the root. The first child of
//! node `i`, if any, is then node `i + 1`, one level deeper. A hyperlink
//! becomes a plain text run holding its display label: the text of its first
//! child when that child is a text run, the empty string otherwise. That
//! child is then detached, so the label is not shown twice.
use vstd::prelude::*;

verus! {

/// What a node of a changelog holds, as far as link stripping is concerned.
#[derive(Clone, Debug)]
pub enum NodeKind {
    /// A run of plain text.
    Text(String),
    /// A hyperlink to the given target.
    Link(String),
    /// Any other node: a paragraph, a heading, emphasis, a list, ...
    Other,
}

/// A node of a changelog, seen in pre-order.
#[derive(Clone, Debug)]
pub struct MdNode {
    pub kind: NodeKind,
    pub depth: usize,
}

pub enum KindView {
    Text(Seq<char>),
    Link(Seq<char>),
    Other,
}

pub struct NodeView {
    pub kind: KindView,
    pub depth: nat,
}

impl View for MdNode {
    type V = NodeView;

    open spec fn view(&self) -> NodeView {
        NodeView {
            kind: match self.kind {
                NodeKind::Text(t) => KindView::Text(t@),
                NodeKind::Link(u) => KindView::Link(u@),
                NodeKind::Other => KindView::Other,
            },
            depth: self.depth as nat,
        }
    }
}

pub open spec fn nodes_view(v: Seq<MdNode>) -> Seq<NodeView> {
    v.map_values(|n: MdNode| n@)
}

pub open spec fn is_link(s: Seq<NodeView>, i: int) -> bool {
    s[i].kind is Link
}

/// Node `i` has a first child, and that child is a text run.
pub open spec fn text_first_child(s: Seq<NodeView>, i: int) -> bool {
    &&& 0 <= i
    &&& i + 1 < s.len()
    &&& s[i + 1].depth == s[i].depth + 1
    &&& s[i + 1].kind is Text
}

/// The visible text that replaces the link at `i`.
pub open spec fn display_label(s: Seq<NodeView>, i: int) -> Seq<char> {
    if text_first_child(s, i) {
        s[i + 1].kind->Text_0
    } else {
        Seq::empty()
    }
}

/// Node `k` is the text child of a link, removed once the link is rewritten.
pub open spec fn detached(s: Seq<NodeView>, k: int) -> bool {
    k >= 1 && is_link(s, k - 1) && text_first_child(s, k - 1)
}

/// Node `i` once links are rewritten in place.
pub open spec fn rewritten(s: Seq<NodeView>, i: int) -> NodeView {
    if is_link(s, i) {
        NodeView { kind: KindView::Text(display_label(s, i)), depth: s[i].depth }
    } else {
        s[i]
    }
}

/// The first `n` nodes, with links rewritten and detached nodes left out.
pub open spec fn strip_prefix(s: Seq<NodeView>, n: int) -> Seq<NodeView>
    decreases n,
{
    if n <= 0 {
        Seq::empty()
    } else {
        strip_prefix(s, n - 1) + if detached(s, n - 1) {
            Seq::empty()
        } else {
            seq![rewritten(s, n - 1)]
        }
    }
}

/// The document once every link is replaced by its display label.
pub open spec fn stripped(s: Seq<NodeView>) -> Seq<NodeView> {
    strip_prefix(s, s.len() as int)
}

/// One link to rewrite: the node at `index` becomes the text `label`.
#[derive(Clone, Debug)]
pub struct Relabel {
    pub index: usize,
    pub label: String,
}

/// The changes that strip the links of a document, gathered in one pass
/// before any is applied: the links to rewrite and the nodes to detach, both
/// in document order.
#[derive(Clone, Debug)]
pub struct LinkPlan {
    pub relabels: Vec<Relabel>,
    pub detaches: Vec<usize>,
}

pub open spec fn relabels_view(v: Seq<Relabel>) -> Seq<(int, Seq<char>)> {
    v.map_values(|r: Relabel| (r.index as int, r.label@))
}

/// The links among the first `n` nodes, each with its display label.
pub open spec fn relabels_prefix(s: Seq<NodeView>, n: int) -> Seq<(int, Seq<char>)>
    decreases n,
{
    if n <= 0 {
        Seq::empty()
    } else {
        relabels_prefix(s, n - 1) + if is_link(s, n - 1) {
            seq![(n - 1, display_label(s, n - 1))]
        } else {
            Seq::empty()
        }
    }
}

/// The nodes detached on behalf of the links among the first `n` nodes.
pub open spec fn detaches_prefix(s: Seq<NodeView>, n: int) -> Seq<int>
    decreases n,
{
    if n <= 0 {
        Seq::empty()
    } else {
        detaches_prefix(s, n - 1) + if detached(s, n) {
            seq![n]
        } else {
            Seq::empty()
        }
    }
}

/// The display label of the link at `i`, computed from the nodes.
fn label_of(nodes: &Vec<MdNode>, i: usize) -> (r: Option<String>)
    requires
        i < nodes@.len(),
    ensures
        r is Some <==> text_first_child(nodes_view(nodes@), i as int),
        r matches Some(t) ==> t@ == display_label(nodes_view(nodes@), i as int),
{
    if nodes.len() - i > 1 && nodes[i + 1].depth > 0 && nodes[i + 1].depth - 1 == nodes[i].depth {
        match &nodes[i + 1].kind {
            NodeKind::Text(t) => Some(t.clone()),
            _ => None,
        }
    } else {
        None
    }
}

/// Walks the nodes once, in document order, and gathers every link with its
/// display label, and every text child to detach; the nodes are not changed.
pub fn plan_link_rewrites(nodes: &Vec<MdNode>) -> (plan: LinkPlan)
    ensures
        relabels_view(plan.relabels@) == relabels_prefix(
            nodes_view(nodes@),
            nodes@.len() as int,
        ),
        plan.detaches@.map_values(|k: usize| k as int) == detaches_prefix(
            nodes_view(nodes@),
            nodes@.len() as int,
        ),
{
    let ghost s = nodes_view(nodes@);
    let mut relabels: Vec<Relabel> = Vec::new();
    let mut detaches: Vec<usize> = Vec::new();
    let mut i: usize = 0;
    while i < nodes.len()
        invariant
            s == nodes_view(nodes@),
            i <= nodes@.len(),
            relabels_view(relabels@) == relabels_prefix(s, i as int),
            detaches@.map_values(|k: usize| k as int) == detaches_prefix(s, i as int),
        decreases nodes@.len() - i,
    {
        let ghost old_relabels = relabels@;
        let ghost old_detaches = detaches@;
        let is_link_here = match &nodes[i].kind {
            NodeKind::Link(_) => true,
            _ => false,
        };
        if is_link_here {
            let found = label_of(nodes, i);
            match found {
                Some(t) => {
                    relabels.push(Relabel { index: i, label: t });
                    detaches.push(i + 1);
                },
                None => {
                    relabels.push(Relabel { index: i, label: String::new() });
                },
            }
        }
        proof {
            assert(relabels_view(relabels@) =~= relabels_prefix(s, i + 1));
            assert(detaches@.map_values(|k: usize| k as int) =~= detaches_prefix(s, i + 1));
        }
        i = i + 1;
    }
    LinkPlan { relabels, detaches }
}

/// The links among the first `m` nodes are listed first among those of the
/// first `n`; the links after them lie at `m` or beyond.
proof fn lemma_relabels_extend(s: Seq<NodeView>, m: int, n: int)
    requires
        m <= n,
    ensures
        relabels_prefix(s, m).len() <= relabels_prefix(s, n).len(),
        relabels_prefix(s, m) == relabels_prefix(s, n).subrange(0, relabels_prefix(s, m).len() as int),
        forall|t: int|
            relabels_prefix(s, m).len() <= t < relabels_prefix(s, n).len() ==> (#[trigger] relabels_prefix(s, n)[t]).0 >= m,
    decreases n - m,
{
    if m < n {
        lemma_relabels_extend(s, m, n - 1);
        let p = relabels_prefix(s, n - 1);
        let q = relabels_prefix(s, n);
        assert(q.subrange(0, p.len() as int) =~= p);
        assert forall|t: int| relabels_prefix(s, m).len() <= t < q.len() implies (#[trigger] q[t]).0 >= m by {
            if t < p.len() {
                assert(q[t] == p[t]);
            }
        }
        assert(relabels_prefix(s, m) =~= q.subrange(0, relabels_prefix(s, m).len() as int));
    } else {
        assert(relabels_prefix(s, n).subrange(0, relabels_prefix(s, n).len() as int) =~= relabels_prefix(s, n));
    }
}

/// The nodes detached for the first `m` nodes are listed first among those
/// for the first `n`; the nodes after them lie beyond `m`.
proof fn lemma_detaches_extend(s: Seq<NodeView>, m: int, n: int)
    requires
        m <= n,
    ensures
        detaches_prefix(s, m).len() <= detaches_prefix(s, n).len(),
        detaches_prefix(s, m) == detaches_prefix(s, n).subrange(0, detaches_prefix(s, m).len() as int),
        forall|t: int|
            detaches_prefix(s, m).len() <= t < detaches_prefix(s, n).len() ==> #[trigger] detaches_prefix(s, n)[t] > m,
    decreases n - m,
{
    if m < n {
        lemma_detaches_extend(s, m, n - 1);
        let p = detaches_prefix(s, n - 1);
        let q = detaches_prefix(s, n);
        assert(q.subrange(0, p.len() as int) =~= p);
        assert forall|t: int| detaches_prefix(s, m).len() <= t < q.len() implies #[trigger] q[t] > m by {
            if t < p.len() {
                assert(q[t] == p[t]);
            }
        }
        assert(detaches_prefix(s, m) =~= q.subrange(0, detaches_prefix(s, m).len() as int));
    } else {
        assert(detaches_prefix(s, n).subrange(0, detaches_prefix(s, n).len() as int) =~= detaches_prefix(s, n));
    }
}

fn copy_node(n: &MdNode) -> (r: MdNode)
    ensures
        r@ == n@,
{
    let kind = match &n.kind {
        NodeKind::Text(t) => NodeKind::Text(t.clone()),
        NodeKind::Link(u) => NodeKind::Link(u.clone()),
        NodeKind::Other => NodeKind::Other,
    };
    MdNode { kind, depth: n.depth }
}

/// Applies a plan gathered by `plan_link_rewrites` in two passes: first
/// every link is rewritten to its label, then every recorded node is
/// detached. No node is removed while links are still being rewritten.
pub fn apply_plan(nodes: &Vec<MdNode>, plan: &LinkPlan) -> (r: Vec<MdNode>)
    requires
        relabels_view(plan.relabels@) == relabels_prefix(nodes_view(nodes@), nodes@.len() as int),
        plan.detaches@.map_values(|k: usize| k as int) == detaches_prefix(
            nodes_view(nodes@),
            nodes@.len() as int,
        ),
    ensures
        nodes_view(r@) == stripped(nodes_view(nodes@)),
{
    let ghost s = nodes_view(nodes@);
    let ghost len = nodes@.len() as int;
    let ghost rel = relabels_prefix(s, len);
    let ghost det = detaches_prefix(s, len);
    // First pass: copy the nodes, each link rewritten to its label.
    let mut rewrote: Vec<MdNode> = Vec::new();
    let mut j: usize = 0;
    let mut k: usize = 0;
    while k < nodes.len()
        invariant
            s == nodes_view(nodes@),
            len == nodes@.len(),
            rel == relabels_prefix(s, len),
            relabels_view(plan.relabels@) == rel,
            k <= len,
            rewrote@.len() == k,
            j == relabels_prefix(s, k as int).len(),
            forall|t: int| 0 <= t < k ==> (#[trigger] rewrote@[t])@ == rewritten(s, t),
        decreases len - k,
    {
        proof {
            lemma_relabels_extend(s, k as int, len);
            lemma_relabels_extend(s, k + 1, len);
            lemma_relabels_extend(s, k as int, k + 1);
        }
        let ghost here = relabels_prefix(s, k + 1);
        proof {
            if is_link(s, k as int) {
                assert(here == relabels_prefix(s, k as int) + seq![(k as int, display_label(s, k as int))]);
                assert(here.len() == j + 1);
                assert(here[j as int] == rel.subrange(0, here.len() as int)[j as int]);
                assert(rel[j as int] == (k as int, display_label(s, k as int)));
                assert(relabels_view(plan.relabels@)[j as int] == rel[j as int]);
            } else {
                assert(here == relabels_prefix(s, k as int));
            }
        }
        if j < plan.relabels.len() && plan.relabels[j].index == k {
            proof {
                assert(relabels_view(plan.relabels@)[j as int] == rel[j as int]);
                if !is_link(s, k as int) {
                    assert(rel[j as int].0 >= k + 1);
                }
            }
            let label = plan.relabels[j].label.clone();
            rewrote.push(MdNode { kind: NodeKind::Text(label), depth: nodes[k].depth });
            j = j + 1;
        } else {
            rewrote.push(copy_node(&nodes[k]));
        }
        k = k + 1;
    }
    // Second pass: leave out the detached nodes.
    let mut out: Vec<MdNode> = Vec::new();
    let mut c: usize = 0;
    let mut k: usize = 0;
    while k < rewrote.len()
        invariant
            s == nodes_view(nodes@),
            len == nodes@.len(),
            det == detaches_prefix(s, len),
            plan.detaches@.map_values(|d: usize| d as int) == det,
            rewrote@.len() == len,
            forall|t: int| 0 <= t < len ==> (#[trigger] rewrote@[t])@ == rewritten(s, t),
            k <= len,
            c == detaches_prefix(s, k - 1).len(),
            nodes_view(out@) == strip_prefix(s, k as int),
        decreases len - k,
    {
        proof {
            lemma_detaches_extend(s, k - 1, len);
            lemma_detaches_extend(s, k as int, len);
            lemma_detaches_extend(s, k - 1, k as int);
        }
        let ghost here = detaches_prefix(s, k as int);
        proof {
            if detached(s, k as int) {
                assert(here == detaches_prefix(s, k - 1) + seq![k as int]);
                assert(here.len() == c + 1);
                assert(here[c as int] == det.subrange(0, here.len() as int)[c as int]);
                assert(det[c as int] == k);
                assert(plan.detaches@.map_values(|d: usize| d as int)[c as int] == det[c as int]);
            } else {
                assert(here == detaches_prefix(s, k - 1));
            }
        }
        if c < plan.detaches.len() && plan.detaches[c] == k {
            proof {
                assert(plan.detaches@.map_values(|d: usize| d as int)[c as int] == det[c as int]);
                if !detached(s, k as int) {
                    assert(det[c as int] > k);
                }
            }
            c = c + 1;
        } else {
            out.push(copy_node(&rewrote[k]));
        }
        proof {
            assert(nodes_view(out@) =~= strip_prefix(s, k + 1));
        }
        k = k + 1;
    }
    out
}

/// Returns the document with every link replaced by a text run holding its
/// display label, and the text children of links left out; every other node
/// is kept, in order. The changes are gathered first and applied after.
pub fn strip_links(nodes: &Vec<MdNode>) -> (r: Vec<MdNode>)
    ensures
        nodes_view(r@) == stripped(nodes_view(nodes@)),
{
    let plan = plan_link_rewrites(nodes);
    apply_plan(nodes, &plan)
}

/// Every node of a stripped document is the rewrite of some node, so none is
/// a link.
proof fn lemma_strip_prefix_no_links(s: Seq<NodeView>, n: int)
    requires
        n <= s.len(),
    ensures
        forall|j: int|
            0 <= j < strip_prefix(s, n).len() ==> !((#[trigger] strip_prefix(s, n)[j]).kind is Link),
        strip_prefix(s, n).len() <= if n < 0 { 0 } else { n },
    decreases n,
{
    if n > 0 {
        lemma_strip_prefix_no_links(s, n - 1);
        let p = strip_prefix(s, n - 1);
        let q = strip_prefix(s, n);
        assert forall|j: int| 0 <= j < q.len() implies !((#[trigger] q[j]).kind is Link) by {
            if j < p.len() {
                assert(q[j] == p[j]);
            } else {
                assert(q[j] == rewritten(s, n - 1));
            }
        }
    }
}

/// A document without links is left as it is.
pub proof fn lemma_no_links_unchanged(s: Seq<NodeView>)
    requires
        forall|i: int| 0 <= i < s.len() ==> !((#[trigger] s[i]).kind is Link),
    ensures
        stripped(s) == s,
{
    lemma_no_links_prefix(s, s.len() as int);
    assert(s.subrange(0, s.len() as int) =~= s);
}

proof fn lemma_no_links_prefix(s: Seq<NodeView>, n: int)
    requires
        0 <= n <= s.len(),
        forall|i: int| 0 <= i < s.len() ==> !((#[trigger] s[i]).kind is Link),
    ensures
        strip_prefix(s, n) == s.subrange(0, n),
    decreases n,
{
    if n > 0 {
        lemma_no_links_prefix(s, n - 1);
        assert(!detached(s, n - 1));
        assert(rewritten(s, n - 1) == s[n - 1]);
        assert(s.subrange(0, n) =~= s.subrange(0, n - 1) + seq![s[n - 1]]);
    }
}

/// Stripping links twice gives what stripping once gave.
pub proof fn lemma_strip_idempotent(s: Seq<NodeView>)
    ensures
        stripped(stripped(s)) == stripped(s),
{
    lemma_strip_prefix_no_links(s, s.len() as int);
    lemma_no_links_unchanged(stripped(s));
}

} // verus!
