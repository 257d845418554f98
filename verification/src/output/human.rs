//! Text for people.

use vstd::prelude::*;
use vstd::string::*;

use crate::output::report;
use crate::output::report::{
    GrindTreeReport, MojoInvocation, PourReport, PullReport, TreeNode, VerifyReport,
};
use crate::text;

verus! {

// ---------------------------------------------------------------------------
// The dependency tree: model
// ---------------------------------------------------------------------------

/// The model of a [`TreeNode`].
pub struct NodeModel {
    pub coords: Seq<char>,
    pub version: Seq<char>,
    pub scope: Seq<char>,
    pub from_path: Seq<Seq<char>>,
}

impl View for TreeNode {
    type V = NodeModel;

    open spec fn view(&self) -> NodeModel {
        NodeModel {
            coords: self.coords@,
            version: self.version@,
            scope: self.scope@,
            from_path: text::texts(self.from_path@),
        }
    }
}

/// The model of a list of nodes.
pub open spec fn nodes_of(ns: Seq<TreeNode>) -> Seq<NodeModel> {
    ns.map_values(|n: TreeNode| n@)
}

/// The line of a node.
pub open spec fn node_line(n: NodeModel) -> Seq<char> {
    n.coords + ":"@ + n.version + "  ["@ + n.scope + "]"@
}

/// What stands before a node, the last one among its siblings or not.
pub open spec fn connector(last: bool) -> Seq<char> {
    if last {
        "└── "@
    } else {
        "├── "@
    }
}

/// What stands before everything below a node.
pub open spec fn continuation(last: bool) -> Seq<char> {
    if last {
        "    "@
    } else {
        "│   "@
    }
}

/// The first node at `from` or later that lies directly below `path`.
pub open spec fn next_child(ns: Seq<NodeModel>, path: Seq<Seq<char>>, from: nat) -> Option<nat>
    decreases ns.len() - from,
{
    if from >= ns.len() {
        None
    } else if ns[from as int].from_path == path {
        Some(from)
    } else {
        next_child(ns, path, from + 1)
    }
}

/// More than the length of every node's path.
pub open spec fn depth_bound(ns: Seq<NodeModel>) -> nat
    decreases ns.len(),
{
    if ns.len() == 0 {
        0
    } else if ns.last().from_path.len() >= depth_bound(ns.drop_last()) {
        ns.last().from_path.len() + 1
    } else {
        depth_bound(ns.drop_last())
    }
}

/// The next child lies directly below the path.
pub proof fn next_child_is_child(ns: Seq<NodeModel>, path: Seq<Seq<char>>, from: nat)
    ensures
        next_child(ns, path, from) matches Some(j) ==> from <= j < ns.len()
            && ns[j as int].from_path == path,
    decreases ns.len() - from,
{
    if from < ns.len() && ns[from as int].from_path != path {
        next_child_is_child(ns, path, from + 1);
    }
}

/// Every path is shorter than the bound.
pub proof fn depth_is_bounded(ns: Seq<NodeModel>, j: int)
    requires
        0 <= j < ns.len(),
    ensures
        ns[j].from_path.len() < depth_bound(ns),
    decreases ns.len(),
{
    if j < ns.len() - 1 {
        depth_is_bounded(ns.drop_last(), j);
        assert(ns.drop_last()[j] == ns[j]);
    }
}

/// The lines of the nodes at `from` or later that lie below `path`, each followed by what
/// lies below it.
pub open spec fn subtree(
    ns: Seq<NodeModel>,
    path: Seq<Seq<char>>,
    indent: Seq<char>,
    from: nat,
) -> Seq<char>
    decreases depth_bound(ns) - path.len(), ns.len() - from,
{
    match next_child(ns, path, from) {
        None => Seq::empty(),
        Some(j) => {
            proof {
                next_child_is_child(ns, path, from);
                depth_is_bounded(ns, j as int);
            }
            let node = ns[j as int];
            let last = next_child(ns, path, j + 1) is None;
            indent + connector(last) + node_line(node) + "\n"@ + subtree(
                ns,
                path.push(node.coords),
                indent + continuation(last),
                0,
            ) + subtree(ns, path, indent, j + 1)
        },
    }
}

/// Whether a node lies below no node of the list.
pub open spec fn is_orphan(ns: Seq<NodeModel>, i: int) -> bool {
    &&& ns[i].from_path.len() > 0
    &&& forall|j: int|
        0 <= j < ns.len() ==> (#[trigger] ns[j]).from_path.push(ns[j].coords) != ns[i].from_path
}

/// The orphans below index `m`, in their order.
pub open spec fn orphans(ns: Seq<NodeModel>, m: nat) -> Seq<int>
    decreases m,
{
    if m == 0 {
        Seq::empty()
    } else if is_orphan(ns, m - 1) {
        orphans(ns, (m - 1) as nat).push(m - 1)
    } else {
        orphans(ns, (m - 1) as nat)
    }
}

/// The lines of the first `k` of the nodes `os`, each followed by what lies below it.
pub open spec fn orphan_lines(ns: Seq<NodeModel>, os: Seq<int>, k: nat) -> Seq<char>
    decreases k,
{
    if k == 0 {
        Seq::empty()
    } else {
        let node = ns[os[k - 1]];
        let last = k == os.len();
        orphan_lines(ns, os, (k - 1) as nat) + connector(last) + node_line(node) + "\n"@ + subtree(
            ns,
            node.from_path.push(node.coords),
            continuation(last),
            0,
        )
    }
}

/// The roots: the modules of the reactor, with the tree below the first one.
pub open spec fn root_lines(r: GrindTreeReport, k: nat) -> Seq<char>
    decreases k,
{
    if k == 0 {
        Seq::empty()
    } else {
        let m = r.reactor@[k - 1];
        root_lines(r, (k - 1) as nat) + m.coords@ + ":"@ + m.version@ + "\n"@ + (if k == 1 {
            subtree(nodes_of(r.nodes@), Seq::empty(), Seq::empty(), 0)
        } else {
            Seq::empty()
        }) + (if k < r.reactor@.len() {
            "\n"@
        } else {
            Seq::empty()
        })
    }
}

/// The dependency tree as text.
pub open spec fn tree_text(r: GrindTreeReport) -> Seq<char> {
    let ns = nodes_of(r.nodes@);
    let os = orphans(ns, ns.len());
    (if r.reactor@.len() == 0 {
        "(no reactor)\n"@ + subtree(ns, Seq::empty(), Seq::empty(), 0)
    } else {
        root_lines(r, r.reactor@.len())
    }) + (if os.len() == 0 {
        Seq::empty()
    } else {
        "\n(orphan transitives)\n"@ + orphan_lines(ns, os, os.len())
    })
}

// ---------------------------------------------------------------------------
// The dependency tree: rendering
// ---------------------------------------------------------------------------

fn format_node_line(n: &TreeNode) -> (r: String)
    ensures
        r@ == node_line(n@),
{
    let mut out = n.coords.clone();
    out.append(":");
    out.append(n.version.as_str());
    out.append("  [");
    out.append(n.scope.as_str());
    out.append("]");
    out
}

fn connector_str(last: bool) -> (r: &'static str)
    ensures
        r@ == connector(last),
{
    if last {
        "└── "
    } else {
        "├── "
    }
}

fn continuation_str(last: bool) -> (r: &'static str)
    ensures
        r@ == continuation(last),
{
    if last {
        "    "
    } else {
        "│   "
    }
}

/// Whether two lists hold the same texts.
fn same_path(a: &Vec<String>, b: &Vec<String>) -> (r: bool)
    ensures
        r == (text::texts(a@) == text::texts(b@)),
{
    if a.len() != b.len() {
        assert(text::texts(a@).len() != text::texts(b@).len());
        return false;
    }
    let mut i: usize = 0;
    while i < a.len()
        invariant
            i <= a@.len(),
            a@.len() == b@.len(),
            forall|k: int| 0 <= k < i ==> a@[k]@ == b@[k]@,
        decreases a@.len() - i,
    {
        if !text::same_text(a[i].as_str(), b[i].as_str()) {
            assert(text::texts(a@)[i as int] != text::texts(b@)[i as int]);
            return false;
        }
        i = i + 1;
    }
    assert(text::texts(a@) =~= text::texts(b@));
    true
}

fn find_child(nodes: &Vec<TreeNode>, path: &Vec<String>, from: usize) -> (r: Option<usize>)
    requires
        from <= nodes@.len(),
    ensures
        match r {
            Some(j) => next_child(nodes_of(nodes@), text::texts(path@), from as nat) == Some(
                j as nat,
            ) && from <= j < nodes@.len() && nodes@[j as int]@.from_path == text::texts(path@),
            None => next_child(nodes_of(nodes@), text::texts(path@), from as nat) is None,
        },
{
    let ghost ns = nodes_of(nodes@);
    let mut j: usize = from;
    while j < nodes.len()
        invariant
            from <= j <= nodes@.len(),
            ns == nodes_of(nodes@),
            next_child(ns, text::texts(path@), from as nat) == next_child(
                ns,
                text::texts(path@),
                j as nat,
            ),
        decreases nodes@.len() - j,
    {
        assert(ns[j as int] == nodes@[j as int]@);
        if same_path(&nodes[j].from_path, path) {
            return Some(j);
        }
        j = j + 1;
    }
    None
}

/// `path` with `coords` at its end.
fn extended(path: &Vec<String>, coords: &str) -> (r: Vec<String>)
    ensures
        text::texts(r@) == text::texts(path@).push(coords@),
{
    let mut out = text::clone_texts(path);
    let ghost before = text::texts(out@);
    out.push(coords.to_owned());
    assert(text::texts(out@) =~= before.push(coords@));
    out
}

/// Renders what lies below `path`.
fn render_children(nodes: &Vec<TreeNode>, path: &Vec<String>, indent: &str, out: &mut String)
    ensures
        final(out)@ == old(out)@ + subtree(nodes_of(nodes@), text::texts(path@), indent@, 0),
    decreases depth_bound(nodes_of(nodes@)) - path@.len(), 1nat,
{
    let ghost ns = nodes_of(nodes@);
    let ghost p = text::texts(path@);
    let ghost start = out@;
    let ghost whole = subtree(ns, p, indent@, 0);
    assert(start + whole =~= out@ + subtree(ns, p, indent@, 0));
    let n: usize = nodes.len();
    let mut next: Option<usize> = find_child(nodes, path, 0);
    let mut from: usize = 0;
    while next.is_some()
        invariant
            n == nodes@.len(),
            ns == nodes_of(nodes@),
            p == text::texts(path@),
            from <= nodes@.len(),
            match next {
                Some(j) => next_child(ns, p, from as nat) == Some(j as nat) && from <= j
                    < nodes@.len() && nodes@[j as int]@.from_path == p,
                None => next_child(ns, p, from as nat) is None,
            },
            start + whole == out@ + subtree(ns, p, indent@, from as nat),
        decreases nodes@.len() - from,
    {
        let j: usize = next.unwrap();
        let ghost before = out@;
        let node = &nodes[j];
        let after: Option<usize> = find_child(nodes, path, j + 1);
        let last = after.is_none();
        out.append(indent);
        out.append(connector_str(last));
        out.append(format_node_line(node).as_str());
        out.append("\n");
        let mut below = indent.to_owned();
        below.append(continuation_str(last));
        let child = extended(path, node.coords.as_str());
        proof {
            depth_is_bounded(ns, j as int);
            assert(ns[j as int] == nodes@[j as int]@);
            assert(p.len() == path@.len());
            assert(text::texts(child@).len() == child@.len());
        }
        render_children(nodes, &child, below.as_str(), out);
        proof {
            let n = ns[j as int];
            let line = indent@ + connector(last) + node_line(n) + "\n"@;
            let deep = subtree(ns, p.push(n.coords), indent@ + continuation(last), 0);
            let rest = subtree(ns, p, indent@, (j + 1) as nat);
            assert(out@ =~= before + line + deep);
            assert(subtree(ns, p, indent@, from as nat) == line + deep + rest);
            assert(before + (line + deep + rest) =~= out@ + rest);
        }
        from = j + 1;
        next = after;
    }
    assert(out@ + Seq::<char>::empty() =~= out@);
}

fn is_known_path(nodes: &Vec<TreeNode>, path: &Vec<String>) -> (r: bool)
    ensures
        r == exists|j: int|
            0 <= j < nodes@.len() && (#[trigger] nodes_of(nodes@)[j]).from_path.push(
                nodes_of(nodes@)[j].coords,
            ) == text::texts(path@),
{
    let ghost ns = nodes_of(nodes@);
    let mut j: usize = 0;
    while j < nodes.len()
        invariant
            j <= nodes@.len(),
            ns == nodes_of(nodes@),
            forall|k: int|
                0 <= k < j ==> (#[trigger] ns[k]).from_path.push(ns[k].coords) != text::texts(path@),
        decreases nodes@.len() - j,
    {
        let full = extended(&nodes[j].from_path, nodes[j].coords.as_str());
        assert(ns[j as int] == nodes@[j as int]@);
        if same_path(&full, path) {
            return true;
        }
        j = j + 1;
    }
    false
}

fn find_orphans(nodes: &Vec<TreeNode>) -> (r: Vec<usize>)
    ensures
        r@.map_values(|i: usize| i as int) == orphans(nodes_of(nodes@), nodes@.len()),
        forall|k: int| 0 <= k < r@.len() ==> #[trigger] r@[k] < nodes@.len(),
{
    let ghost ns = nodes_of(nodes@);
    let mut out: Vec<usize> = Vec::new();
    let mut i: usize = 0;
    assert(out@.map_values(|i: usize| i as int) =~= Seq::empty());
    while i < nodes.len()
        invariant
            i <= nodes@.len(),
            ns == nodes_of(nodes@),
            out@.map_values(|i: usize| i as int) == orphans(ns, i as nat),
            forall|k: int| 0 <= k < out@.len() ==> #[trigger] out@[k] < nodes@.len(),
        decreases nodes@.len() - i,
    {
        assert(ns[i as int] == nodes@[i as int]@);
        assert(ns[i as int].from_path.len() == nodes@[i as int].from_path@.len());
        if nodes[i].from_path.len() > 0 && !is_known_path(nodes, &nodes[i].from_path) {
            let ghost before = out@.map_values(|i: usize| i as int);
            out.push(i);
            assert(out@.map_values(|i: usize| i as int) =~= before.push(i as int));
        }
        i = i + 1;
    }
    out
}

/// Renders the dependency tree as indented text.
///
/// The modules of the reactor are the roots; direct dependencies stand below the first
/// one (or below `(no reactor)`), transitive ones below their parents. Entries without
/// a parent in the list come last, below `(orphan transitives)`, again with what lies below
/// them.
pub fn render_tree_text(report: &GrindTreeReport) -> (r: String)
    ensures
        r@ == tree_text(*report),
{
    let ghost ns = nodes_of(report.nodes@);
    let top: Vec<String> = Vec::new();
    assert(text::texts(top@) =~= Seq::empty());
    proof {
        reveal_strlit("");
        assert(""@ =~= Seq::empty());
    }
    let mut out = String::new();
    if report.reactor.len() == 0 {
        out.append("(no reactor)\n");
        assert(out@ =~= "(no reactor)\n"@);
        render_children(&report.nodes, &top, "", &mut out);
    } else {
        let mut k: usize = 0;
        while k < report.reactor.len()
            invariant
                k <= report.reactor@.len(),
                ns == nodes_of(report.nodes@),
                text::texts(top@) == Seq::<Seq<char>>::empty(),
                ""@ == Seq::<char>::empty(),
                out@ == root_lines(*report, k as nat),
            decreases report.reactor@.len() - k,
        {
            let ghost before = out@;
            out.append(report.reactor[k].coords.as_str());
            out.append(":");
            out.append(report.reactor[k].version.as_str());
            out.append("\n");
            let ghost headed = out@;
            if k == 0 {
                render_children(&report.nodes, &top, "", &mut out);
            }
            let ghost filled = out@;
            assert(k != 0 ==> filled =~= headed + Seq::<char>::empty());
            k = k + 1;
            if k < report.reactor.len() {
                out.append("\n");
            } else {
                assert(out@ =~= filled + Seq::<char>::empty());
            }
        }
    }
    let lost = find_orphans(&report.nodes);
    let ghost os = orphans(ns, ns.len());
    assert(lost@.len() == os.len()) by {
        assert(lost@.map_values(|i: usize| i as int).len() == lost@.len());
    }
    if lost.len() > 0 {
        let ghost before = out@;
        let mut tail = "\n(orphan transitives)\n".to_owned();
        let ghost heading = tail@;
        let mut k: usize = 0;
        assert(tail@ =~= heading + orphan_lines(ns, os, 0));
        while k < lost.len()
            invariant
                k <= lost@.len(),
                ns == nodes_of(report.nodes@),
                lost@.len() == os.len(),
                lost@.map_values(|i: usize| i as int) == os,
                forall|i: int| 0 <= i < lost@.len() ==> #[trigger] lost@[i] < report.nodes@.len(),
                tail@ == heading + orphan_lines(ns, os, k as nat),
            decreases lost@.len() - k,
        {
            let ghost so_far = orphan_lines(ns, os, k as nat);
            assert(os[k as int] == lost@[k as int] as int);
            assert(ns[lost@[k as int] as int] == report.nodes@[lost@[k as int] as int]@);
            let node = &report.nodes[lost[k]];
            let last = k + 1 == lost.len();
            tail.append(connector_str(last));
            tail.append(format_node_line(node).as_str());
            tail.append("\n");
            let path = extended(&node.from_path, node.coords.as_str());
            render_children(&report.nodes, &path, continuation_str(last), &mut tail);
            k = k + 1;
            assert(tail@ =~= heading + orphan_lines(ns, os, k as nat));
        }
        out.append(tail.as_str());
    } else {
        assert(out@ + Seq::<char>::empty() =~= out@);
    }
    out
}

/// Whether a text ends in one line break, not in an empty line.
pub open spec fn ends_in_one_break(t: Seq<char>) -> bool {
    t.len() >= 2 && t.last() == '\n' && t[t.len() - 2] != '\n'
}

/// Whether the last line of the tree is that of a module whose version ends in a line break.
pub open spec fn ends_in_a_broken_version(r: GrindTreeReport) -> bool {
    let ns = nodes_of(r.nodes@);
    &&& orphans(ns, ns.len()).len() == 0
    &&& r.reactor@.len() > 0
    &&& r.reactor@.len() > 1 || subtree(ns, Seq::empty(), Seq::empty(), 0).len() == 0
    &&& r.reactor@.last().version@.len() > 0
    &&& r.reactor@.last().version@.last() == '\n'
}

/// The tree always ends in a line break, and in a single one unless it is the version of a
/// module that brings another.
pub proof fn tree_ends_in_newline(r: GrindTreeReport)
    ensures
        tree_text(r).len() > 0,
        tree_text(r).last() == '\n',
        !ends_in_a_broken_version(r) ==> ends_in_one_break(tree_text(r)),
{
    reveal_strlit("\n");
    reveal_strlit(":");
    reveal_strlit("]");
    reveal_strlit("(no reactor)\n");
    let ns = nodes_of(r.nodes@);
    let os = orphans(ns, ns.len());
    if os.len() > 0 {
        let node = ns[os.last()];
        let path = node.from_path.push(node.coords);
        let line = orphan_lines(ns, os, (os.len() - 1) as nat) + connector(true) + node_line(node)
            + "\n"@;
        subtree_ends_in_newline(ns, path, continuation(true), 0);
        assert(ends_in_one_break(line));
        assert(orphan_lines(ns, os, os.len()) == line + subtree(ns, path, continuation(true), 0));
        assert(ends_in_one_break(orphan_lines(ns, os, os.len())));
    } else {
        subtree_ends_in_newline(ns, Seq::empty(), Seq::empty(), 0);
        let head = if r.reactor@.len() == 0 {
            "(no reactor)\n"@ + subtree(ns, Seq::empty(), Seq::empty(), 0)
        } else {
            root_lines(r, r.reactor@.len())
        };
        if r.reactor@.len() > 0 {
            let k = r.reactor@.len();
            let m = r.reactor@[k - 1];
            let line = root_lines(r, (k - 1) as nat) + m.coords@ + ":"@ + m.version@ + "\n"@;
            assert(line.last() == '\n');
            let below = if k == 1 {
                subtree(ns, Seq::empty(), Seq::empty(), 0)
            } else {
                Seq::<char>::empty()
            };
            assert(root_lines(r, k) =~= line + below);
        }
        assert(tree_text(r) =~= head);
    }
}

proof fn subtree_ends_in_newline(
    ns: Seq<NodeModel>,
    path: Seq<Seq<char>>,
    indent: Seq<char>,
    from: nat,
)
    ensures
        subtree(ns, path, indent, from).len() > 0 ==> ends_in_one_break(
            subtree(ns, path, indent, from),
        ),
    decreases depth_bound(ns) - path.len(), ns.len() - from,
{
    reveal_strlit("\n");
    reveal_strlit("]");
    match next_child(ns, path, from) {
        None => {},
        Some(j) => {
            next_child_is_child(ns, path, from);
            depth_is_bounded(ns, j as int);
            let node = ns[j as int];
            let last = next_child(ns, path, j + 1) is None;
            subtree_ends_in_newline(
                ns,
                path.push(node.coords),
                indent + continuation(last),
                0,
            );
            subtree_ends_in_newline(ns, path, indent, j + 1);
            let line = indent + connector(last) + node_line(node) + "\n"@;
            assert(ends_in_one_break(line));
        },
    }
}

/// Whether `part` stands in `t` from `i` on.
pub open spec fn stands_at(t: Seq<char>, part: Seq<char>, i: int) -> bool {
    0 <= i && i + part.len() <= t.len() && t.subrange(i, i + part.len()) == part
}

/// Whether `part` stands somewhere in `t`.
pub open spec fn contains_text(t: Seq<char>, part: Seq<char>) -> bool {
    exists|i: int| stands_at(t, part, i)
}

proof fn middle_is_contained(a: Seq<char>, b: Seq<char>, c: Seq<char>)
    ensures
        contains_text(a + b + c, b),
{
    assert((a + b + c).subrange(a.len() as int, (a.len() + b.len()) as int) =~= b);
    assert(stands_at(a + b + c, b, a.len() as int));
}

proof fn containment_chains(a: Seq<char>, b: Seq<char>, c: Seq<char>)
    requires
        contains_text(a, b),
        contains_text(b, c),
    ensures
        contains_text(a, c),
{
    let i = choose|i: int| stands_at(a, b, i);
    let j = choose|j: int| stands_at(b, c, j);
    assert(a.subrange(i + j, i + j + c.len()) =~= b.subrange(j, j + c.len()));
    assert(stands_at(a, c, i + j));
}

/// Whether the text shows what lies below `path`.
spec fn shows_below(t: Seq<char>, ns: Seq<NodeModel>, path: Seq<Seq<char>>) -> bool {
    exists|indent: Seq<char>| #[trigger] contains_text(t, subtree(ns, path, indent, 0))
}

/// What lies below a path shows every node there, and what lies below that one.
proof fn subtree_shows_child(
    ns: Seq<NodeModel>,
    path: Seq<Seq<char>>,
    indent: Seq<char>,
    from: nat,
    i: int,
)
    requires
        from <= i < ns.len(),
        ns[i].from_path == path,
    ensures
        contains_text(subtree(ns, path, indent, from), node_line(ns[i]) + "\n"@),
        shows_below(subtree(ns, path, indent, from), ns, path.push(ns[i].coords)),
    decreases ns.len() - from,
{
    next_child_is_child(ns, path, from);
    child_is_found(ns, path, from, i);
    let j = next_child(ns, path, from)->0;
    depth_is_bounded(ns, j as int);
    let last = next_child(ns, path, j + 1) is None;
    let line = node_line(ns[j as int]) + "\n"@;
    let head = indent + connector(last);
    let deep = subtree(ns, path.push(ns[j as int].coords), indent + continuation(last), 0);
    let rest = subtree(ns, path, indent, j + 1);
    let all = subtree(ns, path, indent, from);
    assert(all =~= head + line + (deep + rest));
    assert(all =~= (head + line) + deep + rest);
    assert(all =~= (head + line + deep) + rest + Seq::empty());
    middle_is_contained(head, line, deep + rest);
    middle_is_contained(head + line, deep, rest);
    middle_is_contained(head + line + deep, rest, Seq::empty());
    if i > j {
        subtree_shows_child(ns, path, indent, j + 1, i);
        containment_chains(all, rest, node_line(ns[i]) + "\n"@);
        let inner = choose|inner: Seq<char>| #[trigger]
            contains_text(rest, subtree(ns, path.push(ns[i].coords), inner, 0));
        containment_chains(all, rest, subtree(ns, path.push(ns[i].coords), inner, 0));
    }
}

/// The next child does not come after any child.
proof fn child_is_found(ns: Seq<NodeModel>, path: Seq<Seq<char>>, from: nat, i: int)
    requires
        from <= i < ns.len(),
        ns[i].from_path == path,
    ensures
        next_child(ns, path, from) matches Some(j) && j <= i,
    decreases ns.len() - from,
{
    if ns[from as int].from_path != path {
        child_is_found(ns, path, from + 1, i);
    }
}

/// Every orphan is among the orphans.
proof fn orphan_is_listed(ns: Seq<NodeModel>, m: nat, i: int)
    requires
        0 <= i < m <= ns.len(),
        is_orphan(ns, i),
    ensures
        orphans(ns, m).contains(i),
    decreases m,
{
    if i == m - 1 {
        assert(orphans(ns, m).last() == i);
    } else {
        orphan_is_listed(ns, (m - 1) as nat, i);
        let before = orphans(ns, (m - 1) as nat);
        let k = choose|k: int| 0 <= k < before.len() && before[k] == i;
        assert(orphans(ns, m)[k] == i);
    }
}

/// The lines of the orphans show each of them, and what lies below it.
proof fn orphans_are_shown(ns: Seq<NodeModel>, os: Seq<int>, k: nat, at: int)
    requires
        0 <= at < k <= os.len(),
    ensures
        ({
            let n = ns[os[at]];
            let t = orphan_lines(ns, os, k);
            contains_text(t, node_line(n) + "\n"@) && shows_below(t, ns, n.from_path.push(n.coords))
        }),
    decreases k,
{
    let node = ns[os[k - 1]];
    let last = k == os.len();
    let before = orphan_lines(ns, os, (k - 1) as nat);
    let line = node_line(node) + "\n"@;
    let deep = subtree(ns, node.from_path.push(node.coords), continuation(last), 0);
    let all = orphan_lines(ns, os, k);
    assert(all =~= (before + connector(last)) + line + deep);
    assert(all =~= (before + connector(last) + line) + deep + Seq::empty());
    assert(all =~= Seq::empty() + before + (connector(last) + line + deep));
    middle_is_contained(before + connector(last), line, deep);
    middle_is_contained(before + connector(last) + line, deep, Seq::empty());
    middle_is_contained(Seq::empty(), before, connector(last) + line + deep);
    if at < k - 1 {
        orphans_are_shown(ns, os, (k - 1) as nat, at);
        let n = ns[os[at]];
        containment_chains(all, before, node_line(n) + "\n"@);
        let inner = choose|inner: Seq<char>| #[trigger]
            contains_text(before, subtree(ns, n.from_path.push(n.coords), inner, 0));
        containment_chains(all, before, subtree(ns, n.from_path.push(n.coords), inner, 0));
    }
}

/// The first root's lines stay at the front.
proof fn roots_show_the_tree(r: GrindTreeReport, k: nat)
    requires
        1 <= k <= r.reactor@.len(),
    ensures
        contains_text(
            root_lines(r, k),
            subtree(nodes_of(r.nodes@), Seq::empty(), Seq::empty(), 0),
        ),
    decreases k,
{
    let tree = subtree(nodes_of(r.nodes@), Seq::empty(), Seq::empty(), 0);
    let m = r.reactor@[k - 1];
    let line = m.coords@ + ":"@ + m.version@ + "\n"@;
    let gap = if k < r.reactor@.len() {
        "\n"@
    } else {
        Seq::<char>::empty()
    };
    if k == 1 {
        reveal_with_fuel(root_lines, 2);
        assert(root_lines(r, 1) =~= line + tree + gap);
        middle_is_contained(line, tree, gap);
    } else {
        roots_show_the_tree(r, (k - 1) as nat);
        let before = root_lines(r, (k - 1) as nat);
        assert(root_lines(r, k) =~= Seq::empty() + before + (line + gap));
        middle_is_contained(Seq::empty(), before, line + gap);
        containment_chains(root_lines(r, k), before, tree);
    }
}

/// No entry is lost: the tree shows the line of every node, whether its parent is in the
/// report or not.
pub proof fn no_node_is_lost(r: GrindTreeReport, i: int)
    requires
        0 <= i < r.nodes@.len(),
    ensures
        contains_text(tree_text(r), node_line(r.nodes@[i]@) + "\n"@),
{
    assert(nodes_of(r.nodes@)[i] == r.nodes@[i]@);
    node_is_shown(r, i);
}

proof fn node_is_shown(r: GrindTreeReport, i: int)
    requires
        0 <= i < r.nodes@.len(),
    ensures
        ({
            let ns = nodes_of(r.nodes@);
            contains_text(tree_text(r), node_line(ns[i]) + "\n"@) && shows_below(
                tree_text(r),
                ns,
                ns[i].from_path.push(ns[i].coords),
            )
        }),
    decreases nodes_of(r.nodes@)[i].from_path.len(),
{
    let ns = nodes_of(r.nodes@);
    let os = orphans(ns, ns.len());
    let all = tree_text(r);
    let path = ns[i].from_path;
    let own = path.push(ns[i].coords);
    let line = node_line(ns[i]) + "\n"@;
    let heading = "\n(orphan transitives)\n"@;
    let tail = if os.len() == 0 {
        Seq::<char>::empty()
    } else {
        heading + orphan_lines(ns, os, os.len())
    };
    let head = if r.reactor@.len() == 0 {
        "(no reactor)\n"@ + subtree(ns, Seq::empty(), Seq::empty(), 0)
    } else {
        root_lines(r, r.reactor@.len())
    };
    assert(all == head + tail);
    if is_orphan(ns, i) {
        orphan_is_listed(ns, ns.len(), i);
        let at = choose|at: int| 0 <= at < os.len() && os[at] == i;
        let lines = orphan_lines(ns, os, os.len());
        orphans_are_shown(ns, os, os.len(), at);
        assert(all =~= (head + heading) + lines + Seq::empty());
        middle_is_contained(head + heading, lines, Seq::empty());
        containment_chains(all, lines, line);
        let inner = choose|inner: Seq<char>| #[trigger]
            contains_text(lines, subtree(ns, own, inner, 0));
        containment_chains(all, lines, subtree(ns, own, inner, 0));
    } else {
        if path.len() == 0 {
            let tree = subtree(ns, Seq::empty(), Seq::empty(), 0);
            if r.reactor@.len() == 0 {
                assert(all =~= "(no reactor)\n"@ + tree + tail);
                middle_is_contained("(no reactor)\n"@, tree, tail);
            } else {
                roots_show_the_tree(r, r.reactor@.len());
                assert(all =~= Seq::empty() + head + tail);
                middle_is_contained(Seq::empty(), head, tail);
                containment_chains(all, head, tree);
            }
            assert(path =~= Seq::empty());
            assert(shows_below(all, ns, path));
        } else {
            let j = choose|j: int|
                0 <= j < ns.len() && (#[trigger] ns[j]).from_path.push(ns[j].coords) == path;
            assert(path.len() == ns[j].from_path.len() + 1);
            node_is_shown(r, j);
        }
        let indent = choose|indent: Seq<char>| #[trigger]
            contains_text(all, subtree(ns, path, indent, 0));
        let below = subtree(ns, path, indent, 0);
        subtree_shows_child(ns, path, indent, 0, i);
        containment_chains(all, below, line);
        let inner = choose|inner: Seq<char>| #[trigger]
            contains_text(below, subtree(ns, own, inner, 0));
        containment_chains(all, below, subtree(ns, own, inner, 0));
    }
}

// ---------------------------------------------------------------------------
// The renderer
// ---------------------------------------------------------------------------

/// The renderer for people. It writes the tree to the first stream and summaries and
/// errors to the second one.
#[derive(Debug)]
pub struct HumanRenderer {
    /// What was written to the first stream.
    pub out: String,
    /// What was written to the second stream.
    pub err: String,
    /// Whether styling is enabled.
    pub ansi: bool,
}

/// The line of an invocation that failed.
pub open spec fn failure_line(i: MojoInvocation) -> Seq<char> {
    "  ✗ "@ + i.phase@ + " :: "@ + i.mojo@ + " (exit="@ + text::signed_dec(i.exit_code as int)
        + ") — "@ + (if i.failure_message@.len() == 0 {
        i.status@
    } else {
        i.failure_message@
    }) + "\n"@
}

/// The lines of the failures among the first `k` invocations.
pub open spec fn failure_lines(is: Seq<MojoInvocation>, k: nat) -> Seq<char>
    decreases k,
{
    if k == 0 {
        Seq::empty()
    } else if is[k - 1].exit_code != 0 {
        failure_lines(is, (k - 1) as nat) + failure_line(is[k - 1])
    } else {
        failure_lines(is, (k - 1) as nat)
    }
}

impl HumanRenderer {
    /// A renderer that has written nothing yet.
    pub fn new(ansi: bool) -> (r: HumanRenderer)
        ensures
            r.out@ == Seq::<char>::empty(),
            r.err@ == Seq::<char>::empty(),
            r.ansi == ansi,
    {
        HumanRenderer { out: String::new(), err: String::new(), ansi }
    }

    /// Whether styling is enabled.
    pub fn ansi(&self) -> (r: bool)
        ensures
            r == self.ansi,
    {
        self.ansi
    }

    /// Reports a pull.
    pub fn render_pull(&mut self, report: &PullReport)
        ensures
            final(self).out == old(self).out,
            final(self).ansi == old(self).ansi,
            final(self).err@ == old(self).err@ + "pull: "@ + report::pull_summary(*report) + "\n"@,
    {
        self.err.append("pull: ");
        self.err.append(report.summary().as_str());
        self.err.append("\n");
    }

    /// Shows a dependency tree.
    pub fn render_grind_tree(&mut self, report: &GrindTreeReport)
        ensures
            final(self).err == old(self).err,
            final(self).ansi == old(self).ansi,
            final(self).out@ == old(self).out@ + tree_text(*report),
    {
        self.out.append(render_tree_text(report).as_str());
    }

    /// Reports a pour.
    pub fn render_pour(&mut self, report: &PourReport)
        ensures
            final(self).out == old(self).out,
            final(self).ansi == old(self).ansi,
            final(self).err@ == old(self).err@ + "pour: "@ + report::pour_summary(*report) + "\n"@,
    {
        self.err.append("pour: ");
        self.err.append(report.summary().as_str());
        self.err.append("\n");
    }

    /// Reports a lifecycle command: its summary, then one line for each failure.
    pub fn render_verify(&mut self, report: &VerifyReport)
        ensures
            final(self).out == old(self).out,
            final(self).ansi == old(self).ansi,
            final(self).err@ == old(self).err@ + report.phase@ + ": "@ + report::verify_summary(
                *report,
            ) + "\n"@ + failure_lines(report.invocations@, report.invocations@.len()),
    {
        self.err.append(report.phase.as_str());
        self.err.append(": ");
        self.err.append(report.summary().as_str());
        self.err.append("\n");
        let ghost head = self.err@;
        let ghost keep = (self.out, self.ansi);
        let mut k: usize = 0;
        assert(self.err@ =~= head + failure_lines(report.invocations@, 0));
        while k < report.invocations.len()
            invariant
                k <= report.invocations@.len(),
                (self.out, self.ansi) == keep,
                self.err@ == head + failure_lines(report.invocations@, k as nat),
            decreases report.invocations@.len() - k,
        {
            let i = &report.invocations[k];
            if i.exit_code != 0 {
                let mut line = "  ✗ ".to_owned();
                line.append(i.phase.as_str());
                line.append(" :: ");
                line.append(i.mojo.as_str());
                line.append(" (exit=");
                line.append(text::dec_i64(i.exit_code as i64).as_str());
                line.append(") — ");
                if i.failure_message.as_str().is_empty() {
                    line.append(i.status.as_str());
                } else {
                    line.append(i.failure_message.as_str());
                }
                line.append("\n");
                let ghost before = failure_lines(report.invocations@, k as nat);
                assert(line@ == failure_line(*i));
                self.err.append(line.as_str());
                assert(self.err@ =~= head + (before + line@));
            }
            k = k + 1;
        }
    }

    /// Reports an error.
    pub fn render_error(&mut self, message: &str)
        ensures
            final(self).out == old(self).out,
            final(self).ansi == old(self).ansi,
            final(self).err@ == old(self).err@ + "error: "@ + message@ + "\n"@,
    {
        self.err.append("error: ");
        self.err.append(message);
        self.err.append("\n");
    }
}

/// The line of a node names its coordinates, its version and, in brackets, its scope.
pub proof fn line_names_coordinates_version_and_scope(n: NodeModel)
    ensures
        node_line(n) == n.coords + seq![':'] + n.version + seq![' ', ' ', '['] + n.scope + seq![
            ']',
        ],
{
    reveal_strlit(":");
    reveal_strlit("  [");
    reveal_strlit("]");
    assert(":"@ =~= seq![':']);
    assert("  ["@ =~= seq![' ', ' ', '[']);
    assert("]"@ =~= seq![']']);
}

/// The last child of a node closes its branch and leaves no line behind; every other one lets
/// the branch go on. All marks are equally wide.
pub proof fn last_child_closes_its_branch()
    ensures
        connector(true) == seq!['└', '─', '─', ' '],
        connector(false) == seq!['├', '─', '─', ' '],
        continuation(true) == seq![' ', ' ', ' ', ' '],
        continuation(false) == seq!['│', ' ', ' ', ' '],
{
    reveal_strlit("└── ");
    reveal_strlit("├── ");
    reveal_strlit("    ");
    reveal_strlit("│   ");
    assert("└── "@ =~= seq!['└', '─', '─', ' ']);
    assert("├── "@ =~= seq!['├', '─', '─', ' ']);
    assert("    "@ =~= seq![' ', ' ', ' ', ' ']);
    assert("│   "@ =~= seq!['│', ' ', ' ', ' ']);
}

/// The children of a path are taken in the order of the report, and none is passed over.
pub proof fn children_come_in_their_order(ns: Seq<NodeModel>, path: Seq<Seq<char>>, from: nat)
    ensures
        next_child(ns, path, from) matches Some(j) ==> {
            &&& from <= j < ns.len()
            &&& ns[j as int].from_path == path
            &&& forall|i: int| from <= i < j ==> (#[trigger] ns[i]).from_path != path
        },
        next_child(ns, path, from) is None ==> forall|i: int|
            from <= i < ns.len() ==> (#[trigger] ns[i]).from_path != path,
    decreases ns.len() - from,
{
    if from < ns.len() && ns[from as int].from_path != path {
        children_come_in_their_order(ns, path, from + 1);
    }
}

/// What lies below a path is the line of its first child, what lies below that one, set in
/// further, and then the other children; the child is marked as the last one exactly where
/// no other follows.
pub proof fn children_stand_below_their_parent(
    ns: Seq<NodeModel>,
    path: Seq<Seq<char>>,
    indent: Seq<char>,
    j: nat,
)
    requires
        j < ns.len(),
        ns[j as int].from_path == path,
    ensures
        ({
            let other = exists|i: int| j < i < ns.len() && (#[trigger] ns[i]).from_path == path;
            let below = path + seq![ns[j as int].coords];
            let rest = subtree(ns, path, indent, j + 1);
            &&& other ==> subtree(ns, path, indent, j) == indent + seq!['├', '─', '─', ' ']
                + node_line(ns[j as int]) + seq!['\n'] + subtree(
                ns,
                below,
                indent + seq!['│', ' ', ' ', ' '],
                0,
            ) + rest
            &&& !other ==> subtree(ns, path, indent, j) == indent + seq!['└', '─', '─', ' ']
                + node_line(ns[j as int]) + seq!['\n'] + subtree(
                ns,
                below,
                indent + seq![' ', ' ', ' ', ' '],
                0,
            ) && rest.len() == 0
        }),
{
    reveal_strlit("\n");
    assert("\n"@ =~= seq!['\n']);
    last_child_closes_its_branch();
    children_come_in_their_order(ns, path, j);
    children_come_in_their_order(ns, path, j + 1);
    depth_is_bounded(ns, j as int);
    assert(next_child(ns, path, j) == Some(j));
    let n = ns[j as int];
    assert(path.push(n.coords) =~= path + seq![n.coords]);
    let rest = subtree(ns, path, indent, j + 1);
    if next_child(ns, path, j + 1) is None {
        assert(rest =~= Seq::empty());
        let body = indent + connector(true) + node_line(n) + "\n"@ + subtree(
            ns,
            path.push(n.coords),
            indent + continuation(true),
            0,
        );
        assert(body + rest =~= body);
    } else {
        let i = next_child(ns, path, j + 1)->0;
        assert(ns[i as int].from_path == path);
    }
}

/// The orphans are the nodes whose parent is not in the report, in their order.
pub proof fn orphans_have_no_parent(ns: Seq<NodeModel>, m: nat)
    requires
        m <= ns.len(),
    ensures
        forall|k: int|
            0 <= k < orphans(ns, m).len() ==> {
                let i = #[trigger] orphans(ns, m)[k];
                &&& 0 <= i < m
                &&& ns[i].from_path.len() > 0
                &&& forall|j: int|
                    0 <= j < ns.len() ==> (#[trigger] ns[j]).from_path + seq![ns[j].coords]
                        != ns[i].from_path
            },
        forall|k: int, l: int|
            0 <= k < l < orphans(ns, m).len() ==> #[trigger] orphans(ns, m)[k]
                < #[trigger] orphans(ns, m)[l],
    decreases m,
{
    if m > 0 {
        orphans_have_no_parent(ns, (m - 1) as nat);
        let os = orphans(ns, m);
        assert forall|k: int| 0 <= k < os.len() implies {
            let i = #[trigger] os[k];
            &&& 0 <= i < m
            &&& ns[i].from_path.len() > 0
            &&& forall|j: int|
                0 <= j < ns.len() ==> (#[trigger] ns[j]).from_path + seq![ns[j].coords]
                    != ns[i].from_path
        } by {
            let before = orphans(ns, (m - 1) as nat);
            if k < before.len() {
                assert(os[k] == before[k]);
            } else {
                assert(is_orphan(ns, m - 1));
                assert forall|j: int| 0 <= j < ns.len() implies (#[trigger] ns[j]).from_path
                    + seq![ns[j].coords] != ns[m - 1].from_path by {
                    assert(ns[j].from_path.push(ns[j].coords) =~= ns[j].from_path + seq![
                        ns[j].coords,
                    ]);
                }
            }
        }
    }
}

/// Every module of the report has its line, with its coordinates and its version.
pub proof fn every_module_has_its_line(r: GrindTreeReport, i: int)
    requires
        0 <= i < r.reactor@.len(),
    ensures
        contains_text(tree_text(r), r.reactor@[i].coords@ + ":"@ + r.reactor@[i].version@ + "\n"@),
{
    let k = r.reactor@.len();
    let line = r.reactor@[i].coords@ + ":"@ + r.reactor@[i].version@ + "\n"@;
    module_is_shown(r, k, i);
    let roots = root_lines(r, k);
    let ns = nodes_of(r.nodes@);
    let os = orphans(ns, ns.len());
    let tail = if os.len() == 0 {
        Seq::empty()
    } else {
        "\n(orphan transitives)\n"@ + orphan_lines(ns, os, os.len())
    };
    assert(tree_text(r) =~= Seq::empty() + roots + tail);
    middle_is_contained(Seq::empty(), roots, tail);
    containment_chains(tree_text(r), roots, line);
}

proof fn module_is_shown(r: GrindTreeReport, k: nat, i: int)
    requires
        0 <= i < k <= r.reactor@.len(),
    ensures
        contains_text(
            root_lines(r, k),
            r.reactor@[i].coords@ + ":"@ + r.reactor@[i].version@ + "\n"@,
        ),
    decreases k,
{
    let m = r.reactor@[k - 1];
    let line = m.coords@ + ":"@ + m.version@ + "\n"@;
    let before = root_lines(r, (k - 1) as nat);
    let tail = (if k == 1 {
        subtree(nodes_of(r.nodes@), Seq::empty(), Seq::empty(), 0)
    } else {
        Seq::empty()
    }) + (if k < r.reactor@.len() {
        "\n"@
    } else {
        Seq::empty()
    });
    assert(root_lines(r, k) =~= before + line + tail);
    middle_is_contained(before, line, tail);
    if i < k - 1 {
        module_is_shown(r, (k - 1) as nat, i);
        assert(root_lines(r, k) =~= Seq::empty() + before + (line + tail));
        middle_is_contained(Seq::empty(), before, line + tail);
        containment_chains(
            root_lines(r, k),
            before,
            r.reactor@[i].coords@ + ":"@ + r.reactor@[i].version@ + "\n"@,
        );
    }
}

/// Every invocation that failed is told, with its phase, its goal, its exit code and what it
/// said.
pub proof fn every_failure_is_told(is: Seq<MojoInvocation>, k: nat, i: int)
    requires
        0 <= i < k <= is.len(),
        is[i].exit_code != 0,
    ensures
        contains_text(
            failure_lines(is, k),
            "  ✗ "@ + is[i].phase@ + " :: "@ + is[i].mojo@ + " (exit="@ + text::signed_dec(
                is[i].exit_code as int,
            ) + ") — "@ + (if is[i].failure_message@.len() > 0 {
                is[i].failure_message@
            } else {
                is[i].status@
            }) + "\n"@,
        ),
    decreases k,
{
    let before = failure_lines(is, (k - 1) as nat);
    let all = failure_lines(is, k);
    if i == k - 1 {
        assert(all =~= before + failure_line(is[i]) + Seq::empty());
        middle_is_contained(before, failure_line(is[i]), Seq::empty());
    } else {
        every_failure_is_told(is, (k - 1) as nat, i);
        if is[k - 1].exit_code != 0 {
            assert(all =~= Seq::empty() + before + failure_line(is[k - 1]));
            middle_is_contained(Seq::empty(), before, failure_line(is[k - 1]));
            containment_chains(all, before, failure_line(is[i]));
        }
    }
}

/// Where nothing failed, no failure is told.
pub proof fn success_tells_no_failure(is: Seq<MojoInvocation>, k: nat)
    requires
        k <= is.len(),
        forall|i: int| 0 <= i < k ==> (#[trigger] is[i]).exit_code == 0,
    ensures
        failure_lines(is, k).len() == 0,
    decreases k,
{
    if k > 0 {
        assert(is[k - 1].exit_code == 0);
        success_tells_no_failure(is, (k - 1) as nat);
    }
}

/// What is said of a node is said of what it holds.
pub proof fn models_are_of_their_nodes(n: TreeNode, i: int)
    ensures
        n@.coords == n.coords@,
        n@.version == n.version@,
        n@.scope == n.scope@,
        n@.from_path.len() == n.from_path@.len(),
        0 <= i < n.from_path@.len() ==> n@.from_path[i] == n.from_path@[i]@,
{
}

} // verus!
