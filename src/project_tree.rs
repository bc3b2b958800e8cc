//! A directory tree of a project, built from relative paths and rendered as text lines.
use vstd::prelude::*;

use crate::text::{chars_of, eq_chars, join_slash, nonempty_parts, path_parts, string_of, views};

verus! {

#[derive(Clone, Copy, Debug, PartialEq, Eq, Structural)]
pub enum NodeKind {
    Dir,
    File,
}

/// A node of the tree. The children of a node are kept in display order: directories
/// before files, each group by name.
pub struct Node {
    pub name: String,
    pub kind: NodeKind,
    pub children: Vec<Node>,
}

impl Node {
    pub fn dir() -> (r: Node)
        ensures
            r.kind == NodeKind::Dir,
            r.children@.len() == 0,
    {
        Node { name: String::new(), kind: NodeKind::Dir, children: Vec::new() }
    }

    pub fn file() -> (r: Node)
        ensures
            r.kind == NodeKind::File,
            r.children@.len() == 0,
    {
        Node { name: String::new(), kind: NodeKind::File, children: Vec::new() }
    }
}

pub open spec fn kind_rank(k: NodeKind) -> int {
    match k {
        NodeKind::Dir => 0,
        NodeKind::File => 1,
    }
}

/// Lexicographic order of character sequences, by code point.
pub open spec fn lex_lt(a: Seq<char>, b: Seq<char>) -> bool
    decreases a.len(),
{
    if a.len() == 0 {
        b.len() > 0
    } else if b.len() == 0 {
        false
    } else if a[0] != b[0] {
        a[0] < b[0]
    } else {
        lex_lt(a.drop_first(), b.drop_first())
    }
}

pub proof fn lemma_lex_total(a: Seq<char>, b: Seq<char>)
    ensures
        a != b ==> lex_lt(a, b) || lex_lt(b, a),
        !(lex_lt(a, b) && lex_lt(b, a)),
        !lex_lt(a, a),
    decreases a.len(),
{
    if a.len() == 0 && b.len() == 0 {
        assert(a =~= b);
    }
    if a.len() > 0 && b.len() > 0 && a[0] == b[0] {
        lemma_lex_total(a.drop_first(), b.drop_first());
        if a != b {
            assert(a =~= seq![a[0]] + a.drop_first());
            assert(b =~= seq![b[0]] + b.drop_first());
            if a.drop_first() == b.drop_first() {
                assert(a =~= b);
            }
        }
    }
    if a.len() > 0 {
        lemma_lex_total(a.drop_first(), a.drop_first());
    }
}

pub proof fn lemma_lex_trans(a: Seq<char>, b: Seq<char>, c: Seq<char>)
    requires
        lex_lt(a, b),
        lex_lt(b, c),
    ensures
        lex_lt(a, c),
    decreases a.len(),
{
    if a.len() > 0 && b.len() > 0 && c.len() > 0 && a[0] == b[0] && b[0] == c[0] {
        lemma_lex_trans(a.drop_first(), b.drop_first(), c.drop_first());
    }
}

/// Whether `a` comes before `b` in display order.
pub open spec fn shown_before(ka: NodeKind, a: Seq<char>, kb: NodeKind, b: Seq<char>) -> bool {
    kind_rank(ka) < kind_rank(kb) || (ka == kb && lex_lt(a, b))
}

/// The children are in display order and their names are distinct.
pub open spec fn children_ordered(cs: Seq<Node>) -> bool {
    &&& forall|a: int, b: int| 0 <= a < b < cs.len() ==> shown_before(cs[a].kind, cs[a].name@, cs[b].kind, cs[b].name@)
    &&& forall|a: int, b: int| 0 <= a < b < cs.len() ==> cs[a].name@ != cs[b].name@
}

pub fn lex_less(a: &Vec<char>, b: &Vec<char>) -> (r: bool)
    ensures
        r == lex_lt(a@, b@),
{
    let mut i: usize = 0;
    assert(a@.skip(0) =~= a@);
    assert(b@.skip(0) =~= b@);
    while i < a.len() && i < b.len() && a[i] == b[i]
        invariant
            i <= a@.len(),
            i <= b@.len(),
            lex_lt(a@, b@) == lex_lt(a@.skip(i as int), b@.skip(i as int)),
        decreases a@.len() - i,
    {
        assert(a@.skip(i as int).drop_first() =~= a@.skip(i + 1));
        assert(b@.skip(i as int).drop_first() =~= b@.skip(i + 1));
        i += 1;
    }
    if i == a.len() {
        i < b.len()
    } else if i == b.len() {
        false
    } else {
        assert(a@.skip(i as int)[0] == a@[i as int]);
        assert(b@.skip(i as int)[0] == b@[i as int]);
        a[i] < b[i]
    }
}

fn before_exec(ka: NodeKind, a: &Vec<char>, kb: NodeKind, b: &Vec<char>) -> (r: bool)
    ensures
        r == shown_before(ka, a@, kb, b@),
{
    let ra: u8 = match ka {
        NodeKind::Dir => 0,
        NodeKind::File => 1,
    };
    let rb: u8 = match kb {
        NodeKind::Dir => 0,
        NodeKind::File => 1,
    };
    ra < rb || (ra == rb && lex_less(a, b))
}

/// Index of the child named `name`, if any.
fn find_child(cs: &Vec<Node>, name: &Vec<char>) -> (r: Option<usize>)
    ensures
        match r {
            Some(k) => k < cs@.len() && cs@[k as int].name@ == name@,
            None => forall|k: int| 0 <= k < cs@.len() ==> cs@[k].name@ != name@,
        },
{
    let mut k: usize = 0;
    while k < cs.len()
        invariant
            k <= cs@.len(),
            forall|j: int| 0 <= j < k ==> cs@[j].name@ != name@,
        decreases cs@.len() - k,
    {
        if eq_chars(&chars_of(cs[k].name.as_str()), name) {
            return Some(k);
        }
        k += 1;
    }
    None
}

proof fn lemma_insert_keeps_order(old_cs: Seq<Node>, p: int, c: Node)
    requires
        children_ordered(old_cs),
        0 <= p <= old_cs.len(),
        forall|k: int| 0 <= k < old_cs.len() ==> old_cs[k].name@ != c.name@,
        forall|j: int| 0 <= j < p ==> shown_before(old_cs[j].kind, old_cs[j].name@, c.kind, c.name@),
        p < old_cs.len() ==> shown_before(c.kind, c.name@, old_cs[p].kind, old_cs[p].name@),
    ensures
        children_ordered(old_cs.insert(p, c)),
{
    let cs = old_cs.insert(p, c);
    old_cs.insert_ensures(p, c);
    assert forall|a: int, b: int| 0 <= a < b < cs.len() implies cs[a].name@ != cs[b].name@ by {
        if b < p {
        } else if b == p {
        } else if a < p {
            assert(cs[b] == old_cs[b - 1]);
        } else if a == p {
            assert(cs[b] == old_cs[b - 1]);
        } else {
            assert(cs[a] == old_cs[a - 1]);
            assert(cs[b] == old_cs[b - 1]);
        }
    }
    assert forall|a: int, b: int| 0 <= a < b < cs.len() implies shown_before(
        cs[a].kind,
        cs[a].name@,
        cs[b].kind,
        cs[b].name@,
    ) by {
        if b < p {
        } else if b == p {
        } else if a < p {
            assert(cs[b] == old_cs[b - 1]);
            proof_trans2(cs[a], c, old_cs[p]);
            if p < b - 1 {
                proof_trans2(cs[a], old_cs[p], old_cs[b - 1]);
            }
        } else if a == p {
            assert(cs[b] == old_cs[b - 1]);
            if p < b - 1 {
                proof_trans2(c, old_cs[p], old_cs[b - 1]);
            }
        } else {
            assert(cs[a] == old_cs[a - 1]);
            assert(cs[b] == old_cs[b - 1]);
        }
    }
}

/// Places `child` among ordered children whose names all differ from its own.
fn insert_ordered(cs: &mut Vec<Node>, child: Node)
    requires
        children_ordered(old(cs)@),
        forall|k: int| 0 <= k < old(cs)@.len() ==> old(cs)@[k].name@ != child.name@,
    ensures
        children_ordered(final(cs)@),
        final(cs)@.len() == old(cs)@.len() + 1,
        exists|p: int| 0 <= p <= old(cs)@.len() && final(cs)@ == old(cs)@.insert(p, child),
{
    let name = chars_of(child.name.as_str());
    let mut p: usize = 0;
    let mut stop = false;
    while p < cs.len() && !stop
        invariant
            p <= cs@.len(),
            cs@ == old(cs)@,
            name@ == child.name@,
            forall|k: int| 0 <= k < old(cs)@.len() ==> old(cs)@[k].name@ != child.name@,
            forall|j: int| 0 <= j < p ==> shown_before(cs@[j].kind, cs@[j].name@, child.kind, child.name@),
            stop ==> p < cs@.len() && shown_before(child.kind, child.name@, cs@[p as int].kind, cs@[p as int].name@),
        decreases cs@.len() - p, if stop { 0int } else { 1int },
    {
        let other = chars_of(cs[p].name.as_str());
        if before_exec(child.kind, &name, cs[p].kind, &other) {
            stop = true;
        } else {
            proof {
                assert(cs@[p as int].name@ != child.name@);
                lemma_lex_total(cs@[p as int].name@, child.name@);
            }
            p += 1;
        }
    }
    let ghost old_cs = cs@;
    let ghost c = child;
    proof {
        old_cs.insert_ensures(p as int, c);
        lemma_insert_keeps_order(old_cs, p as int, c);
    }
    cs.insert(p, child);
}

/// Every child after an ordered insertion is the inserted one or one of before.
proof fn lemma_insert_members(old_cs: Seq<Node>, p: int, c: Node)
    requires
        0 <= p <= old_cs.len(),
    ensures
        forall|j: int| 0 <= j < old_cs.insert(p, c).len() ==> old_cs.insert(p, c)[j] == c || old_cs.contains(
            #[trigger] old_cs.insert(p, c)[j],
        ),
        old_cs.insert(p, c)[p] == c,
{
    old_cs.insert_ensures(p, c);
    assert forall|j: int| 0 <= j < old_cs.insert(p, c).len() implies old_cs.insert(p, c)[j] == c
        || old_cs.contains(#[trigger] old_cs.insert(p, c)[j]) by {
        if j < p {
            assert(old_cs.insert(p, c)[j] == old_cs[j]);
        } else if j > p {
            assert(old_cs.insert(p, c)[j] == old_cs[j - 1]);
        }
    }
}

proof fn proof_trans2(x: Node, y: Node, z: Node)
    requires
        shown_before(x.kind, x.name@, y.kind, y.name@),
        shown_before(y.kind, y.name@, z.kind, z.name@),
    ensures
        shown_before(x.kind, x.name@, z.kind, z.name@),
{
    if x.kind == y.kind && y.kind == z.kind {
        lemma_lex_trans(x.name@, y.name@, z.name@);
    }
}

} // verus!

verus! {

/// Every node of the tree keeps its children in display order, with distinct names.
pub open spec fn tree_ordered(n: Node) -> bool
    decreases n,
{
    children_ordered(n.children@) && subtrees_ordered(n.children@, n.children@.len() as int, n)
}

/// The first `i` children of `parent` (given as `cs`) satisfy `tree_ordered`.
pub open spec fn subtrees_ordered(cs: Seq<Node>, i: int, parent: Node) -> bool
    decreases parent, i,
{
    if i <= 0 || i > cs.len() || cs != parent.children@ {
        true
    } else {
        subtrees_ordered(cs, i - 1, parent) && tree_ordered(cs[i - 1])
    }
}

proof fn lemma_subtrees_index(cs: Seq<Node>, i: int, parent: Node, k: int)
    requires
        cs == parent.children@,
        i <= cs.len(),
        subtrees_ordered(cs, i, parent),
        0 <= k < i,
    ensures
        tree_ordered(cs[k]),
    decreases i,
{
    if k < i - 1 {
        lemma_subtrees_index(cs, i - 1, parent, k);
    }
}

proof fn lemma_subtrees_from_all(cs: Seq<Node>, i: int, parent: Node)
    requires
        cs == parent.children@,
        i <= cs.len(),
        forall|k: int| 0 <= k < cs.len() ==> #[trigger] tree_ordered(cs[k]),
    ensures
        subtrees_ordered(cs, i, parent),
    decreases i,
{
    if i > 0 {
        lemma_subtrees_from_all(cs, i - 1, parent);
        assert(tree_ordered(cs[i - 1]));
        assert(subtrees_ordered(cs, i - 1, parent));
    }
}

/// A node is ordered when its children are ordered and each child is.
proof fn lemma_tree_ordered_intro(n: Node)
    requires
        children_ordered(n.children@),
        forall|k: int| 0 <= k < n.children@.len() ==> #[trigger] tree_ordered(n.children@[k]),
    ensures
        tree_ordered(n),
{
    lemma_subtrees_from_all(n.children@, n.children@.len() as int, n);
}

proof fn lemma_child_ordered(n: Node, k: int)
    requires
        tree_ordered(n),
        0 <= k < n.children@.len(),
    ensures
        tree_ordered(n.children@[k]),
{
    lemma_subtrees_index(n.children@, n.children@.len() as int, n, k);
}

proof fn lemma_remove_keeps_order(cs: Seq<Node>, k: int)
    requires
        children_ordered(cs),
        0 <= k < cs.len(),
    ensures
        children_ordered(cs.remove(k)),
        forall|j: int| 0 <= j < cs.remove(k).len() ==> cs.contains(#[trigger] cs.remove(k)[j]),
        forall|j: int| 0 <= j < cs.remove(k).len() ==> cs.remove(k)[j].name@ != cs[k].name@,
{
    let r = cs.remove(k);
    cs.remove_ensures(k);
    assert forall|a: int, b: int| 0 <= a < b < r.len() implies shown_before(
        r[a].kind,
        r[a].name@,
        r[b].kind,
        r[b].name@,
    ) && r[a].name@ != r[b].name@ by {
        let a0 = if a < k { a } else { a + 1 };
        let b0 = if b < k { b } else { b + 1 };
        assert(r[a] == cs[a0]);
        assert(r[b] == cs[b0]);
    }
    assert forall|j: int| 0 <= j < r.len() implies cs.contains(#[trigger] r[j]) && r[j].name@ != cs[k].name@ by {
        let j0 = if j < k { j } else { j + 1 };
        assert(r[j] == cs[j0]);
    }
}

/// Adds the path `parts[i..]` under `node`; the last part gets `kind`, the others are
/// directories, and a file on the way becomes a directory.
fn insert_parts(node: &mut Node, parts: &Vec<Vec<char>>, i: usize, kind: NodeKind)
    requires
        i <= parts@.len(),
        tree_ordered(*old(node)),
    ensures
        tree_ordered(*final(node)),
        final(node).name == old(node).name,
        final(node).kind == old(node).kind,
        i < parts@.len() ==> exists|k: int|
            0 <= k < final(node).children@.len() && #[trigger] final(node).children@[k].name@ == parts@[i as int]@,
    decreases parts@.len() - i,
{
    if i >= parts.len() {
        return;
    }
    let next_kind = if i + 1 == parts.len() {
        kind
    } else {
        NodeKind::Dir
    };
    let ghost old_cs = node.children@;
    proof {
        assert(children_ordered(old_cs));
        assert forall|j: int| 0 <= j < old_cs.len() implies #[trigger] tree_ordered(old_cs[j]) by {
            lemma_child_ordered(*old(node), j);
        }
    }
    match find_child(&node.children, &parts[i]) {
        Some(k) => {
            proof {
                lemma_remove_keeps_order(old_cs, k as int);
                assert(tree_ordered(old_cs[k as int]));
            }
            let mut child = node.children.remove(k);
            if child.kind == NodeKind::File && next_kind == NodeKind::Dir {
                let ghost before = child;
                child.kind = NodeKind::Dir;
                proof {
                    assert forall|j: int| 0 <= j < child.children@.len() implies #[trigger] tree_ordered(
                        child.children@[j],
                    ) by {
                        lemma_child_ordered(before, j);
                    }
                    lemma_tree_ordered_intro(child);
                }
            }
            insert_parts(&mut child, parts, i + 1, kind);
            let ghost rest = node.children@;
            let ghost c = child;
            insert_ordered(&mut node.children, child);
            proof {
                let p = choose|p: int| 0 <= p <= rest.len() && node.children@ == rest.insert(p, c);
                lemma_insert_members(rest, p, c);
                assert forall|j: int| 0 <= j < node.children@.len() implies #[trigger] tree_ordered(
                    node.children@[j],
                ) by {
                    if node.children@[j] != c {
                        assert(rest.contains(node.children@[j]));
                        let m = choose|m: int| 0 <= m < rest.len() && rest[m] == node.children@[j];
                        assert(old_cs.contains(rest[m]));
                    }
                }
                lemma_tree_ordered_intro(*node);
                assert(node.children@[p].name@ == parts@[i as int]@);
            }
        },
        None => {
            let mut child = Node { name: string_of(&parts[i]), kind: next_kind, children: Vec::new() };
            assert(children_ordered(child.children@));
            proof {
                lemma_tree_ordered_intro(child);
            }
            insert_parts(&mut child, parts, i + 1, kind);
            let ghost c = child;
            insert_ordered(&mut node.children, child);
            proof {
                let p = choose|p: int| 0 <= p <= old_cs.len() && node.children@ == old_cs.insert(p, c);
                lemma_insert_members(old_cs, p, c);
                assert forall|j: int| 0 <= j < node.children@.len() implies #[trigger] tree_ordered(
                    node.children@[j],
                ) by {
                    if node.children@[j] != c {
                        assert(old_cs.contains(node.children@[j]));
                    }
                }
                lemma_tree_ordered_intro(*node);
                assert(node.children@[p].name@ == parts@[i as int]@);
            }
        },
    }
}

} // verus!

verus! {

/// Adds a slash-separated path to the tree: its last piece gets `kind`, the pieces before
/// it are directories (a file met on the way becomes a directory), and empty pieces are
/// skipped.
pub fn insert_posix_path(tree: &mut Node, posix: &str, kind: NodeKind)
    requires
        tree_ordered(*old(tree)),
    ensures
        tree_ordered(*final(tree)),
        final(tree).kind == old(tree).kind,
        path_parts(posix@).len() > 0 ==> exists|k: int|
            0 <= k < final(tree).children@.len() && #[trigger] final(tree).children@[k].name@
                == path_parts(posix@)[0],
{
    let parts = nonempty_parts(posix);
    insert_parts(tree, &parts, 0, kind);
    assert(path_parts(posix@).len() > 0 ==> views(parts@)[0] == parts@[0]@);
}

} // verus!

verus! {

/// Directories strictly below `n`.
pub open spec fn dirs_in(n: Node) -> nat
    decreases n,
{
    dirs_from(n.children@, n.children@.len() as int, n)
}

/// Directories among and below the first `i` children of `parent` (given as `cs`).
pub open spec fn dirs_from(cs: Seq<Node>, i: int, parent: Node) -> nat
    decreases parent, i,
{
    if i <= 0 || i > cs.len() || cs != parent.children@ {
        0
    } else {
        dirs_from(cs, i - 1, parent) + (if cs[i - 1].kind == NodeKind::Dir { 1nat } else { 0nat })
            + dirs_in(cs[i - 1])
    }
}

/// Files strictly below `n`.
pub open spec fn files_in(n: Node) -> nat
    decreases n,
{
    files_from(n.children@, n.children@.len() as int, n)
}

/// Files among and below the first `i` children of `parent` (given as `cs`).
pub open spec fn files_from(cs: Seq<Node>, i: int, parent: Node) -> nat
    decreases parent, i,
{
    if i <= 0 || i > cs.len() || cs != parent.children@ {
        0
    } else {
        files_from(cs, i - 1, parent) + (if cs[i - 1].kind == NodeKind::File { 1nat } else { 0nat })
            + files_in(cs[i - 1])
    }
}

/// `x`, or the largest `usize` when `x` is larger.
pub open spec fn cap_usize(x: nat) -> nat {
    if x > usize::MAX { usize::MAX as nat } else { x }
}

/// Counts the directories and the files below `node` (each count stops at the largest
/// `usize`).
pub fn count_nodes(node: &Node) -> (r: (usize, usize))
    ensures
        r.0 == cap_usize(dirs_in(*node)),
        r.1 == cap_usize(files_in(*node)),
    decreases node,
{
    let mut dir_count: usize = 0;
    let mut file_count: usize = 0;
    let ghost cs = node.children@;
    let mut k: usize = 0;
    while k < node.children.len()
        invariant
            cs == node.children@,
            k <= cs.len(),
            dir_count == cap_usize(dirs_from(cs, k as int, *node)),
            file_count == cap_usize(files_from(cs, k as int, *node)),
        decreases cs.len() - k,
    {
        let child = &node.children[k];
        let (d, f) = count_nodes(child);
        match child.kind {
            NodeKind::Dir => dir_count = dir_count.saturating_add(1),
            NodeKind::File => file_count = file_count.saturating_add(1),
        }
        dir_count = dir_count.saturating_add(d);
        file_count = file_count.saturating_add(f);
        k += 1;
    }
    (dir_count, file_count)
}

} // verus!

verus! {

/// The line of one child: the branch drawing, a directory or file tag, and the child's
/// full relative path (with a trailing slash for a directory).
pub open spec fn child_line(prefix: Seq<char>, is_last: bool, stack: Seq<Seq<char>>, c: Node) -> Seq<char> {
    prefix + (if is_last { "└── "@ } else { "├── "@ }) + (if c.kind == NodeKind::Dir {
        "[D] "@
    } else {
        "[F] "@
    }) + join_slash(stack.push(c.name@)) + (if c.kind == NodeKind::Dir { "/"@ } else { Seq::empty() })
}

/// The lines drawn for the children of `n`, depth first, with `prefix` before each and
/// `stack` the path of `n`.
pub open spec fn render_lines(n: Node, prefix: Seq<char>, stack: Seq<Seq<char>>) -> Seq<Seq<char>>
    decreases n,
{
    render_from(n.children@, n.children@.len() as int, n, prefix, stack)
}

/// The lines of the first `i` children of `parent` (given as `cs`).
pub open spec fn render_from(
    cs: Seq<Node>,
    i: int,
    parent: Node,
    prefix: Seq<char>,
    stack: Seq<Seq<char>>,
) -> Seq<Seq<char>>
    decreases parent, i,
{
    if i <= 0 || i > cs.len() || cs != parent.children@ {
        Seq::empty()
    } else {
        let c = cs[i - 1];
        let is_last = i == cs.len();
        render_from(cs, i - 1, parent, prefix, stack).push(child_line(prefix, is_last, stack, c)) + (
        if c.kind == NodeKind::Dir {
            render_lines(c, prefix + (if is_last { "    "@ } else { "│   "@ }), stack.push(c.name@))
        } else {
            Seq::empty()
        })
    }
}

fn join_stack(stack: &Vec<String>) -> (r: String)
    ensures
        r@ == join_slash(crate::classify::string_views(stack@)),
{
    let ghost sv = crate::classify::string_views(stack@);
    let mut out = String::new();
    let mut i: usize = 0;
    while i < stack.len()
        invariant
            i <= stack@.len(),
            sv == crate::classify::string_views(stack@),
            out@ == join_slash(sv.subrange(0, i as int)),
        decreases stack@.len() - i,
    {
        assert(sv.subrange(0, i + 1).drop_last() =~= sv.subrange(0, i as int));
        if i > 0 {
            out.append("/");
        } else {
            assert(out@ =~= Seq::<char>::empty());
        }
        out.append(stack[i].as_str());
        i += 1;
    }
    assert(sv.subrange(0, sv.len() as int) =~= sv);
    out
}

/// Appends the lines drawn for the children of `node` to `lines`; `path_stack` holds the
/// path of `node` and is left as it was.
pub fn render_children(node: &Node, prefix: &str, path_stack: &mut Vec<String>, lines: &mut Vec<String>)
    ensures
        final(path_stack)@ == old(path_stack)@,
        crate::classify::string_views(final(lines)@) == crate::classify::string_views(old(lines)@)
            + render_lines(*node, prefix@, crate::classify::string_views(old(path_stack)@)),
    decreases node,
{
    let ghost cs = node.children@;
    let ghost stack0 = path_stack@;
    let ghost sv = crate::classify::string_views(stack0);
    let ghost lines0 = crate::classify::string_views(lines@);
    let n = node.children.len();
    let mut k: usize = 0;
    while k < n
        invariant
            cs == node.children@,
            n == cs.len(),
            k <= n,
            path_stack@ == stack0,
            sv == crate::classify::string_views(stack0),
            crate::classify::string_views(lines@) == lines0 + render_from(cs, k as int, *node, prefix@, sv),
        decreases n - k,
    {
        let child = &node.children[k];
        let is_last = k + 1 == n;
        path_stack.push(child.name.clone());
        assert(crate::classify::string_views(path_stack@) =~= sv.push(child.name@));
        let mut line = String::from_str(prefix);
        if is_last {
            line.append("└── ");
        } else {
            line.append("├── ");
        }
        match child.kind {
            NodeKind::Dir => line.append("[D] "),
            NodeKind::File => line.append("[F] "),
        }
        let joined = join_stack(path_stack);
        line.append(joined.as_str());
        match child.kind {
            NodeKind::Dir => line.append("/"),
            NodeKind::File => {},
        }
        assert(line@ =~= child_line(prefix@, is_last, sv, *child));
        let ghost before = crate::classify::string_views(lines@);
        lines.push(line);
        assert(crate::classify::string_views(lines@) =~= before.push(child_line(prefix@, is_last, sv, *child)));
        if child.kind == NodeKind::Dir {
            let mut next_prefix = String::from_str(prefix);
            if is_last {
                next_prefix.append("    ");
            } else {
                next_prefix.append("│   ");
            }
            render_children(child, next_prefix.as_str(), path_stack, lines);
        }
        let _ = path_stack.pop();
        assert(path_stack@ =~= stack0);
        k += 1;
        assert(crate::classify::string_views(lines@) =~= lines0 + render_from(cs, k as int, *node, prefix@, sv));
    }
}

} // verus!

verus! {

/// The pieces joined with newlines.
pub open spec fn join_lines(parts: Seq<Seq<char>>) -> Seq<char>
    decreases parts.len(),
{
    if parts.len() == 0 {
        Seq::empty()
    } else if parts.len() == 1 {
        parts[0]
    } else {
        join_lines(parts.drop_last()) + "\n"@ + parts.last()
    }
}

fn join_with_newlines(lines: &Vec<String>) -> (r: String)
    ensures
        r@ == join_lines(crate::classify::string_views(lines@)),
{
    let ghost sv = crate::classify::string_views(lines@);
    let mut out = String::new();
    let mut i: usize = 0;
    while i < lines.len()
        invariant
            i <= lines@.len(),
            sv == crate::classify::string_views(lines@),
            out@ == join_lines(sv.subrange(0, i as int)),
        decreases lines@.len() - i,
    {
        assert(sv.subrange(0, i + 1).drop_last() =~= sv.subrange(0, i as int));
        if i > 0 {
            out.append("\n");
        } else {
            assert(out@ =~= Seq::<char>::empty());
        }
        out.append(lines[i].as_str());
        i += 1;
    }
    assert(sv.subrange(0, sv.len() as int) =~= sv);
    out
}

/// A project tree drawn as text, with its counts.
pub struct ProjectTreeScanResult {
    pub tree: String,
    pub used_git: bool,
    pub file_count: usize,
    pub dir_count: usize,
}

/// An entry found in a project: its slash-separated relative path and whether it is a
/// directory or a file.
pub struct TreeEntry {
    pub path: String,
    pub kind: NodeKind,
}

/// Builds the tree of the given entries and draws it: a first line `[D] .` for the root,
/// then the lines of `render_children`.
pub fn scan_project_tree_blocking(entries: &Vec<TreeEntry>, used_git: bool) -> (r: ProjectTreeScanResult)
    ensures
        r.used_git == used_git,
        exists|tree: Node|
            #[trigger] tree_ordered(tree) && r.tree@ == join_lines(
                seq!["[D] ."@] + render_lines(tree, Seq::empty(), Seq::empty()),
            ) && r.dir_count == cap_usize(dirs_in(tree)) && r.file_count == cap_usize(files_in(tree)),
{
    let mut tree = Node::dir();
    proof {
        lemma_tree_ordered_intro(tree);
    }
    let mut i: usize = 0;
    while i < entries.len()
        invariant
            i <= entries@.len(),
            tree_ordered(tree),
        decreases entries@.len() - i,
    {
        insert_posix_path(&mut tree, entries[i].path.as_str(), entries[i].kind);
        i += 1;
    }
    let (dir_count, file_count) = count_nodes(&tree);
    let mut lines: Vec<String> = Vec::new();
    lines.push(String::from_str("[D] ."));
    let mut stack: Vec<String> = Vec::new();
    assert(crate::classify::string_views(stack@) =~= Seq::<Seq<char>>::empty());
    assert(crate::classify::string_views(lines@) =~= seq!["[D] ."@]);
    render_children(&tree, "", &mut stack, &mut lines);
    let text = join_with_newlines(&lines);
    proof {
        reveal_strlit("");
        assert(""@ =~= Seq::<char>::empty());
        assert(crate::classify::string_views(lines@) =~= seq!["[D] ."@] + render_lines(
            tree,
            Seq::empty(),
            Seq::empty(),
        ));
    }
    ProjectTreeScanResult { tree: text, used_git, file_count, dir_count }
}

} // verus!
