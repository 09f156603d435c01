//! Project tree and file utilities.
//!
//! A [`ProjectTree`] is a named node with ordered children. A node is found
//! from the root by a sequence of names: at each level the first child with
//! the wanted name is taken.

use vstd::prelude::*;
use crate::text::{owned, seq_ends_with, str_equal};
use super::{entry_point_files, spec_entry_point_files};

verus! {

/// A file of an extracted project.
#[derive(Debug, Clone)]
pub struct FileInfo {
    /// Path of the file inside the archive.
    pub relative_path: String,
    /// Where the file was written.
    pub absolute_path: String,
    /// Size of the content in bytes.
    pub size: u64,
    /// Lower-case hexadecimal SHA-256 digest of the content.
    pub content_hash: String,
    /// Whether the relative path ends in `.py`.
    pub is_python: bool,
}

/// A directory or file node of a project.
#[derive(Debug)]
pub struct ProjectTree {
    /// Name of this node (one path component).
    pub name: String,
    /// Child nodes, in insertion order.
    pub children: Vec<ProjectTree>,
    /// Whether this node is a file.
    pub is_file: bool,
    /// Full path of the node, where known.
    pub path: Option<String>,
}

/// The view of an optional string.
pub open spec fn opt_view(s: Option<String>) -> Option<Seq<char>> {
    match s {
        Some(s) => Some(s@),
        None => None,
    }
}

/// What a lookup reports of a node: whether it is a file, and its path.
pub type NodeAttrs = (bool, Option<Seq<char>>);

/// The attributes of a node.
pub open spec fn attrs(t: ProjectTree) -> NodeAttrs {
    (t.is_file, opt_view(t.path))
}

/// `i` is the position of the first child named `name`.
pub open spec fn is_first_named(children: Seq<ProjectTree>, name: Seq<char>, i: int) -> bool {
    &&& 0 <= i < children.len()
    &&& children[i].name@ == name
    &&& forall|j: int| 0 <= j < i ==> children[j].name@ != name
}

/// Some child is named `name`.
pub open spec fn has_named(children: Seq<ProjectTree>, name: Seq<char>) -> bool {
    exists|i: int| 0 <= i < children.len() && children[i].name@ == name
}

/// The node reached from `t` by following `names`, reported by its attributes.
pub open spec fn node_at(t: ProjectTree, names: Seq<Seq<char>>) -> Option<NodeAttrs>
    decreases names.len(),
{
    if names.len() == 0 {
        Some(attrs(t))
    } else if has_named(t.children@, names[0]) {
        let i = choose|i: int| is_first_named(t.children@, names[0], i);
        node_at(t.children@[i], names.drop_first())
    } else {
        None
    }
}

/// `q` is a proper prefix of `p`.
pub open spec fn is_proper_prefix(q: Seq<Seq<char>>, p: Seq<Seq<char>>) -> bool {
    q.len() < p.len() && p.take(q.len() as int) == q
}

/// What a lookup of `q` reports after the path `p` was added to a tree
/// whose lookups were `before`, for a node at `p` with the given full path.
pub open spec fn after_add(
    before: spec_fn(Seq<Seq<char>>) -> Option<NodeAttrs>,
    p: Seq<Seq<char>>,
    full_path: Seq<char>,
    is_file: bool,
    q: Seq<Seq<char>>,
) -> Option<NodeAttrs> {
    if q == p {
        match before(q) {
            Some(a) => Some((a.0, Some(full_path))),
            None => Some((is_file, if is_file { Some(full_path) } else { None })),
        }
    } else if is_proper_prefix(q, p) {
        match before(q) {
            Some(a) => Some(a),
            None => Some((false, None)),
        }
    } else {
        before(q)
    }
}

/// The names of a sequence of strings.
pub open spec fn names_of(parts: Seq<String>) -> Seq<Seq<char>> {
    parts.map_values(|s: String| s@)
}

/// `c` is the chain of new nodes that adding `p` below a node without a
/// child named `p[0]` appends: directories without a path down to the last
/// name, which is a file with path `full_path` when `is_file` holds and a
/// directory without a path otherwise.
pub open spec fn is_fresh_chain(c: ProjectTree, p: Seq<Seq<char>>, full_path: Seq<char>, is_file: bool) -> bool
    decreases p.len(),
{
    &&& p.len() > 0
    &&& c.name@ == p[0]
    &&& if p.len() == 1 {
        &&& c.children@.len() == 0
        &&& c.is_file == is_file
        &&& opt_view(c.path) == (if is_file { Some(full_path) } else { None })
    } else {
        &&& !c.is_file
        &&& c.path is None
        &&& c.children@.len() == 1
        &&& is_fresh_chain(c.children@[0], p.drop_first(), full_path, is_file)
    }
}

/// `new` is `old` after adding the path `p`: the node keeps its name, kind
/// and path; where a child is named `p[0]`, the first such child is updated
/// in place (its path set to `full_path` when `p` ends there, the rest of `p`
/// added below it otherwise) and every other child is kept in its place;
/// where none is, the children are kept and a fresh chain is appended last.
pub open spec fn is_added(
    old: ProjectTree,
    new: ProjectTree,
    p: Seq<Seq<char>>,
    full_path: Seq<char>,
    is_file: bool,
) -> bool
    decreases p.len(),
{
    &&& p.len() > 0
    &&& new.name == old.name
    &&& new.is_file == old.is_file
    &&& new.path == old.path
    &&& if has_named(old.children@, p[0]) {
        let i = choose|i: int| is_first_named(old.children@, p[0], i);
        &&& new.children@.len() == old.children@.len()
        &&& forall|j: int|
            0 <= j < old.children@.len() && j != i ==> new.children@[j] == old.children@[j]
        &&& if p.len() == 1 {
            &&& new.children@[i].name == old.children@[i].name
            &&& new.children@[i].children == old.children@[i].children
            &&& new.children@[i].is_file == old.children@[i].is_file
            &&& opt_view(new.children@[i].path) == Some(full_path)
        } else {
            is_added(old.children@[i], new.children@[i], p.drop_first(), full_path, is_file)
        }
    } else {
        &&& new.children@.len() == old.children@.len() + 1
        &&& new.children@.take(old.children@.len() as int) == old.children@
        &&& is_fresh_chain(new.children@.last(), p, full_path, is_file)
    }
}

/// The names of the trees are pairwise different.
pub open spec fn child_names_distinct(s: Seq<ProjectTree>) -> bool {
    forall|a: int, b: int| 0 <= a < b < s.len() ==> s[a].name@ != s[b].name@
}

/// At every node of the tree the children have pairwise different names.
pub open spec fn names_distinct(t: ProjectTree) -> bool
    decreases t,
{
    child_names_distinct(t.children@) && all_names_distinct(t.children@)
}

/// Every tree of the sequence satisfies [`names_distinct`].
pub open spec fn all_names_distinct(s: Seq<ProjectTree>) -> bool
    decreases s,
{
    s.len() == 0 || (all_names_distinct(s.drop_last()) && names_distinct(s.last()))
}

/// [`all_names_distinct`] holds exactly when it holds of each tree.
pub proof fn lemma_all_names_distinct(s: Seq<ProjectTree>)
    ensures
        all_names_distinct(s) <==> forall|i: int| 0 <= i < s.len() ==> names_distinct(#[trigger] s[i]),
    decreases s.len(),
{
    if s.len() > 0 {
        lemma_all_names_distinct(s.drop_last());
        if forall|i: int| 0 <= i < s.len() ==> names_distinct(#[trigger] s[i]) {
            assert forall|i: int| 0 <= i < s.drop_last().len() implies names_distinct(
                #[trigger] s.drop_last()[i],
            ) by {
                assert(s.drop_last()[i] == s[i]);
            }
            assert(names_distinct(s[s.len() - 1]));
        }
        if all_names_distinct(s) {
            assert forall|i: int| 0 <= i < s.len() implies names_distinct(#[trigger] s[i]) by {
                if i < s.len() - 1 {
                    assert(s.drop_last()[i] == s[i]);
                }
            }
        }
    }
}

/// A fresh chain has no node with two children of one name.
pub proof fn lemma_fresh_chain_distinct(c: ProjectTree, p: Seq<Seq<char>>, full_path: Seq<char>, is_file: bool)
    requires
        is_fresh_chain(c, p, full_path, is_file),
    ensures
        names_distinct(c),
    decreases p.len(),
{
    let cs = c.children@;
    if p.len() > 1 {
        lemma_fresh_chain_distinct(cs[0], p.drop_first(), full_path, is_file);
        assert(cs.drop_last() =~= Seq::<ProjectTree>::empty());
        assert(cs.last() == cs[0]);
        assert(all_names_distinct(cs.drop_last()));
        assert(all_names_distinct(cs));
    } else {
        assert(all_names_distinct(cs));
    }
    assert(child_names_distinct(cs));
}

/// Adding a path to a tree keeps the names of the children of every node
/// pairwise different: the first child of the wanted name is updated in
/// place, and a new child is only appended where no child has its name.
pub proof fn law_add_keeps_names_distinct(
    old_t: ProjectTree,
    new_t: ProjectTree,
    p: Seq<Seq<char>>,
    full_path: Seq<char>,
    is_file: bool,
)
    requires
        is_added(old_t, new_t, p, full_path, is_file),
        names_distinct(old_t),
    ensures
        names_distinct(new_t),
    decreases p.len(),
{
    reveal_with_fuel(is_added, 2);
    let oc = old_t.children@;
    let nc = new_t.children@;
    lemma_all_names_distinct(oc);
    lemma_all_names_distinct(nc);
    if has_named(oc, p[0]) {
        lemma_first_named_exists(oc, p[0]);
        let i = choose|i: int| is_first_named(oc, p[0], i);
        if p.len() == 1 {
            assert(names_distinct(nc[i]) == names_distinct(oc[i]));
        } else {
            law_add_keeps_names_distinct(oc[i], nc[i], p.drop_first(), full_path, is_file);
        }
        assert forall|a: int| 0 <= a < nc.len() implies #[trigger] nc[a].name@ == oc[a].name@ by {
            if a != i {
                assert(nc[a] == oc[a]);
            }
        }
        assert forall|a: int| 0 <= a < nc.len() implies names_distinct(#[trigger] nc[a]) by {
            if a != i {
                assert(nc[a] == oc[a]);
            }
        }
        assert(child_names_distinct(nc)) by {
            assert forall|a: int, b: int| 0 <= a < b < nc.len() implies nc[a].name@ != nc[b].name@ by {
                assert(nc[a].name@ == oc[a].name@);
                assert(nc[b].name@ == oc[b].name@);
            }
        }
    } else {
        let n = oc.len() as int;
        lemma_fresh_chain_distinct(nc.last(), p, full_path, is_file);
        assert forall|a: int| 0 <= a < n implies nc[a] == oc[a] by {
            assert(nc.take(n)[a] == nc[a]);
        }
        assert forall|a: int| 0 <= a < nc.len() implies names_distinct(#[trigger] nc[a]) by {
            if a < n {
                assert(nc[a] == oc[a]);
            }
        }
        assert(child_names_distinct(nc)) by {
            assert forall|a: int, b: int| 0 <= a < b < nc.len() implies nc[a].name@ != nc[b].name@ by {
                assert(nc[a] == oc[a]);
                if b == n {
                    assert(nc[b].name@ == p[0]);
                    assert(!(oc[a].name@ == p[0]));
                } else {
                    assert(nc[b] == oc[b]);
                }
            }
        }
    }
}

/// The first child named `name` is unique.
pub proof fn lemma_first_named_unique(children: Seq<ProjectTree>, name: Seq<char>, i: int, j: int)
    requires
        is_first_named(children, name, i),
        is_first_named(children, name, j),
    ensures
        i == j,
{
}

/// A name present among the children has a first position.
pub proof fn lemma_first_named_exists(children: Seq<ProjectTree>, name: Seq<char>)
    requires
        has_named(children, name),
    ensures
        exists|i: int| is_first_named(children, name, i),
    decreases children.len(),
{
    if children[0].name@ == name {
        assert(is_first_named(children, name, 0));
    } else {
        let rest = children.drop_first();
        let k = choose|k: int| 0 <= k < children.len() && children[k].name@ == name;
        assert(rest[k - 1].name@ == name);
        lemma_first_named_exists(rest, name);
        let i = choose|i: int| is_first_named(rest, name, i);
        assert forall|j: int| 0 <= j < i + 1 implies children[j].name@ != name by {
            if j > 0 {
                assert(rest[j - 1] == children[j]);
            }
        }
        assert(is_first_named(children, name, i + 1));
    }
}

/// Lookups below the root only depend on the children.
pub proof fn lemma_node_at_children(t1: ProjectTree, t2: ProjectTree, q: Seq<Seq<char>>)
    requires
        t1.children@ == t2.children@,
        q.len() > 0,
    ensures
        node_at(t1, q) == node_at(t2, q),
{
}

/// A lookup through a child that is not `i` is not affected by replacing the
/// child at `i` by a node of the same name.
pub proof fn lemma_replace_child(
    old_children: Seq<ProjectTree>,
    new_children: Seq<ProjectTree>,
    i: int,
    name: Seq<char>,
)
    requires
        0 <= i < old_children.len(),
        old_children.len() == new_children.len(),
        old_children[i].name@ == name,
        new_children[i].name@ == name,
        forall|j: int| 0 <= j < old_children.len() && j != i ==> new_children[j] == old_children[j],
    ensures
        forall|n: Seq<char>, k: int|
            is_first_named(old_children, n, k) <==> is_first_named(new_children, n, k),
        forall|n: Seq<char>| has_named(old_children, n) <==> has_named(new_children, n),
{
    assert forall|n: Seq<char>, k: int|
        is_first_named(old_children, n, k) <==> is_first_named(new_children, n, k) by {
        if is_first_named(old_children, n, k) {
            assert forall|j: int| 0 <= j < k implies new_children[j].name@ != n by {
                if j == i {
                    assert(old_children[j].name@ != n);
                }
            }
        }
        if is_first_named(new_children, n, k) {
            assert forall|j: int| 0 <= j < k implies old_children[j].name@ != n by {
                if j == i {
                    assert(new_children[j].name@ != n);
                }
            }
        }
    }
    assert forall|n: Seq<char>| has_named(old_children, n) <==> has_named(new_children, n) by {
        if has_named(old_children, n) {
            let k = choose|k: int| 0 <= k < old_children.len() && old_children[k].name@ == n;
            assert(new_children[k].name@ == n);
        }
        if has_named(new_children, n) {
            let k = choose|k: int| 0 <= k < new_children.len() && new_children[k].name@ == n;
            assert(old_children[k].name@ == n);
        }
    }
}

/// Appending a child does not change the first position of names already
/// present, and gives a fresh name the last position.
pub proof fn lemma_push_child(old_children: Seq<ProjectTree>, node: ProjectTree)
    requires
        !has_named(old_children, node.name@),
    ensures
        forall|n: Seq<char>, k: int|
            n != node.name@ ==> (is_first_named(old_children, n, k) <==> is_first_named(
                old_children.push(node),
                n,
                k,
            )),
        forall|n: Seq<char>|
            n != node.name@ ==> (has_named(old_children, n) <==> has_named(
                old_children.push(node),
                n,
            )),
        is_first_named(old_children.push(node), node.name@, old_children.len() as int),
        has_named(old_children.push(node), node.name@),
{
    let new_children = old_children.push(node);
    assert forall|n: Seq<char>, k: int|
        n != node.name@ implies (is_first_named(old_children, n, k) <==> is_first_named(
            new_children,
            n,
            k,
        )) by {
        if is_first_named(new_children, n, k) {
            if k == old_children.len() {
                assert(new_children[k] == node);
            }
            assert forall|j: int| 0 <= j < k implies old_children[j].name@ != n by {
                assert(new_children[j] == old_children[j]);
            }
        }
        if is_first_named(old_children, n, k) {
            assert forall|j: int| 0 <= j < k implies new_children[j].name@ != n by {
                assert(new_children[j] == old_children[j]);
            }
        }
    }
    assert forall|n: Seq<char>| n != node.name@ implies (has_named(old_children, n) <==> has_named(
        new_children,
        n,
    )) by {
        if has_named(new_children, n) {
            let k = choose|k: int| 0 <= k < new_children.len() && new_children[k].name@ == n;
            assert(k < old_children.len());
            assert(old_children[k].name@ == n);
        }
        if has_named(old_children, n) {
            let k = choose|k: int| 0 <= k < old_children.len() && old_children[k].name@ == n;
            assert(new_children[k].name@ == n);
        }
    }
    assert forall|j: int| 0 <= j < old_children.len() implies new_children[j].name@
        != node.name@ by {
        assert(old_children[j].name@ != node.name@);
    }
    assert(new_children[old_children.len() as int] == node);
}

/// A lookup of a non-empty name sequence goes through the first child with
/// the first name, and fails where there is none.
pub proof fn lemma_node_at_step(t: ProjectTree, q: Seq<Seq<char>>)
    requires
        q.len() > 0,
    ensures
        forall|k: int|
            is_first_named(t.children@, q[0], k) ==> node_at(t, q) == node_at(
                t.children@[k],
                q.drop_first(),
            ),
        !has_named(t.children@, q[0]) ==> node_at(t, q) is None,
{
    if has_named(t.children@, q[0]) {
        lemma_first_named_exists(t.children@, q[0]);
        let c = choose|i: int| is_first_named(t.children@, q[0], i);
        assert forall|k: int| is_first_named(t.children@, q[0], k) implies node_at(t, q) == node_at(
            t.children@[k],
            q.drop_first(),
        ) by {
            lemma_first_named_unique(t.children@, q[0], k, c);
        }
    }
}

/// The lookups of a position where nothing exists.
pub open spec fn absent(r: Seq<Seq<char>>) -> Option<NodeAttrs> {
    None
}

/// How `q = [p[0]] ++ qr` relates to `p` compared with how `qr` relates to the
/// rest of `p`.
pub proof fn lemma_prefix_shift(p: Seq<Seq<char>>, q: Seq<Seq<char>>)
    requires
        p.len() > 0,
        q.len() > 0,
        q[0] == p[0],
    ensures
        (q == p) == (q.drop_first() == p.drop_first()),
        is_proper_prefix(q, p) == is_proper_prefix(q.drop_first(), p.drop_first()),
{
    let qr = q.drop_first();
    let pr = p.drop_first();
    if qr == pr {
        assert forall|j: int| 0 <= j < q.len() implies q[j] == p[j] by {
            if j > 0 {
                assert(qr[j - 1] == pr[j - 1]);
            }
        }
        assert(q =~= p);
    }
    if is_proper_prefix(qr, pr) {
        assert forall|j: int| 0 <= j < q.len() implies p.take(q.len() as int)[j] == q[j] by {
            if j > 0 {
                assert(pr.take(qr.len() as int)[j - 1] == qr[j - 1]);
            }
        }
        assert(p.take(q.len() as int) =~= q);
    }
    if is_proper_prefix(q, p) {
        assert(pr.take(qr.len() as int) =~= qr);
    }
}

/// Replacing the first child named `p[0]` by a child whose lookups are those
/// of adding the rest of `p` to it, adds `p` to the tree.
pub proof fn lemma_lift_replace(
    old_t: ProjectTree,
    new_t: ProjectTree,
    i: int,
    p: Seq<Seq<char>>,
    full_path: Seq<char>,
    is_file: bool,
)
    requires
        p.len() > 0,
        is_first_named(old_t.children@, p[0], i),
        new_t.children@.len() == old_t.children@.len(),
        new_t.children@[i].name@ == p[0],
        forall|j: int|
            0 <= j < old_t.children@.len() && j != i ==> new_t.children@[j]
                == old_t.children@[j],
        attrs(new_t) == attrs(old_t),
        forall|r: Seq<Seq<char>>|
            node_at(new_t.children@[i], r) == after_add(
                |x: Seq<Seq<char>>| node_at(old_t.children@[i], x),
                p.drop_first(),
                full_path,
                is_file,
                r,
            ),
    ensures
        forall|q: Seq<Seq<char>>|
            #[trigger] node_at(new_t, q) == after_add(
                |x: Seq<Seq<char>>| node_at(old_t, x),
                p,
                full_path,
                is_file,
                q,
            ),
{
    lemma_replace_child(old_t.children@, new_t.children@, i, p[0]);
    assert forall|q: Seq<Seq<char>>|
        #[trigger] node_at(new_t, q) == after_add(
            |x: Seq<Seq<char>>| node_at(old_t, x),
            p,
            full_path,
            is_file,
            q,
        ) by {
        if q.len() == 0 {
            assert(p.take(0) =~= q);
        } else {
            lemma_node_at_step(old_t, q);
            lemma_node_at_step(new_t, q);
            if q[0] == p[0] {
                assert(is_first_named(new_t.children@, q[0], i));
                lemma_prefix_shift(p, q);
            } else {
                assert(q != p);
                assert(!is_proper_prefix(q, p)) by {
                    if is_proper_prefix(q, p) {
                        assert(p.take(q.len() as int)[0] == p[0]);
                    }
                }
                if has_named(old_t.children@, q[0]) {
                    lemma_first_named_exists(old_t.children@, q[0]);
                    let k = choose|k: int| is_first_named(old_t.children@, q[0], k);
                    assert(k != i);
                    assert(is_first_named(new_t.children@, q[0], k));
                }
            }
        }
    }
}

/// Appending a child named `p[0]`, whose lookups are those of adding the rest
/// of `p` where nothing exists, adds `p` to a tree with no child of that name.
pub proof fn lemma_lift_push(
    old_t: ProjectTree,
    new_t: ProjectTree,
    node: ProjectTree,
    p: Seq<Seq<char>>,
    full_path: Seq<char>,
    is_file: bool,
)
    requires
        p.len() > 0,
        !has_named(old_t.children@, p[0]),
        node.name@ == p[0],
        new_t.children@ == old_t.children@.push(node),
        attrs(new_t) == attrs(old_t),
        forall|r: Seq<Seq<char>>|
            node_at(node, r) == after_add(|x: Seq<Seq<char>>| absent(x), p.drop_first(), full_path, is_file, r),
    ensures
        forall|q: Seq<Seq<char>>|
            #[trigger] node_at(new_t, q) == after_add(
                |x: Seq<Seq<char>>| node_at(old_t, x),
                p,
                full_path,
                is_file,
                q,
            ),
{
    lemma_push_child(old_t.children@, node);
    assert forall|q: Seq<Seq<char>>|
        #[trigger] node_at(new_t, q) == after_add(
            |x: Seq<Seq<char>>| node_at(old_t, x),
            p,
            full_path,
            is_file,
            q,
        ) by {
        if q.len() == 0 {
            assert(p.take(0) =~= q);
        } else {
            lemma_node_at_step(old_t, q);
            lemma_node_at_step(new_t, q);
            if q[0] == p[0] {
                assert(is_first_named(new_t.children@, q[0], old_t.children@.len() as int));
                assert(new_t.children@[old_t.children@.len() as int] == node);
                lemma_prefix_shift(p, q);
            } else {
                assert(q != p);
                assert(!is_proper_prefix(q, p)) by {
                    if is_proper_prefix(q, p) {
                        assert(p.take(q.len() as int)[0] == p[0]);
                    }
                }
                if has_named(old_t.children@, q[0]) {
                    lemma_first_named_exists(old_t.children@, q[0]);
                    let k = choose|k: int| is_first_named(old_t.children@, q[0], k);
                    assert(is_first_named(new_t.children@, q[0], k));
                }
            }
        }
    }
}

/// Lookups in a node with no children.
pub proof fn lemma_leaf_lookups(t: ProjectTree, q: Seq<Seq<char>>)
    requires
        t.children@.len() == 0,
    ensures
        node_at(t, q) == (if q.len() == 0 {
            Some(attrs(t))
        } else {
            None::<NodeAttrs>
        }),
{
}

/// The two trees have the same names, kinds and paths at every node, with
/// the children in the same order.
pub open spec fn same_tree(a: ProjectTree, b: ProjectTree) -> bool
    decreases a,
{
    &&& a.name == b.name
    &&& a.is_file == b.is_file
    &&& a.path == b.path
    &&& same_trees(a.children@, b.children@)
}

/// The sequences hold trees that are pairwise [`same_tree`].
pub open spec fn same_trees(s: Seq<ProjectTree>, u: Seq<ProjectTree>) -> bool
    decreases s,
{
    &&& s.len() == u.len()
    &&& s.len() == 0 || (same_trees(s.drop_last(), u.drop_last()) && same_tree(s.last(), u.last()))
}

/// A copy of `t` and of all the nodes below it.
fn copy_tree(t: &ProjectTree) -> (r: ProjectTree)
    ensures
        same_tree(*t, r),
    decreases t,
{
    let mut children: Vec<ProjectTree> = Vec::new();
    let mut i: usize = 0;
    while i < t.children.len()
        invariant
            i <= t.children@.len(),
            same_trees(t.children@.take(i as int), children@),
        decreases t.children@.len() - i,
    {
        assert(decreases_to!(t => t.children@[i as int]));
        let c = copy_tree(&t.children[i]);
        let ghost before = children@;
        children.push(c);
        proof {
            let s = t.children@.take(i + 1);
            assert(s.drop_last() =~= t.children@.take(i as int));
            assert(children@.drop_last() =~= before);
        }
        i = i + 1;
    }
    assert(t.children@.take(i as int) =~= t.children@);
    ProjectTree { name: t.name.clone(), children, is_file: t.is_file, path: t.path.clone() }
}

impl Clone for ProjectTree {
    /// A copy of the tree: the same names, kinds and paths at every node.
    fn clone(&self) -> (t: Self)
        ensures
            same_tree(*self, t),
    {
        copy_tree(self)
    }
}

impl ProjectTree {
    /// A directory node with no children and no path.
    pub fn new_dir(name: &str) -> (t: Self)
        ensures
            t.name@ == name@,
            t.children@.len() == 0,
            !t.is_file,
            t.path is None,
    {
        ProjectTree { name: owned(name), children: Vec::new(), is_file: false, path: None }
    }

    /// A file node with the given path and no children.
    pub fn new_file(name: &str, path: String) -> (t: Self)
        ensures
            t.name@ == name@,
            t.children@.len() == 0,
            t.is_file,
            t.path == Some(path),
    {
        ProjectTree { name: owned(name), children: Vec::new(), is_file: true, path: Some(path) }
    }

    /// Appends `child` to the children.
    pub fn add_child(&mut self, child: ProjectTree)
        ensures
            final(self).children@ == old(self).children@.push(child),
            final(self).name == old(self).name,
            final(self).is_file == old(self).is_file,
            final(self).path == old(self).path,
    {
        self.children.push(child);
    }
}

/// Position of the first child of `tree` named `name`, if any.
fn find_child(tree: &ProjectTree, name: &String) -> (r: Option<usize>)
    ensures
        match r {
            Some(i) => is_first_named(tree.children@, name@, i as int),
            None => !has_named(tree.children@, name@),
        },
{
    let mut i: usize = 0;
    while i < tree.children.len()
        invariant
            i <= tree.children@.len(),
            forall|j: int| 0 <= j < i ==> tree.children@[j].name@ != name@,
        decreases tree.children@.len() - i,
    {
        if tree.children[i].name == *name {
            return Some(i);
        }
        i = i + 1;
    }
    None
}

/// Adds the node named by `parts` to `tree`, creating the directories on the
/// way. Where the node already exists its path is set to `full_path`;
/// otherwise it is created as a file with that path when `is_file` holds,
/// and as a directory without a path when it does not.
pub fn add_to_tree(tree: &mut ProjectTree, parts: &Vec<String>, full_path: &str, is_file: bool)
    ensures
        final(tree).name == old(tree).name,
        parts@.len() == 0 ==> *final(tree) == *old(tree),
        parts@.len() > 0 ==> is_added(*old(tree), *final(tree), names_of(parts@), full_path@, is_file),
        parts@.len() > 0 ==> forall|q: Seq<Seq<char>>|
            #[trigger] node_at(*final(tree), q) == after_add(
                |r: Seq<Seq<char>>| node_at(*old(tree), r),
                names_of(parts@),
                full_path@,
                is_file,
                q,
            ),
{
    if parts.len() == 0 {
        return;
    }
    assert(names_of(parts@).skip(0) =~= names_of(parts@));
    add_from(tree, parts, 0, full_path, is_file);
}

/// [`add_to_tree`] for the names of `parts` from position `start` on.
fn add_from(
    tree: &mut ProjectTree,
    parts: &Vec<String>,
    start: usize,
    full_path: &str,
    is_file: bool,
)
    requires
        start < parts@.len(),
    ensures
        final(tree).name == old(tree).name,
        is_added(*old(tree), *final(tree), names_of(parts@).skip(start as int), full_path@, is_file),
        forall|q: Seq<Seq<char>>|
            #[trigger] node_at(*final(tree), q) == after_add(
                |r: Seq<Seq<char>>| node_at(*old(tree), r),
                names_of(parts@).skip(start as int),
                full_path@,
                is_file,
                q,
            ),
    decreases parts@.len() - start,
{
    let ghost p = names_of(parts@).skip(start as int);
    let ghost old_tree = *tree;
    let first = &parts[start];
    assert(p[0] == first@);
    assert(names_of(parts@).skip(start + 1) =~= p.drop_first());
    let found = find_child(tree, first);
    match found {
        Some(i) => {
            let ghost old_child = tree.children@[i as int];
            if start == parts.len() - 1 {
                tree.children[i].path = Some(owned(full_path));
                proof {
                    let new_child = tree.children@[i as int];
                    assert forall|r: Seq<Seq<char>>|
                        node_at(new_child, r) == after_add(
                            |x: Seq<Seq<char>>| node_at(old_child, x),
                            p.drop_first(),
                            full_path@,
                            is_file,
                            r,
                        ) by {
                        if r.len() > 0 {
                            lemma_node_at_children(old_child, new_child, r);
                        } else {
                            assert(r =~= p.drop_first());
                        }
                    }
                }
            } else {
                add_from(&mut tree.children[i], parts, start + 1, full_path, is_file);
            }
            proof {
                lemma_lift_replace(old_tree, *tree, i as int, p, full_path@, is_file);
                assert(is_first_named(old_tree.children@, p[0], i as int));
                assert(has_named(old_tree.children@, p[0]));
                let c = choose|k: int| is_first_named(old_tree.children@, p[0], k);
                lemma_first_named_unique(old_tree.children@, p[0], i as int, c);
            }
        },
        None => {
            if start == parts.len() - 1 {
                let node = if is_file {
                    ProjectTree::new_file(first.as_str(), owned(full_path))
                } else {
                    ProjectTree::new_dir(first.as_str())
                };
                proof {
                    assert forall|r: Seq<Seq<char>>|
                        node_at(node, r) == after_add(
                            |x: Seq<Seq<char>>| absent(x),
                            p.drop_first(),
                            full_path@,
                            is_file,
                            r,
                        ) by {
                        lemma_leaf_lookups(node, r);
                        if r.len() == 0 {
                            assert(r =~= p.drop_first());
                        }
                    }
                }
                tree.add_child(node);
                proof {
                    lemma_lift_push(old_tree, *tree, node, p, full_path@, is_file);
                    assert(tree.children@.take(old_tree.children@.len() as int) =~= old_tree.children@);
                    assert(tree.children@.last() == node);
                }
            } else {
                let mut node = ProjectTree::new_dir(first.as_str());
                let ghost fresh = node;
                add_from(&mut node, parts, start + 1, full_path, is_file);
                proof {
                    assert(!has_named(fresh.children@, p.drop_first()[0]));
                    assert(node.children@[0] == node.children@.last());
                    assert(is_fresh_chain(node, p, full_path@, is_file));
                }
                proof {
                    assert forall|r: Seq<Seq<char>>|
                        node_at(node, r) == after_add(
                            |x: Seq<Seq<char>>| absent(x),
                            p.drop_first(),
                            full_path@,
                            is_file,
                            r,
                        ) by {
                        lemma_leaf_lookups(fresh, r);
                        assert(node_at(node, r) == after_add(
                            |x: Seq<Seq<char>>| node_at(fresh, x),
                            p.drop_first(),
                            full_path@,
                            is_file,
                            r,
                        ));
                        assert(p.drop_first().len() > 0);
                        if r.len() == 0 {
                            assert(p.drop_first().take(0) =~= r);
                        }
                    }
                }
                tree.add_child(node);
                proof {
                    lemma_lift_push(old_tree, *tree, node, p, full_path@, is_file);
                    assert(tree.children@.take(old_tree.children@.len() as int) =~= old_tree.children@);
                    assert(tree.children@.last() == node);
                }
            }
        },
    }
}

/// The text after the last `/` of a path.
pub open spec fn last_component(p: Seq<char>) -> Seq<char>
    decreases p.len(),
{
    if p.len() == 0 {
        p
    } else if p.last() == '/' {
        Seq::empty()
    } else {
        last_component(p.drop_last()).push(p.last())
    }
}

/// The path ends with a separator, or with a `.` component.
pub open spec fn ends_with_skipped(p: Seq<char>) -> bool {
    p.len() > 0 && (p.last() == '/' || (p.last() == '.' && (p.len() == 1 || p[p.len() - 2] == '/')))
}

/// The path without its trailing separators and `.` components, which
/// `Path::components` does not report.
pub open spec fn trim_end(p: Seq<char>) -> Seq<char>
    decreases p.len(),
{
    if ends_with_skipped(p) {
        trim_end(p.drop_last())
    } else {
        p
    }
}

/// The file name of a path, as `Path::file_name` gives it: its last
/// component once trailing separators and `.` components are passed over,
/// where that component is a name (not `..`, and not absent).
pub open spec fn path_file_name(p: Seq<char>) -> Option<Seq<char>> {
    let t = trim_end(p);
    if t.len() == 0 || last_component(t) == ".."@ {
        None
    } else {
        Some(last_component(t))
    }
}

/// The path names a Python file: its file name is a name followed by the
/// extension `py` (a bare `.py` is a hidden file without extension).
pub open spec fn is_python_path(p: Seq<char>) -> bool {
    path_file_name(p) matches Some(f) && seq_ends_with(f, ".py"@) && f.len() > 3
}

/// The paths of the Python files of a tree, in depth-first order.
pub open spec fn python_files(t: ProjectTree) -> Seq<Seq<char>>
    decreases t,
{
    if t.is_file {
        match t.path {
            Some(p) => if is_python_path(p@) {
                seq![p@]
            } else {
                Seq::empty()
            },
            None => Seq::empty(),
        }
    } else {
        python_files_in(t.children@)
    }
}

/// The paths of the Python files of a sequence of trees, in order.
pub open spec fn python_files_in(s: Seq<ProjectTree>) -> Seq<Seq<char>>
    decreases s,
{
    if s.len() == 0 {
        Seq::empty()
    } else {
        python_files_in(s.drop_last()) + python_files(s.last())
    }
}

/// The path of the first file named `name`, in depth-first order; a matching
/// file without a path ends the search of its own subtree only.
pub open spec fn find_by_name(t: ProjectTree, name: Seq<char>) -> Option<Seq<char>>
    decreases t,
{
    if t.is_file && t.name@ == name {
        opt_view(t.path)
    } else {
        find_in(t.children@, name)
    }
}

/// The first result of [`find_by_name`] among a sequence of trees.
pub open spec fn find_in(s: Seq<ProjectTree>, name: Seq<char>) -> Option<Seq<char>>
    decreases s,
{
    if s.len() == 0 {
        None
    } else {
        match find_in(s.drop_last(), name) {
            Some(p) => Some(p),
            None => find_by_name(s.last(), name),
        }
    }
}

/// The path of the first entry point found, trying the names in order.
pub open spec fn find_entry_among(t: ProjectTree, names: Seq<Seq<char>>) -> Option<Seq<char>>
    decreases names.len(),
{
    if names.len() == 0 {
        None
    } else {
        match find_entry_among(t, names.drop_last()) {
            Some(p) => Some(p),
            None => find_by_name(t, names.last()),
        }
    }
}

/// `t` holds, itself or somewhere below it, a file node named `name` whose
/// path is `p`.
pub open spec fn holds_named_file(t: ProjectTree, name: Seq<char>, p: Seq<char>) -> bool
    decreases t,
{
    ||| t.is_file && t.name@ == name && opt_view(t.path) == Some(p)
    ||| holds_named_file_in(t.children@, name, p)
}

/// Some tree of the sequence holds a file node named `name` with path `p`.
pub open spec fn holds_named_file_in(s: Seq<ProjectTree>, name: Seq<char>, p: Seq<char>) -> bool
    decreases s,
{
    s.len() > 0 && (holds_named_file_in(s.drop_last(), name, p) || holds_named_file(s.last(), name, p))
}

/// `t` holds, itself or somewhere below it, a file node named `name`.
pub open spec fn has_file_named(t: ProjectTree, name: Seq<char>) -> bool
    decreases t,
{
    ||| t.is_file && t.name@ == name
    ||| has_file_named_in(t.children@, name)
}

/// Some tree of the sequence holds a file node named `name`.
pub open spec fn has_file_named_in(s: Seq<ProjectTree>, name: Seq<char>) -> bool
    decreases s,
{
    s.len() > 0 && (has_file_named_in(s.drop_last(), name) || has_file_named(s.last(), name))
}

/// `t` holds a file node with path `p`, reached from `t` through directory
/// nodes only: `t` itself if it is a file, else a file below one of its
/// children.
pub open spec fn holds_file_path(t: ProjectTree, p: Seq<char>) -> bool
    decreases t,
{
    if t.is_file {
        opt_view(t.path) == Some(p)
    } else {
        holds_file_path_in(t.children@, p)
    }
}

/// Some tree of the sequence holds a file node with path `p` through
/// directory nodes only.
pub open spec fn holds_file_path_in(s: Seq<ProjectTree>, p: Seq<char>) -> bool
    decreases s,
{
    s.len() > 0 && (holds_file_path_in(s.drop_last(), p) || holds_file_path(s.last(), p))
}

/// A sequence holds what one of its trees holds.
pub proof fn lemma_holds_in(s: Seq<ProjectTree>, name: Seq<char>, p: Seq<char>)
    ensures
        holds_file_path_in(s, p) <==> exists|i: int| 0 <= i < s.len() && #[trigger] holds_file_path(s[i], p),
        holds_named_file_in(s, name, p) <==> exists|i: int|
            0 <= i < s.len() && #[trigger] holds_named_file(s[i], name, p),
        has_file_named_in(s, name) <==> exists|i: int| 0 <= i < s.len() && #[trigger] has_file_named(s[i], name),
    decreases s.len(),
{
    if s.len() > 0 {
        let rest = s.drop_last();
        lemma_holds_in(rest, name, p);
        assert forall|i: int| 0 <= i < rest.len() implies rest[i] == s[i] by {}
        let last = s.len() - 1;
        assert(s.last() == s[last]);
        if exists|i: int| 0 <= i < s.len() && #[trigger] holds_file_path(s[i], p) {
            let i = choose|i: int| 0 <= i < s.len() && #[trigger] holds_file_path(s[i], p);
            if i < last {
                assert(holds_file_path(rest[i], p));
            }
        }
        if exists|i: int| 0 <= i < s.len() && #[trigger] holds_named_file(s[i], name, p) {
            let i = choose|i: int| 0 <= i < s.len() && #[trigger] holds_named_file(s[i], name, p);
            if i < last {
                assert(holds_named_file(rest[i], name, p));
            }
        }
        if exists|i: int| 0 <= i < s.len() && #[trigger] has_file_named(s[i], name) {
            let i = choose|i: int| 0 <= i < s.len() && #[trigger] has_file_named(s[i], name);
            if i < last {
                assert(has_file_named(rest[i], name));
            }
        }
        if holds_file_path(s.last(), p) {
            assert(holds_file_path(s[last], p));
        }
        if holds_named_file(s.last(), name, p) {
            assert(holds_named_file(s[last], name, p));
        }
        if has_file_named(s.last(), name) {
            assert(has_file_named(s[last], name));
        }
        if holds_file_path_in(rest, p) {
            let i = choose|i: int| 0 <= i < rest.len() && #[trigger] holds_file_path(rest[i], p);
            assert(holds_file_path(s[i], p));
        }
        if holds_named_file_in(rest, name, p) {
            let i = choose|i: int| 0 <= i < rest.len() && #[trigger] holds_named_file(rest[i], name, p);
            assert(holds_named_file(s[i], name, p));
        }
        if has_file_named_in(rest, name) {
            let i = choose|i: int| 0 <= i < rest.len() && #[trigger] has_file_named(rest[i], name);
            assert(has_file_named(s[i], name));
        }
    }
}

/// `p` is in `a + b` exactly when it is in `a` or in `b`.
pub proof fn lemma_contains_concat(a: Seq<Seq<char>>, b: Seq<Seq<char>>, p: Seq<char>)
    ensures
        (a + b).contains(p) <==> a.contains(p) || b.contains(p),
{
    if (a + b).contains(p) {
        let k = choose|k: int| 0 <= k < (a + b).len() && (a + b)[k] == p;
        if k < a.len() {
            assert(a[k] == p);
        } else {
            assert(b[k - a.len()] == p);
        }
    }
    if a.contains(p) {
        let k = choose|k: int| 0 <= k < a.len() && a[k] == p;
        assert((a + b)[k] == p);
    }
    if b.contains(p) {
        let k = choose|k: int| 0 <= k < b.len() && b[k] == p;
        assert((a + b)[k + a.len()] == p);
    }
}

/// The listing of Python files holds exactly the Python paths of the file
/// nodes that the tree holds below directories, whatever the names of those
/// directories.
pub proof fn law_python_listing_complete(t: ProjectTree, p: Seq<char>)
    ensures
        python_files(t).contains(p) <==> holds_file_path(t, p) && is_python_path(p),
    decreases t,
{
    if t.is_file {
        match t.path {
            Some(q) => {
                if is_python_path(q@) {
                    assert(seq![q@][0] == q@);
                }
                if python_files(t).contains(p) {
                    let k = choose|k: int| 0 <= k < python_files(t).len() && python_files(t)[k] == p;
                    assert(python_files(t)[k] == q@);
                }
            },
            None => {},
        }
    } else {
        lemma_python_listing_in(t.children@, p);
    }
}

/// [`law_python_listing_complete`] for a sequence of trees.
pub proof fn lemma_python_listing_in(s: Seq<ProjectTree>, p: Seq<char>)
    ensures
        python_files_in(s).contains(p) <==> holds_file_path_in(s, p) && is_python_path(p),
    decreases s,
{
    if s.len() > 0 {
        let rest = s.drop_last();
        lemma_python_listing_in(rest, p);
        law_python_listing_complete(s.last(), p);
        lemma_contains_concat(python_files_in(rest), python_files(s.last()), p);
    }
}

/// The search by name finds only a file node with exactly that name, and
/// gives its path; where no file node has that name it finds nothing.
pub proof fn law_find_by_exact_name(t: ProjectTree, name: Seq<char>)
    ensures
        find_by_name(t, name) matches Some(p) ==> holds_named_file(t, name, p),
        !has_file_named(t, name) ==> find_by_name(t, name) is None,
    decreases t,
{
    if !(t.is_file && t.name@ == name) {
        lemma_find_in_exact(t.children@, name);
    }
}

/// [`law_find_by_exact_name`] for a sequence of trees.
pub proof fn lemma_find_in_exact(s: Seq<ProjectTree>, name: Seq<char>)
    ensures
        find_in(s, name) matches Some(p) ==> holds_named_file_in(s, name, p),
        !has_file_named_in(s, name) ==> find_in(s, name) is None,
    decreases s,
{
    if s.len() > 0 {
        lemma_find_in_exact(s.drop_last(), name);
        law_find_by_exact_name(s.last(), name);
    }
}

/// Whether the path names a Python file.
pub fn is_python_file_path(p: &str) -> (r: bool)
    ensures
        r == is_python_path(p@),
{
    let v = crate::text::chars_of(p);
    let mut end: usize = v.len();
    assert(v@.take(end as int) =~= v@);
    while end > 0 && (v[end - 1] == '/' || (v[end - 1] == '.' && (end == 1 || v[end - 2] == '/')))
        invariant
            end <= v@.len(),
            trim_end(v@) == trim_end(v@.take(end as int)),
        decreases end,
    {
        proof {
            let t = v@.take(end as int);
            assert(ends_with_skipped(t));
            assert(t.drop_last() =~= v@.take(end - 1));
        }
        end = end - 1;
    }
    let ghost t = v@.take(end as int);
    assert(trim_end(t) == t);
    let mut start: usize = end;
    assert(t.take(start as int) =~= t);
    assert(last_component(t) =~= last_component(t.take(start as int)) + t.skip(start as int));
    while start > 0 && v[start - 1] != '/'
        invariant
            start <= end,
            end <= v@.len(),
            t == v@.take(end as int),
            last_component(t) == last_component(t.take(start as int)) + t.skip(start as int),
        decreases start,
    {
        proof {
            let u = t.take(start as int);
            assert(u.drop_last() =~= t.take(start - 1));
            assert(u.last() == v@[start - 1]);
            assert(t.skip(start - 1) =~= seq![u.last()] + t.skip(start as int));
        }
        start = start - 1;
    }
    proof {
        let u = t.take(start as int);
        if start > 0 {
            assert(u.last() == v@[start - 1]);
            assert(last_component(u) == Seq::<char>::empty());
        } else {
            assert(u.len() == 0);
        }
        assert(last_component(t) =~= t.skip(start as int));
    }
    let n = end - start;
    if n <= 3 {
        assert(last_component(t).len() <= 3);
        return false;
    }
    let r = v[end - 3] == '.' && v[end - 2] == 'p' && v[end - 1] == 'y';
    proof {
        let f = t.skip(start as int);
        assert(f.len() > 3);
        reveal_strlit("..");
        assert(f != ".."@);
        lemma_ends_with_py(f);
        assert(f[f.len() - 3] == v@[end - 3]);
        assert(f[f.len() - 2] == v@[end - 2]);
        assert(f[f.len() - 1] == v@[end - 1]);
        assert(path_file_name(p@) == Some(f));
    }
    r
}

/// Ending with `.py` is a matter of the last three characters.
pub proof fn lemma_ends_with_py(f: Seq<char>)
    ensures
        seq_ends_with(f, ".py"@) == (f.len() >= 3 && f[f.len() - 3] == '.' && f[f.len() - 2] == 'p'
            && f[f.len() - 1] == 'y'),
{
    reveal_strlit(".py");
    if f.len() >= 3 {
        let t = f.subrange(f.len() - 3, f.len() as int);
        if f[f.len() - 3] == '.' && f[f.len() - 2] == 'p' && f[f.len() - 1] == 'y' {
            assert(t =~= ".py"@);
        }
        if t == ".py"@ {
            assert(t[0] == '.');
            assert(t[1] == 'p');
            assert(t[2] == 'y');
        }
    }
}

/// Appends the paths of the Python files of `tree` to `files`.
pub fn collect_python_files(tree: &ProjectTree, files: &mut Vec<String>)
    ensures
        names_of(final(files)@) == names_of(old(files)@) + python_files(*tree),
    decreases tree,
{
    if tree.is_file {
        match &tree.path {
            Some(path) => {
                if is_python_file_path(path.as_str()) {
                    files.push(path.clone());
                    assert(names_of(files@) =~= names_of(old(files)@) + python_files(*tree));
                } else {
                    assert(names_of(files@) =~= names_of(old(files)@) + python_files(*tree));
                }
            },
            None => {
                assert(names_of(files@) =~= names_of(old(files)@) + python_files(*tree));
            },
        }
    } else {
        let ghost start = names_of(files@);
        let mut i: usize = 0;
        assert(tree.children@.take(0) =~= Seq::<ProjectTree>::empty());
        while i < tree.children.len()
            invariant
                i <= tree.children@.len(),
                names_of(files@) == start + python_files_in(tree.children@.take(i as int)),
            decreases tree.children@.len() - i,
        {
            assert(decreases_to!(tree => tree.children@[i as int]));
            collect_python_files(&tree.children[i], files);
            proof {
                let s = tree.children@.take(i + 1);
                assert(s.drop_last() =~= tree.children@.take(i as int));
                assert(s.last() == tree.children@[i as int]);
            }
            i = i + 1;
        }
        assert(tree.children@.take(i as int) =~= tree.children@);
    }
}

/// The paths of the Python files of `tree`, in depth-first order.
pub fn list_python_files(tree: &ProjectTree) -> (files: Vec<String>)
    ensures
        names_of(files@) == python_files(*tree),
{
    let mut files: Vec<String> = Vec::new();
    assert(names_of(files@) =~= Seq::<Seq<char>>::empty());
    collect_python_files(tree, &mut files);
    assert(names_of(files@) =~= python_files(*tree));
    files
}

/// The path of the first file named `name`, searching depth-first.
pub fn find_file_by_name(tree: &ProjectTree, name: &str) -> (r: Option<String>)
    ensures
        opt_view(r) == find_by_name(*tree, name@),
    decreases tree,
{
    if tree.is_file && str_equal(tree.name.as_str(), name) {
        return tree.path.clone();
    }
    let mut i: usize = 0;
    while i < tree.children.len()
        invariant
            i <= tree.children@.len(),
            find_in(tree.children@.take(i as int), name@) is None,
            !(tree.is_file && tree.name@ == name@),
        decreases tree.children@.len() - i,
    {
        assert(decreases_to!(tree => tree.children@[i as int]));
        let found = find_file_by_name(&tree.children[i], name);
        proof {
            let s = tree.children@.take(i + 1);
            assert(s.drop_last() =~= tree.children@.take(i as int));
            assert(s.last() == tree.children@[i as int]);
        }
        if found.is_some() {
            proof {
                let s = tree.children@.take(i + 1);
                lemma_find_in_first(tree.children@, i as int, name@);
            }
            return found;
        }
        i = i + 1;
    }
    assert(tree.children@.take(i as int) =~= tree.children@);
    None
}

/// Where the search finds nothing before `i` and something at `i`, the first
/// result among the whole sequence is the one at `i`.
pub proof fn lemma_find_in_first(s: Seq<ProjectTree>, i: int, name: Seq<char>)
    requires
        0 <= i < s.len(),
        find_in(s.take(i), name) is None,
        find_by_name(s[i], name) is Some,
    ensures
        find_in(s, name) == find_by_name(s[i], name),
    decreases s.len(),
{
    if i == s.len() - 1 {
        assert(s.drop_last() =~= s.take(i));
    } else {
        assert(s.drop_last().take(i) =~= s.take(i));
        lemma_find_in_first(s.drop_last(), i, name);
    }
}

/// The path of the first project entry point, trying the entry point names
/// in order of preference.
pub fn find_entry_file(tree: &ProjectTree) -> (r: Option<String>)
    ensures
        opt_view(r) == find_entry_among(*tree, spec_entry_point_files()),
{
    let names = entry_point_files();
    let ghost views = names@.map_values(|s: &str| s@);
    let mut i: usize = 0;
    assert(views.take(0) =~= Seq::<Seq<char>>::empty());
    while i < names.len()
        invariant
            i <= names@.len(),
            views == names@.map_values(|s: &str| s@),
            views == spec_entry_point_files(),
            find_entry_among(*tree, views.take(i as int)) is None,
        decreases names@.len() - i,
    {
        let found = find_file_by_name(tree, names[i]);
        proof {
            let s = views.take(i + 1);
            assert(s.drop_last() =~= views.take(i as int));
            assert(s.last() == names@[i as int]@);
        }
        if found.is_some() {
            proof {
                lemma_entry_first(*tree, views, i as int);
            }
            return found;
        }
        i = i + 1;
    }
    assert(views.take(i as int) =~= views);
    None
}

/// Where no earlier name is found and the name at `i` is, the entry point
/// search gives the file found for the name at `i`.
pub proof fn lemma_entry_first(t: ProjectTree, names: Seq<Seq<char>>, i: int)
    requires
        0 <= i < names.len(),
        find_entry_among(t, names.take(i)) is None,
        find_by_name(t, names[i]) is Some,
    ensures
        find_entry_among(t, names) == find_by_name(t, names[i]),
    decreases names.len(),
{
    if i == names.len() - 1 {
        assert(names.drop_last() =~= names.take(i));
    } else {
        assert(names.drop_last().take(i) =~= names.take(i));
        lemma_entry_first(t, names.drop_last(), i);
    }
}

} // verus!
