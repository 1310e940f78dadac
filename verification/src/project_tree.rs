//! The project tree: dotted project paths aggregated into a tree of nodes
//! with per-node task counts and an expansion state that survives rebuilds.

use vstd::prelude::*;
use crate::text::{chars_of, chars_eq_str, chars_to_string, lower_chars, lower_seq};

verus! {

broadcast use vstd::seq_lib::group_to_multiset_ensures, vstd::multiset::group_multiset_axioms;

/// One node of the project tree.
#[derive(Debug, Clone)]
pub struct ProjectNode {
    pub name: String,
    pub full_path: String,
    pub task_count: usize,
    pub direct_task_count: usize,
    pub level: usize,
    pub children_indices: Vec<usize>,
    pub is_expanded: bool,
}

impl ProjectNode {
    /// A fresh node with no tasks, no children, and collapsed state.
    pub fn new(name: String, full_path: String, level: usize) -> (r: Self)
        ensures
            r.name == name,
            r.full_path == full_path,
            r.task_count == 0,
            r.direct_task_count == 0,
            r.level == level,
            r.children_indices@ == Seq::<usize>::empty(),
            r.is_expanded == false,
    {
        let r = ProjectNode {
            name,
            full_path,
            task_count: 0,
            direct_task_count: 0,
            level,
            children_indices: Vec::new(),
            is_expanded: false,
        };
        proof {
            assert(r.children_indices@ =~= Seq::<usize>::empty());
        }
        r
    }

    /// A copy of the node that agrees with it field for field.
    pub fn duplicate(&self) -> (r: Self)
        ensures
            node_agrees(r, *self),
    {
        let mut children: Vec<usize> = Vec::new();
        let mut k: usize = 0;
        while k < self.children_indices.len()
            invariant
                k <= self.children_indices@.len(),
                children@ == self.children_indices@.take(k as int),
            decreases self.children_indices@.len() - k,
        {
            children.push(self.children_indices[k]);
            k = k + 1;
            proof {
                assert(children@ =~= self.children_indices@.take(k as int));
            }
        }
        proof {
            assert(children@ =~= self.children_indices@) by {
                assert(self.children_indices@.take(self.children_indices@.len() as int)
                    =~= self.children_indices@);
            }
        }
        ProjectNode {
            name: self.name.clone(),
            full_path: self.full_path.clone(),
            task_count: self.task_count,
            direct_task_count: self.direct_task_count,
            level: self.level,
            children_indices: children,
            is_expanded: self.is_expanded,
        }
    }

    /// Whether this node has any children.
    pub fn has_children(&self) -> (r: bool)
        ensures
            r == (self.children_indices@.len() > 0),
    {
        self.children_indices.len() > 0
    }
}

/// Whether `i` is a segment boundary of a dotted path: its end, or the
/// position of a `'.'`.
pub open spec fn is_boundary(path: Seq<char>, i: int) -> bool {
    0 <= i <= path.len() && (i == path.len() || path[i] == '.')
}

/// Whether `p` is a segment-aligned prefix of a dotted path: the paths of a
/// node and of all its ancestors satisfy this for the node's full path.
pub open spec fn is_dotted_prefix(p: Seq<char>, path: Seq<char>) -> bool {
    p.len() <= path.len() && p == path.take(p.len() as int) && is_boundary(path, p.len() as int)
}

/// The start of a path's last segment: the position after its last `'.'`.
pub open spec fn last_segment_start(p: Seq<char>) -> int
    decreases p.len(),
{
    if p.len() == 0 {
        0
    } else if p.last() == '.' {
        p.len() as int
    } else {
        last_segment_start(p.drop_last())
    }
}

/// A path's last segment.
pub open spec fn last_segment_of(p: Seq<char>) -> Seq<char> {
    p.skip(last_segment_start(p))
}

/// How many `'.'` separators a path holds; a node's nesting level.
pub open spec fn dot_count(p: Seq<char>) -> int
    decreases p.len(),
{
    if p.len() == 0 {
        0
    } else {
        dot_count(p.drop_last()) + if p.last() == '.' {
            1int
        } else {
            0int
        }
    }
}

/// The start of the last segment lies within the path.
pub proof fn lemma_last_segment_start_bounds(p: Seq<char>)
    ensures
        0 <= last_segment_start(p) <= p.len(),
    decreases p.len(),
{
    if p.len() != 0 && p.last() != '.' {
        lemma_last_segment_start_bounds(p.drop_last());
    }
}

/// The last segment starts right after a separator, and no separator
/// follows it; a path has no separator exactly when its last segment is the
/// whole path.
pub proof fn lemma_last_segment_props(p: Seq<char>)
    ensures
        0 <= last_segment_start(p) <= p.len(),
        last_segment_start(p) >= 1 ==> p[last_segment_start(p) - 1] == '.',
        forall|m: int| last_segment_start(p) <= m < p.len() ==> p[m] != '.',
        dot_count(p) >= 0,
        (last_segment_start(p) == 0) <==> (dot_count(p) == 0),
    decreases p.len(),
{
    if p.len() != 0 {
        lemma_last_segment_props(p.drop_last());
        assert(forall|m: int| 0 <= m < p.len() - 1 ==> p[m] == p.drop_last()[m]);
    }
}

/// The path of a node's parent: everything before the final separator.
pub open spec fn parent_path_of(p: Seq<char>) -> Seq<char> {
    p.take(last_segment_start(p) - 1)
}

/// Whether `child` extends `parent` by exactly one segment.
pub open spec fn is_child_path(parent: Seq<char>, child: Seq<char>) -> bool {
    &&& last_segment_start(child) >= 1
    &&& parent == parent_path_of(child)
}

/// Full linkage of the tree: the root list holds exactly the nodes whose
/// path has no separator, each once; every node's child list holds exactly
/// the nodes whose path extends its own by one segment, each once; and every
/// node below the top level has its parent in the tree.
pub open spec fn tree_linked(nodes: Seq<ProjectNode>, roots: Seq<usize>) -> bool {
    &&& forall|k: int|
        0 <= k < roots.len() ==> (#[trigger] roots[k]) < nodes.len() && dot_count(
            nodes[roots[k] as int].full_path@,
        ) == 0
    &&& forall|i: int|
        0 <= i < nodes.len() && dot_count(#[trigger] nodes[i].full_path@) == 0 ==> roots.contains(
            i as usize,
        )
    &&& roots.no_duplicates()
    &&& forall|i: int, ch: int|
        #![auto]
        0 <= i < nodes.len() && 0 <= ch < nodes.len() ==> (nodes[i].children_indices@.contains(
            ch as usize,
        ) <==> is_child_path(nodes[i].full_path@, nodes[ch].full_path@))
    &&& forall|i: int|
        0 <= i < nodes.len() ==> (#[trigger] nodes[i].children_indices@).no_duplicates()
    &&& forall|i: int|
        0 <= i < nodes.len() && dot_count(#[trigger] nodes[i].full_path@) != 0 ==> has_path(
            nodes,
            parent_path_of(nodes[i].full_path@),
        )
}

/// Linkage only concerns paths, child lists and the root list: two trees
/// that agree on those are linked alike.
pub proof fn lemma_linked_same_structure(
    a: Seq<ProjectNode>,
    b: Seq<ProjectNode>,
    roots: Seq<usize>,
)
    requires
        a.len() == b.len(),
        forall|t: int|
            #![auto]
            0 <= t < a.len() ==> a[t].full_path == b[t].full_path && a[t].children_indices
                == b[t].children_indices,
        tree_linked(a, roots),
    ensures
        tree_linked(b, roots),
{
    assert forall|i: int|
        0 <= i < b.len() && dot_count(#[trigger] b[i].full_path@) != 0 implies has_path(
        b,
        parent_path_of(b[i].full_path@),
    ) by {
        lemma_same_paths_same_has(a, b, parent_path_of(a[i].full_path@));
    }
}

/// Creating one node keeps the tree linked: the fresh node hangs off the
/// node of its parent path (or joins the roots when its path has no
/// separator), and no other link changes.
proof fn lemma_linked_after_create(
    pre: Seq<ProjectNode>,
    pre_roots: Seq<usize>,
    now: Seq<ProjectNode>,
    roots: Seq<usize>,
    prefix: Seq<char>,
    parent: Option<usize>,
    idx: usize,
)
    requires
        tree_linked(pre, pre_roots),
        tree_wf(pre, pre_roots),
        forall|t: int| 0 <= t < pre.len() ==> (#[trigger] pre[t].full_path@) != prefix,
        idx == pre.len(),
        now.len() == pre.len() + 1,
        forall|t: int| #![auto] 0 <= t < pre.len() ==> now[t].full_path == pre[t].full_path,
        now[idx as int].full_path@ == prefix,
        now[idx as int].children_indices@ == Seq::<usize>::empty(),
        match parent {
            Some(pi) => {
                &&& pi < pre.len()
                &&& last_segment_start(prefix) >= 1
                &&& pre[pi as int].full_path@ == parent_path_of(prefix)
                &&& roots == pre_roots
                &&& forall|t: int|
                    #![auto]
                    0 <= t < pre.len() && t != pi ==> now[t].children_indices
                        == pre[t].children_indices
                &&& now[pi as int].children_indices@ == pre[pi as int].children_indices@.push(idx)
            },
            None => {
                &&& last_segment_start(prefix) == 0
                &&& roots == pre_roots.push(idx)
                &&& forall|t: int|
                    #![auto]
                    0 <= t < pre.len() ==> now[t].children_indices == pre[t].children_indices
            },
        },
    ensures
        tree_linked(now, roots),
{
    lemma_last_segment_props(prefix);
    // the root list: in range, separator-free, complete, and duplicate-free
    assert forall|k: int|
        0 <= k < roots.len() implies (#[trigger] roots[k]) < now.len() && dot_count(
        now[roots[k] as int].full_path@,
    ) == 0 by {
        if k < pre_roots.len() {
            assert(roots[k] == pre_roots[k]);
        }
    }
    assert forall|i: int|
        0 <= i < now.len() && dot_count(#[trigger] now[i].full_path@) == 0 implies roots.contains(
        i as usize,
    ) by {
        if i < pre.len() {
            assert(pre_roots.contains(i as usize));
            let k = choose|k: int| 0 <= k < pre_roots.len() && pre_roots[k] == i as usize;
            assert(roots[k] == i as usize);
        } else {
            assert(last_segment_start(prefix) == 0);
            assert(roots.last() == idx);
        }
    }
    assert(roots.no_duplicates()) by {
        if parent is None {
            assert(forall|k: int| 0 <= k < pre_roots.len() ==> roots[k] == pre_roots[k]);
            assert(roots.last() == idx);
        }
    }
    // the child lists: exact, and duplicate-free
    assert forall|i: int, ch: int|
        #![auto]
        0 <= i < now.len() && 0 <= ch < now.len() implies (now[i].children_indices@.contains(
        ch as usize,
    ) <==> is_child_path(now[i].full_path@, now[ch].full_path@)) by {
        lemma_last_segment_props(now[ch].full_path@);
        if ch == idx {
            if i == idx {
                if last_segment_start(prefix) >= 1 {
                    assert(prefix != parent_path_of(prefix)) by {
                        assert(parent_path_of(prefix).len() < prefix.len());
                    }
                }
            } else {
                match parent {
                    Some(pi) => {
                        if i == pi {
                            assert(now[i].children_indices@.last() == idx);
                            assert(is_child_path(now[i].full_path@, prefix));
                        } else {
                            assert(forall|q: int|
                                0 <= q < pre[i].children_indices@.len()
                                    ==> #[trigger] pre[i].children_indices@[q] < pre.len());
                            assert(!now[i].children_indices@.contains(idx));
                            if is_child_path(now[i].full_path@, prefix) {
                                assert(pre[i].full_path@ == pre[pi as int].full_path@);
                            }
                        }
                    },
                    None => {
                        assert(forall|q: int|
                            0 <= q < pre[i].children_indices@.len()
                                ==> #[trigger] pre[i].children_indices@[q] < pre.len());
                        assert(!now[i].children_indices@.contains(idx));
                        assert(!is_child_path(now[i].full_path@, prefix));
                    },
                }
            }
        } else {
            if i == idx {
                assert(!now[i].children_indices@.contains(ch as usize));
                if is_child_path(prefix, now[ch].full_path@) {
                    assert(dot_count(pre[ch].full_path@) != 0);
                    assert(has_path(pre, parent_path_of(pre[ch].full_path@)));
                    let w = choose|w: int|
                        0 <= w < pre.len() && pre[w].full_path@ == parent_path_of(
                            pre[ch].full_path@,
                        );
                    assert(pre[w].full_path@ == prefix);
                }
            } else {
                assert(pre[i].children_indices@.contains(ch as usize) <==> is_child_path(
                    pre[i].full_path@,
                    pre[ch].full_path@,
                ));
                match parent {
                    Some(pi) => {
                        if i == pi {
                            assert(now[i].children_indices@.contains(ch as usize)
                                <==> pre[i].children_indices@.contains(ch as usize)) by {
                                if pre[i].children_indices@.contains(ch as usize) {
                                    let q = choose|q: int|
                                        0 <= q < pre[i].children_indices@.len()
                                            && pre[i].children_indices@[q] == ch as usize;
                                    assert(now[i].children_indices@[q] == ch as usize);
                                }
                                if now[i].children_indices@.contains(ch as usize) {
                                    let q = choose|q: int|
                                        0 <= q < now[i].children_indices@.len()
                                            && now[i].children_indices@[q] == ch as usize;
                                    assert(q < pre[i].children_indices@.len());
                                    assert(pre[i].children_indices@[q] == ch as usize);
                                }
                            }
                        }
                    },
                    None => {},
                }
            }
        }
    }
    assert forall|i: int|
        0 <= i < now.len() implies (#[trigger] now[i].children_indices@).no_duplicates() by {
        if i < pre.len() {
            match parent {
                Some(pi) => {
                    if i == pi {
                        assert(forall|q: int|
                            0 <= q < pre[i].children_indices@.len()
                                ==> #[trigger] pre[i].children_indices@[q] < pre.len());
                        assert(forall|q: int|
                            0 <= q < pre[i].children_indices@.len()
                                ==> now[i].children_indices@[q] == pre[i].children_indices@[q]);
                        assert(now[i].children_indices@.last() == idx);
                    }
                },
                None => {},
            }
        }
    }
    // every node below the top level has its parent present
    assert forall|i: int|
        0 <= i < now.len() && dot_count(#[trigger] now[i].full_path@) != 0 implies has_path(
        now,
        parent_path_of(now[i].full_path@),
    ) by {
        if i < pre.len() {
            let w = choose|w: int|
                0 <= w < pre.len() && pre[w].full_path@ == parent_path_of(pre[i].full_path@);
            assert(now[w].full_path@ == parent_path_of(now[i].full_path@));
        } else {
            match parent {
                Some(pi) => {
                    assert(now[pi as int].full_path@ == parent_path_of(prefix));
                },
                None => {},
            }
        }
    }
}

/// The total task count a project list contributes to the node at `p`: the
/// counts of all entries whose path runs through `p`.
pub open spec fn aggregate_count(projects: Seq<(String, usize)>, p: Seq<char>) -> int
    decreases projects.len(),
{
    if projects.len() == 0 {
        0
    } else {
        aggregate_count(projects.drop_last(), p) + if projects.last().0@.len() > 0
            && is_dotted_prefix(p, projects.last().0@) {
            projects.last().1 as int
        } else {
            0
        }
    }
}

/// The task count entered directly under the exact path `p`.
pub open spec fn direct_count(projects: Seq<(String, usize)>, p: Seq<char>) -> int
    decreases projects.len(),
{
    if projects.len() == 0 {
        0
    } else {
        direct_count(projects.drop_last(), p) + if projects.last().0@.len() > 0
            && projects.last().0@ == p {
            projects.last().1 as int
        } else {
            0
        }
    }
}

/// The first node index with the given full path, if any.
pub open spec fn path_index_of(nodes: Seq<ProjectNode>, path: Seq<char>) -> Option<int>
    decreases nodes.len(),
{
    if nodes.len() == 0 {
        None
    } else if nodes[0].full_path@ == path {
        Some(0)
    } else {
        match path_index_of(nodes.drop_first(), path) {
            Some(i) => Some(i + 1),
            None => None,
        }
    }
}

/// Whether some node has the given full path.
pub open spec fn has_path(nodes: Seq<ProjectNode>, path: Seq<char>) -> bool {
    exists|i: int| 0 <= i < nodes.len() && nodes[i].full_path@ == path
}

/// A path is present exactly when the index lookup finds it.
pub proof fn lemma_has_path_index(nodes: Seq<ProjectNode>, path: Seq<char>)
    ensures
        has_path(nodes, path) <==> path_index_of(nodes, path) is Some,
    decreases nodes.len(),
{
    if nodes.len() != 0 {
        lemma_has_path_index(nodes.drop_first(), path);
        assert(forall|j: int|
            0 <= j < nodes.drop_first().len() ==> nodes.drop_first()[j] == nodes[j + 1]);
        if has_path(nodes, path) && nodes[0].full_path@ != path {
            let i = choose|i: int| 0 <= i < nodes.len() && nodes[i].full_path@ == path;
            assert(nodes.drop_first()[i - 1].full_path@ == path);
        }
        if path_index_of(nodes, path) is Some && nodes[0].full_path@ != path {
            let i = path_index_of(nodes.drop_first(), path)->0;
            lemma_path_index_props(nodes.drop_first(), path);
            assert(nodes[i + 1].full_path@ == path);
        }
    }
}

/// A found index is in range, has the path, and is the first such index.
pub proof fn lemma_path_index_props(nodes: Seq<ProjectNode>, path: Seq<char>)
    requires
        path_index_of(nodes, path) is Some,
    ensures
        0 <= path_index_of(nodes, path)->0 < nodes.len(),
        nodes[path_index_of(nodes, path)->0].full_path@ == path,
        forall|j: int| 0 <= j < path_index_of(nodes, path)->0 ==> nodes[j].full_path@ != path,
    decreases nodes.len(),
{
    if nodes.len() != 0 && nodes[0].full_path@ != path {
        lemma_path_index_props(nodes.drop_first(), path);
        let i = path_index_of(nodes, path)->0;
        assert(nodes.drop_first()[i - 1] == nodes[i]);
        assert(forall|j: int| 1 <= j < i ==> nodes.drop_first()[j - 1] == nodes[j]);
    }
}

/// If the first `k` nodes miss the path and node `k` has it, the lookup
/// finds exactly `k`.
pub proof fn lemma_path_index_found(nodes: Seq<ProjectNode>, path: Seq<char>, k: int)
    requires
        0 <= k < nodes.len(),
        nodes[k].full_path@ == path,
        forall|j: int| 0 <= j < k ==> nodes[j].full_path@ != path,
    ensures
        path_index_of(nodes, path) == Some(k),
    decreases nodes.len(),
{
    if k != 0 {
        assert(forall|j: int| 0 <= j < k - 1 ==> nodes.drop_first()[j] == nodes[j + 1]);
        lemma_path_index_found(nodes.drop_first(), path, k - 1);
    }
}

/// If no node has the path, the lookup finds nothing.
pub proof fn lemma_path_index_missing(nodes: Seq<ProjectNode>, path: Seq<char>)
    requires
        forall|j: int| 0 <= j < nodes.len() ==> nodes[j].full_path@ != path,
    ensures
        path_index_of(nodes, path) is None,
    decreases nodes.len(),
{
    if nodes.len() != 0 {
        assert(forall|j: int|
            0 <= j < nodes.drop_first().len() ==> nodes.drop_first()[j] == nodes[j + 1]);
        lemma_path_index_missing(nodes.drop_first(), path);
    }
}

/// When the lookup finds nothing, no node has the path.
pub proof fn lemma_path_index_props_absent(nodes: Seq<ProjectNode>, path: Seq<char>)
    requires
        path_index_of(nodes, path) is None,
    ensures
        forall|j: int| 0 <= j < nodes.len() ==> nodes[j].full_path@ != path,
    decreases nodes.len(),
{
    if nodes.len() != 0 {
        lemma_path_index_props_absent(nodes.drop_first(), path);
        assert(forall|j: int|
            0 <= j < nodes.drop_first().len() ==> nodes.drop_first()[j] == nodes[j + 1]);
        assert(forall|j: int| 1 <= j < nodes.len() ==> nodes[j] == nodes.drop_first()[j - 1]);
    }
}

/// The remembered expansion states as a map from path to state; later
/// entries overwrite earlier ones.
pub open spec fn expanded_map_of(s: Seq<(String, bool)>) -> Map<Seq<char>, bool>
    decreases s.len(),
{
    if s.len() == 0 {
        Map::empty()
    } else {
        expanded_map_of(s.drop_last()).insert(s.last().0@, s.last().1)
    }
}

/// The remembered state for a path, defaulting to collapsed.
pub open spec fn expanded_state(m: Map<Seq<char>, bool>, p: Seq<char>) -> bool {
    if m.contains_key(p) {
        m[p]
    } else {
        false
    }
}

/// The remembered-expansion map after marking, in order, every boundary
/// prefix shorter than `b` of a path that has a node.
pub open spec fn expand_marks(
    m: Map<Seq<char>, bool>,
    nodes: Seq<ProjectNode>,
    path: Seq<char>,
    b: int,
) -> Map<Seq<char>, bool>
    decreases b,
{
    if b <= 0 {
        m
    } else {
        let prev = expand_marks(m, nodes, path, b - 1);
        if is_boundary(path, b - 1) && has_path(nodes, path.take(b - 1)) {
            prev.insert(path.take(b - 1), true)
        } else {
            prev
        }
    }
}

/// Marking leaves every key that is not a present boundary prefix exactly
/// as it was.
proof fn lemma_expand_marks_other(
    m: Map<Seq<char>, bool>,
    nodes: Seq<ProjectNode>,
    path: Seq<char>,
    b: int,
    p: Seq<char>,
)
    requires
        !(is_dotted_prefix(p, path) && has_path(nodes, p)),
    ensures
        expand_marks(m, nodes, path, b).contains_key(p) == m.contains_key(p),
        m.contains_key(p) ==> expand_marks(m, nodes, path, b)[p] == m[p],
    decreases b,
{
    if b > 0 {
        lemma_expand_marks_other(m, nodes, path, b - 1, p);
        if is_boundary(path, b - 1) && has_path(nodes, path.take(b - 1)) {
            assert(is_dotted_prefix(path.take(b - 1), path));
            assert(path.take(b - 1) != p);
        }
    }
}

/// Every present boundary prefix below the mark bound ends up remembered as
/// expanded.
proof fn lemma_expand_marks_hit(
    m: Map<Seq<char>, bool>,
    nodes: Seq<ProjectNode>,
    path: Seq<char>,
    b: int,
    p: Seq<char>,
)
    requires
        is_dotted_prefix(p, path),
        has_path(nodes, p),
        p.len() < b,
    ensures
        expand_marks(m, nodes, path, b).contains_key(p),
        expand_marks(m, nodes, path, b)[p] == true,
    decreases b,
{
    if b > 0 {
        if p.len() == b - 1 {
            assert(path.take(b - 1) == p);
        } else {
            lemma_expand_marks_hit(m, nodes, path, b - 1, p);
            if is_boundary(path, b - 1) && has_path(nodes, path.take(b - 1)) {
                assert(path.take(b - 1).len() == b - 1);
            }
        }
    }
}

/// Every child index points strictly past its parent and stays in range.
pub open spec fn children_ok(nodes: Seq<ProjectNode>) -> bool {
    forall|i: int, k: int|
        0 <= i < nodes.len() && 0 <= k < nodes[i].children_indices@.len() ==> i
            < #[trigger] nodes[i].children_indices@[k] < nodes.len()
}

/// Structural well-formedness: full paths are unique, and every child or
/// root index is in range, with children strictly after their parent.
pub open spec fn tree_wf(nodes: Seq<ProjectNode>, roots: Seq<usize>) -> bool {
    &&& forall|i: int, j: int|
        0 <= i < j < nodes.len() ==> nodes[i].full_path@ != nodes[j].full_path@
    &&& children_ok(nodes)
    &&& forall|k: int| 0 <= k < roots.len() ==> #[trigger] roots[k] < nodes.len()
}

/// The preorder of node indices visible from one node: the node itself,
/// then — only when it is expanded — its children's subtrees in order.
pub open spec fn visible_from(nodes: Seq<ProjectNode>, idx: int) -> Seq<int>
    decreases nodes.len() - idx, 1int, 0int,
        when children_ok(nodes) && 0 <= idx < nodes.len()
{
    seq![idx] + if nodes[idx].is_expanded {
        visible_children(nodes, idx, 0)
    } else {
        Seq::empty()
    }
}

/// The concatenated visible subtrees of the children of `idx`, from child
/// position `k` on.
pub open spec fn visible_children(nodes: Seq<ProjectNode>, idx: int, k: int) -> Seq<int>
    decreases nodes.len() - idx, 0int, nodes[idx].children_indices@.len() - k,
        when children_ok(nodes) && 0 <= idx < nodes.len() && 0 <= k
{
    if k >= nodes[idx].children_indices@.len() {
        Seq::empty()
    } else {
        visible_from(nodes, nodes[idx].children_indices@[k] as int) + visible_children(
            nodes,
            idx,
            k + 1,
        )
    }
}

/// The concatenated visible subtrees of the roots, from root position `k`
/// on.
pub open spec fn visible_roots(nodes: Seq<ProjectNode>, roots: Seq<usize>, k: int) -> Seq<int>
    decreases roots.len() - k,
{
    if k < 0 || k >= roots.len() {
        Seq::empty()
    } else {
        visible_from(nodes, roots[k] as int) + visible_roots(nodes, roots, k + 1)
    }
}

/// The total of all counts in a project list.
pub open spec fn sum_counts(projects: Seq<(String, usize)>) -> int
    decreases projects.len(),
{
    if projects.len() == 0 {
        0
    } else {
        sum_counts(projects.drop_last()) + projects.last().1 as int
    }
}

/// Aggregate and direct counts are nonnegative and bounded by the total.
pub proof fn lemma_count_bounds(projects: Seq<(String, usize)>, p: Seq<char>)
    ensures
        0 <= aggregate_count(projects, p) <= sum_counts(projects),
        0 <= direct_count(projects, p) <= aggregate_count(projects, p),
    decreases projects.len(),
{
    if projects.len() != 0 {
        lemma_count_bounds(projects.drop_last(), p);
        if projects.last().0@.len() > 0 && projects.last().0@ == p {
            assert(is_dotted_prefix(p, p)) by {
                assert(p.take(p.len() as int) =~= p);
            }
        }
    }
}

/// A prefix of the list contributes at most the whole list's total.
pub proof fn lemma_sum_take_le(projects: Seq<(String, usize)>, k: int)
    requires
        0 <= k <= projects.len(),
    ensures
        sum_counts(projects.take(k)) <= sum_counts(projects),
    decreases projects.len() - k,
{
    if k < projects.len() {
        lemma_sum_take_le(projects, k + 1);
        assert(projects.take(k + 1).drop_last() =~= projects.take(k));
        assert(projects.take(k + 1).last() == projects[k]);
    } else {
        assert(projects.take(k) =~= projects);
    }
}

/// A path with a nonzero aggregate lies on some entry's path.
pub proof fn lemma_aggregate_origin(projects: Seq<(String, usize)>, p: Seq<char>)
    requires
        aggregate_count(projects, p) != 0,
    ensures
        exists|k: int|
            #![auto]
            0 <= k < projects.len() && projects[k].0@.len() > 0 && is_dotted_prefix(
                p,
                projects[k].0@,
            ),
    decreases projects.len(),
{
    if projects.len() != 0 {
        let last = projects.len() - 1;
        if projects.last().0@.len() > 0 && is_dotted_prefix(p, projects.last().0@) {
            assert(projects[last].0@.len() > 0 && is_dotted_prefix(p, projects[last].0@));
        } else {
            lemma_aggregate_origin(projects.drop_last(), p);
            let k = choose|k: int|
                #![auto]
                0 <= k < projects.drop_last().len() && projects.drop_last()[k].0@.len() > 0
                    && is_dotted_prefix(p, projects.drop_last()[k].0@);
            assert(projects.drop_last()[k] == projects[k]);
            assert(projects[k].0@.len() > 0 && is_dotted_prefix(p, projects[k].0@));
        }
    }
}

/// A path with a nonzero direct count is some entry's exact path.
pub proof fn lemma_direct_origin(projects: Seq<(String, usize)>, p: Seq<char>)
    requires
        direct_count(projects, p) != 0,
    ensures
        exists|k: int|
            #![auto]
            0 <= k < projects.len() && projects[k].0@.len() > 0 && projects[k].0@ == p,
    decreases projects.len(),
{
    if projects.len() != 0 {
        let last = projects.len() - 1;
        if projects.last().0@.len() > 0 && projects.last().0@ == p {
            assert(projects[last].0@.len() > 0 && projects[last].0@ == p);
        } else {
            lemma_direct_origin(projects.drop_last(), p);
            let k = choose|k: int|
                #![auto]
                0 <= k < projects.drop_last().len() && projects.drop_last()[k].0@.len() > 0
                    && projects.drop_last()[k].0@ == p;
            assert(projects.drop_last()[k] == projects[k]);
            assert(projects[k].0@.len() > 0 && projects[k].0@ == p);
        }
    }
}

/// Field-for-field agreement of two nodes; the child list is compared by
/// its contents.
pub open spec fn node_agrees(a: ProjectNode, b: ProjectNode) -> bool {
    &&& a.name == b.name
    &&& a.full_path == b.full_path
    &&& a.task_count == b.task_count
    &&& a.direct_task_count == b.direct_task_count
    &&& a.level == b.level
    &&& a.children_indices@ == b.children_indices@
    &&& a.is_expanded == b.is_expanded
}

/// Case-folded lexicographic order on character sequences.
pub open spec fn lex_le(a: Seq<char>, b: Seq<char>) -> bool
    decreases a.len(),
{
    if a.len() == 0 {
        true
    } else if b.len() == 0 {
        false
    } else if a[0] == b[0] {
        lex_le(a.drop_first(), b.drop_first())
    } else {
        a[0] < b[0]
    }
}

/// The order is total: one direction always holds.
pub proof fn lemma_lex_le_total(a: Seq<char>, b: Seq<char>)
    ensures
        lex_le(a, b) || lex_le(b, a),
    decreases a.len(),
{
    if a.len() != 0 && b.len() != 0 {
        if a[0] == b[0] {
            lemma_lex_le_total(a.drop_first(), b.drop_first());
        }
    }
}

/// The order is transitive.
pub proof fn lemma_lex_le_trans(a: Seq<char>, b: Seq<char>, c: Seq<char>)
    requires
        lex_le(a, b),
        lex_le(b, c),
    ensures
        lex_le(a, c),
    decreases a.len(),
{
    if a.len() != 0 && b.len() != 0 && c.len() != 0 && a[0] == b[0] && b[0] == c[0] {
        lemma_lex_le_trans(a.drop_first(), b.drop_first(), c.drop_first());
    }
}

/// Compares two character vectors lexicographically.
fn lex_le_chars(a: &Vec<char>, b: &Vec<char>) -> (r: bool)
    ensures
        r == lex_le(a@, b@),
{
    let mut i: usize = 0;
    proof {
        assert(a@.skip(0) =~= a@);
        assert(b@.skip(0) =~= b@);
    }
    while i < a.len() && i < b.len()
        invariant
            i <= a@.len(),
            i <= b@.len(),
            lex_le(a@, b@) == lex_le(a@.skip(i as int), b@.skip(i as int)),
        decreases a@.len() - i,
    {
        let ghost ra = a@.skip(i as int);
        let ghost rb = b@.skip(i as int);
        proof {
            assert(ra[0] == a@[i as int]);
            assert(rb[0] == b@[i as int]);
            assert(ra.drop_first() =~= a@.skip(i + 1));
            assert(rb.drop_first() =~= b@.skip(i + 1));
        }
        if a[i] != b[i] {
            return a[i] < b[i];
        }
        i = i + 1;
    }
    proof {
        let ra = a@.skip(i as int);
        let rb = b@.skip(i as int);
        if i >= a@.len() {
            assert(ra.len() == 0);
        } else {
            assert(rb.len() == 0);
            assert(ra.len() != 0);
        }
    }
    a.len() <= b.len()
}

/// The case-folded name that orders a node among its siblings.
pub open spec fn sort_key(nodes: Seq<ProjectNode>, idx: int) -> Seq<char> {
    lower_seq(nodes[idx].name@)
}

/// Roots and every child list stand in alphabetical, case-folded order.
pub open spec fn sibling_order_holds(nodes: Seq<ProjectNode>, roots: Seq<usize>) -> bool {
    &&& forall|k1: int, k2: int|
        0 <= k1 < k2 < roots.len() && roots[k2] < nodes.len() ==> lex_le(
            sort_key(nodes, roots[k1] as int),
            sort_key(nodes, roots[k2] as int),
        )
    &&& forall|t: int, k1: int, k2: int|
        #![auto]
        0 <= t < nodes.len() && 0 <= k1 < k2 < nodes[t].children_indices@.len() ==> lex_le(
            sort_key(nodes, nodes[t].children_indices@[k1] as int),
            sort_key(nodes, nodes[t].children_indices@[k2] as int),
        )
}

/// One visible row of the tree: a node index and the node itself.
#[derive(Debug)]
pub struct VisibleRow {
    pub index: usize,
    pub node: ProjectNode,
}

/// The index column of a row list.
pub open spec fn row_indices(s: Seq<VisibleRow>) -> Seq<int> {
    s.map_values(|pr: VisibleRow| pr.index as int)
}

/// Dotted project paths aggregated into a tree.
#[derive(Debug)]
pub struct ProjectTree {
    nodes: Vec<ProjectNode>,
    root_indices: Vec<usize>,
    expanded_paths: Vec<(String, bool)>,
}

impl ProjectTree {
    /// The nodes, in creation order.
    pub closed spec fn nodes_seq(&self) -> Seq<ProjectNode> {
        self.nodes@
    }

    /// The indices of the root nodes.
    pub closed spec fn roots_seq(&self) -> Seq<usize> {
        self.root_indices@
    }

    /// The remembered expansion states.
    pub closed spec fn expanded_map(&self) -> Map<Seq<char>, bool> {
        expanded_map_of(self.expanded_paths@)
    }

    /// Structural well-formedness of the whole tree.
    pub open spec fn well_formed(&self) -> bool {
        tree_wf(self.nodes_seq(), self.roots_seq())
    }

    /// An empty tree.
    pub fn new() -> (r: Self)
        ensures
            r.nodes_seq() == Seq::<ProjectNode>::empty(),
            r.roots_seq() == Seq::<usize>::empty(),
            r.expanded_map() == Map::<Seq<char>, bool>::empty(),
            r.well_formed(),
    {
        let r = ProjectTree {
            nodes: Vec::new(),
            root_indices: Vec::new(),
            expanded_paths: Vec::new(),
        };
        proof {
            assert(r.nodes@ =~= Seq::<ProjectNode>::empty());
            assert(r.root_indices@ =~= Seq::<usize>::empty());
            assert(r.expanded_paths@ =~= Seq::<(String, bool)>::empty());
        }
        r
    }

    /// The indices of the root nodes.
    pub fn root_indices(&self) -> (r: &Vec<usize>)
        ensures
            r@ == self.roots_seq(),
    {
        &self.root_indices
    }

    /// The node at an index, if the index is in range.
    pub fn get_node(&self, idx: usize) -> (r: Option<&ProjectNode>)
        ensures
            match r {
                Some(n) => idx < self.nodes_seq().len() && *n == self.nodes_seq()[idx as int],
                None => idx >= self.nodes_seq().len(),
            },
    {
        if idx < self.nodes.len() {
            Some(&self.nodes[idx])
        } else {
            None
        }
    }

    /// The index of the node with this full path, if any.
    fn index_of_path(&self, path: &Vec<char>) -> (r: Option<usize>)
        ensures
            match r {
                Some(i) => path_index_of(self.nodes_seq(), path@) == Some(i as int),
                None => path_index_of(self.nodes_seq(), path@) is None,
            },
    {
        let mut i: usize = 0;
        while i < self.nodes.len()
            invariant
                i <= self.nodes@.len(),
                forall|j: int| 0 <= j < i ==> self.nodes@[j].full_path@ != path@,
            decreases self.nodes@.len() - i,
        {
            if chars_eq_str(path, self.nodes[i].full_path.as_str()) {
                proof {
                    lemma_path_index_found(self.nodes@, path@, i as int);
                }
                return Some(i);
            }
            i = i + 1;
        }
        proof {
            lemma_path_index_missing(self.nodes@, path@);
        }
        None
    }

    /// The node with this full path, if any.
    pub fn find_by_path(&self, path: &str) -> (r: Option<&ProjectNode>)
        ensures
            match r {
                Some(n) => has_path(self.nodes_seq(), path@) && *n == self.nodes_seq()[
                    path_index_of(self.nodes_seq(), path@)->0
                ],
                None => !has_path(self.nodes_seq(), path@),
            },
    {
        let chars = chars_of(path);
        proof {
            lemma_has_path_index(self.nodes@, path@);
        }
        match self.index_of_path(&chars) {
            Some(i) => {
                proof {
                    lemma_path_index_props(self.nodes@, path@);
                }
                Some(&self.nodes[i])
            },
            None => None,
        }
    }

    /// Flips the expansion state of the node with this full path, remembering
    /// the new state; a path with no node changes nothing.
    pub fn toggle_expansion(&mut self, full_path: &str)
        ensures
            match path_index_of(old(self).nodes_seq(), full_path@) {
                Some(i) => {
                    &&& final(self).nodes_seq() == old(self).nodes_seq().update(
                        i,
                        (ProjectNode {
                            is_expanded: !old(self).nodes_seq()[i].is_expanded,
                            ..old(self).nodes_seq()[i]
                        }),
                    )
                    &&& final(self).expanded_map() == old(self).expanded_map().insert(
                        full_path@,
                        !old(self).nodes_seq()[i].is_expanded,
                    )
                },
                None => {
                    &&& final(self).nodes_seq() == old(self).nodes_seq()
                    &&& final(self).expanded_map() == old(self).expanded_map()
                },
            },
            final(self).roots_seq() == old(self).roots_seq(),
            old(self).well_formed() ==> final(self).well_formed(),
            tree_linked(old(self).nodes_seq(), old(self).roots_seq()) ==> tree_linked(
                final(self).nodes_seq(),
                final(self).roots_seq(),
            ),
    {
        let chars = chars_of(full_path);
        if let Some(i) = self.index_of_path(&chars) {
            proof {
                lemma_path_index_props(self.nodes@, full_path@);
            }
            let new_state = !self.nodes[i].is_expanded;
            self.nodes[i].is_expanded = new_state;
            self.remember_expanded(full_path, new_state);
            proof {
                assert(self.nodes@ =~= old(self).nodes@.update(
                    i as int,
                    (ProjectNode {
                        is_expanded: !old(self).nodes@[i as int].is_expanded,
                        ..old(self).nodes@[i as int]
                    }),
                ));
            }
        }
        proof {
            if tree_linked(old(self).nodes@, old(self).root_indices@) {
                assert forall|t: int| #![auto] 0 <= t < self.nodes@.len() implies self.nodes@[t].full_path
                    == old(self).nodes@[t].full_path && self.nodes@[t].children_indices == old(self).nodes@[t].children_indices by {}
                lemma_linked_same_structure(old(self).nodes@, self.nodes@, self.root_indices@);
            }
        }
    }

    /// Collapses every node and forgets all remembered expansion states.
    pub fn collapse_all(&mut self)
        ensures
            final(self).nodes_seq().len() == old(self).nodes_seq().len(),
            forall|i: int|
                0 <= i < old(self).nodes_seq().len() ==> final(self).nodes_seq()[i]
                    == (ProjectNode { is_expanded: false, ..old(self).nodes_seq()[i] }),
            final(self).expanded_map() == Map::<Seq<char>, bool>::empty(),
            final(self).roots_seq() == old(self).roots_seq(),
            old(self).well_formed() ==> final(self).well_formed(),
            tree_linked(old(self).nodes_seq(), old(self).roots_seq()) ==> tree_linked(
                final(self).nodes_seq(),
                final(self).roots_seq(),
            ),
    {
        let n = self.nodes.len();
        let mut i: usize = 0;
        while i < n
            invariant
                n == self.nodes@.len(),
                self.nodes@.len() == old(self).nodes@.len(),
                i <= n,
                forall|j: int|
                    0 <= j < i ==> self.nodes@[j] == (ProjectNode {
                        is_expanded: false,
                        ..old(self).nodes@[j]
                    }),
                forall|j: int| i <= j < n ==> self.nodes@[j] == old(self).nodes@[j],
                self.root_indices@ == old(self).root_indices@,
                self.expanded_paths@ == old(self).expanded_paths@,
            decreases n - i,
        {
            self.nodes[i].is_expanded = false;
            i = i + 1;
        }
        self.expanded_paths = Vec::new();
        proof {
            assert(self.expanded_paths@ =~= Seq::<(String, bool)>::empty());
            assert(self.expanded_map() =~= Map::<Seq<char>, bool>::empty());
            if old(self).well_formed() {
                assert(final(self).well_formed()) by {
                    assert(forall|i2: int, k: int|
                        0 <= i2 < self.nodes@.len() && 0 <= k
                            < self.nodes@[i2].children_indices@.len() ==> i2
                            < #[trigger] self.nodes@[i2].children_indices@[k]
                            < self.nodes@.len()) by {
                        assert(forall|i2: int|
                            0 <= i2 < self.nodes@.len()
                                ==> #[trigger] self.nodes@[i2].children_indices
                                == old(self).nodes@[i2].children_indices);
                    }
                }
            }
            if tree_linked(old(self).nodes@, old(self).root_indices@) {
                assert forall|t: int| #![auto] 0 <= t < self.nodes@.len() implies self.nodes@[t].full_path
                    == old(self).nodes@[t].full_path && self.nodes@[t].children_indices == old(self).nodes@[t].children_indices by {}
                lemma_linked_same_structure(old(self).nodes@, self.nodes@, self.root_indices@);
            }
        }
    }

    /// Appends or overwrites a remembered expansion state.
    fn remember_expanded(&mut self, path: &str, state: bool)
        ensures
            final(self).expanded_map() == old(self).expanded_map().insert(path@, state),
            final(self).nodes_seq() == old(self).nodes_seq(),
            final(self).roots_seq() == old(self).roots_seq(),
    {
        self.expanded_paths.push((String::from_str(path), state));
        proof {
            assert(self.expanded_paths@.drop_last() =~= old(self).expanded_paths@);
            assert(self.expanded_paths@.last().0@ == path@);
        }
    }

    /// The remembered expansion state for a path, defaulting to collapsed.
    fn lookup_expanded(&self, path: &Vec<char>) -> (r: bool)
        ensures
            r == expanded_state(self.expanded_map(), path@),
    {
        let ghost full = self.expanded_paths@;
        let mut i: usize = self.expanded_paths.len();
        proof {
            assert(full.take(i as int) =~= full);
        }
        while i > 0
            invariant
                i <= self.expanded_paths@.len(),
                full == self.expanded_paths@,
                expanded_state(expanded_map_of(full), path@) == expanded_state(
                    expanded_map_of(full.take(i as int)),
                    path@,
                ),
            decreases i,
        {
            let ghost pre = full.take(i as int);
            proof {
                assert(pre.drop_last() =~= full.take(i - 1));
                assert(pre.last() == full[i - 1]);
            }
            if chars_eq_str(path, self.expanded_paths[i - 1].0.as_str()) {
                return self.expanded_paths[i - 1].1;
            }
            i = i - 1;
        }
        proof {
            assert(full.take(0) =~= Seq::<(String, bool)>::empty());
        }
        false
    }

    /// Finds or creates the node for one segment-aligned prefix and adds the
    /// count to it (as a direct count too, when asked).  Returns the node's
    /// index.
    fn bump_path_node(
        &mut self,
        prefix: &Vec<char>,
        seg: &Vec<char>,
        level: usize,
        count: usize,
        direct: bool,
        parent: Option<usize>,
    ) -> (idx: usize)
        requires
            old(self).well_formed(),
            match parent {
                Some(pi) => pi < old(self).nodes_seq().len(),
                None => true,
            },
            match path_index_of(old(self).nodes_seq(), prefix@) {
                Some(i) => old(self).nodes_seq()[i].task_count + count <= usize::MAX
                    && old(self).nodes_seq()[i].direct_task_count + count <= usize::MAX,
                None => true,
            },
        ensures
            final(self).well_formed(),
            final(self).expanded_map() == old(self).expanded_map(),
            match path_index_of(old(self).nodes_seq(), prefix@) {
                Some(i) => {
                    &&& idx == i
                    &&& final(self).nodes_seq().len() == old(self).nodes_seq().len()
                    &&& final(self).roots_seq() == old(self).roots_seq()
                    &&& forall|t: int|
                        0 <= t < old(self).nodes_seq().len() && t != i
                            ==> final(self).nodes_seq()[t] == old(self).nodes_seq()[t]
                    &&& final(self).nodes_seq()[i] == (ProjectNode {
                        task_count: (old(self).nodes_seq()[i].task_count + count) as usize,
                        direct_task_count: (old(self).nodes_seq()[i].direct_task_count + (
                        if direct {
                            count as int
                        } else {
                            0
                        })) as usize,
                        ..old(self).nodes_seq()[i]
                    })
                },
                None => {
                    &&& idx == old(self).nodes_seq().len()
                    &&& final(self).nodes_seq().len() == old(self).nodes_seq().len() + 1
                    &&& forall|t: int|
                        #![auto]
                        0 <= t < old(self).nodes_seq().len() ==> {
                            &&& final(self).nodes_seq()[t].full_path == old(self).nodes_seq()[t].full_path
                            &&& final(self).nodes_seq()[t].name == old(self).nodes_seq()[t].name
                            &&& final(self).nodes_seq()[t].level == old(self).nodes_seq()[t].level
                            &&& final(self).nodes_seq()[t].is_expanded == old(self).nodes_seq()[t].is_expanded
                            &&& final(self).nodes_seq()[t].task_count == old(self).nodes_seq()[t].task_count
                            &&& final(self).nodes_seq()[t].direct_task_count == old(self).nodes_seq()[t].direct_task_count
                        }
                    &&& final(self).nodes_seq()[idx as int].full_path@ == prefix@
                    &&& final(self).nodes_seq()[idx as int].name@ == seg@
                    &&& final(self).nodes_seq()[idx as int].level == level
                    &&& final(self).nodes_seq()[idx as int].is_expanded == expanded_state(
                        old(self).expanded_map(),
                        prefix@,
                    )
                    &&& final(self).nodes_seq()[idx as int].task_count == count
                    &&& final(self).nodes_seq()[idx as int].direct_task_count == (
                    if direct {
                        count as int
                    } else {
                        0
                    })
                    &&& final(self).nodes_seq()[idx as int].children_indices@ == Seq::<
                        usize,
                    >::empty()
                    &&& (match parent {
                        Some(pi) => {
                            &&& final(self).roots_seq() == old(self).roots_seq()
                            &&& forall|t: int|
                                #![auto]
                                0 <= t < old(self).nodes_seq().len() && t != pi ==> final(self).nodes_seq()[t].children_indices == old(self).nodes_seq()[t].children_indices
                            &&& final(self).nodes_seq()[pi as int].children_indices@ == old(self).nodes_seq()[pi as int].children_indices@.push(idx)
                        },
                        None => {
                            &&& final(self).roots_seq() == old(self).roots_seq().push(idx)
                            &&& forall|t: int|
                                #![auto]
                                0 <= t < old(self).nodes_seq().len() ==> final(self).nodes_seq()[t].children_indices == old(self).nodes_seq()[t].children_indices
                        },
                    })
                },
            },
    {
        proof {
            lemma_has_path_index(self.nodes@, prefix@);
        }
        match self.index_of_path(prefix) {
            Some(i) => {
                proof {
                    lemma_path_index_props(self.nodes@, prefix@);
                }
                let t = self.nodes[i].task_count;
                self.nodes[i].task_count = t + count;
                if direct {
                    let d = self.nodes[i].direct_task_count;
                    self.nodes[i].direct_task_count = d + count;
                }
                proof {
                    assert(forall|t2: int|
                        0 <= t2 < self.nodes@.len() && t2 != i
                            ==> self.nodes@[t2] == old(self).nodes@[t2]);
                    assert(forall|i2: int, k: int|
                        0 <= i2 < self.nodes@.len() && 0 <= k
                            < self.nodes@[i2].children_indices@.len()
                            ==> #[trigger] self.nodes@[i2].children_indices@[k]
                            == old(self).nodes@[i2].children_indices@[k]) by {
                        assert(forall|i2: int|
                            0 <= i2 < self.nodes@.len()
                                ==> #[trigger] self.nodes@[i2].children_indices
                                == old(self).nodes@[i2].children_indices);
                    }
                }
                i
            },
            None => {
                let new_idx = self.nodes.len();
                let expanded = self.lookup_expanded(prefix);
                let node = ProjectNode {
                    name: chars_to_string(seg),
                    full_path: chars_to_string(prefix),
                    task_count: count,
                    direct_task_count: if direct {
                        count
                    } else {
                        0
                    },
                    level,
                    children_indices: Vec::new(),
                    is_expanded: expanded,
                };
                self.nodes.push(node);
                match parent {
                    Some(pi) => {
                        self.nodes[pi].children_indices.push(new_idx);
                        proof {
                            assert(self.nodes@[pi as int].children_indices@.last() == new_idx);
                            assert(self.nodes@[pi as int].children_indices@.drop_last() =~= old(self).nodes@[pi as int].children_indices@);
                        }
                    },
                    None => {
                        self.root_indices.push(new_idx);
                    },
                }
                proof {
                    lemma_path_index_props_absent(old(self).nodes@, prefix@);
                    assert(self.nodes@[new_idx as int].children_indices@ =~= Seq::<
                        usize,
                    >::empty());
                    assert(final(self).well_formed()) by {
                        assert(forall|i2: int, j2: int|
                            0 <= i2 < j2 < self.nodes@.len() ==> self.nodes@[i2].full_path@
                                != self.nodes@[j2].full_path@);
                    }
                }
                new_idx
            },
        }
    }

    /// Inserts one dotted project path: every segment-aligned prefix gets a
    /// node (created on first sight), the entry's count is added all along
    /// the path, and the full path also receives it as a direct count.
    #[verifier::rlimit(50)]
    fn insert_project(&mut self, path: &Vec<char>, count: usize)
        requires
            old(self).well_formed(),
            tree_linked(old(self).nodes_seq(), old(self).roots_seq()),
            path@.len() > 0,
            forall|i: int|
                #![auto]
                0 <= i < old(self).nodes_seq().len() ==> old(self).nodes_seq()[i].task_count
                    + count <= usize::MAX && old(self).nodes_seq()[i].direct_task_count + count
                    <= usize::MAX,
        ensures
            final(self).well_formed(),
            tree_linked(final(self).nodes_seq(), final(self).roots_seq()),
            final(self).expanded_map() == old(self).expanded_map(),
            final(self).nodes_seq().len() >= old(self).nodes_seq().len(),
            forall|i: int|
                #![auto]
                0 <= i < old(self).nodes_seq().len() ==> final(self).nodes_seq()[i].full_path
                    == old(self).nodes_seq()[i].full_path && final(self).nodes_seq()[i].is_expanded
                    == old(self).nodes_seq()[i].is_expanded && final(self).nodes_seq()[i].name
                    == old(self).nodes_seq()[i].name && final(self).nodes_seq()[i].level == old(self).nodes_seq()[i].level,
            forall|i: int|
                #![auto]
                old(self).nodes_seq().len() <= i < final(self).nodes_seq().len()
                    ==> is_dotted_prefix(final(self).nodes_seq()[i].full_path@, path@) && !has_path(
                    old(self).nodes_seq(),
                    final(self).nodes_seq()[i].full_path@,
                ) && final(self).nodes_seq()[i].is_expanded == expanded_state(
                    old(self).expanded_map(),
                    final(self).nodes_seq()[i].full_path@,
                ) && final(self).nodes_seq()[i].name@ == last_segment_of(
                    final(self).nodes_seq()[i].full_path@,
                ) && final(self).nodes_seq()[i].level == dot_count(
                    final(self).nodes_seq()[i].full_path@,
                ),
            forall|i: int|
                #![auto]
                0 <= i < final(self).nodes_seq().len() ==> final(self).nodes_seq()[i].task_count
                    as int == (if i < old(self).nodes_seq().len() {
                    old(self).nodes_seq()[i].task_count as int
                } else {
                    0
                }) + (if is_dotted_prefix(final(self).nodes_seq()[i].full_path@, path@) {
                    count as int
                } else {
                    0
                }),
            forall|i: int|
                #![auto]
                0 <= i < final(self).nodes_seq().len()
                    ==> final(self).nodes_seq()[i].direct_task_count as int == (if i < old(self).nodes_seq().len() {
                    old(self).nodes_seq()[i].direct_task_count as int
                } else {
                    0
                }) + (if final(self).nodes_seq()[i].full_path@ == path@ {
                    count as int
                } else {
                    0
                }),
            forall|j: int|
                is_boundary(path@, j) ==> has_path(
                    final(self).nodes_seq(),
                    #[trigger] path@.take(j),
                ),
    {
        let ghost old_nodes = old(self).nodes@;
        let n = path.len();
        let mut parent: Option<usize> = None;
        let mut level: usize = 0;
        let mut prefix: Vec<char> = Vec::new();
        let mut seg: Vec<char> = Vec::new();
        let mut j: usize = 0;
        proof {
            assert(prefix@ =~= path@.take(0));
            assert(seg@ =~= last_segment_of(path@.take(0))) by {
                assert(path@.take(0) =~= Seq::<char>::empty());
            }
            assert(last_segment_start(path@.take(0)) == 0) by {
                assert(path@.take(0) =~= Seq::<char>::empty());
            }
            assert(old_nodes == old(self).nodes_seq());
            assert(forall|i: int|
                #![auto]
                0 <= i < old_nodes.len() ==> old_nodes[i].task_count + count <= usize::MAX
                    && old_nodes[i].direct_task_count + count <= usize::MAX);
        }
        while j < n
            invariant
                n == path@.len(),
                j <= n,
                level <= j,
                prefix@ == path@.take(j as int),
                seg@ == last_segment_of(path@.take(j as int)),
                level == dot_count(path@.take(j as int)),
                old_nodes == old(self).nodes@,
                forall|i: int|
                    #![auto]
                    0 <= i < old_nodes.len() ==> old_nodes[i].task_count + count <= usize::MAX
                        && old_nodes[i].direct_task_count + count <= usize::MAX,
                self.well_formed(),
                self.expanded_map() == old(self).expanded_map(),
                old_nodes.len() <= self.nodes@.len(),
                forall|i: int|
                    #![auto]
                    0 <= i < old_nodes.len() ==> self.nodes@[i].full_path
                        == old_nodes[i].full_path && self.nodes@[i].is_expanded
                        == old_nodes[i].is_expanded && self.nodes@[i].name == old_nodes[i].name
                        && self.nodes@[i].level == old_nodes[i].level,
                forall|i: int|
                    #![auto]
                    old_nodes.len() <= i < self.nodes@.len() ==> is_dotted_prefix(
                        self.nodes@[i].full_path@,
                        path@,
                    ) && self.nodes@[i].full_path@.len() < j && !has_path(
                        old_nodes,
                        self.nodes@[i].full_path@,
                    ) && self.nodes@[i].is_expanded == expanded_state(
                        old(self).expanded_map(),
                        self.nodes@[i].full_path@,
                    ) && self.nodes@[i].name@ == last_segment_of(self.nodes@[i].full_path@)
                        && self.nodes@[i].level == dot_count(self.nodes@[i].full_path@),
                forall|i: int|
                    #![auto]
                    0 <= i < self.nodes@.len() ==> self.nodes@[i].task_count as int == (if i
                        < old_nodes.len() {
                        old_nodes[i].task_count as int
                    } else {
                        0
                    }) + (if is_dotted_prefix(self.nodes@[i].full_path@, path@)
                        && self.nodes@[i].full_path@.len() < j {
                        count as int
                    } else {
                        0
                    }),
                forall|i: int|
                    #![auto]
                    0 <= i < self.nodes@.len() ==> self.nodes@[i].direct_task_count as int == (
                    if i < old_nodes.len() {
                        old_nodes[i].direct_task_count as int
                    } else {
                        0
                    }),
                forall|b: int|
                    is_boundary(path@, b) && b < j ==> has_path(
                        self.nodes@,
                        #[trigger] path@.take(b),
                    ),
                tree_linked(self.nodes@, self.root_indices@),
                match parent {
                    Some(pi) => pi < self.nodes@.len() && last_segment_start(path@.take(j as int))
                        >= 1 && self.nodes@[pi as int].full_path@ == parent_path_of(
                        path@.take(j as int),
                    ),
                    None => last_segment_start(path@.take(j as int)) == 0,
                },
            decreases n - j,
        {
            let c = path[j];
            if c == '.' {
                let ghost pre_nodes = self.nodes@;
                let ghost pre_roots = self.root_indices@;
                proof {
                    assert(is_boundary(path@, j as int));
                    assert(is_dotted_prefix(prefix@, path@));
                    lemma_has_path_index(self.nodes@, prefix@);
                    if path_index_of(self.nodes@, prefix@) is Some {
                        lemma_path_index_props(self.nodes@, prefix@);
                    }
                }
                let idx = self.bump_path_node(&prefix, &seg, level, count, false, parent);
                proof {
                    let now = self.nodes@;
                    match path_index_of(pre_nodes, prefix@) {
                        Some(i) => {
                            assert(now[i].full_path@ == prefix@);
                            assert(forall|t: int|
                                0 <= t < now.len() && t != i ==> now[t] == pre_nodes[t]);
                            assert forall|t: int| #![auto] 0 <= t < now.len() implies now[t].full_path
                                == pre_nodes[t].full_path && now[t].children_indices
                                == pre_nodes[t].children_indices by {}
                            lemma_linked_same_structure(pre_nodes, now, pre_roots);
                        },
                        None => {
                            assert(!has_path(old_nodes, prefix@)) by {
                                lemma_path_index_props_absent(pre_nodes, prefix@);
                                if has_path(old_nodes, prefix@) {
                                    let w = choose|w: int|
                                        0 <= w < old_nodes.len() && old_nodes[w].full_path@
                                            == prefix@;
                                    assert(pre_nodes[w].full_path@ == prefix@);
                                }
                            }
                            lemma_path_index_props_absent(pre_nodes, prefix@);
                            lemma_linked_after_create(
                                pre_nodes,
                                pre_roots,
                                now,
                                self.root_indices@,
                                prefix@,
                                parent,
                                idx,
                            );
                        },
                    }
                    // every segment-aligned prefix of this length is this prefix
                    assert(forall|p: Seq<char>|
                        is_dotted_prefix(p, path@) && p.len() == j ==> p == prefix@);
                    // earlier coverage survives: full paths were preserved
                    assert forall|b: int| is_boundary(path@, b) && b < j + 1 implies has_path(
                        self.nodes@,
                        #[trigger] path@.take(b),
                    ) by {
                        if b < j {
                            let w = choose|w: int|
                                0 <= w < pre_nodes.len() && pre_nodes[w].full_path@ == path@.take(
                                    b,
                                );
                            assert(self.nodes@[w].full_path@ == path@.take(b));
                        } else {
                            assert(self.nodes@[idx as int].full_path@ == prefix@);
                            assert(path@.take(b) == prefix@);
                        }
                    }
                }
                parent = Some(idx);
                level = level + 1;
                seg = Vec::new();
            }
            prefix.push(c);
            if c != '.' {
                seg.push(c);
            }
            j = j + 1;
            proof {
                assert(prefix@ =~= path@.take(j as int));
                let pre_prefix = path@.take(j - 1);
                assert(path@.take(j as int).drop_last() =~= pre_prefix);
                assert(path@.take(j as int).last() == c);
                lemma_last_segment_start_bounds(pre_prefix);
                if c == '.' {
                    assert(last_segment_start(path@.take(j as int)) == j);
                    assert(seg@ =~= Seq::<char>::empty());
                    assert(seg@ =~= last_segment_of(path@.take(j as int)));
                    assert(parent_path_of(path@.take(j as int)) =~= pre_prefix);
                } else {
                    let lss = last_segment_start(pre_prefix);
                    assert(last_segment_start(path@.take(j as int)) == lss);
                    assert(path@.take(j as int).skip(lss) =~= pre_prefix.skip(lss).push(c));
                    assert(seg@ =~= last_segment_of(path@.take(j as int)));
                    if lss >= 1 {
                        assert(parent_path_of(path@.take(j as int)) =~= parent_path_of(
                            pre_prefix,
                        ));
                    }
                }
                assert(forall|p: Seq<char>|
                    is_dotted_prefix(p, path@) && p.len() == j - 1 ==> is_boundary(
                        path@,
                        j - 1,
                    ));
            }
        }
        // the full path itself is the final segment boundary
        let ghost pre_nodes = self.nodes@;
        let ghost pre_roots = self.root_indices@;
        proof {
            assert(prefix@ =~= path@);
            assert(is_boundary(path@, n as int));
            assert(is_dotted_prefix(prefix@, path@)) by {
                assert(path@.take(n as int) =~= path@);
            }
            lemma_has_path_index(self.nodes@, prefix@);
            if path_index_of(self.nodes@, prefix@) is Some {
                lemma_path_index_props(self.nodes@, prefix@);
            }
        }
        let idx = self.bump_path_node(&prefix, &seg, level, count, true, parent);
        proof {
            let now = self.nodes@;
            match path_index_of(pre_nodes, prefix@) {
                Some(i) => {
                    assert(now[i].full_path@ == path@);
                    assert(forall|t: int| 0 <= t < now.len() && t != i ==> now[t] == pre_nodes[t]);
                    assert forall|t: int| #![auto] 0 <= t < now.len() implies now[t].full_path
                        == pre_nodes[t].full_path && now[t].children_indices
                        == pre_nodes[t].children_indices by {}
                    lemma_linked_same_structure(pre_nodes, now, pre_roots);
                },
                None => {
                    assert(!has_path(old_nodes, path@)) by {
                        lemma_path_index_props_absent(pre_nodes, prefix@);
                        if has_path(old_nodes, path@) {
                            let w = choose|w: int|
                                0 <= w < old_nodes.len() && old_nodes[w].full_path@ == path@;
                            assert(pre_nodes[w].full_path@ == path@);
                        }
                    }
                    lemma_path_index_props_absent(pre_nodes, prefix@);
                    lemma_linked_after_create(
                        pre_nodes,
                        pre_roots,
                        now,
                        self.root_indices@,
                        prefix@,
                        parent,
                        idx,
                    );
                },
            }
            assert(forall|p: Seq<char>|
                is_dotted_prefix(p, path@) && p.len() == n ==> p == path@) by {
                assert(path@.take(n as int) =~= path@);
            }
            assert forall|b: int| is_boundary(path@, b) implies has_path(
                self.nodes@,
                #[trigger] path@.take(b),
            ) by {
                if b < n {
                    let w = choose|w: int|
                        0 <= w < pre_nodes.len() && pre_nodes[w].full_path@ == path@.take(b);
                    assert(self.nodes@[w].full_path@ == path@.take(b));
                } else {
                    assert(self.nodes@[idx as int].full_path@ == path@);
                    assert(path@.take(b) =~= path@);
                }
            }
        }
    }

    /// Rebuilds the tree from a list of `(dotted path, task count)` entries.
    /// Every segment-aligned prefix of a nonempty path becomes one node; a
    /// node's task count totals the counts of all entries whose path runs
    /// through it, its direct count those entered exactly at it; the roots
    /// are exactly the nodes whose path has no separator and each child list
    /// exactly the nodes one segment below its node; remembered expansion
    /// states are re-applied; entries with an empty path are skipped.
    pub fn build_from_projects(&mut self, projects: &Vec<(String, usize)>)
        requires
            sum_counts(projects@) <= usize::MAX,
        ensures
            final(self).well_formed(),
            final(self).expanded_map() == old(self).expanded_map(),
            forall|i: int|
                #![auto]
                0 <= i < final(self).nodes_seq().len() ==> {
                    &&& final(self).nodes_seq()[i].task_count as int == aggregate_count(
                        projects@,
                        final(self).nodes_seq()[i].full_path@,
                    )
                    &&& final(self).nodes_seq()[i].direct_task_count as int == direct_count(
                        projects@,
                        final(self).nodes_seq()[i].full_path@,
                    )
                    &&& final(self).nodes_seq()[i].is_expanded == expanded_state(
                        old(self).expanded_map(),
                        final(self).nodes_seq()[i].full_path@,
                    )
                    &&& final(self).nodes_seq()[i].name@ == last_segment_of(
                        final(self).nodes_seq()[i].full_path@,
                    )
                    &&& final(self).nodes_seq()[i].level == dot_count(
                        final(self).nodes_seq()[i].full_path@,
                    )
                    &&& exists|k: int|
                        #![auto]
                        0 <= k < projects@.len() && projects@[k].0@.len() > 0 && is_dotted_prefix(
                            final(self).nodes_seq()[i].full_path@,
                            projects@[k].0@,
                        )
                },
            forall|k: int, b: int|
                #![auto]
                0 <= k < projects@.len() && projects@[k].0@.len() > 0 && is_boundary(
                    projects@[k].0@,
                    b,
                ) ==> has_path(final(self).nodes_seq(), projects@[k].0@.take(b)),
            sibling_order_holds(final(self).nodes_seq(), final(self).roots_seq()),
            tree_linked(final(self).nodes_seq(), final(self).roots_seq()),
    {
        self.nodes = Vec::new();
        self.root_indices = Vec::new();
        let ghost ps = projects@;
        let mut k: usize = 0;
        proof {
            assert(self.nodes@ =~= Seq::<ProjectNode>::empty());
            assert(self.root_indices@ =~= Seq::<usize>::empty());
            assert(ps.take(0) =~= Seq::<(String, usize)>::empty());
            assert(tree_linked(self.nodes@, self.root_indices@));
        }
        while k < projects.len()
            invariant
                ps == projects@,
                k <= ps.len(),
                sum_counts(ps) <= usize::MAX,
                self.well_formed(),
                tree_linked(self.nodes@, self.root_indices@),
                self.expanded_map() == old(self).expanded_map(),
                forall|i: int|
                    #![auto]
                    0 <= i < self.nodes@.len() ==> {
                        &&& self.nodes@[i].task_count as int == aggregate_count(
                            ps.take(k as int),
                            self.nodes@[i].full_path@,
                        )
                        &&& self.nodes@[i].direct_task_count as int == direct_count(
                            ps.take(k as int),
                            self.nodes@[i].full_path@,
                        )
                        &&& self.nodes@[i].is_expanded == expanded_state(
                            old(self).expanded_map(),
                            self.nodes@[i].full_path@,
                        )
                        &&& self.nodes@[i].name@ == last_segment_of(self.nodes@[i].full_path@)
                        &&& self.nodes@[i].level == dot_count(self.nodes@[i].full_path@)
                        &&& exists|k2: int|
                            #![auto]
                            0 <= k2 < k && ps[k2].0@.len() > 0 && is_dotted_prefix(
                                self.nodes@[i].full_path@,
                                ps[k2].0@,
                            )
                    },
                forall|k2: int, b: int|
                    #![auto]
                    0 <= k2 < k && ps[k2].0@.len() > 0 && is_boundary(ps[k2].0@, b) ==> has_path(
                        self.nodes@,
                        ps[k2].0@.take(b),
                    ),
            decreases ps.len() - k,
        {
            let entry_count = projects[k].1;
            let path_chars = chars_of(projects[k].0.as_str());
            proof {
                assert(path_chars@ == ps[k as int].0@);
                assert(ps.take(k + 1).drop_last() =~= ps.take(k as int));
                assert(ps.take(k + 1).last() == ps[k as int]);
            }
            if path_chars.len() > 0 {
                let ghost pre_nodes = self.nodes@;
                proof {
                    lemma_sum_take_le(ps, k + 1);
                    assert forall|i: int|
                        #![auto]
                        0 <= i < self.nodes@.len() implies self.nodes@[i].task_count + entry_count
                        <= usize::MAX && self.nodes@[i].direct_task_count + entry_count
                        <= usize::MAX by {
                        lemma_count_bounds(ps.take(k as int), self.nodes@[i].full_path@);
                    }
                }
                self.insert_project(&path_chars, entry_count);
                proof {
                    let now = self.nodes@;
                    // counts of nodes created this round started from zero
                    assert forall|i: int|
                        pre_nodes.len() <= i < now.len() implies aggregate_count(
                        ps.take(k as int),
                        now[i].full_path@,
                    ) == 0 && direct_count(ps.take(k as int), now[i].full_path@) == 0 by {
                        lemma_count_bounds(ps.take(k as int), now[i].full_path@);
                        if aggregate_count(ps.take(k as int), now[i].full_path@) != 0 {
                            lemma_aggregate_origin(ps.take(k as int), now[i].full_path@);
                            let k2 = choose|k2: int|
                                #![auto]
                                0 <= k2 < ps.take(k as int).len() && ps.take(
                                    k as int,
                                )[k2].0@.len() > 0 && is_dotted_prefix(
                                    now[i].full_path@,
                                    ps.take(k as int)[k2].0@,
                                );
                            let b = now[i].full_path@.len() as int;
                            assert(ps.take(k as int)[k2] == ps[k2]);
                            assert(is_boundary(ps[k2].0@, b));
                            assert(ps[k2].0@.take(b) == now[i].full_path@);
                            assert(has_path(pre_nodes, now[i].full_path@));
                        }
                        if direct_count(ps.take(k as int), now[i].full_path@) != 0 {
                            lemma_direct_origin(ps.take(k as int), now[i].full_path@);
                            let k2 = choose|k2: int|
                                #![auto]
                                0 <= k2 < ps.take(k as int).len() && ps.take(
                                    k as int,
                                )[k2].0@.len() > 0 && ps.take(k as int)[k2].0@ == now[i].full_path@;
                            let b = now[i].full_path@.len() as int;
                            assert(ps.take(k as int)[k2] == ps[k2]);
                            assert(is_boundary(ps[k2].0@, b));
                            assert(ps[k2].0@.take(b) =~= now[i].full_path@);
                            assert(has_path(pre_nodes, now[i].full_path@));
                        }
                    }
                    // coverage of earlier entries survives: paths were kept
                    assert forall|k2: int, b: int|
                        #![auto]
                        0 <= k2 < k + 1 && ps[k2].0@.len() > 0 && is_boundary(
                            ps[k2].0@,
                            b,
                        ) implies has_path(self.nodes@, ps[k2].0@.take(b)) by {
                        if k2 < k {
                            let w = choose|w: int|
                                0 <= w < pre_nodes.len() && pre_nodes[w].full_path@
                                    == ps[k2].0@.take(b);
                            assert(now[w].full_path@ == ps[k2].0@.take(b));
                        } else {
                            assert(has_path(now, path_chars@.take(b)));
                        }
                    }
                }
            } else {
                proof {
                    assert(forall|p: Seq<char>| aggregate_count(ps.take(k + 1), p)
                        == aggregate_count(ps.take(k as int), p));
                    assert(forall|p: Seq<char>| direct_count(ps.take(k + 1), p) == direct_count(
                        ps.take(k as int),
                        p,
                    ));
                }
            }
            k = k + 1;
        }
        self.sort_siblings();
        proof {
            assert(ps.take(ps.len() as int) =~= ps);
        }
    }

    /// Expands the node at this path and every ancestor along it,
    /// remembering each expansion; path prefixes with no node are skipped.
    #[verifier::rlimit(50)]
    pub fn expand_path(&mut self, full_path: &str)
        requires
            old(self).well_formed(),
        ensures
            final(self).nodes_seq().len() == old(self).nodes_seq().len(),
            forall|i: int|
                #![auto]
                0 <= i < old(self).nodes_seq().len() ==> final(self).nodes_seq()[i]
                    == (ProjectNode {
                    is_expanded: old(self).nodes_seq()[i].is_expanded || is_dotted_prefix(
                        old(self).nodes_seq()[i].full_path@,
                        full_path@,
                    ),
                    ..old(self).nodes_seq()[i]
                }),
            final(self).roots_seq() == old(self).roots_seq(),
            forall|p: Seq<char>|
                #![auto]
                !(is_dotted_prefix(p, full_path@) && has_path(old(self).nodes_seq(), p)) ==> (
                final(self).expanded_map().contains_key(p) <==> old(self).expanded_map().contains_key(p)) && (old(self).expanded_map().contains_key(p)
                    ==> final(self).expanded_map()[p] == old(self).expanded_map()[p]),
            forall|p: Seq<char>|
                #![auto]
                is_dotted_prefix(p, full_path@) && has_path(old(self).nodes_seq(), p) ==> final(self).expanded_map().contains_key(p) && final(self).expanded_map()[p] == true,
            old(self).well_formed() ==> final(self).well_formed(),
            tree_linked(old(self).nodes_seq(), old(self).roots_seq()) ==> tree_linked(
                final(self).nodes_seq(),
                final(self).roots_seq(),
            ),
    {
        let path = chars_of(full_path);
        let n = path.len();
        let mut prefix: Vec<char> = Vec::new();
        let mut j: usize = 0;
        proof {
            assert(prefix@ =~= path@.take(0));
        }
        while j < n
            invariant
                n == path@.len(),
                path@ == full_path@,
                j <= n,
                prefix@ == path@.take(j as int),
                self.nodes@.len() == old(self).nodes@.len(),
                old(self).well_formed(),
                forall|i: int|
                    #![auto]
                    0 <= i < old(self).nodes@.len() ==> self.nodes@[i] == (ProjectNode {
                        is_expanded: old(self).nodes@[i].is_expanded || (is_dotted_prefix(
                            old(self).nodes@[i].full_path@,
                            path@,
                        ) && old(self).nodes@[i].full_path@.len() < j),
                        ..old(self).nodes@[i]
                    }),
                self.root_indices@ == old(self).root_indices@,
                self.expanded_map() == expand_marks(
                    old(self).expanded_map(),
                    old(self).nodes@,
                    path@,
                    j as int,
                ),
            decreases n - j,
        {
            let c = path[j];
            if c == '.' {
                proof {
                    assert(is_boundary(path@, j as int));
                    assert(is_dotted_prefix(prefix@, path@));
                    assert(forall|p: Seq<char>|
                        is_dotted_prefix(p, path@) && p.len() == j ==> p == prefix@);
                    lemma_same_paths_same_has(self.nodes@, old(self).nodes@, prefix@);
                }
                self.mark_expanded_if_present(&prefix);
                proof {
                    lemma_same_paths_same_has(self.nodes@, old(self).nodes@, prefix@);
                    assert(self.expanded_map() == expand_marks(
                        old(self).expanded_map(),
                        old(self).nodes@,
                        path@,
                        j + 1,
                    ));
                }
            } else {
                proof {
                    assert(!is_boundary(path@, j as int));
                    assert(forall|p: Seq<char>|
                        is_dotted_prefix(p, path@) && p.len() == j ==> is_boundary(path@, j as int));
                    assert(self.expanded_map() == expand_marks(
                        old(self).expanded_map(),
                        old(self).nodes@,
                        path@,
                        j + 1,
                    ));
                }
            }
            prefix.push(c);
            j = j + 1;
            proof {
                assert(prefix@ =~= path@.take(j as int));
            }
        }
        proof {
            assert(prefix@ =~= path@);
            assert(is_boundary(path@, n as int));
            assert(is_dotted_prefix(prefix@, path@)) by {
                assert(path@.take(n as int) =~= path@);
            }
            lemma_same_paths_same_has(self.nodes@, old(self).nodes@, prefix@);
        }
        self.mark_expanded_if_present(&prefix);
        proof {
            lemma_same_paths_same_has(self.nodes@, old(self).nodes@, prefix@);
            let m0 = old(self).expanded_map();
            let nodes0 = old(self).nodes@;
            assert(self.expanded_map() == expand_marks(m0, nodes0, path@, n + 1)) by {
                assert(path@.take(n as int) =~= path@);
            }
            assert forall|p: Seq<char>|
                #![auto]
                !(is_dotted_prefix(p, full_path@) && has_path(old(self).nodes_seq(), p)) implies (
            self.expanded_map().contains_key(p) <==> old(self).expanded_map().contains_key(p)) && (
            old(self).expanded_map().contains_key(p) ==> self.expanded_map()[p] == old(self).expanded_map()[p]) by {
                lemma_expand_marks_other(m0, nodes0, path@, n + 1, p);
            }
            assert forall|p: Seq<char>|
                #![auto]
                is_dotted_prefix(p, full_path@) && has_path(old(self).nodes_seq(), p)
                implies self.expanded_map().contains_key(p) && self.expanded_map()[p] == true by {
                assert(p.len() <= n);
                lemma_expand_marks_hit(m0, nodes0, path@, n + 1, p);
            }
            assert(forall|p: Seq<char>| is_dotted_prefix(p, path@) ==> p.len() <= n);
            if tree_linked(old(self).nodes@, old(self).root_indices@) {
                assert forall|t: int| #![auto] 0 <= t < self.nodes@.len() implies self.nodes@[t].full_path
                    == old(self).nodes@[t].full_path && self.nodes@[t].children_indices == old(self).nodes@[t].children_indices by {}
                lemma_linked_same_structure(old(self).nodes@, self.nodes@, self.root_indices@);
            }
        }
    }

    /// Expands one node by path and remembers it, if the node exists.
    fn mark_expanded_if_present(&mut self, prefix: &Vec<char>)
        requires
            forall|a: int, b: int|
                0 <= a < b < old(self).nodes_seq().len() ==> old(self).nodes_seq()[a].full_path@
                    != old(self).nodes_seq()[b].full_path@,
        ensures
            final(self).nodes_seq().len() == old(self).nodes_seq().len(),
            forall|i: int|
                #![auto]
                0 <= i < old(self).nodes_seq().len() ==> final(self).nodes_seq()[i]
                    == (ProjectNode {
                    is_expanded: old(self).nodes_seq()[i].is_expanded || (old(self).nodes_seq()[i].full_path@ == prefix@ && has_path(
                        old(self).nodes_seq(),
                        prefix@,
                    )),
                    ..old(self).nodes_seq()[i]
                }),
            final(self).roots_seq() == old(self).roots_seq(),
            has_path(old(self).nodes_seq(), prefix@) ==> final(self).expanded_map() == old(self).expanded_map().insert(prefix@, true),
            !has_path(old(self).nodes_seq(), prefix@) ==> final(self).expanded_map() == old(self).expanded_map(),
    {
        proof {
            lemma_has_path_index(self.nodes@, prefix@);
        }
        match self.index_of_path(prefix) {
            Some(i) => {
                proof {
                    lemma_path_index_props(self.nodes@, prefix@);
                }
                self.nodes[i].is_expanded = true;
                let s = chars_to_string(prefix);
                self.remember_expanded(s.as_str(), true);
                proof {
                    assert(forall|t: int|
                        0 <= t < self.nodes@.len() && t != i ==> self.nodes@[t] == old(self).nodes@[t]);
                    assert forall|t: int|
                        #![auto]
                        0 <= t < old(self).nodes@.len() implies self.nodes@[t] == (ProjectNode {
                        is_expanded: old(self).nodes@[t].is_expanded || (old(self).nodes@[t].full_path@ == prefix@ && has_path(old(self).nodes@, prefix@)),
                        ..old(self).nodes@[t]
                    }) by {
                        if t != i {
                            assert(old(self).nodes@[t].full_path@ != prefix@);
                        }
                    }
                }
            },
            None => {
                proof {
                    lemma_path_index_props_absent(self.nodes@, prefix@);
                }
            },
        }
    }
}

/// Index lists with the same multiset hold the same values, and reordering
/// keeps them duplicate-free.
pub proof fn lemma_same_multiset_seq(a: Seq<usize>, b: Seq<usize>)
    requires
        a.to_multiset() == b.to_multiset(),
    ensures
        forall|x: usize| a.contains(x) == b.contains(x),
        a.no_duplicates() ==> b.no_duplicates(),
{
    assert forall|x: usize| a.contains(x) == b.contains(x) by {
        assert(a.contains(x) <==> a.to_multiset().count(x) > 0);
        assert(b.contains(x) <==> b.to_multiset().count(x) > 0);
    }
    if a.no_duplicates() {
        a.lemma_multiset_has_no_duplicates();
        b.lemma_multiset_has_no_duplicates_conv();
    }
}

/// Two node lists with the same full paths index-for-index agree on which
/// paths are present.
pub proof fn lemma_same_paths_same_has(a: Seq<ProjectNode>, b: Seq<ProjectNode>, p: Seq<char>)
    requires
        a.len() == b.len(),
        forall|i: int| 0 <= i < a.len() ==> a[i].full_path@ == b[i].full_path@,
    ensures
        has_path(a, p) == has_path(b, p),
{
    if has_path(a, p) {
        let w = choose|w: int| 0 <= w < a.len() && a[w].full_path@ == p;
        assert(b[w].full_path@ == p);
    }
    if has_path(b, p) {
        let w = choose|w: int| 0 <= w < b.len() && b[w].full_path@ == p;
        assert(a[w].full_path@ == p);
    }
}

impl ProjectTree {
    /// Compares two nodes' names, case-folded.
    fn name_le(&self, x: usize, y: usize) -> (r: bool)
        requires
            x < self.nodes_seq().len(),
            y < self.nodes_seq().len(),
        ensures
            r == lex_le(sort_key(self.nodes_seq(), x as int), sort_key(self.nodes_seq(), y as int)),
    {
        let a = lower_chars(chars_of(self.nodes[x].name.as_str()));
        let b = lower_chars(chars_of(self.nodes[y].name.as_str()));
        lex_le_chars(&a, &b)
    }

    /// The given node indices reordered alphabetically by case-folded name.
    fn sorted_by_name(&self, idxs: &Vec<usize>) -> (r: Vec<usize>)
        requires
            forall|k: int| 0 <= k < idxs@.len() ==> idxs@[k] < self.nodes_seq().len(),
        ensures
            r@.len() == idxs@.len(),
            r@.to_multiset() == idxs@.to_multiset(),
            forall|k: int| 0 <= k < r@.len() ==> r@[k] < self.nodes_seq().len(),
            forall|k1: int, k2: int|
                0 <= k1 < k2 < r@.len() ==> lex_le(
                    sort_key(self.nodes_seq(), r@[k1] as int),
                    sort_key(self.nodes_seq(), r@[k2] as int),
                ),
    {
        let ghost nodes = self.nodes@;
        let mut work: Vec<usize> = Vec::new();
        let mut i: usize = 0;
        while i < idxs.len()
            invariant
                i <= idxs@.len(),
                work@ == idxs@.take(i as int),
            decreases idxs@.len() - i,
        {
            work.push(idxs[i]);
            i = i + 1;
            proof {
                assert(work@ =~= idxs@.take(i as int));
            }
        }
        proof {
            assert(idxs@.take(idxs@.len() as int) =~= idxs@);
        }
        let mut out: Vec<usize> = Vec::new();
        while work.len() > 0
            invariant
                nodes == self.nodes@,
                forall|k: int| 0 <= k < work@.len() ==> work@[k] < nodes.len(),
                forall|k: int| 0 <= k < out@.len() ==> out@[k] < nodes.len(),
                out@.len() + work@.len() == idxs@.len(),
                out@.to_multiset().add(work@.to_multiset()) == idxs@.to_multiset(),
                forall|k1: int, k2: int|
                    0 <= k1 < k2 < out@.len() ==> lex_le(
                        sort_key(nodes, out@[k1] as int),
                        sort_key(nodes, out@[k2] as int),
                    ),
                forall|k1: int, k2: int|
                    0 <= k1 < out@.len() && 0 <= k2 < work@.len() ==> lex_le(
                        sort_key(nodes, out@[k1] as int),
                        sort_key(nodes, work@[k2] as int),
                    ),
            decreases work@.len(),
        {
            let mut m: usize = 0;
            let mut k: usize = 1;
            proof {
                lemma_lex_le_total(sort_key(nodes, work@[0] as int), sort_key(nodes, work@[0] as int));
            }
            while k < work.len()
                invariant
                    nodes == self.nodes@,
                    forall|q: int| 0 <= q < work@.len() ==> work@[q] < nodes.len(),
                    work@.len() > 0,
                    m < work@.len(),
                    k <= work@.len(),
                    forall|q: int|
                        0 <= q < k ==> lex_le(
                            sort_key(nodes, work@[m as int] as int),
                            sort_key(nodes, work@[q] as int),
                        ),
                decreases work@.len() - k,
            {
                if self.name_le(work[k], work[m]) {
                    proof {
                        let newkey = sort_key(nodes, work@[k as int] as int);
                        let oldkey = sort_key(nodes, work@[m as int] as int);
                        assert forall|q: int| 0 <= q < k + 1 implies lex_le(
                            newkey,
                            sort_key(nodes, work@[q] as int),
                        ) by {
                            if q < k {
                                lemma_lex_le_trans(
                                    newkey,
                                    oldkey,
                                    sort_key(nodes, work@[q] as int),
                                );
                            } else {
                                lemma_lex_le_total(newkey, newkey);
                            }
                        }
                    }
                    m = k;
                } else {
                    proof {
                        lemma_lex_le_total(
                            sort_key(nodes, work@[m as int] as int),
                            sort_key(nodes, work@[k as int] as int),
                        );
                    }
                }
                k = k + 1;
            }
            let ghost pre_work = work@;
            let ghost pre_out = out@;
            let x = work.remove(m);
            out.push(x);
            proof {
                assert(pre_work.remove(m as int).to_multiset() =~= pre_work.to_multiset().remove(
                    x,
                ));
                assert(pre_out.push(x).to_multiset() =~= pre_out.to_multiset().insert(x));
                assert(pre_work.to_multiset().count(x) > 0) by {
                    assert(pre_work[m as int] == x);
                    assert(pre_work.contains(x));
                }
                assert(out@.to_multiset().add(work@.to_multiset()) =~= pre_out.to_multiset().add(
                    pre_work.to_multiset(),
                ));
                assert(forall|q: int|
                    0 <= q < work@.len() ==> work@[q] == (if q < m {
                        pre_work[q]
                    } else {
                        pre_work[q + 1]
                    }));
            }
        }
        out
    }

    /// Reorders the root list and every node's child list alphabetically by
    /// case-folded name.
    fn sort_siblings(&mut self)
        requires
            old(self).well_formed(),
        ensures
            final(self).well_formed(),
            final(self).expanded_map() == old(self).expanded_map(),
            final(self).nodes_seq().len() == old(self).nodes_seq().len(),
            forall|i: int|
                #![auto]
                0 <= i < old(self).nodes_seq().len() ==> {
                    &&& final(self).nodes_seq()[i].name == old(self).nodes_seq()[i].name
                    &&& final(self).nodes_seq()[i].full_path == old(self).nodes_seq()[i].full_path
                    &&& final(self).nodes_seq()[i].task_count == old(self).nodes_seq()[i].task_count
                    &&& final(self).nodes_seq()[i].direct_task_count == old(self).nodes_seq()[i].direct_task_count
                    &&& final(self).nodes_seq()[i].level == old(self).nodes_seq()[i].level
                    &&& final(self).nodes_seq()[i].is_expanded == old(self).nodes_seq()[i].is_expanded
                    &&& final(self).nodes_seq()[i].children_indices@.to_multiset() == old(self).nodes_seq()[i].children_indices@.to_multiset()
                },
            final(self).roots_seq().to_multiset() == old(self).roots_seq().to_multiset(),
            sibling_order_holds(final(self).nodes_seq(), final(self).roots_seq()),
            tree_linked(old(self).nodes_seq(), old(self).roots_seq()) ==> tree_linked(
                final(self).nodes_seq(),
                final(self).roots_seq(),
            ),
    {
        let sorted_roots = self.sorted_by_name(&self.root_indices);
        proof {
            assert forall|q: int|
                0 <= q < sorted_roots@.len() implies #[trigger] sorted_roots@[q]
                < self.nodes@.len() by {
                let v = sorted_roots@[q];
                assert(sorted_roots@.contains(v));
                assert(sorted_roots@.to_multiset().count(v) > 0);
                assert(self.root_indices@.to_multiset().count(v) > 0);
                assert(self.root_indices@.contains(v));
            }
        }
        self.root_indices = sorted_roots;
        let n = self.nodes.len();
        let mut i: usize = 0;
        while i < n
            invariant
                n == self.nodes@.len(),
                self.nodes@.len() == old(self).nodes@.len(),
                i <= n,
                self.expanded_paths@ == old(self).expanded_paths@,
                forall|t: int|
                    #![auto]
                    0 <= t < n ==> {
                        &&& self.nodes@[t].name == old(self).nodes@[t].name
                        &&& self.nodes@[t].full_path == old(self).nodes@[t].full_path
                        &&& self.nodes@[t].task_count == old(self).nodes@[t].task_count
                        &&& self.nodes@[t].direct_task_count == old(self).nodes@[t].direct_task_count
                        &&& self.nodes@[t].level == old(self).nodes@[t].level
                        &&& self.nodes@[t].is_expanded == old(self).nodes@[t].is_expanded
                        &&& self.nodes@[t].children_indices@.to_multiset() == old(self).nodes@[t].children_indices@.to_multiset()
                    },
                tree_wf(self.nodes@, self.root_indices@),
                self.root_indices@.to_multiset() == old(self).root_indices@.to_multiset(),
                forall|k1: int, k2: int|
                    0 <= k1 < k2 < self.root_indices@.len() ==> lex_le(
                        sort_key(self.nodes@, self.root_indices@[k1] as int),
                        sort_key(self.nodes@, self.root_indices@[k2] as int),
                    ),
                forall|t: int, k1: int, k2: int|
                    #![auto]
                    0 <= t < i && 0 <= k1 < k2 < self.nodes@[t].children_indices@.len()
                        ==> lex_le(
                        sort_key(self.nodes@, self.nodes@[t].children_indices@[k1] as int),
                        sort_key(self.nodes@, self.nodes@[t].children_indices@[k2] as int),
                    ),
            decreases n - i,
        {
            let ghost pre = self.nodes@;
            let sorted = self.sorted_by_name(&self.nodes[i].children_indices);
            proof {
                assert forall|q: int|
                    0 <= q < sorted@.len() implies i < #[trigger] sorted@[q]
                    < self.nodes@.len() by {
                    let v = sorted@[q];
                    assert(sorted@.contains(v));
                    assert(sorted@.to_multiset().count(v) > 0);
                    assert(pre[i as int].children_indices@.to_multiset().count(v) > 0);
                    assert(pre[i as int].children_indices@.contains(v));
                }
            }
            self.nodes[i].children_indices = sorted;
            proof {
                assert(forall|t: int| 0 <= t < n && t != i ==> self.nodes@[t] == pre[t]);
                assert(self.nodes@[i as int].name == pre[i as int].name);
                assert forall|t2: int| 0 <= t2 < n implies #[trigger] sort_key(self.nodes@, t2)
                    == sort_key(pre, t2) by {
                    assert(self.nodes@[t2].name == pre[t2].name);
                }
                assert forall|t: int, k1: int, k2: int|
                    #![auto]
                    0 <= t < i + 1 && 0 <= k1 < k2 < self.nodes@[t].children_indices@.len()
                        implies lex_le(
                    sort_key(self.nodes@, self.nodes@[t].children_indices@[k1] as int),
                    sort_key(self.nodes@, self.nodes@[t].children_indices@[k2] as int),
                ) by {
                    if t == i {
                        assert(self.nodes@[t].children_indices@ == sorted@);
                        assert(lex_le(
                            sort_key(pre, sorted@[k1] as int),
                            sort_key(pre, sorted@[k2] as int),
                        ));
                    } else {
                        assert(self.nodes@[t].children_indices@ == pre[t].children_indices@);
                        assert(lex_le(
                            sort_key(pre, pre[t].children_indices@[k1] as int),
                            sort_key(pre, pre[t].children_indices@[k2] as int),
                        ));
                    }
                }
            }
            i = i + 1;
        }
        proof {
            if tree_linked(old(self).nodes@, old(self).root_indices@) {
                let a = old(self).nodes@;
                let b = self.nodes@;
                let ra = old(self).root_indices@;
                let rb = self.root_indices@;
                lemma_same_multiset_seq(ra, rb);
                assert forall|k2: int|
                    0 <= k2 < rb.len() implies (#[trigger] rb[k2]) < b.len() && dot_count(
                    b[rb[k2] as int].full_path@,
                ) == 0 by {
                    assert(rb.contains(rb[k2]));
                    assert(ra.contains(rb[k2]));
                    let k0 = choose|k0: int| 0 <= k0 < ra.len() && ra[k0] == rb[k2];
                    assert(b[rb[k2] as int].full_path == a[rb[k2] as int].full_path);
                }
                assert forall|t: int|
                    0 <= t < b.len() && dot_count(#[trigger] b[t].full_path@) == 0
                    implies rb.contains(t as usize) by {
                    assert(a[t].full_path == b[t].full_path);
                    assert(ra.contains(t as usize));
                }
                assert(rb.no_duplicates());
                assert forall|t: int, ch: int|
                    #![auto]
                    0 <= t < b.len() && 0 <= ch < b.len() implies (b[t].children_indices@.contains(
                    ch as usize,
                ) <==> is_child_path(b[t].full_path@, b[ch].full_path@)) by {
                    lemma_same_multiset_seq(a[t].children_indices@, b[t].children_indices@);
                    assert(a[t].children_indices@.contains(ch as usize) <==> is_child_path(
                        a[t].full_path@,
                        a[ch].full_path@,
                    ));
                    assert(a[t].full_path == b[t].full_path);
                    assert(a[ch].full_path == b[ch].full_path);
                }
                assert forall|t: int|
                    0 <= t < b.len() implies (#[trigger] b[t].children_indices@).no_duplicates()
                    by {
                    lemma_same_multiset_seq(a[t].children_indices@, b[t].children_indices@);
                }
                assert forall|t: int|
                    0 <= t < b.len() && dot_count(#[trigger] b[t].full_path@) != 0
                    implies has_path(b, parent_path_of(b[t].full_path@)) by {
                    assert(a[t].full_path == b[t].full_path);
                    let w = choose|w: int|
                        0 <= w < a.len() && a[w].full_path@ == parent_path_of(a[t].full_path@);
                    assert(b[w].full_path@ == parent_path_of(b[t].full_path@));
                }
            }
        }
    }

    /// The visible rows of the tree in display order: a preorder walk of the
    /// roots that descends only into expanded nodes.  Each entry pairs a
    /// node's index with the node.
    pub fn iter_visible(&self) -> (r: Vec<VisibleRow>)
        requires
            self.well_formed(),
        ensures
            row_indices(r@) == visible_roots(
                self.nodes_seq(),
                self.roots_seq(),
                0,
            ),
            forall|t: int|
                #![auto]
                0 <= t < r@.len() ==> r@[t].index < self.nodes_seq().len() && node_agrees(
                    r@[t].node,
                    self.nodes_seq()[r@[t].index as int],
                ),
    {
        let mut result: Vec<VisibleRow> = Vec::new();
        let ghost nodes = self.nodes@;
        let ghost roots = self.root_indices@;
        let mut k: usize = 0;
        proof {
            assert(row_indices(result@) =~= Seq::<int>::empty());
        }
        while k < self.root_indices.len()
            invariant
                self.well_formed(),
                nodes == self.nodes@,
                roots == self.root_indices@,
                k <= roots.len(),
                row_indices(result@) + visible_roots(nodes, roots, k as int) == visible_roots(
                    nodes,
                    roots,
                    0,
                ),
                forall|t: int|
                    #![auto]
                    0 <= t < result@.len() ==> result@[t].index < nodes.len() && node_agrees(
                        result@[t].node,
                        nodes[result@[t].index as int],
                    ),
            decreases roots.len() - k,
        {
            let ghost before = result@;
            let root = self.root_indices[k];
            self.collect_visible(root, &mut result);
            proof {
                assert(row_indices(result@) =~= row_indices(before) + visible_from(
                    nodes,
                    root as int,
                ));
                assert((row_indices(before) + visible_from(nodes, root as int)) + visible_roots(
                    nodes,
                    roots,
                    k + 1,
                ) =~= row_indices(before) + (visible_from(nodes, root as int) + visible_roots(
                    nodes,
                    roots,
                    k + 1,
                )));
            }
            k = k + 1;
        }
        result
    }

    /// Appends the visible subtree of one node to the result, in preorder.
    fn collect_visible(&self, idx: usize, result: &mut Vec<VisibleRow>)
        requires
            self.well_formed(),
            idx < self.nodes_seq().len(),
        ensures
            final(result)@.len() == old(result)@.len() + visible_from(
                self.nodes_seq(),
                idx as int,
            ).len(),
            forall|t: int| 0 <= t < old(result)@.len() ==> final(result)@[t] == old(result)@[t],
            row_indices(final(result)@) == row_indices(old(result)@) + visible_from(
                self.nodes_seq(),
                idx as int,
            ),
            forall|t: int|
                #![auto]
                old(result)@.len() <= t < final(result)@.len() ==> final(result)@[t].index
                    < self.nodes_seq().len() && node_agrees(
                    final(result)@[t].node,
                    self.nodes_seq()[final(result)@[t].index as int],
                ),
        decreases self.nodes_seq().len() - idx,
    {
        let ghost nodes = self.nodes@;
        let ghost base = result@;
        result.push(VisibleRow { index: idx, node: self.nodes[idx].duplicate() });
        proof {
            assert(row_indices(result@) =~= row_indices(base) + seq![idx as int]);
        }
        if self.nodes[idx].is_expanded {
            let n_children = self.nodes[idx].children_indices.len();
            let mut k: usize = 0;
            while k < n_children
                invariant
                    self.well_formed(),
                    nodes == self.nodes@,
                    idx < nodes.len(),
                    base == old(result)@,
                    n_children == nodes[idx as int].children_indices@.len(),
                    nodes[idx as int].is_expanded,
                    k <= n_children,
                    result@.len() >= base.len(),
                    forall|t: int| 0 <= t < base.len() ==> result@[t] == base[t],
                    row_indices(result@) + visible_children(nodes, idx as int, k as int)
                        == row_indices(base) + visible_from(nodes, idx as int),
                    forall|t: int|
                        #![auto]
                        base.len() <= t < result@.len() ==> result@[t].index < nodes.len()
                            && node_agrees(result@[t].node, nodes[result@[t].index as int]),
                decreases n_children - k,
            {
                let ghost before = result@;
                let child = self.nodes[idx].children_indices[k];
                self.collect_visible(child, result);
                proof {
                    assert(row_indices(result@) =~= row_indices(before) + visible_from(
                        nodes,
                        child as int,
                    ));
                    assert((row_indices(before) + visible_from(nodes, child as int))
                        + visible_children(nodes, idx as int, k + 1) =~= row_indices(before) + (
                    visible_from(nodes, child as int) + visible_children(
                        nodes,
                        idx as int,
                        k + 1,
                    )));
                }
                k = k + 1;
            }
        } else {
            proof {
                assert(visible_from(nodes, idx as int) =~= seq![idx as int]);
            }
        }
    }
}

impl Default for ProjectTree {
    /// An empty tree.
    fn default() -> (r: Self)
        ensures
            r.nodes_seq() == Seq::<ProjectNode>::empty(),
            r.roots_seq() == Seq::<usize>::empty(),
            r.expanded_map() == Map::<Seq<char>, bool>::empty(),
            r.well_formed(),
    {
        Self::new()
    }
}

} // verus!
