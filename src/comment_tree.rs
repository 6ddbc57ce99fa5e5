//! Reconstruction of a comment thread from a flat list of comments, each
//! carrying its materialized path: the dot-separated ids of its ancestors,
//! ending with its own id.
use vstd::prelude::*;
use vstd::string::StrSliceExecFns;
use crate::text::{i32_text, int_text, same_text};

verus! {

/// A comment as the tree builder sees it: its id and its materialized path.
#[derive(Debug)]
pub struct CommentRecord {
    pub id: i32,
    pub path: String,
}

impl CommentRecord {
    pub fn copy(&self) -> (r: CommentRecord)
        ensures
            r == *self,
    {
        CommentRecord { id: self.id, path: self.path.clone() }
    }
}

/// The segments of a path: the pieces between dots. A text without dots is
/// one segment, the empty text included.
pub open spec fn split_dots(s: Seq<char>) -> Seq<Seq<char>>
    decreases s.len(),
{
    if s.len() == 0 {
        seq![Seq::empty()]
    } else {
        let rest = split_dots(s.drop_last());
        if s.last() == '.' {
            rest.push(Seq::empty())
        } else {
            rest.update(rest.len() - 1, rest.last().push(s.last()))
        }
    }
}

/// The segments of a comment's path.
pub open spec fn segments(r: CommentRecord) -> Seq<Seq<char>> {
    split_dots(r.path@)
}

/// Splits a path at its dots.
pub fn path_segments(path: &str) -> (r: Vec<String>)
    ensures
        r@.map_values(|t: String| t@) == split_dots(path@),
{
    let n = path.unicode_len();
    let mut done: Vec<String> = Vec::new();
    let mut start: usize = 0;
    let mut i: usize = 0;
    proof {
        assert(path@.subrange(0, 0) =~= Seq::<char>::empty());
        assert(done@.map_values(|t: String| t@).push(path@.subrange(0, 0)) =~= split_dots(
            path@.subrange(0, 0),
        ));
    }
    while i < n
        invariant
            n == path@.len(),
            start <= i <= n,
            split_dots(path@.subrange(0, i as int)) == done@.map_values(|t: String| t@).push(
                path@.subrange(start as int, i as int),
            ),
        decreases n - i,
    {
        let c = path.get_char(i);
        let ghost before = path@.subrange(0, i as int);
        let ghost after = path@.subrange(0, i + 1);
        assert(after.drop_last() =~= before);
        assert(after.last() == c);
        if c == '.' {
            let seg = path.substring_char(start, i);
            done.push(seg.to_string());
            start = i + 1;
            proof {
                assert(path@.subrange(start as int, i + 1) =~= Seq::<char>::empty());
            }
        } else {
            proof {
                assert(path@.subrange(start as int, i + 1) =~= path@.subrange(
                    start as int,
                    i as int,
                ).push(c));
            }
        }
        i = i + 1;
        proof {
            assert(split_dots(path@.subrange(0, i as int)) =~= done@.map_values(|t: String| t@).push(
                path@.subrange(start as int, i as int),
            ));
        }
    }
    let last = path.substring_char(start, n);
    done.push(last.to_string());
    proof {
        assert(path@.subrange(0, n as int) =~= path@);
        assert(done@.map_values(|t: String| t@) =~= split_dots(path@));
    }
    done
}


/// Whether a comment is a direct child of the node whose id text is `id`,
/// at depth `level`: its path has `level + 2` segments, the one at `level`
/// being `id`.
pub open spec fn is_direct_child(r: CommentRecord, id: Seq<char>, level: nat) -> bool {
    &&& segments(r).len() == level + 2
    &&& segments(r)[level as int] == id
}

/// Whether a comment lies deeper below that node: its path is longer than
/// a direct child's, with `id` at `level`.
pub open spec fn is_deeper_descendant(r: CommentRecord, id: Seq<char>, level: nat) -> bool {
    &&& segments(r).len() > level + 2
    &&& segments(r)[level as int] == id
}

/// Where a comment's path places it with respect to the node whose id text
/// is `node_id`, at depth `level`: direct child, deeper descendant, or
/// neither.
fn placement(r: &CommentRecord, node_id: &str, level: usize) -> (p: (bool, bool))
    ensures
        p.0 == is_direct_child(*r, node_id@, level as nat),
        p.1 == is_deeper_descendant(*r, node_id@, level as nat),
{
    let segs = path_segments(r.path.as_str());
    let n = segs.len();
    proof {
        assert(segs@.map_values(|t: String| t@).len() == n);
    }
    if n <= level || n - level < 2 {
        return (false, false);
    }
    proof {
        assert(segs@.map_values(|t: String| t@)[level as int] == segs@[level as int]@);
    }
    let same = same_text(segs[level].as_str(), node_id);
    (same && n == level + 2, same && n > level + 2)
}

/// Splits `comments` for the node whose id text is `node_id`, at depth
/// `level`, into its direct children and its deeper descendants, each in
/// input order. Comments of other branches, and those whose path is too
/// short, are in neither.
pub fn partition(comments: &Vec<CommentRecord>, node_id: &str, level: usize) -> (r: (
    Vec<CommentRecord>,
    Vec<CommentRecord>,
))
    ensures
        r.0@ == comments@.filter(|c: CommentRecord| is_direct_child(c, node_id@, level as nat)),
        r.1@ == comments@.filter(
            |c: CommentRecord| is_deeper_descendant(c, node_id@, level as nat),
        ),
{
    let ghost child = |c: CommentRecord| is_direct_child(c, node_id@, level as nat);
    let ghost deeper = |c: CommentRecord| is_deeper_descendant(c, node_id@, level as nat);
    let mut children: Vec<CommentRecord> = Vec::new();
    let mut descendants: Vec<CommentRecord> = Vec::new();
    let mut i: usize = 0;
    proof {
        reveal(Seq::filter);
        assert(comments@.subrange(0, 0) =~= Seq::<CommentRecord>::empty());
    }
    while i < comments.len()
        invariant
            i <= comments.len(),
            child == (|c: CommentRecord| is_direct_child(c, node_id@, level as nat)),
            deeper == (|c: CommentRecord| is_deeper_descendant(c, node_id@, level as nat)),
            children@ == comments@.subrange(0, i as int).filter(child),
            descendants@ == comments@.subrange(0, i as int).filter(deeper),
        decreases comments.len() - i,
    {
        let (is_child, is_deeper) = placement(&comments[i], node_id, level);
        proof {
            let before = comments@.subrange(0, i as int);
            let after = comments@.subrange(0, i + 1);
            let c = comments@[i as int];
            assert(after.drop_last() =~= before);
            assert(after.last() == c);
            reveal(Seq::filter);
            assert(after.filter(child) == if child(c) {
                before.filter(child).push(c)
            } else {
                before.filter(child)
            });
            assert(after.filter(deeper) == if deeper(c) {
                before.filter(deeper).push(c)
            } else {
                before.filter(deeper)
            });
        }
        if is_child {
            children.push(comments[i].copy());
        }
        if is_deeper {
            descendants.push(comments[i].copy());
        }
        i = i + 1;
    }
    proof {
        assert(comments@.subrange(0, i as int) =~= comments@);
    }
    (children, descendants)
}


/// Two ways of placing a comment that exclude each other split a list into
/// parts no longer than it.
pub proof fn lemma_disjoint_filters_len<A>(s: Seq<A>, p: spec_fn(A) -> bool, q: spec_fn(A) -> bool)
    requires
        forall|a: A| !(#[trigger] p(a) && q(a)),
    ensures
        s.filter(p).len() + s.filter(q).len() <= s.len(),
    decreases s.len(),
{
    reveal(Seq::filter);
    if s.len() > 0 {
        lemma_disjoint_filters_len(s.drop_last(), p, q);
    }
}

/// A node of a comment thread: a comment and its replies, in input order.
#[derive(Debug)]
pub struct CommentNode {
    pub record: CommentRecord,
    pub children: Vec<CommentNode>,
}

/// Whether `n` is the subtree that the builder makes for its comment at
/// depth `level` from the comments in `scope`: its children are the direct
/// children that `partition` finds in `scope`, in order, each built in turn
/// from the deeper descendants at the next depth.
pub open spec fn built_from(n: CommentNode, scope: Seq<CommentRecord>, level: nat) -> bool
    decreases n,
{
    let id = int_text(n.record.id as int);
    let kids = scope.filter(|c: CommentRecord| is_direct_child(c, id, level));
    let rest = scope.filter(|c: CommentRecord| is_deeper_descendant(c, id, level));
    &&& n.children@.len() == kids.len()
    &&& forall|k: int|
        0 <= k < kids.len() ==> {
            &&& (#[trigger] n.children@[k]).record == kids[k]
            &&& built_from(n.children@[k], rest, level + 1)
        }
}

/// Builds the subtree of `record`, which stands at depth `level`, from the
/// comments of `scope`.
pub fn build_node(record: CommentRecord, scope: &Vec<CommentRecord>, level: usize) -> (r: CommentNode)
    requires
        level + scope@.len() < usize::MAX,
    ensures
        r.record == record,
        built_from(r, scope@, level as nat),
    decreases scope@.len(),
{
    let id = i32_text(record.id);
    let (kids, rest) = partition(scope, id.as_str(), level);
    let ghost child = |c: CommentRecord| is_direct_child(c, id@, level as nat);
    let ghost deeper = |c: CommentRecord| is_deeper_descendant(c, id@, level as nat);
    proof {
        lemma_disjoint_filters_len(scope@, child, deeper);
    }
    let mut nodes: Vec<CommentNode> = Vec::new();
    let mut k: usize = 0;
    while k < kids.len()
        invariant
            k <= kids.len(),
            kids@ == scope@.filter(child),
            rest@ == scope@.filter(deeper),
            kids@.len() + rest@.len() <= scope@.len(),
            level + scope@.len() < usize::MAX,
            nodes@.len() == k,
            forall|j: int|
                0 <= j < k ==> {
                    &&& (#[trigger] nodes@[j]).record == kids@[j]
                    &&& built_from(nodes@[j], rest@, level as nat + 1)
                },
        decreases kids.len() - k,
    {
        let node = build_node(kids[k].copy(), &rest, level + 1);
        nodes.push(node);
        k = k + 1;
    }
    CommentNode { record, children: nodes }
}


/// Whether a comment opens a thread: its path has two segments, the root
/// marker and its own id.
pub open spec fn is_top_level(r: CommentRecord) -> bool {
    segments(r).len() == 2
}

/// Whether `forest` is the thread that the builder makes of `comments`: one
/// tree per top-level comment, in input order, each built at depth 1 from
/// all the comments.
pub open spec fn is_thread_of(forest: Seq<CommentNode>, comments: Seq<CommentRecord>) -> bool {
    let roots = comments.filter(|c: CommentRecord| is_top_level(c));
    &&& forest.len() == roots.len()
    &&& forall|k: int|
        0 <= k < roots.len() ==> {
            &&& (#[trigger] forest[k]).record == roots[k]
            &&& built_from(forest[k], comments, 1)
        }
}

/// Builds the thread of `comments`.
pub fn comment_nodes(comments: &Vec<CommentRecord>) -> (r: Vec<CommentNode>)
    requires
        comments@.len() < usize::MAX - 1,
    ensures
        is_thread_of(r@, comments@),
{
    let ghost top = |c: CommentRecord| is_top_level(c);
    let mut forest: Vec<CommentNode> = Vec::new();
    let mut i: usize = 0;
    proof {
        reveal(Seq::filter);
        assert(comments@.subrange(0, 0) =~= Seq::<CommentRecord>::empty());
    }
    while i < comments.len()
        invariant
            i <= comments.len(),
            comments@.len() < usize::MAX - 1,
            top == (|c: CommentRecord| is_top_level(c)),
            forest@.len() == comments@.subrange(0, i as int).filter(top).len(),
            forall|k: int|
                0 <= k < forest@.len() ==> {
                    &&& (#[trigger] forest@[k]).record == comments@.subrange(0, i as int).filter(
                        top,
                    )[k]
                    &&& built_from(forest@[k], comments@, 1)
                },
        decreases comments.len() - i,
    {
        let segs = path_segments(comments[i].path.as_str());
        proof {
            let before = comments@.subrange(0, i as int);
            let after = comments@.subrange(0, i + 1);
            let c = comments@[i as int];
            assert(after.drop_last() =~= before);
            assert(after.last() == c);
            reveal(Seq::filter);
            assert(after.filter(top) == if top(c) {
                before.filter(top).push(c)
            } else {
                before.filter(top)
            });
            assert(segs@.map_values(|t: String| t@).len() == segs@.len());
        }
        if segs.len() == 2 {
            let node = build_node(comments[i].copy(), comments, 1);
            forest.push(node);
        }
        i = i + 1;
    }
    proof {
        assert(comments@.subrange(0, i as int) =~= comments@);
    }
    forest
}

/// Whether a comment's path is well formed: the root marker `0`, then the
/// ids of its ancestors, then its own id.
pub open spec fn well_formed(r: CommentRecord) -> bool {
    &&& segments(r).len() >= 2
    &&& segments(r)[0] == seq!['0']
    &&& segments(r).last() == int_text(r.id as int)
}

/// Whether, all through the subtree of `n`, each child's path is its
/// parent's path followed by the child's own id.
pub open spec fn paths_nest(n: CommentNode) -> bool
    decreases n,
{
    forall|k: int|
        0 <= k < n.children@.len() ==> {
            &&& segments((#[trigger] n.children@[k]).record) == segments(n.record).push(
                int_text(n.children@[k].record.id as int),
            )
            &&& paths_nest(n.children@[k])
        }
}

/// A subtree built from well-formed comments that share its comment's
/// ancestry nests its paths.
pub proof fn lemma_subtree_paths_nest(n: CommentNode, scope: Seq<CommentRecord>, level: nat)
    requires
        built_from(n, scope, level),
        well_formed(n.record),
        segments(n.record).len() == level + 1,
        forall|r: CommentRecord|
            #[trigger] scope.contains(r) ==> well_formed(r) && segments(r).subrange(0, level as int)
                == segments(n.record).subrange(0, level as int),
    ensures
        paths_nest(n),
    decreases n,
{
    broadcast use vstd::seq_lib::group_filter_ensures, Seq::lemma_filter_contains_rev;

    let id = int_text(n.record.id as int);
    let child = |c: CommentRecord| is_direct_child(c, id, level);
    let deeper = |c: CommentRecord| is_deeper_descendant(c, id, level);
    let kids = scope.filter(child);
    let rest = scope.filter(deeper);
    let p = segments(n.record);
    assert(p[level as int] == id);
    assert forall|k: int| 0 <= k < n.children@.len() implies {
        &&& segments((#[trigger] n.children@[k]).record) == segments(n.record).push(
            int_text(n.children@[k].record.id as int),
        )
        &&& paths_nest(n.children@[k])
    } by {
        let c = kids[k];
        assert(kids.contains(c));
        assert(child(c) && scope.contains(c));
        let q = segments(c);
        assert(q.subrange(0, level as int) == p.subrange(0, level as int));
        assert forall|j: int| 0 <= j < level implies q[j] == p[j] by {
            assert(q.subrange(0, level as int)[j] == p.subrange(0, level as int)[j]);
        }
        assert(q =~= p.push(int_text(c.id as int)));
        assert forall|r: CommentRecord| #[trigger] rest.contains(r) implies well_formed(r)
            && segments(r).subrange(0, level as int + 1) == q.subrange(0, level as int + 1) by {
            let i = choose|i: int| 0 <= i < rest.len() && rest[i] == r;
            assert(deeper(rest[i]));
            assert(deeper(r) && scope.contains(r));
            let t = segments(r);
            assert(t.subrange(0, level as int) == p.subrange(0, level as int));
            assert forall|j: int| 0 <= j < level implies t[j] == p[j] by {
                assert(t.subrange(0, level as int)[j] == p.subrange(0, level as int)[j]);
            }
            assert(t.subrange(0, level as int + 1) =~= q.subrange(0, level as int + 1));
        }
        lemma_subtree_paths_nest(n.children@[k], rest, level + 1);
    }
}

/// Tree correctness: in the thread built from well-formed comments, each
/// tree opens with a top-level comment and every child's path is exactly its
/// parent's path followed by the child's own id.
pub proof fn lemma_thread_paths_nest(comments: Seq<CommentRecord>, forest: Seq<CommentNode>)
    requires
        is_thread_of(forest, comments),
        forall|k: int| 0 <= k < comments.len() ==> well_formed(#[trigger] comments[k]),
    ensures
        forall|k: int|
            0 <= k < forest.len() ==> is_top_level((#[trigger] forest[k]).record) && paths_nest(
                forest[k],
            ),
{
    broadcast use vstd::seq_lib::group_filter_ensures, Seq::lemma_filter_contains_rev;

    let top = |c: CommentRecord| is_top_level(c);
    let roots = comments.filter(top);
    assert forall|k: int| 0 <= k < forest.len() implies is_top_level(
        (#[trigger] forest[k]).record,
    ) && paths_nest(forest[k]) by {
        let root = roots[k];
        assert(roots.contains(root));
        assert(top(root) && comments.contains(root));
        assert forall|r: CommentRecord| #[trigger] comments.contains(r) implies well_formed(r)
            && segments(r).subrange(0, 1) == segments(root).subrange(0, 1) by {
            let j = choose|j: int| 0 <= j < comments.len() && comments[j] == r;
            assert(well_formed(comments[j]));
            assert(segments(r).subrange(0, 1) =~= segments(root).subrange(0, 1));
        }
        lemma_subtree_paths_nest(forest[k], comments, 1);
    }
}

} // verus!
