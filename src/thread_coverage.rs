//! Coverage of the comment thread: built from a list of well-formed comments
//! with distinct ids, in which every comment's ancestors are present, the
//! thread holds each comment exactly once.
use vstd::prelude::*;
use crate::comment_tree::{
    CommentNode, CommentRecord, built_from, is_deeper_descendant, is_direct_child, is_thread_of,
    is_top_level, lemma_subtree_paths_nest, lemma_thread_paths_nest, paths_nest, segments,
    well_formed,
};
use crate::text::{digit_char, int_text, nat_text};

verus! {

broadcast use vstd::seq_lib::group_filter_ensures, Seq::lemma_filter_contains_rev;

/// How many times comment `r` stands in the subtree of `n`.
pub open spec fn occurrences(n: CommentNode, r: CommentRecord) -> nat
    decreases n,
{
    (if n.record == r {
        1nat
    } else {
        0nat
    }) + forest_occurrences(n.children@, r)
}

/// How many times comment `r` stands in the subtrees of `nodes`.
pub open spec fn forest_occurrences(nodes: Seq<CommentNode>, r: CommentRecord) -> nat
    decreases nodes,
{
    if nodes.len() == 0 {
        0
    } else {
        forest_occurrences(nodes.drop_last(), r) + occurrences(nodes.last(), r)
    }
}


proof fn lemma_forest_none(nodes: Seq<CommentNode>, r: CommentRecord)
    requires
        forall|j: int| 0 <= j < nodes.len() ==> occurrences(#[trigger] nodes[j], r) == 0,
    ensures
        forest_occurrences(nodes, r) == 0,
    decreases nodes.len(),
{
    if nodes.len() > 0 {
        let rest = nodes.drop_last();
        assert forall|j: int| 0 <= j < rest.len() implies occurrences(#[trigger] rest[j], r) == 0 by {
            assert(rest[j] == nodes[j]);
        }
        lemma_forest_none(rest, r);
    }
}

proof fn lemma_forest_once(nodes: Seq<CommentNode>, r: CommentRecord, k: int)
    requires
        0 <= k < nodes.len(),
        occurrences(nodes[k], r) == 1,
        forall|j: int| 0 <= j < nodes.len() && j != k ==> occurrences(#[trigger] nodes[j], r) == 0,
    ensures
        forest_occurrences(nodes, r) == 1,
    decreases nodes.len(),
{
    let rest = nodes.drop_last();
    if k == nodes.len() - 1 {
        assert forall|j: int| 0 <= j < rest.len() implies occurrences(#[trigger] rest[j], r) == 0 by {
            assert(rest[j] == nodes[j]);
        }
        lemma_forest_none(rest, r);
    } else {
        assert forall|j: int| 0 <= j < rest.len() && j != k implies occurrences(
            #[trigger] rest[j],
            r,
        ) == 0 by {
            assert(rest[j] == nodes[j]);
        }
        assert(rest[k] == nodes[k]);
        lemma_forest_once(rest, r, k);
        assert(occurrences(nodes[nodes.len() - 1], r) == 0);
    }
}

proof fn lemma_forest_some(nodes: Seq<CommentNode>, r: CommentRecord) -> (k: int)
    requires
        forest_occurrences(nodes, r) > 0,
    ensures
        0 <= k < nodes.len(),
        occurrences(nodes[k], r) > 0,
    decreases nodes.len(),
{
    if occurrences(nodes.last(), r) > 0 {
        nodes.len() - 1
    } else {
        let k = lemma_forest_some(nodes.drop_last(), r);
        assert(nodes.drop_last()[k] == nodes[k]);
        k
    }
}

/// Whether `p` begins `q`.
pub open spec fn is_prefix(p: Seq<Seq<char>>, q: Seq<Seq<char>>) -> bool {
    p.len() <= q.len() && q.subrange(0, p.len() as int) == p
}

/// Whether comment `x` lies strictly below comment `p`: `p`'s path begins a
/// longer path of `x`.
pub open spec fn strictly_below(x: CommentRecord, p: CommentRecord) -> bool {
    segments(x).len() > segments(p).len() && is_prefix(segments(p), segments(x))
}

/// In a subtree whose paths nest, a comment stands only where the subtree's
/// path begins its own.
proof fn lemma_occurrence_prefix(n: CommentNode, r: CommentRecord)
    requires
        paths_nest(n),
        occurrences(n, r) > 0,
    ensures
        is_prefix(segments(n.record), segments(r)),
    decreases n,
{
    if n.record != r {
        let k = lemma_forest_some(n.children@, r);
        let c = n.children@[k];
        lemma_occurrence_prefix(c, r);
        let p = segments(n.record);
        let q = segments(c.record);
        let t = segments(r);
        assert(q == p.push(int_text(c.record.id as int)));
        assert(t.subrange(0, q.len() as int) == q);
        assert(t.subrange(0, p.len() as int) =~= q.subrange(0, p.len() as int));
        assert(q.subrange(0, p.len() as int) =~= p);
    } else {
        assert(segments(r).subrange(0, segments(r).len() as int) =~= segments(r));
    }
}

proof fn lemma_nat_text_shape(n: nat)
    ensures
        nat_text(n).len() >= 1,
        n >= 10 ==> nat_text(n).len() >= 2,
        '0' <= nat_text(n)[0] <= '9',
    decreases n,
{
    if n >= 10 {
        lemma_nat_text_shape(n / 10);
    }
}

proof fn lemma_nat_text_injective(n: nat, m: nat)
    requires
        nat_text(n) == nat_text(m),
    ensures
        n == m,
    decreases n,
{
    lemma_nat_text_shape(n);
    lemma_nat_text_shape(m);
    if n >= 10 && m >= 10 {
        let a = nat_text(n);
        assert(a.drop_last() =~= nat_text(n / 10));
        assert(nat_text(m).drop_last() =~= nat_text(m / 10));
        assert(a.last() == digit_char(n % 10));
        assert(nat_text(m).last() == digit_char(m % 10));
        assert(n % 10 == m % 10);
        lemma_nat_text_injective(n / 10, m / 10);
    }
}

/// Different integers have different decimal texts.
pub proof fn lemma_int_text_injective(a: int, b: int)
    requires
        int_text(a) == int_text(b),
    ensures
        a == b,
{
    if a < 0 && b < 0 {
        lemma_nat_text_shape((-a) as nat);
        let ta = seq!['-'] + nat_text((-a) as nat);
        let tb = seq!['-'] + nat_text((-b) as nat);
        assert(ta.drop_first() =~= nat_text((-a) as nat));
        assert(tb.drop_first() =~= nat_text((-b) as nat));
        lemma_nat_text_injective((-a) as nat, (-b) as nat);
    } else if a >= 0 && b >= 0 {
        lemma_nat_text_injective(a as nat, b as nat);
    } else if a < 0 {
        lemma_nat_text_shape(b as nat);
        assert(int_text(a)[0] == '-');
    } else {
        lemma_nat_text_shape(a as nat);
        assert(int_text(b)[0] == '-');
    }
}

proof fn lemma_filter_no_duplicates<A>(s: Seq<A>, p: spec_fn(A) -> bool)
    requires
        s.no_duplicates(),
    ensures
        s.filter(p).no_duplicates(),
    decreases s.len(),
{
    reveal(Seq::filter);
    if s.len() > 0 {
        let rest = s.drop_last();
        assert(rest.no_duplicates());
        lemma_filter_no_duplicates(rest, p);
        if p(s.last()) {
            let f = rest.filter(p);
            assert(!f.contains(s.last())) by {
                if f.contains(s.last()) {
                    assert(rest.contains(s.last()));
                    let i = choose|i: int| 0 <= i < rest.len() && rest[i] == s.last();
                    assert(s[i] == s[s.len() - 1]);
                }
            }
            assert forall|i: int, j: int|
                0 <= i < f.push(s.last()).len() && 0 <= j < f.push(s.last()).len() && i != j
                    implies f.push(s.last())[i] != f.push(s.last())[j] by {
                if i < f.len() && j < f.len() {
                    assert(f[i] != f[j]);
                } else if i < f.len() {
                    assert(f.contains(f[i]));
                } else {
                    assert(f.contains(f[j]));
                }
            }
        }
    }
}


/// Whether every comment below the top level has its parent in the list: a
/// comment whose path is its own path without the last segment.
pub open spec fn parents_present(comments: Seq<CommentRecord>) -> bool {
    forall|i: int|
        0 <= i < comments.len() && segments(#[trigger] comments[i]).len() > 2 ==> exists|j: int|
            0 <= j < comments.len() && segments(comments[j]) == segments(comments[i]).drop_last()
}

/// Whether no two comments of the list share an id.
pub open spec fn distinct_ids(comments: Seq<CommentRecord>) -> bool {
    forall|i: int, j: int|
        0 <= i < comments.len() && 0 <= j < comments.len() && (#[trigger] comments[i]).id == (
        #[trigger] comments[j]).id ==> i == j
}

/// With parents present, each ancestor of a comment is in the list too.
proof fn lemma_ancestor(comments: Seq<CommentRecord>, i: int, m: nat) -> (j: int)
    requires
        parents_present(comments),
        0 <= i < comments.len(),
        2 <= m <= segments(comments[i]).len(),
    ensures
        0 <= j < comments.len(),
        segments(comments[j]) == segments(comments[i]).subrange(0, m as int),
    decreases segments(comments[i]).len() - m,
{
    let t = segments(comments[i]);
    if m == t.len() {
        assert(t.subrange(0, m as int) =~= t);
        i
    } else {
        let p = choose|p: int|
            0 <= p < comments.len() && segments(comments[p]) == segments(comments[i]).drop_last();
        let j = lemma_ancestor(comments, p, m);
        assert(segments(comments[p]).subrange(0, m as int) =~= t.subrange(0, m as int));
        j
    }
}

/// Two comments of a list with distinct ids and well-formed paths are the
/// same where their paths end alike.
proof fn lemma_same_last_segment(comments: Seq<CommentRecord>, a: CommentRecord, b: CommentRecord)
    requires
        forall|i: int| 0 <= i < comments.len() ==> well_formed(#[trigger] comments[i]),
        distinct_ids(comments),
        comments.contains(a),
        comments.contains(b),
        segments(a).last() == segments(b).last(),
    ensures
        a == b,
{
    let i = choose|i: int| 0 <= i < comments.len() && comments[i] == a;
    let j = choose|j: int| 0 <= j < comments.len() && comments[j] == b;
    assert(well_formed(comments[i]) && well_formed(comments[j]));
    lemma_int_text_injective(a.id as int, b.id as int);
}

/// Below a node built from a scope that holds every comment below it, each
/// such comment stands exactly once.
proof fn lemma_subtree_once(
    n: CommentNode,
    scope: Seq<CommentRecord>,
    level: nat,
    comments: Seq<CommentRecord>,
    ri: int,
)
    requires
        built_from(n, scope, level),
        paths_nest(n),
        well_formed(n.record),
        segments(n.record).len() == level + 1,
        scope.no_duplicates(),
        forall|x: CommentRecord| #[trigger] scope.contains(x) ==> comments.contains(x),
        forall|i: int| 0 <= i < comments.len() ==> well_formed(#[trigger] comments[i]),
        distinct_ids(comments),
        parents_present(comments),
        forall|i: int|
            0 <= i < comments.len() && strictly_below(#[trigger] comments[i], n.record)
                ==> scope.contains(comments[i]),
        0 <= ri < comments.len(),
        strictly_below(comments[ri], n.record),
    ensures
        forest_occurrences(n.children@, comments[ri]) == 1,
    decreases n,
{
    let r = comments[ri];
    let id = int_text(n.record.id as int);
    let child = |c: CommentRecord| is_direct_child(c, id, level);
    let deeper = |c: CommentRecord| is_deeper_descendant(c, id, level);
    let kids = scope.filter(child);
    let rest = scope.filter(deeper);
    let p = segments(n.record);
    let t = segments(r);
    assert(p[level as int] == id);
    let yi = lemma_ancestor(comments, ri, level + 2);
    let y = comments[yi];
    assert(segments(y) == t.subrange(0, level as int + 2));
    assert(segments(y).subrange(0, level as int + 1) =~= p);
    assert(strictly_below(y, n.record));
    assert(scope.contains(y));
    assert(segments(y)[level as int] == t[level as int]);
    assert(t[level as int] == t.subrange(0, level as int + 1)[level as int]);
    assert(child(y));
    let si = choose|si: int| 0 <= si < scope.len() && scope[si] == y;
    assert(kids.contains(scope[si]));
    let k = choose|k: int| 0 <= k < kids.len() && kids[k] == y;
    lemma_filter_no_duplicates(scope, child);
    lemma_filter_no_duplicates(scope, deeper);
    let c = n.children@[k];
    assert(c.record == y);
    assert(built_from(c, rest, level + 1));
    assert(paths_nest(c));
    if t.len() == level + 2 {
        assert(t.subrange(0, level as int + 2) =~= t);
        assert(comments.contains(r) && comments.contains(y));
        lemma_same_last_segment(comments, r, y);
        assert forall|g: int| 0 <= g < c.children@.len() implies occurrences(
            #[trigger] c.children@[g],
            r,
        ) == 0 by {
            if occurrences(c.children@[g], r) > 0 {
                lemma_occurrence_prefix(c.children@[g], r);
            }
        }
        lemma_forest_none(c.children@, r);
    } else {
        assert(forall|x: CommentRecord| #[trigger] rest.contains(x) ==> scope.contains(x));
        assert forall|i: int|
            0 <= i < comments.len() && strictly_below(#[trigger] comments[i], y) implies rest.contains(
            comments[i],
        ) by {
            let x = comments[i];
            let u = segments(x);
            assert(u.subrange(0, level as int + 2) == segments(y));
            assert(u.subrange(0, level as int + 1) =~= u.subrange(0, level as int + 2).subrange(0, level as int + 1));
            assert(segments(y).subrange(0, level as int + 1) =~= p);
            assert(strictly_below(x, n.record));
            assert(scope.contains(x));
            assert(u[level as int] == u.subrange(0, level as int + 2)[level as int]);
            assert(deeper(x));
            let xi = choose|xi: int| 0 <= xi < scope.len() && scope[xi] == x;
            assert(rest.contains(scope[xi]));
        }
        assert(t.subrange(0, level as int + 2) == segments(y));
        assert(strictly_below(r, y));
        lemma_subtree_once(c, rest, level + 1, comments, ri);
    }
    assert(occurrences(c, r) == 1);
    assert forall|j: int| 0 <= j < n.children@.len() && j != k implies occurrences(
        #[trigger] n.children@[j],
        r,
    ) == 0 by {
        let d = n.children@[j];
        if occurrences(d, r) > 0 {
            lemma_occurrence_prefix(d, r);
            assert(d.record == kids[j]);
            assert(kids.contains(kids[j]));
            assert(child(kids[j]));
            assert(segments(kids[j]) =~= t.subrange(0, level as int + 2));
            assert(comments.contains(kids[j]) && comments.contains(y));
            lemma_same_last_segment(comments, kids[j], y);
        }
    }
    lemma_forest_once(n.children@, r, k);
}


/// Tree correctness, coverage half: in the thread built from well-formed
/// comments with distinct ids, where every comment's parent is present,
/// every comment stands exactly once.
pub proof fn lemma_thread_holds_each_comment_once(
    comments: Seq<CommentRecord>,
    forest: Seq<CommentNode>,
    ri: int,
)
    requires
        is_thread_of(forest, comments),
        forall|i: int| 0 <= i < comments.len() ==> well_formed(#[trigger] comments[i]),
        distinct_ids(comments),
        parents_present(comments),
        0 <= ri < comments.len(),
    ensures
        forest_occurrences(forest, comments[ri]) == 1,
{
    let r = comments[ri];
    let t = segments(r);
    let top = |c: CommentRecord| is_top_level(c);
    let roots = comments.filter(top);
    lemma_thread_paths_nest(comments, forest);
    assert(comments.no_duplicates()) by {
        assert forall|i: int, j: int|
            0 <= i < comments.len() && 0 <= j < comments.len() && i != j implies comments[i]
            != comments[j] by {
            if comments[i] == comments[j] {
                assert(comments[i].id == comments[j].id);
            }
        }
    }
    lemma_filter_no_duplicates(comments, top);
    assert(well_formed(r));
    let zi = lemma_ancestor(comments, ri, 2);
    let z = comments[zi];
    assert(top(z));
    assert(roots.contains(comments[zi]));
    let k = choose|k: int| 0 <= k < roots.len() && roots[k] == z;
    let n = forest[k];
    assert(n.record == z);
    assert(built_from(n, comments, 1));
    assert(paths_nest(n));
    if t.len() == 2 {
        assert(t.subrange(0, 2) =~= t);
        assert(comments.contains(r) && comments.contains(z));
        lemma_same_last_segment(comments, r, z);
        assert forall|g: int| 0 <= g < n.children@.len() implies occurrences(
            #[trigger] n.children@[g],
            r,
        ) == 0 by {
            if occurrences(n.children@[g], r) > 0 {
                lemma_occurrence_prefix(n.children@[g], r);
            }
        }
        lemma_forest_none(n.children@, r);
    } else {
        assert(well_formed(z));
        assert(t.subrange(0, 2) == segments(z));
        assert(strictly_below(r, z));
        assert forall|i: int|
            0 <= i < comments.len() && strictly_below(#[trigger] comments[i], n.record) implies comments.contains(
            comments[i],
        ) by {}
        lemma_subtree_once(n, comments, 1, comments, ri);
    }
    assert(occurrences(n, r) == 1);
    assert forall|j: int| 0 <= j < forest.len() && j != k implies occurrences(
        #[trigger] forest[j],
        r,
    ) == 0 by {
        let d = forest[j];
        if occurrences(d, r) > 0 {
            lemma_occurrence_prefix(d, r);
            assert(d.record == roots[j]);
            assert(roots.contains(roots[j]));
            assert(top(roots[j]));
            assert(segments(roots[j]) =~= t.subrange(0, 2));
            assert(comments.contains(roots[j]) && comments.contains(z));
            lemma_same_last_segment(comments, roots[j], z);
        }
    }
    lemma_forest_once(forest, r, k);
}


/// Below a node, only comments of the scope it was built from stand.
proof fn lemma_subtree_members(n: CommentNode, scope: Seq<CommentRecord>, level: nat, x: CommentRecord)
    requires
        built_from(n, scope, level),
        forest_occurrences(n.children@, x) > 0,
    ensures
        scope.contains(x),
    decreases n,
{
    let id = int_text(n.record.id as int);
    let kids = scope.filter(|c: CommentRecord| is_direct_child(c, id, level));
    let rest = scope.filter(|c: CommentRecord| is_deeper_descendant(c, id, level));
    let k = lemma_forest_some(n.children@, x);
    let c = n.children@[k];
    if c.record == x {
        assert(kids.contains(kids[k]));
    } else {
        lemma_subtree_members(c, rest, level + 1, x);
    }
}

/// Tree correctness, the other half of coverage: the thread holds no
/// comment that is not in the list.
pub proof fn lemma_thread_holds_only_comments(
    comments: Seq<CommentRecord>,
    forest: Seq<CommentNode>,
    x: CommentRecord,
)
    requires
        is_thread_of(forest, comments),
        forest_occurrences(forest, x) > 0,
    ensures
        comments.contains(x),
{
    let roots = comments.filter(|c: CommentRecord| is_top_level(c));
    let k = lemma_forest_some(forest, x);
    let n = forest[k];
    if n.record == x {
        assert(roots.contains(roots[k]));
    } else {
        lemma_subtree_members(n, comments, 1, x);
    }
}

} // verus!
