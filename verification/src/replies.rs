//! Reply-tree flattener: a depth-first, pre-order walk of the nested reply
//! structure, honoring a maximum-depth limit and skipping whitespace-only
//! bodies.  A depth-pruned node is dropped with its whole subtree; an
//! empty-body node is dropped alone, its children are still visited.

use vstd::prelude::*;

use crate::text::is_ws_only_str;
use crate::text::ws_only;

verus! {

/// One comment of the reply tree, as the API supplies it.  The depth comes
/// from the payload and is trusted, not recomputed during traversal.
pub struct Comment {
    pub id: String,
    pub author: String,
    pub ups: i32,
    pub body: String,
    pub created_utc: i64,
    pub depth: u32,
    pub children: Vec<Comment>,
}

/// One flattened node: the scalar fields of a comment, in walk order.
pub struct FlatEntry {
    pub id: String,
    pub author: String,
    pub ups: i32,
    pub body: String,
    pub created_utc: i64,
    pub depth: u32,
}

/// The flattened form of one comment.
pub open spec fn entry_of(c: Comment) -> FlatEntry {
    FlatEntry {
        id: c.id,
        author: c.author,
        ups: c.ups,
        body: c.body,
        created_utc: c.created_utc,
        depth: c.depth,
    }
}

/// The depth limit drops this node (and so its whole subtree); `-1` means
/// unlimited.
pub open spec fn depth_pruned(c: Comment, max_depth: int) -> bool {
    max_depth != -1 && c.depth as int > max_depth
}

/// The entries the walk yields for one node: nothing when depth-pruned, the
/// children's entries when the body is whitespace-only, the node's own entry
/// followed by its children's entries otherwise.
pub open spec fn spec_flatten_node(c: Comment, max_depth: int) -> Seq<FlatEntry>
    decreases c,
{
    if depth_pruned(c, max_depth) {
        Seq::empty()
    } else if ws_only(c.body@) {
        spec_flatten_list(c.children@, max_depth)
    } else {
        seq![entry_of(c)] + spec_flatten_list(c.children@, max_depth)
    }
}

/// The entries the walk yields for a list of siblings, in original order.
pub open spec fn spec_flatten_list(cs: Seq<Comment>, max_depth: int) -> Seq<FlatEntry>
    decreases cs,
{
    if cs.len() == 0 {
        Seq::empty()
    } else {
        spec_flatten_node(cs[0], max_depth) + spec_flatten_list(cs.skip(1), max_depth)
    }
}

fn flatten_node(c: &Comment, max_depth: i32, out: &mut Vec<FlatEntry>)
    ensures
        final(out)@ == old(out)@ + spec_flatten_node(*c, max_depth as int),
    decreases *c,
{
    if max_depth != -1 && (c.depth as i64) > (max_depth as i64) {
        proof {
            assert(old(out)@ + Seq::<FlatEntry>::empty() =~= old(out)@);
        }
        return ;
    }
    if !is_ws_only_str(c.body.as_str()) {
        let entry = FlatEntry {
            id: c.id.clone(),
            author: c.author.clone(),
            ups: c.ups,
            body: c.body.clone(),
            created_utc: c.created_utc,
            depth: c.depth,
        };
        proof {
            assert(entry == entry_of(*c));
        }
        out.push(entry);
        let ghost mid = out@;
        flatten_children(&c.children, max_depth, out);
        proof {
            assert(old(out)@ + (seq![entry_of(*c)] + spec_flatten_list(
                c.children@,
                max_depth as int,
            )) =~= mid + spec_flatten_list(c.children@, max_depth as int));
        }
    } else {
        flatten_children(&c.children, max_depth, out);
    }
}

fn flatten_children(cs: &Vec<Comment>, max_depth: i32, out: &mut Vec<FlatEntry>)
    ensures
        final(out)@ == old(out)@ + spec_flatten_list(cs@, max_depth as int),
    decreases cs@,
{
    let mut i: usize = 0;
    let ghost base = out@;
    proof {
        assert(cs@.skip(0) =~= cs@);
        assert(base.skip(base.len() as int) =~= Seq::<FlatEntry>::empty());
    }
    while i < cs.len()
        invariant
            i <= cs@.len(),
            out@.len() >= base.len(),
            out@.take(base.len() as int) == base,
            spec_flatten_list(cs@, max_depth as int) == out@.skip(base.len() as int)
                + spec_flatten_list(cs@.skip(i as int), max_depth as int),
        decreases cs@.len() - i,
    {
        let ghost prev = out@;
        flatten_node(&cs[i], max_depth, out);
        proof {
            assert(cs@.skip(i as int)[0] == cs@[i as int]);
            assert(cs@.skip(i as int).skip(1) =~= cs@.skip(i + 1));
            assert(out@.take(base.len() as int) =~= base);
            assert(out@.skip(base.len() as int) =~= prev.skip(base.len() as int)
                + spec_flatten_node(cs@[i as int], max_depth as int));
            assert(out@.skip(base.len() as int) + spec_flatten_list(
                cs@.skip(i + 1),
                max_depth as int,
            ) =~= prev.skip(base.len() as int) + spec_flatten_list(
                cs@.skip(i as int),
                max_depth as int,
            ));
        }
        i += 1;
    }
    proof {
        assert(cs@.skip(cs@.len() as int) =~= Seq::<Comment>::empty());
        assert(out@.skip(base.len() as int) + spec_flatten_list(
            Seq::<Comment>::empty(),
            max_depth as int,
        ) =~= out@.skip(base.len() as int));
        assert(out@ =~= base + out@.skip(base.len() as int));
    }
}

/// Flatten the reply tree below `comment`: walk its children depth-first in
/// pre-order, reading each node's depth from the payload; drop a node and
/// its subtree when the depth limit (`-1` unlimited) excludes it, and drop a
/// node alone, still visiting its children, when its body is
/// whitespace-only.
pub fn get_replies(comment: &Comment, max_depth: i32) -> (out: Vec<FlatEntry>)
    ensures
        out@ == spec_flatten_list(comment.children@, max_depth as int),
{
    let mut out: Vec<FlatEntry> = Vec::new();
    flatten_children(&comment.children, max_depth, &mut out);
    proof {
        assert(Seq::<FlatEntry>::empty() + spec_flatten_list(comment.children@, max_depth as int)
            =~= spec_flatten_list(comment.children@, max_depth as int));
    }
    out
}

/// The descendant count the reply-count line reports for a list of top-level
/// comments: the flattened entries below each of them, summed.
pub open spec fn spec_descendant_count(cs: Seq<Comment>, max_depth: int) -> int
    decreases cs.len(),
{
    if cs.len() == 0 {
        0
    } else {
        spec_descendant_count(cs.drop_last(), max_depth) + spec_flatten_list(
            cs.last().children@,
            max_depth,
        ).len()
    }
}

/// The total the reply-count line reports: the top-level comments plus their
/// flattened descendants.  Whitespace-only top-level comments still count,
/// so the figure can exceed the number of comment blocks actually rendered.
pub open spec fn spec_total_replies(cs: Seq<Comment>, max_depth: int) -> int {
    cs.len() + spec_descendant_count(cs, max_depth)
}

proof fn lemma_descendant_count_nonneg(cs: Seq<Comment>, max_depth: int)
    ensures
        spec_descendant_count(cs, max_depth) >= 0,
    decreases cs.len(),
{
    if cs.len() > 0 {
        lemma_descendant_count_nonneg(cs.drop_last(), max_depth);
    }
}

proof fn lemma_descendant_count_prefix_le(cs: Seq<Comment>, max_depth: int, k: int)
    requires
        0 <= k <= cs.len(),
    ensures
        spec_descendant_count(cs.take(k), max_depth) <= spec_descendant_count(cs, max_depth),
    decreases cs.len() - k,
{
    if k < cs.len() {
        lemma_descendant_count_prefix_le(cs, max_depth, k + 1);
        let t = cs.take(k + 1);
        assert(t.drop_last() =~= cs.take(k));
        assert(t.last() == cs[k]);
        assert(spec_descendant_count(cs.take(k + 1), max_depth) == spec_descendant_count(
            cs.take(k),
            max_depth,
        ) + spec_flatten_list(cs[k].children@, max_depth).len());
    } else {
        assert(cs.take(k) =~= cs);
    }
}

/// The reply-count total for a list of top-level comments: each top-level
/// comment counts once, whatever its body, plus every entry its subtree
/// yields under the configured depth limit.
pub fn count_total_replies(replies: &Vec<Comment>, max_depth: i32) -> (total: usize)
    requires
        spec_total_replies(replies@, max_depth as int) <= usize::MAX,
    ensures
        total == spec_total_replies(replies@, max_depth as int),
{
    let mut total: usize = replies.len();
    let mut i: usize = 0;
    proof {
        assert(replies@.take(0) =~= Seq::<Comment>::empty());
    }
    while i < replies.len()
        invariant
            i <= replies@.len(),
            spec_total_replies(replies@, max_depth as int) <= usize::MAX,
            total == replies@.len() + spec_descendant_count(replies@.take(i as int), max_depth as int),
        decreases replies@.len() - i,
    {
        let sub = get_replies(&replies[i], max_depth);
        proof {
            let t = replies@.take(i + 1);
            assert(t.drop_last() =~= replies@.take(i as int));
            assert(t.last() == replies@[i as int]);
            lemma_descendant_count_prefix_le(replies@, max_depth as int, i + 1);
            lemma_descendant_count_nonneg(replies@.take(i as int), max_depth as int);
        }
        total += sub.len();
        i += 1;
    }
    proof {
        assert(replies@.take(replies@.len() as int) =~= replies@);
    }
    total
}

/// Law: with a depth limit in force, no flattened entry lies deeper than the
/// limit; a pruned branch contributes nothing at all.
pub proof fn lemma_flatten_depth_bounded(cs: Seq<Comment>, max_depth: int)
    requires
        max_depth != -1,
    ensures
        forall|k: int|
            0 <= k < spec_flatten_list(cs, max_depth).len() ==> (#[trigger] spec_flatten_list(
                cs,
                max_depth,
            )[k]).depth as int <= max_depth,
    decreases cs,
{
    if cs.len() > 0 {
        lemma_flatten_node_depth_bounded(cs[0], max_depth);
        lemma_flatten_depth_bounded(cs.skip(1), max_depth);
        let a = spec_flatten_node(cs[0], max_depth);
        let b = spec_flatten_list(cs.skip(1), max_depth);
        assert forall|k: int|
            0 <= k < spec_flatten_list(cs, max_depth).len() implies (
        #[trigger] spec_flatten_list(cs, max_depth)[k]).depth as int <= max_depth by {
            if k < a.len() {
                assert(spec_flatten_list(cs, max_depth)[k] == a[k]);
            } else {
                assert(spec_flatten_list(cs, max_depth)[k] == b[k - a.len()]);
            }
        }
    }
}

proof fn lemma_flatten_node_depth_bounded(c: Comment, max_depth: int)
    requires
        max_depth != -1,
    ensures
        forall|k: int|
            0 <= k < spec_flatten_node(c, max_depth).len() ==> (#[trigger] spec_flatten_node(
                c,
                max_depth,
            )[k]).depth as int <= max_depth,
    decreases c,
{
    if !depth_pruned(c, max_depth) {
        lemma_flatten_depth_bounded(c.children@, max_depth);
        let b = spec_flatten_list(c.children@, max_depth);
        assert forall|k: int|
            0 <= k < spec_flatten_node(c, max_depth).len() implies (
        #[trigger] spec_flatten_node(c, max_depth)[k]).depth as int <= max_depth by {
            if ws_only(c.body@) {
                assert(spec_flatten_node(c, max_depth)[k] == b[k]);
            } else {
                if k == 0 {
                    assert(spec_flatten_node(c, max_depth)[0] == entry_of(c));
                } else {
                    assert(spec_flatten_node(c, max_depth)[k] == b[k - 1]);
                }
            }
        }
    }
}

/// Law: a node whose body is empty or whitespace-only never appears in the
/// flattened output.
pub proof fn lemma_flatten_no_empty_bodies(cs: Seq<Comment>, max_depth: int)
    ensures
        forall|k: int|
            0 <= k < spec_flatten_list(cs, max_depth).len() ==> !ws_only(
                (#[trigger] spec_flatten_list(cs, max_depth)[k]).body@,
            ),
    decreases cs,
{
    if cs.len() > 0 {
        lemma_flatten_node_no_empty_bodies(cs[0], max_depth);
        lemma_flatten_no_empty_bodies(cs.skip(1), max_depth);
        let a = spec_flatten_node(cs[0], max_depth);
        let b = spec_flatten_list(cs.skip(1), max_depth);
        assert forall|k: int| 0 <= k < spec_flatten_list(cs, max_depth).len() implies !ws_only(
            (#[trigger] spec_flatten_list(cs, max_depth)[k]).body@,
        ) by {
            if k < a.len() {
                assert(spec_flatten_list(cs, max_depth)[k] == a[k]);
            } else {
                assert(spec_flatten_list(cs, max_depth)[k] == b[k - a.len()]);
            }
        }
    }
}

proof fn lemma_flatten_node_no_empty_bodies(c: Comment, max_depth: int)
    ensures
        forall|k: int|
            0 <= k < spec_flatten_node(c, max_depth).len() ==> !ws_only(
                (#[trigger] spec_flatten_node(c, max_depth)[k]).body@,
            ),
    decreases c,
{
    if !depth_pruned(c, max_depth) {
        lemma_flatten_no_empty_bodies(c.children@, max_depth);
        let b = spec_flatten_list(c.children@, max_depth);
        assert forall|k: int| 0 <= k < spec_flatten_node(c, max_depth).len() implies !ws_only(
            (#[trigger] spec_flatten_node(c, max_depth)[k]).body@,
        ) by {
            if ws_only(c.body@) {
                assert(spec_flatten_node(c, max_depth)[k] == b[k]);
            } else {
                if k == 0 {
                    assert(spec_flatten_node(c, max_depth)[0] == entry_of(c));
                } else {
                    assert(spec_flatten_node(c, max_depth)[k] == b[k - 1]);
                }
            }
        }
    }
}

/// Law: a depth-pruned node contributes nothing at all — its children are
/// not visited, whatever depths they claim.
pub proof fn lemma_pruned_subtree_dropped(c: Comment, max_depth: int)
    requires
        depth_pruned(c, max_depth),
    ensures
        spec_flatten_node(c, max_depth) == Seq::<FlatEntry>::empty(),
{
}

/// Law: a node whose body is whitespace-only is dropped alone — the walk
/// still yields exactly its children's entries.
pub proof fn lemma_empty_body_skipped(c: Comment, max_depth: int)
    requires
        !depth_pruned(c, max_depth),
        ws_only(c.body@),
    ensures
        spec_flatten_node(c, max_depth) == spec_flatten_list(c.children@, max_depth),
{
}

/// `c` is a node of the forest rooted at the comments of `cs`.
pub open spec fn in_forest(cs: Seq<Comment>, c: Comment) -> bool
    decreases cs,
{
    exists|i: int|
        0 <= i < cs.len() && (#[trigger] cs[i] == c || in_forest(cs[i].children@, c))
}

/// Law: with the depth limit disabled, flattening yields every node of the
/// forest whose body is not whitespace-only, whatever its depth.
pub proof fn lemma_unlimited_depth_keeps_all(cs: Seq<Comment>, c: Comment)
    requires
        in_forest(cs, c),
        !ws_only(c.body@),
    ensures
        spec_flatten_list(cs, -1).contains(entry_of(c)),
    decreases cs,
{
    let i = choose|i: int|
        0 <= i < cs.len() && (#[trigger] cs[i] == c || in_forest(cs[i].children@, c));
    lemma_flatten_list_contains_node(cs, -1, i);
    if cs[i] == c {
        assert(spec_flatten_node(cs[i], -1)[0] == entry_of(c));
        assert(spec_flatten_node(cs[i], -1).contains(entry_of(c)));
    } else {
        lemma_unlimited_depth_keeps_all(cs[i].children@, c);
        assert(spec_flatten_node(cs[i], -1) == if ws_only(cs[i].body@) {
            spec_flatten_list(cs[i].children@, -1)
        } else {
            seq![entry_of(cs[i])] + spec_flatten_list(cs[i].children@, -1)
        });
        let e = entry_of(c);
        let j = choose|j: int|
            0 <= j < spec_flatten_list(cs[i].children@, -1).len() && #[trigger] spec_flatten_list(
                cs[i].children@,
                -1,
            )[j] == e;
        if ws_only(cs[i].body@) {
            assert(spec_flatten_node(cs[i], -1)[j] == e);
        } else {
            assert(spec_flatten_node(cs[i], -1)[j + 1] == e);
        }
        assert(spec_flatten_node(cs[i], -1).contains(e));
    }
}

/// Every entry a node yields appears in the flattened output of any sibling
/// list that holds the node.
proof fn lemma_flatten_list_contains_node(cs: Seq<Comment>, max_depth: int, i: int)
    requires
        0 <= i < cs.len(),
    ensures
        forall|e: FlatEntry|
            #[trigger] spec_flatten_node(cs[i], max_depth).contains(e) ==> spec_flatten_list(
                cs,
                max_depth,
            ).contains(e),
    decreases cs,
{
    if i == 0 {
        assert forall|e: FlatEntry| #[trigger]
            spec_flatten_node(cs[0], max_depth).contains(e) implies spec_flatten_list(
            cs,
            max_depth,
        ).contains(e) by {
            let j = choose|j: int|
                0 <= j < spec_flatten_node(cs[0], max_depth).len() && spec_flatten_node(
                    cs[0],
                    max_depth,
                )[j] == e;
            assert(spec_flatten_list(cs, max_depth)[j] == e);
        }
    } else {
        lemma_flatten_list_contains_node(cs.skip(1), max_depth, i - 1);
        assert(cs.skip(1)[i - 1] == cs[i]);
        assert forall|e: FlatEntry| #[trigger]
            spec_flatten_node(cs[i], max_depth).contains(e) implies spec_flatten_list(
            cs,
            max_depth,
        ).contains(e) by {
            assert(spec_flatten_list(cs.skip(1), max_depth).contains(e));
            let j = choose|j: int|
                0 <= j < spec_flatten_list(cs.skip(1), max_depth).len() && spec_flatten_list(
                    cs.skip(1),
                    max_depth,
                )[j] == e;
            assert(spec_flatten_list(cs, max_depth)[spec_flatten_node(cs[0], max_depth).len() + j]
                == e);
        }
    }
}

} // verus!
