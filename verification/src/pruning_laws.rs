use vstd::prelude::*;
use crate::block::{Axis, Block};
use crate::level::{lower_corner, upper_corner};
use crate::pruning::{
    first_with, has_lock, is_negative, lemma_first_with, lemma_locked_iff_has_lock, line_of,
    lock_free, lock_free_along, lock_free_in, locked, not_in, occurs_in, on_line_of,
    prune_along, prune_line, prune_row, prune_rows, pruned, restricts, without,
};
use crate::vector::IVec3;

verus! {

/// Whether some block of the line has a positive direction.
pub open spec fn has_positive(line: Seq<Block>) -> bool {
    exists|i: int| 0 <= i < line.len() && (#[trigger] line[i]).direction.positive
}

proof fn lemma_has_positive_push(s: Seq<Block>, b: Block)
    ensures
        has_positive(s.push(b)) <==> has_positive(s) || b.direction.positive,
{
    let t = s.push(b);
    if has_positive(t) {
        let i = choose|i: int| 0 <= i < t.len() && (#[trigger] t[i]).direction.positive;
        if i < s.len() {
            assert(s[i].direction.positive);
        }
    }
    if has_positive(s) {
        let i = choose|i: int| 0 <= i < s.len() && (#[trigger] s[i]).direction.positive;
        assert(t[i].direction.positive);
    }
    if b.direction.positive {
        assert(t[s.len() as int].direction.positive);
    }
}

proof fn lemma_has_lock_push(s: Seq<Block>, b: Block)
    ensures
        has_lock(s.push(b)) <==> has_lock(s) || (!b.direction.positive && has_positive(s)),
{
    let t = s.push(b);
    if has_lock(t) {
        let (i, j) = choose|i: int, j: int|
            0 <= i < j < t.len() && (#[trigger] t[i]).direction.positive && !(
            #[trigger] t[j]).direction.positive;
        if j < s.len() {
            assert(s[i].direction.positive && !s[j].direction.positive);
        } else {
            assert(s[i].direction.positive);
        }
    }
    if has_lock(s) {
        let (i, j) = choose|i: int, j: int|
            0 <= i < j < s.len() && (#[trigger] s[i]).direction.positive && !(
            #[trigger] s[j]).direction.positive;
        assert(t[i].direction.positive && !t[j].direction.positive);
    }
    if !b.direction.positive && has_positive(s) {
        let i = choose|i: int| 0 <= i < s.len() && (#[trigger] s[i]).direction.positive;
        assert(t[i].direction.positive && !t[s.len() as int].direction.positive);
    }
}

/// Leaving blocks out of a line brings no lock into it.
pub proof fn lemma_filter_brings_no_lock(s: Seq<Block>, pred: spec_fn(Block) -> bool)
    ensures
        has_positive(s.filter(pred)) ==> has_positive(s),
        has_lock(s.filter(pred)) ==> has_lock(s),
    decreases s.len(),
{
    if s.len() == 0 {
        s.lemma_filter_len(pred);
    } else {
        let rest = s.drop_last();
        let b = s.last();
        assert(s =~= rest.push(b));
        rest.lemma_filter_push(b, pred);
        lemma_filter_brings_no_lock(rest, pred);
        lemma_has_positive_push(rest, b);
        lemma_has_lock_push(rest, b);
        if pred(b) {
            lemma_has_positive_push(rest.filter(pred), b);
            lemma_has_lock_push(rest.filter(pred), b);
        }
    }
}

/// Two filters can be applied in either order.
pub proof fn lemma_filter_commutes<A>(s: Seq<A>, p: spec_fn(A) -> bool, q: spec_fn(A) -> bool)
    ensures
        s.filter(p).filter(q) == s.filter(q).filter(p),
    decreases s.len(),
{
    if s.len() == 0 {
        s.lemma_filter_len(p);
        s.lemma_filter_len(q);
        assert(s.filter(p) =~= s);
        assert(s.filter(q) =~= s);
    } else {
        let rest = s.drop_last();
        let b = s.last();
        assert(s =~= rest.push(b));
        rest.lemma_filter_push(b, p);
        rest.lemma_filter_push(b, q);
        lemma_filter_commutes(rest, p, q);
        rest.filter(p).lemma_filter_push(b, q);
        rest.filter(q).lemma_filter_push(b, p);
    }
}

/// A filter that every element passes changes nothing.
pub proof fn lemma_filter_all<A>(s: Seq<A>, p: spec_fn(A) -> bool)
    requires
        forall|i: int| 0 <= i < s.len() ==> p(#[trigger] s[i]),
    ensures
        s.filter(p) == s,
    decreases s.len(),
{
    if s.len() == 0 {
        s.lemma_filter_len(p);
        assert(s.filter(p) =~= s);
    } else {
        let rest = s.drop_last();
        let b = s.last();
        assert(s =~= rest.push(b));
        rest.lemma_filter_push(b, p);
        lemma_filter_all(rest, p);
    }
}

/// Two filters that agree on every element of a sequence keep the same
/// elements of it.
pub proof fn lemma_filter_agree<A>(s: Seq<A>, p: spec_fn(A) -> bool, q: spec_fn(A) -> bool)
    requires
        forall|i: int| 0 <= i < s.len() ==> p(#[trigger] s[i]) == q(s[i]),
    ensures
        s.filter(p) == s.filter(q),
    decreases s.len(),
{
    if s.len() == 0 {
        s.lemma_filter_len(p);
        s.lemma_filter_len(q);
        assert(s.filter(p) =~= s.filter(q));
    } else {
        let rest = s.drop_last();
        let b = s.last();
        assert(s =~= rest.push(b));
        rest.lemma_filter_push(b, p);
        rest.lemma_filter_push(b, q);
        lemma_filter_agree(rest, p, q);
    }
}

/// The predicate that holds where both `p` and `q` hold.
pub open spec fn both<A>(p: spec_fn(A) -> bool, q: spec_fn(A) -> bool) -> spec_fn(A) -> bool {
    |a: A| p(a) && q(a)
}

/// One filter after another keeps what passes both.
pub proof fn lemma_filter_twice<A>(s: Seq<A>, p: spec_fn(A) -> bool, q: spec_fn(A) -> bool)
    ensures
        s.filter(p).filter(q) == s.filter(both(p, q)),
    decreases s.len(),
{
    if s.len() == 0 {
        s.lemma_filter_len(p);
        s.lemma_filter_len(both(p, q));
        assert(s.filter(p) =~= s);
        s.lemma_filter_len(q);
        assert(s.filter(p).filter(q) =~= s.filter(both(p, q)));
    } else {
        let rest = s.drop_last();
        let b = s.last();
        assert(s =~= rest.push(b));
        rest.lemma_filter_push(b, p);
        rest.lemma_filter_push(b, both(p, q));
        rest.filter(p).lemma_filter_push(b, q);
        lemma_filter_twice(rest, p, q);
    }
}

/// A sequence is itself with nothing left out.
pub proof fn lemma_restricts_itself(s: Seq<Block>)
    ensures
        restricts(s, s),
{
    lemma_filter_all(s, occurs_in(s));
}

/// Leaving out the blocks of some values, of a sequence that was got in
/// that way, gives a sequence that was got in that way.
pub proof fn lemma_restricts_filtered(
    before: Seq<Block>,
    mid: Seq<Block>,
    q: spec_fn(Block) -> bool,
)
    requires
        restricts(mid, before),
    ensures
        restricts(mid.filter(q), before),
{
    let after = mid.filter(q);
    lemma_filter_twice(before, occurs_in(mid), q);
    assert forall|i: int| 0 <= i < before.len() implies both(occurs_in(mid), q)(
        #[trigger] before[i],
    ) == occurs_in(after)(before[i]) by {
        let b = before[i];
        if mid.contains(b) && q(b) {
            let k = choose|k: int| 0 <= k < mid.len() && mid[k] == b;
            mid.lemma_filter_contains(q, k);
        }
        if after.contains(b) {
            mid.lemma_filter_contains_rev(q, b);
            let j = choose|j: int| 0 <= j < after.len() && after[j] == b;
            mid.lemma_filter_pred(q, j);
        }
    }
    lemma_filter_agree(before, both(occurs_in(mid), q), occurs_in(after));
}

/// Leaving out blocks by value twice over is leaving out blocks by value.
pub proof fn lemma_restricts_transitive(after: Seq<Block>, mid: Seq<Block>, before: Seq<Block>)
    requires
        restricts(after, mid),
        restricts(mid, before),
    ensures
        restricts(after, before),
{
    lemma_restricts_filtered(before, mid, occurs_in(after));
}

/// Of a line with a lock, the blocks among the first `k` that are not
/// locked hold no lock, and no positive block as long as `k` does not pass
/// the first negative block behind the first positive one.
proof fn lemma_kept_prefix(line: Seq<Block>, k: int)
    requires
        0 <= k <= line.len(),
        first_with(line, first_with(line, 0, true), false) < line.len(),
    ensures
        !has_lock(without(line.take(k), locked(line))),
        k <= first_with(line, first_with(line, 0, true), false) ==> !has_positive(
            without(line.take(k), locked(line)),
        ),
    decreases k,
{
    let removed = locked(line);
    let p = first_with(line, 0, true);
    let n = first_with(line, p, false);
    lemma_first_with(line, 0, true);
    lemma_first_with(line, p, false);
    let head = line.subrange(p, n);
    let tail = line.subrange(n, line.len() as int).filter(is_negative());
    assert(removed == head + tail);
    if k == 0 {
        line.take(0).lemma_filter_len(not_in(removed));
    } else {
        let idx = k - 1;
        let b = line[idx];
        let before = without(line.take(idx), removed);
        lemma_kept_prefix(line, idx);
        assert(line.take(k) =~= line.take(idx).push(b));
        line.take(idx).lemma_filter_push(b, not_in(removed));
        lemma_has_lock_push(before, b);
        lemma_has_positive_push(before, b);
        if p <= idx < n {
            assert(head[idx - p] == b);
            assert(removed[idx - p] == b);
            assert(removed.contains(b));
        }
        if idx >= n && !b.direction.positive {
            let rest = line.subrange(n, line.len() as int);
            assert(rest[idx - n] == b);
            rest.lemma_filter_contains(is_negative(), idx - n);
            let j = choose|j: int| 0 <= j < tail.len() && tail[j] == b;
            assert(removed[head.len() + j] == b);
            assert(removed.contains(b));
        }
        if idx < p {
            assert(!b.direction.positive);
        }
    }
}

/// What is left of a line once its locked blocks are gone holds no lock.
pub proof fn lemma_line_without_locked_is_lock_free(line: Seq<Block>)
    ensures
        !has_lock(without(line, locked(line))),
{
    let p = first_with(line, 0, true);
    let n = first_with(line, p, false);
    lemma_first_with(line, 0, true);
    lemma_first_with(line, p, false);
    if n < line.len() {
        lemma_kept_prefix(line, line.len() as int);
        assert(line.take(line.len() as int) =~= line);
    } else {
        lemma_locked_iff_has_lock(line);
        lemma_filter_brings_no_lock(line, not_in(locked(line)));
    }
}

/// Clearing one line of its locked blocks leaves that line without a lock
/// and brings no lock into any other line.
pub proof fn lemma_prune_line(
    blocks: Seq<Block>,
    axis: Axis,
    x: int,
    y: int,
    other: Axis,
    u: int,
    v: int,
)
    ensures
        !has_lock(line_of(prune_line(blocks, axis, x, y), axis, x, y)),
        has_lock(line_of(prune_line(blocks, axis, x, y), other, u, v)) ==> has_lock(
            line_of(blocks, other, u, v),
        ),
{
    let removed = locked(line_of(blocks, axis, x, y));
    lemma_filter_commutes(blocks, not_in(removed), on_line_of(axis, x, y));
    lemma_line_without_locked_is_lock_free(line_of(blocks, axis, x, y));
    lemma_filter_commutes(blocks, not_in(removed), on_line_of(other, u, v));
    lemma_filter_brings_no_lock(line_of(blocks, other, u, v), not_in(removed));
}

/// Whether every line that holds a lock in `after` held one in `before`.
pub open spec fn no_new_lock(after: Seq<Block>, before: Seq<Block>) -> bool {
    forall|axis: Axis, u: int, v: int|
        has_lock(#[trigger] line_of(after, axis, u, v)) ==> has_lock(line_of(before, axis, u, v))
}

/// Whether the box that bounds `inner` lies in the box that bounds `outer`.
pub open spec fn bounded_by(inner: Seq<Block>, outer: Seq<Block>) -> bool {
    &&& lower_corner(outer).x <= lower_corner(inner).x
    &&& lower_corner(outer).y <= lower_corner(inner).y
    &&& lower_corner(outer).z <= lower_corner(inner).z
    &&& upper_corner(inner).x <= upper_corner(outer).x
    &&& upper_corner(inner).y <= upper_corner(outer).y
    &&& upper_corner(inner).z <= upper_corner(outer).z
}

/// Whether every block of `after` is a block of `before`.
pub open spec fn drawn_from(after: Seq<Block>, before: Seq<Block>) -> bool {
    forall|b: Block| #[trigger] after.contains(b) ==> before.contains(b)
}

/// Leaving blocks out does not widen the box that bounds them.
pub proof fn lemma_filter_bounded(s: Seq<Block>, pred: spec_fn(Block) -> bool)
    ensures
        bounded_by(s.filter(pred), s),
    decreases s.len(),
{
    if s.len() == 0 {
        s.lemma_filter_len(pred);
        assert(s.filter(pred) =~= s);
    } else {
        let rest = s.drop_last();
        let b = s.last();
        assert(s =~= rest.push(b));
        rest.lemma_filter_push(b, pred);
        lemma_filter_bounded(rest, pred);
        if pred(b) {
            assert(rest.filter(pred).push(b).drop_last() =~= rest.filter(pred));
        }
    }
}

proof fn lemma_prune_line_all(blocks: Seq<Block>, axis: Axis, x: int, y: int)
    ensures
        !has_lock(line_of(prune_line(blocks, axis, x, y), axis, x, y)),
        no_new_lock(prune_line(blocks, axis, x, y), blocks),
        bounded_by(prune_line(blocks, axis, x, y), blocks),
        drawn_from(prune_line(blocks, axis, x, y), blocks),
        restricts(prune_line(blocks, axis, x, y), blocks),
{
    lemma_restricts_itself(blocks);
    lemma_restricts_filtered(blocks, blocks, not_in(locked(line_of(blocks, axis, x, y))));
    assert forall|b: Block| #[trigger]
        prune_line(blocks, axis, x, y).contains(b) implies blocks.contains(b) by {
        blocks.lemma_filter_contains_rev(not_in(locked(line_of(blocks, axis, x, y))), b);
    }
    lemma_prune_line(blocks, axis, x, y, axis, x, y);
    assert forall|other: Axis, u: int, v: int| has_lock(
        #[trigger] line_of(prune_line(blocks, axis, x, y), other, u, v),
    ) implies has_lock(line_of(blocks, other, u, v)) by {
        lemma_prune_line(blocks, axis, x, y, other, u, v);
    }
    lemma_filter_bounded(blocks, not_in(locked(line_of(blocks, axis, x, y))));
}

proof fn lemma_prune_row(blocks: Seq<Block>, axis: Axis, x: int, y: int, y_end: int)
    ensures
        lock_free_in(prune_row(blocks, axis, x, y, y_end), axis, x, x + 1, y, y_end),
        no_new_lock(prune_row(blocks, axis, x, y, y_end), blocks),
        bounded_by(prune_row(blocks, axis, x, y, y_end), blocks),
        drawn_from(prune_row(blocks, axis, x, y, y_end), blocks),
        restricts(prune_row(blocks, axis, x, y, y_end), blocks),
    decreases y_end - y,
{
    if y >= y_end {
        lemma_restricts_itself(blocks);
    }
    if y < y_end {
        let mid = prune_line(blocks, axis, x, y);
        let r = prune_row(mid, axis, x, y + 1, y_end);
        lemma_prune_line_all(blocks, axis, x, y);
        lemma_prune_row(mid, axis, x, y + 1, y_end);
        lemma_restricts_transitive(r, mid, blocks);
        assert forall|u: int, v: int| x <= u < x + 1 && y <= v < y_end implies !has_lock(
            #[trigger] line_of(r, axis, u, v),
        ) by {
            if v == y {
                assert(!has_lock(line_of(mid, axis, x, y)));
            }
        }
    }
}

proof fn lemma_prune_rows(blocks: Seq<Block>, axis: Axis, x: int, x_end: int, y: int, y_end: int)
    ensures
        lock_free_in(prune_rows(blocks, axis, x, x_end, y, y_end), axis, x, x_end, y, y_end),
        no_new_lock(prune_rows(blocks, axis, x, x_end, y, y_end), blocks),
        bounded_by(prune_rows(blocks, axis, x, x_end, y, y_end), blocks),
        drawn_from(prune_rows(blocks, axis, x, x_end, y, y_end), blocks),
        restricts(prune_rows(blocks, axis, x, x_end, y, y_end), blocks),
    decreases x_end - x,
{
    if x >= x_end {
        lemma_restricts_itself(blocks);
    }
    if x < x_end {
        let mid = prune_row(blocks, axis, x, y, y_end);
        let r = prune_rows(mid, axis, x + 1, x_end, y, y_end);
        lemma_prune_row(blocks, axis, x, y, y_end);
        lemma_prune_rows(mid, axis, x + 1, x_end, y, y_end);
        lemma_restricts_transitive(r, mid, blocks);
        assert forall|u: int, v: int| x <= u < x_end && y <= v < y_end implies !has_lock(
            #[trigger] line_of(r, axis, u, v),
        ) by {
            if u == x {
                assert(!has_lock(line_of(mid, axis, u, v)));
            }
        }
    }
}

/// One pass along an axis leaves no lock on the lines that it scans,
/// brings no lock into any line and does not widen the bounding box.
pub proof fn lemma_prune_along(blocks: Seq<Block>, axis: Axis, lower: IVec3, upper: IVec3)
    ensures
        lock_free_along(prune_along(blocks, axis, lower, upper), axis, lower, upper),
        no_new_lock(prune_along(blocks, axis, lower, upper), blocks),
        bounded_by(prune_along(blocks, axis, lower, upper), blocks),
        drawn_from(prune_along(blocks, axis, lower, upper), blocks),
        restricts(prune_along(blocks, axis, lower, upper), blocks),
{
    let u = axis.spec_next_rh();
    let v = u.spec_next_rh();
    lemma_prune_rows(
        blocks,
        axis,
        u.spec_ivec3_component(lower) as int,
        u.spec_ivec3_component(upper) as int,
        v.spec_ivec3_component(lower) as int,
        v.spec_ivec3_component(upper) as int,
    );
}

proof fn lemma_prune_row_identity(blocks: Seq<Block>, axis: Axis, x: int, y: int, y_end: int)
    requires
        lock_free_in(blocks, axis, x, x + 1, y, y_end),
    ensures
        prune_row(blocks, axis, x, y, y_end) == blocks,
    decreases y_end - y,
{
    if y < y_end {
        let line = line_of(blocks, axis, x, y);
        assert(!has_lock(line));
        lemma_locked_iff_has_lock(line);
        assert(locked(line) =~= Seq::<Block>::empty());
        lemma_filter_all(blocks, not_in(locked(line)));
        lemma_prune_row_identity(blocks, axis, x, y + 1, y_end);
    }
}

proof fn lemma_prune_rows_identity(
    blocks: Seq<Block>,
    axis: Axis,
    x: int,
    x_end: int,
    y: int,
    y_end: int,
)
    requires
        lock_free_in(blocks, axis, x, x_end, y, y_end),
    ensures
        prune_rows(blocks, axis, x, x_end, y, y_end) == blocks,
    decreases x_end - x,
{
    if x < x_end {
        lemma_prune_row_identity(blocks, axis, x, y, y_end);
        lemma_prune_rows_identity(blocks, axis, x + 1, x_end, y, y_end);
    }
}

/// A level without a lock on any line through its bounding box is left as
/// it is.
pub proof fn lemma_remove_locked_keeps_lock_free_level(blocks: Seq<Block>)
    requires
        lock_free(blocks, lower_corner(blocks), upper_corner(blocks)),
    ensures
        pruned(blocks) == blocks,
{
    lemma_lock_free_is_fixed(blocks, lower_corner(blocks), upper_corner(blocks));
}

proof fn lemma_lock_free_is_fixed(blocks: Seq<Block>, lower: IVec3, upper: IVec3)
    requires
        lock_free(blocks, lower, upper),
    ensures
        prune_along(blocks, Axis::X, lower, upper) == blocks,
        prune_along(blocks, Axis::Y, lower, upper) == blocks,
        prune_along(blocks, Axis::Z, lower, upper) == blocks,
{
    lemma_prune_rows_identity(
        blocks,
        Axis::X,
        lower.y as int,
        upper.y as int,
        lower.z as int,
        upper.z as int,
    );
    lemma_prune_rows_identity(
        blocks,
        Axis::Y,
        lower.z as int,
        upper.z as int,
        lower.x as int,
        upper.x as int,
    );
    lemma_prune_rows_identity(
        blocks,
        Axis::Z,
        lower.x as int,
        upper.x as int,
        lower.y as int,
        upper.y as int,
    );
}

/// What `remove_locked` leaves of a level is that level with every block
/// of some values left out, the others in their order. It holds no lock on
/// any line through the box that bounded the level, and fits in that box.
pub proof fn lemma_remove_locked_result_is_lock_free(blocks: Seq<Block>)
    ensures
        lock_free(pruned(blocks), lower_corner(blocks), upper_corner(blocks)),
        bounded_by(pruned(blocks), blocks),
        drawn_from(pruned(blocks), blocks),
        restricts(pruned(blocks), blocks),
{
    let lower = lower_corner(blocks);
    let upper = upper_corner(blocks);
    let after_x = prune_along(blocks, Axis::X, lower, upper);
    let after_y = prune_along(after_x, Axis::Y, lower, upper);
    let after_z = prune_along(after_y, Axis::Z, lower, upper);
    lemma_prune_along(blocks, Axis::X, lower, upper);
    lemma_prune_along(after_x, Axis::Y, lower, upper);
    lemma_prune_along(after_y, Axis::Z, lower, upper);
    lemma_restricts_transitive(after_y, after_x, blocks);
    lemma_restricts_transitive(after_z, after_y, blocks);
    assert(lock_free_along(after_z, Axis::X, lower, upper)) by {
        assert forall|u: int, v: int|
            lower.y <= u < upper.y && lower.z <= v < upper.z implies !has_lock(
            #[trigger] line_of(after_z, Axis::X, u, v),
        ) by {
            assert(!has_lock(line_of(after_x, Axis::X, u, v)));
            assert(has_lock(line_of(after_z, Axis::X, u, v)) ==> has_lock(
                line_of(after_y, Axis::X, u, v),
            ));
            assert(has_lock(line_of(after_y, Axis::X, u, v)) ==> has_lock(
                line_of(after_x, Axis::X, u, v),
            ));
        }
    }
    assert(lock_free_along(after_z, Axis::Y, lower, upper)) by {
        assert forall|u: int, v: int|
            lower.z <= u < upper.z && lower.x <= v < upper.x implies !has_lock(
            #[trigger] line_of(after_z, Axis::Y, u, v),
        ) by {
            assert(!has_lock(line_of(after_y, Axis::Y, u, v)));
            assert(has_lock(line_of(after_z, Axis::Y, u, v)) ==> has_lock(
                line_of(after_y, Axis::Y, u, v),
            ));
        }
    }
}

/// `remove_locked` finds nothing to remove in what it has left: run on its
/// own result, it gives that result back.
pub proof fn lemma_remove_locked_idempotent(blocks: Seq<Block>)
    ensures
        pruned(pruned(blocks)) == pruned(blocks),
{
    let once = pruned(blocks);
    lemma_remove_locked_result_is_lock_free(blocks);
    let lower = lower_corner(blocks);
    let upper = upper_corner(blocks);
    let inner_lower = lower_corner(once);
    let inner_upper = upper_corner(once);
    assert(lock_free(once, inner_lower, inner_upper)) by {
        assert forall|u: int, v: int|
            inner_lower.y <= u < inner_upper.y && inner_lower.z <= v < inner_upper.z implies !has_lock(
            #[trigger] line_of(once, Axis::X, u, v),
        ) by {
            assert(lower.y <= u < upper.y && lower.z <= v < upper.z);
        }
        assert forall|u: int, v: int|
            inner_lower.z <= u < inner_upper.z && inner_lower.x <= v < inner_upper.x implies !has_lock(
            #[trigger] line_of(once, Axis::Y, u, v),
        ) by {
            assert(lower.z <= u < upper.z && lower.x <= v < upper.x);
        }
        assert forall|u: int, v: int|
            inner_lower.x <= u < inner_upper.x && inner_lower.y <= v < inner_upper.y implies !has_lock(
            #[trigger] line_of(once, Axis::Z, u, v),
        ) by {
            assert(lower.x <= u < upper.x && lower.y <= v < upper.y);
        }
    }
    lemma_remove_locked_keeps_lock_free_level(once);
}

} // verus!
