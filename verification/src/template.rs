//! Template code generation: a source text plus an ordered set of
//! non-overlapping patch operations (insert-at-offset, replace-range) that
//! together yield the final generated text.
//!
//! Offsets index the source's character sequence. A range is half-open:
//! a replace of `[start, end)` removes the characters at `start..end` and
//! puts the patch content in their place; an insert is an empty range.
//! Patches apply in ascending start offset; several inserts at one offset
//! apply in registration order, and an insert at an offset where a replace
//! starts renders before the replaced range.

use vstd::prelude::*;

use crate::BuildError;

verus! {

/// One registered patch: replace the characters in `[start, end)` of the
/// source with `content`. `start == end` is a pure insert.
pub struct ReplaceOp {
    pub start: usize,
    pub end: usize,
    pub content: String,
}

/// A patch is disjoint from the half-open range `[start, end)` when the two
/// ranges do not intersect. An empty range (an insert) is disjoint from
/// everything that does not strictly surround its offset.
pub open spec fn range_disjoint(a: ReplaceOp, start: int, end: int) -> bool {
    !(a.start < end && start < a.end)
}

/// Two patches own disjoint ranges.
pub open spec fn ops_disjoint(a: ReplaceOp, b: ReplaceOp) -> bool {
    range_disjoint(a, b.start as int, b.end as int)
}

/// A patch is well formed for a source of `n` characters when its range is
/// ordered and lies inside the source.
pub open spec fn op_wf(op: ReplaceOp, n: nat) -> bool {
    op.start <= op.end && op.end <= n
}

/// Patches stand in application order: each ends at or before the next
/// begins. Together with `op_wf` this makes all ranges pairwise disjoint.
pub open spec fn ops_chained(ops: Seq<ReplaceOp>, n: nat) -> bool {
    &&& forall|i: int| 0 <= i < ops.len() ==> op_wf(#[trigger] ops[i], n)
    &&& forall|i: int| 0 <= i < ops.len() - 1 ==> (#[trigger] ops[i]).end <= ops[i + 1].start
}

/// The rendered text of `src` under the chained patch list `ops`, having
/// already emitted everything before position `pos`: the unpatched gap up
/// to the next patch, that patch's content, and so on; after the last
/// patch, the rest of the source.
pub open spec fn apply_ops(src: Seq<char>, ops: Seq<ReplaceOp>, pos: int) -> Seq<char>
    decreases ops.len(),
{
    if ops.len() == 0 {
        src.subrange(pos, src.len() as int)
    } else {
        src.subrange(pos, ops[0].start as int) + ops[0].content@ + apply_ops(
            src,
            ops.drop_first(),
            ops[0].end as int,
        )
    }
}

/// The final generated text: the whole source rewritten by the patch list.
pub open spec fn rendered(src: Seq<char>, ops: Seq<ReplaceOp>) -> Seq<char> {
    apply_ops(src, ops, 0)
}

/// An already registered patch `e` stays in front of a new patch over
/// `[start, end)` when it starts earlier, or starts at the same offset and
/// is an insert (inserts at an offset precede a replace starting there, and
/// a later-registered insert comes after earlier ones).
pub open spec fn stays_before(e: ReplaceOp, start: int, end: int) -> bool {
    e.start < start || (e.start == start && e.start == e.end)
}

/// The position at which a new patch over `[start, end)` enters the ordered
/// patch list: after every patch that stays in front of it.
pub open spec fn insert_index(ops: Seq<ReplaceOp>, start: int, end: int) -> int
    decreases ops.len(),
{
    if ops.len() == 0 {
        0
    } else if stays_before(ops[0], start, end) {
        1 + insert_index(ops.drop_first(), start, end)
    } else {
        0
    }
}

/// The ordered patch list after registering one more patch.
pub open spec fn insert_op(ops: Seq<ReplaceOp>, o: ReplaceOp) -> Seq<ReplaceOp> {
    ops.insert(insert_index(ops, o.start as int, o.end as int), o)
}

/// Original text plus the ordered set of registered patches.
pub struct TemplateReplaceSource {
    source: String,
    ops: Vec<ReplaceOp>,
}

impl TemplateReplaceSource {
    /// The source text under patching.
    pub closed spec fn source_view(self) -> Seq<char> {
        self.source@
    }

    /// The registered patches, in application order.
    pub closed spec fn ops_view(self) -> Seq<ReplaceOp> {
        self.ops@
    }

    /// All registered patches lie inside the source and are pairwise
    /// disjoint, kept in application order.
    pub closed spec fn wf(self) -> bool {
        ops_chained(self.ops@, self.source@.len())
    }

    /// The text this source renders to with the patches registered so far.
    pub open spec fn rendered_view(self) -> Seq<char> {
        rendered(self.source_view(), self.ops_view())
    }

    pub fn new(source: String) -> (r: TemplateReplaceSource)
        ensures
            r.wf(),
            r.source_view() == source@,
            r.ops_view() == Seq::<ReplaceOp>::empty(),
    {
        TemplateReplaceSource { source, ops: Vec::new() }
    }

    /// Whether a candidate range would overlap a registered patch.
    fn overlaps_any(&self, start: usize, end: usize) -> (r: bool)
        ensures
            r == exists|i: int|
                0 <= i < self.ops_view().len() && !range_disjoint(
                    #[trigger] self.ops_view()[i],
                    start as int,
                    end as int,
                ),
    {
        let mut i: usize = 0;
        while i < self.ops.len()
            invariant
                i <= self.ops@.len(),
                forall|j: int|
                    0 <= j < i ==> range_disjoint(#[trigger] self.ops@[j], start as int, end as int),
            decreases self.ops@.len() - i,
        {
            let op = &self.ops[i];
            if op.start < end && start < op.end {
                assert(!range_disjoint(self.ops_view()[i as int], start as int, end as int));
                return true;
            }
            i = i + 1;
        }
        false
    }

    /// Where a new patch over `[start, end)` belongs in the ordered list.
    fn find_insert_index(&self, start: usize, end: usize) -> (r: usize)
        ensures
            r == insert_index(self.ops_view(), start as int, end as int),
            r <= self.ops_view().len(),
    {
        let ghost all = self.ops@;
        let mut i: usize = 0;
        proof {
            assert(all.skip(0) =~= all);
        }
        while i < self.ops.len()
            invariant
                i <= all.len(),
                all == self.ops@,
                insert_index(all, start as int, end as int) == i + insert_index(
                    all.skip(i as int),
                    start as int,
                    end as int,
                ),
            decreases all.len() - i,
        {
            let op = &self.ops[i];
            let keep = op.start < start || (op.start == start && op.start == op.end);
            proof {
                assert(all.skip(i as int)[0] == all[i as int]);
                assert(all.skip(i as int).drop_first() =~= all.skip(i as int + 1));
            }
            if !keep {
                assert(insert_index(all.skip(i as int), start as int, end as int) == 0);
                return i;
            }
            i = i + 1;
        }
        proof {
            assert(all.skip(i as int).len() == 0);
        }
        i
    }

    /// Register a patch replacing `[start, end)` with `content`.
    ///
    /// Rejects a range that leaves the source or is reversed
    /// (`PatchOutOfRange`), and a range that overlaps an already registered
    /// patch (`OverlappingPatches`): two dependencies never own
    /// intersecting spans, so an overlap is an internal-invariant failure.
    /// On rejection the source is unchanged.
    #[verifier::rlimit(50)]
    pub fn replace(&mut self, start: usize, end: usize, content: &str) -> (r: Result<
        (),
        BuildError,
    >)
        requires
            old(self).wf(),
        ensures
            final(self).wf(),
            final(self).source_view() == old(self).source_view(),
            r is Ok <==> start <= end <= old(self).source_view().len() && (forall|i: int|
                0 <= i < old(self).ops_view().len() ==> range_disjoint(
                    #[trigger] old(self).ops_view()[i],
                    start as int,
                    end as int,
                )),
            r is Ok ==> {
                let k = insert_index(old(self).ops_view(), start as int, end as int);
                let nops = final(self).ops_view();
                &&& nops == old(self).ops_view().insert(k, nops[k])
                &&& nops[k].start == start
                &&& nops[k].end == end
                &&& nops[k].content@ == content@
                &&& nops == insert_op(old(self).ops_view(), nops[k])
            },
            r is Err ==> *final(self) == *old(self),
            r == Err::<(), BuildError>(BuildError::PatchOutOfRange) <==> !(start <= end
                <= old(self).source_view().len()),
            start <= end <= old(self).source_view().len() ==> (r
                == Err::<(), BuildError>(BuildError::OverlappingPatches) <==> exists|i: int|
                0 <= i < old(self).ops_view().len() && !range_disjoint(
                    #[trigger] old(self).ops_view()[i],
                    start as int,
                    end as int,
                )),
    {
        if !(start <= end && end <= self.source.as_str().unicode_len()) {
            return Err(BuildError::PatchOutOfRange);
        }
        if self.overlaps_any(start, end) {
            return Err(BuildError::OverlappingPatches);
        }
        let idx = self.find_insert_index(start, end);
        let op = ReplaceOp { start, end, content: content.to_owned() };
        proof {
            lemma_insert_keeps_chain(self.ops@, op, self.source@.len());
        }
        self.ops.insert(idx, op);
        Ok(())
    }

    /// Register a pure insert at `offset`.
    pub fn insert(&mut self, offset: usize, content: &str) -> (r: Result<(), BuildError>)
        requires
            old(self).wf(),
        ensures
            final(self).wf(),
            final(self).source_view() == old(self).source_view(),
            r is Ok <==> offset <= old(self).source_view().len() && (forall|i: int|
                0 <= i < old(self).ops_view().len() ==> range_disjoint(
                    #[trigger] old(self).ops_view()[i],
                    offset as int,
                    offset as int,
                )),
            r is Ok ==> {
                let k = insert_index(old(self).ops_view(), offset as int, offset as int);
                let nops = final(self).ops_view();
                &&& nops == old(self).ops_view().insert(k, nops[k])
                &&& nops[k].start == offset
                &&& nops[k].end == offset
                &&& nops[k].content@ == content@
                &&& nops == insert_op(old(self).ops_view(), nops[k])
            },
            r is Err ==> *final(self) == *old(self),
    {
        self.replace(offset, offset, content)
    }

    /// Render the final generated text by applying the registered patches
    /// in ascending start order.
    #[verifier::rlimit(50)]
    pub fn build(&self) -> (r: String)
        requires
            self.wf(),
        ensures
            r@ == self.rendered_view(),
    {
        let ghost src = self.source@;
        let ghost all = self.ops@;
        let n = self.source.as_str().unicode_len();
        let mut out = String::new();
        let mut pos: usize = 0;
        let mut i: usize = 0;
        proof {
            lemma_chain_positions(all, src.len());
            assert(all.skip(0) =~= all);
            assert(Seq::<char>::empty() + apply_ops(src, all, 0) =~= apply_ops(src, all, 0));
        }
        while i < self.ops.len()
            invariant
                src == self.source@,
                all == self.ops@,
                ops_chained(all, src.len()),
                n == src.len(),
                i <= all.len(),
                pos <= n,
                i < all.len() ==> pos <= all[i as int].start,
                forall|p: int, q: int|
                    0 <= p < q < all.len() ==> (#[trigger] all[p]).end <= (#[trigger] all[q]).start,
                apply_ops(src, all, 0) == out@ + apply_ops(src, all.skip(i as int), pos as int),
            decreases all.len() - i,
        {
            let ghost out0 = out@;
            let op = &self.ops[i];
            let gap = self.source.as_str().substring_char(pos, op.start);
            out.append(gap);
            out.append(op.content.as_str());
            proof {
                let rest = all.skip(i as int);
                assert(rest[0] == all[i as int]);
                assert(rest.drop_first() =~= all.skip(i as int + 1));
                assert(apply_ops(src, rest, pos as int) == src.subrange(
                    pos as int,
                    all[i as int].start as int,
                ) + all[i as int].content@ + apply_ops(
                    src,
                    all.skip(i as int + 1),
                    all[i as int].end as int,
                ));
                assert(out@ =~= out0 + src.subrange(pos as int, all[i as int].start as int)
                    + all[i as int].content@);
                assert(out@ + apply_ops(src, all.skip(i as int + 1), all[i as int].end as int)
                    =~= out0 + apply_ops(src, rest, pos as int));
            }
            pos = op.end;
            i = i + 1;
        }
        let tail = self.source.as_str().substring_char(pos, n);
        let ghost out1 = out@;
        out.append(tail);
        proof {
            assert(all.skip(i as int).len() == 0);
            assert(apply_ops(src, all.skip(i as int), pos as int) == src.subrange(
                pos as int,
                src.len() as int,
            ));
            assert(out@ =~= out1 + src.subrange(pos as int, src.len() as int));
        }
        out
    }
}

/// In a chained list every earlier patch ends at or before a later one
/// begins.
proof fn lemma_chain_positions(ops: Seq<ReplaceOp>, n: nat)
    requires
        ops_chained(ops, n),
    ensures
        forall|i: int, j: int|
            0 <= i < j < ops.len() ==> (#[trigger] ops[i]).end <= (#[trigger] ops[j]).start,
    decreases ops.len(),
{
    if ops.len() > 1 {
        assert(ops_chained(ops.drop_first(), n)) by {
            assert(forall|i: int|
                0 <= i < ops.drop_first().len() ==> #[trigger] ops.drop_first()[i] == ops[i + 1]);
        }
        lemma_chain_positions(ops.drop_first(), n);
        assert forall|i: int, j: int| 0 <= i < j < ops.len() implies (#[trigger] ops[i]).end
            <= (#[trigger] ops[j]).start by {
            if i == 0 {
                assert(ops[0].end <= ops[1].start);
                if j > 1 {
                    assert(ops.drop_first()[0] == ops[1]);
                    assert(ops.drop_first()[j - 1] == ops[j]);
                    assert(ops[1].end <= ops[j].start);
                    assert(ops[1].start <= ops[1].end);
                }
            } else {
                assert(ops.drop_first()[i - 1] == ops[i]);
                assert(ops.drop_first()[j - 1] == ops[j]);
            }
        }
    }
}

/// The insert position lies inside the list.
proof fn lemma_insert_index_bounds(ops: Seq<ReplaceOp>, start: int, end: int)
    ensures
        0 <= insert_index(ops, start, end) <= ops.len(),
    decreases ops.len(),
{
    if ops.len() > 0 {
        lemma_insert_index_bounds(ops.drop_first(), start, end);
    }
}

/// Everything before the insert position stays in front of the new patch;
/// the patch at the insert position, if any, does not.
proof fn lemma_insert_index_split(ops: Seq<ReplaceOp>, start: int, end: int)
    ensures
        forall|i: int|
            0 <= i < insert_index(ops, start, end) ==> stays_before(
                #[trigger] ops[i],
                start,
                end,
            ),
        insert_index(ops, start, end) < ops.len() ==> !stays_before(
            ops[insert_index(ops, start, end)],
            start,
            end,
        ),
    decreases ops.len(),
{
    if ops.len() > 0 {
        lemma_insert_index_bounds(ops.drop_first(), start, end);
        lemma_insert_index_split(ops.drop_first(), start, end);
        if stays_before(ops[0], start, end) {
            let k = insert_index(ops, start, end);
            assert forall|i: int| 0 <= i < k implies stays_before(#[trigger] ops[i], start, end) by {
                if i > 0 {
                    assert(ops.drop_first()[i - 1] == ops[i]);
                }
            }
            if k < ops.len() {
                assert(ops.drop_first()[insert_index(ops.drop_first(), start, end)] == ops[k]);
            }
        }
    }
}

/// Registering a disjoint, in-range patch at its insert position keeps the
/// list chained.
proof fn lemma_insert_keeps_chain(ops: Seq<ReplaceOp>, o: ReplaceOp, n: nat)
    requires
        ops_chained(ops, n),
        op_wf(o, n),
        forall|i: int|
            0 <= i < ops.len() ==> range_disjoint(#[trigger] ops[i], o.start as int, o.end as int),
    ensures
        ops_chained(insert_op(ops, o), n),
{
    let s = o.start as int;
    let e = o.end as int;
    let k = insert_index(ops, s, e);
    lemma_insert_index_bounds(ops, s, e);
    lemma_insert_index_split(ops, s, e);
    let out = ops.insert(k, o);
    assert forall|i: int| 0 <= i < out.len() implies op_wf(#[trigger] out[i], n) by {
        if i < k {
            assert(out[i] == ops[i]);
        } else if i == k {
            assert(out[i] == o);
        } else {
            assert(out[i] == ops[i - 1]);
        }
    }
    assert forall|i: int| 0 <= i < out.len() - 1 implies (#[trigger] out[i]).end <= out[i + 1].start
        by {
        if i + 1 < k {
            assert(out[i] == ops[i] && out[i + 1] == ops[i + 1]);
        } else if i + 1 == k {
            // the element just before the new patch stays in front of it and
            // is disjoint from it, so it ends at or before the patch starts
            assert(out[i] == ops[i] && out[i + 1] == o);
            assert(stays_before(ops[i], s, e));
            assert(range_disjoint(ops[i], s, e));
            if ops[i].start < s && ops[i].end > s {
                assert(ops[i].start < e || s == e);
                assert(false);
            }
        } else if i == k {
            // the displaced element does not stay in front: it starts later,
            // or is a replace at the same offset (then the new patch is an
            // insert, else the two would overlap)
            assert(out[i] == o && out[i + 1] == ops[i]);
            assert(!stays_before(ops[i], s, e));
            assert(range_disjoint(ops[i], s, e));
            if ops[i].start == s {
                if s < e {
                    assert(ops[i].start < ops[i].end);
                    assert(ops[i].start < e && s < ops[i].end);
                    assert(false);
                }
            } else {
                assert(ops[i].start > s);
                if e > ops[i].start {
                    if ops[i].start == ops[i].end {
                        assert(ops[i].start < e && s < ops[i].end);
                        assert(false);
                    } else {
                        assert(ops[i].start < e && s < ops[i].end);
                        assert(false);
                    }
                }
            }
        } else {
            assert(out[i] == ops[i - 1] && out[i + 1] == ops[i]);
        }
    }
}

/// Registering one more patch keeps the list clear of a range that every
/// old patch and the new one are disjoint from.
pub proof fn lemma_insert_op_disjoint(ops: Seq<ReplaceOp>, o: ReplaceOp, start: int, end: int)
    requires
        forall|i: int| 0 <= i < ops.len() ==> range_disjoint(#[trigger] ops[i], start, end),
        range_disjoint(o, start, end),
    ensures
        forall|i: int|
            0 <= i < insert_op(ops, o).len() ==> range_disjoint(
                #[trigger] insert_op(ops, o)[i],
                start,
                end,
            ),
{
    let k = insert_index(ops, o.start as int, o.end as int);
    lemma_insert_index_bounds(ops, o.start as int, o.end as int);
    let out = ops.insert(k, o);
    assert forall|i: int| 0 <= i < out.len() implies range_disjoint(
        #[trigger] out[i],
        start,
        end,
    ) by {
        if i < k {
            assert(out[i] == ops[i]);
        } else if i == k {
            assert(out[i] == o);
        } else {
            assert(out[i] == ops[i - 1]);
        }
    }
}

/// Registering one more patch keeps an existing collision with a range.
pub proof fn lemma_insert_op_keeps_overlap(ops: Seq<ReplaceOp>, o: ReplaceOp, start: int, end: int)
    requires
        exists|i: int| 0 <= i < ops.len() && !range_disjoint(#[trigger] ops[i], start, end),
    ensures
        exists|i: int|
            0 <= i < insert_op(ops, o).len() && !range_disjoint(
                #[trigger] insert_op(ops, o)[i],
                start,
                end,
            ),
{
    let k = insert_index(ops, o.start as int, o.end as int);
    lemma_insert_index_bounds(ops, o.start as int, o.end as int);
    let j = choose|j: int| 0 <= j < ops.len() && !range_disjoint(#[trigger] ops[j], start, end);
    let out = ops.insert(k, o);
    if j < k {
        assert(out[j] == ops[j]);
        assert(!range_disjoint(insert_op(ops, o)[j], start, end));
    } else {
        assert(out[j + 1] == ops[j]);
        assert(!range_disjoint(insert_op(ops, o)[j + 1], start, end));
    }
}

/// The registered patch is an element of the list it entered.
pub proof fn lemma_insert_op_has_new(ops: Seq<ReplaceOp>, o: ReplaceOp)
    ensures
        exists|i: int| 0 <= i < insert_op(ops, o).len() && #[trigger] insert_op(ops, o)[i] == o,
{
    let k = insert_index(ops, o.start as int, o.end as int);
    lemma_insert_index_bounds(ops, o.start as int, o.end as int);
    assert(insert_op(ops, o)[k] == o);
}

/// Applying zero patches returns the source unchanged.
pub proof fn lemma_render_no_patches(src: Seq<char>)
    ensures
        rendered(src, Seq::<ReplaceOp>::empty()) =~= src,
{
}

/// Patch round-trip: two disjoint patches at offsets `a.start < b.start`
/// enter the ordered list as `[a, b]` whichever is registered first, and
/// render to prefix, first patch content, middle, second patch content,
/// suffix.
pub proof fn lemma_patch_round_trip(src: Seq<char>, a: ReplaceOp, b: ReplaceOp)
    requires
        op_wf(a, src.len()),
        op_wf(b, src.len()),
        ops_disjoint(a, b),
        a.start < b.start,
    ensures
        a.end <= b.start,
        insert_op(insert_op(Seq::<ReplaceOp>::empty(), a), b) =~= seq![a, b],
        insert_op(insert_op(Seq::<ReplaceOp>::empty(), b), a) =~= seq![a, b],
        rendered(src, seq![a, b]) =~= src.subrange(0, a.start as int) + a.content@ + src.subrange(
            a.end as int,
            b.start as int,
        ) + b.content@ + src.subrange(b.end as int, src.len() as int),
{
    assert(a.end <= b.start) by {
        if a.end > b.start {
            assert(a.start < b.end && b.start < a.end);
        }
    }
    let empty = Seq::<ReplaceOp>::empty();
    let only_a = empty.insert(0, a);
    let only_b = empty.insert(0, b);
    assert(only_a =~= seq![a]);
    assert(only_b =~= seq![b]);
    assert(insert_op(empty, a) == only_a);
    assert(insert_op(empty, b) == only_b);
    assert(stays_before(a, b.start as int, b.end as int));
    assert(insert_index(only_a, b.start as int, b.end as int) == 1) by {
        assert(only_a[0] == a);
        assert(only_a.drop_first().len() == 0);
        assert(insert_index(only_a.drop_first(), b.start as int, b.end as int) == 0);
        assert(stays_before(only_a[0], b.start as int, b.end as int));
    }
    assert(!stays_before(b, a.start as int, a.end as int));
    assert(insert_index(only_b, a.start as int, a.end as int) == 0) by {
        assert(only_b[0] == b);
    }
    assert(insert_op(only_a, b) =~= seq![a, b]);
    assert(insert_op(only_b, a) =~= seq![a, b]);
    let two = seq![a, b];
    assert(two.drop_first() =~= seq![b]);
    assert(seq![b].drop_first() =~= Seq::<ReplaceOp>::empty());
    assert(apply_ops(src, Seq::<ReplaceOp>::empty(), b.end as int) == src.subrange(
        b.end as int,
        src.len() as int,
    ));
    assert(apply_ops(src, seq![b], a.end as int) == src.subrange(a.end as int, b.start as int)
        + b.content@ + src.subrange(b.end as int, src.len() as int)) by {
        assert(seq![b][0] == b);
        assert(apply_ops(src, seq![b].drop_first(), b.end as int) == src.subrange(
            b.end as int,
            src.len() as int,
        ));
    }
    assert(rendered(src, two) == src.subrange(0, a.start as int) + a.content@ + (src.subrange(
        a.end as int,
        b.start as int,
    ) + b.content@ + src.subrange(b.end as int, src.len() as int)));
}

} // verus!
