//! Splitting a slice into fixed-size chunks, and overflow-checked sums:
//! the arithmetic of summing a slice chunk by chunk on worker threads.

use vstd::prelude::*;

verus! {

/// The mathematical sum of a sequence of `i32`.
pub open spec fn sum(s: Seq<i32>) -> int
    decreases s.len(),
{
    if s.len() == 0 {
        0
    } else {
        sum(s.drop_last()) + s.last()
    }
}

/// The mathematical sum of a sequence of integers.
pub open spec fn total(s: Seq<int>) -> int
    decreases s.len(),
{
    if s.len() == 0 {
        0
    } else {
        total(s.drop_last()) + s.last()
    }
}

/// Every running total of `s`, from the empty prefix to the whole, fits in
/// an `i32`: summing `s` from left to right never overflows.
pub open spec fn sums_fit(s: Seq<i32>) -> bool {
    forall|k: int| 0 <= k <= s.len() ==> i32::MIN <= #[trigger] sum(s.take(k)) <= i32::MAX
}

/// `s` cut into consecutive pieces of `size` elements, the last piece holding
/// what is left (between one and `size` elements); no piece for an empty `s`.
pub open spec fn chunks(s: Seq<i32>, size: nat) -> Seq<Seq<i32>>
    decreases s.len(),
{
    if size == 0 || s.len() == 0 {
        Seq::empty()
    } else if s.len() <= size {
        seq![s]
    } else {
        seq![s.take(size as int)] + chunks(s.skip(size as int), size)
    }
}

/// The sum of each piece, in order.
pub open spec fn piece_sums(pieces: Seq<Seq<i32>>) -> Seq<int> {
    pieces.map_values(|p: Seq<i32>| sum(p))
}

/// The sum of an `i32` sequence is the ordinary sum of its elements: nothing
/// for no elements, the element itself for one, and the sums of two parts
/// add up to the sum of the whole.
pub proof fn lemma_sum_laws(a: Seq<i32>, b: Seq<i32>, x: i32)
    ensures
        sum(Seq::<i32>::empty()) == 0,
        sum(seq![x]) == x,
        sum(a + b) == sum(a) + sum(b),
{
    assert(seq![x].drop_last() =~= Seq::<i32>::empty());
    lemma_sum_append(a, b);
}

/// The total of a sequence of integers is the ordinary sum of its elements:
/// nothing for no elements, the element itself for one, and the totals of
/// two parts add up to the total of the whole.
pub proof fn lemma_total_laws(a: Seq<int>, b: Seq<int>, x: int)
    ensures
        total(Seq::<int>::empty()) == 0,
        total(seq![x]) == x,
        total(a + b) == total(a) + total(b),
{
    assert(seq![x].drop_last() =~= Seq::<int>::empty());
    lemma_total_append(a, b);
}

/// Summing an empty sequence never overflows; summing `s` followed by `x`
/// never overflows exactly when summing `s` never does and the last running
/// total, `sum(s) + x`, fits in an `i32`.
pub proof fn lemma_sums_fit_laws(s: Seq<i32>, x: i32)
    ensures
        sums_fit(Seq::<i32>::empty()),
        sums_fit(s.push(x)) <==> (sums_fit(s) && i32::MIN <= sum(s) + x <= i32::MAX),
{
    let e = Seq::<i32>::empty();
    assert forall|k: int| 0 <= k <= e.len() implies i32::MIN <= #[trigger] sum(e.take(k)) <= i32::MAX by {
        assert(e.take(k) =~= e);
    }
    let t = s.push(x);
    assert(t.take(t.len() as int) =~= t);
    assert(t.drop_last() =~= s);
    assert forall|k: int| 0 <= k <= s.len() implies #[trigger] t.take(k) == s.take(k) by {
        assert(t.take(k) =~= s.take(k));
    }
    if sums_fit(t) {
        assert forall|k: int| 0 <= k <= s.len() implies i32::MIN <= #[trigger] sum(s.take(k)) <= i32::MAX by {
            assert(t.take(k) == s.take(k));
            assert(i32::MIN <= sum(t.take(k)) <= i32::MAX);
        }
        assert(i32::MIN <= sum(t.take(t.len() as int)) <= i32::MAX);
    }
    if sums_fit(s) && i32::MIN <= sum(s) + x <= i32::MAX {
        assert forall|k: int| 0 <= k <= t.len() implies i32::MIN <= #[trigger] sum(t.take(k)) <= i32::MAX by {
            if k <= s.len() {
                assert(t.take(k) == s.take(k));
            } else {
                assert(t.take(k) =~= t);
            }
        }
    }
}

proof fn lemma_total_append(a: Seq<int>, b: Seq<int>)
    ensures
        total(a + b) == total(a) + total(b),
    decreases b.len(),
{
    if b.len() == 0 {
        assert(a + b =~= a);
    } else {
        lemma_total_append(a, b.drop_last());
        assert((a + b).drop_last() =~= a + b.drop_last());
    }
}

proof fn lemma_sum_append(a: Seq<i32>, b: Seq<i32>)
    ensures
        sum(a + b) == sum(a) + sum(b),
    decreases b.len(),
{
    if b.len() == 0 {
        assert(a + b =~= a);
    } else {
        lemma_sum_append(a, b.drop_last());
        assert((a + b).drop_last() =~= a + b.drop_last());
    }
}

proof fn lemma_total_prepend(x: int, s: Seq<int>)
    ensures
        total(seq![x] + s) == x + total(s),
    decreases s.len(),
{
    if s.len() == 0 {
        assert(seq![x] + s =~= seq![x]);
        assert(seq![x].drop_last() =~= Seq::<int>::empty());
        assert(total(seq![x]) == total(Seq::<int>::empty()) + x);
    } else {
        lemma_total_prepend(x, s.drop_last());
        assert((seq![x] + s).drop_last() =~= seq![x] + s.drop_last());
        assert((seq![x] + s).last() == s.last());
    }
}

/// Summing the pieces of `s` one by one and then adding up those sums gives
/// the sum of `s`, whatever the piece size.
pub proof fn lemma_piece_sums_total(s: Seq<i32>, size: nat)
    requires
        size > 0,
    ensures
        total(piece_sums(chunks(s, size))) == sum(s),
    decreases s.len(),
{
    if s.len() == 0 {
        assert(piece_sums(chunks(s, size)) =~= Seq::<int>::empty());
    } else if s.len() <= size {
        assert(piece_sums(chunks(s, size)) =~= seq![sum(s)]);
        assert(seq![sum(s)].drop_last() =~= Seq::<int>::empty());
        assert(total(seq![sum(s)]) == total(Seq::<int>::empty()) + sum(s));
    } else {
        let head = s.take(size as int);
        let rest = s.skip(size as int);
        lemma_piece_sums_total(rest, size);
        assert(piece_sums(chunks(s, size)) =~= seq![sum(head)] + piece_sums(chunks(rest, size)));
        lemma_total_prepend(sum(head), piece_sums(chunks(rest, size)));
        assert(head + rest =~= s);
        lemma_sum_append(head, rest);
    }
}

/// The pieces of `s`, put back one after the other, give `s` again; every
/// piece but the last holds exactly `size` elements, and the last holds
/// between one and `size`.
pub proof fn lemma_chunks_shape(s: Seq<i32>, size: nat)
    requires
        size > 0,
    ensures
        chunks(s, size).flatten() == s,
        forall|k: int| 0 <= k < chunks(s, size).len() - 1 ==> #[trigger] chunks(s, size)[k].len() == size,
        chunks(s, size).len() > 0 ==> 0 < chunks(s, size).last().len() <= size,
        s.len() == 0 <==> chunks(s, size).len() == 0,
    decreases s.len(),
{
    if s.len() == 0 {
    } else if s.len() <= size {
        assert(seq![s].drop_first() =~= Seq::<Seq<i32>>::empty());
        assert(s + Seq::<i32>::empty() =~= s);
        assert(seq![s].flatten() == seq![s].first() + seq![s].drop_first().flatten());
    } else {
        let rest = s.skip(size as int);
        lemma_chunks_shape(rest, size);
        let cs = chunks(s, size);
        assert(cs.drop_first() =~= chunks(rest, size));
        assert(cs.first() == s.take(size as int));
        assert(s.take(size as int) + rest =~= s);
        assert(cs.flatten() == cs.first() + cs.drop_first().flatten());
        assert forall|k: int| 0 <= k < cs.len() - 1 implies #[trigger] cs[k].len() == size by {
            if k > 0 {
                assert(cs[k] == chunks(rest, size)[k - 1]);
            }
        }
    }
}

/// The slice `data` cut into consecutive chunks of `size` elements, the last
/// one holding what is left, as `data.chunks(size)` yields them.
pub fn split_chunks(data: &[i32], size: usize) -> (pieces: Vec<&[i32]>)
    requires
        size > 0,
    ensures
        pieces@.map_values(|p: &[i32]| p@) == chunks(data@, size as nat),
{
    let mut pieces: Vec<&[i32]> = Vec::new();
    let mut pos: usize = 0;
    let len = data.len();
    assert(data@.skip(0) =~= data@);
    assert(pieces@.map_values(|p: &[i32]| p@) + chunks(data@, size as nat) =~= chunks(data@, size as nat));
    while pos < len
        invariant
            size > 0,
            len == data@.len(),
            pos <= len,
            pieces@.map_values(|p: &[i32]| p@) + chunks(data@.skip(pos as int), size as nat)
                == chunks(data@, size as nat),
        decreases len - pos,
    {
        let ghost rest = data@.skip(pos as int);
        let end: usize = if len - pos <= size { len } else { pos + size };
        let piece = &data[pos..end];
        let ghost before = pieces@.map_values(|p: &[i32]| p@);
        pieces.push(piece);
        assert(pieces@.map_values(|p: &[i32]| p@) =~= before.push(piece@));
        if len - pos <= size {
            assert(piece@ =~= rest);
            assert(chunks(rest, size as nat) == seq![rest]);
            assert(data@.skip(end as int) =~= Seq::<i32>::empty());
            assert(before.push(piece@) + chunks(data@.skip(end as int), size as nat)
                =~= before + chunks(rest, size as nat));
        } else {
            assert(piece@ =~= rest.take(size as int));
            assert(rest.skip(size as int) =~= data@.skip(end as int));
            assert(before.push(piece@) + chunks(data@.skip(end as int), size as nat)
                =~= before + chunks(rest, size as nat));
        }
        pos = end;
    }
    assert(data@.skip(len as int) =~= Seq::<i32>::empty());
    assert(pieces@.map_values(|p: &[i32]| p@) + Seq::<Seq<i32>>::empty()
        =~= pieces@.map_values(|p: &[i32]| p@));
    pieces
}

/// The sum of `s` added from left to right, or `None` where a running total
/// leaves the `i32` range (where `s.iter().sum::<i32>()` panics).
pub fn checked_sum(s: &[i32]) -> (res: Option<i32>)
    ensures
        res is Some <==> sums_fit(s@),
        res matches Some(v) ==> v == sum(s@),
{
    let mut acc: i32 = 0;
    let mut i: usize = 0;
    assert(s@.take(0) =~= Seq::<i32>::empty());
    while i < s.len()
        invariant
            i <= s@.len(),
            acc == sum(s@.take(i as int)),
            forall|k: int| 0 <= k <= i ==> i32::MIN <= #[trigger] sum(s@.take(k)) <= i32::MAX,
        decreases s@.len() - i,
    {
        assert(s@.take(i + 1).drop_last() =~= s@.take(i as int));
        let x = s[i];
        match acc.checked_add(x) {
            Some(next) => {
                acc = next;
                i = i + 1;
            },
            None => {
                assert(!(i32::MIN <= sum(s@.take(i + 1)) <= i32::MAX));
                return None;
            },
        }
    }
    assert(s@.take(s@.len() as int) =~= s@);
    Some(acc)
}

} // verus!
