//! Guest memory as the host sees it. A range of guest memory is backed by host
//! segments that need not be contiguous; the guest's bytes are those of the
//! segments, one after the other.
use vstd::prelude::*;

verus! {

/// The bytes of all segments, one after the other.
pub open spec fn joined(segments: Seq<Seq<u8>>) -> Seq<u8>
    decreases segments.len(),
{
    if segments.len() == 0 {
        Seq::empty()
    } else {
        joined(segments.drop_last()) + segments.last()
    }
}

/// How many bytes stand before segment `i`.
pub open spec fn offset(segments: Seq<Seq<u8>>, i: int) -> int {
    joined(segments.take(i)).len() as int
}

/// The bytes of `data` that fall to segment `i`.
pub open spec fn part(data: Seq<u8>, segments: Seq<Seq<u8>>, i: int) -> Seq<u8> {
    data.subrange(offset(segments, i), offset(segments, i + 1))
}

/// What the segments hold.
pub open spec fn contents(segments: Seq<&mut [u8]>) -> Seq<Seq<u8>> {
    segments.map_values(|s: &mut [u8]| s@)
}

/// `n` zero bytes.
pub open spec fn zeros(n: nat) -> Seq<u8> {
    Seq::new(n, |i: int| 0u8)
}

/// Collects the bytes of `segments` in order, and fills up with zeros to `size`
/// bytes.
pub fn gather(segments: &Vec<&mut [u8]>, size: usize) -> (data: Vec<u8>)
    requires
        joined(contents(segments@)).len() <= size,
    ensures
        data@ == joined(contents(segments@)) + zeros(
            (size - joined(contents(segments@)).len()) as nat,
        ),
{
    let mut data: Vec<u8> = Vec::new();
    let mut i: usize = 0;
    while i < segments.len()
        invariant
            i <= segments.len(),
            data@ == joined(contents(segments@.take(i as int))),
        decreases segments.len() - i,
    {
        proof {
            let before = contents(segments@.take(i as int));
            let after = contents(segments@.take(i + 1));
            assert(after.drop_last() =~= before);
            assert(after.last() == segments@[i as int]@);
        }
        data.extend_from_slice(&*segments[i]);
        i += 1;
    }
    assert(segments@.take(i as int) =~= segments@);
    let ghost bytes = data@;
    while data.len() < size
        invariant
            bytes.len() <= data@.len() <= size,
            data@ == bytes + zeros((data@.len() - bytes.len()) as nat),
        decreases size - data.len(),
    {
        data.push(0);
        assert(data@ =~= bytes + zeros((data@.len() - bytes.len()) as nat));
    }
    data
}

/// Fills `segment` with the bytes of `data` that start at `from`.
pub fn fill(segment: &mut [u8], data: &[u8], from: usize)
    requires
        from + old(segment)@.len() <= data@.len(),
    ensures
        final(segment)@ == data@.subrange(from as int, from + old(segment)@.len()),
{
    let n: usize = segment.len();
    let available: usize = data.len();
    let mut i: usize = 0;
    while i < n
        invariant
            n == old(segment)@.len(),
            segment@.len() == n,
            i <= n,
            available == data@.len(),
            from + n <= available,
            forall|k: int| 0 <= k < i ==> segment@[k] == data@[from + k],
        decreases n - i,
    {
        segment[i] = data[from + i];
        i += 1;
    }
    assert(segment@ =~= data@.subrange(from as int, from + n as int));
}

/// Spreads `data` over `segments` in order: each segment is overwritten with the
/// bytes that fall to it. What is left of `data` after the last segment is not
/// written.
pub fn scatter(data: &[u8], segments: Vec<&mut [u8]>)
    requires
        joined(contents(segments@)).len() <= data@.len(),
    ensures
        forall|i: int|
            0 <= i < segments@.len() ==> final(#[trigger] segments@[i])@ == part(
                data@,
                contents(segments@),
                i,
            ),
{
    let available: usize = data.len();
    let ghost all = segments@;
    let ghost shape = contents(segments@);
    let mut rest = segments;
    let mut end: usize = 0;
    let mut k: usize = 0;
    proof {
        assert(shape.take(0) =~= Seq::<Seq<u8>>::empty());
    }
    while k < rest.len()
        invariant
            rest@ == all,
            shape == contents(all),
            k <= all.len(),
            end == offset(shape, k as int),
            joined(shape).len() <= available,
        decreases all.len() - k,
    {
        proof {
            lemma_offset_step(shape, k as int);
            lemma_offset_monotonic(shape, k + 1, shape.len() as int);
            assert(shape.take(shape.len() as int) =~= shape);
        }
        end = end + rest[k].len();
        k += 1;
    }
    proof {
        assert(all.take(all.len() as int) =~= all);
        assert(shape.take(shape.len() as int) =~= shape);
    }
    while rest.len() > 0
        invariant
            rest@.len() <= all.len(),
            rest@ == all.take(rest@.len() as int),
            shape == contents(all),
            end == offset(shape, rest@.len() as int),
            end <= data@.len(),
            forall|i: int|
                rest@.len() <= i < all.len() ==> final(#[trigger] all[i])@ == part(data@, shape, i),
        decreases rest.len(),
    {
        if let Some(segment) = rest.pop() {
            proof {
                assert(rest@ =~= all.take(rest@.len() as int));
                assert(segment@ == shape[rest@.len() as int]);
                lemma_offset_step(shape, rest@.len() as int);
            }
            end = end - segment.len();
            fill(segment, data, end);
        }
    }
}

proof fn lemma_offset_step(segments: Seq<Seq<u8>>, i: int)
    requires
        0 <= i < segments.len(),
    ensures
        offset(segments, i + 1) == offset(segments, i) + segments[i].len(),
{
    assert(segments.take(i + 1).drop_last() =~= segments.take(i));
}

proof fn lemma_offset_monotonic(segments: Seq<Seq<u8>>, i: int, j: int)
    requires
        0 <= i <= j <= segments.len(),
    ensures
        offset(segments, i) <= offset(segments, j),
    decreases j - i,
{
    if i < j {
        lemma_offset_step(segments, j - 1);
        lemma_offset_monotonic(segments, i, j - 1);
    }
}

/// A read gives back what a write wrote: once every segment holds the bytes of
/// `data` that fall to it, the joined segments are `data`, as far as they reach.
pub proof fn law_read_gives_back_write(
    data: Seq<u8>,
    before: Seq<Seq<u8>>,
    after: Seq<Seq<u8>>,
)
    requires
        joined(before).len() <= data.len(),
        after.len() == before.len(),
        forall|i: int| 0 <= i < after.len() ==> #[trigger] after[i] == part(data, before, i),
    ensures
        joined(after) == data.take(joined(before).len() as int),
{
    assert(before.take(before.len() as int) =~= before);
    assert(after.take(after.len() as int) =~= after);
    lemma_prefix_written(data, before, after, after.len() as int);
}

proof fn lemma_prefix_written(
    data: Seq<u8>,
    before: Seq<Seq<u8>>,
    after: Seq<Seq<u8>>,
    n: int,
)
    requires
        0 <= n <= after.len(),
        offset(before, n) <= data.len(),
        after.len() == before.len(),
        forall|i: int| 0 <= i < after.len() ==> #[trigger] after[i] == part(data, before, i),
    ensures
        joined(after.take(n)) == data.take(offset(before, n)),
    decreases n,
{
    if n == 0 {
        assert(after.take(0) =~= Seq::<Seq<u8>>::empty());
        assert(before.take(0) =~= Seq::<Seq<u8>>::empty());
        assert(joined(after.take(n)) =~= data.take(offset(before, n)));
    } else {
        lemma_offset_step(before, n - 1);
        lemma_prefix_written(data, before, after, n - 1);
        assert(after.take(n).drop_last() =~= after.take(n - 1));
        assert(after.take(n).last() == part(data, before, n - 1));
        assert(joined(after.take(n)) =~= data.take(offset(before, n)));
    }
}

/// Joining loses, adds and reorders nothing: no segments have no bytes, one segment has
/// its own, and of two lists of segments the bytes of the first come before those of
/// the second.
pub proof fn law_joining_keeps_order(a: Seq<Seq<u8>>, b: Seq<Seq<u8>>, segment: Seq<u8>)
    ensures
        joined(Seq::empty()).len() == 0,
        joined(seq![segment]) == segment,
        joined(a + b) == joined(a) + joined(b),
    decreases b.len(),
{
    assert(seq![segment].drop_last() =~= Seq::<Seq<u8>>::empty());
    assert(joined(Seq::<Seq<u8>>::empty()) =~= Seq::<u8>::empty());
    assert(seq![segment].last() == segment);
    assert(joined(seq![segment]) =~= segment);
    if b.len() == 0 {
        assert(a + b =~= a);
        assert(joined(a + b) =~= joined(a) + joined(b));
    } else {
        law_joining_keeps_order(a, b.drop_last(), segment);
        assert((a + b).drop_last() =~= a + b.drop_last());
        assert((a + b).last() == b.last());
        assert(joined(a + b) =~= joined(a) + joined(b));
    }
}

/// What falls to a segment is as long as the segment, and stands in the data as many
/// bytes from the start as the segments before it hold.
pub proof fn law_part_stands_in_its_place(
    data: Seq<u8>,
    before: Seq<Seq<u8>>,
    segment: Seq<u8>,
    after: Seq<Seq<u8>>,
)
    requires
        joined(before).len() + segment.len() <= data.len(),
    ensures
        ({
            let bytes = part(data, before + seq![segment] + after, before.len() as int);
            &&& bytes.len() == segment.len()
            &&& forall|j: int|
                0 <= j < segment.len() ==> #[trigger] bytes[j] == data[joined(before).len() + j]
        }),
{
    let all = before + seq![segment] + after;
    let k = before.len() as int;
    assert(all.take(k) =~= before);
    assert(all[k] == segment);
    lemma_offset_step(all, k);
}

/// The contents of segments are those of each, and zeros are zeros.
pub proof fn law_contents_and_zeros(segments: Seq<&mut [u8]>, n: nat)
    ensures
        contents(segments).len() == segments.len(),
        forall|i: int| 0 <= i < segments.len() ==> #[trigger] contents(segments)[i] == segments[i]@,
        zeros(n).len() == n,
        forall|i: int| 0 <= i < n ==> #[trigger] zeros(n)[i] == 0,
{
}

} // verus!
