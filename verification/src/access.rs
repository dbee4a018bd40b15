//! Accesses to guest virtual memory.
//!
//! The guest's page tables are the host's to look up. An access is taken page by
//! page: a [`VirtualAccess`] says which address to look up, takes the page that was
//! found there, and gives the part of guest physical memory that holds the next
//! bytes, and how the access goes on after it.
use vstd::prelude::*;

use crate::memory::{contents, joined, law_read_gives_back_write, part, scatter};

verus! {

/// How an access to guest virtual memory goes on.
#[allow(inconsistent_fields)]
#[derive(Debug, Clone, Copy, PartialEq, Eq)]
pub enum VirtualAccess {
    /// There is no such vCPU.
    NoVCpu,
    /// The vCPU does not translate: the bytes are those at this guest physical
    /// address.
    Direct { gpa: usize, len: usize },
    /// Look `gva` up in the guest's page table at `root`; `len` bytes from there on
    /// are still to be reached.
    Walk { root: usize, gva: usize, len: usize },
}

/// A page of the guest: the physical address that the looked-up virtual address
/// has in it, and its size.
#[derive(Debug, Clone, Copy, PartialEq, Eq)]
pub struct GuestPage {
    pub gpa: usize,
    pub size: usize,
}

/// `len` bytes of guest physical memory at `gpa`.
#[derive(Debug, Clone, Copy, PartialEq, Eq)]
pub struct GuestPart {
    pub gpa: usize,
    pub len: usize,
}

/// The smaller of two.
pub open spec fn smaller(a: usize, b: usize) -> usize {
    if a <= b {
        a
    } else {
        b
    }
}

/// How an access of `len` bytes at `gva` starts, of a VM with `vcpu_num` vCPUs.
pub open spec fn virtual_access(
    vcpu_num: nat,
    vcpu_id: usize,
    root: usize,
    gva: usize,
    len: usize,
) -> VirtualAccess {
    if vcpu_id >= vcpu_num {
        VirtualAccess::NoVCpu
    } else if root == 0 {
        VirtualAccess::Direct { gpa: gva, len }
    } else {
        VirtualAccess::Walk { root, gva, len }
    }
}

impl VirtualAccess {
    /// The part that holds the next bytes, and how the access goes on after it,
    /// where `page` is what a lookup gave. A part ends with its page. The whole
    /// access fails where there is no such vCPU, the address is not mapped (a page
    /// without bytes maps nothing), or bytes are left at the end of the address
    /// space.
    pub open spec fn resolved(self, page: Option<GuestPage>) -> Option<
        (GuestPart, Option<VirtualAccess>),
    > {
        match self {
            VirtualAccess::NoVCpu => None,
            VirtualAccess::Direct { gpa, len } => Some((GuestPart { gpa, len }, None)),
            VirtualAccess::Walk { root, gva, len } => match page {
                None => None,
                Some(p) => if p.size == 0 {
                    None
                } else {
                    let n = smaller(len, (p.size - gva % p.size) as usize);
                    let part = GuestPart { gpa: p.gpa, len: n };
                    if n == len {
                        Some((part, None))
                    } else if gva + n > usize::MAX {
                        None
                    } else {
                        let rest = VirtualAccess::Walk {
                            root,
                            gva: (gva + n) as usize,
                            len: (len - n) as usize,
                        };
                        Some((part, Some(rest)))
                    }
                },
            },
        }
    }

    /// The part of guest physical memory that holds the next bytes, and how the
    /// access goes on after it, if bytes are left; `None` where the whole access
    /// fails. `page` is what a lookup gave; it does not matter where none is asked
    /// for.
    pub fn range(&self, page: Option<GuestPage>) -> (r: Option<
        (GuestPart, Option<VirtualAccess>),
    >)
        ensures
            r == self.resolved(page),
    {
        match *self {
            VirtualAccess::NoVCpu => None,
            VirtualAccess::Direct { gpa, len } => Some((GuestPart { gpa, len }, None)),
            VirtualAccess::Walk { root, gva, len } => match page {
                None => None,
                Some(p) => {
                    if p.size == 0 {
                        return None;
                    }
                    let to_end: usize = p.size - gva % p.size;
                    if len <= to_end {
                        return Some((GuestPart { gpa: p.gpa, len }, None));
                    }
                    match gva.checked_add(to_end) {
                        Some(next) => Some(
                            (
                                GuestPart { gpa: p.gpa, len: to_end },
                                Some(VirtualAccess::Walk { root, gva: next, len: len - to_end }),
                            ),
                        ),
                        None => None,
                    }
                },
            },
        }
    }

    /// What is looked up for this access, where `lookup` gives the page that the
    /// table at a root has for each virtual address.
    pub open spec fn page(self, lookup: spec_fn(usize, int) -> Option<GuestPage>) -> Option<
        GuestPage,
    > {
        match self {
            VirtualAccess::Walk { root, gva, .. } => lookup(root, gva as int),
            _ => None,
        }
    }

    /// How many bytes are still to be looked up.
    pub open spec fn left(self) -> nat {
        match self {
            VirtualAccess::Walk { len, .. } => len as nat,
            _ => 0,
        }
    }

    /// All parts that the access comes down to, in order, where `lookup` gives the
    /// page that the table at a root has for each virtual address; `None` where it
    /// fails.
    pub open spec fn parts(self, lookup: spec_fn(usize, int) -> Option<GuestPage>) -> Option<
        Seq<GuestPart>,
    >
        decreases self.left(),
    {
        match self.resolved(self.page(lookup)) {
            None => None,
            Some((part, None)) => Some(seq![part]),
            Some((part, Some(rest))) => match rest.parts(lookup) {
                None => None,
                Some(others) => Some(seq![part] + others),
            },
        }
    }
}

/// How many bytes the parts before part `k` hold.
pub open spec fn start(parts: Seq<GuestPart>, k: int) -> int
    decreases k,
{
    if k <= 0 {
        0
    } else {
        start(parts, k - 1) + parts[k - 1].len
    }
}

/// What the chunks hold.
pub open spec fn views(chunks: Seq<Vec<u8>>) -> Seq<Seq<u8>> {
    chunks.map_values(|c: Vec<u8>| c@)
}

/// Joins what was read of each part.
pub fn join(chunks: &Vec<Vec<u8>>) -> (data: Vec<u8>)
    ensures
        data@ == joined(views(chunks@)),
{
    let mut data: Vec<u8> = Vec::new();
    let mut k: usize = 0;
    while k < chunks.len()
        invariant
            k <= chunks@.len(),
            data@ == joined(views(chunks@.take(k as int))),
        decreases chunks@.len() - k,
    {
        proof {
            let after = views(chunks@.take(k + 1));
            assert(after.drop_last() =~= views(chunks@.take(k as int)));
            assert(after.last() == chunks@[k as int]@);
        }
        data.extend_from_slice(chunks[k].as_slice());
        k += 1;
    }
    assert(chunks@.take(k as int) =~= chunks@);
    data
}

/// The bytes of `data` that fall to part `k`.
pub open spec fn chunk(data: Seq<u8>, parts: Seq<GuestPart>, k: int) -> Seq<u8> {
    data.subrange(start(parts, k), start(parts, k + 1))
}

/// Writes `data` to the parts of an access, each through the segments that it was
/// translated to. Where one of them could not be translated, nothing is written,
/// and the result is `None`.
pub fn write_parts(
    translated: Vec<Option<Vec<&mut [u8]>>>,
    parts: &Vec<GuestPart>,
    data: &[u8],
) -> (r: Option<()>)
    requires
        translated@.len() == parts@.len(),
        start(parts@, parts@.len() as int) <= data@.len(),
        forall|k: int|
            0 <= k < parts@.len() ==> (#[trigger] translated@[k] matches Some(segments)
                ==> joined(contents(segments@)).len() <= parts@[k].len),
    ensures
        r is Some <==> forall|k: int|
            0 <= k < translated@.len() ==> (#[trigger] translated@[k]) is Some,
        r is None ==> forall|k: int, i: int|
            #![trigger translated@[k]->0@[i]]
            0 <= k < translated@.len() && translated@[k] is Some && 0 <= i
                < translated@[k]->0@.len() ==> final(translated@[k]->0@[i])@
                == translated@[k]->0@[i]@,
        r is Some ==> forall|k: int, i: int|
            #![trigger translated@[k]->0@[i]]
            0 <= k < translated@.len() && 0 <= i < translated@[k]->0@.len()
                ==> final(translated@[k]->0@[i])@ == part(
                chunk(data@, parts@, k),
                contents(translated@[k]->0@),
                i,
            ),
{
    let mut k: usize = 0;
    while k < translated.len()
        invariant
            k <= translated@.len(),
            forall|j: int| 0 <= j < k ==> (#[trigger] translated@[j]) is Some,
        decreases translated@.len() - k,
    {
        if translated[k].is_none() {
            return None;
        }
        k += 1;
    }
    let ghost all = translated@;
    let mut rest = translated;
    let mut end: usize = 0;
    let mut m: usize = 0;
    while m < parts.len()
        invariant
            m <= parts@.len(),
            end == start(parts@, m as int),
            start(parts@, parts@.len() as int) <= data@.len(),
        decreases parts@.len() - m,
    {
        proof {
            lemma_start_monotonic(parts@, m + 1, parts@.len() as int);
            assert(data.len() == data@.len());
        }
        end = end + parts[m].len;
        m += 1;
    }
    assert(rest@ =~= all.take(all.len() as int));
    while rest.len() > 0
        invariant
            all.len() == parts@.len(),
            rest@.len() <= all.len(),
            rest@ == all.take(rest@.len() as int),
            end == start(parts@, rest@.len() as int),
            end <= data@.len(),
            forall|j: int| 0 <= j < all.len() ==> (#[trigger] all[j]) is Some,
            forall|j: int|
                0 <= j < all.len() ==> (#[trigger] all[j] matches Some(segments) ==> joined(
                    contents(segments@),
                ).len() <= parts@[j].len),
            forall|j: int, i: int|
                #![trigger all[j]->0@[i]]
                rest@.len() <= j < all.len() && 0 <= i < all[j]->0@.len()
                    ==> final(all[j]->0@[i])@ == part(
                    chunk(data@, parts@, j),
                    contents(all[j]->0@),
                    i,
                ),
        decreases rest.len(),
    {
        if let Some(Some(segments)) = rest.pop() {
            proof {
                assert(rest@ =~= all.take(rest@.len() as int));
                assert(all[rest@.len() as int] == Some(segments));
                lemma_start_monotonic(parts@, rest@.len() as int, rest@.len() as int + 1);
            }
            let from: usize = end - parts[rest.len()].len;
            scatter(vstd::slice::slice_subrange(data, from, end), segments);
            end = from;
        }
    }
    Some(())
}

proof fn lemma_start_monotonic(parts: Seq<GuestPart>, i: int, j: int)
    requires
        0 <= i <= j,
    ensures
        0 <= start(parts, i) <= start(parts, j),
    decreases j,
{
    if i < j {
        lemma_start_monotonic(parts, i, j - 1);
    } else if i > 0 {
        lemma_start_monotonic(parts, i - 1, i - 1);
    }
}

proof fn lemma_start_prepended(part: GuestPart, others: Seq<GuestPart>, k: int)
    requires
        0 <= k <= others.len(),
    ensures
        start(seq![part] + others, k + 1) == part.len + start(others, k),
    decreases k,
{
    let all = seq![part] + others;
    if k > 0 {
        lemma_start_prepended(part, others, k - 1);
        assert(all[k] == others[k - 1]);
    } else {
        assert(start(all, 0) == 0);
        assert(all[0] == part);
    }
}

/// The lookup in the table at `root` is that of a page table: it maps only addresses
/// that exist, no page is empty, and the rest of a page is mapped with it, one byte
/// after the other.
pub open spec fn is_paging(
    lookup: spec_fn(usize, int) -> Option<GuestPage>,
    root: usize,
) -> bool {
    &&& forall|v: int|
        (#[trigger] lookup(root, v)) is Some ==> 0 <= v <= usize::MAX && lookup(root, v)->0.size
            > 0
    &&& forall|v: int, w: int|
        #![trigger lookup(root, v), lookup(root, w)]
        lookup(root, v) is Some && v <= w < v + (lookup(root, v)->0.size - v % (lookup(
            root,
            v,
        )->0.size as int)) ==> lookup(root, w) is Some && lookup(root, w)->0.gpa == lookup(
            root,
            v,
        )->0.gpa + (w - v)
}

/// The guest physical address of the virtual address `v`, by the table at `root`.
pub open spec fn address(
    root: usize,
    lookup: spec_fn(usize, int) -> Option<GuestPage>,
    v: int,
) -> int {
    if root == 0 {
        v
    } else {
        lookup(root, v)->0.gpa as int
    }
}

/// The `len` bytes of guest virtual memory at `gva`, where `memory` gives the byte
/// at each guest physical address.
pub open spec fn virtual_bytes(
    memory: spec_fn(int) -> u8,
    root: usize,
    lookup: spec_fn(usize, int) -> Option<GuestPage>,
    gva: usize,
    len: usize,
) -> Seq<u8> {
    Seq::new(len as nat, |j: int| memory(address(root, lookup, gva + j)))
}

/// Each chunk is as long as its part.
pub open spec fn fits(chunks: Seq<Seq<u8>>, parts: Seq<GuestPart>) -> bool {
    &&& chunks.len() == parts.len()
    &&& forall|k: int| 0 <= k < parts.len() ==> (#[trigger] chunks[k]).len() == parts[k].len
}

/// Each chunk holds the bytes that `memory` has in its part.
pub open spec fn read_from(
    chunks: Seq<Seq<u8>>,
    memory: spec_fn(int) -> u8,
    parts: Seq<GuestPart>,
) -> bool {
    &&& fits(chunks, parts)
    &&& forall|k: int, j: int|
        0 <= k < parts.len() && 0 <= j < parts[k].len ==> (#[trigger] chunks[k][j]) == memory(
            parts[k].gpa + j,
        )
}

/// `memory` with `bytes` written to `part`.
pub open spec fn overwritten(
    memory: spec_fn(int) -> u8,
    part: GuestPart,
    bytes: Seq<u8>,
) -> spec_fn(int) -> u8 {
    |a: int|
        if part.gpa <= a < part.gpa + part.len {
            bytes[a - part.gpa]
        } else {
            memory(a)
        }
}

/// The memory after the first `k` parts were written in order, each with the bytes
/// of `data` that fall to it.
pub open spec fn written(
    memory: spec_fn(int) -> u8,
    parts: Seq<GuestPart>,
    data: Seq<u8>,
    k: int,
) -> spec_fn(int) -> u8
    decreases k,
{
    if k <= 0 {
        memory
    } else {
        overwritten(
            written(memory, parts, data, k - 1),
            parts[k - 1],
            chunk(data, parts, k - 1),
        )
    }
}

/// After [`write_parts`] each part holds the bytes of `data` that fall to it: where
/// the segments of part `k` held `before` and are as long as the part, and now hold
/// `after`, their bytes are `data` from the part's start on.
pub proof fn law_part_holds_its_chunk(
    data: Seq<u8>,
    parts: Seq<GuestPart>,
    k: int,
    before: Seq<Seq<u8>>,
    after: Seq<Seq<u8>>,
)
    requires
        0 <= k < parts.len(),
        start(parts, parts.len() as int) <= data.len(),
        joined(before).len() == parts[k].len,
        after.len() == before.len(),
        forall|i: int|
            0 <= i < after.len() ==> #[trigger] after[i] == part(chunk(data, parts, k), before, i),
    ensures
        joined(after) == chunk(data, parts, k),
        joined(after).len() == parts[k].len,
        forall|j: int|
            0 <= j < parts[k].len ==> #[trigger] joined(after)[j] == data[start(parts, k) + j],
{
    lemma_start_monotonic(parts, k, k + 1);
    lemma_start_monotonic(parts, k + 1, parts.len() as int);
    law_read_gives_back_write(chunk(data, parts, k), before, after);
    assert(chunk(data, parts, k).take(parts[k].len as int) =~= chunk(data, parts, k));
}

/// An access starts with the address, the length and the page table that it was asked
/// for: an existing vCPU with a page table looks the address up in that table, one
/// without reaches guest physical memory at the same address.
pub proof fn law_access_starts_as_asked(
    vcpu_num: nat,
    vcpu_id: usize,
    root: usize,
    gva: usize,
    len: usize,
)
    ensures
        ({
            let access = virtual_access(vcpu_num, vcpu_id, root, gva, len);
            &&& access is NoVCpu <==> vcpu_id >= vcpu_num
            &&& access is Walk <==> vcpu_id < vcpu_num && root != 0
            &&& access is Direct <==> vcpu_id < vcpu_num && root == 0
            &&& access matches VirtualAccess::Walk { root: r, gva: g, len: n } ==> r == root && g
                == gva && n == len
            &&& access matches VirtualAccess::Direct { gpa, len: n } ==> gpa == gva && n == len
        }),
{
}

/// A step of an access stays in the page that was found and in the table that it looks
/// up in: the part starts at the address that the page gives, reaches no further than
/// the page and the access do, and what is left starts where the part ends, at the next
/// page.
pub proof fn law_step_stays_in_its_page(root: usize, gva: usize, len: usize, p: GuestPage)
    requires
        p.size > 0,
    ensures
        match (VirtualAccess::Walk { root, gva, len }).resolved(Some(p)) {
            Some((part, None)) => {
                &&& part.gpa == p.gpa
                &&& part.len == len
                &&& gva % p.size + len <= p.size
            },
            Some((part, Some(VirtualAccess::Walk { root: r, gva: g, len: l }))) => {
                &&& part.gpa == p.gpa
                &&& part.len > 0
                &&& gva % p.size + part.len == p.size
                &&& r == root
                &&& g == gva + part.len
                &&& l > 0
                &&& l + part.len == len
            },
            Some((_, Some(_))) => false,
            None => exists|n: nat|
                gva % p.size + n == p.size && n < len && #[trigger] beyond_end(gva + n),
        },
{
    let n = (p.size - gva % p.size) as nat;
    if (VirtualAccess::Walk { root, gva, len }).resolved(Some(p)) is None {
        assert(beyond_end(gva + n));
    }
}

/// There is no such address.
pub open spec fn beyond_end(a: int) -> bool {
    a > usize::MAX
}

/// A step fails where nothing is mapped, and without a vCPU; without translation it
/// reaches everything at once, whatever a lookup would give.
pub proof fn law_step_without_a_page(root: usize, gva: usize, len: usize, page: Option<GuestPage>)
    ensures
        (VirtualAccess::Walk { root, gva, len }).resolved(None) is None,
        page is Some && page->0.size == 0 ==> (VirtualAccess::Walk { root, gva, len }).resolved(
            page,
        ) is None,
        VirtualAccess::NoVCpu.resolved(page) is None,
        (VirtualAccess::Direct { gpa: gva, len }).resolved(page) == Some(
            (GuestPart { gpa: gva, len }, None::<VirtualAccess>),
        ),
{
}

/// What falls to the parts is the data itself, cut into pieces as long as the parts:
/// joined again, the pieces are the data as far as the parts reach.
pub proof fn law_chunks_are_the_data(data: Seq<u8>, parts: Seq<GuestPart>)
    requires
        start(parts, parts.len() as int) <= data.len(),
    ensures
        start(parts, parts.len() as int) >= 0,
        forall|k: int|
            0 <= k < parts.len() ==> (#[trigger] chunk(data, parts, k)).len() == parts[k].len,
        joined(Seq::new(parts.len(), |k: int| chunk(data, parts, k))) == data.take(
            start(parts, parts.len() as int),
        ),
        forall|k: int|
            0 <= k < parts.len() ==> #[trigger] start(parts, k + 1) - start(parts, k)
                == parts[k].len,
        start(parts, 0) == 0,
{
    let pieces = Seq::new(parts.len(), |k: int| chunk(data, parts, k));
    lemma_start_monotonic(parts, 0, parts.len() as int);
    assert forall|k: int| 0 <= k < parts.len() implies (#[trigger] chunk(data, parts, k)).len()
        == parts[k].len by {
        lemma_start_monotonic(parts, k, k + 1);
        lemma_start_monotonic(parts, k + 1, parts.len() as int);
    }
    lemma_chunks_joined(data, parts, pieces, parts.len() as int);
    assert(pieces.take(parts.len() as int) =~= pieces);
}

proof fn lemma_chunks_joined(
    data: Seq<u8>,
    parts: Seq<GuestPart>,
    pieces: Seq<Seq<u8>>,
    n: int,
)
    requires
        0 <= n <= parts.len(),
        start(parts, parts.len() as int) <= data.len(),
        pieces == Seq::new(parts.len(), |k: int| chunk(data, parts, k)),
    ensures
        joined(pieces.take(n)) == data.take(start(parts, n)),
    decreases n,
{
    lemma_start_monotonic(parts, n, parts.len() as int);
    if n > 0 {
        lemma_chunks_joined(data, parts, pieces, n - 1);
        lemma_start_monotonic(parts, n - 1, n);
        assert(pieces.take(n).drop_last() =~= pieces.take(n - 1));
        assert(pieces.take(n).last() == chunk(data, parts, n - 1));
    }
    assert(joined(pieces.take(n)) =~= data.take(start(parts, n)));
}

/// What was read of each part is taken as it is.
pub proof fn law_views_are_the_chunks(chunks: Seq<Vec<u8>>)
    ensures
        views(chunks).len() == chunks.len(),
        forall|k: int| 0 <= k < chunks.len() ==> #[trigger] views(chunks)[k] == chunks[k]@,
{
}

/// The parts of an access hold exactly the bytes asked for.
pub proof fn law_parts_add_up(
    vcpu_num: nat,
    vcpu_id: usize,
    root: usize,
    gva: usize,
    len: usize,
    lookup: spec_fn(usize, int) -> Option<GuestPage>,
)
    ensures
        virtual_access(vcpu_num, vcpu_id, root, gva, len).parts(lookup) matches Some(parts)
            ==> parts.len() > 0 && start(parts, parts.len() as int) == len,
{
    let access = virtual_access(vcpu_num, vcpu_id, root, gva, len);
    if access is Walk {
        lemma_walk_adds_up(root, gva, len, lookup);
    } else if access is Direct {
        let parts = seq![GuestPart { gpa: gva, len }];
        assert(start(parts, 0) == 0);
        assert(start(parts, 1) == len);
    }
}

proof fn lemma_walk_adds_up(
    root: usize,
    gva: usize,
    len: usize,
    lookup: spec_fn(usize, int) -> Option<GuestPage>,
)
    ensures
        (VirtualAccess::Walk { root, gva, len }).parts(lookup) matches Some(parts)
            ==> parts.len() > 0 && start(parts, parts.len() as int) == len,
    decreases len,
{
    let access = VirtualAccess::Walk { root, gva, len };
    match access.resolved(lookup(root, gva as int)) {
        Some((part, Some(VirtualAccess::Walk { root: r, gva: g, len: l }))) => {
            lemma_walk_adds_up(r, g, l, lookup);
            let rest = VirtualAccess::Walk { root: r, gva: g, len: l };
            if let Some(others) = rest.parts(lookup) {
                lemma_start_prepended(part, others, others.len() as int);
            }
        },
        Some((part, None)) => {
            assert(start(seq![part], 0) == 0);
            assert(start(seq![part], 1) == part.len);
        },
        _ => {},
    }
}

/// A read of guest virtual memory that succeeds gives exactly as many bytes as
/// were asked for: where a chunk was read of each part, the joined chunks are `len`
/// bytes.
pub proof fn law_read_is_complete(
    vcpu_num: nat,
    vcpu_id: usize,
    root: usize,
    gva: usize,
    len: usize,
    lookup: spec_fn(usize, int) -> Option<GuestPage>,
    parts: Seq<GuestPart>,
    chunks: Seq<Seq<u8>>,
)
    requires
        virtual_access(vcpu_num, vcpu_id, root, gva, len).parts(lookup) == Some(parts),
        fits(chunks, parts),
    ensures
        joined(chunks).len() == len,
{
    law_parts_add_up(vcpu_num, vcpu_id, root, gva, len, lookup);
    lemma_joined_len(chunks, parts, chunks.len() as int);
    assert(chunks.take(chunks.len() as int) =~= chunks);
}

proof fn lemma_joined_len(chunks: Seq<Seq<u8>>, parts: Seq<GuestPart>, k: int)
    requires
        fits(chunks, parts),
        0 <= k <= chunks.len(),
    ensures
        joined(chunks.take(k)).len() == start(parts, k),
    decreases k,
{
    if k > 0 {
        lemma_joined_len(chunks, parts, k - 1);
        assert(chunks.take(k).drop_last() =~= chunks.take(k - 1));
        assert(chunks.take(k).last() == chunks[k - 1]);
    }
}

/// An access fails just where there is no such vCPU, or its page table does not map
/// the address itself and every byte of the access.
pub proof fn law_access_fails_where_unmapped(
    vcpu_num: nat,
    vcpu_id: usize,
    root: usize,
    gva: usize,
    len: usize,
    lookup: spec_fn(usize, int) -> Option<GuestPage>,
)
    requires
        is_paging(lookup, root),
    ensures
        virtual_access(vcpu_num, vcpu_id, root, gva, len).parts(lookup) is Some <==> vcpu_id
            < vcpu_num && (root == 0 || is_mapped(lookup, root, gva, len)),
{
    if vcpu_id < vcpu_num && root != 0 {
        lemma_walk_fails_where_unmapped(root, gva, len, lookup);
    }
}

/// The address itself and the `len` bytes from there on are mapped.
pub open spec fn is_mapped(
    lookup: spec_fn(usize, int) -> Option<GuestPage>,
    root: usize,
    gva: usize,
    len: usize,
) -> bool {
    &&& lookup(root, gva as int) is Some
    &&& forall|v: int| gva <= v < gva + len ==> (#[trigger] lookup(root, v)) is Some
}

proof fn lemma_walk_fails_where_unmapped(
    root: usize,
    gva: usize,
    len: usize,
    lookup: spec_fn(usize, int) -> Option<GuestPage>,
)
    requires
        is_paging(lookup, root),
    ensures
        (VirtualAccess::Walk { root, gva, len }).parts(lookup) is Some <==> is_mapped(
            lookup,
            root,
            gva,
            len,
        ),
    decreases len,
{
    let access = VirtualAccess::Walk { root, gva, len };
    if let Some(p) = lookup(root, gva as int) {
        let to_end = p.size - gva % p.size;
        assert(0 < to_end);
        if len <= to_end {
            assert forall|v: int| gva <= v < gva + len implies (#[trigger] lookup(root, v)) is Some by {
                assert(lookup(root, gva as int) is Some);
            }
        } else if gva + to_end > usize::MAX {
            assert(lookup(root, gva + to_end) is None);
        } else {
            let next = (gva + to_end) as usize;
            let left = (len - to_end) as usize;
            lemma_walk_fails_where_unmapped(root, next, left, lookup);
            assert(access.resolved(lookup(root, gva as int)) == Some(
                (
                    GuestPart { gpa: p.gpa, len: to_end as usize },
                    Some(VirtualAccess::Walk { root, gva: next, len: left }),
                ),
            ));
            if is_mapped(lookup, root, next, left) {
                assert forall|v: int| gva <= v < gva + len implies (#[trigger] lookup(root, v)) is Some by {
                    if v >= next {
                        assert(next <= v < next + left);
                    } else {
                        assert(lookup(root, gva as int) is Some);
                    }
                }
            } else {
                if is_mapped(lookup, root, gva, len) {
                    assert(lookup(root, next as int) is Some);
                    assert forall|v: int| next <= v < next + left implies (#[trigger] lookup(root, v)) is Some by {
                        assert(gva <= v < gva + len);
                    }
                }
            }
        }
    }
}

/// The guest physical address of byte `j` of part `k`.
pub open spec fn place(parts: Seq<GuestPart>, k: int, j: int) -> int {
    parts[k].gpa + j
}

/// Byte `j` of part `k` is the byte of guest virtual memory that stands as many
/// bytes behind `gva` as the parts before hold, and `j` more.
pub proof fn law_parts_are_in_order(
    vcpu_num: nat,
    vcpu_id: usize,
    root: usize,
    gva: usize,
    len: usize,
    lookup: spec_fn(usize, int) -> Option<GuestPage>,
    parts: Seq<GuestPart>,
)
    requires
        is_paging(lookup, root),
        virtual_access(vcpu_num, vcpu_id, root, gva, len).parts(lookup) == Some(parts),
    ensures
        forall|k: int, j: int|
            0 <= k < parts.len() && 0 <= j < parts[k].len ==> #[trigger] place(parts, k, j)
                == address(root, lookup, gva + start(parts, k) + j),
{
    if root != 0 {
        assert forall|k: int, j: int|
            0 <= k < parts.len() && 0 <= j < parts[k].len implies #[trigger] place(parts, k, j)
            == address(root, lookup, gva + start(parts, k) + j) by {
            lemma_walk_place(root, gva, len, lookup, parts, k, j);
        }
    } else {
        assert(parts =~= seq![GuestPart { gpa: gva, len }]);
        assert(start(parts, 0) == 0);
    }
}

proof fn lemma_walk_place(
    root: usize,
    gva: usize,
    len: usize,
    lookup: spec_fn(usize, int) -> Option<GuestPage>,
    parts: Seq<GuestPart>,
    k: int,
    j: int,
)
    requires
        is_paging(lookup, root),
        (VirtualAccess::Walk { root, gva, len }).parts(lookup) == Some(parts),
        0 <= k < parts.len(),
        0 <= j < parts[k].len,
    ensures
        lookup(root, gva + start(parts, k) + j) is Some,
        lookup(root, gva + start(parts, k) + j)->0.gpa == place(parts, k, j),
    decreases len,
{
    let access = VirtualAccess::Walk { root, gva, len };
    let (part, rest) = access.resolved(lookup(root, gva as int))->0;
    assert(parts[0] == part);
    if k == 0 {
        assert(start(parts, 0) == 0);
        assert(lookup(root, gva as int) is Some);
        assert(lookup(root, gva + j) is Some);
    } else if let Some(VirtualAccess::Walk { root: r, gva: g, len: l }) = rest {
        let others = (VirtualAccess::Walk { root: r, gva: g, len: l }).parts(lookup)->0;
        assert(parts =~= seq![part] + others);
        assert(parts[k] == others[k - 1]);
        lemma_walk_place(r, g, l, lookup, others, k - 1, j);
        lemma_start_prepended(part, others, k - 1);
    }
}

/// A read gives the bytes of guest virtual memory: where the chunks hold what
/// `memory` has in the parts of an access, the joined chunks are the `len` bytes at
/// `gva`, also across pages that lie apart.
pub proof fn law_read_gives_virtual_bytes(
    vcpu_num: nat,
    vcpu_id: usize,
    root: usize,
    gva: usize,
    len: usize,
    lookup: spec_fn(usize, int) -> Option<GuestPage>,
    parts: Seq<GuestPart>,
    memory: spec_fn(int) -> u8,
    chunks: Seq<Seq<u8>>,
)
    requires
        is_paging(lookup, root),
        virtual_access(vcpu_num, vcpu_id, root, gva, len).parts(lookup) == Some(parts),
        read_from(chunks, memory, parts),
    ensures
        joined(chunks) == virtual_bytes(memory, root, lookup, gva, len),
{
    law_parts_add_up(vcpu_num, vcpu_id, root, gva, len, lookup);
    law_parts_are_in_order(vcpu_num, vcpu_id, root, gva, len, lookup, parts);
    let byte = |i: int| memory(address(root, lookup, gva + i));
    assert forall|k: int, j: int|
        0 <= k < parts.len() && 0 <= j < parts[k].len implies (#[trigger] chunks[k][j]) == byte(
        start(parts, k) + j,
    ) by {
        assert(chunks[k][j] == memory(place(parts, k, j)));
    }
    lemma_joined_bytes(chunks, parts, byte, chunks.len() as int);
    assert(chunks.take(chunks.len() as int) =~= chunks);
    assert(joined(chunks) =~= virtual_bytes(memory, root, lookup, gva, len));
}

proof fn lemma_joined_bytes(
    chunks: Seq<Seq<u8>>,
    parts: Seq<GuestPart>,
    byte: spec_fn(int) -> u8,
    k: int,
)
    requires
        fits(chunks, parts),
        0 <= k <= chunks.len(),
        forall|i: int, j: int|
            0 <= i < parts.len() && 0 <= j < parts[i].len ==> (#[trigger] chunks[i][j]) == byte(
                start(parts, i) + j,
            ),
    ensures
        start(parts, k) >= 0,
        joined(chunks.take(k)) == Seq::new(start(parts, k) as nat, byte),
    decreases k,
{
    if k > 0 {
        lemma_joined_bytes(chunks, parts, byte, k - 1);
        assert(chunks.take(k).drop_last() =~= chunks.take(k - 1));
        assert(chunks.take(k).last() == chunks[k - 1]);
    }
    assert(joined(chunks.take(k)) =~= Seq::new(start(parts, k) as nat, byte));
}

/// A read of guest virtual memory gives back what was written: after a write of
/// `data` to the parts of an access, guest virtual memory holds `data` at `gva`.
/// Where the page table maps two addresses of the access to one byte, `data` has
/// the same value for both.
pub proof fn law_virtual_read_gives_back_write(
    vcpu_num: nat,
    vcpu_id: usize,
    root: usize,
    gva: usize,
    data: Seq<u8>,
    lookup: spec_fn(usize, int) -> Option<GuestPage>,
    parts: Seq<GuestPart>,
    memory: spec_fn(int) -> u8,
)
    requires
        is_paging(lookup, root),
        data.len() <= usize::MAX,
        virtual_access(vcpu_num, vcpu_id, root, gva, data.len() as usize).parts(lookup) == Some(
            parts,
        ),
        forall|v: int, w: int|
            #![trigger address(root, lookup, v), address(root, lookup, w)]
            gva <= v < w < gva + data.len() && address(root, lookup, v) == address(
                root,
                lookup,
                w,
            ) ==> data[v - gva] == data[w - gva],
    ensures
        virtual_bytes(
            written(memory, parts, data, parts.len() as int),
            root,
            lookup,
            gva,
            data.len() as usize,
        ) == data,
{
    let len = data.len() as usize;
    law_parts_add_up(vcpu_num, vcpu_id, root, gva, len, lookup);
    law_parts_are_in_order(vcpu_num, vcpu_id, root, gva, len, lookup, parts);
    let n = parts.len() as int;
    let after = written(memory, parts, data, n);
    assert forall|i: int| 0 <= i < len implies after(address(root, lookup, gva + i)) == data[i] by {
        let k = lemma_part_of(parts, n, i);
        let j = i - start(parts, k);
        assert(place(parts, k, j) == address(root, lookup, gva + start(parts, k) + j));
        assert forall|m: int, l: int|
            k < m < n && 0 <= l < parts[m].len && #[trigger] place(parts, m, l) == place(
                parts,
                k,
                j,
            ) implies data[start(parts, m) + l] == data[i] by {
            lemma_start_monotonic(parts, k + 1, m);
            lemma_start_monotonic(parts, m + 1, n);
            assert(place(parts, m, l) == address(root, lookup, gva + start(parts, m) + l));
        }
        lemma_written(memory, parts, data, n, k, j);
    }
    assert(virtual_bytes(after, root, lookup, gva, len) =~= data);
}

/// The part that byte `i` of an access falls to.
proof fn lemma_part_of(parts: Seq<GuestPart>, n: int, i: int) -> (k: int)
    requires
        0 <= n <= parts.len(),
        0 <= i < start(parts, n),
    ensures
        0 <= k < n,
        start(parts, k) <= i < start(parts, k) + parts[k].len,
    decreases n,
{
    if i < start(parts, n - 1) {
        lemma_part_of(parts, n - 1, i)
    } else {
        n - 1
    }
}

proof fn lemma_written(
    memory: spec_fn(int) -> u8,
    parts: Seq<GuestPart>,
    data: Seq<u8>,
    n: int,
    k: int,
    j: int,
)
    requires
        0 <= k < n <= parts.len(),
        0 <= j < parts[k].len,
        start(parts, n) <= data.len(),
        forall|m: int, l: int|
            k < m < n && 0 <= l < parts[m].len && #[trigger] place(parts, m, l) == place(
                parts,
                k,
                j,
            ) ==> data[start(parts, m) + l] == data[start(parts, k) + j],
    ensures
        written(memory, parts, data, n)(place(parts, k, j)) == data[start(parts, k) + j],
    decreases n,
{
    lemma_start_monotonic(parts, n - 1, n);
    if k < n - 1 {
        lemma_written(memory, parts, data, n - 1, k, j);
        let a = place(parts, k, j);
        let part = parts[n - 1];
        if part.gpa <= a < part.gpa + part.len {
            assert(place(parts, n - 1, a - part.gpa) == a);
        }
    }
}

} // verus!
