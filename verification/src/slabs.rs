use vstd::prelude::*;
use crate::bytes::{be_bytes, be_value, decode_be, lemma_be_bytes_len, lemma_be_roundtrip, pow256, push_be};
use crate::error::{err, is_err_of, ErrKind, Error};

verus! {

/// The bytes of a read slab: its data, then the big-endian id of the next slab.
pub const READ_SLAB_SIZE: usize = 518;

/// The bytes of data a read slab holds.
pub const READ_SLAB_DATA_SIZE: usize = 514;

/// Where in a read slab the id of the next slab begins.
pub const READ_SLAB_NEXT_OFFSET: usize = 514;

/// The id that stands for no slab.
pub const NO_SLAB: u32 = 0xffff_ffff;

/// A fixed number of read slabs of `READ_SLAB_SIZE` bytes each, each either free or in
/// use.
pub struct SlabStore {
    data: Vec<u8>,
    used: Vec<bool>,
}

impl SlabStore {
    /// Every slab has its bytes, and the ids fit below `NO_SLAB`.
    pub closed spec fn wf(&self) -> bool {
        &&& self.data@.len() == self.used@.len() * 518
        &&& self.used@.len() < NO_SLAB
    }

    /// All the bytes, slab after slab.
    pub closed spec fn bytes_view(&self) -> Seq<u8> {
        self.data@
    }

    /// For each slab, whether it is in use.
    pub closed spec fn used_view(&self) -> Seq<bool> {
        self.used@
    }

    /// The number of slabs.
    pub closed spec fn count(&self) -> nat {
        self.used@.len()
    }

    /// Whether slab `id` is in use.
    pub closed spec fn in_use(&self, id: int) -> bool {
        self.used@[id]
    }

    /// The bytes of slab `id`.
    pub closed spec fn slab(&self, id: int) -> Seq<u8> {
        self.data@.subrange(id * 518, id * 518 + 518)
    }

    /// The data bytes of slab `id`.
    pub open spec fn payload(&self, id: int) -> Seq<u8> {
        self.slab(id).subrange(0, 514)
    }

    /// The id that slab `id` stores as its successor.
    pub open spec fn next_of(&self, id: int) -> nat {
        be_value(self.slab(id).subrange(514, 518))
    }

    /// The number of slabs in use.
    pub closed spec fn used_count(&self) -> nat {
        self.used@.filter(|u: bool| u).len()
    }

    /// `count` free slabs of zeros.
    pub fn new(count: usize) -> (r: SlabStore)
        requires
            count < NO_SLAB,
            count * 518 <= usize::MAX,
        ensures
            r.wf(),
            r.count() == count,
            forall|i: int| 0 <= i < count ==> !r.in_use(i),
    {
        let data: Vec<u8> = vec![0u8; count * 518];
        let used: Vec<bool> = vec![false; count];
        assert(data@.len() == count * 518);
        SlabStore { data, used }
    }

    /// The number of slabs.
    pub fn slab_count(&self) -> (r: usize)
        requires
            self.wf(),
        ensures
            r == self.count(),
    {
        self.used.len()
    }

    /// Whether slab `id` is in use.
    pub fn is_used(&self, id: u32) -> (r: bool)
        requires
            self.wf(),
            id < self.count(),
        ensures
            r == self.in_use(id as int),
    {
        self.used[id as usize]
    }

    /// Takes the free slab of lowest id. Fails with a capacity error when every slab is
    /// in use; the bytes of the slabs are left as they were.
    pub fn allocate(&mut self) -> (r: Result<u32, Error>)
        requires
            old(self).wf(),
        ensures
            final(self).wf(),
            final(self).count() == old(self).count(),
            final(self).bytes_view() == old(self).bytes_view(),
            r is Err <==> forall|i: int| 0 <= i < old(self).count() ==> old(self).in_use(i),
            r matches Err(e) ==> is_err_of(e, ErrKind::CapacityExceeded, "no more slabs available"@),
            r is Err ==> *final(self) == *old(self),
            r matches Ok(id) ==> {
                &&& id < old(self).count()
                &&& !old(self).in_use(id as int)
                &&& forall|i: int| 0 <= i < id ==> old(self).in_use(i)
                &&& final(self).used_view() == old(self).used_view().update(id as int, true)
                &&& final(self).in_use(id as int)
                &&& forall|j: int| 0 <= j < old(self).count() && j != id ==> #[trigger] final(self).in_use(j) == old(self).in_use(j)
            },
            forall|j: int| #[trigger] final(self).slab(j) == old(self).slab(j),
    {
        let n = self.used.len();
        let mut i: usize = 0;
        while i < n
            invariant
                n == self.used@.len(),
                i <= n,
                forall|k: int| 0 <= k < i ==> self.used@[k],
                self == old(self),
                self.wf(),
            decreases n - i,
        {
            if !self.used[i] {
                assert(!old(self).in_use(i as int));
                self.used.set(i, true);
                return Ok(i as u32);
            }
            i = i + 1;
        }
        Err(err(ErrKind::CapacityExceeded, "no more slabs available"))
    }

    /// Gives slab `id` back. Fails with an illegal-argument error, changing nothing, when
    /// there is no such slab or it is not in use.
    pub fn free(&mut self, id: u32) -> (r: Result<(), Error>)
        requires
            old(self).wf(),
        ensures
            final(self).wf(),
            final(self).count() == old(self).count(),
            final(self).bytes_view() == old(self).bytes_view(),
            r is Ok <==> (id < old(self).count() && old(self).in_use(id as int)),
            r is Ok ==> final(self).used_view() == old(self).used_view().update(id as int, false),
            r is Ok ==> !final(self).in_use(id as int),
            forall|j: int| 0 <= j < old(self).count() && j != id ==> #[trigger] final(self).in_use(j) == old(self).in_use(j),
            forall|j: int| #[trigger] final(self).slab(j) == old(self).slab(j),
            r is Err ==> final(self).used_view() == old(self).used_view(),
            r matches Err(e) ==> is_err_of(e, ErrKind::IllegalArgument, "slab is not in use"@),
    {
        let i = id as usize;
        if i >= self.used.len() || !self.used[i] {
            return Err(err(ErrKind::IllegalArgument, "slab is not in use"));
        }
        self.used.set(i, false);
        Ok(())
    }

    /// Writes `bytes` into slab `id` from `offset` on; every other byte stays.
    pub fn write(&mut self, id: u32, offset: usize, bytes: &[u8])
        requires
            old(self).wf(),
            id < old(self).count(),
            offset + bytes@.len() <= 518,
        ensures
            final(self).wf(),
            final(self).count() == old(self).count(),
            final(self).used_view() == old(self).used_view(),
            forall|j: int| #[trigger] final(self).in_use(j) == old(self).in_use(j),
            final(self).slab(id as int) == old(self).slab(id as int).subrange(0, offset as int) + bytes@
                + old(self).slab(id as int).subrange(offset + bytes@.len(), 518),
            forall|j: int| 0 <= j < old(self).count() && j != id ==> final(self).slab(j) == old(self).slab(j),
    {
        let base: usize = self.base_of(id);
        let len = bytes.len();
        let mut k: usize = 0;
        while k < len
            invariant
                self.wf(),
                self.used@ == old(self).used_view(),
                base == id * 518,
                base + 518 <= self.data@.len(),
                self.data@.len() <= usize::MAX,
                id < self.count(),
                len == bytes@.len(),
                offset + len <= 518,
                k <= len,
                self.data@.len() == old(self).bytes_view().len(),
                forall|p: int|
                    0 <= p < self.data@.len() ==> #[trigger] self.data@[p] == if base + offset <= p < base + offset + k {
                        bytes@[p - base - offset]
                    } else {
                        old(self).bytes_view()[p]
                    },
            decreases len - k,
        {
            self.data.set(base + offset + k, bytes[k]);
            k = k + 1;
        }
        assert(self.slab(id as int) =~= old(self).slab(id as int).subrange(0, offset as int) + bytes@
            + old(self).slab(id as int).subrange(offset + bytes@.len(), 518));
        assert forall|j: int| 0 <= j < old(self).count() && j != id implies self.slab(j) == old(self).slab(j) by {
            if j < id {
                lemma_slab_end(j, id as int);
            } else {
                lemma_slab_end(id as int, j);
            }
            assert(self.slab(j) =~= old(self).slab(j));
        }
    }

    /// Slab ids are below `NO_SLAB`.
    pub proof fn lemma_count_bound(&self)
        requires
            self.wf(),
        ensures
            self.count() < NO_SLAB,
    {
    }

    /// A slab has `READ_SLAB_SIZE` bytes.
    pub proof fn lemma_slab_len(&self, id: int)
        requires
            self.wf(),
            0 <= id < self.count(),
        ensures
            self.slab(id).len() == 518,
    {
        lemma_slab_end(id, self.count() as int);
    }

    /// Where slab `id` begins.
    fn base_of(&self, id: u32) -> (b: usize)
        requires
            self.wf(),
            id < self.count(),
        ensures
            b == id * 518,
            b + 518 <= self.data@.len(),
            self.data@.len() <= usize::MAX,
    {
        proof {
            lemma_slab_end(id as int, self.count() as int);
        }
        let n = self.data.len();
        id as usize * 518
    }

    /// The bytes of slab `id`.
    pub fn get(&self, id: u32) -> (r: &[u8])
        requires
            self.wf(),
            id < self.count(),
        ensures
            r@ == self.slab(id as int),
    {
        let base: usize = self.base_of(id);
        vstd::slice::slice_subrange(self.data.as_slice(), base, base + 518)
    }

    /// The id that slab `id` stores as its successor.
    pub fn next(&self, id: u32) -> (r: u32)
        requires
            self.wf(),
            id < self.count(),
        ensures
            r == self.next_of(id as int),
    {
        let base: usize = self.base_of(id);
        let v = decode_be(self.data.as_slice(), base + 514, 4);
        assert(self.data@.subrange(base + 514, base + 518) =~= self.slab(id as int).subrange(514, 518));
        proof {
            crate::bytes::lemma_be_value_bound(self.slab(id as int).subrange(514, 518));
            reveal_with_fuel(pow256, 5);
        }
        v as u32
    }

    /// Stores `next` as the successor of slab `id`; its data stays.
    pub fn set_next(&mut self, id: u32, next: u32)
        requires
            old(self).wf(),
            id < old(self).count(),
        ensures
            final(self).wf(),
            final(self).count() == old(self).count(),
            final(self).used_view() == old(self).used_view(),
            forall|j: int| #[trigger] final(self).in_use(j) == old(self).in_use(j),
            final(self).payload(id as int) == old(self).payload(id as int),
            final(self).next_of(id as int) == next,
            forall|j: int| 0 <= j < old(self).count() && j != id ==> final(self).slab(j) == old(self).slab(j),
    {
        let mut b: Vec<u8> = Vec::new();
        push_be(&mut b, next as u128, 4);
        proof {
            lemma_be_bytes_len(next as nat, 4);
            reveal_with_fuel(pow256, 5);
            lemma_be_roundtrip(next as nat, 4);
        }
        assert(b@ =~= be_bytes(next as nat, 4));
        self.write(id, 514, b.as_slice());
        assert(self.slab(id as int).subrange(0, 514) =~= old(self).slab(id as int).subrange(0, 514));
        assert(self.slab(id as int).subrange(514, 518) =~= b@);
    }
}

/// A slab that comes before another ends where that one may begin.
proof fn lemma_slab_end(id: int, count: int)
    requires
        0 <= id < count,
    ensures
        id * 518 + 518 <= count * 518,
{
    assert(id * 518 + 518 <= count * 518) by (nonlinear_arith)
        requires
            0 <= id < count,
    ;
}

} // verus!
