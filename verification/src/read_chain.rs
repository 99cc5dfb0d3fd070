use vstd::prelude::*;
use crate::slabs::{SlabStore, NO_SLAB};
use crate::error::Error;

verus! {

/// The data of the slabs `ids`, each whole, in order.
pub open spec fn full_bytes(slabs: SlabStore, ids: Seq<u32>) -> Seq<u8>
    decreases ids.len(),
{
    if ids.len() == 0 {
        Seq::empty()
    } else {
        full_bytes(slabs, ids.drop_last()) + slabs.payload(ids.last() as int)
    }
}

/// The data held by a chain of slabs: every slab whole but the last, of which only the
/// first `offset` bytes count.
pub open spec fn chain_bytes(slabs: SlabStore, ids: Seq<u32>, offset: nat) -> Seq<u8> {
    if ids.len() == 0 {
        Seq::empty()
    } else {
        full_bytes(slabs, ids.drop_last()) + slabs.payload(ids.last() as int).subrange(0, offset as int)
    }
}

/// Whether slab `j` is one of `ids`.
pub open spec fn holds_id(ids: Seq<u32>, j: int) -> bool {
    exists|i: int| 0 <= i < ids.len() && #[trigger] ids[i] as int == j
}

/// Slabs in use that are not in `ids` are left in use with the same bytes.
pub open spec fn others_kept(before: SlabStore, after: SlabStore, ids: Seq<u32>) -> bool {
    &&& after.count() == before.count()
    &&& forall|j: int|
        0 <= j < before.count() && before.in_use(j) && !holds_id(ids, j) ==> #[trigger] after.in_use(j)
    &&& forall|j: int|
        0 <= j < before.count() && before.in_use(j) && !holds_id(ids, j) ==> #[trigger] after.slab(j)
            == before.slab(j)
}

/// Keeping the slabs outside a chain twice, where the second chain only adds slabs that
/// were free, keeps them once.
pub proof fn lemma_others_trans(s0: SlabStore, s1: SlabStore, s2: SlabStore, ids0: Seq<u32>, ids1: Seq<u32>)
    requires
        others_kept(s0, s1, ids0),
        others_kept(s1, s2, ids1),
        forall|i: int| 0 <= i < ids1.len() ==> holds_id(ids0, #[trigger] ids1[i] as int) || !s0.in_use(ids1[i] as int),
    ensures
        others_kept(s0, s2, ids0),
{
    assert forall|j: int|
        0 <= j < s0.count() && s0.in_use(j) && !holds_id(ids0, j) implies #[trigger] s2.in_use(j) && s2.slab(j)
        == s0.slab(j) by {
        assert(s1.in_use(j));
        assert(s1.slab(j) == s0.slab(j));
        if holds_id(ids1, j) {
            let i = choose|i: int| 0 <= i < ids1.len() && #[trigger] ids1[i] as int == j;
            assert(holds_id(ids0, ids1[i] as int) || !s0.in_use(ids1[i] as int));
        }
        assert(s2.slab(j) == s1.slab(j));
        assert(s2.in_use(j));
    }
}

/// Each slab holds 514 bytes of data.
pub proof fn lemma_full_len(slabs: SlabStore, ids: Seq<u32>)
    requires
        slabs.wf(),
        forall|i: int| 0 <= i < ids.len() ==> (#[trigger] ids[i]) < slabs.count(),
    ensures
        full_bytes(slabs, ids).len() == ids.len() * 514,
    decreases ids.len(),
{
    if ids.len() > 0 {
        assert(ids[ids.len() - 1] < slabs.count());
        slabs.lemma_slab_len(ids.last() as int);
        lemma_full_len(slabs, ids.drop_last());
    }
}

/// The data of two runs of slabs one after the other.
pub proof fn lemma_full_concat(slabs: SlabStore, a: Seq<u32>, b: Seq<u32>)
    ensures
        full_bytes(slabs, a + b) == full_bytes(slabs, a) + full_bytes(slabs, b),
    decreases b.len(),
{
    if b.len() == 0 {
        assert(a + b =~= a);
    } else {
        lemma_full_concat(slabs, a, b.drop_last());
        assert((a + b).drop_last() =~= a + b.drop_last());
    }
}

/// The data of slabs whose data is the same in two stores is the same.
pub proof fn lemma_full_frame(s1: SlabStore, s2: SlabStore, ids: Seq<u32>)
    requires
        forall|i: int| 0 <= i < ids.len() ==> s1.payload(ids[i] as int) == s2.payload(ids[i] as int),
    ensures
        full_bytes(s1, ids) == full_bytes(s2, ids),
    decreases ids.len(),
{
    if ids.len() > 0 {
        assert(s1.payload(ids[ids.len() - 1] as int) == s2.payload(ids[ids.len() - 1] as int));
        lemma_full_frame(s1, s2, ids.drop_last());
    }
}

/// How one read into a chain went: how many bytes it added, whether the connection must
/// be closed, and whether to read again.
#[derive(Debug, Clone, Copy, PartialEq, Eq, Structural)]
pub struct ReadStep {
    /// The bytes added to the chain.
    pub added: usize,
    /// Whether the connection must be closed.
    pub close: bool,
    /// Whether the slab was filled, so that another read may follow.
    pub more: bool,
}

/// The bytes read on one connection and not yet consumed, held in a chain of read slabs
/// linked by the id each slab stores in its last four bytes.
pub struct ReadChain {
    first_slab: u32,
    last_slab: u32,
    slab_offset: u16,
    ids: Ghost<Seq<u32>>,
}

impl ReadChain {
    /// The ids of the slabs of the chain, first to last.
    pub closed spec fn chain_ids(&self) -> Seq<u32> {
        self.ids@
    }

    /// The id of the first slab, or `NO_SLAB`.
    pub closed spec fn spec_first(&self) -> u32 {
        self.first_slab
    }

    /// The id of the last slab, or `NO_SLAB`.
    pub closed spec fn spec_last(&self) -> u32 {
        self.last_slab
    }

    /// How many bytes of the last slab hold data.
    pub closed spec fn spec_offset(&self) -> u16 {
        self.slab_offset
    }

    /// The chain agrees with the slabs: its ids are distinct slabs in use, each storing
    /// the next as its successor and the last storing `NO_SLAB`; an empty chain has no
    /// first or last slab and an offset of zero.
    #[verifier::opaque]
    pub closed spec fn wf(&self, slabs: SlabStore) -> bool {
        let ids = self.ids@;
        &&& slabs.wf()
        &&& self.slab_offset <= 514
        &&& (ids.len() == 0 <==> self.first_slab == NO_SLAB)
        &&& ids.len() == 0 ==> self.last_slab == NO_SLAB && self.slab_offset == 0
        &&& ids.len() > 0 ==> ids[0] == self.first_slab && ids.last() == self.last_slab
            && slabs.next_of(self.last_slab as int) == NO_SLAB as nat
        &&& forall|i: int| 0 <= i < ids.len() ==> (#[trigger] ids[i]) < slabs.count() && slabs.in_use(ids[i] as int)
        &&& forall|i: int| 0 <= i < ids.len() - 1 ==> slabs.next_of(#[trigger] ids[i] as int) == ids[i + 1] as nat
        &&& forall|i: int, j: int| 0 <= i < j < ids.len() ==> ids[i] != ids[j]
    }

    /// The bytes the chain holds.
    pub closed spec fn content(&self, slabs: SlabStore) -> Seq<u8> {
        chain_bytes(slabs, self.ids@, self.slab_offset as nat)
    }

    /// A chain that holds nothing.
    pub fn new() -> (r: ReadChain)
        ensures
            r.chain_ids() == Seq::<u32>::empty(),
            r.spec_first() == NO_SLAB,
            r.spec_last() == NO_SLAB,
            r.spec_offset() == 0,
            forall|slabs: SlabStore| slabs.wf() ==> r.wf(slabs),
    {
        proof {
            reveal(ReadChain::wf);
        }
        let ghost none = Seq::<u32>::empty();
        ReadChain { first_slab: NO_SLAB, last_slab: NO_SLAB, slab_offset: 0, ids: Ghost(none) }
    }

    /// The id of the first slab, or `NO_SLAB` when the chain is empty.
    pub fn first_slab(&self) -> (r: u32)
        ensures
            r == self.spec_first(),
    {
        self.first_slab
    }

    /// The id of the last slab, or `NO_SLAB` when the chain is empty.
    pub fn last_slab(&self) -> (r: u32)
        ensures
            r == self.spec_last(),
    {
        self.last_slab
    }

    /// How many bytes of the last slab hold data.
    pub fn slab_offset(&self) -> (r: u16)
        ensures
            r == self.spec_offset(),
    {
        self.slab_offset
    }

    /// Makes room for the next read: a first slab when the chain is empty, another slab
    /// linked after the last when the last is full. Returns false, changing nothing, when no
    /// slab is free; then the connection is to be dropped.
    pub fn reserve(&mut self, slabs: &mut SlabStore) -> (ok: bool)
        requires
            old(self).wf(*old(slabs)),
        ensures
            final(self).wf(*final(slabs)),
            final(self).content(*final(slabs)) == old(self).content(*old(slabs)),
            others_kept(*old(slabs), *final(slabs), old(self).chain_ids()),
            ok ==> final(self).chain_ids().len() > 0 && final(self).spec_offset() < 514,
            ok ==> final(self).chain_ids().subrange(0, old(self).chain_ids().len() as int) == old(self).chain_ids(),
            final(self).chain_ids().len() >= old(self).chain_ids().len(),
            forall|i: int|
                old(self).chain_ids().len() <= i < final(self).chain_ids().len() ==> !old(slabs).in_use(
                    #[trigger] final(self).chain_ids()[i] as int,
                ),
            !ok ==> *final(self) == *old(self) && *final(slabs) == *old(slabs),
            old(self).chain_ids().len() > 0 && old(self).spec_offset() < 514 ==> ok && *final(self) == *old(self)
                && *final(slabs) == *old(slabs),
    {
        proof {
            reveal(ReadChain::wf);
        }
        let ghost ids = self.ids@;
        proof {
            slabs.lemma_count_bound();
            if ids.len() > 0 {
                assert(ids[ids.len() - 1] < slabs.count());
            }
        }
        if self.last_slab == NO_SLAB {
            let id = match slabs.allocate() {
                Ok(id) => id,
                Err(_) => {
                    return false;
                },
            };
            let ghost s1 = *slabs;
            slabs.set_next(id, NO_SLAB);
            self.first_slab = id;
            self.last_slab = id;
            self.slab_offset = 0;
            let ghost one = seq![id];
            self.ids = Ghost(one);
            proof {
                assert(slabs.in_use(id as int));
                assert(self.chain_ids()[0] == id);
                assert(chain_bytes(*slabs, seq![id], 0) =~= Seq::empty());
                assert forall|j: int|
                    0 <= j < old(slabs).count() && old(slabs).in_use(j) && !holds_id(ids, j) implies slabs.in_use(j)
                    && #[trigger] slabs.slab(j) == old(slabs).slab(j) by {
                    assert(j != id);
                }
            }
            true
        } else if self.slab_offset == 514 {
            let id = match slabs.allocate() {
                Ok(id) => id,
                Err(_) => {
                    return false;
                },
            };
            let ghost s0 = *old(slabs);
            let ghost s1 = *slabs;
            proof {
                assert forall|i: int| 0 <= i < ids.len() implies ids[i] != id by {
                    assert(old(slabs).in_use(ids[i] as int));
                }
            }
            slabs.set_next(id, NO_SLAB);
            let ghost s2 = *slabs;
            let last = self.last_slab;
            slabs.set_next(last, id);
            self.last_slab = id;
            self.slab_offset = 0;
            let ghost pushed = ids.push(id);
            self.ids = Ghost(pushed);
            proof {
                let nids = ids.push(id);
                assert(nids.drop_last() =~= ids);
                assert forall|i: int| 0 <= i < nids.len() implies (#[trigger] nids[i]) < slabs.count() && slabs.in_use(nids[i] as int) by {
                    if i < ids.len() {
                        assert(s0.in_use(ids[i] as int));
                    }
                }
                assert forall|i: int| 0 <= i < nids.len() - 1 implies slabs.next_of(#[trigger] nids[i] as int) == nids[i + 1] as nat by {
                    if i < ids.len() - 1 {
                        assert(ids[i] != last);
                        assert(s0.next_of(ids[i] as int) == ids[i + 1] as nat);
                    }
                }
                assert forall|i: int| 0 <= i < ids.len() implies s0.payload(ids[i] as int) == slabs.payload(ids[i] as int) by {
                    if ids[i] != last {
                        assert(slabs.slab(ids[i] as int) == s0.slab(ids[i] as int));
                    }
                }
                lemma_full_frame(s0, *slabs, ids);
                lemma_full_frame(s0, *slabs, ids.drop_last());
                assert(full_bytes(*slabs, ids) =~= full_bytes(*slabs, ids.drop_last()) + slabs.payload(last as int));
                s0.lemma_slab_len(last as int);
                assert(s0.payload(last as int).subrange(0, 514) =~= s0.payload(last as int));
                assert(chain_bytes(*slabs, nids, 0) =~= full_bytes(*slabs, ids));
                assert(nids.subrange(0, ids.len() as int) =~= ids);
                assert forall|j: int|
                    0 <= j < s0.count() && s0.in_use(j) && !holds_id(ids, j) implies slabs.in_use(j)
                    && #[trigger] slabs.slab(j) == s0.slab(j) by {
                    assert(j != id);
                    assert(j != last);
                }
            }
            true
        } else {
            true
        }
    }

    /// Appends `bytes` to the last slab of a chain that has room for them.
    pub fn append(&mut self, slabs: &mut SlabStore, bytes: &[u8])
        requires
            old(self).wf(*old(slabs)),
            old(self).chain_ids().len() > 0,
            old(self).spec_offset() + bytes@.len() <= 514,
        ensures
            final(self).wf(*final(slabs)),
            final(self).content(*final(slabs)) == old(self).content(*old(slabs)) + bytes@,
            final(self).chain_ids() == old(self).chain_ids(),
            final(self).spec_offset() == old(self).spec_offset() + bytes@.len(),
            others_kept(*old(slabs), *final(slabs), old(self).chain_ids()),
    {
        proof {
            reveal(ReadChain::wf);
        }
        let ghost ids = self.ids@;
        let ghost s0 = *slabs;
        let last = self.last_slab;
        let off = self.slab_offset;
        slabs.write(last, off as usize, bytes);
        self.slab_offset = off + bytes.len() as u16;
        proof {
            assert forall|i: int| 0 <= i < ids.len() - 1 implies s0.payload(
                ids.drop_last()[i] as int,
            ) == slabs.payload(ids.drop_last()[i] as int) by {
                assert(ids[i] != ids[ids.len() - 1]);
            }
            lemma_full_frame(s0, *slabs, ids.drop_last());
            assert forall|i: int| 0 <= i < ids.len() - 1 implies slabs.next_of(#[trigger] ids[i] as int) == ids[i + 1] as nat by {
                assert(ids[i] != ids[ids.len() - 1]);
                assert(s0.next_of(ids[i] as int) == ids[i + 1] as nat);
            }
            assert(ids[ids.len() - 1] < slabs.count());
            s0.lemma_slab_len(last as int);
            slabs.lemma_slab_len(last as int);
            assert(slabs.slab(last as int).subrange(514, 518) =~= s0.slab(last as int).subrange(514, 518));
            assert(slabs.payload(last as int).subrange(0, off + bytes@.len()) =~= s0.payload(last as int).subrange(
                0,
                off as int,
            ) + bytes@);
            assert forall|i: int| 0 <= i < ids.len() implies (#[trigger] ids[i]) < slabs.count() && slabs.in_use(ids[i] as int) by {
                assert(s0.in_use(ids[i] as int));
            }
            assert forall|j: int|
                0 <= j < s0.count() && s0.in_use(j) && !holds_id(ids, j) implies slabs.in_use(j)
                && #[trigger] slabs.slab(j) == s0.slab(j) by {
                assert(j != last);
            }
        }
    }

    /// Records one read of a plain connection into the room that `reserve` made: `len` is
    /// what the read returned and `data` the bytes it read. A read of zero bytes is the
    /// peer closing (unless the bytes come from TLS); a failed read closes the connection
    /// unless it would only have blocked; a read that fills the slab asks for another.
    pub fn record_read(&mut self, slabs: &mut SlabStore, data: &[u8], len: isize, would_block: bool, tls: bool) -> (r: ReadStep)
        requires
            old(self).wf(*old(slabs)),
            old(self).chain_ids().len() > 0,
            old(self).spec_offset() < 514,
            len <= 514 - old(self).spec_offset(),
            data@.len() == if len > 0 { len as int } else { 0 },
        ensures
            final(self).wf(*final(slabs)),
            final(self).content(*final(slabs)) == old(self).content(*old(slabs)) + data@,
            final(self).chain_ids() == old(self).chain_ids(),
            others_kept(*old(slabs), *final(slabs), old(self).chain_ids()),
            r.added == data@.len(),
            r.close == ((len == 0 && !tls) || (len < 0 && !would_block && len != -2)),
            r.more == (len == 514 - old(self).spec_offset()),
    {
        let close = (len == 0 && !tls) || (len < 0 && !would_block && len != -2);
        let target: isize = 514 - self.slab_offset as isize;
        if len > 0 {
            self.append(slabs, data);
        }
        ReadStep { added: data.len(), close, more: len == target }
    }

    /// Moves the bytes of `buffer` into the chain, a slab at a time, as a TLS read does
    /// with the plaintext it decrypted. Returns how many bytes were added and whether the
    /// connection must be dropped because no slab was free; then the count is zero, and only
    /// a first part of the buffer was moved.
    pub fn ingest(&mut self, slabs: &mut SlabStore, buffer: &mut Vec<u8>) -> (r: (usize, bool))
        requires
            old(self).wf(*old(slabs)),
        ensures
            final(self).wf(*final(slabs)),
            others_kept(*old(slabs), *final(slabs), old(self).chain_ids()),
            !r.1 ==> r.0 == old(buffer)@.len() && final(buffer)@ == Seq::<u8>::empty() && final(self).content(
                *final(slabs),
            ) == old(self).content(*old(slabs)) + old(buffer)@,
            r.1 ==> r.0 == 0 && exists|k: int|
                0 <= k <= old(buffer)@.len() && final(buffer)@ == old(buffer)@.subrange(k, old(buffer)@.len() as int)
                    && #[trigger] final(self).content(*final(slabs)) == old(self).content(*old(slabs))
                    + old(buffer)@.subrange(0, k),
    {
        let ghost buf0 = buffer@;
        let ghost c0 = self.content(*slabs);
        let ghost s0 = *slabs;
        let ghost ids0 = self.ids@;
        let mut total: usize = 0;
        let n0 = buffer.len();
        loop
            invariant
                s0 == *old(slabs),
                ids0 == old(self).chain_ids(),
                c0 == old(self).content(*old(slabs)),
                buf0 == old(buffer)@,
                n0 == buf0.len(),
                self.wf(*slabs),
                others_kept(s0, *slabs, ids0),
                forall|i: int|
                    0 <= i < self.chain_ids().len() ==> holds_id(ids0, #[trigger] self.chain_ids()[i] as int)
                        || !s0.in_use(self.chain_ids()[i] as int),
                total <= buf0.len(),
                buffer@ == buf0.subrange(total as int, buf0.len() as int),
                self.content(*slabs) == c0 + buf0.subrange(0, total as int),
                s0.count() == slabs.count(),
            decreases buffer@.len(),
        {
            let ghost s1 = *slabs;
            let ghost ids1 = self.ids@;
            if !self.reserve(slabs) {
                proof {
                    assert(buf0.subrange(0, total as int) == buf0.subrange(0, total as int));
                }
                return (0, true);
            }
            proof {
                self.lemma_walk_start(*slabs);
                lemma_others_trans(s0, s1, *slabs, ids0, ids1);
                assert forall|i: int|
                    0 <= i < self.chain_ids().len() implies holds_id(ids0, #[trigger] self.chain_ids()[i] as int)
                        || !s0.in_use(self.chain_ids()[i] as int) by {
                    if i < ids1.len() {
                        assert(self.chain_ids()[i] == self.chain_ids().subrange(0, ids1.len() as int)[i]);
                    } else {
                        assert(!s1.in_use(self.chain_ids()[i] as int));
                        if s0.in_use(self.chain_ids()[i] as int) && !holds_id(ids0, self.chain_ids()[i] as int) {
                            assert(s1.in_use(self.chain_ids()[i] as int));
                        }
                    }
                }
            }
            let slen: usize = 514 - self.slab_offset as usize;
            let clen: usize = if buffer.len() > slen { slen } else { buffer.len() };
            let rest = buffer.split_off(clen);
            let ghost s2 = *slabs;
            let ghost ids2 = self.ids@;
            self.append(slabs, buffer.as_slice());
            proof {
                lemma_others_trans(s0, s2, *slabs, ids0, ids2);
                assert(buf0.subrange(0, total + clen) =~= buf0.subrange(0, total as int) + buffer@);
            }
            *buffer = rest;
            total = total + clen;
            assert(buffer@ =~= buf0.subrange(total as int, buf0.len() as int));
            if clen < slen {
                assert(buffer@.len() == 0);
                assert(buf0.subrange(0, total as int) =~= buf0);
                return (total, false);
            }
        }
    }

    /// Frees the slabs of the chain from the first through slab `slab_id`, after the
    /// caller has consumed their bytes. When `slab_id` is the last slab the chain is left
    /// empty; when it is not in the chain every slab of the chain is freed and the chain is
    /// left empty.
    #[verifier::rlimit(60)]
    pub fn clear_through(&mut self, slabs: &mut SlabStore, slab_id: u32) -> (r: Result<(), Error>)
        requires
            old(self).wf(*old(slabs)),
        ensures
            r is Ok,
            final(self).wf(*final(slabs)),
            others_kept(*old(slabs), *final(slabs), old(self).chain_ids()),
            forall|k: int|
                0 <= k < old(self).chain_ids().len() && old(self).chain_ids()[k] == slab_id ==> {
                    &&& final(self).chain_ids() == old(self).chain_ids().subrange(
                        k + 1,
                        old(self).chain_ids().len() as int,
                    )
                    &&& forall|i: int| 0 <= i <= k ==> !final(slabs).in_use(#[trigger] old(self).chain_ids()[i] as int)
                    &&& final(self).content(*final(slabs)) == if k == old(self).chain_ids().len() - 1 {
                        Seq::<u8>::empty()
                    } else {
                        old(self).content(*old(slabs)).subrange(
                            (k + 1) * 514,
                            old(self).content(*old(slabs)).len() as int,
                        )
                    }
                },
            !holds_id(old(self).chain_ids(), slab_id as int) ==> final(self).chain_ids() == Seq::<u32>::empty()
                && forall|i: int|
                0 <= i < old(self).chain_ids().len() ==> !final(slabs).in_use(#[trigger] old(self).chain_ids()[i] as int),
    {
        let ghost ids = self.ids@;
        let ghost s0 = *slabs;
        let ghost off = self.slab_offset as nat;
        let ghost orig = *self;
        let mut next = self.first_slab;
        let ghost mut k: int = 0;
        proof {
            self.lemma_walk_start(s0);
        }
        while next != NO_SLAB
            invariant
                self.wf(s0),
                s0 == *old(slabs),
                ids == old(self).chain_ids(),
                self.ids@ == ids,
                self.first_slab == old(self).spec_first(),
                self.last_slab == old(self).spec_last(),
                self.slab_offset == old(self).spec_offset(),
                off == self.slab_offset,
                orig == *old(self),
                orig.wf(s0),
                slabs.wf(),
                0 <= k <= ids.len(),
                forall|i: int| 0 <= i < ids.len() ==> (#[trigger] ids[i]) < s0.count(),
                forall|i: int, j: int| 0 <= i < j < ids.len() ==> ids[i] != ids[j],
                k < ids.len() ==> next == ids[k],
                k == ids.len() ==> next == NO_SLAB,
                forall|i: int| 0 <= i < k ==> ids[i] != slab_id,
                forall|i: int| 0 <= i < k ==> !slabs.in_use(#[trigger] ids[i] as int),
                forall|i: int| k <= i < ids.len() ==> slabs.in_use(#[trigger] ids[i] as int),
                forall|j: int| #[trigger] slabs.slab(j) == s0.slab(j),
                slabs.count() == s0.count(),
                forall|j: int|
                    0 <= j < s0.count() && !holds_id(ids, j) ==> #[trigger] slabs.in_use(j) == s0.in_use(j),
            decreases ids.len() - k,
        {
            proof {
                self.lemma_walk_step(s0, k);
            }
            let next_slab = slabs.next(next);
            let ghost before = *slabs;
            let _ = slabs.free(next);
            proof {
                assert forall|j: int|
                    0 <= j < s0.count() && !holds_id(ids, j) implies #[trigger] slabs.in_use(j) == s0.in_use(j) by {
                    assert(j != next);
                    assert(before.in_use(j) == s0.in_use(j));
                }
                assert forall|i: int| k + 1 <= i < ids.len() implies slabs.in_use(#[trigger] ids[i] as int) by {
                    assert(ids[i] != ids[k]);
                    assert(before.in_use(ids[i] as int));
                }
                assert forall|i: int| 0 <= i < k + 1 implies !slabs.in_use(#[trigger] ids[i] as int) by {
                    if i < k {
                        assert(ids[i] != ids[k]);
                        assert(!before.in_use(ids[i] as int));
                    }
                }
            }
            if next == slab_id {
                let ghost rest = ids.subrange(k + 1, ids.len() as int);
                if slab_id == self.last_slab {
                    self.first_slab = NO_SLAB;
                    self.last_slab = NO_SLAB;
                    self.slab_offset = 0;
                    let ghost none = Seq::<u32>::empty();
                    self.ids = Ghost(none);
                    proof {
                        assert(k == ids.len() - 1);
                        assert(rest =~= Seq::<u32>::empty());
                        self.lemma_kept_after_clear(s0, *slabs, ids);
                        self.lemma_empty_wf(*slabs);
                    }
                } else {
                    self.first_slab = next_slab;
                    self.ids = Ghost(rest);
                    proof {
                        assert(k < ids.len() - 1);
                        self.lemma_rest_after_clear(orig, s0, *slabs, k);
                        self.lemma_kept_after_clear(s0, *slabs, ids);
                    }
                }
                return Ok(());
            }
            next = next_slab;
            proof {
                k = k + 1;
            }
        }
        self.first_slab = NO_SLAB;
        self.last_slab = NO_SLAB;
        self.slab_offset = 0;
        let ghost none = Seq::<u32>::empty();
        self.ids = Ghost(none);
        proof {
            self.lemma_kept_after_clear(s0, *slabs, ids);
            self.lemma_empty_wf(*slabs);
            assert forall|kk: int| 0 <= kk < ids.len() && ids[kk] == slab_id implies false by {
                assert(kk < k);
            }
            assert forall|i: int| 0 <= i < ids.len() && #[trigger] ids[i] as int == slab_id as int implies false by {
                assert(i < k);
            }
        }
        Ok(())
    }

    /// What a walk down a well-formed chain may rely on at its `k`-th slab.
    proof fn lemma_walk_step(&self, slabs: SlabStore, k: int)
        requires
            self.wf(slabs),
            0 <= k < self.ids@.len(),
        ensures
            slabs.wf(),
            self.ids@[k] < slabs.count(),
            slabs.count() < NO_SLAB,
            slabs.in_use(self.ids@[k] as int),
            self.first_slab == self.ids@[0],
            (self.ids@[k] == self.last_slab) == (k == self.ids@.len() - 1),
            k < self.ids@.len() - 1 ==> slabs.next_of(self.ids@[k] as int) == self.ids@[k + 1] as nat,
            k == self.ids@.len() - 1 ==> slabs.next_of(self.ids@[k] as int) == NO_SLAB as nat,
            forall|i: int| 0 <= i < self.ids@.len() && i != k ==> #[trigger] self.ids@[i] != self.ids@[k],
            forall|i: int| 0 <= i < self.ids@.len() ==> slabs.in_use(#[trigger] self.ids@[i] as int),
    {
        reveal(ReadChain::wf);
        slabs.lemma_count_bound();
        let ids = self.ids@;
        if k < ids.len() - 1 {
            assert(ids[k] != ids[ids.len() - 1]);
        }
        assert forall|i: int| 0 <= i < ids.len() && i != k implies #[trigger] ids[i] != ids[k] by {
            if i < k {
            } else {
            }
        }
    }

    /// The bytes of a chain: 514 for each slab but the last, and the offset of the last.
    pub proof fn lemma_content_len(&self, slabs: SlabStore)
        requires
            self.wf(slabs),
        ensures
            self.chain_ids().len() == 0 ==> self.content(slabs).len() == 0,
            self.chain_ids().len() > 0 ==> self.content(slabs).len() == (self.chain_ids().len() - 1) * 514
                + self.spec_offset(),
    {
        self.lemma_walk_start(slabs);
        let ids = self.ids@;
        if ids.len() > 0 {
            assert forall|i: int| 0 <= i < ids.drop_last().len() implies (#[trigger] ids.drop_last()[i]) < slabs.count() by {
                assert(ids.drop_last()[i] == ids[i]);
            }
            lemma_full_len(slabs, ids.drop_last());
            slabs.lemma_slab_len(ids.last() as int);
        }
    }

    /// The last id of a non-empty well-formed chain is its last slab.
    pub proof fn lemma_last_is_last(&self, slabs: SlabStore)
        requires
            self.wf(slabs),
            self.chain_ids().len() > 0,
        ensures
            self.chain_ids()[self.chain_ids().len() - 1] == self.spec_last(),
            self.spec_last() != NO_SLAB,
    {
        self.lemma_walk_start(slabs);
    }

    /// A well-formed chain is empty exactly when it has no first slab.
    proof fn lemma_walk_start(&self, slabs: SlabStore)
        requires
            self.wf(slabs),
        ensures
            slabs.wf(),
            slabs.count() < NO_SLAB,
            self.slab_offset <= 514,
            (self.ids@.len() == 0) == (self.first_slab == NO_SLAB),
            self.ids@.len() == 0 ==> self.last_slab == NO_SLAB && self.slab_offset == 0,
            self.ids@.len() > 0 ==> self.ids@[0] == self.first_slab && self.ids@.last() == self.last_slab,
            forall|i: int| 0 <= i < self.ids@.len() ==> (#[trigger] self.ids@[i]) < slabs.count(),
            forall|i: int, j: int| 0 <= i < j < self.ids@.len() ==> self.ids@[i] != self.ids@[j],
            forall|i: int| 0 <= i < self.ids@.len() - 1 ==> slabs.next_of(#[trigger] self.ids@[i] as int) == self.ids@[i + 1] as nat,
            self.ids@.len() > 0 ==> slabs.next_of(self.last_slab as int) == NO_SLAB as nat,
            forall|i: int| 0 <= i < self.ids@.len() ==> slabs.in_use(#[trigger] self.ids@[i] as int),
    {
        reveal(ReadChain::wf);
        slabs.lemma_count_bound();
    }

    /// An empty chain is well formed over any slab store.
    proof fn lemma_empty_wf(&self, slabs: SlabStore)
        requires
            slabs.wf(),
            self.ids@.len() == 0,
            self.first_slab == NO_SLAB,
            self.last_slab == NO_SLAB,
            self.slab_offset == 0,
        ensures
            self.wf(slabs),
    {
        reveal(ReadChain::wf);
    }

    /// After freeing a first part of `ids` the slabs outside them are as they were.
    proof fn lemma_kept_after_clear(&self, s0: SlabStore, s1: SlabStore, ids: Seq<u32>)
        requires
            s1.count() == s0.count(),
            forall|j: int| #[trigger] s1.slab(j) == s0.slab(j),
            forall|j: int| 0 <= j < s0.count() && !holds_id(ids, j) ==> #[trigger] s1.in_use(j) == s0.in_use(j),
        ensures
            others_kept(s0, s1, ids),
    {
        assert forall|j: int|
            0 <= j < s0.count() && s0.in_use(j) && !holds_id(ids, j) implies #[trigger] s1.in_use(j) by {
        }
    }

    /// The rest of a chain after its slabs `0..=k` are freed: still well formed, holding
    /// the bytes after the first `k + 1` slabs.
    proof fn lemma_rest_after_clear(&self, orig: ReadChain, s0: SlabStore, s1: SlabStore, k: int)
        requires
            orig.wf(s0),
            0 <= k < orig.ids@.len() - 1,
            self.ids@ == orig.ids@.subrange(k + 1, orig.ids@.len() as int),
            self.first_slab == orig.ids@[k + 1],
            self.last_slab == orig.last_slab,
            self.slab_offset == orig.slab_offset,
            s1.wf(),
            s1.count() == s0.count(),
            forall|j: int| #[trigger] s1.slab(j) == s0.slab(j),
            forall|i: int| k < i < orig.ids@.len() ==> s1.in_use(#[trigger] orig.ids@[i] as int),
        ensures
            self.wf(s1),
            self.content(s1) == orig.content(s0).subrange((k + 1) * 514, orig.content(s0).len() as int),
    {
        self.lemma_rest_wf(orig, s0, s1, k);
        self.lemma_rest_content(orig, s0, s1, k);
    }

    /// A chain whose parts agree with the slabs is well formed.
    proof fn lemma_make_wf(&self, slabs: SlabStore)
        requires
            slabs.wf(),
            self.slab_offset <= 514,
            self.ids@.len() > 0,
            self.first_slab != NO_SLAB,
            self.ids@[0] == self.first_slab,
            self.ids@.last() == self.last_slab,
            slabs.next_of(self.last_slab as int) == NO_SLAB as nat,
            forall|i: int| 0 <= i < self.ids@.len() ==> (#[trigger] self.ids@[i]) < slabs.count() && slabs.in_use(self.ids@[i] as int),
            forall|i: int| 0 <= i < self.ids@.len() - 1 ==> slabs.next_of(#[trigger] self.ids@[i] as int) == self.ids@[i + 1] as nat,
            forall|i: int, j: int| 0 <= i < j < self.ids@.len() ==> self.ids@[i] != self.ids@[j],
        ensures
            self.wf(slabs),
    {
        reveal(ReadChain::wf);
    }

    /// The rest of a chain after its slabs `0..=k` are freed is well formed.
    #[verifier::spinoff_prover]
    #[verifier::rlimit(50)]
    proof fn lemma_rest_wf(&self, orig: ReadChain, s0: SlabStore, s1: SlabStore, k: int)
        requires
            orig.wf(s0),
            0 <= k < orig.ids@.len() - 1,
            self.ids@ == orig.ids@.subrange(k + 1, orig.ids@.len() as int),
            self.first_slab == orig.ids@[k + 1],
            self.last_slab == orig.last_slab,
            self.slab_offset == orig.slab_offset,
            s1.wf(),
            s1.count() == s0.count(),
            forall|j: int| #[trigger] s1.slab(j) == s0.slab(j),
            forall|i: int| k < i < orig.ids@.len() ==> s1.in_use(#[trigger] orig.ids@[i] as int),
        ensures
            self.wf(s1),
    {
        orig.lemma_walk_start(s0);
        let ids = orig.ids@;
        let rest = self.ids@;
        assert forall|i: int| 0 <= i < rest.len() - 1 implies s1.next_of(#[trigger] rest[i] as int) == rest[i + 1] as nat by {
            assert(rest[i] == ids[k + 1 + i]);
            assert(s0.next_of(ids[k + 1 + i] as int) == ids[k + 2 + i] as nat);
            assert(s1.slab(rest[i] as int) == s0.slab(rest[i] as int));
        }
        assert forall|i: int| 0 <= i < rest.len() implies (#[trigger] rest[i]) < s1.count() && s1.in_use(rest[i] as int) by {
            assert(rest[i] == ids[k + 1 + i]);
        }
        assert forall|i: int, j: int| 0 <= i < j < rest.len() implies rest[i] != rest[j] by {
            assert(rest[i] == ids[k + 1 + i]);
            assert(rest[j] == ids[k + 1 + j]);
        }
        assert(rest.last() == ids.last());
        assert(s1.slab(ids.last() as int) == s0.slab(ids.last() as int));
        assert(rest[0] == ids[k + 1]);
        assert(ids[k + 1] < s0.count());
        self.lemma_make_wf(s1);
    }

    /// The rest of a chain after its slabs `0..=k` are freed holds the bytes after the
    /// first `k + 1` slabs.
    #[verifier::spinoff_prover]
    proof fn lemma_rest_content(&self, orig: ReadChain, s0: SlabStore, s1: SlabStore, k: int)
        requires
            orig.wf(s0),
            0 <= k < orig.ids@.len() - 1,
            self.ids@ == orig.ids@.subrange(k + 1, orig.ids@.len() as int),
            self.slab_offset == orig.slab_offset,
            forall|j: int| #[trigger] s1.slab(j) == s0.slab(j),
        ensures
            self.content(s1) == orig.content(s0).subrange((k + 1) * 514, orig.content(s0).len() as int),
    {
        orig.lemma_walk_start(s0);
        let ids = orig.ids@;
        let rest = self.ids@;
        let body = ids.drop_last();
        assert(body =~= body.subrange(0, k + 1) + body.subrange(k + 1, body.len() as int));
        lemma_full_concat(s0, body.subrange(0, k + 1), body.subrange(k + 1, body.len() as int));
        assert forall|i: int| 0 <= i < body.subrange(0, k + 1).len() implies (#[trigger] body.subrange(0, k + 1)[i]) < s0.count() by {
            assert(body.subrange(0, k + 1)[i] == ids[i]);
        }
        lemma_full_len(s0, body.subrange(0, k + 1));
        assert(rest.drop_last() =~= body.subrange(k + 1, body.len() as int));
        lemma_full_frame(s0, s1, rest.drop_last());
        assert(rest.last() == ids.last());
        let whole = orig.content(s0);
        assert(self.content(s1) =~= whole.subrange((k + 1) * 514, whole.len() as int));
    }

    /// Returns the bytes the chain holds, slab after slab.
    #[verifier::rlimit(60)]
    pub fn read_all(&self, slabs: &SlabStore) -> (r: Vec<u8>)
        requires
            self.wf(*slabs),
        ensures
            r@ == self.content(*slabs),
    {
        let mut out: Vec<u8> = Vec::new();
        proof {
            self.lemma_walk_start(*slabs);
        }
        if self.first_slab == NO_SLAB {
            return out;
        }
        let ghost ids = self.ids@;
        let mut id = self.first_slab;
        let ghost mut k: int = 0;
        proof {
            self.lemma_walk_start(*slabs);
        }
        loop
            invariant
                self.wf(*slabs),
                self.ids@ == ids,
                ids.len() > 0,
                0 <= k < ids.len(),
                self.slab_offset <= 514,
                id == ids[k],
                out@ == full_bytes(*slabs, ids.subrange(0, k)),
            decreases ids.len() - k,
        {
            proof {
                self.lemma_walk_step(*slabs, k);
                slabs.lemma_slab_len(id as int);
                assert(ids.subrange(0, k + 1).drop_last() =~= ids.subrange(0, k));
            }
            let slab = slabs.get(id);
            if id == self.last_slab {
                proof {
                    assert(k == ids.len() - 1);
                    assert(ids.subrange(0, k) =~= ids.drop_last());
                }
                let part = vstd::slice::slice_subrange(slab, 0, self.slab_offset as usize);
                out.extend_from_slice(part);
                assert(out@ =~= self.content(*slabs));
                return out;
            }
            proof {
                assert(k < ids.len() - 1);
            }
            let part = vstd::slice::slice_subrange(slab, 0, 514);
            out.extend_from_slice(part);
            assert(out@ =~= full_bytes(*slabs, ids.subrange(0, k + 1)));
            id = slabs.next(id);
            proof {
                k = k + 1;
            }
        }
    }
}

/// What happened in one turn of a connection's read loop: no slab could be had for the
/// next read, or a read went as the step says.
#[derive(Debug, Clone, Copy, PartialEq, Eq, Structural)]
pub enum ReadEvent {
    /// No slab was free for the next read.
    NoRoom,
    /// A read was recorded in the chain.
    Read(ReadStep),
}

/// What the read loop of a connection does next: read again, or stop, then run the read
/// callback when bytes came in, and close the connection when it must be closed.
#[derive(Debug, Clone, Copy, PartialEq, Eq, Structural)]
pub enum ReadAction {
    /// Read again into the chain.
    ReadAgain,
    /// Stop reading.
    Done {
        /// Whether the read callback runs.
        on_read: bool,
        /// Whether the connection is closed.
        close: bool,
    },
}

/// The read loop of one connection so far: whether bytes came in, and whether the
/// connection must be closed.
#[derive(Debug, Clone, Copy, PartialEq, Eq, Structural)]
pub struct ReadService {
    /// Whether some read added bytes.
    pub read_any: bool,
    /// Whether the connection must be closed.
    pub close: bool,
}

impl ReadService {
    /// A loop that has read nothing.
    pub fn new() -> (r: ReadService)
        ensures
            !r.read_any,
            !r.close,
    {
        ReadService { read_any: false, close: false }
    }

    /// One turn of the loop. With no free slab the connection is dropped: what was read
    /// is not handed to the callback, and the connection is closed. After a read the loop
    /// reads again when the slab was filled; else it stops, runs the callback when some
    /// read added bytes, and closes the connection when a read said so.
    pub fn step(self, event: ReadEvent) -> (r: (ReadService, ReadAction))
        ensures
            match event {
                ReadEvent::NoRoom => r == (ReadService { read_any: false, close: true }, ReadAction::Done {
                    on_read: false,
                    close: true,
                }),
                ReadEvent::Read(s) => {
                    let next = ReadService { read_any: self.read_any || s.added > 0, close: self.close || s.close };
                    &&& r.0 == next
                    &&& s.more ==> r.1 == ReadAction::ReadAgain
                    &&& !s.more ==> r.1 == ReadAction::Done { on_read: next.read_any, close: next.close }
                },
            },
    {
        match event {
            ReadEvent::NoRoom => {
                (ReadService { read_any: false, close: true }, ReadAction::Done { on_read: false, close: true })
            },
            ReadEvent::Read(s) => {
                let next = ReadService { read_any: self.read_any || s.added > 0, close: self.close || s.close };
                if s.more {
                    (next, ReadAction::ReadAgain)
                } else {
                    (next, ReadAction::Done { on_read: next.read_any, close: next.close })
                }
            },
        }
    }
}

} // verus!
