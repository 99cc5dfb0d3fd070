use vstd::prelude::*;
use crate::read_chain::ReadChain;
use crate::slabs::SlabStore;
use crate::write_state::{
    has_flag, tls_chunk, tls_chunk_count, WRITE_STATE_FLAG_CLOSE, WRITE_STATE_FLAG_PENDING, WRITE_STATE_FLAG_RESUME,
    WRITE_STATE_FLAG_SUSPEND,
};

verus! {

/// The pieces handed to TLS cover the data exactly: the first starts at zero, each ends
/// where the next starts, none is longer than `TLS_CHUNKS`, and the last ends at the end.
pub proof fn law_tls_chunks_cover(len: nat, i: nat)
    requires
        i < tls_chunk_count(len),
    ensures
        tls_chunk(len, 0).0 == 0,
        tls_chunk(len, i).0 <= tls_chunk(len, i).1 <= len,
        tls_chunk(len, i).1 - tls_chunk(len, i).0 <= 5120,
        i + 1 < tls_chunk_count(len) ==> tls_chunk(len, i).1 == tls_chunk(len, i + 1).0,
        i + 1 == tls_chunk_count(len) ==> tls_chunk(len, i).1 == len,
{
    if len > 0 {
        assert(i * 5120 < len) by (nonlinear_arith)
            requires
                i < (len + 5119) / 5120,
        ;
        if i + 1 == tls_chunk_count(len) {
            assert(len <= (i + 1) * 5120) by (nonlinear_arith)
                requires
                    i + 1 == (len + 5119) / 5120,
            ;
        } else {
            assert((i + 1) * 5120 < len) by (nonlinear_arith)
                requires
                    i + 1 < (len + 5119) / 5120,
            ;
        }
    }
}

/// After a suspension and then a resumption of an open connection, it is marked to
/// resume and no longer to suspend.
pub proof fn law_suspend_then_resume(flags: u8)
    requires
        !has_flag(flags, WRITE_STATE_FLAG_CLOSE),
    ensures
        ({
            let suspended = (flags & !WRITE_STATE_FLAG_RESUME) | WRITE_STATE_FLAG_SUSPEND;
            let resumed = (suspended | WRITE_STATE_FLAG_RESUME) & !WRITE_STATE_FLAG_SUSPEND;
            &&& !has_flag(suspended, WRITE_STATE_FLAG_CLOSE)
            &&& has_flag(resumed, WRITE_STATE_FLAG_RESUME)
            &&& !has_flag(resumed, WRITE_STATE_FLAG_SUSPEND)
            &&& has_flag(resumed, WRITE_STATE_FLAG_PENDING) == has_flag(flags, WRITE_STATE_FLAG_PENDING)
        }),
{
    let suspended = (flags & !16u8) | 8u8;
    let resumed = (suspended | 16u8) & !8u8;
    assert(suspended & 2u8 == flags & 2u8) by (bit_vector)
        requires
            suspended == (flags & !16u8) | 8u8,
    ;
    assert(resumed & 16u8 != 0 && resumed & 8u8 == 0 && resumed & 1u8 == flags & 1u8) by (bit_vector)
        requires
            suspended == (flags & !16u8) | 8u8,
            resumed == (suspended | 16u8) & !8u8,
    ;
}

/// Once the close flag is set, it stays set whatever else is set or cleared but it.
pub proof fn law_close_sticks(flags: u8, set: u8, clear: u8)
    requires
        has_flag(flags, WRITE_STATE_FLAG_CLOSE),
        clear & 2u8 == 0,
    ensures
        has_flag((flags | set) & !clear, WRITE_STATE_FLAG_CLOSE),
{
    assert(((flags | set) & !clear) & 2u8 != 0) by (bit_vector)
        requires
            flags & 2u8 != 0,
            clear & 2u8 == 0,
    ;
}

/// A chain holds every slab but the last in full: its bytes number 514 for each of those
/// and the offset of the last.
pub proof fn law_chain_length(chain: ReadChain, slabs: SlabStore)
    requires
        chain.wf(slabs),
    ensures
        chain.chain_ids().len() == 0 ==> chain.content(slabs).len() == 0,
        chain.chain_ids().len() > 0 ==> chain.content(slabs).len() == (chain.chain_ids().len() - 1) * 514
            + chain.spec_offset(),
{
    chain.lemma_content_len(slabs);
}

} // verus!
