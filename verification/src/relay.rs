use vstd::prelude::*;
use aes::cipher::generic_array::GenericArray;
use aes::cipher::{NewCipher, StreamCipher};
use aes::Aes256Ctr;
use sha3::{Digest, Sha3_256};
use crate::crypt::{
    clear_digest_fields, is_recognized, recognition_bytes, recognition_input, split_seed, stamp_digest,
    zeroed_for_digest, ClientLayer, CryptInit, InboundClientLayer, OutboundClientLayer, RelayCellBody, RelayCrypt,
    seed_len_of, CELL_DATA_LEN,
};
use crate::error::{is_err_of, ErrKind, Error};
use crate::text::dec_chars;

verus! {

/// The key length of AES-256.
pub const KEY_LEN: usize = 32;

/// The output length of SHA3-256.
pub const DIGEST_LEN: usize = 32;

/// AES-256 in counter mode, started with a zero nonce. Its state is private: the functions
/// below are the only ones that touch it.
#[verifier::external_body]
pub struct Keystream {
    c: Aes256Ctr,
}

/// The key of a keystream.
pub uninterp spec fn keystream_key(k: Keystream) -> Seq<u8>;

/// How many bytes of its keystream a keystream has used.
pub uninterp spec fn keystream_pos(k: Keystream) -> nat;

/// The bytes `data` with the AES-256 counter-mode keystream of `key`, from byte `pos` on,
/// applied to them.
pub uninterp spec fn aes256ctr_apply(key: Seq<u8>, pos: nat, data: Seq<u8>) -> Seq<u8>;

/// `Aes256Ctr::new` with a zero nonce: a keystream at its start. `GenericArray::from_slice`
/// asserts that the key has 32 bytes.
#[verifier::external_body]
fn keystream_new(key: &[u8]) -> (r: Keystream)
    requires
        key@.len() == KEY_LEN,
    ensures
        keystream_key(r) == key@,
        keystream_pos(r) == 0,
{
    Keystream { c: Aes256Ctr::new(GenericArray::from_slice(key), &Default::default()) }
}

/// `StreamCipher::try_apply_keystream` on the bytes of a cell body: the keystream is applied
/// and moves on by the body's length, or, where the 64-bit block counter would pass its
/// end, ctr's source refuses and leaves the body and the keystream as they were. The counter
/// is the number of whole blocks used, so it cannot pass its end while the bytes used stay
/// within `u64::MAX`.
#[verifier::external_body]
fn keystream_apply(k: &mut Keystream, cell: &mut RelayCellBody) -> (applied: bool)
    ensures
        keystream_key(*final(k)) == keystream_key(*old(k)),
        applied ==> final(cell).0@ == aes256ctr_apply(keystream_key(*old(k)), keystream_pos(*old(k)), old(cell).0@)
            && keystream_pos(*final(k)) == keystream_pos(*old(k)) + CELL_DATA_LEN,
        !applied ==> final(cell).0@ == old(cell).0@ && keystream_pos(*final(k)) == keystream_pos(*old(k)),
        keystream_pos(*old(k)) + CELL_DATA_LEN <= u64::MAX ==> applied,
{
    k.c.try_apply_keystream(&mut cell.0[..]).is_ok()
}

/// A running SHA3-256 digest. Its state is private: the functions below are the only ones
/// that touch it.
#[verifier::external_body]
pub struct RunningDigest {
    d: Sha3_256,
}

/// The bytes a running digest has been given.
pub uninterp spec fn digest_input(d: RunningDigest) -> Seq<u8>;

/// The SHA3-256 digest of `input`.
pub uninterp spec fn sha3_256(input: Seq<u8>) -> Seq<u8>;

/// `Sha3_256::new`: a digest given nothing yet.
#[verifier::external_body]
fn digest_new() -> (r: RunningDigest)
    ensures
        digest_input(r) == Seq::<u8>::empty(),
{
    RunningDigest { d: Sha3_256::new() }
}

/// `Digest::update`: gives the digest `data` after what it was given.
#[verifier::external_body]
fn digest_update(d: &mut RunningDigest, data: &[u8])
    ensures
        digest_input(*final(d)) == digest_input(*old(d)) + data@,
{
    Digest::update(&mut d.d, data)
}

/// `Clone::clone` of the digest: a digest given the same bytes.
#[verifier::external_body]
fn digest_clone(d: &RunningDigest) -> (r: RunningDigest)
    ensures
        digest_input(r) == digest_input(*d),
{
    RunningDigest { d: d.d.clone() }
}

/// `Digest::finalize`: the 32 bytes of the SHA3-256 digest of what the digest was given.
#[verifier::external_body]
fn digest_finalize(d: RunningDigest) -> (r: Vec<u8>)
    ensures
        r@ == sha3_256(digest_input(d)),
        r@.len() == DIGEST_LEN,
{
    d.d.finalize().to_vec()
}

/// One direction of a hop: its keystream, its running digest, and the digest value it last
/// produced.
pub struct CryptState {
    cipher: Keystream,
    digest: RunningDigest,
    last_digest_val: Vec<u8>,
}

impl CryptState {
    /// The key of the keystream.
    pub closed spec fn key(&self) -> Seq<u8> {
        keystream_key(self.cipher)
    }

    /// How many keystream bytes were used.
    pub closed spec fn pos(&self) -> nat {
        keystream_pos(self.cipher)
    }

    /// The bytes the running digest was given.
    pub closed spec fn running_input(&self) -> Seq<u8> {
        digest_input(self.digest)
    }

    /// The digest value last produced.
    pub closed spec fn last_digest(&self) -> Seq<u8> {
        self.last_digest_val@
    }

    /// A state with the key `key`, its running digest given `digest_seed`.
    fn start(key: &[u8], digest_seed: &[u8]) -> (r: CryptState)
        requires
            key@.len() == KEY_LEN,
        ensures
            r.key() == key@,
            r.pos() == 0,
            r.running_input() == digest_seed@,
            r.last_digest() == Seq::new(DIGEST_LEN as nat, |i: int| 0u8),
    {
        let mut digest = digest_new();
        digest_update(&mut digest, digest_seed);
        assert(Seq::<u8>::empty() + digest_seed@ =~= digest_seed@);
        let last: Vec<u8> = vec![0u8; DIGEST_LEN];
        CryptState { cipher: keystream_new(key), digest, last_digest_val: last }
    }
}

/// One use of a keystream on a cell body: `out` is `cell` with the keystream applied and
/// the keystream moves on by the body's length; only once the keystream is near its end
/// may the body and the keystream stay as they were instead.
pub open spec fn keystream_step(before: CryptState, cell: Seq<u8>, after: CryptState, out: Seq<u8>) -> bool {
    &&& after.key() == before.key()
    &&& {
        ||| out == aes256ctr_apply(before.key(), before.pos(), cell) && after.pos() == before.pos() + CELL_DATA_LEN
        ||| before.pos() + CELL_DATA_LEN > u64::MAX && out == cell && after.pos() == before.pos()
    }
}

/// The cell body a digest stamps: the body with its recognized and digest fields cleared,
/// then the first four bytes of `digest` in the digest field.
pub open spec fn stamped(cell: Seq<u8>, digest: Seq<u8>) -> Seq<u8> {
    let z = zeroed_for_digest(cell);
    z.subrange(0, 5) + digest.subrange(0, 4) + z.subrange(9, CELL_DATA_LEN as int)
}

/// Whether the relay of a layer whose running digest was given `input` recognizes the
/// decrypted body `body`: its recognized field is zero and its digest field holds the first
/// four bytes of the digest of `input` followed by the body with that field zeroed.
pub open spec fn recognizes(input: Seq<u8>, body: Seq<u8>) -> bool {
    let d = sha3_256(input + recognition_input(body));
    body[1] == 0 && body[2] == 0 && body.subrange(5, 9) == d.subrange(0, 4)
}

/// Stamps the digest of a cell body: clears its recognized and digest fields, gives the
/// body to the running digest, and writes the first four bytes of the digest value into
/// the digest field. Returns the digest value.
fn set_digest(cell: &mut RelayCellBody, d: &mut RunningDigest) -> (used: Vec<u8>)
    ensures
        digest_input(*final(d)) == digest_input(*old(d)) + zeroed_for_digest(old(cell).0@),
        used@ == sha3_256(digest_input(*final(d))),
        final(cell).0@ == stamped(old(cell).0@, used@),
{
    clear_digest_fields(&mut cell.0);
    digest_update(d, &cell.0);
    let used = digest_finalize(digest_clone(d));
    stamp_digest(&mut cell.0, used.as_slice());
    used
}

/// Whether a decrypted cell body is meant for this relay: it is, when its recognized field
/// is zero and its digest field matches the running digest given the body; then the
/// running digest keeps the body and the digest value is returned. Otherwise the running
/// digest is left as it was.
fn recognized(body: &RelayCellBody, d: &mut RunningDigest) -> (r: Option<Vec<u8>>)
    ensures
        r is Some <==> recognizes(digest_input(*old(d)), body.0@),
        r matches Some(v) ==> v@ == sha3_256(digest_input(*old(d)) + recognition_input(body.0@)),
        r is Some ==> digest_input(*final(d)) == digest_input(*old(d)) + recognition_input(body.0@),
        r is None ==> digest_input(*final(d)) == digest_input(*old(d)),
{
    let mut dtmp = digest_clone(d);
    let rb = recognition_bytes(&body.0);
    digest_update(&mut dtmp, rb.as_slice());
    let result = digest_finalize(digest_clone(&dtmp));
    if is_recognized(&body.0, result.as_slice()) {
        *d = dtmp;
        Some(result)
    } else {
        None
    }
}

impl OutboundClientLayer for CryptState {
    /// The layer stamps the body with the digest value of its running digest given the
    /// cleared body, keeps that value, and encrypts the stamped body.
    open spec fn originates(before: Self, cell: Seq<u8>, after: Self, out: Seq<u8>, tag: Seq<u8>) -> bool {
        let input = before.running_input() + zeroed_for_digest(cell);
        &&& tag == sha3_256(input)
        &&& after.running_input() == input
        &&& after.last_digest() == tag
        &&& keystream_step(before, stamped(cell, tag), after, out)
    }

    /// The layer encrypts the body; its digest is untouched.
    open spec fn encrypts(before: Self, cell: Seq<u8>, after: Self, out: Seq<u8>) -> bool {
        &&& after.running_input() == before.running_input()
        &&& after.last_digest() == before.last_digest()
        &&& keystream_step(before, cell, after, out)
    }

    fn originate_for(&mut self, cell: &mut RelayCellBody) -> (r: Vec<u8>) {
        let used = set_digest(cell, &mut self.digest);
        self.last_digest_val = used;
        self.encrypt_outbound(cell);
        let r = self.last_digest_val.clone();
        assert(r@ == self.last_digest_val@);
        r
    }

    fn encrypt_outbound(&mut self, cell: &mut RelayCellBody) {
        keystream_apply(&mut self.cipher, cell);
    }
}

impl InboundClientLayer for CryptState {
    /// The layer decrypts the body into `out`; it recognizes `out` exactly when the
    /// recognized field is zero and the digest field matches its running digest given the
    /// body, and only then keeps the body in its running digest and gives the digest value.
    open spec fn decrypts(before: Self, cell: Seq<u8>, after: Self, out: Seq<u8>, tag: Option<Seq<u8>>) -> bool {
        let input = before.running_input() + recognition_input(out);
        &&& keystream_step(before, cell, after, out)
        &&& recognizes(before.running_input(), out) ==> {
            &&& tag == Some(sha3_256(input))
            &&& after.running_input() == input
            &&& after.last_digest() == sha3_256(input)
        }
        &&& !recognizes(before.running_input(), out) ==> {
            &&& tag == None::<Seq<u8>>
            &&& after.running_input() == before.running_input()
            &&& after.last_digest() == before.last_digest()
        }
    }

    fn decrypt_inbound(&mut self, cell: &mut RelayCellBody) -> (r: Option<Vec<u8>>) {
        keystream_apply(&mut self.cipher, cell);
        match recognized(cell, &mut self.digest) {
            Some(v) => {
                self.last_digest_val = v;
                let t = self.last_digest_val.clone();
                assert(t@ == self.last_digest_val@);
                Some(t)
            },
            None => None,
        }
    }
}

/// Both directions of a hop: toward the relay, and back toward the client.
pub struct CryptStatePair {
    fwd: CryptState,
    back: CryptState,
}

impl CryptStatePair {
    /// The state for cells sent away from the client.
    pub closed spec fn fwd(&self) -> CryptState {
        self.fwd
    }

    /// The state for cells sent toward the client.
    pub closed spec fn back(&self) -> CryptState {
        self.back
    }
}

impl CryptInit for CryptStatePair {
    /// The seed holds two AES-256 keys and two SHA3-256 digest seeds.
    open spec fn needs_seed_len(n: usize) -> bool {
        n == seed_len_of(KEY_LEN as nat, DIGEST_LEN as nat)
    }

    /// A seed of another length is refused with the error `split_seed` gives; else the
    /// forward digest is given the first 32 bytes and the backward one the next 32, and the
    /// forward and backward keys are the next 32 bytes each.
    open spec fn initializes(seed: Seq<u8>, out: Result<Self, Error>) -> bool {
        &&& out is Ok <==> seed.len() == seed_len_of(KEY_LEN as nat, DIGEST_LEN as nat)
        &&& out matches Err(e) ==> is_err_of(e, ErrKind::Crypt, "seed length "@ + dec_chars(seed.len()) + " was invalid"@)
        &&& out matches Ok(p) ==> {
            &&& p.fwd().running_input() == seed.subrange(0, 32)
            &&& p.back().running_input() == seed.subrange(32, 64)
            &&& p.fwd().key() == seed.subrange(64, 96)
            &&& p.back().key() == seed.subrange(96, 128)
            &&& p.fwd().pos() == 0 && p.back().pos() == 0
            &&& p.fwd().last_digest() == Seq::new(DIGEST_LEN as nat, |i: int| 0u8)
            &&& p.back().last_digest() == Seq::new(DIGEST_LEN as nat, |i: int| 0u8)
        }
    }

    fn seed_len() -> (r: usize) {
        let r = KEY_LEN * 2 + DIGEST_LEN * 2;
        assert(r == seed_len_of(KEY_LEN as nat, DIGEST_LEN as nat));
        assert(Self::needs_seed_len(r));
        r
    }

    fn initialize(seed: &[u8]) -> (r: Result<CryptStatePair, Error>) {
        let p = split_seed(seed, KEY_LEN, DIGEST_LEN)?;
        assert(p@[0].0 == 0 && p@[0].1 == 32);
        assert(p@[1].0 == 32 && p@[1].1 == 64);
        assert(p@[2].0 == 64 && p@[2].1 == 96);
        assert(p@[3].0 == 96 && p@[3].1 == 128);
        let fwd = CryptState::start(
            vstd::slice::slice_subrange(seed, p[2].0, p[2].1),
            vstd::slice::slice_subrange(seed, p[0].0, p[0].1),
        );
        let back = CryptState::start(
            vstd::slice::slice_subrange(seed, p[3].0, p[3].1),
            vstd::slice::slice_subrange(seed, p[1].0, p[1].1),
        );
        Ok(CryptStatePair { fwd, back })
    }
}

impl ClientLayer<CryptState, CryptState> for CryptStatePair {
    fn split(self) -> (r: (CryptState, CryptState))
        ensures
            r.0 == self.fwd(),
            r.1 == self.back(),
    {
        (self.fwd, self.back)
    }
}

impl RelayCrypt for CryptStatePair {
    /// Stamps the digest of a cell the relay sends toward the client, with the backward
    /// running digest; the cell is not encrypted here.
    fn originate(&mut self, cell: &mut RelayCellBody)
        ensures
            final(self).fwd() == old(self).fwd(),
            final(self).back().key() == old(self).back().key(),
            final(self).back().pos() == old(self).back().pos(),
            final(self).back().last_digest() == old(self).back().last_digest(),
            final(self).back().running_input() == old(self).back().running_input() + zeroed_for_digest(old(cell).0@),
            final(cell).0@ == stamped(old(cell).0@, sha3_256(final(self).back().running_input())),
    {
        let _used = set_digest(cell, &mut self.back.digest);
    }

    /// Encrypts a cell going toward the client with the backward keystream.
    fn encrypt_inbound(&mut self, cell: &mut RelayCellBody)
        ensures
            final(self).fwd() == old(self).fwd(),
            final(self).back().running_input() == old(self).back().running_input(),
            final(self).back().last_digest() == old(self).back().last_digest(),
            keystream_step(old(self).back(), old(cell).0@, final(self).back(), final(cell).0@),
    {
        keystream_apply(&mut self.back.cipher, cell);
    }

    /// Decrypts a cell coming from the client with the forward keystream; whether the
    /// relay recognizes it, keeping it in the forward running digest only then.
    fn decrypt_outbound(&mut self, cell: &mut RelayCellBody) -> (r: bool)
        ensures
            final(self).back() == old(self).back(),
            final(self).fwd().last_digest() == old(self).fwd().last_digest(),
            keystream_step(old(self).fwd(), old(cell).0@, final(self).fwd(), final(cell).0@),
            r == recognizes(old(self).fwd().running_input(), final(cell).0@),
            r ==> final(self).fwd().running_input() == old(self).fwd().running_input() + recognition_input(
                final(cell).0@,
            ),
            !r ==> final(self).fwd().running_input() == old(self).fwd().running_input(),
    {
        keystream_apply(&mut self.fwd.cipher, cell);
        let r = recognized(cell, &mut self.fwd.digest);
        r.is_some()
    }
}

/// A body stamped with a digest is recognized by a running digest in the same state as the
/// one that stamped it: the bytes the receiver gives its digest are the bytes the sender gave
/// its own, so the receiver reaches the same digest state and the same digest value, which
/// the stamp holds.
pub proof fn law_stamp_then_recognize(input: Seq<u8>, cell: Seq<u8>, used: Seq<u8>)
    requires
        cell.len() == CELL_DATA_LEN,
        used == sha3_256(input + zeroed_for_digest(cell)),
        used.len() == DIGEST_LEN,
    ensures
        recognition_input(stamped(cell, used)) == zeroed_for_digest(cell),
        recognizes(input, stamped(cell, used)),
        sha3_256(input + recognition_input(stamped(cell, used))) == used,
{
    crate::crypt::law_stamped_body_is_recognized(cell, used);
}

} // verus!
