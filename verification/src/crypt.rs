use vstd::prelude::*;
use crate::error::{is_err_of, ErrKind, Error};
use crate::text::{append_decimal, dec_chars};

verus! {

/// Calls `subtle::ConstantTimeEq::ct_eq` on two byte slices and `Choice::unwrap_u8` on the
/// result: as subtle's source shows, 1 exactly when the slices have the same length and
/// the same bytes, else 0.
#[verifier::external_body]
fn ct_eq_bytes(a: &[u8], b: &[u8]) -> (r: u8)
    ensures
        r == if a@ == b@ { 1u8 } else { 0u8 },
{
    subtle::ConstantTimeEq::ct_eq(a, b).unwrap_u8()
}

/// Whether two byte strings are equal, compared in time that does not depend on their
/// contents.
pub fn bytes_eq(a: &[u8], b: &[u8]) -> (r: bool)
    ensures
        r == (a@ == b@),
{
    ct_eq_bytes(a, b) == 1
}

/// The number of a hop on a circuit.
#[derive(Debug, Clone, Copy, PartialEq, Eq, Structural)]
pub struct HopNum(pub u8);

impl From<HopNum> for u8 {
    fn from(hop: HopNum) -> (r: u8) {
        hop.0
    }
}

impl vstd::std_specs::convert::FromSpecImpl<HopNum> for u8 {
    open spec fn obeys_from_spec() -> bool {
        true
    }

    open spec fn from_spec(hop: HopNum) -> u8 {
        hop.0
    }
}

impl From<u8> for HopNum {
    fn from(v: u8) -> (r: HopNum) {
        HopNum(v)
    }
}

impl vstd::std_specs::convert::FromSpecImpl<u8> for HopNum {
    open spec fn obeys_from_spec() -> bool {
        true
    }

    open spec fn from_spec(v: u8) -> HopNum {
        HopNum(v)
    }
}

impl From<HopNum> for usize {
    fn from(hop: HopNum) -> (r: usize) {
        hop.0 as usize
    }
}

impl vstd::std_specs::convert::FromSpecImpl<HopNum> for usize {
    open spec fn obeys_from_spec() -> bool {
        true
    }

    open spec fn from_spec(hop: HopNum) -> usize {
        hop.0 as usize
    }
}

impl HopNum {
    /// The decimal text of the hop number.
    pub fn to_string(&self) -> (r: String)
        ensures
            r@ == dec_chars(self.0 as nat),
    {
        let mut s = String::new();
        append_decimal(&mut s, self.0 as u128);
        s
    }
}

/// Where the four parts of the seed of a pair of relay crypto states lie: the forward
/// and backward digest seeds of `dlen` bytes, then the forward and backward cipher keys of
/// `keylen` bytes, as start and end offsets.
pub open spec fn seed_parts(keylen: nat, dlen: nat) -> Seq<(nat, nat)> {
    seq![(0, dlen), (dlen, 2 * dlen), (2 * dlen, 2 * dlen + keylen), (2 * dlen + keylen, 2 * dlen + 2 * keylen)]
}

/// The length of the seed of a pair of relay crypto states.
pub open spec fn seed_len_of(keylen: nat, dlen: nat) -> nat {
    2 * keylen + 2 * dlen
}

/// Cuts a seed into the forward digest seed, the backward digest seed, the forward key
/// and the backward key. A seed of another length than twice the key length and twice
/// the digest length is a crypt error that gives its length.
pub fn split_seed(seed: &[u8], keylen: usize, dlen: usize) -> (r: Result<[(usize, usize); 4], Error>)
    requires
        2 * keylen + 2 * dlen <= usize::MAX,
    ensures
        seed@.len() != seed_len_of(keylen as nat, dlen as nat) ==> (r matches Err(e) && is_err_of(
            e,
            ErrKind::Crypt,
            "seed length "@ + dec_chars(seed@.len()) + " was invalid"@,
        )),
        seed@.len() == seed_len_of(keylen as nat, dlen as nat) ==> (r matches Ok(parts) && forall|i: int|
            0 <= i < 4 ==> (#[trigger] parts@[i]).0 as nat == seed_parts(keylen as nat, dlen as nat)[i].0
                && parts@[i].1 as nat == seed_parts(keylen as nat, dlen as nat)[i].1),
{
    let total = 2 * keylen + 2 * dlen;
    if seed.len() != total {
        let mut m = String::from_str("seed length ");
        append_decimal(&mut m, seed.len() as u128);
        m.append(" was invalid");
        return Err(crate::error::err(ErrKind::Crypt, m.as_str()));
    }
    let parts: [(usize, usize); 4] = [
        (0, dlen),
        (dlen, 2 * dlen),
        (2 * dlen, 2 * dlen + keylen),
        (2 * dlen + keylen, 2 * dlen + 2 * keylen),
    ];
    Ok(parts)
}

/// Checks that `hop` is a hop of a circuit of `layers` layers, or gives the crypt error
/// "No such hop"; returns how many layers, from the first, the hop's cell passes through.
pub fn hop_layers(hop: HopNum, layers: usize) -> (r: Result<usize, Error>)
    ensures
        (hop.0 as nat) < layers ==> r == Ok::<usize, Error>((hop.0 + 1) as usize),
        (hop.0 as nat) >= layers ==> (r matches Err(e) && is_err_of(e, ErrKind::Crypt, "No such hop"@)),
{
    let h: usize = hop.into();
    if h >= layers {
        return Err(crate::error::err(ErrKind::Crypt, "No such hop"));
    }
    Ok(h + 1)
}

/// The length of the body of a relay cell.
pub const CELL_DATA_LEN: usize = 509;

/// The body with its recognized field (bytes 1 and 2) and its digest field (bytes 5 to 8)
/// set to zero.
pub open spec fn zeroed_for_digest(body: Seq<u8>) -> Seq<u8> {
    body.update(1, 0).update(2, 0).update(5, 0).update(6, 0).update(7, 0).update(8, 0)
}

/// Sets the recognized and digest fields of a relay cell body to zero, before the body is
/// hashed into the running digest.
pub fn clear_digest_fields(body: &mut [u8])
    requires
        old(body)@.len() == CELL_DATA_LEN,
    ensures
        final(body)@ == zeroed_for_digest(old(body)@),
{
    body[1] = 0;
    body[2] = 0;
    body[5] = 0;
    body[6] = 0;
    body[7] = 0;
    body[8] = 0;
}

/// Writes the first four bytes of `digest` into the digest field of a relay cell body.
pub fn stamp_digest(body: &mut [u8], digest: &[u8])
    requires
        old(body)@.len() == CELL_DATA_LEN,
        digest@.len() >= 4,
    ensures
        final(body)@ == old(body)@.subrange(0, 5) + digest@.subrange(0, 4) + old(body)@.subrange(9, 509),
{
    let mut i: usize = 0;
    while i < 4
        invariant
            i <= 4,
            body@.len() == CELL_DATA_LEN,
            old(body)@.len() == CELL_DATA_LEN,
            digest@.len() >= 4,
            body@ == old(body)@.subrange(0, 5) + digest@.subrange(0, i as int) + old(body)@.subrange(5 + i, 509),
        decreases 4 - i,
    {
        body[5 + i] = digest[i];
        assert(body@ =~= old(body)@.subrange(0, 5) + digest@.subrange(0, i + 1) + old(body)@.subrange(5 + i + 1, 509));
        i = i + 1;
    }
}

/// The bytes a received relay cell body contributes to the running digest: the body with
/// its digest field read as zeros.
pub open spec fn recognition_input(body: Seq<u8>) -> Seq<u8> {
    body.subrange(0, 5) + seq![0u8, 0u8, 0u8, 0u8] + body.subrange(9, body.len() as int)
}

/// Returns the bytes a received relay cell body contributes to the running digest.
pub fn recognition_bytes(body: &[u8]) -> (r: Vec<u8>)
    requires
        body@.len() == CELL_DATA_LEN,
    ensures
        r@ == recognition_input(body@),
{
    let mut r: Vec<u8> = Vec::new();
    r.extend_from_slice(vstd::slice::slice_subrange(body, 0, 5));
    r.push(0u8);
    r.push(0u8);
    r.push(0u8);
    r.push(0u8);
    r.extend_from_slice(vstd::slice::slice_subrange(body, 9, CELL_DATA_LEN));
    assert(r@ =~= recognition_input(body@));
    r
}

/// Whether a relay cell body is meant for this hop: its recognized field is zero and its
/// digest field holds the first four bytes of `digest`, the running digest once the body
/// is added to it.
pub fn is_recognized(body: &[u8], digest: &[u8]) -> (r: bool)
    requires
        body@.len() == CELL_DATA_LEN,
        digest@.len() >= 4,
    ensures
        r == (body@[1] == 0 && body@[2] == 0 && body@.subrange(5, 9) == digest@.subrange(0, 4)),
{
    if body[1] != 0 || body[2] != 0 {
        return false;
    }
    bytes_eq(vstd::slice::slice_subrange(body, 5, 9), vstd::slice::slice_subrange(digest, 0, 4))
}

/// A relay cell body sent with its digest stamped is recognized by a peer whose running
/// digest matches: the bytes the peer hashes are the bytes the sender hashed, the
/// recognized field is zero and the digest field holds the digest.
pub proof fn law_stamped_body_is_recognized(body: Seq<u8>, digest: Seq<u8>)
    requires
        body.len() == CELL_DATA_LEN,
        digest.len() >= 4,
    ensures
        ({
            let zeroed = zeroed_for_digest(body);
            let sent = zeroed.subrange(0, 5) + digest.subrange(0, 4) + zeroed.subrange(9, 509);
            &&& recognition_input(sent) == zeroed
            &&& sent[1] == 0 && sent[2] == 0
            &&& sent.subrange(5, 9) == digest.subrange(0, 4)
        }),
{
    let zeroed = zeroed_for_digest(body);
    let sent = zeroed.subrange(0, 5) + digest.subrange(0, 4) + zeroed.subrange(9, 509);
    assert(recognition_input(sent) =~= zeroed);
    assert(sent.subrange(5, 9) =~= digest.subrange(0, 4));
}

/// The body of a relay cell.
#[derive(Clone)]
pub struct RelayCellBody(pub [u8; CELL_DATA_LEN]);

/// Expands seed material into key material; used once. What a generator gives is its own:
/// nothing is claimed of it.
pub trait KeyGenerator {
    /// Consumes the generator and returns `keylen` bytes of key material.
    fn expand(self, keylen: usize) -> Result<Vec<u8>, Error>;
}

/// A crypto state built from a seed. Its relations say how many seed bytes it needs and
/// what it builds from them.
pub trait CryptInit: Sized {
    /// Whether `n` is the number of seed bytes the state needs.
    spec fn needs_seed_len(n: usize) -> bool;

    /// Whether building the state from `seed` can give `out`.
    spec fn initializes(seed: Seq<u8>, out: Result<Self, Error>) -> bool;

    /// The number of seed bytes the state needs.
    fn seed_len() -> (r: usize)
        ensures
            Self::needs_seed_len(r),
    ;

    /// Builds the state from a seed of `seed_len` bytes.
    fn initialize(seed: &[u8]) -> (r: Result<Self, Error>)
        ensures
            Self::initializes(seed@, r),
    ;

    /// Builds the state from a key generator: the generator is asked for `seed_len` bytes,
    /// its error is returned, and else the state is initialized from what it gave. What the
    /// generator gives is its own, so of a success it is said that it is the state some seed
    /// builds.
    fn construct<K: KeyGenerator>(keygen: K) -> (r: Result<Self, Error>)
        ensures
            r is Ok ==> exists|seed: Seq<u8>| #[trigger] Self::initializes(seed, r),
    {
        let n = Self::seed_len();
        let seed = keygen.expand(n)?;
        Self::initialize(seed.as_slice())
    }
}

/// A client's crypto state with one relay, for cells sent away from the client. What a
/// layer does to a cell is its own: its two relations name it, and its methods keep to them.
/// `crate::relay::CryptState` is the layer of this library.
pub trait OutboundClientLayer: Sized {
    /// Whether stamping and encrypting the cell `cell` in state `before` can leave the state
    /// `after`, the cell `out` and the authentication tag `tag`.
    spec fn originates(before: Self, cell: Seq<u8>, after: Self, out: Seq<u8>, tag: Seq<u8>) -> bool;

    /// Whether encrypting the cell `cell` in state `before` can leave the state `after` and
    /// the cell `out`.
    spec fn encrypts(before: Self, cell: Seq<u8>, after: Self, out: Seq<u8>) -> bool;

    /// Stamps a cell for the relay of this layer and encrypts it; returns the
    /// authentication tag.
    fn originate_for(&mut self, cell: &mut RelayCellBody) -> (r: Vec<u8>)
        ensures
            Self::originates(*old(self), old(cell).0@, *final(self), final(cell).0@, r@),
    ;

    /// Encrypts a cell that the relay of this layer decrypts.
    fn encrypt_outbound(&mut self, cell: &mut RelayCellBody)
        ensures
            Self::encrypts(*old(self), old(cell).0@, *final(self), final(cell).0@),
    ;
}

/// A client's crypto state with one relay, for cells coming to the client. What a layer
/// does to a cell is its own: its relation names it, and its method keeps to it. 
/// `crate::relay::CryptState` is the layer of this library.
pub trait InboundClientLayer: Sized {
    /// Whether decrypting the cell `cell` in state `before` can leave the state `after`, the
    /// cell `out`, and the authentication tag `tag` when this layer's relay originated it.
    spec fn decrypts(before: Self, cell: Seq<u8>, after: Self, out: Seq<u8>, tag: Option<Seq<u8>>) -> bool;

    /// Decrypts a cell that passed through this layer; the authentication tag when the relay
    /// of this layer originated it.
    fn decrypt_inbound(&mut self, cell: &mut RelayCellBody) -> (r: Option<Vec<u8>>)
        ensures
            Self::decrypts(
                *old(self),
                old(cell).0@,
                *final(self),
                final(cell).0@,
                match r {
                    Some(t) => Some(t@),
                    None => None,
                },
            ),
    ;
}

/// How a cell for hop `h` passes the outbound layers, from `old` to `new`: layer `h` stamps
/// and encrypts it into `cells[0]` with the tag `tag`, then layers `h - 1` down to `0` each
/// encrypt the cell the one before left, `cells[k]` being the cell after `k` of them.
pub open spec fn outbound_trace<L: OutboundClientLayer>(
    old: Seq<L>,
    new: Seq<L>,
    cell: Seq<u8>,
    tag: Seq<u8>,
    h: int,
    cells: Seq<Seq<u8>>,
) -> bool {
    &&& cells.len() == h + 1
    &&& L::originates(old[h], cell, new[h], cells[0], tag)
    &&& forall|k: int| 0 < k <= h ==> #[trigger] L::encrypts(old[h - k], cells[k - 1], new[h - k], cells[k])
}

/// Whether some run of the outbound layers, as `outbound_trace` describes it, takes the cell
/// `cell` for hop `h` to `out` with the tag `tag`.
pub open spec fn outbound_reaches<L: OutboundClientLayer>(
    old: Seq<L>,
    new: Seq<L>,
    cell: Seq<u8>,
    tag: Seq<u8>,
    h: int,
    out: Seq<u8>,
) -> bool {
    exists|cells: Seq<Seq<u8>>| #[trigger] outbound_trace(old, new, cell, tag, h, cells) && out == cells[h]
}

/// How a cell passes the first `m` inbound layers, from `old` to `new`, none of them
/// recognizing it: `cells[j]` is the cell layer `j` is handed.
pub open spec fn inbound_trace<L: InboundClientLayer>(old: Seq<L>, new: Seq<L>, cells: Seq<Seq<u8>>, m: int) -> bool {
    &&& cells.len() == m + 1
    &&& forall|j: int| 0 <= j < m ==> #[trigger] L::decrypts(old[j], cells[j], new[j], cells[j + 1], None)
}

/// Whether some run of the first `m` inbound layers, none recognizing it, takes the cell
/// `cell` to `out`.
pub open spec fn inbound_passes<L: InboundClientLayer>(old: Seq<L>, new: Seq<L>, cell: Seq<u8>, m: int, out: Seq<u8>) -> bool {
    exists|cells: Seq<Seq<u8>>| #[trigger] inbound_trace(old, new, cells, m) && cells[0] == cell && out == cells[m]
}

/// Whether some run of the inbound layers takes the cell `cell` through the first `h`
/// layers, none recognizing it, to layer `h`, which recognizes it with the tag `tag` and
/// leaves `out`.
pub open spec fn inbound_recognized<L: InboundClientLayer>(
    old: Seq<L>,
    new: Seq<L>,
    cell: Seq<u8>,
    h: int,
    out: Seq<u8>,
    tag: Seq<u8>,
) -> bool {
    exists|cells: Seq<Seq<u8>>|
        #[trigger] inbound_trace(old, new, cells, h) && cells[0] == cell && L::decrypts(old[h], cells[h], new[h], out, Some(tag))
}

/// Whether layer `k` of the inbound layers is the first to recognize the cell `cell`, which
/// it leaves as `out` with the tag `tag`, the layers after it untouched.
pub open spec fn decrypted_at<L: InboundClientLayer>(
    old: Seq<L>,
    new: Seq<L>,
    cell: Seq<u8>,
    k: int,
    out: Seq<u8>,
    tag: Seq<u8>,
) -> bool {
    &&& 0 <= k < old.len()
    &&& forall|i: int| k < i < old.len() ==> new[i] == old[i]
    &&& inbound_recognized(old, new, cell, k, out, tag)
}

/// Whether some layer `k`, whose index cut to a byte is `hop`, is the first to recognize the
/// cell `cell`, as `decrypted_at` says.
pub open spec fn decrypted_by_hop<L: InboundClientLayer>(
    old: Seq<L>,
    new: Seq<L>,
    cell: Seq<u8>,
    hop: u8,
    out: Seq<u8>,
    tag: Seq<u8>,
) -> bool {
    exists|k: int| #[trigger] decrypted_at(old, new, cell, k, out, tag) && hop == k % 256
}

/// A relay's crypto state with a client.
pub trait RelayCrypt {
    /// Stamps a cell the relay sends toward the client.
    fn originate(&mut self, cell: &mut RelayCellBody);

    /// Encrypts a cell going toward the client.
    fn encrypt_inbound(&mut self, cell: &mut RelayCellBody);

    /// Decrypts a cell coming from the client; whether it is meant for this relay.
    fn decrypt_outbound(&mut self, cell: &mut RelayCellBody) -> bool;
}

/// A pair of a forward and a backward layer.
pub trait ClientLayer<F: OutboundClientLayer, B: InboundClientLayer> {
    /// Splits the pair into its forward and its backward layer.
    fn split(self) -> (F, B);
}

/// A client's crypto state for a whole circuit, for cells sent away from the client: one
/// layer per hop, the closest hop first.
pub struct OutboundClientCrypt<L> {
    layers: Vec<L>,
}

impl<L: OutboundClientLayer> OutboundClientCrypt<L> {
    /// The number of layers.
    pub closed spec fn layer_count(&self) -> nat {
        self.layers@.len()
    }

    /// The layers.
    pub closed spec fn spec_layers(&self) -> Seq<L> {
        self.layers@
    }

    /// No layers.
    pub fn new() -> (r: OutboundClientCrypt<L>)
        ensures
            r.layer_count() == 0,
    {
        OutboundClientCrypt { layers: Vec::new() }
    }

    /// Prepares a cell for hop `hop`: the hop's layer stamps and encrypts it, then each layer
    /// before it, back to the first, encrypts it. Returns the authentication tag of the hop's
    /// layer. A hop the circuit does not have is refused with the crypt error "No such hop",
    /// and nothing changes.
    pub fn encrypt(&mut self, cell: &mut RelayCellBody, hop: HopNum) -> (r: Result<Vec<u8>, Error>)
        ensures
            final(self).layer_count() == old(self).layer_count(),
            (hop.0 as nat) < old(self).layer_count() <==> r is Ok,
            r matches Err(e) ==> is_err_of(e, ErrKind::Crypt, "No such hop"@) && final(self).spec_layers()
                == old(self).spec_layers() && final(cell).0@ == old(cell).0@,
            forall|i: int| hop.0 < i < old(self).layer_count() ==> final(self).spec_layers()[i] == old(self).spec_layers()[i],
            r matches Ok(tag) ==> outbound_reaches(
                old(self).spec_layers(),
                final(self).spec_layers(),
                old(cell).0@,
                tag@,
                hop.0 as int,
                final(cell).0@,
            ),
    {
        let n = hop_layers(hop, self.layers.len())?;
        let mut i: usize = n - 1;
        let ghost start = cell.0@;
        let tag = self.layers[i].originate_for(cell);
        let ghost mut cells: Seq<Seq<u8>> = seq![cell.0@];
        while i > 0
            invariant
                i < n,
                n <= self.layers@.len(),
                self.layers@.len() == old(self).layers@.len(),
                n == hop.0 + 1,
                start == old(cell).0@,
                forall|k: int| n <= k < old(self).layers@.len() ==> self.layers@[k] == old(self).layers@[k],
                forall|k: int| 0 <= k < i ==> self.layers@[k] == old(self).layers@[k],
                cells.len() == n - i,
                cell.0@ == cells[cells.len() - 1],
                OutboundClientLayer::originates(old(self).layers@[n - 1], start, self.layers@[n - 1], cells[0], tag@),
                forall|k: int| 0 < k < cells.len() ==> #[trigger] L::encrypts(
                    old(self).layers@[n - 1 - k],
                    cells[k - 1],
                    self.layers@[n - 1 - k],
                    cells[k],
                ),
            decreases i,
        {
            i = i - 1;
            self.layers[i].encrypt_outbound(cell);
            proof {
                cells = cells.push(cell.0@);
            }
        }
        proof {
            assert(outbound_trace(old(self).spec_layers(), self.spec_layers(), old(cell).0@, tag@, hop.0 as int, cells));
            assert(cell.0@ == cells[hop.0 as int]);
            assert(outbound_reaches(old(self).spec_layers(), self.spec_layers(), old(cell).0@, tag@, hop.0 as int, cell.0@));
        }
        Ok(tag)
    }

    /// Adds a layer for the next hop; a circuit has fewer than 255 of them.
    pub fn add_layer(&mut self, layer: L)
        requires
            old(self).layer_count() < 255,
        ensures
            final(self).spec_layers() == old(self).spec_layers().push(layer),
    {
        self.layers.push(layer);
    }

    /// The number of layers.
    pub fn n_layers(&self) -> (r: usize)
        ensures
            r == self.layer_count(),
    {
        self.layers.len()
    }
}

/// A client's crypto state for a whole circuit, for cells coming to the client: one layer
/// per hop, the closest hop first.
pub struct InboundClientCrypt<L> {
    layers: Vec<L>,
}

impl<L: InboundClientLayer> InboundClientCrypt<L> {
    /// The number of layers.
    pub closed spec fn layer_count(&self) -> nat {
        self.layers@.len()
    }

    /// The layers.
    pub closed spec fn spec_layers(&self) -> Seq<L> {
        self.layers@
    }

    /// No layers.
    pub fn new() -> (r: InboundClientCrypt<L>)
        ensures
            r.layer_count() == 0,
    {
        InboundClientCrypt { layers: Vec::new() }
    }

    /// Removes the layers of a cell, the first hop's first, until one recognizes it as its
    /// relay's: returns that hop, its index cut to a byte, and its authentication tag. A cell no layer recognizes is
    /// refused with the crypt error "BadCellAuth". The layers after the recognizing one are
    /// not used.
    pub fn decrypt(&mut self, cell: &mut RelayCellBody) -> (r: Result<(HopNum, Vec<u8>), Error>)
        ensures
            final(self).layer_count() == old(self).layer_count(),
            r matches Ok((h, t)) ==> decrypted_by_hop(
                old(self).spec_layers(),
                final(self).spec_layers(),
                old(cell).0@,
                h.0,
                final(cell).0@,
                t@,
            ),
            r matches Err(e) ==> is_err_of(e, ErrKind::Crypt, "BadCellAuth"@) && inbound_passes(
                old(self).spec_layers(),
                final(self).spec_layers(),
                old(cell).0@,
                old(self).layer_count() as int,
                final(cell).0@,
            ),
            old(self).layer_count() == 0 ==> r is Err && final(cell).0@ == old(cell).0@,
    {
        let n = self.layers.len();
        let mut i: usize = 0;
        let ghost mut cells: Seq<Seq<u8>> = seq![cell.0@];
        while i < n
            invariant
                i <= n,
                n == self.layers@.len(),
                n == old(self).layers@.len(),
                n == 0 ==> cell.0@ == old(cell).0@,
                forall|k: int| i <= k < n ==> self.layers@[k] == old(self).layers@[k],
                inbound_trace(old(self).layers@, self.layers@, cells, i as int),
                cells[0] == old(cell).0@,
                cell.0@ == cells[i as int],
            decreases n - i,
        {
            let ghost before = cell.0@;
            match self.layers[i].decrypt_inbound(cell) {
                Some(tag) => {
                    proof {
                        assert(inbound_trace(old(self).spec_layers(), self.spec_layers(), cells, i as int));
                        assert(cells[0] == old(cell).0@);
                        assert(before == cells[i as int]);
                        assert(L::decrypts(
                            old(self).spec_layers()[i as int],
                            cells[i as int],
                            self.spec_layers()[i as int],
                            cell.0@,
                            Some(tag@),
                        ));
                        assert(inbound_recognized(
                            old(self).spec_layers(),
                            self.spec_layers(),
                            old(cell).0@,
                            i as int,
                            cell.0@,
                            tag@,
                        ));
                        assert(decrypted_at(
                            old(self).spec_layers(),
                            self.spec_layers(),
                            old(cell).0@,
                            i as int,
                            cell.0@,
                            tag@,
                        ));
                    }
                    let hop = (i % 256) as u8;
                    assert(hop == (i as int) % 256);
                    assert(decrypted_by_hop(old(self).spec_layers(), self.spec_layers(), old(cell).0@, hop, cell.0@, tag@));
                    return Ok((HopNum(hop), tag));
                },
                None => {},
            }
            proof {
                cells = cells.push(cell.0@);
                assert forall|j: int| 0 <= j < i + 1 implies #[trigger] L::decrypts(
                    old(self).layers@[j],
                    cells[j],
                    self.layers@[j],
                    cells[j + 1],
                    None,
                ) by {
                    if j < i {
                        assert(L::decrypts(old(self).layers@[j], cells[j], self.layers@[j], cells[j + 1], None));
                    }
                }
            }
            i = i + 1;
        }
        proof {
            assert(inbound_trace(old(self).spec_layers(), self.spec_layers(), cells, n as int));
            assert(inbound_passes(old(self).spec_layers(), self.spec_layers(), old(cell).0@, n as int, cell.0@));
        }
        Err(crate::error::err(ErrKind::Crypt, "BadCellAuth"))
    }

    /// Adds a layer for the next hop; a circuit has fewer than 255 of them.
    pub fn add_layer(&mut self, layer: L)
        requires
            old(self).layer_count() < 255,
        ensures
            final(self).spec_layers() == old(self).spec_layers().push(layer),
    {
        self.layers.push(layer);
    }

    /// The number of layers.
    pub fn n_layers(&self) -> (r: usize)
        ensures
            r == self.layer_count(),
    {
        self.layers.len()
    }
}

} // verus!
