use vstd::prelude::*;

verus! {

/// 256 to the power `n`.
pub open spec fn pow256(n: nat) -> nat
    decreases n,
{
    if n == 0 {
        1
    } else {
        256 * pow256((n - 1) as nat)
    }
}

/// The number that `s` writes in big-endian order, most significant byte first.
pub open spec fn be_value(s: Seq<u8>) -> nat
    decreases s.len(),
{
    if s.len() == 0 {
        0
    } else {
        be_value(s.drop_last()) * 256 + s.last() as nat
    }
}

/// The `n` big-endian bytes of `v`, that is of `v` modulo 256 to the power `n`.
pub open spec fn be_bytes(v: nat, n: nat) -> Seq<u8>
    decreases n,
{
    if n == 0 {
        Seq::empty()
    } else {
        be_bytes(v / 256, (n - 1) as nat).push((v % 256) as u8)
    }
}

/// `pow256` is positive and grows by a factor 256 at each step.
pub proof fn lemma_pow256_pos(n: nat)
    ensures
        pow256(n) > 0,
    decreases n,
{
    if n > 0 {
        lemma_pow256_pos((n - 1) as nat);
    }
}

/// The value of `n` bytes is below 256 to the power `n`.
pub proof fn lemma_be_value_bound(s: Seq<u8>)
    ensures
        be_value(s) < pow256(s.len()),
    decreases s.len(),
{
    if s.len() > 0 {
        lemma_be_value_bound(s.drop_last());
        let a = be_value(s.drop_last());
        let p = pow256((s.len() - 1) as nat);
        let b = s.last() as nat;
        assert(a * 256 + b < p * 256) by (nonlinear_arith)
            requires
                a < p,
                b < 256,
        ;
    }
}

/// Encoding `v` on `n` bytes gives `n` bytes.
pub proof fn lemma_be_bytes_len(v: nat, n: nat)
    ensures
        be_bytes(v, n).len() == n,
    decreases n,
{
    if n > 0 {
        lemma_be_bytes_len(v / 256, (n - 1) as nat);
    }
}

/// Decoding the `n` bytes of a number below 256 to the power `n` gives it back.
pub proof fn lemma_be_roundtrip(v: nat, n: nat)
    requires
        v < pow256(n),
    ensures
        be_value(be_bytes(v, n)) == v,
    decreases n,
{
    if n > 0 {
        let q = v / 256;
        let p = pow256((n - 1) as nat);
        assert(q < p) by (nonlinear_arith)
            requires
                v < 256 * p,
                q == v / 256,
        ;
        lemma_be_roundtrip(q, (n - 1) as nat);
        lemma_be_bytes_len(q, (n - 1) as nat);
        let s = be_bytes(v, n);
        assert(s.drop_last() =~= be_bytes(q, (n - 1) as nat));
        assert(v == q * 256 + v % 256) by (nonlinear_arith)
            requires
                q == v / 256,
        ;
    }
}

/// Encoding the value of some bytes on as many bytes gives them back.
pub proof fn lemma_be_bytes_of_value(s: Seq<u8>)
    ensures
        be_bytes(be_value(s), s.len()) == s,
    decreases s.len(),
{
    if s.len() > 0 {
        let a = be_value(s.drop_last());
        let b = s.last() as nat;
        let v = a * 256 + b;
        assert(v / 256 == a && v % 256 == b) by (nonlinear_arith)
            requires
                v == a * 256 + b,
                b < 256,
        ;
        lemma_be_bytes_of_value(s.drop_last());
        assert(be_bytes(v, s.len()) =~= s);
    }
}

/// Returns the number that `s[start..start + n]` writes in big-endian order.
pub fn decode_be(s: &[u8], start: usize, n: usize) -> (r: u128)
    requires
        n <= 16,
        start + n <= s@.len(),
    ensures
        r == be_value(s@.subrange(start as int, start + n)),
{
    let mut v: u128 = 0;
    let mut i: usize = 0;
    let len = s.len();
    proof {
        assert(s@.subrange(start as int, start as int) =~= Seq::<u8>::empty());
    }
    while i < n
        invariant
            n <= 16,
            start + n <= s@.len(),
            len == s@.len(),
            i <= n,
            v == be_value(s@.subrange(start as int, start + i)),
        decreases n - i,
    {
        let ghost prefix = s@.subrange(start as int, start + i);
        proof {
            lemma_be_value_bound(prefix);
            lemma_pow256_mono(i as nat, 15);
        }
        let b = s[start + i];
        assert(v * 256 + b < pow256(16)) by {
            let p = pow256(i as nat);
            assert(v * 256 + b < p * 256) by (nonlinear_arith)
                requires
                    v < p,
                    b < 256,
            ;
            assert(p * 256 <= pow256(15) * 256) by (nonlinear_arith)
                requires
                    p <= pow256(15),
            ;
            assert(pow256(16) == 256 * pow256(15));
        }
        assert(pow256(16) == 0x1_0000_0000_0000_0000_0000_0000_0000_0000) by {
            reveal_with_fuel(pow256, 17);
        }
        v = v * 256 + b as u128;
        assert(s@.subrange(start as int, start + i + 1).drop_last() =~= prefix);
        i = i + 1;
    }
    v
}

/// `pow256` does not shrink.
pub proof fn lemma_pow256_mono(a: nat, b: nat)
    requires
        a <= b,
    ensures
        pow256(a) <= pow256(b),
    decreases b,
{
    if a < b {
        lemma_pow256_mono(a, (b - 1) as nat);
        lemma_pow256_pos((b - 1) as nat);
    }
}

/// Appends the `n` big-endian bytes of `v` to `out`.
pub fn push_be(out: &mut Vec<u8>, v: u128, n: usize)
    requires
        n <= 16,
    ensures
        final(out)@ == old(out)@ + be_bytes(v as nat, n as nat),
    decreases n,
{
    if n > 0 {
        push_be(out, v / 256, n - 1);
        out.push((v % 256) as u8);
        proof {
            assert(old(out)@ + be_bytes(v as nat, n as nat) =~= out@);
        }
    } else {
        assert(old(out)@ + be_bytes(v as nat, n as nat) =~= out@);
    }
}

} // verus!
