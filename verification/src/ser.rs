use vstd::prelude::*;
use crate::bytes::{be_bytes, be_value, decode_be, lemma_be_bytes_len, lemma_be_bytes_of_value, lemma_be_roundtrip, lemma_be_value_bound, pow256, push_be};
use crate::error::{err, from_foreign, is_err_of, ErrKind, Error, ForeignError};
use vstd::string::StringSliceAdditionalSpecFns;
use vstd::utf8::{char_u32_cast, decode_utf8, encode_utf8, valid_utf8};
use crate::cell::utf8_string;

verus! {

/// The `n` big-endian bytes of `v`.
pub fn be_vec(v: u128, n: usize) -> (r: Vec<u8>)
    requires
        n <= 16,
    ensures
        r@ == be_bytes(v as nat, n as nat),
{
    let mut r: Vec<u8> = Vec::new();
    push_be(&mut r, v, n);
    assert(r@ =~= be_bytes(v as nat, n as nat));
    r
}

/// What a sink of bytes holds: the bytes written so far, whether it takes every byte, and
/// how it refuses bytes.
pub trait WriterState: Sized {
    /// The bytes written so far.
    spec fn written(&self) -> Seq<u8>;

    /// Whether the writer takes every byte it is given, as a writer into memory does.
    spec fn never_fails(&self) -> bool;

    /// Whether the writer in state `before`, given `bytes`, can refuse them with the error
    /// `e` and be left in state `after`.
    spec fn refuses(before: Self, bytes: Seq<u8>, after: Self, e: Error) -> bool;
}

/// Whether a writer asked in state `before` to write `bytes` wrote a first part of them,
/// was then refused the piece that follows with the error `e`, and was left in state
/// `after` by that refusal, with nothing written after it.
pub open spec fn stopped_at_refusal<W: WriterState>(before: W, bytes: Seq<u8>, after: W, e: Error) -> bool {
    exists|k: int, mid: W, piece: Seq<u8>|
        #![trigger W::refuses(mid, piece, after, e), bytes.subrange(0, k)]
        0 <= k && k + piece.len() <= bytes.len() && W::refuses(mid, piece, after, e) && mid.written()
            == before.written() + bytes.subrange(0, k) && piece == bytes.subrange(k, k + piece.len())
}

/// A refusal of all the bytes at once stops the writing at its start.
pub proof fn lemma_result_refused<W: WriterState>(before: W, bytes: Seq<u8>, after: W, r: Result<(), Error>)
    requires
        r matches Err(e) ==> W::refuses(before, bytes, after, e),
    ensures
        r matches Err(e) ==> stopped_at_refusal(before, bytes, after, e),
{
    if let Err(e) = r {
        assert(before.written() + bytes.subrange(0, 0) =~= before.written());
        assert(bytes.subrange(0, bytes.len() as int) =~= bytes);
        assert(W::refuses(before, bytes, after, e) && bytes.subrange(0, 0) == bytes.subrange(0, 0));
    }
}

/// Writing stopped within `a` stopped within any bytes that begin with `a`.
pub proof fn lemma_refused_prefix<W: WriterState>(before: W, a: Seq<u8>, c: Seq<u8>, after: W, e: Error)
    requires
        stopped_at_refusal(before, a, after, e),
        a.len() <= c.len(),
        c.subrange(0, a.len() as int) == a,
    ensures
        stopped_at_refusal(before, c, after, e),
{
    let (k, mid, piece) = choose|k: int, mid: W, piece: Seq<u8>|
        #![trigger W::refuses(mid, piece, after, e), a.subrange(0, k)]
        0 <= k && k + piece.len() <= a.len() && W::refuses(mid, piece, after, e) && mid.written()
            == before.written() + a.subrange(0, k) && piece == a.subrange(k, k + piece.len());
    assert(c.subrange(0, k) =~= a.subrange(0, k));
    assert(c.subrange(k, k + piece.len()) =~= a.subrange(k, k + piece.len()));
}

/// Writing that stopped within `b`, after `a` was written, stopped within `a + b`.
pub proof fn lemma_refused_later<W: WriterState>(before: W, a: Seq<u8>, mid: W, b: Seq<u8>, after: W, e: Error)
    requires
        mid.written() == before.written() + a,
        stopped_at_refusal(mid, b, after, e),
    ensures
        stopped_at_refusal(before, a + b, after, e),
{
    let (k, m, piece) = choose|k: int, m: W, piece: Seq<u8>|
        #![trigger W::refuses(m, piece, after, e), b.subrange(0, k)]
        0 <= k && k + piece.len() <= b.len() && W::refuses(m, piece, after, e) && m.written()
            == mid.written() + b.subrange(0, k) && piece == b.subrange(k, k + piece.len());
    let c = a + b;
    let k2 = a.len() + k;
    assert(c.subrange(0, k2) =~= a + b.subrange(0, k));
    assert(c.subrange(k2, k2 + piece.len()) =~= b.subrange(k, k + piece.len()));
    assert(m.written() =~= before.written() + c.subrange(0, k2));
}

/// A sink of bytes.
pub trait Writer: WriterState {
    /// Writes `bytes` as they are. A writer that never fails succeeds; a refusal is its own.
    fn write_fixed_bytes(&mut self, bytes: &[u8]) -> (r: Result<(), Error>)
        ensures
            r is Ok ==> final(self).written() == old(self).written() + bytes@,
            r matches Err(e) ==> Self::refuses(*old(self), bytes@, *final(self), e),
            old(self).never_fails() ==> r is Ok,
            final(self).never_fails() == old(self).never_fails(),
    ;

    /// Writes one byte.
    fn write_u8(&mut self, n: u8) -> (r: Result<(), Error>)
        ensures
            old(self).never_fails() ==> r is Ok,
            final(self).never_fails() == old(self).never_fails(),
            r is Ok ==> final(self).written() == old(self).written() + seq![n],
            r matches Err(e) ==> stopped_at_refusal(*old(self), seq![n], *final(self), e),
    {
        let b: Vec<u8> = vec![n];
        assert(b@ =~= seq![n]);
        let r = self.write_fixed_bytes(b.as_slice());
        proof {
            lemma_result_refused(*old(self), b@, *self, r);
        }
        r
    }

    /// Writes one byte, the two's complement of `n`.
    fn write_i8(&mut self, n: i8) -> (r: Result<(), Error>)
        ensures
            old(self).never_fails() ==> r is Ok,
            final(self).never_fails() == old(self).never_fails(),
            r is Ok ==> final(self).written() == old(self).written() + seq![n as u8],
            r matches Err(e) ==> stopped_at_refusal(*old(self), seq![n as u8], *final(self), e),
    {
        let b: Vec<u8> = vec![n as u8];
        assert(b@ =~= seq![n as u8]);
        let r = self.write_fixed_bytes(b.as_slice());
        proof {
            lemma_result_refused(*old(self), b@, *self, r);
        }
        r
    }

    /// Writes the two big-endian bytes of `n`.
    fn write_u16(&mut self, n: u16) -> (r: Result<(), Error>)
        ensures
            old(self).never_fails() ==> r is Ok,
            final(self).never_fails() == old(self).never_fails(),
            r is Ok ==> final(self).written() == old(self).written() + be_bytes(n as nat, 2),
            r matches Err(e) ==> stopped_at_refusal(*old(self), be_bytes(n as nat, 2), *final(self), e),
    {
        let b = be_vec(n as u128, 2);
        let r = self.write_fixed_bytes(b.as_slice());
        proof {
            lemma_result_refused(*old(self), b@, *self, r);
        }
        r
    }

    /// Writes the two big-endian bytes of the two's complement of `n`.
    fn write_i16(&mut self, n: i16) -> (r: Result<(), Error>)
        ensures
            old(self).never_fails() ==> r is Ok,
            final(self).never_fails() == old(self).never_fails(),
            r is Ok ==> final(self).written() == old(self).written() + be_bytes((n as u16) as nat, 2),
            r matches Err(e) ==> stopped_at_refusal(*old(self), be_bytes((n as u16) as nat, 2), *final(self), e),
    {
        let b = be_vec(n as u16 as u128, 2);
        let r = self.write_fixed_bytes(b.as_slice());
        proof {
            lemma_result_refused(*old(self), b@, *self, r);
        }
        r
    }

    /// Writes the four big-endian bytes of `n`.
    fn write_u32(&mut self, n: u32) -> (r: Result<(), Error>)
        ensures
            old(self).never_fails() ==> r is Ok,
            final(self).never_fails() == old(self).never_fails(),
            r is Ok ==> final(self).written() == old(self).written() + be_bytes(n as nat, 4),
            r matches Err(e) ==> stopped_at_refusal(*old(self), be_bytes(n as nat, 4), *final(self), e),
    {
        let b = be_vec(n as u128, 4);
        let r = self.write_fixed_bytes(b.as_slice());
        proof {
            lemma_result_refused(*old(self), b@, *self, r);
        }
        r
    }

    /// Writes the four big-endian bytes of the two's complement of `n`.
    fn write_i32(&mut self, n: i32) -> (r: Result<(), Error>)
        ensures
            old(self).never_fails() ==> r is Ok,
            final(self).never_fails() == old(self).never_fails(),
            r is Ok ==> final(self).written() == old(self).written() + be_bytes((n as u32) as nat, 4),
            r matches Err(e) ==> stopped_at_refusal(*old(self), be_bytes((n as u32) as nat, 4), *final(self), e),
    {
        let b = be_vec(n as u32 as u128, 4);
        let r = self.write_fixed_bytes(b.as_slice());
        proof {
            lemma_result_refused(*old(self), b@, *self, r);
        }
        r
    }

    /// Writes the eight big-endian bytes of `n`.
    fn write_u64(&mut self, n: u64) -> (r: Result<(), Error>)
        ensures
            old(self).never_fails() ==> r is Ok,
            final(self).never_fails() == old(self).never_fails(),
            r is Ok ==> final(self).written() == old(self).written() + be_bytes(n as nat, 8),
            r matches Err(e) ==> stopped_at_refusal(*old(self), be_bytes(n as nat, 8), *final(self), e),
    {
        let b = be_vec(n as u128, 8);
        let r = self.write_fixed_bytes(b.as_slice());
        proof {
            lemma_result_refused(*old(self), b@, *self, r);
        }
        r
    }

    /// Writes the eight big-endian bytes of the two's complement of `n`.
    fn write_i64(&mut self, n: i64) -> (r: Result<(), Error>)
        ensures
            old(self).never_fails() ==> r is Ok,
            final(self).never_fails() == old(self).never_fails(),
            r is Ok ==> final(self).written() == old(self).written() + be_bytes((n as u64) as nat, 8),
            r matches Err(e) ==> stopped_at_refusal(*old(self), be_bytes((n as u64) as nat, 8), *final(self), e),
    {
        let b = be_vec(n as u64 as u128, 8);
        let r = self.write_fixed_bytes(b.as_slice());
        proof {
            lemma_result_refused(*old(self), b@, *self, r);
        }
        r
    }

    /// Writes the sixteen big-endian bytes of `n`.
    fn write_u128(&mut self, n: u128) -> (r: Result<(), Error>)
        ensures
            old(self).never_fails() ==> r is Ok,
            final(self).never_fails() == old(self).never_fails(),
            r is Ok ==> final(self).written() == old(self).written() + be_bytes(n as nat, 16),
            r matches Err(e) ==> stopped_at_refusal(*old(self), be_bytes(n as nat, 16), *final(self), e),
    {
        let b = be_vec(n, 16);
        let r = self.write_fixed_bytes(b.as_slice());
        proof {
            lemma_result_refused(*old(self), b@, *self, r);
        }
        r
    }

    /// Writes the sixteen big-endian bytes of the two's complement of `n`.
    fn write_i128(&mut self, n: i128) -> (r: Result<(), Error>)
        ensures
            old(self).never_fails() ==> r is Ok,
            final(self).never_fails() == old(self).never_fails(),
            r is Ok ==> final(self).written() == old(self).written() + be_bytes((n as u128) as nat, 16),
            r matches Err(e) ==> stopped_at_refusal(*old(self), be_bytes((n as u128) as nat, 16), *final(self), e),
    {
        let b = be_vec(n as u128, 16);
        let r = self.write_fixed_bytes(b.as_slice());
        proof {
            lemma_result_refused(*old(self), b@, *self, r);
        }
        r
    }

    /// Writes the eight big-endian bytes of `n`.
    fn write_usize(&mut self, n: usize) -> (r: Result<(), Error>)
        ensures
            old(self).never_fails() ==> r is Ok,
            final(self).never_fails() == old(self).never_fails(),
            r is Ok ==> final(self).written() == old(self).written() + be_bytes(n as nat, 8),
            r matches Err(e) ==> stopped_at_refusal(*old(self), be_bytes(n as nat, 8), *final(self), e),
    {
        let b = be_vec(n as u128, 8);
        let r = self.write_fixed_bytes(b.as_slice());
        proof {
            lemma_result_refused(*old(self), b@, *self, r);
        }
        r
    }

    /// Writes the length of `bytes` as eight big-endian bytes, then `bytes`.
    fn write_bytes(&mut self, bytes: &[u8]) -> (r: Result<(), Error>)
        ensures
            old(self).never_fails() ==> r is Ok,
            final(self).never_fails() == old(self).never_fails(),
            r is Ok ==> final(self).written() == old(self).written() + be_bytes(bytes@.len(), 8) + bytes@,
            r matches Err(e) ==> stopped_at_refusal(*old(self), be_bytes(bytes@.len(), 8) + bytes@, *final(self), e),
    {
        let n = bytes.len();
        match self.write_u64(n as u64) {
            Ok(()) => {},
            Err(e) => {
                proof {
                    lemma_be_bytes_len(n as nat, 8);
                    assert((be_bytes(n as nat, 8) + bytes@).subrange(0, 8) =~= be_bytes(n as nat, 8));
                    lemma_refused_prefix(*old(self), be_bytes(n as nat, 8), be_bytes(n as nat, 8) + bytes@, *self, e);
                }
                return Err(e);
            },
        }
        let ghost mid = *self;
        let r = self.write_fixed_bytes(bytes);
        proof {
            lemma_result_refused(mid, bytes@, *self, r);
            if r is Err {
                lemma_refused_later(*old(self), be_bytes(n as nat, 8), mid, bytes@, *self, r->Err_0);
            }
        }
        r
    }

    /// Writes `length` zero bytes.
    fn write_empty_bytes(&mut self, length: usize) -> (r: Result<(), Error>)
        ensures
            old(self).never_fails() ==> r is Ok,
            final(self).never_fails() == old(self).never_fails(),
            r is Ok ==> final(self).written() == old(self).written() + Seq::new(length as nat, |i: int| 0u8),
            r matches Err(e) ==> stopped_at_refusal(*old(self), Seq::new(length as nat, |i: int| 0u8), *final(self), e),
    {
        let mut i: usize = 0;
        while i < length
            invariant
                i <= length,
                self.never_fails() == old(self).never_fails(),
                self.written() == old(self).written() + Seq::new(i as nat, |k: int| 0u8),
            decreases length - i,
        {
            let ghost mid = *self;
            match self.write_u8(0) {
                Ok(()) => {},
                Err(e) => {
                    proof {
                        let zeros = Seq::new(i as nat, |k: int| 0u8);
                        lemma_refused_later(*old(self), zeros, mid, seq![0u8], *self, e);
                        let all = Seq::new(length as nat, |k: int| 0u8);
                        assert((zeros + seq![0u8]) =~= all.subrange(0, i + 1));
                        lemma_refused_prefix(*old(self), zeros + seq![0u8], all, *self, e);
                    }
                    return Err(e);
                },
            }
            assert(Seq::new((i + 1) as nat, |k: int| 0u8) =~= Seq::new(i as nat, |k: int| 0u8) + seq![0u8]);
            i = i + 1;
        }
        Ok(())
    }
}

/// A source of bytes.
pub trait Reader {
    /// The bytes not read yet.
    spec fn remaining(&self) -> Seq<u8>;

    /// Whether the reader fails only when too few bytes remain, as a reader of memory does.
    spec fn fails_only_at_end(&self) -> bool;

    /// Fills `buf` with the next bytes.
    fn read_fixed_bytes(&mut self, buf: &mut [u8]) -> (r: Result<(), Error>)
        ensures
            final(buf)@.len() == old(buf)@.len(),
            r is Ok ==> old(self).remaining().len() >= old(buf)@.len() && final(buf)@ == old(self).remaining().subrange(
                0,
                old(buf)@.len() as int,
            ) && final(self).remaining() == old(self).remaining().subrange(
                old(buf)@.len() as int,
                old(self).remaining().len() as int,
            ),
            old(self).fails_only_at_end() ==> (r is Ok <==> old(self).remaining().len() >= old(buf)@.len()),
            final(self).fails_only_at_end() == old(self).fails_only_at_end(),
    ;

    /// Reads the number written by the next `n` big-endian bytes.
    fn read_be(&mut self, n: usize) -> (r: Result<u128, Error>)
        requires
            n <= 16,
        ensures
            final(self).fails_only_at_end() == old(self).fails_only_at_end(),
            old(self).fails_only_at_end() ==> (r is Ok <==> old(self).remaining().len() >= n),
            r matches Ok(v) ==> old(self).remaining().len() >= n && v == be_value(old(self).remaining().subrange(0, n as int))
                && final(self).remaining() == old(self).remaining().subrange(n as int, old(self).remaining().len() as int),
    {
        let mut b: Vec<u8> = vec![0u8; n];
        self.read_fixed_bytes(b.as_mut_slice())?;
        assert(b@.subrange(0, n as int) =~= b@);
        Ok(decode_be(b.as_slice(), 0, n))
    }

    /// Reads one byte.
    fn read_u8(&mut self) -> (r: Result<u8, Error>)
        ensures
            final(self).fails_only_at_end() == old(self).fails_only_at_end(),
            old(self).fails_only_at_end() ==> (r is Ok <==> old(self).remaining().len() >= 1),
            r matches Ok(v) ==> old(self).remaining().len() >= 1 && v == old(self).remaining()[0] && final(self).remaining()
                == old(self).remaining().subrange(1, old(self).remaining().len() as int),
    {
        let v = self.read_be(1)?;
        proof {
            lemma_one_byte(old(self).remaining().subrange(0, 1));
        }
        Ok(v as u8)
    }

    /// Reads one byte as a two's complement number.
    fn read_i8(&mut self) -> (r: Result<i8, Error>)
        ensures
            final(self).fails_only_at_end() == old(self).fails_only_at_end(),
            old(self).fails_only_at_end() ==> (r is Ok <==> old(self).remaining().len() >= 1),
            r matches Ok(v) ==> old(self).remaining().len() >= 1 && v == old(self).remaining()[0] as i8 && final(self).remaining() == old(self).remaining().subrange(1, old(self).remaining().len() as int),
    {
        let v = self.read_u8()?;
        Ok(v as i8)
    }

    /// Reads a number from two big-endian bytes.
    fn read_u16(&mut self) -> (r: Result<u16, Error>)
        ensures
            final(self).fails_only_at_end() == old(self).fails_only_at_end(),
            old(self).fails_only_at_end() ==> (r is Ok <==> old(self).remaining().len() >= 2),
            r matches Ok(v) ==> old(self).remaining().len() >= 2 && v as nat == be_value(old(self).remaining().subrange(0, 2))
                && final(self).remaining() == old(self).remaining().subrange(2, old(self).remaining().len() as int),
    {
        let v = self.read_be(2)?;
        proof {
            lemma_be_value_bound(old(self).remaining().subrange(0, 2));
            reveal_with_fuel(pow256, 3);
        }
        Ok(v as u16)
    }

    /// Reads a two's complement number from two big-endian bytes.
    fn read_i16(&mut self) -> (r: Result<i16, Error>)
        ensures
            final(self).fails_only_at_end() == old(self).fails_only_at_end(),
            old(self).fails_only_at_end() ==> (r is Ok <==> old(self).remaining().len() >= 2),
            r matches Ok(v) ==> old(self).remaining().len() >= 2 && v == (be_value(old(self).remaining().subrange(0, 2)) as u16) as i16
                && final(self).remaining() == old(self).remaining().subrange(2, old(self).remaining().len() as int),
    {
        let v = self.read_u16()?;
        Ok(v as i16)
    }

    /// Reads a number from four big-endian bytes.
    fn read_u32(&mut self) -> (r: Result<u32, Error>)
        ensures
            final(self).fails_only_at_end() == old(self).fails_only_at_end(),
            old(self).fails_only_at_end() ==> (r is Ok <==> old(self).remaining().len() >= 4),
            r matches Ok(v) ==> old(self).remaining().len() >= 4 && v as nat == be_value(old(self).remaining().subrange(0, 4))
                && final(self).remaining() == old(self).remaining().subrange(4, old(self).remaining().len() as int),
    {
        let v = self.read_be(4)?;
        proof {
            lemma_be_value_bound(old(self).remaining().subrange(0, 4));
            reveal_with_fuel(pow256, 5);
        }
        Ok(v as u32)
    }

    /// Reads a two's complement number from four big-endian bytes.
    fn read_i32(&mut self) -> (r: Result<i32, Error>)
        ensures
            final(self).fails_only_at_end() == old(self).fails_only_at_end(),
            old(self).fails_only_at_end() ==> (r is Ok <==> old(self).remaining().len() >= 4),
            r matches Ok(v) ==> old(self).remaining().len() >= 4 && v == (be_value(old(self).remaining().subrange(0, 4)) as u32) as i32
                && final(self).remaining() == old(self).remaining().subrange(4, old(self).remaining().len() as int),
    {
        let v = self.read_u32()?;
        Ok(v as i32)
    }

    /// Reads a number from eight big-endian bytes.
    fn read_u64(&mut self) -> (r: Result<u64, Error>)
        ensures
            final(self).fails_only_at_end() == old(self).fails_only_at_end(),
            old(self).fails_only_at_end() ==> (r is Ok <==> old(self).remaining().len() >= 8),
            r matches Ok(v) ==> old(self).remaining().len() >= 8 && v as nat == be_value(old(self).remaining().subrange(0, 8))
                && final(self).remaining() == old(self).remaining().subrange(8, old(self).remaining().len() as int),
    {
        let v = self.read_be(8)?;
        proof {
            lemma_be_value_bound(old(self).remaining().subrange(0, 8));
            reveal_with_fuel(pow256, 9);
        }
        Ok(v as u64)
    }

    /// Reads a two's complement number from eight big-endian bytes.
    fn read_i64(&mut self) -> (r: Result<i64, Error>)
        ensures
            final(self).fails_only_at_end() == old(self).fails_only_at_end(),
            old(self).fails_only_at_end() ==> (r is Ok <==> old(self).remaining().len() >= 8),
            r matches Ok(v) ==> old(self).remaining().len() >= 8 && v == (be_value(old(self).remaining().subrange(0, 8)) as u64) as i64
                && final(self).remaining() == old(self).remaining().subrange(8, old(self).remaining().len() as int),
    {
        let v = self.read_u64()?;
        Ok(v as i64)
    }

    /// Reads a number from sixteen big-endian bytes.
    fn read_u128(&mut self) -> (r: Result<u128, Error>)
        ensures
            final(self).fails_only_at_end() == old(self).fails_only_at_end(),
            old(self).fails_only_at_end() ==> (r is Ok <==> old(self).remaining().len() >= 16),
            r matches Ok(v) ==> old(self).remaining().len() >= 16 && v as nat == be_value(old(self).remaining().subrange(0, 16))
                && final(self).remaining() == old(self).remaining().subrange(16, old(self).remaining().len() as int),
    {
        self.read_be(16)
    }

    /// Reads a two's complement number from sixteen big-endian bytes.
    fn read_i128(&mut self) -> (r: Result<i128, Error>)
        ensures
            final(self).fails_only_at_end() == old(self).fails_only_at_end(),
            old(self).fails_only_at_end() ==> (r is Ok <==> old(self).remaining().len() >= 16),
            r matches Ok(v) ==> old(self).remaining().len() >= 16 && v == (be_value(old(self).remaining().subrange(0, 16)) as u128) as i128
                && final(self).remaining() == old(self).remaining().subrange(16, old(self).remaining().len() as int),
    {
        let v = self.read_u128()?;
        Ok(v as i128)
    }

    /// Reads a number from eight big-endian bytes; one that does not fit a `usize` is
    /// refused as corrupted data.
    fn read_usize(&mut self) -> (r: Result<usize, Error>)
        ensures
            final(self).fails_only_at_end() == old(self).fails_only_at_end(),
            old(self).fails_only_at_end() ==> (r is Ok <==> old(self).remaining().len() >= 8 && be_value(old(self).remaining().subrange(0, 8)) <= usize::MAX),
            old(self).remaining().len() >= 8 && be_value(old(self).remaining().subrange(0, 8)) > usize::MAX ==> r is Err,
            old(self).fails_only_at_end() && old(self).remaining().len() >= 8 && be_value(old(self).remaining().subrange(0, 8)) > usize::MAX ==> (r matches Err(e) && is_err_of(e, ErrKind::CorruptedData, "usize overflow"@)),
            r matches Ok(v) ==> old(self).remaining().len() >= 8 && v as nat == be_value(old(self).remaining().subrange(0, 8))
                && final(self).remaining() == old(self).remaining().subrange(8, old(self).remaining().len() as int),
    {
        let v = self.read_u64()?;
        if v as u128 > usize::MAX as u128 {
            return Err(err(ErrKind::CorruptedData, "usize overflow"));
        }
        Ok(v as usize)
    }

    /// Reads one byte, which must be `val` (else corrupted data).
    fn expect_u8(&mut self, val: u8) -> (r: Result<u8, Error>)
        ensures
            final(self).fails_only_at_end() == old(self).fails_only_at_end(),
            old(self).fails_only_at_end() ==> (r is Ok <==> old(self).remaining().len() >= 1 && old(self).remaining()[0] == val),
            old(self).remaining().len() >= 1 && old(self).remaining()[0] != val ==> r is Err,
            old(self).fails_only_at_end() && old(self).remaining().len() >= 1 && old(self).remaining()[0] != val ==> (r matches Err(e) && is_err_of(e, ErrKind::CorruptedData, "expected value not found"@)),
            r matches Ok(v) ==> v == val && old(self).remaining().len() >= 1 && old(self).remaining()[0] == val && final(self).remaining() == old(self).remaining().subrange(1, old(self).remaining().len() as int),
    {
        let v = self.read_u8()?;
        if v != val {
            return Err(err(ErrKind::CorruptedData, "expected value not found"));
        }
        Ok(v)
    }

    /// Reads `length` bytes, which must all be zero (else corrupted data, "expected 0u8").
    fn read_empty_bytes(&mut self, length: usize) -> (r: Result<(), Error>)
        ensures
            final(self).fails_only_at_end() == old(self).fails_only_at_end(),
            old(self).fails_only_at_end() ==> (r is Ok <==> old(self).remaining().len() >= length && old(self).remaining().subrange(0, length as int) == Seq::new(length as nat, |i: int| 0u8)),
            old(self).fails_only_at_end() && (exists|k: int| 0 <= k < length && k < old(self).remaining().len() && old(self).remaining()[k] != 0) ==> (r matches Err(e) && is_err_of(e, ErrKind::CorruptedData, "expected 0u8"@)),
            r is Ok ==> old(self).remaining().len() >= length && old(self).remaining().subrange(0, length as int)
                == Seq::new(length as nat, |i: int| 0u8) && final(self).remaining() == old(self).remaining().subrange(
                length as int,
                old(self).remaining().len() as int,
            ),
            forall|k: int|
                old(self).fails_only_at_end() && 0 <= k < length && k < old(self).remaining().len()
                    && #[trigger] old(self).remaining()[k] != 0 && old(self).remaining().subrange(0, k) == Seq::new(
                    k as nat,
                    |i: int| 0u8,
                ) ==> (r matches Err(e) && is_err_of(e, ErrKind::CorruptedData, "expected 0u8"@)
                    && final(self).remaining() == old(self).remaining().subrange(k + 1, old(self).remaining().len() as int)),
    {
        let ghost r0 = self.remaining();
        let mut i: usize = 0;
        while i < length
            invariant
                i <= length,
                r0 == old(self).remaining(),
                r0.len() >= i,
                r0.subrange(0, i as int) == Seq::new(i as nat, |k: int| 0u8),
                self.remaining() == r0.subrange(i as int, r0.len() as int),
                self.fails_only_at_end() == old(self).fails_only_at_end(),
            decreases length - i,
        {
            let ghost before = self.remaining();
            let rb = self.read_u8();
            let b = match rb {
                Ok(b) => b,
                Err(e) => {
                    proof {
                        if self.fails_only_at_end() {
                            assert(r0.len() == i);
                            assert forall|k: int| 0 <= k < length && k < r0.len() implies #[trigger] r0[k] == 0 by {
                                assert(r0.subrange(0, i as int)[k] == 0);
                            }
                        }
                    }
                    return Err(e);
                },
            };
            if b != 0u8 {
                proof {
                    assert(before[0] == r0[i as int]);
                    if r0.len() >= length {
                        assert(r0.subrange(0, length as int)[i as int] != 0u8);
                        assert(r0.subrange(0, length as int) != Seq::new(length as nat, |k: int| 0u8));
                    }
                    assert(self.remaining() =~= r0.subrange(i + 1, r0.len() as int));
                    assert forall|k: int|
                        old(self).fails_only_at_end() && 0 <= k < length && k < r0.len() && #[trigger] r0[k] != 0
                            && r0.subrange(0, k) == Seq::new(k as nat, |j: int| 0u8) implies k == i by {
                        if k < i {
                            assert(r0.subrange(0, i as int)[k] == 0);
                        }
                        if k > i {
                            assert(r0.subrange(0, k)[i as int] == 0);
                        }
                    }
                }
                return Err(err(ErrKind::CorruptedData, "expected 0u8"));
            }
            assert(r0.subrange(0, i + 1) =~= Seq::new((i + 1) as nat, |k: int| 0u8)) by {
                assert(before[0] == r0[i as int]);
            }
            assert(self.remaining() =~= r0.subrange(i + 1, r0.len() as int));
            i = i + 1;
        }
        assert forall|k: int| 0 <= k < length && k < r0.len() implies #[trigger] r0[k] == 0 by {
            assert(r0.subrange(0, i as int)[k] == 0);
        }
        Ok(())
    }
}

/// Bytes that split two ways behind prefixes of one length leave one rest.
proof fn lemma_prefix_rest(before: Seq<u8>, p1: Seq<u8>, a1: Seq<u8>, p2: Seq<u8>, a2: Seq<u8>)
    requires
        before == p1 + a1,
        before == p2 + a2,
        p1.len() == p2.len(),
    ensures
        a1 == a2,
        p1 == p2,
{
    assert(p1 =~= before.subrange(0, p1.len() as int));
    assert(p2 =~= before.subrange(0, p2.len() as int));
    assert(a1 =~= before.subrange(p1.len() as int, before.len() as int));
    assert(a2 =~= before.subrange(p2.len() as int, before.len() as int));
}

/// One byte's big-endian value is the byte.
proof fn lemma_one_byte(s: Seq<u8>)
    requires
        s.len() == 1,
    ensures
        be_value(s) == s[0],
{
    assert(s.drop_last().len() == 0);
    assert(be_value(s.drop_last()) == 0);
}

/// A value that writes itself to a [`Writer`] and reads itself back from a [`Reader`].
pub trait Serializable: Sized {
    /// The bytes that encode the value.
    spec fn ser_bytes(&self) -> Seq<u8>;

    /// Whether reading `v` from the bytes `before` leaves the bytes `after`.
    spec fn reads(before: Seq<u8>, after: Seq<u8>, v: Self) -> bool;

    /// Whether the value reads back as itself from the bytes it writes.
    spec fn round_trips(&self) -> bool;

    /// The bytes a value writes are readable and read back as that value, leaving what
    /// follows them, for a value that round-trips.
    proof fn lemma_roundtrip(v: Self, rest: Seq<u8>)
        requires
            v.round_trips(),
        ensures
            Self::reads(v.ser_bytes() + rest, rest, v),
            Self::readable(v.ser_bytes() + rest),
    ;

    /// Whether a reader that fails only at the end reads a value from the bytes `before`.
    spec fn readable(before: Seq<u8>) -> bool;

    /// Reading from the same bytes leaves the same rest and gives values that write the
    /// same bytes.
    proof fn lemma_reads_unique(before: Seq<u8>, after1: Seq<u8>, after2: Seq<u8>, v1: Self, v2: Self)
        requires
            Self::reads(before, after1, v1),
            Self::reads(before, after2, v2),
        ensures
            after1 == after2,
            v1.ser_bytes() == v2.ser_bytes(),
    ;

    /// Reads a value. A reader that fails only at the end succeeds exactly on readable
    /// bytes.
    fn read<R: Reader>(reader: &mut R) -> (r: Result<Self, Error>)
        ensures
            r matches Ok(v) ==> Self::reads(old(reader).remaining(), final(reader).remaining(), v),
            old(reader).fails_only_at_end() ==> (r is Ok <==> Self::readable(old(reader).remaining())),
            final(reader).fails_only_at_end() == old(reader).fails_only_at_end(),
    ;

    /// Writes the value.
    /// Writes the value; a writer that never fails succeeds.
    fn write<W: Writer>(&self, writer: &mut W) -> (r: Result<(), Error>)
        ensures
            r is Ok ==> final(writer).written() == old(writer).written() + self.ser_bytes(),
            r matches Err(e) ==> stopped_at_refusal(*old(writer), self.ser_bytes(), *final(writer), e),
            old(writer).never_fails() ==> r is Ok,
            final(writer).never_fails() == old(writer).never_fails(),
    ;
}

impl Serializable for u8 {
    open spec fn ser_bytes(&self) -> Seq<u8> {
        seq![*self]
    }

    open spec fn reads(before: Seq<u8>, after: Seq<u8>, v: u8) -> bool {
        before == seq![v] + after
    }

    open spec fn round_trips(&self) -> bool {
        true
    }

    proof fn lemma_roundtrip(v: u8, rest: Seq<u8>) {
    }

    open spec fn readable(before: Seq<u8>) -> bool {
        before.len() >= 1
    }

    proof fn lemma_reads_unique(before: Seq<u8>, after1: Seq<u8>, after2: Seq<u8>, v1: u8, v2: u8) {
        lemma_prefix_rest(before, v1.ser_bytes(), after1, v2.ser_bytes(), after2);
    }

    fn read<R: Reader>(reader: &mut R) -> (r: Result<u8, Error>) {
        let v = reader.read_u8()?;
        assert(old(reader).remaining() =~= seq![v] + reader.remaining());
        Ok(v)
    }

    fn write<W: Writer>(&self, writer: &mut W) -> (r: Result<(), Error>) {
        writer.write_u8(*self)
    }
}

impl Serializable for u16 {
    open spec fn ser_bytes(&self) -> Seq<u8> {
        be_bytes(*self as nat, 2)
    }

    open spec fn reads(before: Seq<u8>, after: Seq<u8>, v: u16) -> bool {
        before == v.ser_bytes() + after
    }

    open spec fn round_trips(&self) -> bool {
        true
    }

    proof fn lemma_roundtrip(v: u16, rest: Seq<u8>) {
        lemma_be_bytes_len(v as nat, 2);
    }

    open spec fn readable(before: Seq<u8>) -> bool {
        before.len() >= 2
    }

    proof fn lemma_reads_unique(before: Seq<u8>, after1: Seq<u8>, after2: Seq<u8>, v1: u16, v2: u16) {
        lemma_be_bytes_len(v1 as nat, 2);
        lemma_be_bytes_len(v2 as nat, 2);
        lemma_prefix_rest(before, v1.ser_bytes(), after1, v2.ser_bytes(), after2);
    }

    fn read<R: Reader>(reader: &mut R) -> (r: Result<u16, Error>) {
        let v = reader.read_u16()?;
        proof {
            let used = old(reader).remaining().subrange(0, 2);
            lemma_be_bytes_of_value(used);
            assert(old(reader).remaining() =~= used + reader.remaining());
        }
        Ok(v)
    }

    fn write<W: Writer>(&self, writer: &mut W) -> (r: Result<(), Error>) {
        writer.write_u16(*self)
    }
}

impl Serializable for u32 {
    open spec fn ser_bytes(&self) -> Seq<u8> {
        be_bytes(*self as nat, 4)
    }

    open spec fn reads(before: Seq<u8>, after: Seq<u8>, v: u32) -> bool {
        before == v.ser_bytes() + after
    }

    open spec fn round_trips(&self) -> bool {
        true
    }

    proof fn lemma_roundtrip(v: u32, rest: Seq<u8>) {
        lemma_be_bytes_len(v as nat, 4);
    }

    open spec fn readable(before: Seq<u8>) -> bool {
        before.len() >= 4
    }

    proof fn lemma_reads_unique(before: Seq<u8>, after1: Seq<u8>, after2: Seq<u8>, v1: u32, v2: u32) {
        lemma_be_bytes_len(v1 as nat, 4);
        lemma_be_bytes_len(v2 as nat, 4);
        lemma_prefix_rest(before, v1.ser_bytes(), after1, v2.ser_bytes(), after2);
    }

    fn read<R: Reader>(reader: &mut R) -> (r: Result<u32, Error>) {
        let v = reader.read_u32()?;
        proof {
            let used = old(reader).remaining().subrange(0, 4);
            lemma_be_bytes_of_value(used);
            assert(old(reader).remaining() =~= used + reader.remaining());
        }
        Ok(v)
    }

    fn write<W: Writer>(&self, writer: &mut W) -> (r: Result<(), Error>) {
        writer.write_u32(*self)
    }
}

impl Serializable for u64 {
    open spec fn ser_bytes(&self) -> Seq<u8> {
        be_bytes(*self as nat, 8)
    }

    open spec fn reads(before: Seq<u8>, after: Seq<u8>, v: u64) -> bool {
        before == v.ser_bytes() + after
    }

    open spec fn round_trips(&self) -> bool {
        true
    }

    proof fn lemma_roundtrip(v: u64, rest: Seq<u8>) {
        lemma_be_bytes_len(v as nat, 8);
    }

    open spec fn readable(before: Seq<u8>) -> bool {
        before.len() >= 8
    }

    proof fn lemma_reads_unique(before: Seq<u8>, after1: Seq<u8>, after2: Seq<u8>, v1: u64, v2: u64) {
        lemma_be_bytes_len(v1 as nat, 8);
        lemma_be_bytes_len(v2 as nat, 8);
        lemma_prefix_rest(before, v1.ser_bytes(), after1, v2.ser_bytes(), after2);
    }

    fn read<R: Reader>(reader: &mut R) -> (r: Result<u64, Error>) {
        let v = reader.read_u64()?;
        proof {
            let used = old(reader).remaining().subrange(0, 8);
            lemma_be_bytes_of_value(used);
            assert(old(reader).remaining() =~= used + reader.remaining());
        }
        Ok(v)
    }

    fn write<W: Writer>(&self, writer: &mut W) -> (r: Result<(), Error>) {
        writer.write_u64(*self)
    }
}

impl Serializable for u128 {
    open spec fn ser_bytes(&self) -> Seq<u8> {
        be_bytes(*self as nat, 16)
    }

    open spec fn reads(before: Seq<u8>, after: Seq<u8>, v: u128) -> bool {
        before == v.ser_bytes() + after
    }

    open spec fn round_trips(&self) -> bool {
        true
    }

    proof fn lemma_roundtrip(v: u128, rest: Seq<u8>) {
        lemma_be_bytes_len(v as nat, 16);
    }

    open spec fn readable(before: Seq<u8>) -> bool {
        before.len() >= 16
    }

    proof fn lemma_reads_unique(before: Seq<u8>, after1: Seq<u8>, after2: Seq<u8>, v1: u128, v2: u128) {
        lemma_be_bytes_len(v1 as nat, 16);
        lemma_be_bytes_len(v2 as nat, 16);
        lemma_prefix_rest(before, v1.ser_bytes(), after1, v2.ser_bytes(), after2);
    }

    fn read<R: Reader>(reader: &mut R) -> (r: Result<u128, Error>) {
        let v = reader.read_u128()?;
        proof {
            let used = old(reader).remaining().subrange(0, 16);
            lemma_be_bytes_of_value(used);
            assert(old(reader).remaining() =~= used + reader.remaining());
        }
        Ok(v)
    }

    fn write<W: Writer>(&self, writer: &mut W) -> (r: Result<(), Error>) {
        writer.write_u128(*self)
    }
}

impl Serializable for usize {
    open spec fn ser_bytes(&self) -> Seq<u8> {
        be_bytes(*self as nat, 8)
    }

    open spec fn reads(before: Seq<u8>, after: Seq<u8>, v: usize) -> bool {
        before == v.ser_bytes() + after
    }

    open spec fn round_trips(&self) -> bool {
        true
    }

    proof fn lemma_roundtrip(v: usize, rest: Seq<u8>) {
        let all = v.ser_bytes() + rest;
        lemma_be_bytes_len(v as nat, 8);
        assert(all.subrange(0, 8) =~= be_bytes(v as nat, 8));
        reveal_with_fuel(pow256, 9);
        lemma_be_roundtrip(v as nat, 8);
    }

    open spec fn readable(before: Seq<u8>) -> bool {
        before.len() >= 8 && be_value(before.subrange(0, 8)) <= usize::MAX
    }

    proof fn lemma_reads_unique(before: Seq<u8>, after1: Seq<u8>, after2: Seq<u8>, v1: usize, v2: usize) {
        lemma_be_bytes_len(v1 as nat, 8);
        lemma_be_bytes_len(v2 as nat, 8);
        lemma_prefix_rest(before, v1.ser_bytes(), after1, v2.ser_bytes(), after2);
    }

    fn read<R: Reader>(reader: &mut R) -> (r: Result<usize, Error>) {
        let v = reader.read_usize()?;
        proof {
            let used = old(reader).remaining().subrange(0, 8);
            lemma_be_bytes_of_value(used);
            assert(old(reader).remaining() =~= used + reader.remaining());
        }
        Ok(v)
    }

    fn write<W: Writer>(&self, writer: &mut W) -> (r: Result<(), Error>) {
        writer.write_usize(*self)
    }
}

impl Serializable for i8 {
    /// The byte of the two's complement.
    open spec fn ser_bytes(&self) -> Seq<u8> {
        seq![*self as u8]
    }

    open spec fn reads(before: Seq<u8>, after: Seq<u8>, v: i8) -> bool {
        before == v.ser_bytes() + after
    }

    open spec fn round_trips(&self) -> bool {
        true
    }

    proof fn lemma_roundtrip(v: i8, rest: Seq<u8>) {
    }

    open spec fn readable(before: Seq<u8>) -> bool {
        before.len() >= 1
    }

    proof fn lemma_reads_unique(before: Seq<u8>, after1: Seq<u8>, after2: Seq<u8>, v1: i8, v2: i8) {
        lemma_prefix_rest(before, v1.ser_bytes(), after1, v2.ser_bytes(), after2);
    }

    fn read<R: Reader>(reader: &mut R) -> (r: Result<i8, Error>) {
        let v = reader.read_i8()?;
        proof {
            let b = old(reader).remaining()[0];
            assert((b as i8) as u8 == b) by (bit_vector);
            assert(old(reader).remaining() =~= seq![b] + reader.remaining());
        }
        Ok(v)
    }

    fn write<W: Writer>(&self, writer: &mut W) -> (r: Result<(), Error>) {
        writer.write_i8(*self)
    }
}

impl Serializable for i16 {
    /// The 2 big-endian bytes of the two's complement.
    open spec fn ser_bytes(&self) -> Seq<u8> {
        be_bytes((*self as u16) as nat, 2)
    }

    open spec fn reads(before: Seq<u8>, after: Seq<u8>, v: i16) -> bool {
        before == v.ser_bytes() + after
    }

    open spec fn round_trips(&self) -> bool {
        true
    }

    proof fn lemma_roundtrip(v: i16, rest: Seq<u8>) {
        lemma_be_bytes_len((v as u16) as nat, 2);
    }

    open spec fn readable(before: Seq<u8>) -> bool {
        before.len() >= 2
    }

    proof fn lemma_reads_unique(before: Seq<u8>, after1: Seq<u8>, after2: Seq<u8>, v1: i16, v2: i16) {
        lemma_be_bytes_len((v1 as u16) as nat, 2);
        lemma_be_bytes_len((v2 as u16) as nat, 2);
        lemma_prefix_rest(before, v1.ser_bytes(), after1, v2.ser_bytes(), after2);
    }

    fn read<R: Reader>(reader: &mut R) -> (r: Result<i16, Error>) {
        let v = reader.read_i16()?;
        proof {
            let used = old(reader).remaining().subrange(0, 2);
            lemma_be_bytes_of_value(used);
            lemma_be_value_bound(used);
            reveal_with_fuel(pow256, 3);
            let u: u16 = be_value(used) as u16;
            assert(u as nat == be_value(used));
            assert((u as i16) as u16 == u) by (bit_vector);
            assert(old(reader).remaining() =~= used + reader.remaining());
        }
        Ok(v)
    }

    fn write<W: Writer>(&self, writer: &mut W) -> (r: Result<(), Error>) {
        writer.write_i16(*self)
    }
}

impl Serializable for i32 {
    /// The 4 big-endian bytes of the two's complement.
    open spec fn ser_bytes(&self) -> Seq<u8> {
        be_bytes((*self as u32) as nat, 4)
    }

    open spec fn reads(before: Seq<u8>, after: Seq<u8>, v: i32) -> bool {
        before == v.ser_bytes() + after
    }

    open spec fn round_trips(&self) -> bool {
        true
    }

    proof fn lemma_roundtrip(v: i32, rest: Seq<u8>) {
        lemma_be_bytes_len((v as u32) as nat, 4);
    }

    open spec fn readable(before: Seq<u8>) -> bool {
        before.len() >= 4
    }

    proof fn lemma_reads_unique(before: Seq<u8>, after1: Seq<u8>, after2: Seq<u8>, v1: i32, v2: i32) {
        lemma_be_bytes_len((v1 as u32) as nat, 4);
        lemma_be_bytes_len((v2 as u32) as nat, 4);
        lemma_prefix_rest(before, v1.ser_bytes(), after1, v2.ser_bytes(), after2);
    }

    fn read<R: Reader>(reader: &mut R) -> (r: Result<i32, Error>) {
        let v = reader.read_i32()?;
        proof {
            let used = old(reader).remaining().subrange(0, 4);
            lemma_be_bytes_of_value(used);
            lemma_be_value_bound(used);
            reveal_with_fuel(pow256, 5);
            let u: u32 = be_value(used) as u32;
            assert(u as nat == be_value(used));
            assert((u as i32) as u32 == u) by (bit_vector);
            assert(old(reader).remaining() =~= used + reader.remaining());
        }
        Ok(v)
    }

    fn write<W: Writer>(&self, writer: &mut W) -> (r: Result<(), Error>) {
        writer.write_i32(*self)
    }
}

impl Serializable for i64 {
    /// The 8 big-endian bytes of the two's complement.
    open spec fn ser_bytes(&self) -> Seq<u8> {
        be_bytes((*self as u64) as nat, 8)
    }

    open spec fn reads(before: Seq<u8>, after: Seq<u8>, v: i64) -> bool {
        before == v.ser_bytes() + after
    }

    open spec fn round_trips(&self) -> bool {
        true
    }

    proof fn lemma_roundtrip(v: i64, rest: Seq<u8>) {
        lemma_be_bytes_len((v as u64) as nat, 8);
    }

    open spec fn readable(before: Seq<u8>) -> bool {
        before.len() >= 8
    }

    proof fn lemma_reads_unique(before: Seq<u8>, after1: Seq<u8>, after2: Seq<u8>, v1: i64, v2: i64) {
        lemma_be_bytes_len((v1 as u64) as nat, 8);
        lemma_be_bytes_len((v2 as u64) as nat, 8);
        lemma_prefix_rest(before, v1.ser_bytes(), after1, v2.ser_bytes(), after2);
    }

    fn read<R: Reader>(reader: &mut R) -> (r: Result<i64, Error>) {
        let v = reader.read_i64()?;
        proof {
            let used = old(reader).remaining().subrange(0, 8);
            lemma_be_bytes_of_value(used);
            lemma_be_value_bound(used);
            reveal_with_fuel(pow256, 9);
            let u: u64 = be_value(used) as u64;
            assert(u as nat == be_value(used));
            assert((u as i64) as u64 == u) by (bit_vector);
            assert(old(reader).remaining() =~= used + reader.remaining());
        }
        Ok(v)
    }

    fn write<W: Writer>(&self, writer: &mut W) -> (r: Result<(), Error>) {
        writer.write_i64(*self)
    }
}

impl Serializable for i128 {
    /// The 16 big-endian bytes of the two's complement.
    open spec fn ser_bytes(&self) -> Seq<u8> {
        be_bytes((*self as u128) as nat, 16)
    }

    open spec fn reads(before: Seq<u8>, after: Seq<u8>, v: i128) -> bool {
        before == v.ser_bytes() + after
    }

    open spec fn round_trips(&self) -> bool {
        true
    }

    proof fn lemma_roundtrip(v: i128, rest: Seq<u8>) {
        lemma_be_bytes_len((v as u128) as nat, 16);
    }

    open spec fn readable(before: Seq<u8>) -> bool {
        before.len() >= 16
    }

    proof fn lemma_reads_unique(before: Seq<u8>, after1: Seq<u8>, after2: Seq<u8>, v1: i128, v2: i128) {
        lemma_be_bytes_len((v1 as u128) as nat, 16);
        lemma_be_bytes_len((v2 as u128) as nat, 16);
        lemma_prefix_rest(before, v1.ser_bytes(), after1, v2.ser_bytes(), after2);
    }

    fn read<R: Reader>(reader: &mut R) -> (r: Result<i128, Error>) {
        let v = reader.read_i128()?;
        proof {
            let used = old(reader).remaining().subrange(0, 16);
            lemma_be_bytes_of_value(used);
            lemma_be_value_bound(used);
            reveal_with_fuel(pow256, 17);
            let u: u128 = be_value(used) as u128;
            assert(u as nat == be_value(used));
            assert((u as i128) as u128 == u) by (bit_vector);
            assert(old(reader).remaining() =~= used + reader.remaining());
        }
        Ok(v)
    }

    fn write<W: Writer>(&self, writer: &mut W) -> (r: Result<(), Error>) {
        writer.write_i128(*self)
    }
}

impl<const N: usize> Serializable for [u8; N] {
    /// The bytes as they are.
    open spec fn ser_bytes(&self) -> Seq<u8> {
        self@
    }

    open spec fn reads(before: Seq<u8>, after: Seq<u8>, v: [u8; N]) -> bool {
        before == v@ + after
    }

    open spec fn round_trips(&self) -> bool {
        true
    }

    proof fn lemma_roundtrip(v: [u8; N], rest: Seq<u8>) {
    }

    open spec fn readable(before: Seq<u8>) -> bool {
        before.len() >= N
    }

    proof fn lemma_reads_unique(before: Seq<u8>, after1: Seq<u8>, after2: Seq<u8>, v1: [u8; N], v2: [u8; N]) {
        lemma_prefix_rest(before, v1@, after1, v2@, after2);
    }

    fn read<R: Reader>(reader: &mut R) -> (r: Result<[u8; N], Error>) {
        let mut b = [0u8; N];
        reader.read_fixed_bytes(&mut b)?;
        assert(old(reader).remaining() =~= b@ + reader.remaining());
        Ok(b)
    }

    fn write<W: Writer>(&self, writer: &mut W) -> (r: Result<(), Error>) {
        let r = writer.write_fixed_bytes(self.as_slice());
        proof {
            lemma_result_refused(*old(writer), self@, *writer, r);
        }
        r
    }
}

impl<'a, S: Serializable> Serializable for &'a S {
    /// The bytes of the value referred to.
    open spec fn ser_bytes(&self) -> Seq<u8> {
        (**self).ser_bytes()
    }

    /// A reference is never read.
    open spec fn reads(before: Seq<u8>, after: Seq<u8>, v: &'a S) -> bool {
        false
    }

    /// A reference is written but never read back.
    open spec fn round_trips(&self) -> bool {
        false
    }

    proof fn lemma_roundtrip(v: &'a S, rest: Seq<u8>) {
    }

    /// Always refused: a reference cannot be read back.
    /// A reference is never read.
    open spec fn readable(before: Seq<u8>) -> bool {
        false
    }

    proof fn lemma_reads_unique(before: Seq<u8>, after1: Seq<u8>, after2: Seq<u8>, v1: &'a S, v2: &'a S) {
    }

    fn read<R: Reader>(reader: &mut R) -> (r: Result<&'a S, Error>)
        ensures
            r matches Err(e) && is_err_of(e, ErrKind::OperationNotSupported, "not implemented for reading"@),
    {
        Err(err(ErrKind::OperationNotSupported, "not implemented for reading"))
    }

    fn write<W: Writer>(&self, writer: &mut W) -> (r: Result<(), Error>) {
        S::write(*self, writer)
    }
}

impl Serializable for bool {
    open spec fn ser_bytes(&self) -> Seq<u8> {
        if *self {
            seq![1u8]
        } else {
            seq![0u8]
        }
    }

    /// One byte is read; any byte but zero reads as true.
    open spec fn reads(before: Seq<u8>, after: Seq<u8>, v: bool) -> bool {
        before.len() >= 1 && after == before.subrange(1, before.len() as int) && v == (before[0] != 0)
    }

    open spec fn round_trips(&self) -> bool {
        true
    }

    proof fn lemma_roundtrip(v: bool, rest: Seq<u8>) {
        assert((v.ser_bytes() + rest).subrange(1, (v.ser_bytes() + rest).len() as int) =~= rest);
    }

    open spec fn readable(before: Seq<u8>) -> bool {
        before.len() >= 1
    }

    proof fn lemma_reads_unique(before: Seq<u8>, after1: Seq<u8>, after2: Seq<u8>, v1: bool, v2: bool) {
    }

    fn read<R: Reader>(reader: &mut R) -> (r: Result<bool, Error>) {
        let b = reader.read_u8()?;
        Ok(b != 0)
    }

    fn write<W: Writer>(&self, writer: &mut W) -> (r: Result<(), Error>) {
        if *self {
            writer.write_u8(1)
        } else {
            writer.write_u8(0)
        }
    }
}

impl Serializable for () {
    open spec fn ser_bytes(&self) -> Seq<u8> {
        Seq::empty()
    }

    open spec fn reads(before: Seq<u8>, after: Seq<u8>, v: ()) -> bool {
        before == after
    }

    open spec fn round_trips(&self) -> bool {
        true
    }

    proof fn lemma_roundtrip(v: (), rest: Seq<u8>) {
        assert(Seq::<u8>::empty() + rest =~= rest);
    }

    open spec fn readable(before: Seq<u8>) -> bool {
        true
    }

    proof fn lemma_reads_unique(before: Seq<u8>, after1: Seq<u8>, after2: Seq<u8>, v1: (), v2: ()) {
    }

    /// Reads nothing and always succeeds.
    fn read<R: Reader>(reader: &mut R) -> (r: Result<(), Error>)
        ensures
            r is Ok,
            final(reader).remaining() == old(reader).remaining(),
    {
        Ok(())
    }

    /// Writes nothing and always succeeds.
    fn write<W: Writer>(&self, writer: &mut W) -> (r: Result<(), Error>)
        ensures
            r is Ok,
            final(writer).written() == old(writer).written(),
    {
        assert(writer.written() + Seq::<u8>::empty() =~= writer.written());
        Ok(())
    }
}

impl<S: Serializable> Serializable for Option<S> {
    open spec fn ser_bytes(&self) -> Seq<u8> {
        match self {
            Some(s) => seq![1u8] + s.ser_bytes(),
            None => seq![0u8],
        }
    }

    /// A zero byte reads as `None`; any other byte is followed by the value.
    open spec fn reads(before: Seq<u8>, after: Seq<u8>, v: Option<S>) -> bool {
        before.len() >= 1 && match v {
            Some(s) => before[0] != 0 && S::reads(before.subrange(1, before.len() as int), after, s),
            None => before[0] == 0 && after == before.subrange(1, before.len() as int),
        }
    }

    open spec fn round_trips(&self) -> bool {
        match self {
            Some(s) => s.round_trips(),
            None => true,
        }
    }

    proof fn lemma_roundtrip(v: Option<S>, rest: Seq<u8>) {
        let all = v.ser_bytes() + rest;
        match v {
            Some(s) => {
                assert(all.subrange(1, all.len() as int) =~= s.ser_bytes() + rest);
                S::lemma_roundtrip(s, rest);
            },
            None => {
                assert(all.subrange(1, all.len() as int) =~= rest);
            },
        }
    }

    /// A byte, then, when it is not zero, a readable value.
    open spec fn readable(before: Seq<u8>) -> bool {
        before.len() >= 1 && (before[0] == 0 || S::readable(before.subrange(1, before.len() as int)))
    }

    proof fn lemma_reads_unique(before: Seq<u8>, after1: Seq<u8>, after2: Seq<u8>, v1: Option<S>, v2: Option<S>) {
        match v1 {
            Some(s1) => match v2 {
                Some(s2) => S::lemma_reads_unique(before.subrange(1, before.len() as int), after1, after2, s1, s2),
                None => {},
            },
            None => {},
        }
    }

    fn read<R: Reader>(reader: &mut R) -> (r: Result<Option<S>, Error>) {
        let b = reader.read_u8()?;
        if b == 0 {
            Ok(None)
        } else {
            let s = S::read(reader)?;
            Ok(Some(s))
        }
    }

    fn write<W: Writer>(&self, writer: &mut W) -> (r: Result<(), Error>) {
        match self {
            Some(s) => {
                match writer.write_u8(1) {
                    Ok(()) => {},
                    Err(e) => {
                        proof {
                            assert(self.ser_bytes().subrange(0, 1) =~= seq![1u8]);
                            lemma_refused_prefix(*old(writer), seq![1u8], self.ser_bytes(), *writer, e);
                        }
                        return Err(e);
                    },
                }
                let ghost mid = *writer;
                match s.write(writer) {
                    Ok(()) => {},
                    Err(e) => {
                        proof {
                            lemma_refused_later(*old(writer), seq![1u8], mid, s.ser_bytes(), *writer, e);
                        }
                        return Err(e);
                    },
                }
                assert(writer.written() =~= old(writer).written() + self.ser_bytes());
                Ok(())
            },
            None => writer.write_u8(0),
        }
    }
}

impl<A: Serializable, B: Serializable> Serializable for (A, B) {
    open spec fn ser_bytes(&self) -> Seq<u8> {
        self.0.ser_bytes() + self.1.ser_bytes()
    }

    /// The first value is read, then the second from what it leaves.
    open spec fn reads(before: Seq<u8>, after: Seq<u8>, v: (A, B)) -> bool {
        exists|mid: Seq<u8>| #[trigger] A::reads(before, mid, v.0) && B::reads(mid, after, v.1)
    }

    open spec fn round_trips(&self) -> bool {
        self.0.round_trips() && self.1.round_trips()
    }

    proof fn lemma_roundtrip(v: (A, B), rest: Seq<u8>) {
        let mid = v.1.ser_bytes() + rest;
        A::lemma_roundtrip(v.0, mid);
        B::lemma_roundtrip(v.1, rest);
        let all = v.ser_bytes() + rest;
        assert(all =~= v.0.ser_bytes() + mid);
        assert(A::reads(all, mid, v.0));
        assert forall|m: Seq<u8>, a: A| #[trigger] A::reads(all, m, a) implies B::readable(m) by {
            A::lemma_reads_unique(all, m, mid, a, v.0);
        }
    }

    /// The first value is readable, and so is the second from what any reading of the
    /// first leaves.
    open spec fn readable(before: Seq<u8>) -> bool {
        &&& A::readable(before)
        &&& forall|mid: Seq<u8>, a: A| #[trigger] A::reads(before, mid, a) ==> B::readable(mid)
    }

    proof fn lemma_reads_unique(before: Seq<u8>, after1: Seq<u8>, after2: Seq<u8>, v1: (A, B), v2: (A, B)) {
        let m1 = choose|mid: Seq<u8>| #[trigger] A::reads(before, mid, v1.0) && B::reads(mid, after1, v1.1);
        let m2 = choose|mid: Seq<u8>| #[trigger] A::reads(before, mid, v2.0) && B::reads(mid, after2, v2.1);
        A::lemma_reads_unique(before, m1, m2, v1.0, v2.0);
        B::lemma_reads_unique(m1, after1, after2, v1.1, v2.1);
    }

    fn read<R: Reader>(reader: &mut R) -> (r: Result<(A, B), Error>) {
        let a = A::read(reader)?;
        let ghost mid = reader.remaining();
        let ghost before = old(reader).remaining();
        proof {
            assert(A::reads(before, mid, a));
        }
        let rb = B::read(reader);
        let b = match rb {
            Ok(b) => b,
            Err(e) => {
                return Err(e);
            },
        };
        proof {
            if reader.fails_only_at_end() {
                assert forall|m: Seq<u8>, x: A| #[trigger] A::reads(before, m, x) implies B::readable(m) by {
                    A::lemma_reads_unique(before, m, mid, x, a);
                }
            }
        }
        let v = (a, b);
        assert(A::reads(old(reader).remaining(), mid, v.0));
        assert(B::reads(mid, reader.remaining(), v.1));
        assert(Self::reads(old(reader).remaining(), reader.remaining(), v));
        Ok(v)
    }

    fn write<W: Writer>(&self, writer: &mut W) -> (r: Result<(), Error>) {
        match self.0.write(writer) {
            Ok(()) => {},
            Err(e) => {
                proof {
                    let a = self.0.ser_bytes();
                    assert(self.ser_bytes().subrange(0, a.len() as int) =~= a);
                    lemma_refused_prefix(*old(writer), a, self.ser_bytes(), *writer, e);
                }
                return Err(e);
            },
        }
        let ghost mid = *writer;
        match self.1.write(writer) {
            Ok(()) => {},
            Err(e) => {
                proof {
                    lemma_refused_later(*old(writer), self.0.ser_bytes(), mid, self.1.ser_bytes(), *writer, e);
                }
                return Err(e);
            },
        }
        assert(writer.written() =~= old(writer).written() + self.ser_bytes());
        Ok(())
    }
}

impl Serializable for char {
    open spec fn ser_bytes(&self) -> Seq<u8> {
        seq![(*self as u32) as u8]
    }

    /// A char is written as the lowest byte of its code point: only those below 256 read back.
    open spec fn round_trips(&self) -> bool {
        (*self as u32) < 256
    }

    open spec fn reads(before: Seq<u8>, after: Seq<u8>, v: char) -> bool {
        before.len() >= 1 && after == before.subrange(1, before.len() as int) && v == before[0] as char
    }

    proof fn lemma_roundtrip(v: char, rest: Seq<u8>) {
        let all = v.ser_bytes() + rest;
        assert(all.subrange(1, all.len() as int) =~= rest);
        let u: u32 = v as u32;
        let w: u8 = u as u8;
        assert(u < 256 ==> w as u32 == u) by (bit_vector)
            requires w == u as u8;
        char_u32_cast(v, u);
        assert((w as u32) as char == v);
        assert((w as char) == v);
    }

    open spec fn readable(before: Seq<u8>) -> bool {
        before.len() >= 1
    }

    proof fn lemma_reads_unique(before: Seq<u8>, after1: Seq<u8>, after2: Seq<u8>, v1: char, v2: char) {
    }

    fn read<R: Reader>(reader: &mut R) -> (r: Result<char, Error>) {
        let b = reader.read_u8()?;
        Ok(b as char)
    }

    fn write<W: Writer>(&self, writer: &mut W) -> (r: Result<(), Error>) {
        writer.write_u8((*self as u32) as u8)
    }
}

impl Serializable for String {
    /// The number of UTF-8 bytes, then the bytes.
    open spec fn ser_bytes(&self) -> Seq<u8> {
        be_bytes(encode_utf8(self@).len(), 8) + encode_utf8(self@)
    }

    /// Every string reads back, as long as its length fits the `usize` it is read into.
    open spec fn round_trips(&self) -> bool {
        encode_utf8(self@).len() <= usize::MAX
    }

    /// The number of bytes, then as many bytes, which must be UTF-8; the string they encode.
    open spec fn reads(before: Seq<u8>, after: Seq<u8>, v: String) -> bool {
        let n = be_value(before.subrange(0, 8)) as int;
        let bytes = before.subrange(8, 8 + n);
        &&& before.len() >= 8 + n
        &&& valid_utf8(bytes)
        &&& v@ == decode_utf8(bytes)
        &&& after == before.subrange(8 + n, before.len() as int)
    }

    proof fn lemma_roundtrip(v: String, rest: Seq<u8>) {
        let bytes = encode_utf8(v@);
        let all = v.ser_bytes() + rest;
        lemma_be_bytes_len(bytes.len(), 8);
        assert(all.subrange(0, 8) =~= be_bytes(bytes.len(), 8));
        reveal_with_fuel(pow256, 9);
        assert(bytes.len() < pow256(8));
        lemma_be_roundtrip(bytes.len(), 8);
        assert(all.subrange(8, 8 + bytes.len() as int) =~= bytes);
        assert(all.subrange(8 + bytes.len() as int, all.len() as int) =~= rest);
        vstd::utf8::encode_utf8_valid_utf8(v@);
        vstd::utf8::encode_utf8_decode_utf8(v@);
    }

    /// The number of bytes fits a `usize`, that many bytes follow it, and they are UTF-8.
    open spec fn readable(before: Seq<u8>) -> bool {
        &&& before.len() >= 8
        &&& be_value(before.subrange(0, 8)) <= usize::MAX
        &&& before.len() >= 8 + be_value(before.subrange(0, 8))
        &&& valid_utf8(before.subrange(8, 8 + be_value(before.subrange(0, 8)) as int))
    }

    proof fn lemma_reads_unique(before: Seq<u8>, after1: Seq<u8>, after2: Seq<u8>, v1: String, v2: String) {
    }

    /// Bytes that are not UTF-8 are refused with a UTF-8 error.
    fn read<R: Reader>(reader: &mut R) -> (r: Result<String, Error>)
        ensures
            ({
                let before = old(reader).remaining();
                let n = be_value(before.subrange(0, 8)) as int;
                old(reader).fails_only_at_end() && before.len() >= 8 && n <= usize::MAX && before.len() >= 8 + n
                    && !valid_utf8(before.subrange(8, 8 + n)) ==> (r matches Err(e) && e.spec_kind().name()
                    == ErrKind::Utf8)
            }),
    {
        let len = reader.read_usize()?;
        let ghost start = reader.remaining();
        let ghost before = old(reader).remaining();
        proof {
            assert(start =~= before.subrange(8, before.len() as int));
        }
        let mut bytes: Vec<u8> = Vec::new();
        let mut i: usize = 0;
        while i < len
            invariant
                i <= len,
                start.len() >= i,
                bytes@ == start.subrange(0, i as int),
                reader.remaining() == start.subrange(i as int, start.len() as int),
                reader.fails_only_at_end() == old(reader).fails_only_at_end(),
                start == before.subrange(8, before.len() as int),
                before == old(reader).remaining(),
                len == be_value(before.subrange(0, 8)),
            decreases len - i,
        {
            let rb = reader.read_u8();
            let b = match rb {
                Ok(b) => b,
                Err(e) => {
                    return Err(e);
                },
            };
            bytes.push(b);
            assert(bytes@ =~= start.subrange(0, i + 1));
            assert(reader.remaining() =~= start.subrange(i + 1, start.len() as int));
            i = i + 1;
        }
        assert(before.subrange(8, 8 + len) =~= bytes@);
        assert(reader.remaining() =~= before.subrange(8 + len, before.len() as int));
        match utf8_string(bytes.as_slice()) {
            Ok(text) => Ok(text),
            Err(cause) => Err(from_foreign(ForeignError::Utf8, cause.as_str())),
        }
    }

    fn write<W: Writer>(&self, writer: &mut W) -> (r: Result<(), Error>) {
        let bytes = self.as_str().as_bytes();
        proof {
            lemma_be_bytes_len(bytes@.len() as nat, 8);
        }
        match writer.write_usize(bytes.len()) {
            Ok(()) => {},
            Err(e) => {
                proof {
                    let a = be_bytes(bytes@.len() as nat, 8);
                    assert(self.ser_bytes().subrange(0, a.len() as int) =~= a);
                    lemma_refused_prefix(*old(writer), a, self.ser_bytes(), *writer, e);
                }
                return Err(e);
            },
        }
        let ghost mid = *writer;
        let r = writer.write_fixed_bytes(bytes);
        proof {
            lemma_result_refused(mid, bytes@, *writer, r);
            if r is Err {
                lemma_refused_later(*old(writer), be_bytes(bytes@.len() as nat, 8), mid, bytes@, *writer, r->Err_0);
            }
        }
        if r.is_err() {
            return r;
        }
        assert(writer.written() =~= old(writer).written() + self.ser_bytes());
        Ok(())
    }
}

/// The bytes of `items`, one after the other.
pub open spec fn items_bytes<S: Serializable>(items: Seq<S>) -> Seq<u8>
    decreases items.len(),
{
    if items.len() == 0 {
        Seq::empty()
    } else {
        items_bytes(items.drop_last()) + items.last().ser_bytes()
    }
}

/// Whether `states` are the bytes left before and after reading each of `items` in turn,
/// from `before` to `after`.
pub open spec fn read_states<S: Serializable>(states: Seq<Seq<u8>>, before: Seq<u8>, after: Seq<u8>, items: Seq<S>) -> bool {
    &&& states.len() == items.len() + 1
    &&& states[0] == before
    &&& states[items.len() as int] == after
    &&& forall|i: int| 0 <= i < items.len() ==> #[trigger] S::reads(states[i], states[i + 1], items[i])
}

/// Whether reading `items` one after the other from `before` leaves `after`.
pub open spec fn reads_items<S: Serializable>(before: Seq<u8>, after: Seq<u8>, items: Seq<S>) -> bool {
    exists|states: Seq<Seq<u8>>| #[trigger] read_states(states, before, after, items)
}

/// Whether `n` items can be read one after the other from `before`.
pub open spec fn items_readable<S: Serializable>(before: Seq<u8>, n: nat) -> bool
    decreases n,
{
    if n == 0 {
        true
    } else {
        &&& S::readable(before)
        &&& forall|mid: Seq<u8>, x: S| #[trigger] S::reads(before, mid, x) ==> items_readable::<S>(mid, (n - 1) as nat)
    }
}

/// Two readings of the same number of items agree on the bytes left after each item.
proof fn lemma_states_agree<S: Serializable>(
    st1: Seq<Seq<u8>>,
    st2: Seq<Seq<u8>>,
    before: Seq<u8>,
    a1: Seq<u8>,
    a2: Seq<u8>,
    items1: Seq<S>,
    items2: Seq<S>,
    k: nat,
)
    requires
        read_states(st1, before, a1, items1),
        read_states(st2, before, a2, items2),
        items1.len() == items2.len(),
        k <= items1.len(),
    ensures
        st1[k as int] == st2[k as int],
        items_bytes(items1.subrange(0, k as int)) == items_bytes(items2.subrange(0, k as int)),
    decreases k,
{
    if k > 0 {
        let j = k - 1;
        lemma_states_agree(st1, st2, before, a1, a2, items1, items2, j as nat);
        assert(S::reads(st1[j], st1[j + 1], items1[j]));
        assert(S::reads(st2[j], st2[j + 1], items2[j]));
        S::lemma_reads_unique(st1[j], st1[k as int], st2[k as int], items1[j], items2[j]);
        assert(items1.subrange(0, k as int).drop_last() =~= items1.subrange(0, j as int));
        assert(items2.subrange(0, k as int).drop_last() =~= items2.subrange(0, j as int));
    } else {
        assert(items1.subrange(0, 0) =~= Seq::<S>::empty());
        assert(items2.subrange(0, 0) =~= Seq::<S>::empty());
    }
}

/// Reading the same number of items from the same bytes leaves the same rest.
proof fn lemma_items_rest_unique<S: Serializable>(before: Seq<u8>, a1: Seq<u8>, a2: Seq<u8>, items1: Seq<S>, items2: Seq<S>)
    requires
        reads_items(before, a1, items1),
        reads_items(before, a2, items2),
        items1.len() == items2.len(),
    ensures
        a1 == a2,
        items_bytes(items1) == items_bytes(items2),
{
    let st1 = choose|states: Seq<Seq<u8>>| #[trigger] read_states(states, before, a1, items1);
    let st2 = choose|states: Seq<Seq<u8>>| #[trigger] read_states(states, before, a2, items2);
    lemma_states_agree(st1, st2, before, a1, a2, items1, items2, items1.len());
    assert(items1.subrange(0, items1.len() as int) =~= items1);
    assert(items2.subrange(0, items2.len() as int) =~= items2);
}

/// The bytes of some items that round-trip can be read as that many items.
proof fn lemma_items_readable<S: Serializable>(items: Seq<S>, rest: Seq<u8>)
    requires
        forall|i: int| 0 <= i < items.len() ==> (#[trigger] items[i]).round_trips(),
    ensures
        items_readable::<S>(items_bytes(items) + rest, items.len()),
    decreases items.len(),
{
    if items.len() > 0 {
        let first = items[0];
        let tail = items.subrange(1, items.len() as int);
        let one = seq![first];
        assert(items =~= one + tail);
        lemma_items_concat(one, tail);
        assert(one.drop_last() =~= Seq::<S>::empty());
        assert(items_bytes(one.drop_last()) =~= Seq::<u8>::empty());
        assert(one.last() == first);
        assert(items_bytes(one) =~= first.ser_bytes());
        let all = items_bytes(items) + rest;
        let after = items_bytes(tail) + rest;
        assert(all =~= first.ser_bytes() + after);
        assert(first.round_trips());
        S::lemma_roundtrip(first, after);
        assert forall|i: int| 0 <= i < tail.len() implies (#[trigger] tail[i]).round_trips() by {
            assert(tail[i] == items[i + 1]);
        }
        lemma_items_readable(tail, rest);
        assert forall|m: Seq<u8>, x: S| #[trigger] S::reads(all, m, x) implies items_readable::<S>(
            m,
            (items.len() - 1) as nat,
        ) by {
            S::lemma_reads_unique(all, m, after, x, first);
        }
    }
}

/// Reading one more item after some items reads them all.
proof fn lemma_reads_push<S: Serializable>(before: Seq<u8>, mid: Seq<u8>, after: Seq<u8>, items: Seq<S>, x: S)
    requires
        reads_items(before, mid, items),
        S::reads(mid, after, x),
    ensures
        reads_items(before, after, items.push(x)),
{
    let states = choose|states: Seq<Seq<u8>>| #[trigger] read_states(states, before, mid, items);
    let all = items.push(x);
    let st = states.push(after);
    assert forall|i: int| 0 <= i < all.len() implies #[trigger] S::reads(st[i], st[i + 1], all[i]) by {
        if i < items.len() {
            assert(S::reads(states[i], states[i + 1], items[i]));
        }
    }
    assert(read_states(st, before, after, all));
}

/// The bytes of two runs of items, one after the other.
proof fn lemma_items_concat<S: Serializable>(a: Seq<S>, b: Seq<S>)
    ensures
        items_bytes(a + b) == items_bytes(a) + items_bytes(b),
    decreases b.len(),
{
    if b.len() == 0 {
        assert(a + b =~= a);
        assert(items_bytes(a) + items_bytes(b) =~= items_bytes(a));
    } else {
        lemma_items_concat(a, b.drop_last());
        assert((a + b).drop_last() =~= a + b.drop_last());
        assert(items_bytes(a + b) =~= items_bytes(a) + items_bytes(b));
    }
}

/// The bytes of some items read back as those items.
proof fn lemma_items_roundtrip<S: Serializable>(items: Seq<S>, rest: Seq<u8>)
    requires
        forall|i: int| 0 <= i < items.len() ==> (#[trigger] items[i]).round_trips(),
    ensures
        reads_items(items_bytes(items) + rest, rest, items),
{
    let n = items.len();
    let states = Seq::new(n + 1, |i: int| items_bytes(items.subrange(i, n as int)) + rest);
    assert forall|i: int| 0 <= i < n implies #[trigger] S::reads(states[i], states[i + 1], items[i]) by {
        let one = seq![items[i]];
        let tail = items.subrange(i + 1, n as int);
        assert(items.subrange(i, n as int) =~= one + tail);
        lemma_items_concat(one, tail);
        assert(one.drop_last() =~= Seq::<S>::empty());
        assert(items_bytes(one.drop_last()) =~= Seq::<u8>::empty());
        assert(one.last() == items[i]);
        assert(items_bytes(one) =~= items[i].ser_bytes());
        S::lemma_roundtrip(items[i], items_bytes(tail) + rest);
        assert(states[i] =~= items[i].ser_bytes() + (items_bytes(tail) + rest));
    }
    assert(items.subrange(0, n as int) =~= items);
    assert(items.subrange(n as int, n as int) =~= Seq::<S>::empty());
    assert(states[n as int] =~= rest);
    assert(read_states(states, items_bytes(items) + rest, rest, items));
}

impl<S: Serializable> Serializable for Vec<S> {
    open spec fn ser_bytes(&self) -> Seq<u8> {
        be_bytes(self.len() as nat, 8) + items_bytes(self@)
    }

    /// The number of items, then the items.
    open spec fn reads(before: Seq<u8>, after: Seq<u8>, v: Vec<S>) -> bool {
        &&& before.len() >= 8
        &&& be_value(before.subrange(0, 8)) == v@.len()
        &&& reads_items(before.subrange(8, before.len() as int), after, v@)
    }

    open spec fn round_trips(&self) -> bool {
        forall|i: int| 0 <= i < self@.len() ==> (#[trigger] self@[i]).round_trips()
    }

    proof fn lemma_roundtrip(v: Vec<S>, rest: Seq<u8>) {
        let all = v.ser_bytes() + rest;
        lemma_be_bytes_len(v.len() as nat, 8);
        assert(all.subrange(0, 8) =~= be_bytes(v.len() as nat, 8));
        reveal_with_fuel(pow256, 9);
        lemma_be_roundtrip(v.len() as nat, 8);
        assert(all.subrange(8, all.len() as int) =~= items_bytes(v@) + rest);
        lemma_items_roundtrip(v@, rest);
        lemma_items_readable(v@, rest);
    }

    /// The number of items fits a `usize` and that many items can be read one after the
    /// other.
    open spec fn readable(before: Seq<u8>) -> bool {
        &&& before.len() >= 8
        &&& be_value(before.subrange(0, 8)) <= usize::MAX
        &&& items_readable::<S>(before.subrange(8, before.len() as int), be_value(before.subrange(0, 8)))
    }

    proof fn lemma_reads_unique(before: Seq<u8>, after1: Seq<u8>, after2: Seq<u8>, v1: Vec<S>, v2: Vec<S>) {
        lemma_items_rest_unique(before.subrange(8, before.len() as int), after1, after2, v1@, v2@);
    }

    fn read<R: Reader>(reader: &mut R) -> (r: Result<Vec<S>, Error>) {
        let len = reader.read_usize()?;
        let ghost start = reader.remaining();
        let ghost before = old(reader).remaining();
        proof {
            assert(start =~= before.subrange(8, before.len() as int));
        }
        let mut v: Vec<S> = Vec::new();
        let mut i: usize = 0;
        assert(read_states(seq![start], start, start, v@));
        while i < len
            invariant
                i <= len,
                v@.len() == i,
                reads_items(start, reader.remaining(), v@),
                reader.fails_only_at_end() == old(reader).fails_only_at_end(),
                start == before.subrange(8, before.len() as int),
                before == old(reader).remaining(),
                len == be_value(before.subrange(0, 8)),
                reader.fails_only_at_end() ==> (items_readable::<S>(start, len as nat) <==> items_readable::<S>(
                    reader.remaining(),
                    (len - i) as nat,
                )),
            decreases len - i,
        {
            let ghost mid = reader.remaining();
            let rx = S::read(reader);
            let x = match rx {
                Ok(x) => x,
                Err(e) => {
                    return Err(e);
                },
            };
            proof {
                lemma_reads_push(start, mid, reader.remaining(), v@, x);
                if reader.fails_only_at_end() {
                    let k = (len - i) as nat;
                    let next = reader.remaining();
                    assert(S::reads(mid, next, x));
                    assert forall|m: Seq<u8>, y: S| #[trigger] S::reads(mid, m, y) implies (items_readable::<S>(
                        m,
                        (k - 1) as nat,
                    ) <==> items_readable::<S>(next, (k - 1) as nat)) by {
                        S::lemma_reads_unique(mid, m, next, y, x);
                    }
                    assert(items_readable::<S>(mid, k) <==> items_readable::<S>(next, (k - 1) as nat));
                }
            }
            v.push(x);
            i = i + 1;
        }
        Ok(v)
    }

    fn write<W: Writer>(&self, writer: &mut W) -> (r: Result<(), Error>) {
        let len = self.len();
        proof {
            lemma_be_bytes_len(len as nat, 8);
        }
        match writer.write_usize(len) {
            Ok(()) => {},
            Err(e) => {
                proof {
                    let a = be_bytes(len as nat, 8);
                    assert(self.ser_bytes().subrange(0, a.len() as int) =~= a);
                    lemma_refused_prefix(*old(writer), a, self.ser_bytes(), *writer, e);
                }
                return Err(e);
            },
        }
        let mut i: usize = 0;
        assert(self@.subrange(0, 0) =~= Seq::<S>::empty());
        while i < len
            invariant
                i <= len,
                len == self@.len(),
                writer.written() == old(writer).written() + be_bytes(len as nat, 8) + items_bytes(self@.subrange(0, i as int)),
                writer.never_fails() == old(writer).never_fails(),
            decreases len - i,
        {
            let ghost mid = *writer;
            match self[i].write(writer) {
                Ok(()) => {},
                Err(e) => {
                    proof {
                        let head = be_bytes(len as nat, 8) + items_bytes(self@.subrange(0, i as int));
                        assert(mid.written() =~= old(writer).written() + head);
                        lemma_refused_later(*old(writer), head, mid, self@[i as int].ser_bytes(), *writer, e);
                        assert(self@.subrange(0, i + 1).drop_last() =~= self@.subrange(0, i as int));
                        let upto = self@.subrange(0, i + 1);
                        let rest = self@.subrange(i + 1, len as int);
                        lemma_items_concat(upto, rest);
                        assert(upto + rest =~= self@);
                        let a = head + self@[i as int].ser_bytes();
                        assert(a =~= be_bytes(len as nat, 8) + items_bytes(upto));
                        assert(self.ser_bytes().subrange(0, a.len() as int) =~= a);
                        lemma_refused_prefix(*old(writer), a, self.ser_bytes(), *writer, e);
                    }
                    return Err(e);
                },
            }
            assert(self@.subrange(0, i + 1).drop_last() =~= self@.subrange(0, i as int));
            assert(writer.written() =~= old(writer).written() + be_bytes(len as nat, 8) + items_bytes(self@.subrange(0, i + 1)));
            i = i + 1;
        }
        assert(self@.subrange(0, len as int) =~= self@);
        assert(writer.written() =~= old(writer).written() + self.ser_bytes());
        Ok(())
    }
}

/// A writer into a vector of bytes.
pub struct VecWriter {
    /// The bytes written.
    pub buf: Vec<u8>,
}

impl WriterState for VecWriter {
    open spec fn written(&self) -> Seq<u8> {
        self.buf@
    }

    open spec fn never_fails(&self) -> bool {
        true
    }

    /// A vector writer refuses nothing.
    open spec fn refuses(before: Self, bytes: Seq<u8>, after: Self, e: Error) -> bool {
        false
    }
}

impl Writer for VecWriter {

    /// Appends the bytes; never fails.
    fn write_fixed_bytes(&mut self, bytes: &[u8]) -> (r: Result<(), Error>)
        ensures
            r is Ok,
    {
        self.buf.extend_from_slice(bytes);
        Ok(())
    }
}

/// A reader of a vector of bytes, from a position on.
pub struct SliceReader {
    data: Vec<u8>,
    pos: usize,
}

impl SliceReader {
    /// The position is within the bytes.
    #[verifier::type_invariant]
    spec fn wf(&self) -> bool {
        self.pos <= self.data@.len()
    }

    /// A reader at the start of `data`.
    pub fn new(data: Vec<u8>) -> (r: SliceReader)
        ensures
            r.remaining() == data@,
    {
        let r = SliceReader { data, pos: 0 };
        assert(r.data@.subrange(0, r.data@.len() as int) =~= r.data@);
        r
    }
}

impl Reader for SliceReader {
    closed spec fn remaining(&self) -> Seq<u8> {
        self.data@.subrange(self.pos as int, self.data@.len() as int)
    }

    open spec fn fails_only_at_end(&self) -> bool {
        true
    }

    /// Fills `buf`, or fails with an unexpected end of the data, reading nothing.
    fn read_fixed_bytes(&mut self, buf: &mut [u8]) -> (r: Result<(), Error>)
        ensures
            r is Err <==> old(self).remaining().len() < old(buf)@.len(),
            r matches Err(e) ==> is_err_of(e, ErrKind::UnexpectedEof, "failed to fill whole buffer"@),
    {
        proof {
            use_type_invariant(&*self);
        }
        let n = buf.len();
        let len = self.data.len();
        if len - self.pos < n {
            return Err(err(ErrKind::UnexpectedEof, "failed to fill whole buffer"));
        }
        let ghost rem = self.remaining();
        let mut i: usize = 0;
        while i < n
            invariant
                n == buf@.len(),
                len == self.data@.len(),
                self.pos + n <= len,
                i <= n,
                rem == self.data@.subrange(self.pos as int, len as int),
                forall|k: int| 0 <= k < i ==> buf@[k] == rem[k],
            decreases n - i,
        {
            buf[i] = self.data[self.pos + i];
            i = i + 1;
        }
        assert(buf@ =~= rem.subrange(0, n as int));
        self.pos = self.pos + n;
        assert(self.remaining() =~= rem.subrange(n as int, rem.len() as int));
        Ok(())
    }
}

/// What a value writes, reading gives back, and the bytes after it are left to read (for
/// every value of the numeric types, and for others as `round_trips` says).
pub proof fn law_write_then_read<S: Serializable>(v: S, rest: Seq<u8>)
    requires
        v.round_trips(),
    ensures
        S::reads(v.ser_bytes() + rest, rest, v),
{
    S::lemma_roundtrip(v, rest);
}

/// The bytes a value writes, followed by any others, are readable, so a reader that fails
/// only at the end reads them successfully (see `Serializable::read`); and whatever value a
/// reading of them gives writes the same bytes, and leaves exactly the bytes that followed.
pub proof fn law_read_back<S: Serializable>(v: S, rest: Seq<u8>, w: S, after: Seq<u8>)
    requires
        v.round_trips(),
        S::reads(v.ser_bytes() + rest, after, w),
    ensures
        S::readable(v.ser_bytes() + rest),
        after == rest,
        w.ser_bytes() == v.ser_bytes(),
{
    S::lemma_roundtrip(v, rest);
    S::lemma_reads_unique(v.ser_bytes() + rest, after, rest, w, v);
}

/// Whether every value of `S` that round-trips reads back as itself from the bytes it
/// writes, whatever follows them.
pub open spec fn reads_back_exactly<S: Serializable>() -> bool {
    forall|x: S, r: Seq<u8>, a: Seq<u8>, y: S| x.round_trips() && #[trigger] S::reads(x.ser_bytes() + r, a, y) ==> y == x
}

/// The bytes of the items from index `j` on.
proof fn lemma_items_from<S: Serializable>(items: Seq<S>, j: int)
    requires
        0 <= j < items.len(),
    ensures
        items_bytes(items.subrange(j, items.len() as int)) == items[j].ser_bytes() + items_bytes(
            items.subrange(j + 1, items.len() as int),
        ),
{
    let one = seq![items[j]];
    let tail = items.subrange(j + 1, items.len() as int);
    lemma_items_concat(one, tail);
    assert(one + tail =~= items.subrange(j, items.len() as int));
    assert(one.drop_last() =~= Seq::<S>::empty());
    assert(items_bytes(one.drop_last()) =~= Seq::<u8>::empty());
    assert(one.last() == items[j]);
    assert(items_bytes(one) =~= items[j].ser_bytes());
}

/// Each reading step of a vector's items, from the bytes the items wrote, leaves the bytes
/// of the items that follow, and gives the item that was written.
proof fn lemma_item_states<S: Serializable>(st: Seq<Seq<u8>>, v: Seq<S>, w: Seq<S>, rest: Seq<u8>, after: Seq<u8>, j: nat)
    requires
        reads_back_exactly::<S>(),
        forall|i: int| 0 <= i < v.len() ==> (#[trigger] v[i]).round_trips(),
        read_states(st, items_bytes(v) + rest, after, w),
        w.len() == v.len(),
        j <= v.len(),
    ensures
        st[j as int] == items_bytes(v.subrange(j as int, v.len() as int)) + rest,
        forall|i: int| 0 <= i < j ==> w[i] == v[i],
    decreases j,
{
    if j == 0 {
        assert(v.subrange(0, v.len() as int) =~= v);
    } else {
        let i = j - 1;
        lemma_item_states(st, v, w, rest, after, i as nat);
        lemma_items_from(v, i as int);
        let next = items_bytes(v.subrange(j as int, v.len() as int)) + rest;
        assert(st[i as int] =~= v[i as int].ser_bytes() + next);
        assert(S::reads(st[i as int], st[i + 1], w[i as int]));
        S::lemma_roundtrip(v[i as int], next);
        S::lemma_reads_unique(st[i as int], st[i + 1], next, w[i as int], v[i as int]);
        assert(w[i as int] == v[i as int]);
    }
}

/// A vector of values that read back exactly reads back as the same vector from the bytes
/// it writes, leaving the bytes that followed.
pub proof fn law_vec_read_back<S: Serializable>(v: Vec<S>, rest: Seq<u8>, w: Vec<S>, after: Seq<u8>)
    requires
        reads_back_exactly::<S>(),
        v.round_trips(),
        Vec::<S>::reads(v.ser_bytes() + rest, after, w),
    ensures
        w@ == v@,
        after == rest,
{
    Vec::<S>::lemma_roundtrip(v, rest);
    Vec::<S>::lemma_reads_unique(v.ser_bytes() + rest, after, rest, w, v);
    let all = v.ser_bytes() + rest;
    lemma_be_bytes_len(v.len() as nat, 8);
    assert(all.subrange(0, 8) =~= be_bytes(v.len() as nat, 8));
    reveal_with_fuel(pow256, 9);
    lemma_be_roundtrip(v.len() as nat, 8);
    assert(all.subrange(8, all.len() as int) =~= items_bytes(v@) + rest);
    let st = choose|states: Seq<Seq<u8>>| #[trigger] read_states(states, items_bytes(v@) + rest, after, w@);
    lemma_item_states(st, v@, w@, rest, after, v@.len());
    assert(w@ =~= v@);
}

/// An optional value that reads back exactly reads back as the same option from the bytes
/// it writes: a zero byte gives `None`, and a one byte followed by the value gives it back,
/// leaving the bytes that followed.
pub proof fn law_option_read_back<S: Serializable>(v: Option<S>, rest: Seq<u8>, w: Option<S>, after: Seq<u8>)
    requires
        reads_back_exactly::<S>(),
        v.round_trips(),
        Option::<S>::reads(v.ser_bytes() + rest, after, w),
    ensures
        w == v,
        after == rest,
{
    Option::<S>::lemma_roundtrip(v, rest);
    Option::<S>::lemma_reads_unique(v.ser_bytes() + rest, after, rest, w, v);
    let all = v.ser_bytes() + rest;
    match v {
        Some(x) => {
            assert(all[0] == 1u8);
            assert(all.subrange(1, all.len() as int) =~= x.ser_bytes() + rest);
            match w {
                Some(y) => {
                    assert(S::reads(x.ser_bytes() + rest, after, y));
                },
                None => {},
            }
        },
        None => {
            assert(all[0] == 0u8);
        },
    }
}

/// A vector of numbers reads back as the same numbers from the bytes it writes.
pub proof fn law_vec_u64_read_back(v: Vec<u64>, rest: Seq<u8>, w: Vec<u64>, after: Seq<u8>)
    requires
        Vec::<u64>::reads(v.ser_bytes() + rest, after, w),
    ensures
        w@ == v@,
        after == rest,
{
    assert forall|x: u64, r: Seq<u8>, a: Seq<u8>, y: u64| x.round_trips() && #[trigger] u64::reads(x.ser_bytes() + r, a, y) implies y == x by {
        law_u64_read_back(x, r, y, a);
    }
    law_vec_read_back(v, rest, w, after);
}

/// A string, whatever its characters, reads back as the same text from the bytes it writes.
pub proof fn law_string_read_back(v: String, rest: Seq<u8>, w: String, after: Seq<u8>)
    requires
        v.round_trips(),
        String::reads(v.ser_bytes() + rest, after, w),
    ensures
        w@ == v@,
        after == rest,
{
    String::lemma_roundtrip(v, rest);
    String::lemma_reads_unique(v.ser_bytes() + rest, after, rest, w, v);
}

/// A number reads back as the same number from the bytes it writes.
pub proof fn law_u64_read_back(v: u64, rest: Seq<u8>, w: u64, after: Seq<u8>)
    requires
        u64::reads(v.ser_bytes() + rest, after, w),
    ensures
        w == v,
        after == rest,
{
    u64::lemma_reads_unique(v.ser_bytes() + rest, after, rest, w, v);
    reveal_with_fuel(pow256, 9);
    lemma_be_roundtrip(v as nat, 8);
    lemma_be_roundtrip(w as nat, 8);
}

/// The zero bytes that `write_empty_bytes` writes are what `read_empty_bytes` accepts: before
/// any `rest`, the first `length` bytes are all zero, and reading them leaves `rest`.
pub proof fn law_empty_bytes_read_back(length: nat, rest: Seq<u8>)
    ensures
        ({
            let b = Seq::new(length, |i: int| 0u8) + rest;
            &&& b.len() >= length
            &&& b.subrange(0, length as int) == Seq::new(length, |i: int| 0u8)
            &&& b.subrange(length as int, b.len() as int) == rest
            &&& forall|k: int| 0 <= k < length ==> b[k] == 0
        }),
{
    let b = Seq::new(length, |i: int| 0u8) + rest;
    assert(b.subrange(0, length as int) =~= Seq::new(length, |i: int| 0u8));
    assert(b.subrange(length as int, b.len() as int) =~= rest);
}

} // verus!
