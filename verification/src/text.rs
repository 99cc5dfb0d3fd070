use vstd::prelude::*;

verus! {

/// The decimal digits of `n`, as ASCII bytes, most significant first.
pub open spec fn dec_bytes(n: nat) -> Seq<u8>
    decreases n,
{
    if n < 10 {
        seq![(48 + n) as u8]
    } else {
        dec_bytes(n / 10).push((48 + n % 10) as u8)
    }
}

/// The decimal digits of `n`, as characters, most significant first.
pub open spec fn dec_chars(n: nat) -> Seq<char>
    decreases n,
{
    if n < 10 {
        seq![(48 + n) as char]
    } else {
        dec_chars(n / 10).push((48 + n % 10) as char)
    }
}

/// Appends the decimal digits of `n` to `out`.
pub fn push_decimal(out: &mut Vec<u8>, n: u64)
    ensures
        final(out)@ == old(out)@ + dec_bytes(n as nat),
    decreases n,
{
    if n >= 10 {
        push_decimal(out, n / 10);
    }
    let d: u8 = (n % 10) as u8;
    out.push(48u8 + d);
    proof {
        assert(old(out)@ + dec_bytes(n as nat) =~= out@);
    }
}

/// The one-character text of a decimal digit.
fn digit_text(d: u64) -> (s: &'static str)
    requires
        d < 10,
    ensures
        s@ == seq![(48 + d) as char],
{
    proof {
        reveal_strlit("0");
        reveal_strlit("1");
        reveal_strlit("2");
        reveal_strlit("3");
        reveal_strlit("4");
        reveal_strlit("5");
        reveal_strlit("6");
        reveal_strlit("7");
        reveal_strlit("8");
        reveal_strlit("9");
    }
    if d == 0 {
        "0"
    } else if d == 1 {
        "1"
    } else if d == 2 {
        "2"
    } else if d == 3 {
        "3"
    } else if d == 4 {
        "4"
    } else if d == 5 {
        "5"
    } else if d == 6 {
        "6"
    } else if d == 7 {
        "7"
    } else if d == 8 {
        "8"
    } else {
        "9"
    }
}

/// Appends the decimal digits of `n` to `out`.
pub fn append_decimal(out: &mut String, n: u128)
    ensures
        final(out)@ == old(out)@ + dec_chars(n as nat),
    decreases n,
{
    if n >= 10 {
        append_decimal(out, n / 10);
    }
    out.append(digit_text((n % 10) as u64));
    proof {
        assert(old(out)@ + dec_chars(n as nat) =~= out@);
    }
}

/// The decimal text of `i`, with a minus sign before a negative number.
pub open spec fn int_chars(i: int) -> Seq<char> {
    if i < 0 {
        seq!['-'] + dec_chars((-i) as nat)
    } else {
        dec_chars(i as nat)
    }
}

/// Appends the decimal text of `n`, with a minus sign when it is negative, to `out`.
pub fn append_signed(out: &mut String, n: i64)
    ensures
        final(out)@ == old(out)@ + int_chars(n as int),
{
    if n < 0 {
        proof {
            reveal_strlit("-");
        }
        out.append("-");
        let m: i128 = 0i128 - (n as i128);
        append_decimal(out, m as u128);
        assert(out@ =~= old(out)@ + int_chars(n as int));
    } else {
        append_decimal(out, n as u128);
    }
}

/// The text of a boolean.
pub open spec fn bool_chars(b: bool) -> Seq<char> {
    if b {
        "true"@
    } else {
        "false"@
    }
}

/// Appends the text of `b` to `out`.
pub fn append_bool(out: &mut String, b: bool)
    ensures
        final(out)@ == old(out)@ + bool_chars(b),
{
    if b {
        out.append("true");
    } else {
        out.append("false");
    }
}

/// Whether `p` occurs in `s`.
pub open spec fn has_substring(s: Seq<char>, p: Seq<char>) -> bool {
    exists|i: int| 0 <= i && i + p.len() <= s.len() && #[trigger] s.subrange(i, i + p.len()) == p
}

/// Returns whether `p` occurs in `s`.
pub fn contains(s: &str, p: &str) -> (r: bool)
    ensures
        r == has_substring(s@, p@),
{
    let n = s.unicode_len();
    let m = p.unicode_len();
    if m > n {
        assert forall|i: int| 0 <= i && i + p@.len() <= s@.len() implies #[trigger] s@.subrange(i, i + p@.len()) != p@ by {}
        return false;
    }
    let mut i: usize = 0;
    while i <= n - m
        invariant
            n == s@.len(),
            m == p@.len(),
            m <= n,
            i <= n - m + 1,
            forall|k: int| 0 <= k < i ==> #[trigger] s@.subrange(k, k + m) != p@,
        decreases n - i,
    {
        let mut j: usize = 0;
        let mut same = true;
        assert(s@.subrange(i as int, i as int) =~= p@.subrange(0, 0));
        while j < m
            invariant
                n == s@.len(),
                m == p@.len(),
                i + m <= n,
                j <= m,
                same == (s@.subrange(i as int, i + j) == p@.subrange(0, j as int)),
            decreases m - j,
        {
            let a = s.get_char(i + j);
            let b = p.get_char(j);
            assert(s@.subrange(i as int, i + j + 1) =~= s@.subrange(i as int, i + j).push(a));
            assert(p@.subrange(0, j + 1) =~= p@.subrange(0, j as int).push(b));
            if same && a != b {
                assert(s@.subrange(i as int, i + j + 1)[j as int] != p@.subrange(0, j + 1)[j as int]);
            }
            if same && a == b {
                assert(s@.subrange(i as int, i + j + 1) =~= p@.subrange(0, j + 1));
            }
            proof {
                if !same && s@.subrange(i as int, i + j + 1) == p@.subrange(0, j + 1) {
                    assert(s@.subrange(i as int, i + j) =~= s@.subrange(i as int, i + j + 1).subrange(0, j as int));
                    assert(p@.subrange(0, j as int) =~= p@.subrange(0, j + 1).subrange(0, j as int));
                }
            }
            same = same && a == b;
            j = j + 1;
        }
        assert(p@.subrange(0, m as int) =~= p@);
        if same {
            return true;
        }
        if i == n - m {
            return false;
        }
        i = i + 1;
    }
    false
}

/// `s` with each `:` replaced by `-`.
pub open spec fn colons_to_dashes(s: Seq<char>) -> Seq<char> {
    s.map_values(|c: char| if c == ':' { '-' } else { c })
}

/// Returns `s` with each `:` replaced by `-`.
pub fn replace_colons(s: &str) -> (r: String)
    ensures
        r@ == colons_to_dashes(s@),
{
    let mut r = String::new();
    let n = s.unicode_len();
    let mut i: usize = 0;
    while i < n
        invariant
            n == s@.len(),
            i <= n,
            r@ == colons_to_dashes(s@.subrange(0, i as int)),
        decreases n - i,
    {
        let c = s.get_char(i);
        if c == ':' {
            proof {
                reveal_strlit("-");
            }
            assert("-"@ =~= seq!['-']);
            r.append("-");
        } else {
            let one = s.substring_char(i, i + 1);
            assert(one@ =~= seq![c]);
            r.append(one);
        }
        assert(s@.subrange(0, i + 1) =~= s@.subrange(0, i as int).push(c));
        assert(colons_to_dashes(s@.subrange(0, i + 1)) =~= colons_to_dashes(
            s@.subrange(0, i as int),
        ).push(if c == ':' { '-' } else { c }));
        i = i + 1;
    }
    assert(s@.subrange(0, n as int) =~= s@);
    r
}

/// The index of the last `c` in `s`, if any.
pub open spec fn last_index_of(s: Seq<char>, c: char) -> Option<int>
    decreases s.len(),
{
    if s.len() == 0 {
        None
    } else if s.last() == c {
        Some(s.len() - 1)
    } else {
        last_index_of(s.drop_last(), c)
    }
}

/// The index of the last `c` in `s` lies within `s` and holds `c`.
pub proof fn lemma_last_index_in_bounds(s: Seq<char>, c: char)
    ensures
        last_index_of(s, c) matches Some(i) ==> 0 <= i < s.len() && s[i] == c,
    decreases s.len(),
{
    if s.len() > 0 && s.last() != c {
        lemma_last_index_in_bounds(s.drop_last(), c);
    }
}

/// Returns the index of the last `c` in `s`, if any.
pub fn rfind_char(s: &str, c: char) -> (r: Option<usize>)
    ensures
        r matches Some(i) ==> last_index_of(s@, c) == Some(i as int) && i < s@.len(),
        r is None ==> last_index_of(s@, c) is None,
{
    proof {
        lemma_last_index_in_bounds(s@, c);
    }
    let n = s.unicode_len();
    let mut i = n;
    assert(s@.subrange(0, n as int) =~= s@);
    while i > 0
        invariant
            n == s@.len(),
            i <= n,
            last_index_of(s@, c) == last_index_of(s@.subrange(0, i as int), c),
        decreases i,
    {
        let d = s.get_char(i - 1);
        assert(s@.subrange(0, i - 1) =~= s@.subrange(0, i as int).drop_last());
        if d == c {
            return Some(i - 1);
        }
        i = i - 1;
    }
    None
}

} // verus!
