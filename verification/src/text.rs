//! Byte-level utilities shared by the framing codec and the RXLOG parser:
//! searching for a byte, trimming ASCII whitespace, splitting on commas,
//! substring search, and decimal formatting / parsing.

use vstd::prelude::*;

verus! {

/// The line feed byte that terminates an ASCII unit on the wire.
pub const LF: u8 = 10;

/// The carriage return byte appended after the line feed on outbound lines.
pub const CR: u8 = 13;

/// The comma that separates RXLOG fields.
pub const COMMA: u8 = 44;

/// Index of the first occurrence of `b` in `s`, if any.
pub open spec fn find_byte(s: Seq<u8>, b: u8) -> Option<int>
    decreases s.len(),
{
    if s.len() == 0 {
        None
    } else if s[0] == b {
        Some(0)
    } else {
        match find_byte(s.drop_first(), b) {
            None => None,
            Some(i) => Some(i + 1),
        }
    }
}

/// What `find_byte` returns: the least index holding `b`.
pub proof fn lemma_find_byte(s: Seq<u8>, b: u8)
    ensures
        match find_byte(s, b) {
            None => forall|i: int| 0 <= i < s.len() ==> s[i] != b,
            Some(n) => 0 <= n < s.len() && s[n] == b && forall|i: int| 0 <= i < n ==> s[i] != b,
        },
    decreases s.len(),
{
    if s.len() > 0 && s[0] != b {
        lemma_find_byte(s.drop_first(), b);
        assert(forall|i: int| 1 <= i < s.len() ==> s[i] == s.drop_first()[i - 1]);
    }
}

/// The converse: a least occurrence pins `find_byte` down.
pub proof fn lemma_find_byte_at(s: Seq<u8>, b: u8, n: int)
    requires
        0 <= n < s.len(),
        s[n] == b,
        forall|i: int| 0 <= i < n ==> s[i] != b,
    ensures
        find_byte(s, b) == Some(n),
{
    lemma_find_byte(s, b);
    match find_byte(s, b) {
        None => {
            assert(s[n] != b);
        }
        Some(m) => {
            if m < n {
                assert(s[m] != b);
            } else if n < m {
                assert(s[n] != b);
            }
        }
    }
}

/// Absence of `b` everywhere pins `find_byte` to `None`.
pub proof fn lemma_find_byte_none(s: Seq<u8>, b: u8)
    requires
        forall|i: int| 0 <= i < s.len() ==> s[i] != b,
    ensures
        find_byte(s, b) == None::<int>,
{
    lemma_find_byte(s, b);
    if let Some(n) = find_byte(s, b) {
        assert(s[n] != b);
    }
}

/// Finds the first occurrence of `b` in `s`.
pub fn find_byte_exec(s: &Vec<u8>, b: u8) -> (r: Option<usize>)
    ensures
        match r {
            None => find_byte(s@, b) is None,
            Some(n) => find_byte(s@, b) == Some(n as int),
        },
{
    let mut i: usize = 0;
    while i < s.len()
        invariant
            0 <= i <= s@.len(),
            forall|j: int| 0 <= j < i ==> s@[j] != b,
        decreases s@.len() - i,
    {
        if s[i] == b {
            proof {
                lemma_find_byte_at(s@, b, i as int);
            }
            return Some(i);
        }
        i += 1;
    }
    proof {
        lemma_find_byte_none(s@, b);
    }
    None
}

/// Copies `s[lo..hi]` into a fresh vector.
pub fn subvec(s: &Vec<u8>, lo: usize, hi: usize) -> (r: Vec<u8>)
    requires
        lo <= hi <= s@.len(),
    ensures
        r@ == s@.subrange(lo as int, hi as int),
{
    let mut r: Vec<u8> = Vec::new();
    let mut i: usize = lo;
    while i < hi
        invariant
            lo <= i <= hi <= s@.len(),
            r@ == s@.subrange(lo as int, i as int),
        decreases hi - i,
    {
        r.push(s[i]);
        proof {
            assert(r@ =~= s@.subrange(lo as int, i + 1 as int));
        }
        i += 1;
    }
    r
}

/// ASCII whitespace, as `u8::is_ascii_whitespace` has it: space, tab, line
/// feed, form feed, carriage return.
pub open spec fn is_ws(b: u8) -> bool {
    b == 32 || b == 9 || b == 10 || b == 12 || b == 13
}

/// `s` with ASCII whitespace removed from both ends.
pub open spec fn trim(s: Seq<u8>) -> Seq<u8>
    decreases s.len(),
{
    if s.len() == 0 {
        s
    } else if is_ws(s[0]) {
        trim(s.drop_first())
    } else if is_ws(s.last()) {
        trim(s.drop_last())
    } else {
        s
    }
}

/// A sequence of nothing but whitespace trims to nothing.
pub proof fn lemma_trim_all_ws(s: Seq<u8>)
    requires
        forall|i: int| 0 <= i < s.len() ==> is_ws(s[i]),
    ensures
        trim(s) =~= Seq::<u8>::empty(),
    decreases s.len(),
{
    if s.len() > 0 {
        assert(forall|i: int| 0 <= i < s.drop_first().len() ==> s.drop_first()[i] == s[i + 1]);
        lemma_trim_all_ws(s.drop_first());
    }
}

/// Trimming keeps exactly the span from the first to the last
/// non-whitespace byte.
pub proof fn lemma_trim_subrange(s: Seq<u8>, lo: int, hi: int)
    requires
        0 <= lo <= hi < s.len(),
        !is_ws(s[lo]),
        !is_ws(s[hi]),
        forall|i: int| 0 <= i < lo ==> is_ws(s[i]),
        forall|i: int| hi < i < s.len() ==> is_ws(s[i]),
    ensures
        trim(s) == s.subrange(lo, hi + 1),
    decreases s.len(),
{
    let d = s.drop_first();
    if lo > 0 {
        assert(forall|i: int| 0 <= i < d.len() ==> d[i] == s[i + 1]);
        lemma_trim_subrange(d, lo - 1, hi - 1);
        assert(d.subrange(lo - 1, hi) =~= s.subrange(lo, hi + 1));
    } else if hi < s.len() - 1 {
        let e = s.drop_last();
        assert(forall|i: int| 0 <= i < e.len() ==> e[i] == s[i]);
        lemma_trim_subrange(e, lo, hi);
        assert(e.subrange(lo, hi + 1) =~= s.subrange(lo, hi + 1));
    } else {
        assert(s.subrange(0, s.len() as int) =~= s);
    }
}

/// Trims ASCII whitespace from both ends of `s`.
pub fn trim_bytes(s: &Vec<u8>) -> (r: Vec<u8>)
    ensures
        r@ == trim(s@),
{
    let mut lo: usize = 0;
    while lo < s.len() && is_ws_exec(s[lo])
        invariant
            0 <= lo <= s@.len(),
            forall|j: int| 0 <= j < lo ==> is_ws(s@[j]),
        decreases s@.len() - lo,
    {
        lo += 1;
    }
    if lo == s.len() {
        proof {
            lemma_trim_all_ws(s@);
        }
        return Vec::new();
    }
    let mut hi: usize = s.len() - 1;
    while hi > lo && is_ws_exec(s[hi])
        invariant
            lo <= hi < s@.len(),
            forall|j: int| hi < j < s@.len() ==> is_ws(s@[j]),
        decreases hi,
    {
        hi -= 1;
    }
    proof {
        lemma_trim_subrange(s@, lo as int, hi as int);
    }
    subvec(s, lo, hi + 1)
}

/// Whether `b` is ASCII whitespace.
pub fn is_ws_exec(b: u8) -> (r: bool)
    ensures
        r == is_ws(b),
{
    b == 32 || b == 9 || b == 10 || b == 12 || b == 13
}

/// The fields of `s` split on commas. A sequence without a comma is one
/// field; every comma separates two fields, so `n` commas give `n + 1`
/// fields, empty ones included.
pub open spec fn split_commas(s: Seq<u8>) -> Seq<Seq<u8>>
    decreases s.len(),
    via split_commas_decreases
{
    match find_byte(s, COMMA) {
        None => seq![s],
        Some(i) => seq![s.take(i)] + split_commas(s.skip(i + 1)),
    }
}

#[via_fn]
proof fn split_commas_decreases(s: Seq<u8>) {
    lemma_find_byte(s, COMMA);
}

/// Splits `s` into its comma-separated fields.
pub fn split_commas_exec(s: &Vec<u8>) -> (r: Vec<Vec<u8>>)
    ensures
        r.deep_view() == split_commas(s@),
{
    let mut r: Vec<Vec<u8>> = Vec::new();
    let mut start: usize = 0;
    let mut i: usize = 0;
    proof {
        assert(s@.skip(0) =~= s@);
        assert(r.deep_view() + split_commas(s@) =~~= split_commas(s@));
    }
    while i < s.len()
        invariant
            0 <= start <= i <= s@.len(),
            forall|j: int| start <= j < i ==> s@[j] != COMMA,
            split_commas(s@) =~~= r.deep_view() + split_commas(s@.skip(start as int)),
        decreases s@.len() - i,
    {
        if s[i] == COMMA {
            let field = subvec(s, start, i);
            let ghost pre = r.deep_view();
            r.push(field);
            proof {
                let rest = s@.skip(start as int);
                assert(forall|j: int| 0 <= j <= i - start ==> rest[j] == s@[start + j]);
                lemma_find_byte_at(rest, COMMA, i - start as int);
                assert(rest.take(i - start as int) =~= field@);
                assert(rest.skip(i - start + 1) =~= s@.skip(i + 1));
                assert(r.deep_view() =~~= pre + seq![field@]);
                assert(split_commas(rest) == seq![rest.take(i - start as int)] + split_commas(
                    rest.skip(i - start + 1),
                ));
                assert(split_commas(s@) =~~= r.deep_view() + split_commas(s@.skip(i + 1)));
            }
            start = i + 1;
        }
        i += 1;
    }
    let field = subvec(s, start, s.len());
    let ghost pre = r.deep_view();
    r.push(field);
    proof {
        let rest = s@.skip(start as int);
        assert(forall|j: int| 0 <= j < rest.len() ==> rest[j] == s@[start + j]);
        lemma_find_byte_none(rest, COMMA);
        assert(rest =~= field@);
        assert(r.deep_view() =~~= pre + seq![field@]);
        assert(r.deep_view() =~~= split_commas(s@));
    }
    r
}

/// `pat` occurs in `s` at offset `i`.
pub open spec fn occurs_at(s: Seq<u8>, pat: Seq<u8>, i: int) -> bool {
    0 <= i && i + pat.len() <= s.len() && s.subrange(i, i + pat.len()) =~= pat
}

/// `pat` occurs somewhere in `s`.
pub open spec fn contains_seq(s: Seq<u8>, pat: Seq<u8>) -> bool {
    exists|i: int| occurs_at(s, pat, i)
}

/// Whether two byte vectors hold the same bytes.
pub fn bytes_eq(a: &Vec<u8>, b: &Vec<u8>) -> (r: bool)
    ensures
        r == (a@ =~= b@),
{
    if a.len() != b.len() {
        return false;
    }
    let mut i: usize = 0;
    while i < a.len()
        invariant
            a@.len() == b@.len(),
            0 <= i <= a@.len(),
            forall|j: int| 0 <= j < i ==> a@[j] == b@[j],
        decreases a@.len() - i,
    {
        if a[i] != b[i] {
            return false;
        }
        i += 1;
    }
    true
}

/// Whether `pat` stands at offset `i` of `s`.
fn match_at(s: &Vec<u8>, pat: &Vec<u8>, i: usize) -> (r: bool)
    requires
        i + pat@.len() <= s@.len(),
    ensures
        r == occurs_at(s@, pat@, i as int),
{
    let n = s.len();
    let mut j: usize = 0;
    while j < pat.len()
        invariant
            i + pat@.len() <= s@.len(),
            s@.len() == n,
            0 <= j <= pat@.len(),
            forall|k: int| 0 <= k < j ==> s@[i + k] == pat@[k],
        decreases pat@.len() - j,
    {
        if s[i + j] != pat[j] {
            proof {
                if occurs_at(s@, pat@, i as int) {
                    let sub = s@.subrange(i as int, i + pat@.len());
                    assert(forall|k: int| 0 <= k < pat@.len() ==> #[trigger] sub[k] == s@[i + k]);
                    assert(sub[j as int] == pat@[j as int]);
                }
            }
            return false;
        }
        j += 1;
    }
    proof {
        assert(s@.subrange(i as int, i + pat@.len()) =~= pat@);
    }
    true
}

/// Whether `pat` occurs as a contiguous run of bytes in `s`.
pub fn contains_exec(s: &Vec<u8>, pat: &Vec<u8>) -> (r: bool)
    ensures
        r == contains_seq(s@, pat@),
{
    if pat.len() > s.len() {
        proof {
            assert(forall|i: int| !occurs_at(s@, pat@, i));
        }
        return false;
    }
    let mut i: usize = 0;
    while i <= s.len() - pat.len()
        invariant
            pat@.len() <= s@.len(),
            0 <= i <= s@.len() - pat@.len() + 1,
            forall|k: int| 0 <= k < i ==> !occurs_at(s@, pat@, k),
        decreases s@.len() - i,
    {
        if match_at(s, pat, i) {
            return true;
        }
        i += 1;
    }
    proof {
        assert(forall|k: int| occurs_at(s@, pat@, k) ==> 0 <= k <= s@.len() - pat@.len());
    }
    false
}

/// An ASCII decimal digit.
pub open spec fn is_digit(b: u8) -> bool {
    48 <= b <= 57
}

/// Every byte of `s` is a decimal digit.
pub open spec fn all_digits(s: Seq<u8>) -> bool {
    forall|i: int| 0 <= i < s.len() ==> is_digit(#[trigger] s[i])
}

/// The value of `s` read as a decimal numeral, most significant digit
/// first. Meaningful only when `all_digits(s)` holds.
pub open spec fn dec_val(s: Seq<u8>) -> nat
    decreases s.len(),
{
    if s.len() == 0 {
        0
    } else {
        dec_val(s.drop_last()) * 10 + (s.last() - 48) as nat
    }
}

/// `s` parses as an unsigned 64-bit decimal numeral: nonempty, digits
/// only, and within range.
pub open spec fn dec_parses_u64(s: Seq<u8>) -> bool {
    s.len() > 0 && all_digits(s) && dec_val(s) <= u64::MAX
}

/// Reading one more digit multiplies the prefix value by ten.
pub proof fn lemma_dec_val_take_succ(s: Seq<u8>, i: int)
    requires
        0 <= i < s.len(),
    ensures
        dec_val(s.take(i + 1)) == dec_val(s.take(i)) * 10 + (s[i] - 48) as nat,
{
    assert(s.take(i + 1).drop_last() =~= s.take(i));
    assert(s.take(i + 1).last() == s[i]);
}

/// Under digits, a numeral's value only grows as digits are appended.
pub proof fn lemma_dec_val_prefix_le(s: Seq<u8>, i: int)
    requires
        0 <= i <= s.len(),
        all_digits(s),
    ensures
        dec_val(s.take(i)) <= dec_val(s),
    decreases s.len() - i,
{
    if i < s.len() {
        lemma_dec_val_take_succ(s, i);
        assert(dec_val(s.take(i)) * 10 >= dec_val(s.take(i)) * 1) by (nonlinear_arith);
        lemma_dec_val_prefix_le(s, i + 1);
        assert(s.take(s.len() as int) =~= s);
    } else {
        assert(s.take(i) =~= s);
    }
}

/// Parses `s` as an unsigned 64-bit decimal numeral: digits only, no
/// sign, no surrounding whitespace.
pub fn parse_u64(s: &Vec<u8>) -> (r: Option<u64>)
    ensures
        match r {
            Some(v) => dec_parses_u64(s@) && v == dec_val(s@),
            None => !dec_parses_u64(s@),
        },
{
    if s.len() == 0 {
        return None;
    }
    let mut acc: u64 = 0;
    let mut i: usize = 0;
    while i < s.len()
        invariant
            0 <= i <= s@.len(),
            all_digits(s@.take(i as int)),
            acc == dec_val(s@.take(i as int)),
        decreases s@.len() - i,
    {
        let b = s[i];
        if b < 48 || b > 57 {
            return None;
        }
        let d: u64 = (b - 48) as u64;
        proof {
            lemma_dec_val_take_succ(s@, i as int);
            assert(all_digits(s@.take(i + 1)));
        }
        if acc > 1844674407370955161 || (acc == 1844674407370955161 && d > 5) {
            proof {
                if all_digits(s@) {
                    lemma_dec_val_prefix_le(s@, i + 1);
                }
            }
            return None;
        }
        acc = acc * 10 + d;
        i += 1;
    }
    proof {
        assert(s@.take(s@.len() as int) =~= s@);
    }
    Some(acc)
}

/// The decimal numeral for `n`, without leading zeros.
pub open spec fn dec_u8(n: u8) -> Seq<u8> {
    if n < 10 {
        seq![(n + 48) as u8]
    } else if n < 100 {
        seq![(n / 10 + 48) as u8, (n % 10 + 48) as u8]
    } else {
        seq![(n / 100 + 48) as u8, (n / 10 % 10 + 48) as u8, (n % 10 + 48) as u8]
    }
}

/// Appends the decimal numeral for `n` to `out`.
pub fn push_dec_u8(n: u8, out: &mut Vec<u8>)
    ensures
        final(out)@ == old(out)@ + dec_u8(n),
{
    if n < 10 {
        out.push(n + 48);
        proof {
            assert(out@ =~= old(out)@ + dec_u8(n));
        }
    } else if n < 100 {
        out.push(n / 10 + 48);
        out.push(n % 10 + 48);
        proof {
            assert(out@ =~= old(out)@ + dec_u8(n));
        }
    } else {
        out.push(n / 100 + 48);
        out.push(n / 10 % 10 + 48);
        out.push(n % 10 + 48);
        proof {
            assert(out@ =~= old(out)@ + dec_u8(n));
        }
    }
}

} // verus!
