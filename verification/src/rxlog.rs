//! Parsing of RXLOG records: the device's human-readable lines for
//! received radio frames. A well-formed record is five comma-separated
//! fields — timestamp, the literal tag `RXLOG`, rssi, snr, and a
//! hex-encoded payload. Bad arity, a bad timestamp or bad hex drop the
//! record; a bad rssi or snr only leaves that field absent.

use vstd::prelude::*;

use crate::text::{dec_parses_u64, dec_val, parse_u64, split_commas, split_commas_exec, trim,
    trim_bytes};

verus! {

/// A hex digit, upper or lower case.
pub open spec fn is_hex_digit(b: u8) -> bool {
    (48 <= b <= 57) || (65 <= b <= 70) || (97 <= b <= 102)
}

/// The value of one hex digit.
pub open spec fn hex_val(b: u8) -> nat {
    if 48 <= b <= 57 {
        (b - 48) as nat
    } else if 65 <= b <= 70 {
        (b - 65 + 10) as nat
    } else if 97 <= b <= 102 {
        (b - 97 + 10) as nat
    } else {
        0
    }
}

/// `s` is a well-formed hex payload: even length, hex digits only.
pub open spec fn hex_ok(s: Seq<u8>) -> bool {
    s.len() % 2 == 0 && forall|i: int| 0 <= i < s.len() ==> is_hex_digit(#[trigger] s[i])
}

/// The bytes a hex payload denotes: each pair of digits one byte, high
/// digit first.
pub open spec fn hex_bytes(s: Seq<u8>) -> Seq<u8>
    decreases s.len(),
{
    if s.len() < 2 {
        Seq::empty()
    } else {
        seq![(hex_val(s[0]) * 16 + hex_val(s[1])) as u8] + hex_bytes(s.skip(2))
    }
}

/// Relies on `hex::decode`: it accepts exactly an even number of
/// case-insensitive hex digits and returns one byte per digit pair, high
/// digit first.
#[verifier::external_body]
fn hex_decode(s: &Vec<u8>) -> (r: Option<Vec<u8>>)
    ensures
        r is Some <==> hex_ok(s@),
        r matches Some(v) ==> v@ == hex_bytes(s@),
{
    hex::decode(s).ok()
}

/// An ASCII letter lowered; anything else unchanged.
pub open spec fn to_lower(b: u8) -> u8 {
    if 65 <= b <= 90 {
        (b + 32) as u8
    } else {
        b
    }
}

/// The plus sign.
pub const PLUS: u8 = 43;

/// The minus sign.
pub const MINUS: u8 = 45;

/// The decimal point.
pub const DOT: u8 = 46;

/// Lower-case `e`, the exponent mark once a numeral is lowered.
pub const EXP_MARK: u8 = 101;

/// `"inf"`, lowered.
pub open spec fn inf_pat() -> Seq<u8> {
    seq![105u8, 110u8, 102u8]
}

/// `"infinity"`, lowered.
pub open spec fn infinity_pat() -> Seq<u8> {
    seq![105u8, 110u8, 102u8, 105u8, 110u8, 105u8, 116u8, 121u8]
}

/// `"nan"`, lowered.
pub open spec fn nan_pat() -> Seq<u8> {
    seq![110u8, 97u8, 110u8]
}

/// A lowered mantissa: digits, or digits around one decimal point with a
/// digit on at least one side.
pub open spec fn is_mantissa(t: Seq<u8>) -> bool {
    match crate::text::find_byte(t, DOT) {
        None => t.len() > 0 && crate::text::all_digits(t),
        Some(i) => t.len() >= 2 && crate::text::all_digits(t.take(i)) && crate::text::all_digits(
            t.skip(i + 1),
        ),
    }
}

/// A lowered exponent part: an optional sign, then at least one digit.
pub open spec fn is_exp_part(u: Seq<u8>) -> bool {
    let v = if u.len() > 0 && (u[0] == PLUS || u[0] == MINUS) {
        u.skip(1)
    } else {
        u
    };
    v.len() > 0 && crate::text::all_digits(v)
}

/// A lowered number: a mantissa, optionally followed by an exponent mark
/// and an exponent part.
pub open spec fn is_float_number(t: Seq<u8>) -> bool {
    match crate::text::find_byte(t, EXP_MARK) {
        None => is_mantissa(t),
        Some(i) => is_mantissa(t.take(i)) && is_exp_part(t.skip(i + 1)),
    }
}

/// Whether a field's bytes parse as a float, by the grammar that `f32`'s
/// `FromStr` documents: an optional sign, then `inf`, `infinity` or `nan`
/// (case-insensitive) or a decimal number with an optional exponent.
pub open spec fn float_text(s: Seq<u8>) -> bool {
    let l = s.map_values(|b: u8| to_lower(b));
    let t = if l.len() > 0 && (l[0] == PLUS || l[0] == MINUS) {
        l.skip(1)
    } else {
        l
    };
    t == inf_pat() || t == infinity_pat() || t == nan_pat() || is_float_number(t)
}

/// Whether every byte is a decimal digit.
fn all_digits_exec(s: &Vec<u8>) -> (r: bool)
    ensures
        r == crate::text::all_digits(s@),
{
    let mut i: usize = 0;
    while i < s.len()
        invariant
            0 <= i <= s@.len(),
            forall|j: int| 0 <= j < i ==> crate::text::is_digit(#[trigger] s@[j]),
        decreases s@.len() - i,
    {
        let b = s[i];
        if b < 48 || b > 57 {
            return false;
        }
        i += 1;
    }
    true
}

/// Lowers every ASCII letter of `s`.
fn lower_vec(s: &Vec<u8>) -> (r: Vec<u8>)
    ensures
        r@ == s@.map_values(|b: u8| to_lower(b)),
{
    let mut r: Vec<u8> = Vec::new();
    let mut i: usize = 0;
    while i < s.len()
        invariant
            0 <= i <= s@.len(),
            r@.len() == i,
            forall|j: int| 0 <= j < i ==> r@[j] == to_lower(#[trigger] s@[j]),
        decreases s@.len() - i,
    {
        let b = s[i];
        if 65 <= b && b <= 90 {
            r.push(b + 32);
        } else {
            r.push(b);
        }
        i += 1;
    }
    proof {
        assert(r@ =~= s@.map_values(|b: u8| to_lower(b)));
    }
    r
}

/// Whether the lowered, unsigned `t` is a mantissa.
fn is_mantissa_exec(t: &Vec<u8>) -> (r: bool)
    ensures
        r == is_mantissa(t@),
{
    let n = t.len();
    match crate::text::find_byte_exec(t, DOT) {
        None => n > 0 && all_digits_exec(t),
        Some(i) => {
            proof {
                crate::text::lemma_find_byte(t@, DOT);
            }
            let before = crate::text::subvec(t, 0, i);
            let after = crate::text::subvec(t, i + 1, t.len());
            proof {
                assert(before@ =~= t@.take(i as int));
                assert(after@ =~= t@.skip(i + 1));
            }
            t.len() >= 2 && all_digits_exec(&before) && all_digits_exec(&after)
        },
    }
}

/// Whether the lowered `u` is an exponent part.
fn is_exp_part_exec(u: &Vec<u8>) -> (r: bool)
    ensures
        r == is_exp_part(u@),
{
    if u.len() > 0 && (u[0] == PLUS || u[0] == MINUS) {
        let v = crate::text::subvec(u, 1, u.len());
        proof {
            assert(v@ =~= u@.skip(1));
        }
        v.len() > 0 && all_digits_exec(&v)
    } else {
        u.len() > 0 && all_digits_exec(u)
    }
}

/// Whether the field `s` parses as a float, by the grammar that `f32`'s
/// `FromStr` documents. The absent-or-present rule for rssi and snr fields
/// turns on this.
pub fn is_float_text(s: &Vec<u8>) -> (r: bool)
    ensures
        r == float_text(s@),
{
    let l = lower_vec(s);
    let t = if l.len() > 0 && (l[0] == PLUS || l[0] == MINUS) {
        let stripped = crate::text::subvec(&l, 1, l.len());
        proof {
            assert(stripped@ =~= l@.skip(1));
        }
        stripped
    } else {
        l
    };
    if is_pat(&t, 105, 110, 102) {
        return true;
    }
    if t.len() == 8 && t[0] == 105 && t[1] == 110 && t[2] == 102 && t[3] == 105 && t[4] == 110
        && t[5] == 105 && t[6] == 116 && t[7] == 121 {
        proof {
            assert(t@ =~= infinity_pat());
        }
        return true;
    }
    if is_pat(&t, 110, 97, 110) {
        return true;
    }
    proof {
        if t@ == inf_pat() || t@ == infinity_pat() || t@ == nan_pat() {
            assert(false);
        }
    }
    match crate::text::find_byte_exec(&t, EXP_MARK) {
        None => is_mantissa_exec(&t),
        Some(i) => {
            proof {
                crate::text::lemma_find_byte(t@, EXP_MARK);
            }
            let mant = crate::text::subvec(&t, 0, i);
            let exp = crate::text::subvec(&t, i + 1, t.len());
            proof {
                assert(mant@ =~= t@.take(i as int));
                assert(exp@ =~= t@.skip(i + 1));
            }
            is_mantissa_exec(&mant) && is_exp_part_exec(&exp)
        },
    }
}

/// Whether `t` is the three bytes given.
fn is_pat(t: &Vec<u8>, a: u8, b: u8, c: u8) -> (r: bool)
    ensures
        r == (t@ =~= seq![a, b, c]),
{
    t.len() == 3 && t[0] == a && t[1] == b && t[2] == c
}

/// One well-formed RXLOG record. The rssi and snr fields keep the device's
/// decimal text, and are present exactly when that text parses as a float;
/// converting the text to a number is the caller's affair.
#[derive(Clone, Debug, PartialEq, Eq)]
pub struct RxRecord {
    /// Device-supplied timestamp.
    pub timestamp: u64,
    /// Received signal strength, as the device printed it, if numeric.
    pub rssi: Option<Vec<u8>>,
    /// Signal-to-noise ratio, as the device printed it, if numeric.
    pub snr: Option<Vec<u8>>,
    /// The decoded payload bytes.
    pub payload: Vec<u8>,
}

/// The field tag that marks a receive-log line.
pub open spec fn rxlog_tag() -> Seq<u8> {
    seq![82u8, 88u8, 76u8, 79u8, 71u8]
}

/// The comma-separated fields of a line, the line and each field trimmed
/// of ASCII whitespace.
pub open spec fn rxlog_fields(line: Seq<u8>) -> Seq<Seq<u8>> {
    split_commas(trim(line)).map_values(|f: Seq<u8>| trim(f))
}

/// A line is a well-formed RXLOG record: exactly five fields, the tag in
/// second place, a decimal 64-bit timestamp, and a well-formed hex
/// payload.
pub open spec fn rxlog_wellformed(line: Seq<u8>) -> bool {
    let fs = rxlog_fields(line);
    fs.len() == 5 && fs[1] == rxlog_tag() && dec_parses_u64(fs[0]) && hex_ok(fs[4])
}

/// An optional field holds the text exactly when it parses as a float.
pub open spec fn opt_field_matches(o: Option<Vec<u8>>, f: Seq<u8>) -> bool {
    match o {
        Some(v) => float_text(f) && v@ == f,
        None => !float_text(f),
    }
}

/// `rec` is the record that the well-formed line `line` denotes.
pub open spec fn rxlog_record_matches(line: Seq<u8>, rec: RxRecord) -> bool {
    let fs = rxlog_fields(line);
    &&& rec.timestamp == dec_val(fs[0])
    &&& opt_field_matches(rec.rssi, fs[2])
    &&& opt_field_matches(rec.snr, fs[3])
    &&& rec.payload@ == hex_bytes(fs[4])
}

/// The exec tag bytes, `"RXLOG"`.
fn rxlog_tag_vec() -> (r: Vec<u8>)
    ensures
        r@ == rxlog_tag(),
{
    let mut v: Vec<u8> = Vec::new();
    v.push(82);
    v.push(88);
    v.push(76);
    v.push(79);
    v.push(71);
    proof {
        assert(v@ =~= rxlog_tag());
    }
    v
}

/// Parses one idle-mode line as an RXLOG record. A line of any other
/// arity, a bad tag, a bad timestamp or a bad hex payload yields nothing
/// and the record is dropped; a non-numeric rssi or snr only leaves that
/// field absent.
pub fn parse_rxlog(line: &Vec<u8>) -> (r: Option<RxRecord>)
    ensures
        match r {
            Some(rec) => rxlog_wellformed(line@) && rxlog_record_matches(line@, rec),
            None => !rxlog_wellformed(line@),
        },
{
    let trimmed = trim_bytes(line);
    let fields = split_commas_exec(&trimmed);
    proof {
        assert(fields.deep_view().len() == rxlog_fields(line@).len());
    }
    if fields.len() != 5 {
        return None;
    }
    let f0 = trim_bytes(&fields[0]);
    let f1 = trim_bytes(&fields[1]);
    let f2 = trim_bytes(&fields[2]);
    let f3 = trim_bytes(&fields[3]);
    let f4 = trim_bytes(&fields[4]);
    proof {
        let fs = rxlog_fields(line@);
        assert(fields.deep_view()[0] == fields@[0].deep_view());
        assert(fields@[0].deep_view() =~= fields@[0]@);
        assert(fields.deep_view()[1] == fields@[1].deep_view());
        assert(fields@[1].deep_view() =~= fields@[1]@);
        assert(fields.deep_view()[2] == fields@[2].deep_view());
        assert(fields@[2].deep_view() =~= fields@[2]@);
        assert(fields.deep_view()[3] == fields@[3].deep_view());
        assert(fields@[3].deep_view() =~= fields@[3]@);
        assert(fields.deep_view()[4] == fields@[4].deep_view());
        assert(fields@[4].deep_view() =~= fields@[4]@);
        assert(fs[0] == f0@ && fs[1] == f1@ && fs[2] == f2@ && fs[3] == f3@ && fs[4] == f4@);
    }
    let tag = rxlog_tag_vec();
    if !crate::text::bytes_eq(&f1, &tag) {
        return None;
    }
    let timestamp = match parse_u64(&f0) {
        Some(t) => t,
        None => {
            return None;
        },
    };
    let payload = match hex_decode(&f4) {
        Some(p) => p,
        None => {
            return None;
        },
    };
    let rssi = if is_float_text(&f2) {
        Some(f2)
    } else {
        None
    };
    let snr = if is_float_text(&f3) {
        Some(f3)
    } else {
        None
    };
    Some(RxRecord { timestamp, rssi, snr, payload })
}

} // verus!
