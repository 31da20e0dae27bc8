//! Percent-encoding of URL paths.
use vstd::prelude::*;
use vstd::string::*;
use vstd::utf8::{decode_utf8, valid_utf8};

verus! {

/// Whether `b` is an ASCII hexadecimal digit, in either case.
pub open spec fn is_hex(b: u8) -> bool {
    (0x30 <= b && b <= 0x39) || (0x41 <= b && b <= 0x46) || (0x61 <= b && b <= 0x66)
}

/// The value of a hexadecimal digit.
pub open spec fn hex_val(b: u8) -> u8 {
    if b <= 0x39 {
        (b - 0x30) as u8
    } else if b <= 0x46 {
        (b - 0x41 + 10) as u8
    } else {
        (b - 0x61 + 10) as u8
    }
}

/// The upper-case hexadecimal digit for a value below sixteen.
pub open spec fn hex_digit(v: u8) -> u8 {
    if v < 10 {
        (v + 0x30) as u8
    } else {
        (v - 10 + 0x41) as u8
    }
}

/// Percent-decoding: `%` followed by two hexadecimal digits stands for the
/// byte they spell; every other byte stands for itself.
pub open spec fn pct_decode(s: Seq<u8>) -> Seq<u8>
    decreases s.len(),
{
    if s.len() == 0 {
        seq![]
    } else if s[0] == 0x25 && s.len() >= 3 && is_hex(s[1]) && is_hex(s[2]) {
        seq![(hex_val(s[1]) * 16 + hex_val(s[2])) as u8] + pct_decode(s.subrange(3, s.len() as int))
    } else {
        seq![s[0]] + pct_decode(s.subrange(1, s.len() as int))
    }
}

/// The bytes encoded in a link's path: controls, non-ASCII bytes, space,
/// `"`, `<`, `>`, `` ` ``, `#`, `?`, `{` and `}`.
pub open spec fn in_path_set(b: u8) -> bool {
    b < 0x20 || b >= 0x7f || b == 0x20 || b == 0x22 || b == 0x3c || b == 0x3e || b == 0x60
        || b == 0x23 || b == 0x3f || b == 0x7b || b == 0x7d
}

/// One byte, percent-encoded if it is in the path set.
pub open spec fn pct_encode_byte(b: u8) -> Seq<u8> {
    if in_path_set(b) {
        seq![0x25u8, hex_digit(b / 16), hex_digit(b % 16)]
    } else {
        seq![b]
    }
}

/// Percent-encoding of a byte string with the path set.
pub open spec fn pct_encode(s: Seq<u8>) -> Seq<u8>
    decreases s.len(),
{
    if s.len() == 0 {
        seq![]
    } else {
        pct_encode_byte(s[0]) + pct_encode(s.subrange(1, s.len() as int))
    }
}

/// Whether a `%` in `s` is followed by two hexadecimal digits, which
/// decoding would read as an escape.
pub open spec fn has_escape(s: Seq<u8>) -> bool {
    exists|i: int| 0 <= i && i + 2 < s.len() && #[trigger] s[i] == 0x25 && is_hex(s[i + 1]) && is_hex(s[i + 2])
}

/// Relies on percent_encoding::percent_decode_str and PercentDecode::decode_utf8:
/// the bytes of `s` percent-decoded, then read as UTF-8 text if they are valid.
#[verifier::external_body]
pub(crate) fn decode_percent_utf8(s: &str) -> (r: Option<String>)
    ensures
        r.is_some() <==> valid_utf8(pct_decode(s.spec_bytes())),
        r matches Some(t) ==> t@ == decode_utf8(pct_decode(s.spec_bytes())),
{
    percent_encoding::percent_decode_str(s).decode_utf8().ok().map(|c| c.into_owned())
}

/// Bytes read as characters, one for one.
pub open spec fn ascii_chars(b: Seq<u8>) -> Seq<char> {
    b.map_values(|x: u8| x as char)
}

/// Relies on String::push: appends one character.
#[verifier::external_body]
pub(crate) fn push_char(s: &mut String, c: char)
    ensures
        final(s)@ == old(s)@.push(c),
{
    s.push(c)
}

fn hex_digit_exec(v: u8) -> (r: u8)
    requires
        v < 16,
    ensures
        r == hex_digit(v),
{
    if v < 10 {
        v + 0x30
    } else {
        v - 10 + 0x41
    }
}

fn in_path_set_exec(b: u8) -> (r: bool)
    ensures
        r == in_path_set(b),
{
    b < 0x20 || b >= 0x7f || b == 0x20 || b == 0x22 || b == 0x3c || b == 0x3e || b == 0x60
        || b == 0x23 || b == 0x3f || b == 0x7b || b == 0x7d
}

proof fn lemma_pct_encode_append(s: Seq<u8>, i: int)
    requires
        0 <= i < s.len(),
    ensures
        pct_encode(s.subrange(0, i + 1)) == pct_encode(s.subrange(0, i)) + pct_encode_byte(s[i]),
    decreases i,
{
    let t = s.subrange(0, i + 1);
    assert(t.subrange(1, t.len() as int) =~= s.subrange(1, i + 1));
    if i == 0 {
        let z = t.subrange(1, 1);
        assert(z =~= Seq::<u8>::empty());
        assert(pct_encode(z) == Seq::<u8>::empty());
        assert(pct_encode(t) == pct_encode_byte(t[0]) + pct_encode(z));
        assert(pct_encode(s.subrange(0, 0)) == Seq::<u8>::empty());
        assert(pct_encode(t) =~= pct_encode(s.subrange(0, i)) + pct_encode_byte(s[i]));
    } else {
        let u = s.subrange(1, s.len() as int);
        lemma_pct_encode_append(u, i - 1);
        assert(u.subrange(0, i) =~= s.subrange(1, i + 1));
        assert(u.subrange(0, i - 1) =~= s.subrange(1, i));
        let v = s.subrange(0, i);
        assert(v.subrange(1, v.len() as int) =~= s.subrange(1, i));
        assert(pct_encode(t) == pct_encode_byte(s[0]) + pct_encode(s.subrange(1, i + 1)));
        assert(pct_encode(v) == pct_encode_byte(s[0]) + pct_encode(s.subrange(1, i)));
        assert(pct_encode(t) =~= pct_encode(v) + pct_encode_byte(s[i]));
    }
}

/// Percent-encodes a relative URL path for use in a link: each byte of its
/// UTF-8 form that is in the path set becomes `%` and two upper-case
/// hexadecimal digits.
pub fn percent_encode_path(s: &str) -> (r: String)
    ensures
        r@ == ascii_chars(pct_encode(s.spec_bytes())),
{
    let bytes = s.as_bytes();
    let mut out = String::new();
    let mut i: usize = 0;
    while i < bytes.len()
        invariant
            i <= bytes@.len(),
            bytes@ == s.spec_bytes(),
            out@ == ascii_chars(pct_encode(bytes@.subrange(0, i as int))),
        decreases bytes@.len() - i,
    {
        let b = bytes[i];
        proof {
            lemma_pct_encode_append(bytes@, i as int);
        }
        let ghost before = out@;
        if in_path_set_exec(b) {
            push_char(&mut out, '%');
            push_char(&mut out, hex_digit_exec(b / 16) as char);
            push_char(&mut out, hex_digit_exec(b % 16) as char);
        } else {
            push_char(&mut out, b as char);
        }
        assert(out@ =~= ascii_chars(pct_encode(bytes@.subrange(0, i + 1))));
        i = i + 1;
    }
    assert(bytes@.subrange(0, bytes@.len() as int) =~= bytes@);
    out
}

proof fn lemma_hex_round_trip(b: u8)
    ensures
        is_hex(hex_digit(b / 16)),
        is_hex(hex_digit(b % 16)),
        (hex_val(hex_digit(b / 16)) * 16 + hex_val(hex_digit(b % 16))) as u8 == b,
{
}

/// Decoding a percent-encoded path gives back the original bytes, for every
/// path in which no `%` is already followed by two hexadecimal digits.
pub proof fn lemma_decode_encode(s: Seq<u8>)
    requires
        !has_escape(s),
    ensures
        pct_decode(pct_encode(s)) == s,
    decreases s.len(),
{
    if s.len() > 0 {
        let b = s[0];
        let rest = s.subrange(1, s.len() as int);
        assert(!has_escape(rest)) by {
            if has_escape(rest) {
                let i = choose|i: int| 0 <= i && i + 2 < rest.len() && #[trigger] rest[i] == 0x25
                    && is_hex(rest[i + 1]) && is_hex(rest[i + 2]);
                assert(s[i + 1] == rest[i] && s[i + 2] == rest[i + 1] && s[i + 3] == rest[i + 2]);
            }
        }
        lemma_decode_encode(rest);
        let re = pct_encode(rest);
        let e = pct_encode_byte(b) + re;
        assert(pct_encode(s) == e);
        if in_path_set(b) {
            lemma_hex_round_trip(b);
            assert(e.subrange(3, e.len() as int) =~= re);
            assert(pct_decode(e) =~= seq![b] + pct_decode(re));
        } else {
            assert(e.subrange(1, e.len() as int) =~= re);
            if b == 0x25 && e.len() >= 3 {
                // what follows the `%` is not two hexadecimal digits
                let r2 = rest.subrange(1, rest.len() as int);
                assert(re == pct_encode_byte(rest[0]) + pct_encode(r2));
                if !in_path_set(rest[0]) && is_hex(rest[0]) {
                    if rest.len() >= 2 {
                        assert(pct_encode(r2) == pct_encode_byte(r2[0]) + pct_encode(
                            r2.subrange(1, r2.len() as int),
                        ));
                        assert(s[1] == rest[0] && s[2] == rest[1]);
                        assert(!is_hex(rest[1]));
                        assert(!is_hex(e[2]));
                    } else {
                        assert(r2.len() == 0);
                        assert(pct_encode(r2) == Seq::<u8>::empty());
                        assert(e.len() == 2);
                    }
                } else {
                    assert(!is_hex(e[1]));
                }
            }
            assert(pct_decode(e) =~= seq![b] + pct_decode(re));
        }
        assert(seq![b] + rest =~= s);
    }
}

} // verus!
