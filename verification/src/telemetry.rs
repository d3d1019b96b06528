//! Request-log helpers: which requests are logged, the viewer's IP and the
//! decoding of CloudFront's percent-encoded geolocation headers.

use vstd::prelude::*;
use vstd::utf8::*;
use vstd::string::StringExecFns;

use crate::text::{before_first, first_field, same_text, starts_with, trim, trimmed};

verus! {

/// Whether `b` is an ASCII hexadecimal digit (`0-9`, `a-f`, `A-F`).
pub open spec fn is_hex_digit(b: u8) -> bool {
    (0x30 <= b <= 0x39) || (0x61 <= b <= 0x66) || (0x41 <= b <= 0x46)
}

/// The value of the hexadecimal digit `b`.
pub open spec fn hex_value(b: u8) -> int {
    if 0x30 <= b <= 0x39 {
        b - 0x30
    } else if 0x61 <= b <= 0x66 {
        b - 0x61 + 10
    } else {
        b - 0x41 + 10
    }
}

/// Percent-decoding of a byte string: `%` followed by two hex digits becomes
/// the byte they spell; a `%` followed by anything else is kept verbatim with
/// the (at most two) bytes read after it.
pub open spec fn percent_decoded(b: Seq<u8>) -> Seq<u8>
    decreases b.len(),
{
    if b.len() == 0 {
        Seq::empty()
    } else if b[0] != 0x25u8 {
        seq![b[0]] + percent_decoded(b.skip(1))
    } else if b.len() >= 3 {
        if is_hex_digit(b[1]) && is_hex_digit(b[2]) {
            seq![(hex_value(b[1]) * 16 + hex_value(b[2])) as u8] + percent_decoded(b.skip(3))
        } else {
            seq![b[0], b[1], b[2]] + percent_decoded(b.skip(3))
        }
    } else {
        b
    }
}

/// What `String::from_utf8_lossy` makes of a byte string.
pub uninterp spec fn utf8_lossy(bytes: Seq<u8>) -> Seq<char>;

/// Calls `String::from_utf8_lossy`. Valid UTF-8 is decoded as it stands;
/// what it makes of invalid sequences (replacement characters) is not stated
/// beyond the name `utf8_lossy`.
#[verifier::external_body]
fn decode_utf8_lossy(bytes: &[u8]) -> (res: String)
    ensures
        res@ == utf8_lossy(bytes@),
        valid_utf8(bytes@) ==> res@ == decode_utf8(bytes@),
{
    String::from_utf8_lossy(bytes).into_owned()
}

/// The value of an ASCII hex digit, or `None` for any other byte.
fn hex_digit(b: u8) -> (res: Option<u8>)
    ensures
        res is Some <==> is_hex_digit(b),
        res matches Some(v) ==> v == hex_value(b) && v < 16,
{
    if 0x30 <= b && b <= 0x39 {
        Some(b - 0x30)
    } else if 0x61 <= b && b <= 0x66 {
        Some(b - 0x61 + 10)
    } else if 0x41 <= b && b <= 0x46 {
        Some(b - 0x41 + 10)
    } else {
        None
    }
}

/// Percent-decodes the bytes of `raw`.
pub fn percent_decode_bytes(raw: &[u8]) -> (res: Vec<u8>)
    ensures
        res@ == percent_decoded(raw@),
{
    let mut out: Vec<u8> = Vec::new();
    let n = raw.len();
    let mut i: usize = 0;
    assert(raw@.skip(0) =~= raw@);
    assert(out@ + raw@ =~= raw@);
    while i < n
        invariant
            n == raw@.len(),
            i <= n,
            out@ + percent_decoded(raw@.skip(i as int)) == percent_decoded(raw@),
        decreases n - i,
    {
        let ghost rest = raw@.skip(i as int);
        let b = raw[i];
        if b != 0x25 {
            assert(rest.skip(1) =~= raw@.skip(i + 1));
            out.push(b);
            i = i + 1;
            proof {
                assert(out@ + percent_decoded(raw@.skip(i as int)) =~= percent_decoded(raw@));
            }
        } else if n - i > 2 {
            let hi = raw[i + 1];
            let lo = raw[i + 2];
            assert(rest.skip(3) =~= raw@.skip(i + 3));
            match (hex_digit(hi), hex_digit(lo)) {
                (Some(h), Some(l)) => {
                    out.push(h * 16 + l);
                },
                _ => {
                    out.push(b);
                    out.push(hi);
                    out.push(lo);
                },
            }
            i = i + 3;
            proof {
                assert(out@ + percent_decoded(raw@.skip(i as int)) =~= percent_decoded(raw@));
            }
        } else {
            while i < n
                invariant
                    n == raw@.len(),
                    i <= n,
                    out@ + raw@.skip(i as int) == percent_decoded(raw@),
                decreases n - i,
            {
                out.push(raw[i]);
                i = i + 1;
                proof {
                    assert(out@ + raw@.skip(i as int) =~= percent_decoded(raw@));
                }
            }
        }
    }
    assert(out@ =~= percent_decoded(raw@));
    out
}

/// Header value as logged: CloudFront encodes non-ASCII header values per
/// RFC 3986 ("S%C3%A3o%20Paulo"); this decodes the escapes and reads the
/// result as UTF-8 (invalid sequences become replacement characters).
pub fn percent_decode(raw: &str) -> (res: String)
    ensures
        res@ == utf8_lossy(percent_decoded(encode_utf8(raw@))),
        valid_utf8(percent_decoded(encode_utf8(raw@))) ==> res@ == decode_utf8(
            percent_decoded(encode_utf8(raw@)),
        ),
        !raw@.contains('%') ==> res@ == raw@,
{
    let bytes = percent_decode_bytes(raw.as_bytes());
    proof {
        if !raw@.contains('%') {
            lemma_encoding_has_no_percent(raw@);
            lemma_plain_bytes_unchanged(encode_utf8(raw@));
            vstd::utf8::encode_utf8_valid_utf8(raw@);
            vstd::utf8::encode_utf8_decode_utf8(raw@);
        }
    }
    decode_utf8_lossy(bytes.as_slice())
}

proof fn lemma_scalar_bytes_not_percent(v: u32)
    by (bit_vector)
    requires
        v != 0x25,
    ensures
        v <= 0x7F ==> (v & 0x7F) as u8 != 0x25u8,
        (0xC0 | ((v >> 6) & 0x1F) as u8) != 0x25u8,
        (0xE0 | ((v >> 12) & 0x0F) as u8) != 0x25u8,
        (0xF0 | ((v >> 18) & 0x7) as u8) != 0x25u8,
        (0x80 | (v & 0x3F) as u8) != 0x25u8,
        (0x80 | ((v >> 6) & 0x3F) as u8) != 0x25u8,
        (0x80 | ((v >> 12) & 0x3F) as u8) != 0x25u8,
{
}

/// The UTF-8 encoding of text without `%` holds no `%` byte: every byte of a
/// multi-byte sequence has its high bit set.
proof fn lemma_encoding_has_no_percent(s: Seq<char>)
    requires
        !s.contains('%'),
    ensures
        !encode_utf8(s).contains(0x25u8),
    decreases s.len(),
{
    if s.len() > 0 {
        let rest = s.drop_first();
        assert forall|i: int| 0 <= i < rest.len() implies rest[i] != '%' by {
            assert(rest[i] == s[i + 1]);
        }
        lemma_encoding_has_no_percent(rest);
        let c = s[0];
        assert(c != '%');
        let v = c as u32;
        vstd::utf8::char_is_scalar(c);
        if v == 0x25u32 {
            vstd::utf8::char_u32_cast(c, v);
            vstd::utf8::char_u32_cast('%', '%' as u32);
            assert('%' as u32 == 0x25u32);
        }
        assert(v != 0x25u32);
        lemma_scalar_bytes_not_percent(v);
        let head = encode_scalar(v);
        let all = encode_utf8(s);
        assert(all == head + encode_utf8(rest));
        assert forall|i: int| 0 <= i < all.len() implies all[i] != 0x25u8 by {
            if i < head.len() {
                assert(all[i] == head[i]);
            } else {
                assert(all[i] == encode_utf8(rest)[i - head.len()]);
            }
        }
    }
}

/// Percent-decoding leaves a byte string without `%` as it is.
proof fn lemma_plain_bytes_unchanged(b: Seq<u8>)
    requires
        !b.contains(0x25u8),
    ensures
        percent_decoded(b) == b,
    decreases b.len(),
{
    if b.len() > 0 {
        let rest = b.skip(1);
        assert forall|i: int| 0 <= i < rest.len() implies rest[i] != 0x25u8 by {
            assert(rest[i] == b[i + 1]);
        }
        lemma_plain_bytes_unchanged(rest);
        assert(b[0] != 0x25u8);
        assert(seq![b[0]] + rest =~= b);
    }
}


/// Whether `e` is a full percent-encoding of `b`: each byte of `b`, in
/// order, written as `%` and two hexadecimal digits, each digit of either
/// case.
pub open spec fn is_percent_encoding(e: Seq<u8>, b: Seq<u8>) -> bool {
    &&& e.len() == 3 * b.len()
    &&& forall|k: int| 0 <= k < b.len() ==> #[trigger] escape_at(e, 3 * k, b[k])
}

/// Whether `e` holds at position `i` the escape `%` and two hexadecimal
/// digits (of either case) that spell the byte `x`.
pub open spec fn escape_at(e: Seq<u8>, i: int, x: u8) -> bool {
    &&& e[i] == 0x25u8
    &&& is_hex_digit(e[i + 1])
    &&& is_hex_digit(e[i + 2])
    &&& hex_value(e[i + 1]) * 16 + hex_value(e[i + 2]) == x
}

/// Percent-decoding undoes full percent-encoding, whatever case each digit
/// is written in.
pub proof fn lemma_percent_decoded_encoding(e: Seq<u8>, b: Seq<u8>)
    requires
        is_percent_encoding(e, b),
    ensures
        percent_decoded(e) == b,
    decreases b.len(),
{
    if b.len() == 0 {
        assert(e =~= Seq::<u8>::empty());
    } else {
        let e1 = e.skip(3);
        let b1 = b.skip(1);
        assert(e1.len() == 3 * b1.len());
        assert(escape_at(e, 3 * 0int, b[0]));
        assert(3 * 0 == 0int);
        assert forall|k: int| 0 <= k < b1.len() implies #[trigger] escape_at(e1, 3 * k, b1[k]) by {
            assert(b1[k] == b[k + 1]);
            assert(escape_at(e, 3 * (k + 1), b[k + 1]));
            assert(3 * (k + 1) == 3 * k + 3);
            assert(e1[3 * k] == e[3 * k + 3]);
            assert(e1[3 * k + 1] == e[3 * k + 4]);
            assert(e1[3 * k + 2] == e[3 * k + 5]);
        }
        assert(is_percent_encoding(e1, b1));
        lemma_percent_decoded_encoding(e1, b1);
        assert(seq![b[0]] + b1 =~= b);
    }
}

/// A header whose every byte CloudFront percent-encoded decodes back to
/// `text`: `encoded` is any text whose UTF-8 bytes are a full
/// percent-encoding of the UTF-8 bytes of `text`, in whatever mix of
/// upper- and lower-case digits.
pub proof fn lemma_percent_round_trip(text: Seq<char>, encoded: Seq<char>)
    requires
        is_percent_encoding(encode_utf8(encoded), encode_utf8(text)),
    ensures
        valid_utf8(percent_decoded(encode_utf8(encoded))),
        decode_utf8(percent_decoded(encode_utf8(encoded))) == text,
{
    lemma_percent_decoded_encoding(encode_utf8(encoded), encode_utf8(text));
    vstd::utf8::encode_utf8_valid_utf8(text);
    vstd::utf8::encode_utf8_decode_utf8(text);
}

/// Whether the access log skips a request: asset fetches (css, js, wasm
/// accompany every page view) and the favicon say nothing about readers.
pub fn is_asset_request(path: &str) -> (res: bool)
    ensures
        res == ("/pkg/"@.is_prefix_of(path@) || path@ == "/favicon.ico"@),
{
    starts_with(path, "/pkg/") || same_text(path, "/favicon.ico")
}

/// The viewer's IP as logged, from the `true-client-ip` header (set at the
/// edge, authoritative) or else the first `x-forwarded-for` entry, trimmed;
/// `"-"` when neither is present.
pub open spec fn client_ip_text(true_client_ip: Option<Seq<char>>, forwarded_for: Option<Seq<char>>) -> Seq<char> {
    match true_client_ip {
        Some(ip) => ip,
        None => match forwarded_for {
            Some(list) => trim(before_first(list, ',')),
            None => "-"@,
        },
    }
}

/// The viewer's IP, from the readable values of the `true-client-ip` and
/// `x-forwarded-for` headers.
pub fn client_ip(true_client_ip: Option<&str>, forwarded_for: Option<&str>) -> (res: String)
    ensures
        res@ == client_ip_text(
            match true_client_ip {
                Some(ip) => Some(ip@),
                None => None,
            },
            match forwarded_for {
                Some(list) => Some(list@),
                None => None,
            },
        ),
{
    match true_client_ip {
        Some(ip) => String::from_str(ip),
        None => match forwarded_for {
            Some(list) => {
                let first = first_field(list, ',');
                trimmed(first.as_str())
            },
            None => String::from_str("-"),
        },
    }
}

/// A header value as logged: percent-decoded, or `"-"` when absent.
pub fn header_value(value: Option<&str>) -> (res: String)
    ensures
        res@ == match value {
            Some(v) => utf8_lossy(percent_decoded(encode_utf8(v@))),
            None => "-"@,
        },
        match value {
            Some(v) => valid_utf8(percent_decoded(encode_utf8(v@))) ==> res@ == decode_utf8(
                percent_decoded(encode_utf8(v@)),
            ),
            None => true,
        },
{
    match value {
        Some(v) => percent_decode(v),
        None => String::from_str("-"),
    }
}

} // verus!
