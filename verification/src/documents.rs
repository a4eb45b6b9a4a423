//! Checks documents before upload and encodes them for transport.

use vstd::prelude::*;

use crate::text::{chars_of, hex, hex_chars};

verus! {

/// The header every PDF file starts with: `%PDF-`.
pub open spec fn pdf_header() -> Seq<u8> {
    seq![0x25u8, 0x50u8, 0x44u8, 0x46u8, 0x2du8]
}

/// Whether the document starts with the PDF header; the only local check of
/// its contents, the provider validates printability.
pub fn has_pdf_header(pdf: &[u8]) -> (r: bool)
    ensures
        r == (pdf@.len() >= 5 && pdf@.take(5) == pdf_header()),
{
    if pdf.len() < 5 {
        return false;
    }
    let r = pdf[0] == 0x25 && pdf[1] == 0x50 && pdf[2] == 0x44 && pdf[3] == 0x46 && pdf[4] == 0x2d;
    assert(r == (pdf@.take(5) =~= pdf_header()));
    r
}

/// The index of the last `.` in `name`, or -1.
pub open spec fn last_dot(name: Seq<char>) -> int
    decreases name.len(),
{
    if name.len() == 0 {
        -1
    } else if name.last() == '.' {
        name.len() - 1
    } else {
        last_dot(name.drop_last())
    }
}

/// The extension of a file name: the part after the last `.`, unless there
/// is none or the only `.` starts the name. This is what `Path::extension`
/// gives for every file name but `..`, which has no extension there and an
/// empty one here; neither is `pdf`.
pub open spec fn extension(name: Seq<char>) -> Option<Seq<char>> {
    if last_dot(name) <= 0 {
        None
    } else {
        Some(name.skip(last_dot(name) + 1))
    }
}

/// Whether an extension is `pdf` in any ASCII case.
pub open spec fn is_pdf_extension(ext: Seq<char>) -> bool {
    &&& ext.len() == 3
    &&& (ext[0] == 'p' || ext[0] == 'P')
    &&& (ext[1] == 'd' || ext[1] == 'D')
    &&& (ext[2] == 'f' || ext[2] == 'F')
}

proof fn lemma_last_dot(name: Seq<char>)
    ensures
        -1 <= last_dot(name) < name.len(),
        last_dot(name) >= 0 ==> name[last_dot(name)] == '.',
        forall|j: int| last_dot(name) < j < name.len() ==> name[j] != '.',
    decreases name.len(),
{
    if name.len() > 0 && name.last() != '.' {
        let init = name.drop_last();
        lemma_last_dot(init);
        assert forall|j: int| last_dot(name) < j < name.len() implies name[j] != '.' by {
            if j < name.len() - 1 {
                assert(name[j] == init[j]);
            }
        }
    }
}

/// Whether a file name has the extension `pdf`, in any ASCII case.
pub fn has_pdf_extension(file_name: &str) -> (r: bool)
    ensures
        r == (extension(file_name@) matches Some(ext) && is_pdf_extension(ext)),
{
    let chars = chars_of(file_name);
    let mut i: usize = chars.len();
    proof {
        assert(chars@.take(i as int) =~= chars@);
    }
    while i > 0 && chars[i - 1] != '.'
        invariant
            chars@ == file_name@,
            i <= chars@.len(),
            last_dot(chars@) == last_dot(chars@.take(i as int)),
            forall|j: int| i <= j < chars@.len() ==> chars@[j] != '.',
        decreases i,
    {
        assert(chars@.take(i as int).drop_last() =~= chars@.take(i - 1));
        i = i - 1;
    }
    proof {
        lemma_last_dot(chars@);
    }
    if i <= 1 {
        return false;
    }
    proof {
        assert(chars@.take(i as int).last() == '.');
        assert(last_dot(chars@) == i - 1);
    }
    if chars.len() - i != 3 {
        return false;
    }
    let ghost ext = file_name@.skip(i as int);
    let a: char = chars[i];
    let b: char = chars[i + 1];
    let c: char = chars[i + 2];
    assert(ext[0] == a && ext[1] == b && ext[2] == c);
    (a == 'p' || a == 'P') && (b == 'd' || b == 'D') && (c == 'f' || c == 'F')
}

/// The character of a six-bit value in the standard Base64 alphabet.
pub open spec fn b64(v: int) -> u8 {
    if v < 26 {
        (65 + v) as u8
    } else if v < 52 {
        (97 + v - 26) as u8
    } else if v < 62 {
        (48 + v - 52) as u8
    } else if v == 62 {
        43
    } else {
        47
    }
}

/// The four characters of a group of up to three bytes; missing bytes
/// count as zero and their characters become `=`.
pub open spec fn b64_group(a: int, b: int, c: int, n: int) -> Seq<u8> {
    seq![
        b64(a / 4),
        b64((a % 4) * 16 + b / 16),
        if n >= 2 { b64((b % 16) * 4 + c / 64) } else { 61u8 },
        if n >= 3 { b64(c % 64) } else { 61u8 },
    ]
}

/// Standard Base64 (RFC 4648) with `=` padding, three bytes to four characters.
pub open spec fn base64(data: Seq<u8>) -> Seq<u8>
    decreases data.len(),
{
    if data.len() == 0 {
        seq![]
    } else if data.len() == 1 {
        b64_group(data[0] as int, 0, 0, 1)
    } else if data.len() == 2 {
        b64_group(data[0] as int, data[1] as int, 0, 2)
    } else {
        b64_group(data[0] as int, data[1] as int, data[2] as int, 3) + base64(data.skip(3))
    }
}

fn b64_byte(v: u8) -> (r: u8)
    requires
        v < 64,
    ensures
        r == b64(v as int),
{
    if v < 26 {
        65 + v
    } else if v < 52 {
        97 + v - 26
    } else if v < 62 {
        48 + v - 52
    } else if v == 62 {
        43
    } else {
        47
    }
}

/// Encodes a document in standard Base64 with padding, as ASCII bytes.
pub fn base64_encode(data: &[u8]) -> (out: Vec<u8>)
    ensures
        out@ == base64(data@),
{
    let mut out: Vec<u8> = Vec::new();
    let mut i: usize = 0;
    assert(data@.skip(0) =~= data@);
    while i < data.len()
        invariant
            i <= data@.len(),
            base64(data@) == out@ + base64(data@.skip(i as int)),
        decreases data@.len() - i,
    {
        let rest: usize = data.len() - i;
        let a: u8 = data[i];
        let ghost tail = data@.skip(i as int);
        if rest == 1 {
            out.push(b64_byte(a / 4));
            out.push(b64_byte((a % 4) * 16));
            out.push(61);
            out.push(61);
            assert(data@.skip(i + 1).len() == 0);
            assert(out@ =~= base64(data@));
            i = i + 1;
            assert(base64(data@.skip(i as int)) =~= Seq::<u8>::empty());
        } else if rest == 2 {
            let b: u8 = data[i + 1];
            out.push(b64_byte(a / 4));
            out.push(b64_byte((a % 4) * 16 + b / 16));
            out.push(b64_byte((b % 16) * 4));
            out.push(61);
            assert(tail[1] == b);
            i = i + 2;
            assert(base64(data@.skip(i as int)) =~= Seq::<u8>::empty());
            assert(out@ =~= base64(data@));
        } else {
            let b: u8 = data[i + 1];
            let c: u8 = data[i + 2];
            let ghost before = out@;
            out.push(b64_byte(a / 4));
            out.push(b64_byte((a % 4) * 16 + b / 16));
            out.push(b64_byte((b % 16) * 4 + c / 64));
            out.push(b64_byte(c % 64));
            assert(tail[1] == b && tail[2] == c);
            assert(tail.skip(3) =~= data@.skip(i + 3));
            assert(out@ =~= before + b64_group(tail[0] as int, tail[1] as int, tail[2] as int, 3));
            i = i + 3;
        }
    }
    assert(data@.skip(i as int) =~= Seq::<u8>::empty());
    assert(out@ =~= out@ + Seq::<u8>::empty());
    out
}


/// The MD5 digest of `data`, as `md5::Md5` computes it.
pub uninterp spec fn md5(data: Seq<u8>) -> Seq<u8>;

/// Calls `md5::Md5::digest` on the whole of `data`. Claims that the result is
/// the digest named `md5` of the argument and that it has 16 bytes, the
/// output size of MD5.
#[verifier::external_body]
fn md5_digest(data: &[u8]) -> (digest: Vec<u8>)
    ensures
        digest@ == md5(data@),
        digest@.len() == 16,
{
    <md5::Md5 as md5::Digest>::digest(data).to_vec()
}

/// The checksum the service expects beside an encoded document: the
/// lowercase hexadecimal MD5 digest of the encoded text.
pub fn checksum(encoded: &[u8]) -> (r: String)
    ensures
        r@ == hex_chars(md5(encoded@)),
        r@.len() == 32,
{
    let digest = md5_digest(encoded);
    hex(digest.as_slice())
}

/// The six-bit value of a character of the standard Base64 alphabet.
pub open spec fn b64_value(c: u8) -> Option<int> {
    if 65 <= c <= 90 {
        Some(c - 65)
    } else if 97 <= c <= 122 {
        Some(c - 71)
    } else if 48 <= c <= 57 {
        Some(c + 4)
    } else if c == 43 {
        Some(62)
    } else if c == 47 {
        Some(63)
    } else {
        None
    }
}

/// The bytes of a group of four characters. Only the last group may end in
/// padding, and bits that padding drops must be zero, so that every byte
/// sequence has exactly one encoding.
pub open spec fn b64_decode_group(g: Seq<u8>, last: bool) -> Option<Seq<u8>> {
    match (b64_value(g[0]), b64_value(g[1]), b64_value(g[2]), b64_value(g[3])) {
        (Some(v0), Some(v1), Some(v2), Some(v3)) => Some(
            seq![(v0 * 4 + v1 / 16) as u8, ((v1 % 16) * 16 + v2 / 4) as u8, ((v2 % 4) * 64 + v3) as u8],
        ),
        (Some(v0), Some(v1), Some(v2), None) => if last && g[3] == 61 && v2 % 4 == 0 {
            Some(seq![(v0 * 4 + v1 / 16) as u8, ((v1 % 16) * 16 + v2 / 4) as u8])
        } else {
            None
        },
        (Some(v0), Some(v1), None, None) => if last && g[2] == 61 && g[3] == 61 && v1 % 16 == 0 {
            Some(seq![(v0 * 4 + v1 / 16) as u8])
        } else {
            None
        },
        _ => None,
    }
}

/// Decodes standard Base64 with padding; anything that is not the encoding
/// of some byte sequence is refused.
pub open spec fn base64_decoded(s: Seq<u8>) -> Option<Seq<u8>>
    decreases s.len(),
{
    if s.len() == 0 {
        Some(seq![])
    } else if s.len() < 4 {
        None
    } else {
        match b64_decode_group(s.take(4), s.len() == 4) {
            None => None,
            Some(g) => match base64_decoded(s.skip(4)) {
                None => None,
                Some(rest) => Some(g + rest),
            },
        }
    }
}

/// A decoded remainder with the bytes decoded so far in front.
pub open spec fn after(prefix: Seq<u8>, rest: Option<Seq<u8>>) -> Option<Seq<u8>> {
    match rest {
        Some(r) => Some(prefix + r),
        None => None,
    }
}

fn b64_digit(c: u8) -> (r: Option<u8>)
    ensures
        match r {
            Some(v) => b64_value(c) == Some(v as int) && v < 64,
            None => b64_value(c) is None,
        },
{
    if 65 <= c && c <= 90 {
        Some(c - 65)
    } else if 97 <= c && c <= 122 {
        Some(c - 71)
    } else if 48 <= c && c <= 57 {
        Some(c + 4)
    } else if c == 43 {
        Some(62)
    } else if c == 47 {
        Some(63)
    } else {
        None
    }
}

/// Decodes standard Base64 with padding; `None` where the text is not the
/// encoding of any byte sequence.
pub fn base64_decode(text: &[u8]) -> (r: Option<Vec<u8>>)
    ensures
        match r {
            Some(v) => base64_decoded(text@) == Some(v@),
            None => base64_decoded(text@) is None,
        },
{
    let mut out: Vec<u8> = Vec::new();
    let mut i: usize = 0;
    assert(text@.skip(0) =~= text@);
    assert(Seq::<u8>::empty() + text@ =~= text@);
    while i < text.len()
        invariant
            i <= text@.len(),
            base64_decoded(text@) == after(out@, base64_decoded(text@.skip(i as int))),
        decreases text@.len() - i,
    {
        let ghost tail = text@.skip(i as int);
        if text.len() - i < 4 {
            return None;
        }
        let last = text.len() - i == 4;
        assert(tail.take(4) =~= seq![text@[i as int], text@[i + 1], text@[i + 2], text@[i + 3]]);
        assert(tail.skip(4) =~= text@.skip(i + 4));
        let d0 = b64_digit(text[i]);
        let d1 = b64_digit(text[i + 1]);
        let d2 = b64_digit(text[i + 2]);
        let d3 = b64_digit(text[i + 3]);
        let ghost before = out@;
        match (d0, d1, d2, d3) {
            (Some(v0), Some(v1), Some(v2), Some(v3)) => {
                out.push(v0 * 4 + v1 / 16);
                out.push((v1 % 16) * 16 + v2 / 4);
                out.push((v2 % 4) * 64 + v3);
            },
            (Some(v0), Some(v1), Some(v2), None) => {
                if !(last && text[i + 3] == 61 && v2 % 4 == 0) {
                    return None;
                }
                out.push(v0 * 4 + v1 / 16);
                out.push((v1 % 16) * 16 + v2 / 4);
            },
            (Some(v0), Some(v1), None, None) => {
                if !(last && text[i + 2] == 61 && text[i + 3] == 61 && v1 % 16 == 0) {
                    return None;
                }
                out.push(v0 * 4 + v1 / 16);
            },
            _ => {
                return None;
            },
        }
        let ghost group = out@.skip(before.len() as int);
        assert(b64_decode_group(tail.take(4), last) == Some(group));
        assert(out@ =~= before + group);
        i = i + 4;
        assert(after(before, base64_decoded(tail)) == after(out@, base64_decoded(text@.skip(i as int))));
    }
    assert(text@.skip(i as int) =~= Seq::<u8>::empty());
    assert(out@ + Seq::<u8>::empty() =~= out@);
    Some(out)
}

proof fn lemma_b64_value(v: int)
    requires
        0 <= v < 64,
    ensures
        b64_value(b64(v)) == Some(v),
        b64(v) != 61,
{
}

proof fn lemma_b64_char(c: u8)
    requires
        b64_value(c) is Some,
    ensures
        0 <= b64_value(c)->0 < 64,
        b64(b64_value(c)->0) == c,
{
}

proof fn lemma_group_bytes(a: u8, b: u8, c: u8)
    ensures
        ((a / 4) * 4 + ((a % 4) * 16 + b / 16) / 16) as u8 == a,
        ((((a % 4) * 16 + b / 16) % 16) * 16 + ((b % 16) * 4 + c / 64) / 4) as u8 == b,
        ((((b % 16) * 4 + c / 64) % 4) * 64 + c % 64) as u8 == c,
        ((b % 16) * 4) % 4 == 0,
        ((a % 4) * 16) % 16 == 0,
        0 <= (a % 4) * 16 + b / 16 < 64,
        0 <= (b % 16) * 4 + c / 64 < 64,
{
    assert(((a / 4) * 4 + ((a % 4) * 16 + b / 16) / 16) as u8 == a) by (bit_vector);
    assert(((((a % 4) * 16 + b / 16) % 16) * 16 + ((b % 16) * 4 + c / 64) / 4) as u8 == b) by (bit_vector);
    assert(((((b % 16) * 4 + c / 64) % 4) * 64 + c % 64) as u8 == c) by (bit_vector);
}

/// The group of three bytes `a`, `b`, `c` decodes back to them.
proof fn lemma_full_group_decodes(a: u8, b: u8, c: u8, last: bool)
    ensures
        b64_decode_group(b64_group(a as int, b as int, c as int, 3), last) == Some(seq![a, b, c]),
{
    lemma_group_bytes(a, b, c);
    lemma_b64_value((a / 4) as int);
    lemma_b64_value((a % 4) * 16 + b / 16);
    lemma_b64_value((b % 16) * 4 + c / 64);
    lemma_b64_value((c % 64) as int);
    let g = b64_group(a as int, b as int, c as int, 3);
    assert(b64_decode_group(g, last) =~= Some(seq![a, b, c]));
}

/// A final group of one byte decodes back to it.
proof fn lemma_one_byte_decodes(a: u8)
    ensures
        b64_decode_group(b64_group(a as int, 0, 0, 1), true) == Some(seq![a]),
{
    let v0: int = (a / 4) as int;
    let v1: int = (a % 4) as int * 16;
    assert(0 <= v1 < 64 && v1 % 16 == 0 && v1 / 16 == a % 4);
    assert(v0 * 4 + v1 / 16 == a);
    lemma_b64_value(v0);
    lemma_b64_value(v1);
    let g = b64_group(a as int, 0, 0, 1);
    assert(g[0] == b64(v0) && g[1] == b64(v1) && g[2] == 61u8 && g[3] == 61u8);
    assert(b64_value(61u8) is None);
    assert(b64_decode_group(g, true) =~= Some(seq![a]));
}

/// A final group of two bytes decodes back to them.
proof fn lemma_two_bytes_decode(a: u8, b: u8)
    ensures
        b64_decode_group(b64_group(a as int, b as int, 0, 2), true) == Some(seq![a, b]),
{
    lemma_group_bytes(a, b, 0);
    let v0: int = (a / 4) as int;
    let v1: int = (a % 4) as int * 16 + (b / 16) as int;
    let v2: int = (b % 16) as int * 4;
    assert(v2 % 4 == 0 && v2 / 4 == b % 16 && 0 <= v2 < 64);
    assert(v1 / 16 == a % 4 && v1 % 16 == b / 16);
    assert(v0 * 4 + v1 / 16 == a);
    assert((v1 % 16) * 16 + v2 / 4 == b);
    lemma_b64_value(v0);
    lemma_b64_value(v1);
    lemma_b64_value(v2);
    let g = b64_group(a as int, b as int, 0, 2);
    assert(g[0] == b64(v0) && g[1] == b64(v1) && g[2] == b64(v2) && g[3] == 61u8);
    assert(b64_value(61u8) is None);
    assert(b64_decode_group(g, true) =~= Some(seq![a, b]));
}

/// The alphabet is the standard one of RFC 4648: `A`–`Z` for 0–25, `a`–`z`
/// for 26–51, `0`–`9` for 52–61, `+` for 62 and `/` for 63.
pub proof fn base64_alphabet_is_standard(v: int)
    ensures
        0 <= v < 26 ==> b64(v) as int == 'A' as int + v,
        26 <= v < 52 ==> b64(v) as int == 'a' as int + (v - 26),
        52 <= v < 62 ==> b64(v) as int == '0' as int + (v - 52),
        b64(62) as int == '+' as int,
        b64(63) as int == '/' as int,
{
}

/// A character stands for the six-bit value whose alphabet character it
/// is, and for no other.
pub proof fn base64_digit_values(c: u8, v: int)
    ensures
        b64_value(c) == Some(v) <==> (0 <= v < 64 && b64(v) == c),
{
    if b64_value(c) == Some(v) {
        lemma_b64_char(c);
    }
    if 0 <= v < 64 && b64(v) == c {
        lemma_b64_value(v);
    }
}

/// The six-bit value of an alphabet character, zero for any other.
pub open spec fn b64_digit_value(c: u8) -> int {
    match b64_value(c) {
        Some(v) => v,
        None => 0,
    }
}

/// A group's characters are the 24 bits of its bytes, most significant first,
/// in four six-bit digits; missing bytes count as zero bits and their last
/// characters are `=`.
pub proof fn base64_group_holds_the_bits(a: u8, b: u8, c: u8)
    ensures
        ({
            let g = b64_group(a as int, b as int, c as int, 3);
            b64_digit_value(g[0]) * 262144 + b64_digit_value(g[1]) * 4096 + b64_digit_value(g[2])
                * 64 + b64_digit_value(g[3]) == a as int * 65536 + b as int * 256 + c as int
        }),
        ({
            let g = b64_group(a as int, b as int, 0, 2);
            &&& b64_digit_value(g[0]) * 4096 + b64_digit_value(g[1]) * 64 + b64_digit_value(g[2])
                == (a as int * 256 + b as int) * 4
            &&& g[3] == 61u8
        }),
        ({
            let g = b64_group(a as int, 0, 0, 1);
            &&& b64_digit_value(g[0]) * 64 + b64_digit_value(g[1]) == a as int * 16
            &&& g[2] == 61u8 && g[3] == 61u8
        }),
{
    lemma_b64_value((a / 4) as int);
    lemma_b64_value((a % 4) as int * 16 + (b / 16) as int);
    lemma_b64_value((b % 16) as int * 4 + (c / 64) as int);
    lemma_b64_value((c % 64) as int);
    lemma_b64_value((a % 4) as int * 16);
    lemma_b64_value((b % 16) as int * 4);
}

/// Decoding undoes the encoding of a final group of one or two bytes.
proof fn lemma_short_round_trip(data: Seq<u8>)
    requires
        data.len() == 1 || data.len() == 2,
    ensures
        base64_decoded(base64(data)) == Some(data),
{
    let e = base64(data);
    assert(e.skip(4) =~= Seq::<u8>::empty());
    assert(base64_decoded(e.skip(4)) == Some(Seq::<u8>::empty()));
    assert(e.take(4) =~= e);
    if data.len() == 1 {
        lemma_one_byte_decodes(data[0]);
        assert(e == b64_group(data[0] as int, 0, 0, 1));
        assert(seq![data[0]] + Seq::<u8>::empty() =~= data);
    } else {
        lemma_two_bytes_decode(data[0], data[1]);
        assert(e == b64_group(data[0] as int, data[1] as int, 0, 2));
        assert(seq![data[0], data[1]] + Seq::<u8>::empty() =~= data);
    }
}

/// Decoding undoes the encoding of three bytes followed by a remainder that
/// decodes back.
#[verifier::spinoff_prover]
proof fn lemma_group_round_trip(data: Seq<u8>)
    requires
        data.len() >= 3,
        base64_decoded(base64(data.skip(3))) == Some(data.skip(3)),
    ensures
        base64_decoded(base64(data)) == Some(data),
{
    let e = base64(data);
    let g = b64_group(data[0] as int, data[1] as int, data[2] as int, 3);
    let rest = base64(data.skip(3));
    lemma_full_group_decodes(data[0], data[1], data[2], e.len() == 4);
    assert(e == g + rest);
    assert(e.take(4) =~= g);
    assert(e.skip(4) =~= rest);
    assert(seq![data[0], data[1], data[2]] + data.skip(3) =~= data);
}

/// Decoding undoes encoding.
pub proof fn base64_decodes_its_encoding(data: Seq<u8>)
    ensures
        base64_decoded(base64(data)) == Some(data),
    decreases data.len(),
{
    if data.len() == 0 {
        assert(base64(data) =~= Seq::<u8>::empty());
        assert(data =~= Seq::<u8>::empty());
    } else if data.len() < 3 {
        lemma_short_round_trip(data);
    } else {
        base64_decodes_its_encoding(data.skip(3));
        lemma_group_round_trip(data);
    }
}

/// Encoding gives back every text that decodes: a decoded text is the
/// encoding of what it decodes to.
#[verifier::spinoff_prover]
pub proof fn base64_encodes_what_it_decoded(s: Seq<u8>)
    requires
        base64_decoded(s) is Some,
    ensures
        base64(base64_decoded(s)->0) == s,
    decreases s.len(),
{
    if s.len() > 0 {
        let g = s.take(4);
        let last = s.len() == 4;
        let group = b64_decode_group(g, last)->0;
        let rest = base64_decoded(s.skip(4))->0;
        let d = base64_decoded(s)->0;
        assert(d == group + rest);
        lemma_b64_char(g[0]);
        lemma_b64_char(g[1]);
        let v0 = b64_value(g[0])->0;
        let v1 = b64_value(g[1])->0;
        let a = (v0 * 4 + v1 / 16) as u8;
        assert(a / 4 == v0 && a % 4 == v1 / 16) by (nonlinear_arith)
            requires
                0 <= v0 < 64,
                0 <= v1 < 64,
                a == (v0 * 4 + v1 / 16) as u8,
        {
        }
        if b64_value(g[2]) is Some {
            lemma_b64_char(g[2]);
        }
        if b64_value(g[3]) is Some {
            lemma_b64_char(g[3]);
        }
        if group.len() == 3 {
            base64_encodes_what_it_decoded(s.skip(4));
            let v2 = b64_value(g[2])->0;
            let v3 = b64_value(g[3])->0;
            let b = ((v1 % 16) * 16 + v2 / 4) as u8;
            let c = ((v2 % 4) * 64 + v3) as u8;
            assert(b / 16 == v1 % 16 && b % 16 == v2 / 4) by (nonlinear_arith)
                requires
                    0 <= v1 < 64,
                    0 <= v2 < 64,
                    b == ((v1 % 16) * 16 + v2 / 4) as u8,
            {
            }
            assert(c / 64 == v2 % 4 && c % 64 == v3) by (nonlinear_arith)
                requires
                    0 <= v2 < 64,
                    0 <= v3 < 64,
                    c == ((v2 % 4) * 64 + v3) as u8,
            {
            }
            assert(d[0] == a && d[1] == b && d[2] == c);
            assert(d.skip(3) =~= rest);
            assert(base64(d) =~= b64_group(a as int, b as int, c as int, 3) + base64(d.skip(3)));
            assert(g =~= b64_group(a as int, b as int, c as int, 3));
            assert(s =~= g + s.skip(4));
        } else if group.len() == 2 {
            let v2 = b64_value(g[2])->0;
            let b = ((v1 % 16) * 16 + v2 / 4) as u8;
            assert(b / 16 == v1 % 16 && b % 16 == v2 / 4) by (nonlinear_arith)
                requires
                    0 <= v1 < 64,
                    0 <= v2 < 64,
                    b == ((v1 % 16) * 16 + v2 / 4) as u8,
            {
            }
            assert(s.len() == 4);
            assert(rest.len() == 0);
            assert(d =~= seq![a, b]);
            assert((b as int % 16) * 4 == v2);
            assert(s =~= b64_group(a as int, b as int, 0, 2));
        } else {
            assert(s.len() == 4);
            assert(rest.len() == 0);
            assert(d =~= seq![a]);
            assert((a as int % 4) * 16 == v1);
            assert(s =~= b64_group(a as int, 0, 0, 1));
        }
    }
}

} // verus!
