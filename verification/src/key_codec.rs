//! The byte encoding of keys.
//!
//! A key is written as its length tag in eight big-endian bytes, followed by
//! its parts. A part is a tag byte and a payload:
//!
//! | part             | tag | payload                                        |
//! |------------------|-----|------------------------------------------------|
//! | null             | 1   | none                                           |
//! | false, true      | 2, 3| none                                           |
//! | signed integer   | 4   | the value plus 2^63, eight big-endian bytes    |
//! | unsigned integer | 5   | the value, eight big-endian bytes              |
//! | double           | 6   | the rank of its bits, eight big-endian bytes   |
//! | text             | 7   | UTF-8 with 0 written as 0 1, closed by 0 0     |
//!
//! Encoded keys compare byte-wise as the keys compare logically, and no
//! encoded key is a prefix of another.

use crate::byte_order::{
    be_bytes, be_value, bytes_lt, lemma_be_bytes_len, lemma_be_order, lemma_be_round_trip,
    lemma_be_value_bytes, lemma_bytes_lt_asymmetric, lemma_bytes_lt_irreflexive, lemma_pow256_8,
    lemma_splits_in_context, lemma_splits_then_lt, pow256, push_be, read_be8, splits_at,
    splits_before,
};
use crate::error::{DbError, DbErrorView, DbResult};
use crate::key::{KeyPart, KeyPartView, OndoKey};
use crate::key_order::{
    float_rank, int_rank, key_lt, lemma_key_lt_total, part_lt, part_rank, parts_lt,
};
use crate::value::Number;
use vstd::prelude::*;
use vstd::utf8::{
    decode_utf8, encode_utf8, encode_utf8_decode_utf8, encode_utf8_valid_utf8, valid_utf8,
};

verus! {

/// The bytes of a text with every 0 followed by a 1.
pub open spec fn escape(text: Seq<u8>) -> Seq<u8>
    decreases text.len(),
{
    if text.len() == 0 {
        Seq::empty()
    } else if text[0] == 0 {
        seq![0u8, 1u8] + escape(text.skip(1))
    } else {
        seq![text[0]] + escape(text.skip(1))
    }
}

/// The payload of a text: its escaped bytes, closed by two zeros.
pub open spec fn text_payload(text: Seq<u8>) -> Seq<u8> {
    escape(text) + seq![0u8, 0u8]
}

/// The double whose rank is `rank`.
pub open spec fn float_of_rank(rank: nat) -> u64 {
    if rank >= 0x8000_0000_0000_0000 {
        (rank - 0x8000_0000_0000_0000) as u64
    } else {
        (0xffff_ffff_ffff_ffff - rank) as u64
    }
}

/// The bytes that follow the tag of a part.
pub open spec fn part_payload(part: KeyPartView) -> Seq<u8> {
    match part {
        KeyPartView::Null => Seq::empty(),
        KeyPartView::Bool(_) => Seq::empty(),
        KeyPartView::Number(Number::NegInt(x)) => be_bytes(int_rank(x), 8),
        KeyPartView::Number(Number::PosInt(x)) => be_bytes(x as nat, 8),
        KeyPartView::Number(Number::Float(x)) => be_bytes(float_rank(x), 8),
        KeyPartView::Text(s) => text_payload(encode_utf8(s)),
    }
}

/// The bytes of a part: its tag, which is the rank of its kind, and its
/// payload.
pub open spec fn encode_part(part: KeyPartView) -> Seq<u8> {
    seq![part_rank(part) as u8] + part_payload(part)
}

/// The bytes of parts, one after the other.
pub open spec fn encode_parts(parts: Seq<KeyPartView>) -> Seq<u8>
    decreases parts.len(),
{
    if parts.len() == 0 {
        Seq::empty()
    } else {
        encode_part(parts[0]) + encode_parts(parts.skip(1))
    }
}

/// The bytes of a key: its length tag, then its parts.
pub open spec fn encode_key(key: Seq<KeyPartView>) -> Seq<u8> {
    be_bytes(key.len(), 8) + encode_parts(key)
}

/// Reads an escaped text up to its closing zeros: the text and the number
/// of bytes read.
pub open spec fn parse_text(bytes: Seq<u8>) -> Option<(Seq<u8>, nat)>
    decreases bytes.len(),
{
    if bytes.len() == 0 {
        None
    } else if bytes[0] != 0 {
        match parse_text(bytes.skip(1)) {
            Some((text, read)) => Some((seq![bytes[0]] + text, read + 1)),
            None => None,
        }
    } else if bytes.len() < 2 {
        None
    } else if bytes[1] == 0 {
        Some((Seq::empty(), 2))
    } else if bytes[1] == 1 {
        match parse_text(bytes.skip(2)) {
            Some((text, read)) => Some((seq![0u8] + text, read + 2)),
            None => None,
        }
    } else {
        None
    }
}

/// Reads one part from the front of `bytes`: the part and the number of
/// bytes read.
pub open spec fn parse_part(bytes: Seq<u8>) -> Option<(KeyPartView, nat)> {
    if bytes.len() == 0 {
        None
    } else if bytes[0] == 1 {
        Some((KeyPartView::Null, 1))
    } else if bytes[0] == 2 {
        Some((KeyPartView::Bool(false), 1))
    } else if bytes[0] == 3 {
        Some((KeyPartView::Bool(true), 1))
    } else if 4 <= bytes[0] <= 6 {
        if bytes.len() < 9 {
            None
        } else {
            let rank = be_value(bytes.subrange(1, 9));
            if bytes[0] == 4 {
                let value = (rank - 0x8000_0000_0000_0000) as i64;
                Some((KeyPartView::Number(Number::NegInt(value)), 9))
            } else if bytes[0] == 5 {
                Some((KeyPartView::Number(Number::PosInt(rank as u64)), 9))
            } else {
                Some((KeyPartView::Number(Number::Float(float_of_rank(rank))), 9))
            }
        }
    } else if bytes[0] == 7 {
        match parse_text(bytes.skip(1)) {
            Some((text, read)) => if valid_utf8(text) {
                Some((KeyPartView::Text(decode_utf8(text)), read + 1))
            } else {
                None
            },
            None => None,
        }
    } else {
        None
    }
}

/// Reads `count` parts that fill `bytes` to the end.
pub open spec fn parse_parts(bytes: Seq<u8>, count: nat) -> Option<Seq<KeyPartView>>
    decreases count,
{
    if count == 0 {
        if bytes.len() == 0 {
            Some(Seq::empty())
        } else {
            None
        }
    } else {
        match parse_part(bytes) {
            Some((part, read)) => match parse_parts(bytes.skip(read as int), (count - 1) as nat) {
                Some(rest) => Some(seq![part] + rest),
                None => None,
            },
            None => None,
        }
    }
}

/// The key that `bytes` stand for, if they are the bytes of a key.
pub open spec fn decode_key(bytes: Seq<u8>) -> Option<Seq<KeyPartView>> {
    if bytes.len() < 8 {
        None
    } else {
        parse_parts(bytes.skip(8), be_value(bytes.take(8)))
    }
}

/// The error that bytes which are no key give.
pub open spec fn not_a_key() -> DbErrorView {
    DbErrorView::SerializationError("bytes do not hold a key"@)
}

/// An escaped text reads back, whatever follows it.
pub proof fn lemma_parse_text(text: Seq<u8>, after: Seq<u8>)
    ensures
        parse_text(text_payload(text) + after) == Some((text, text_payload(text).len())),
    decreases text.len(),
{
    let bytes = text_payload(text) + after;
    if text.len() == 0 {
        assert(escape(text) =~= Seq::empty());
        assert(bytes[0] == 0 && bytes[1] == 0);
    } else {
        let rest = text.skip(1);
        lemma_parse_text(rest, after);
        if text[0] == 0 {
            assert(bytes[0] == 0 && bytes[1] == 1);
            assert(bytes.skip(2) =~= text_payload(rest) + after);
            assert(seq![0u8] + rest =~= text);
            assert(text_payload(text).len() == text_payload(rest).len() + 2);
        } else {
            assert(bytes[0] == text[0]);
            assert(bytes.skip(1) =~= text_payload(rest) + after);
            assert(seq![text[0]] + rest =~= text);
            assert(text_payload(text).len() == text_payload(rest).len() + 1);
        }
    }
}

/// The rank of a double leads back to the double.
pub proof fn lemma_float_rank(bits: u64)
    ensures
        float_rank(bits) < pow256(8),
        float_of_rank(float_rank(bits)) == bits,
{
    lemma_pow256_8();
}

/// An encoded part reads back, whatever follows it.
pub proof fn lemma_parse_part(part: KeyPartView, after: Seq<u8>)
    ensures
        parse_part(encode_part(part) + after) == Some((part, encode_part(part).len())),
{
    let bytes = encode_part(part) + after;
    assert(bytes[0] == part_rank(part) as u8);
    lemma_pow256_8();
    match part {
        KeyPartView::Null => {},
        KeyPartView::Bool(_) => {},
        KeyPartView::Number(Number::NegInt(x)) => {
            lemma_be_bytes_len(int_rank(x), 8);
            assert(bytes.subrange(1, 9) =~= be_bytes(int_rank(x), 8));
            lemma_be_round_trip(int_rank(x), 8);
        },
        KeyPartView::Number(Number::PosInt(x)) => {
            lemma_be_bytes_len(x as nat, 8);
            assert(bytes.subrange(1, 9) =~= be_bytes(x as nat, 8));
            lemma_be_round_trip(x as nat, 8);
        },
        KeyPartView::Number(Number::Float(x)) => {
            lemma_float_rank(x);
            lemma_be_bytes_len(float_rank(x), 8);
            assert(bytes.subrange(1, 9) =~= be_bytes(float_rank(x), 8));
            lemma_be_round_trip(float_rank(x), 8);
        },
        KeyPartView::Text(s) => {
            let text = encode_utf8(s);
            assert(bytes.skip(1) =~= text_payload(text) + after);
            lemma_parse_text(text, after);
            encode_utf8_valid_utf8(s);
            encode_utf8_decode_utf8(s);
        },
    }
}

/// Encoded parts read back.
pub proof fn lemma_parse_parts(parts: Seq<KeyPartView>)
    ensures
        parse_parts(encode_parts(parts), parts.len()) == Some(parts),
    decreases parts.len(),
{
    if parts.len() > 0 {
        let rest = parts.skip(1);
        let bytes = encode_parts(parts);
        lemma_parse_part(parts[0], encode_parts(rest));
        assert(bytes.skip(encode_part(parts[0]).len() as int) =~= encode_parts(rest));
        lemma_parse_parts(rest);
        assert(seq![parts[0]] + rest =~= parts);
    }
}

/// A key in memory has fewer than 2^64 parts.
pub proof fn lemma_key_len_fits(key: OndoKey)
    ensures
        key@.len() < 0x1_0000_0000_0000_0000,
{
    assert(key@.len() == key.values.len());
}

/// Round trip: an encoded key decodes to the key.
pub proof fn lemma_key_round_trip(key: OndoKey)
    ensures
        decode_key(encode_key(key@)) == Some(key@),
{
    lemma_key_len_fits(key);
    lemma_key_round_trip_of(key@);
}

/// Round trip: the bytes of a key of fewer than 2^64 parts stand for that
/// key.
pub proof fn lemma_key_round_trip_of(key: Seq<KeyPartView>)
    requires
        key.len() < 0x1_0000_0000_0000_0000,
    ensures
        decode_key(encode_key(key)) == Some(key),
{
    let bytes = encode_key(key);
    lemma_pow256_8();
    lemma_be_bytes_len(key.len(), 8);
    assert(bytes.take(8) =~= be_bytes(key.len(), 8));
    assert(bytes.skip(8) =~= encode_parts(key));
    lemma_be_round_trip(key.len(), 8);
    lemma_parse_parts(key);
}

/// The payloads of texts split as the texts are ordered.
pub proof fn lemma_text_splits(a: Seq<u8>, b: Seq<u8>)
    requires
        bytes_lt(a, b),
    ensures
        splits_before(text_payload(a), text_payload(b)),
    decreases a.len(),
{
    let pa = text_payload(a);
    let pb = text_payload(b);
    if a.len() == 0 {
        assert(escape(a) =~= Seq::empty());
        assert(pa[0] == 0 && pa[1] == 0);
        if b[0] == 0 {
            assert(pb[0] == 0 && pb[1] == 1);
            assert(splits_at(pa, pb, 1));
        } else {
            assert(pb[0] == b[0]);
            assert(splits_at(pa, pb, 0));
        }
    } else if a[0] != b[0] {
        assert(pa[0] == a[0]);
        assert(pb[0] == b[0]);
        assert(splits_at(pa, pb, 0));
    } else {
        let front = if a[0] == 0 {
            seq![0u8, 1u8]
        } else {
            seq![a[0]]
        };
        lemma_text_splits(a.skip(1), b.skip(1));
        lemma_splits_in_context(
            front,
            text_payload(a.skip(1)),
            text_payload(b.skip(1)),
            Seq::empty(),
            Seq::empty(),
        );
        assert(pa =~= front + text_payload(a.skip(1)) + Seq::empty());
        assert(pb =~= front + text_payload(b.skip(1)) + Seq::empty());
    }
}

/// The bytes of parts split as the parts are ordered.
pub proof fn lemma_part_splits(a: KeyPartView, b: KeyPartView)
    requires
        part_lt(a, b),
    ensures
        splits_before(encode_part(a), encode_part(b)),
{
    let ea = encode_part(a);
    let eb = encode_part(b);
    if part_rank(a) != part_rank(b) {
        assert(splits_at(ea, eb, 0));
    } else {
        lemma_pow256_8();
        let tag = seq![part_rank(a) as u8];
        match (a, b) {
            (KeyPartView::Number(Number::NegInt(x)), KeyPartView::Number(Number::NegInt(y))) => {
                lemma_be_order(int_rank(x), int_rank(y), 8);
            },
            (KeyPartView::Number(Number::PosInt(x)), KeyPartView::Number(Number::PosInt(y))) => {
                lemma_be_order(x as nat, y as nat, 8);
            },
            (KeyPartView::Number(Number::Float(x)), KeyPartView::Number(Number::Float(y))) => {
                lemma_be_order(float_rank(x), float_rank(y), 8);
            },
            (KeyPartView::Text(s), KeyPartView::Text(t)) => {
                lemma_text_splits(encode_utf8(s), encode_utf8(t));
            },
            _ => {},
        }
        lemma_splits_in_context(
            tag,
            part_payload(a),
            part_payload(b),
            Seq::empty(),
            Seq::empty(),
        );
        assert(ea =~= tag + part_payload(a) + Seq::empty());
        assert(eb =~= tag + part_payload(b) + Seq::empty());
    }
}

/// The bytes of part lists of one length split as the lists are ordered.
pub proof fn lemma_parts_split(a: Seq<KeyPartView>, b: Seq<KeyPartView>)
    requires
        parts_lt(a, b),
    ensures
        splits_before(encode_parts(a), encode_parts(b)),
    decreases a.len(),
{
    if a[0] != b[0] {
        lemma_part_splits(a[0], b[0]);
        lemma_splits_in_context(
            Seq::empty(),
            encode_part(a[0]),
            encode_part(b[0]),
            encode_parts(a.skip(1)),
            encode_parts(b.skip(1)),
        );
        assert(encode_parts(a) =~= Seq::empty() + encode_part(a[0]) + encode_parts(a.skip(1)));
        assert(encode_parts(b) =~= Seq::empty() + encode_part(b[0]) + encode_parts(b.skip(1)));
    } else {
        lemma_parts_split(a.skip(1), b.skip(1));
        lemma_splits_in_context(
            encode_part(a[0]),
            encode_parts(a.skip(1)),
            encode_parts(b.skip(1)),
            Seq::empty(),
            Seq::empty(),
        );
        assert(encode_parts(a) =~= encode_part(a[0]) + encode_parts(a.skip(1)) + Seq::empty());
        assert(encode_parts(b) =~= encode_part(b[0]) + encode_parts(b.skip(1)) + Seq::empty());
    }
}

/// A key that comes before another has bytes that come before the other's.
pub proof fn lemma_key_order_kept(a: Seq<KeyPartView>, b: Seq<KeyPartView>)
    requires
        a.len() < 0x1_0000_0000_0000_0000,
        b.len() < 0x1_0000_0000_0000_0000,
        key_lt(a, b),
    ensures
        bytes_lt(encode_key(a), encode_key(b)),
{
    lemma_pow256_8();
    if a.len() < b.len() {
        lemma_be_order(a.len(), b.len(), 8);
        lemma_splits_then_lt(
            be_bytes(a.len(), 8),
            be_bytes(b.len(), 8),
            encode_parts(a),
            encode_parts(b),
        );
    } else {
        lemma_parts_split(a, b);
        lemma_splits_in_context(
            be_bytes(a.len(), 8),
            encode_parts(a),
            encode_parts(b),
            Seq::empty(),
            Seq::empty(),
        );
        lemma_splits_then_lt(
            be_bytes(a.len(), 8) + encode_parts(a),
            be_bytes(a.len(), 8) + encode_parts(b),
            Seq::empty(),
            Seq::empty(),
        );
        assert(encode_key(a) =~= be_bytes(a.len(), 8) + encode_parts(a) + Seq::empty());
        assert(encode_key(b) =~= be_bytes(a.len(), 8) + encode_parts(b) + Seq::empty());
    }
}

/// Key ordering: the bytes of one key come before the bytes of another
/// exactly if the one key comes before the other, by length tag and then
/// part by part.
pub proof fn lemma_key_order(a: OndoKey, b: OndoKey)
    ensures
        bytes_lt(encode_key(a@), encode_key(b@)) <==> key_lt(a@, b@),
{
    lemma_key_len_fits(a);
    lemma_key_len_fits(b);
    if key_lt(a@, b@) {
        lemma_key_order_kept(a@, b@);
    } else if a@ == b@ {
        lemma_bytes_lt_irreflexive(encode_key(a@));
    } else {
        lemma_key_lt_total(a@, b@);
        lemma_key_order_kept(b@, a@);
        if bytes_lt(encode_key(a@), encode_key(b@)) {
            lemma_bytes_lt_asymmetric(encode_key(a@), encode_key(b@));
        }
    }
}

/// Different keys have different bytes.
pub proof fn lemma_encode_injective(a: OndoKey, b: OndoKey)
    requires
        encode_key(a@) == encode_key(b@),
    ensures
        a@ == b@,
{
    lemma_key_round_trip(a);
    lemma_key_round_trip(b);
}

/// Escaping goes byte by byte.
pub proof fn lemma_escape_push(text: Seq<u8>, byte: u8)
    ensures
        escape(text.push(byte)) == escape(text) + (if byte == 0 {
            seq![0u8, 1u8]
        } else {
            seq![byte]
        }),
    decreases text.len(),
{
    let chunk = if byte == 0 {
        seq![0u8, 1u8]
    } else {
        seq![byte]
    };
    if text.len() == 0 {
        assert(text.push(byte).skip(1) =~= Seq::empty());
        assert(escape(text.push(byte).skip(1)) =~= Seq::empty());
        assert(escape(text.push(byte)) =~= chunk);
        assert(escape(text) + chunk =~= chunk);
    } else {
        assert(text.push(byte).skip(1) =~= text.skip(1).push(byte));
        lemma_escape_push(text.skip(1), byte);
        assert(escape(text.push(byte)) =~= escape(text) + chunk);
    }
}

/// Encoding goes part by part.
pub proof fn lemma_encode_parts_push(parts: Seq<KeyPartView>, part: KeyPartView)
    ensures
        encode_parts(parts.push(part)) == encode_parts(parts) + encode_part(part),
    decreases parts.len(),
{
    if parts.len() == 0 {
        assert(parts.push(part).skip(1) =~= Seq::empty());
        assert(encode_parts(parts.push(part).skip(1)) =~= Seq::empty());
        assert(encode_parts(parts.push(part)) =~= encode_part(part));
        assert(encode_parts(parts) + encode_part(part) =~= encode_part(part));
    } else {
        assert(parts.push(part).skip(1) =~= parts.skip(1).push(part));
        lemma_encode_parts_push(parts.skip(1), part);
        assert(encode_parts(parts.push(part)) =~= encode_parts(parts) + encode_part(part));
    }
}

/// `String::from_utf8` of std: the bytes are a string exactly if they are
/// valid UTF-8, and the string is then the text that they encode.
#[verifier::external_body]
fn string_from_utf8(bytes: Vec<u8>) -> (r: Option<String>)
    ensures
        r is Some <==> valid_utf8(bytes@),
        r matches Some(s) ==> s@ == decode_utf8(bytes@),
{
    match String::from_utf8(bytes) {
        Ok(s) => Some(s),
        Err(_) => None,
    }
}

/// Appends the payload of a text to `out`.
fn push_text(out: &mut Vec<u8>, text: &[u8])
    ensures
        final(out)@ == old(out)@ + text_payload(text@),
{
    let ghost before = out@;
    let mut i: usize = 0;
    assert(text@.take(0) =~= Seq::empty());
    assert(out@ =~= before + escape(text@.take(0)));
    while i < text.len()
        invariant
            i <= text.len(),
            out@ == before + escape(text@.take(i as int)),
        decreases text.len() - i,
    {
        let byte = text[i];
        proof {
            lemma_escape_push(text@.take(i as int), byte);
            assert(text@.take(i + 1) =~= text@.take(i as int).push(byte));
        }
        let ghost so_far = out@;
        if byte == 0 {
            out.push(0);
            out.push(1);
            assert(out@ =~= so_far + seq![0u8, 1u8]);
        } else {
            out.push(byte);
            assert(out@ =~= so_far + seq![byte]);
        }
        assert(out@ =~= before + escape(text@.take(i + 1)));
        i += 1;
    }
    assert(text@.take(text@.len() as int) =~= text@);
    let ghost escaped = out@;
    out.push(0);
    out.push(0);
    assert(out@ =~= before + text_payload(text@));
}

/// Appends the bytes of a part to `out`.
fn push_part(out: &mut Vec<u8>, part: &KeyPart)
    ensures
        final(out)@ == old(out)@ + encode_part(part@),
{
    let ghost before = out@;
    match part {
        KeyPart::Null => {
            out.push(1);
        },
        KeyPart::Bool(false) => {
            out.push(2);
        },
        KeyPart::Bool(true) => {
            out.push(3);
        },
        KeyPart::Number(Number::NegInt(x)) => {
            out.push(4);
            let biased: i128 = *x as i128 + 0x8000_0000_0000_0000i128;
            push_be(out, biased as u64, 8);
        },
        KeyPart::Number(Number::PosInt(x)) => {
            out.push(5);
            push_be(out, *x, 8);
        },
        KeyPart::Number(Number::Float(x)) => {
            out.push(6);
            let rank: u64 = if *x >= 0x8000_0000_0000_0000u64 {
                0xffff_ffff_ffff_ffffu64 - *x
            } else {
                *x + 0x8000_0000_0000_0000u64
            };
            push_be(out, rank, 8);
        },
        KeyPart::Text(s) => {
            out.push(7);
            push_text(out, s.as_str().as_bytes());
        },
    }
    assert(out@ =~= before + encode_part(part@));
}

/// Reads an escaped text that starts at `start`: the text, and where the
/// bytes after its closing zeros start.
fn parse_text_at(bytes: &[u8], start: usize) -> (r: Option<(Vec<u8>, usize)>)
    requires
        start <= bytes@.len(),
    ensures
        r is Some <==> parse_text(bytes@.skip(start as int)) is Some,
        r matches Some((text, end)) ==> {
            &&& text@ == parse_text(bytes@.skip(start as int))->Some_0.0
            &&& end == start + parse_text(bytes@.skip(start as int))->Some_0.1
            &&& end <= bytes@.len()
        },
{
    let mut text: Vec<u8> = Vec::new();
    let mut i: usize = start;
    let n = bytes.len();
    let ghost whole = parse_text(bytes@.skip(start as int));
    assert(Seq::<u8>::empty() + parse_text(bytes@.skip(start as int))->Some_0.0 =~= parse_text(
        bytes@.skip(start as int),
    )->Some_0.0);
    loop
        invariant
            start <= i <= n,
            n == bytes@.len(),
            whole == parse_text(bytes@.skip(start as int)),
            whole is Some <==> parse_text(bytes@.skip(i as int)) is Some,
            whole is Some ==> {
                &&& whole->Some_0.0 == text@ + parse_text(bytes@.skip(i as int))->Some_0.0
                &&& whole->Some_0.1 == parse_text(bytes@.skip(i as int))->Some_0.1 + i - start
            },
        decreases n - i,
    {
        let ghost here = bytes@.skip(i as int);
        if i >= n {
            return None;
        }
        let byte = bytes[i];
        assert(here[0] == byte);
        if byte != 0 {
            proof {
                assert(here.skip(1) =~= bytes@.skip(i + 1));
                let next = parse_text(here.skip(1));
                if next is Some {
                    assert(text@.push(byte) + next->Some_0.0 =~= text@ + (seq![byte]
                        + next->Some_0.0));
                }
            }
            text.push(byte);
            i += 1;
        } else {
            if n - i < 2 {
                return None;
            }
            let mark = bytes[i + 1];
            assert(here[1] == mark);
            if mark == 0 {
                proof {
                    assert(text@ + Seq::<u8>::empty() =~= text@);
                }
                return Some((text, i + 2));
            } else if mark == 1 {
                proof {
                    assert(here.skip(2) =~= bytes@.skip(i + 2));
                    let next = parse_text(here.skip(2));
                    if next is Some {
                        assert(text@.push(0u8) + next->Some_0.0 =~= text@ + (seq![0u8]
                            + next->Some_0.0));
                    }
                }
                text.push(0);
                i += 2;
            } else {
                return None;
            }
        }
    }
}

/// Reads the part that starts at `start`: the part, and where the bytes
/// after it start.
fn parse_part_at(bytes: &[u8], start: usize) -> (r: Option<(KeyPart, usize)>)
    requires
        start <= bytes@.len(),
    ensures
        r is Some <==> parse_part(bytes@.skip(start as int)) is Some,
        r matches Some((part, end)) ==> {
            &&& part@ == parse_part(bytes@.skip(start as int))->Some_0.0
            &&& end == start + parse_part(bytes@.skip(start as int))->Some_0.1
            &&& start < end <= bytes@.len()
        },
{
    let n = bytes.len();
    let ghost here = bytes@.skip(start as int);
    if start >= n {
        return None;
    }
    let tag = bytes[start];
    assert(here[0] == tag);
    if tag == 1 {
        Some((KeyPart::Null, start + 1))
    } else if tag == 2 {
        Some((KeyPart::Bool(false), start + 1))
    } else if tag == 3 {
        Some((KeyPart::Bool(true), start + 1))
    } else if tag >= 4 && tag <= 6 {
        if n - start < 9 {
            return None;
        }
        let rank = read_be8(bytes, start + 1);
        proof {
            assert(here.subrange(1, 9) =~= bytes@.subrange(start + 1, start + 9));
            lemma_be_value_bytes(here.subrange(1, 9));
            lemma_pow256_8();
        }
        if tag == 4 {
            let value: i128 = rank as i128 - 0x8000_0000_0000_0000i128;
            Some((KeyPart::Number(Number::NegInt(value as i64)), start + 9))
        } else if tag == 5 {
            Some((KeyPart::Number(Number::PosInt(rank)), start + 9))
        } else {
            let bits: u64 = if rank >= 0x8000_0000_0000_0000u64 {
                rank - 0x8000_0000_0000_0000u64
            } else {
                0xffff_ffff_ffff_ffffu64 - rank
            };
            Some((KeyPart::Number(Number::Float(bits)), start + 9))
        }
    } else if tag == 7 {
        assert(here.skip(1) =~= bytes@.skip(start + 1));
        match parse_text_at(bytes, start + 1) {
            Some((text, end)) => match string_from_utf8(text) {
                Some(s) => Some((KeyPart::Text(s), end)),
                None => None,
            },
            None => None,
        }
    } else {
        None
    }
}

impl OndoKey {
    /// The bytes of the key, as a result that never fails.
    pub fn ondo_serialize(&self) -> (r: DbResult<Vec<u8>>)
        ensures
            r is Ok,
            r->Ok_0@ == encode_key(self@),
    {
        Ok(self.encode())
    }

    /// The bytes of the key.
    pub fn encode(&self) -> (r: Vec<u8>)
        ensures
            r@ == encode_key(self@),
    {
        let mut out: Vec<u8> = Vec::new();
        push_be(&mut out, self.values.len() as u64, 8);
        let mut i: usize = 0;
        assert(self@.take(0) =~= Seq::empty());
        assert(out@ =~= be_bytes(self@.len(), 8) + encode_parts(self@.take(0)));
        while i < self.values.len()
            invariant
                i <= self.values.len(),
                out@ == be_bytes(self@.len(), 8) + encode_parts(self@.take(i as int)),
            decreases self.values.len() - i,
        {
            proof {
                lemma_encode_parts_push(self@.take(i as int), self.values@[i as int]@);
                assert(self@.take(i + 1) =~= self@.take(i as int).push(self.values@[i as int]@));
            }
            let ghost so_far = out@;
            push_part(&mut out, &self.values[i]);
            assert(out@ =~= be_bytes(self@.len(), 8) + encode_parts(self@.take(i + 1)));
            i += 1;
        }
        assert(self@.take(self@.len() as int) =~= self@);
        out
    }

    /// The key that `bytes` stand for; fails with `SerializationError` if
    /// they are not the bytes of a key.
    pub fn ondo_deserialize(bytes: &[u8]) -> (r: DbResult<OndoKey>)
        ensures
            r is Ok <==> decode_key(bytes@) is Some,
            r matches Ok(key) ==> Some(key@) == decode_key(bytes@),
            r matches Err(e) ==> e@ == not_a_key(),
    {
        let n = bytes.len();
        if n < 8 {
            return Err(Self::not_a_key());
        }
        let count = read_be8(bytes, 0);
        assert(bytes@.take(8) =~= bytes@.subrange(0, 8));
        let mut parts: Vec<KeyPart> = Vec::new();
        let mut remaining: u64 = count;
        let mut pos: usize = 8;
        let ghost whole = decode_key(bytes@);
        assert(parts.deep_view() + parse_parts(bytes@.skip(8), count as nat)->Some_0
            =~= parse_parts(bytes@.skip(8), count as nat)->Some_0);
        while remaining > 0
            invariant
                8 <= pos <= n,
                n == bytes@.len(),
                whole == decode_key(bytes@),
                whole is Some <==> parse_parts(bytes@.skip(pos as int), remaining as nat) is Some,
                whole is Some ==> whole->Some_0 == parts.deep_view() + parse_parts(
                    bytes@.skip(pos as int),
                    remaining as nat,
                )->Some_0,
            decreases remaining,
        {
            let ghost here = bytes@.skip(pos as int);
            match parse_part_at(bytes, pos) {
                None => {
                    return Err(Self::not_a_key());
                },
                Some((part, end)) => {
                    proof {
                        let read = parse_part(here)->Some_0.1;
                        assert(here.skip(read as int) =~= bytes@.skip(end as int));
                        let rest = parse_parts(bytes@.skip(end as int), (remaining - 1) as nat);
                        if rest is Some {
                            assert(parts.deep_view().push(part@) + rest->Some_0
                                =~= parts.deep_view() + (seq![part@] + rest->Some_0));
                        }
                    }
                    let ghost before = parts.deep_view();
                    parts.push(part);
                    assert(parts.deep_view() =~= before.push(part@));
                    pos = end;
                    remaining -= 1;
                },
            }
        }
        if pos == n {
            assert(bytes@.skip(pos as int) =~= Seq::empty());
            assert(parts.deep_view() + Seq::<KeyPartView>::empty() =~= parts.deep_view());
            Ok(OndoKey::new(parts))
        } else {
            Err(Self::not_a_key())
        }
    }

    /// The error that bytes which are no key give.
    fn not_a_key() -> (r: DbError)
        ensures
            r@ == not_a_key(),
    {
        DbError::SerializationError(String::from_str("bytes do not hold a key"))
    }
}

} // verus!
