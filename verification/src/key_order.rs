//! The logical order of keys.
//!
//! Keys compare by their length tag first, then part by part. Parts of
//! different kinds compare by kind: null, false, true, signed integers,
//! unsigned integers, doubles, texts. Integers compare by value, doubles in
//! the total order of IEEE 754, texts byte-wise in UTF-8.

use crate::byte_order::{bytes_lt, lemma_bytes_lt_total};
use crate::key::KeyPartView;
use crate::value::Number;
use vstd::prelude::*;
use vstd::utf8::{encode_utf8, encode_utf8_decode_utf8};

verus! {

/// The place of a part's kind among the kinds.
pub open spec fn part_rank(part: KeyPartView) -> nat {
    match part {
        KeyPartView::Null => 1,
        KeyPartView::Bool(false) => 2,
        KeyPartView::Bool(true) => 3,
        KeyPartView::Number(Number::NegInt(_)) => 4,
        KeyPartView::Number(Number::PosInt(_)) => 5,
        KeyPartView::Number(Number::Float(_)) => 6,
        KeyPartView::Text(_) => 7,
    }
}

/// The place of a double among the doubles: negative ones, which grow as
/// their bits shrink, before the others, which grow with their bits.
pub open spec fn float_rank(bits: u64) -> nat {
    if bits >= 0x8000_0000_0000_0000 {
        (0xffff_ffff_ffff_ffff - bits) as nat
    } else {
        (bits + 0x8000_0000_0000_0000) as nat
    }
}

/// The place of a signed integer among the signed integers.
pub open spec fn int_rank(value: i64) -> nat {
    (value + 0x8000_0000_0000_0000) as nat
}

/// `a` comes before `b`.
pub open spec fn part_lt(a: KeyPartView, b: KeyPartView) -> bool {
    if part_rank(a) != part_rank(b) {
        part_rank(a) < part_rank(b)
    } else {
        match (a, b) {
            (KeyPartView::Number(Number::NegInt(x)), KeyPartView::Number(Number::NegInt(y))) => x
                < y,
            (KeyPartView::Number(Number::PosInt(x)), KeyPartView::Number(Number::PosInt(y))) => x
                < y,
            (KeyPartView::Number(Number::Float(x)), KeyPartView::Number(Number::Float(y))) => {
                float_rank(x) < float_rank(y)
            },
            (KeyPartView::Text(s), KeyPartView::Text(t)) => bytes_lt(
                encode_utf8(s),
                encode_utf8(t),
            ),
            _ => false,
        }
    }
}

/// `a` comes before `b` part by part: at the first place where they
/// differ, `a` holds the smaller part.
pub open spec fn parts_lt(a: Seq<KeyPartView>, b: Seq<KeyPartView>) -> bool
    decreases a.len(),
{
    if a.len() == 0 || b.len() == 0 {
        false
    } else if a[0] != b[0] {
        part_lt(a[0], b[0])
    } else {
        parts_lt(a.skip(1), b.skip(1))
    }
}

/// `a` comes before `b`: it has fewer parts, or as many and the smaller
/// part at the first place where they differ.
pub open spec fn key_lt(a: Seq<KeyPartView>, b: Seq<KeyPartView>) -> bool {
    a.len() < b.len() || (a.len() == b.len() && parts_lt(a, b))
}

/// Different texts have different bytes.
pub proof fn lemma_utf8_injective(s: Seq<char>, t: Seq<char>)
    requires
        encode_utf8(s) == encode_utf8(t),
    ensures
        s == t,
{
    encode_utf8_decode_utf8(s);
    encode_utf8_decode_utf8(t);
}

/// Of two different parts one comes before the other.
pub proof fn lemma_part_lt_total(a: KeyPartView, b: KeyPartView)
    requires
        a != b,
    ensures
        part_lt(a, b) || part_lt(b, a),
{
    if part_rank(a) == part_rank(b) {
        match (a, b) {
            (KeyPartView::Text(s), KeyPartView::Text(t)) => {
                if encode_utf8(s) == encode_utf8(t) {
                    lemma_utf8_injective(s, t);
                }
                lemma_bytes_lt_total(encode_utf8(s), encode_utf8(t));
            },
            _ => {},
        }
    }
}

/// Of two different keys of one length one comes before the other.
pub proof fn lemma_parts_lt_total(a: Seq<KeyPartView>, b: Seq<KeyPartView>)
    requires
        a.len() == b.len(),
        a != b,
    ensures
        parts_lt(a, b) || parts_lt(b, a),
    decreases a.len(),
{
    if a.len() == 0 {
        assert(a =~= b);
    } else if a[0] != b[0] {
        lemma_part_lt_total(a[0], b[0]);
    } else {
        if a.skip(1) == b.skip(1) {
            assert(a =~= seq![a[0]] + a.skip(1));
            assert(b =~= seq![b[0]] + b.skip(1));
        }
        lemma_parts_lt_total(a.skip(1), b.skip(1));
    }
}

/// Of two different keys one comes before the other.
pub proof fn lemma_key_lt_total(a: Seq<KeyPartView>, b: Seq<KeyPartView>)
    requires
        a != b,
    ensures
        key_lt(a, b) || key_lt(b, a),
{
    if a.len() == b.len() {
        lemma_parts_lt_total(a, b);
    }
}

} // verus!
