//! The order of byte strings, and big-endian numbers in it.
//!
//! Byte strings are compared as a store compares its keys: byte by byte, a
//! proper prefix before its extensions.

use vstd::prelude::*;

verus! {

/// `a` comes before `b` in the byte-wise lexicographic order.
pub open spec fn bytes_lt(a: Seq<u8>, b: Seq<u8>) -> bool
    decreases a.len(),
{
    if b.len() == 0 {
        false
    } else if a.len() == 0 {
        true
    } else if a[0] != b[0] {
        a[0] < b[0]
    } else {
        bytes_lt(a.skip(1), b.skip(1))
    }
}

/// `a` and `b` agree up to some position that lies within both, and there
/// `a` holds the smaller byte. Whatever follows `a` and `b`, `a` stays
/// before `b`.
pub open spec fn splits_before(a: Seq<u8>, b: Seq<u8>) -> bool {
    exists|i: int| splits_at(a, b, i)
}

/// `a` and `b` agree before position `i`, which lies within both, and there
/// `a` holds the smaller byte.
pub open spec fn splits_at(a: Seq<u8>, b: Seq<u8>, i: int) -> bool {
    &&& 0 <= i < a.len()
    &&& i < b.len()
    &&& a[i] < b[i]
    &&& forall|j: int| 0 <= j < i ==> a[j] == b[j]
}

/// No byte string comes before itself.
pub proof fn lemma_bytes_lt_irreflexive(a: Seq<u8>)
    ensures
        !bytes_lt(a, a),
    decreases a.len(),
{
    if a.len() > 0 {
        lemma_bytes_lt_irreflexive(a.skip(1));
    }
}

/// Of two byte strings at most one comes before the other.
pub proof fn lemma_bytes_lt_asymmetric(a: Seq<u8>, b: Seq<u8>)
    requires
        bytes_lt(a, b),
    ensures
        !bytes_lt(b, a),
    decreases a.len(),
{
    if a.len() > 0 && b.len() > 0 && a[0] == b[0] {
        lemma_bytes_lt_asymmetric(a.skip(1), b.skip(1));
    }
}

/// Of two different byte strings one comes before the other.
pub proof fn lemma_bytes_lt_total(a: Seq<u8>, b: Seq<u8>)
    requires
        a != b,
    ensures
        bytes_lt(a, b) || bytes_lt(b, a),
    decreases a.len(),
{
    if a.len() > 0 && b.len() > 0 && a[0] == b[0] {
        if a.skip(1) == b.skip(1) {
            assert(a =~= seq![a[0]] + a.skip(1));
            assert(b =~= seq![b[0]] + b.skip(1));
        }
        lemma_bytes_lt_total(a.skip(1), b.skip(1));
    } else if a.len() == 0 && b.len() == 0 {
        assert(a =~= b);
    }
}

/// A common front does not change the order.
pub proof fn lemma_bytes_lt_common_front(front: Seq<u8>, a: Seq<u8>, b: Seq<u8>)
    ensures
        bytes_lt(front + a, front + b) == bytes_lt(a, b),
    decreases front.len(),
{
    if front.len() == 0 {
        assert(front + a =~= a);
        assert(front + b =~= b);
    } else {
        let rest = front.skip(1);
        assert((front + a).skip(1) =~= rest + a);
        assert((front + b).skip(1) =~= rest + b);
        lemma_bytes_lt_common_front(rest, a, b);
    }
}

/// Strings that split stay in order whatever follows them.
pub proof fn lemma_splits_then_lt(a: Seq<u8>, b: Seq<u8>, after_a: Seq<u8>, after_b: Seq<u8>)
    requires
        splits_before(a, b),
    ensures
        bytes_lt(a + after_a, b + after_b),
{
    let i = choose|i: int| splits_at(a, b, i);
    lemma_split_at_then_lt(a + after_a, b + after_b, i);
}

/// Strings that agree before a position within both, where the first holds
/// the smaller byte, are in order.
pub proof fn lemma_split_at_then_lt(a: Seq<u8>, b: Seq<u8>, i: int)
    requires
        0 <= i < a.len(),
        i < b.len(),
        a[i] < b[i],
        forall|j: int| 0 <= j < i ==> a[j] == b[j],
    ensures
        bytes_lt(a, b),
    decreases i,
{
    if i > 0 {
        assert(a[0] == b[0]);
        assert forall|j: int| 0 <= j < i - 1 implies a.skip(1)[j] == b.skip(1)[j] by {
            assert(a[j + 1] == b[j + 1]);
        }
        lemma_split_at_then_lt(a.skip(1), b.skip(1), i - 1);
    }
}

/// A split survives a common front and anything that follows.
pub proof fn lemma_splits_in_context(
    front: Seq<u8>,
    a: Seq<u8>,
    b: Seq<u8>,
    after_a: Seq<u8>,
    after_b: Seq<u8>,
)
    requires
        splits_before(a, b),
    ensures
        splits_before(front + a + after_a, front + b + after_b),
{
    let i = choose|i: int| splits_at(a, b, i);
    let whole_a = front + a + after_a;
    let whole_b = front + b + after_b;
    let at = front.len() + i;
    assert(whole_a[at] == a[i]);
    assert(whole_b[at] == b[i]);
    assert forall|j: int| 0 <= j < at implies whole_a[j] == whole_b[j] by {
        if j < front.len() {
            assert(whole_a[j] == front[j]);
            assert(whole_b[j] == front[j]);
        } else {
            assert(whole_a[j] == a[j - front.len()]);
            assert(whole_b[j] == b[j - front.len()]);
        }
    }
    assert(splits_at(whole_a, whole_b, at));
}

/// 256 to the power `n`.
pub open spec fn pow256(n: nat) -> nat
    decreases n,
{
    if n == 0 {
        1
    } else {
        256 * pow256((n - 1) as nat)
    }
}

/// The `n` big-endian bytes of `x`; the low `n` bytes, if `x` needs more.
pub open spec fn be_bytes(x: nat, n: nat) -> Seq<u8>
    decreases n,
{
    if n == 0 {
        Seq::empty()
    } else {
        be_bytes(x / 256, (n - 1) as nat).push((x % 256) as u8)
    }
}

/// The number that big-endian bytes stand for.
pub open spec fn be_value(bytes: Seq<u8>) -> nat
    decreases bytes.len(),
{
    if bytes.len() == 0 {
        0
    } else {
        be_value(bytes.drop_last()) * 256 + bytes.last() as nat
    }
}

/// Eight bytes hold the numbers below two to the 64.
pub proof fn lemma_pow256_8()
    ensures
        pow256(8) == 0x1_0000_0000_0000_0000,
{
    reveal_with_fuel(pow256, 9);
}

/// `n` big-endian bytes are `n` bytes.
pub proof fn lemma_be_bytes_len(x: nat, n: nat)
    ensures
        be_bytes(x, n).len() == n,
    decreases n,
{
    if n > 0 {
        lemma_be_bytes_len(x / 256, (n - 1) as nat);
    }
}

/// The bytes of a number that fits stand for that number.
pub proof fn lemma_be_round_trip(x: nat, n: nat)
    requires
        x < pow256(n),
    ensures
        be_value(be_bytes(x, n)) == x,
    decreases n,
{
    if n > 0 {
        let front = be_bytes(x / 256, (n - 1) as nat);
        assert(be_bytes(x, n).drop_last() =~= front);
        lemma_be_round_trip(x / 256, (n - 1) as nat);
    }
}

/// What `n` bytes stand for fits into `n` bytes, and its bytes are those.
pub proof fn lemma_be_value_bytes(bytes: Seq<u8>)
    ensures
        be_value(bytes) < pow256(bytes.len()),
        be_bytes(be_value(bytes), bytes.len()) == bytes,
    decreases bytes.len(),
{
    if bytes.len() > 0 {
        let front = bytes.drop_last();
        lemma_be_value_bytes(front);
        let value = be_value(bytes);
        assert(value / 256 == be_value(front));
        assert(value % 256 == bytes.last() as nat);
        assert(be_bytes(value, bytes.len()) =~= bytes);
    }
}

/// Smaller numbers have bytes that split before those of larger ones.
pub proof fn lemma_be_order(x: nat, y: nat, n: nat)
    requires
        x < y < pow256(n),
    ensures
        splits_before(be_bytes(x, n), be_bytes(y, n)),
    decreases n,
{
    if n > 0 {
        let m = (n - 1) as nat;
        let a = be_bytes(x, n);
        let b = be_bytes(y, n);
        lemma_be_bytes_len(x / 256, m);
        lemma_be_bytes_len(y / 256, m);
        if x / 256 < y / 256 {
            lemma_be_order(x / 256, y / 256, m);
            let front_a = be_bytes(x / 256, m);
            let front_b = be_bytes(y / 256, m);
            let i = choose|i: int| splits_at(front_a, front_b, i);
            assert(splits_at(a, b, i));
        } else {
            assert(x / 256 == y / 256);
            assert(x % 256 < y % 256);
            assert(splits_at(a, b, m as int));
        }
    }
}

/// Appends the `n` big-endian bytes of `x` to `out`.
pub fn push_be(out: &mut Vec<u8>, x: u64, n: u8)
    ensures
        final(out)@ == old(out)@ + be_bytes(x as nat, n as nat),
    decreases n,
{
    if n == 0 {
        assert(out@ =~= out@ + be_bytes(x as nat, 0));
    } else {
        let ghost before = out@;
        push_be(out, x / 256, n - 1);
        out.push((x % 256) as u8);
        assert(out@ =~= before + be_bytes(x as nat, n as nat));
    }
}

/// The number that the eight bytes from `start` stand for.
pub fn read_be8(bytes: &[u8], start: usize) -> (r: u64)
    requires
        start + 8 <= bytes@.len(),
    ensures
        r == be_value(bytes@.subrange(start as int, start + 8)),
{
    let mut value: u64 = 0;
    let mut k: usize = 0;
    let available = bytes.len();
    assert(bytes@.subrange(start as int, start as int) =~= Seq::empty());
    while k < 8
        invariant
            k <= 8,
            available == bytes@.len(),
            start + 8 <= bytes@.len(),
            value == be_value(bytes@.subrange(start as int, start + k)),
            value < pow256(k as nat),
        decreases 8 - k,
    {
        let ghost next = bytes@.subrange(start as int, start + k + 1);
        proof {
            assert(next.drop_last() =~= bytes@.subrange(start as int, start + k));
            assert(next.last() == bytes@[start + k]);
            lemma_be_value_bytes(next);
            lemma_pow256_monotonic((k + 1) as nat, 8);
            lemma_pow256_8();
        }
        value = value * 256 + bytes[start + k] as u64;
        k += 1;
    }
    value
}

/// More bytes hold more numbers.
pub proof fn lemma_pow256_monotonic(m: nat, n: nat)
    requires
        m <= n,
    ensures
        pow256(m) <= pow256(n),
    decreases n,
{
    if m < n {
        lemma_pow256_monotonic(m, (n - 1) as nat);
    }
}

/// What comes before something that comes before a third comes before the
/// third.
pub proof fn lemma_bytes_lt_transitive(a: Seq<u8>, b: Seq<u8>, c: Seq<u8>)
    requires
        bytes_lt(a, b),
        bytes_lt(b, c),
    ensures
        bytes_lt(a, c),
    decreases a.len(),
{
    if a.len() > 0 && b.len() > 0 && c.len() > 0 && a[0] == b[0] && b[0] == c[0] {
        lemma_bytes_lt_transitive(a.skip(1), b.skip(1), c.skip(1));
    }
}

/// Whether `a` comes before `b`.
pub fn bytes_before(a: &[u8], b: &[u8]) -> (r: bool)
    ensures
        r == bytes_lt(a@, b@),
{
    let mut i: usize = 0;
    assert(a@.skip(0) =~= a@ && b@.skip(0) =~= b@);
    loop
        invariant
            i <= a@.len(),
            i <= b@.len(),
            bytes_lt(a@, b@) == bytes_lt(a@.skip(i as int), b@.skip(i as int)),
        decreases a@.len() - i,
    {
        if i >= b.len() {
            return false;
        }
        if i >= a.len() {
            return true;
        }
        let x = a[i];
        let y = b[i];
        assert(a@.skip(i as int)[0] == x && b@.skip(i as int)[0] == y);
        if x != y {
            return x < y;
        }
        assert(a@.skip(i as int).skip(1) =~= a@.skip(i + 1));
        assert(b@.skip(i as int).skip(1) =~= b@.skip(i + 1));
        i += 1;
    }
}

/// Whether `a` and `b` are the same bytes.
pub fn bytes_same(a: &[u8], b: &[u8]) -> (r: bool)
    ensures
        r == (a@ == b@),
{
    if a.len() != b.len() {
        return false;
    }
    let mut i: usize = 0;
    while i < a.len()
        invariant
            i <= a@.len(),
            a@.len() == b@.len(),
            forall|k: int| 0 <= k < i ==> a@[k] == b@[k],
        decreases a@.len() - i,
    {
        if a[i] != b[i] {
            return false;
        }
        i += 1;
    }
    assert(a@ =~= b@);
    true
}

} // verus!
