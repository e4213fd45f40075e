//! Byte-level utilities shared by the map subsystem and the loader:
//! slice equality, copies, and little-endian integer views of byte strings.

use vstd::prelude::*;
use vstd::slice::slice_to_vec;

verus! {

/// The integer a byte string denotes in little-endian order.
pub open spec fn le_bytes_to_nat(s: Seq<u8>) -> nat
    decreases s.len(),
{
    if s.len() == 0 {
        0
    } else {
        s[0] as nat + 256 * le_bytes_to_nat(s.drop_first())
    }
}

/// 256 to the n-th power.
pub open spec fn pow256(n: nat) -> nat
    decreases n,
{
    if n == 0 {
        1
    } else {
        256 * pow256((n - 1) as nat)
    }
}

/// A byte string of length n denotes an integer below 256^n.
pub proof fn lemma_le_bytes_bound(s: Seq<u8>)
    ensures
        le_bytes_to_nat(s) < pow256(s.len()),
    decreases s.len(),
{
    if s.len() == 0 {
    } else {
        lemma_le_bytes_bound(s.drop_first());
    }
}

/// A nonzero byte at position i forces the denoted integer to 256^i or more.
pub proof fn lemma_le_bytes_lower(s: Seq<u8>, i: int)
    requires
        0 <= i < s.len(),
        s[i] != 0,
    ensures
        le_bytes_to_nat(s) >= pow256(i as nat),
    decreases i,
{
    if i == 0 {
    } else {
        lemma_le_bytes_lower(s.drop_first(), i - 1);
    }
}

/// Eight little-endian bytes stay below 2^64.
pub proof fn lemma_le_bytes_fit_u64(s: Seq<u8>)
    requires
        s.len() <= 8,
    ensures
        le_bytes_to_nat(s) <= u64::MAX,
{
    lemma_le_bytes_bound(s);
    reveal_with_fuel(pow256, 9);
    assert(pow256(s.len()) <= pow256(8)) by {
        if s.len() < 8 {
            lemma_pow256_increases(s.len(), 8);
        }
    };
}

pub proof fn lemma_pow256_increases_pub(a: nat, b: nat)
    requires
        a <= b,
    ensures
        pow256(a) <= pow256(b),
{
    lemma_pow256_increases(a, b);
}

proof fn lemma_pow256_increases(a: nat, b: nat)
    requires
        a <= b,
    ensures
        pow256(a) <= pow256(b),
    decreases b,
{
    if a < b {
        lemma_pow256_increases(a, (b - 1) as nat);
    }
}

/// Exact byte-string equality.
pub fn bytes_eq(a: &[u8], b: &[u8]) -> (r: bool)
    ensures
        r == (a@ == b@),
{
    if a.len() != b.len() {
        return false;
    }
    let mut i: usize = 0;
    while i < a.len()
        invariant
            i <= a.len(),
            a@.len() == b@.len(),
            forall|j: int| 0 <= j < i ==> a@[j] == b@[j],
        decreases a.len() - i,
    {
        if a[i] != b[i] {
            return false;
        }
        i = i + 1;
    }
    proof {
        assert(a@ =~= b@);
    }
    true
}

/// Copy a byte string into a fresh vector.
pub fn copy_bytes(v: &[u8]) -> (r: Vec<u8>)
    ensures
        r@ == v@,
{
    slice_to_vec(v)
}

/// Decode the little-endian integer a key denotes, when it fits in 64 bits.
///
/// Returns `None` exactly when the denoted integer is 2^64 or larger.
pub fn le_bytes_to_u64(key: &[u8]) -> (r: Option<u64>)
    ensures
        match r {
            Some(v) => v as nat == le_bytes_to_nat(key@),
            None => le_bytes_to_nat(key@) > u64::MAX,
        },
{
    let len = key.len();
    // A nonzero byte at index 8 or above pushes the value past 2^64.
    let mut j: usize = 8;
    while j < len
        invariant
            8 <= j,
            j <= len || len < 8,
            len == key@.len(),
            forall|t: int| 8 <= t < j ==> key@[t] == 0,
        decreases len - j,
    {
        if key[j] != 0 {
            proof {
                lemma_le_bytes_lower(key@, j as int);
                lemma_pow256_increases(8, j as nat);
                reveal_with_fuel(pow256, 9);
            }
            return None;
        }
        j = j + 1;
    }
    // All bytes at index 8 and above are zero, so the low eight bytes carry
    // the whole value.
    let head = if len < 8 { len } else { 8 };
    proof {
        lemma_le_bytes_high_zero(key@, head as int);
        lemma_le_bytes_fit_u64(key@.subrange(0, head as int));
    }
    let mut acc: u64 = 0;
    let mut i: usize = head;
    while i > 0
        invariant
            i <= head,
            head <= key@.len(),
            head <= 8,
            acc as nat == le_bytes_to_nat(key@.subrange(i as int, head as int)),
            le_bytes_to_nat(key@.subrange(0, head as int)) <= u64::MAX,
        decreases i,
    {
        i = i - 1;
        proof {
            let sub = key@.subrange(i as int, head as int);
            assert(sub.drop_first() =~= key@.subrange(i as int + 1, head as int));
            lemma_le_bytes_prefix_bound(key@.subrange(0, head as int), i as int);
            assert(key@.subrange(0, head as int).subrange(i as int, head as int) =~= sub);
        }
        acc = acc * 256 + (key[i] as u64);
    }
    proof {
        assert(key@.subrange(0, head as int) =~= key@.subrange(0, head as int));
    }
    Some(acc)
}

/// Within a byte string, every suffix denotes no more than the whole.
proof fn lemma_le_bytes_prefix_bound(s: Seq<u8>, i: int)
    requires
        0 <= i <= s.len(),
    ensures
        le_bytes_to_nat(s.subrange(i, s.len() as int)) <= le_bytes_to_nat(s),
    decreases i,
{
    if i == 0 {
        assert(s.subrange(0, s.len() as int) =~= s);
    } else {
        lemma_le_bytes_prefix_bound(s.drop_first(), i - 1);
        assert(s.drop_first().subrange(i - 1, s.drop_first().len() as int) =~= s.subrange(
            i,
            s.len() as int,
        ));
    }
}

/// When every byte from position `head` on is zero, the prefix carries the
/// whole little-endian value.
proof fn lemma_le_bytes_high_zero(s: Seq<u8>, head: int)
    requires
        0 <= head <= s.len(),
        forall|t: int| head <= t < s.len() ==> s[t] == 0,
    ensures
        le_bytes_to_nat(s) == le_bytes_to_nat(s.subrange(0, head)),
    decreases s.len(),
{
    if s.len() == 0 {
        assert(s.subrange(0, head) =~= s);
    } else if head == 0 {
        lemma_le_bytes_all_zero(s);
        assert(le_bytes_to_nat(s.subrange(0, 0)) == 0);
    } else {
        lemma_le_bytes_high_zero(s.drop_first(), head - 1);
        assert(s.drop_first().subrange(0, head - 1) =~= s.subrange(0, head).drop_first());
    }
}

/// An all-zero byte string denotes zero.
proof fn lemma_le_bytes_all_zero(s: Seq<u8>)
    requires
        forall|t: int| 0 <= t < s.len() ==> s[t] == 0,
    ensures
        le_bytes_to_nat(s) == 0,
    decreases s.len(),
{
    if s.len() > 0 {
        lemma_le_bytes_all_zero(s.drop_first());
    }
}

/// The `n`-byte little-endian encoding of an integer (modulo 256^n).
pub open spec fn le_bytes_of(x: nat, n: nat) -> Seq<u8>
    decreases n,
{
    if n == 0 {
        Seq::empty()
    } else {
        seq![(x % 256) as u8].add(le_bytes_of(x / 256, (n - 1) as nat))
    }
}

/// Little-endian encoding and decoding invert one another.
pub proof fn lemma_le_roundtrip(x: nat, n: nat)
    ensures
        le_bytes_of(x, n).len() == n,
        le_bytes_to_nat(le_bytes_of(x, n)) == x % pow256(n),
    decreases n,
{
    if n == 0 {
        lemma_small_mod_one(x);
    } else {
        lemma_le_roundtrip(x / 256, (n - 1) as nat);
        let s = le_bytes_of(x, n);
        assert(s.drop_first() =~= le_bytes_of(x / 256, (n - 1) as nat));
        assert(s[0] == (x % 256) as u8);
        lemma_pow256_pos((n - 1) as nat);
        vstd::arithmetic::div_mod::lemma_mod_breakdown(
            x as int,
            256,
            pow256((n - 1) as nat) as int,
        );
        assert(pow256(n) == 256 * pow256((n - 1) as nat));
    }
}

proof fn lemma_small_mod_one(x: nat)
    ensures
        x % 1 == 0,
{
    vstd::arithmetic::div_mod::lemma_mod_self_0(1);
    vstd::arithmetic::div_mod::lemma_mod_twice(x as int, 1);
    assert(x % 1 < 1) by {
        vstd::arithmetic::div_mod::lemma_mod_bound(x as int, 1);
    };
}

/// Every power of 256 is positive.
pub proof fn lemma_pow256_pos(n: nat)
    ensures
        pow256(n) >= 1,
    decreases n,
{
    if n > 0 {
        lemma_pow256_pos((n - 1) as nat);
    }
}

/// Append the `n`-byte little-endian encoding of `x`, low byte first.
pub fn push_le(out: &mut Vec<u8>, x: u64, n: usize)
    requires
        n <= 8,
    ensures
        final(out)@ == old(out)@ + le_bytes_of(x as nat, n as nat),
        final(out)@.len() == old(out)@.len() + n,
{
    proof {
        lemma_le_roundtrip(x as nat, n as nat);
    }
    let mut v: u64 = x;
    let mut i: usize = 0;
    while i < n
        invariant
            i <= n,
            out@ =~= old(out)@ + le_bytes_of(x as nat, i as nat),
            v == spec_shift_down(x as nat, i as nat),
        decreases n - i,
    {
        proof {
            lemma_le_bytes_of_step(x as nat, i as nat);
            lemma_le_roundtrip(x as nat, (i + 1) as nat);
        }
        out.push((v % 256) as u8);
        v = v / 256;
        i = i + 1;
        proof {
            assert(out@ =~= old(out)@ + le_bytes_of(x as nat, i as nat));
        }
    }
    proof {
        lemma_le_roundtrip(x as nat, n as nat);
    }
}

/// `x` shifted down by `i` bytes.
pub open spec fn spec_shift_down(x: nat, i: nat) -> nat
    decreases i,
{
    if i == 0 {
        x
    } else {
        spec_shift_down(x, (i - 1) as nat) / 256
    }
}

/// The next byte of a little-endian encoding extends the prefix.
proof fn lemma_le_bytes_of_step(x: nat, i: nat)
    ensures
        le_bytes_of(x, (i + 1) as nat) =~= le_bytes_of(x, i).push(
            (spec_shift_down(x, i) % 256) as u8,
        ),
    decreases i,
{
    if i == 0 {
        assert(spec_shift_down(x, 0) == x);
        assert(le_bytes_of(x, 1).drop_first() =~= le_bytes_of(x / 256, 0));
        assert(le_bytes_of(x, 1) =~= le_bytes_of(x, 0).push((x % 256) as u8));
    } else {
        lemma_le_bytes_of_step(x / 256, (i - 1) as nat);
        lemma_shift_down_div(x, (i - 1) as nat);
        assert(le_bytes_of(x, (i + 1) as nat).drop_first() =~= le_bytes_of(x / 256, i));
        assert(le_bytes_of(x, i).drop_first() =~= le_bytes_of(x / 256, (i - 1) as nat));
    }
}

proof fn lemma_shift_down_div(x: nat, i: nat)
    ensures
        spec_shift_down(x / 256, i) == spec_shift_down(x, (i + 1) as nat),
    decreases i,
{
    if i == 0 {
        assert(spec_shift_down(x / 256, 0) == x / 256);
        assert(spec_shift_down(x, 1) == spec_shift_down(x, 0) / 256);
    } else {
        lemma_shift_down_div(x, (i - 1) as nat);
        assert(spec_shift_down(x / 256, i) == spec_shift_down(x / 256, (i - 1) as nat) / 256);
        assert(spec_shift_down(x, (i + 1) as nat) == spec_shift_down(x, i) / 256);
    }
}

/// Read an `n`-byte little-endian integer out of a slice.
pub fn read_le(data: &[u8], offset: usize, n: usize) -> (r: u64)
    requires
        offset + n <= data@.len(),
        n <= 8,
    ensures
        r as nat == le_bytes_to_nat(data@.subrange(offset as int, offset as int + n)),
        n <= 2 ==> r <= 0xffff,
        n <= 4 ==> r <= 0xffffffff,
{
    proof {
        lemma_le_bytes_fit_u64(data@.subrange(offset as int, offset as int + n));
        lemma_le_bytes_bound(data@.subrange(offset as int, offset as int + n));
        reveal_with_fuel(pow256, 9);
        if n <= 2 {
            lemma_pow256_increases_pub(n as nat, 2);
        }
        if n <= 4 {
            lemma_pow256_increases_pub(n as nat, 4);
        }
    }
    let dlen: usize = data.len();
    let mut acc: u64 = 0;
    let mut i: usize = n;
    while i > 0
        invariant
            i <= n,
            offset + n <= dlen,
            dlen == data@.len(),
            n <= 8,
            acc as nat == le_bytes_to_nat(
                data@.subrange(offset as int + i as int, offset as int + n),
            ),
            le_bytes_to_nat(data@.subrange(offset as int, offset as int + n)) <= u64::MAX,
        decreases i,
    {
        i = i - 1;
        proof {
            let whole = data@.subrange(offset as int, offset as int + n);
            let sub = data@.subrange(offset as int + i as int, offset as int + n);
            assert(sub.drop_first() =~= data@.subrange(
                offset as int + i as int + 1,
                offset as int + n,
            ));
            assert(whole.subrange(i as int, whole.len() as int) =~= sub);
            lemma_le_bytes_prefix_bound_pub(whole, i as int);
            assert(sub[0] == data@[offset as int + i as int]);
            assert(sub[0] as nat + 256 * le_bytes_to_nat(sub.drop_first()) == le_bytes_to_nat(
                sub,
            ));
            assert(le_bytes_to_nat(sub) <= u64::MAX);
        }
        acc = acc * 256 + (data[offset + i] as u64);
    }
    proof {
        assert(data@.subrange(offset as int, offset as int + n) =~= data@.subrange(
            offset as int + 0,
            offset as int + n,
        ));
    }
    acc
}

/// Within a byte string, every suffix denotes no more than the whole.
pub proof fn lemma_le_bytes_prefix_bound_pub(s: Seq<u8>, i: int)
    requires
        0 <= i <= s.len(),
    ensures
        le_bytes_to_nat(s.subrange(i, s.len() as int)) <= le_bytes_to_nat(s),
{
    lemma_le_bytes_prefix_bound(s, i);
}

/// Read a little-endian `u32` out of four bytes of a slice.
pub fn read_u32_le(data: &[u8], offset: usize) -> (r: u32)
    requires
        offset + 4 <= data@.len(),
    ensures
        r as nat == le_bytes_to_nat(data@.subrange(offset as int, offset as int + 4)),
{
    let b0 = data[offset] as u32;
    let b1 = data[offset + 1] as u32;
    let b2 = data[offset + 2] as u32;
    let b3 = data[offset + 3] as u32;
    proof {
        reveal_with_fuel(le_bytes_to_nat, 5);
        let s = data@.subrange(offset as int, offset as int + 4);
        let s1 = s.drop_first();
        let s2 = s1.drop_first();
        let s3 = s2.drop_first();
        assert(s.len() == 4 && s1.len() == 3 && s2.len() == 2 && s3.len() == 1);
        assert(s[0] == b0 && s1[0] == b1 && s2[0] == b2 && s3[0] == b3);
        assert(le_bytes_to_nat(s3) == s3[0] as nat + 256 * le_bytes_to_nat(s3.drop_first()));
        assert(le_bytes_to_nat(s3.drop_first()) == 0);
        assert(le_bytes_to_nat(s) == s[0] as nat + 256 * (s1[0] as nat + 256 * (s2[0] as nat + 256
            * (s3[0] as nat))));
    }
    b0 + b1 * 256 + b2 * 65536 + b3 * 16777216
}

} // verus!
