//! The byte forms of numbers and texts on the wire: little-endian numbers and
//! zero-terminated UTF-8.

use vstd::prelude::*;
use vstd::slice::slice_subrange;
use vstd::utf8::{
    char_is_scalar, decode_utf8, encode_scalar, encode_utf8, encode_utf8_decode_utf8,
    encode_utf8_valid_utf8, last_continuation_byte, leading_byte_width_1, leading_byte_width_2,
    leading_byte_width_3, leading_byte_width_4, second_last_continuation_byte,
    third_last_continuation_byte, valid_utf8,
};

verus! {

// ---------------------------------------------------------------------------
// Numbers
// ---------------------------------------------------------------------------

/// The `n` bytes of a number, lowest first.
pub open spec fn le_bytes(x: nat, n: nat) -> Seq<u8>
    decreases n,
{
    if n == 0 {
        Seq::empty()
    } else {
        seq![(x % 256) as u8] + le_bytes(x / 256, (n - 1) as nat)
    }
}

/// The number that bytes write, lowest first.
pub open spec fn le_value(b: Seq<u8>) -> nat
    decreases b.len(),
{
    if b.len() == 0 {
        0
    } else {
        b[0] as nat + 256 * le_value(b.subrange(1, b.len() as int))
    }
}

/// `256` to the power of `n`.
pub open spec fn pow256(n: nat) -> nat
    decreases n,
{
    if n == 0 {
        1
    } else {
        256 * pow256((n - 1) as nat)
    }
}

/// A number that fits in `n` bytes is the number that its bytes write.
pub proof fn lemma_le_bytes(x: nat, n: nat)
    requires
        x < pow256(n),
    ensures
        le_bytes(x, n).len() == n,
        le_value(le_bytes(x, n)) == x,
    decreases n,
{
    if n > 0 {
        assert(x / 256 < pow256((n - 1) as nat)) by (nonlinear_arith)
            requires
                x < 256 * pow256((n - 1) as nat),
        ;
        lemma_le_bytes(x / 256, (n - 1) as nat);
        let b = le_bytes(x, n);
        assert(b.subrange(1, b.len() as int) =~= le_bytes(x / 256, (n - 1) as nat));
    }
}

/// The number of bytes does not depend on the number.
pub proof fn lemma_le_len(x: nat, n: nat)
    ensures
        le_bytes(x, n).len() == n,
    decreases n,
{
    if n > 0 {
        lemma_le_len(x / 256, (n - 1) as nat);
    }
}

/// `n` bytes write a number below `pow256(n)`.
pub proof fn lemma_le_value_bound(b: Seq<u8>)
    ensures
        le_value(b) < pow256(b.len()),
    decreases b.len(),
{
    if b.len() > 0 {
        lemma_le_value_bound(b.subrange(1, b.len() as int));
    }
}

/// The sizes of the numbers on the wire.
pub proof fn lemma_pow256()
    ensures
        pow256(0) == 1,
        pow256(1) == 0x100,
        pow256(2) == 0x1_0000,
        pow256(4) == 0x1_0000_0000,
        pow256(8) == 0x1_0000_0000_0000_0000,
{
    reveal_with_fuel(pow256, 9);
}

/// Appends the lowest `n` bytes of a number.
pub fn push_le(out: &mut Vec<u8>, x: u64, n: usize)
    ensures
        final(out)@ == old(out)@ + le_bytes(x as nat, n as nat),
{
    let mut rest: u64 = x;
    let mut left: usize = n;
    proof {
        assert(out@ + le_bytes(x as nat, n as nat) =~= old(out)@ + le_bytes(x as nat, n as nat));
    }
    while left > 0
        invariant
            out@ + le_bytes(rest as nat, left as nat) == old(out)@ + le_bytes(x as nat, n as nat),
        decreases left,
    {
        let ghost before = out@;
        out.push((rest % 256) as u8);
        proof {
            assert(out@ + le_bytes((rest / 256) as nat, (left - 1) as nat) =~= before + le_bytes(
                rest as nat,
                left as nat,
            ));
        }
        rest = rest / 256;
        left -= 1;
    }
    proof {
        assert(out@ + le_bytes(rest as nat, 0) =~= out@);
    }
}

/// What is left of `b` behind its first `n` bytes.
pub open spec fn behind(b: Seq<u8>, n: int) -> Seq<u8> {
    b.subrange(n, b.len() as int)
}

/// Reads a number of `n` bytes from the front.
pub open spec fn read_le(b: Seq<u8>, n: nat) -> Option<(nat, Seq<u8>)> {
    if b.len() < n {
        None
    } else {
        Some((le_value(b.subrange(0, n as int)), behind(b, n as int)))
    }
}

/// A number reads as itself.
pub proof fn lemma_read_le(x: nat, n: nat, rest: Seq<u8>)
    requires
        x < pow256(n),
    ensures
        read_le(le_bytes(x, n) + rest, n) == Some((x, rest)),
{
    lemma_le_bytes(x, n);
    let b = le_bytes(x, n) + rest;
    assert(b.subrange(0, n as int) =~= le_bytes(x, n));
    assert(behind(b, n as int) =~= rest);
}

/// The value of `n` bytes at `pos`.
fn le_at(b: &[u8], pos: usize, n: usize) -> (r: u64)
    requires
        pos + n <= b.len(),
        n <= 8,
    ensures
        r == le_value(b@.subrange(pos as int, pos + n)),
    decreases n,
{
    if n == 0 {
        return 0;
    }
    let ghost all = b@.subrange(pos as int, pos + n);
    let high = le_at(b, pos + 1, n - 1);
    proof {
        assert(all.subrange(1, all.len() as int) =~= b@.subrange(pos + 1, pos + n));
        lemma_le_value_bound(all);
        lemma_pow_grows(n as nat, 8);
        lemma_pow256();
    }
    b[pos] as u64 + 256 * high
}

/// Powers grow.
proof fn lemma_pow_grows(n: nat, m: nat)
    requires
        n <= m,
    ensures
        pow256(n) <= pow256(m),
        pow256(n) >= 1,
    decreases m,
{
    if m > 0 {
        if n < m {
            lemma_pow_grows(n, (m - 1) as nat);
        } else {
            lemma_pow_grows((n - 1) as nat, (m - 1) as nat);
        }
    }
}

/// Reads a number of `n` bytes at `pos`, and gives the position behind it.
pub fn take_le(b: &[u8], pos: usize, n: usize) -> (r: Option<(u64, usize)>)
    requires
        pos <= b.len(),
        n <= 8,
    ensures
        match r {
            Some(p) => ({
                &&& read_le(behind(b@, pos as int), n as nat) == Some(
                    (p.0 as nat, behind(b@, p.1 as int)),
                )
                &&& p.1 == pos + n
                &&& p.1 <= b.len()
                &&& p.0 < pow256(n as nat)
            }),
            None => read_le(behind(b@, pos as int), n as nat) is None,
        },
{
    if b.len() - pos < n {
        return None;
    }
    let x = le_at(b, pos, n);
    proof {
        let rest = behind(b@, pos as int);
        assert(rest.subrange(0, n as int) =~= b@.subrange(pos as int, pos + n));
        assert(behind(rest, n as int) =~= behind(b@, pos + n));
        lemma_le_value_bound(rest.subrange(0, n as int));
    }
    Some((x, pos + n))
}

// ---------------------------------------------------------------------------
// Texts
// ---------------------------------------------------------------------------

/// A text on the wire: its UTF-8 bytes and a zero byte.
pub open spec fn text_bytes(s: Seq<char>) -> Seq<u8> {
    encode_utf8(s).push(0)
}

/// Whether a text holds no zero character.
pub open spec fn no_zero(s: Seq<char>) -> bool {
    forall|i: int| 0 <= i < s.len() ==> #[trigger] s[i] != '\u{0}'
}

/// The position of the first zero byte, or the length of `b`.
pub open spec fn zero_at(b: Seq<u8>) -> int
    decreases b.len(),
{
    if b.len() == 0 || b[0] == 0 {
        0
    } else {
        1 + zero_at(b.subrange(1, b.len() as int))
    }
}

/// Reads a text from the front: the bytes before the first zero byte, which must
/// be there, as UTF-8.
pub open spec fn read_text(b: Seq<u8>) -> Option<(Seq<char>, Seq<u8>)> {
    let z = zero_at(b);
    if z >= b.len() || !valid_utf8(b.subrange(0, z)) {
        None
    } else {
        Some((decode_utf8(b.subrange(0, z)), behind(b, z + 1)))
    }
}

/// What `zero_at` finds.
proof fn lemma_zero_at(b: Seq<u8>)
    ensures
        0 <= zero_at(b) <= b.len(),
        zero_at(b) < b.len() ==> b[zero_at(b)] == 0,
        forall|k: int| 0 <= k < zero_at(b) ==> #[trigger] b[k] != 0,
    decreases b.len(),
{
    if b.len() > 0 && b[0] != 0 {
        let t = b.subrange(1, b.len() as int);
        lemma_zero_at(t);
        assert forall|k: int| 0 <= k < zero_at(b) implies #[trigger] b[k] != 0 by {
            if k > 0 {
                assert(t[k - 1] == b[k]);
            }
        }
    }
}

/// The first zero byte is where it is.
proof fn lemma_zero_at_is(b: Seq<u8>, z: int)
    requires
        0 <= z < b.len(),
        b[z] == 0,
        forall|k: int| 0 <= k < z ==> #[trigger] b[k] != 0,
    ensures
        zero_at(b) == z,
{
    lemma_zero_at(b);
    if zero_at(b) < z {
        assert(b[zero_at(b)] != 0);
    }
}

/// The bytes of a character other than zero are not zero.
proof fn lemma_scalar_bytes(c: char)
    requires
        c != '\u{0}',
    ensures
        forall|i: int|
            0 <= i < encode_scalar(c as u32).len() ==> #[trigger] encode_scalar(c as u32)[i] != 0,
{
    let s = c as u32;
    char_is_scalar(c);
    assert(s != 0);
    let b1 = leading_byte_width_1(s);
    let b2 = leading_byte_width_2(s);
    let b3 = leading_byte_width_3(s);
    let b4 = leading_byte_width_4(s);
    let c1 = last_continuation_byte(s);
    let c2 = second_last_continuation_byte(s);
    let c3 = third_last_continuation_byte(s);
    assert(s <= 0x7f && s != 0 ==> (s & 0x7F) as u8 != 0) by (bit_vector);
    assert(0xC0 | ((s >> 6) & 0x1F) as u8 != 0) by (bit_vector);
    assert(0xE0 | ((s >> 12) & 0x0F) as u8 != 0) by (bit_vector);
    assert(0xF0 | ((s >> 18) & 0x7) as u8 != 0) by (bit_vector);
    assert(0x80 | (s & 0x3F) as u8 != 0) by (bit_vector);
    assert(0x80 | ((s >> 6) & 0x3F) as u8 != 0) by (bit_vector);
    assert(0x80 | ((s >> 12) & 0x3F) as u8 != 0) by (bit_vector);
}

/// The bytes of a text without zero characters are not zero.
proof fn lemma_text_bytes(s: Seq<char>)
    requires
        no_zero(s),
    ensures
        forall|i: int| 0 <= i < encode_utf8(s).len() ==> #[trigger] encode_utf8(s)[i] != 0,
    decreases s.len(),
{
    if s.len() > 0 {
        let t = s.drop_first();
        assert forall|i: int| 0 <= i < t.len() implies #[trigger] t[i] != '\u{0}' by {
            assert(t[i] == s[i + 1]);
        }
        lemma_text_bytes(t);
        assert(s[0] != '\u{0}');
        lemma_scalar_bytes(s[0]);
        let head = encode_scalar(s[0] as u32);
        assert forall|i: int| 0 <= i < encode_utf8(s).len() implies #[trigger] encode_utf8(s)[i]
            != 0 by {
            if i >= head.len() {
                assert(encode_utf8(s)[i] == encode_utf8(t)[i - head.len()]);
            }
        }
    }
}

/// A text without zero characters reads as itself.
pub proof fn lemma_read_text(s: Seq<char>, rest: Seq<u8>)
    requires
        no_zero(s),
    ensures
        read_text(text_bytes(s) + rest) == Some((s, rest)),
{
    let b = text_bytes(s) + rest;
    let u = encode_utf8(s);
    let z = u.len() as int;
    lemma_text_bytes(s);
    assert forall|k: int| 0 <= k < z implies #[trigger] b[k] != 0 by {
        assert(b[k] == u[k]);
    }
    lemma_zero_at_is(b, z);
    assert(b.subrange(0, z) =~= u);
    assert(behind(b, z + 1) =~= rest);
    encode_utf8_valid_utf8(s);
    encode_utf8_decode_utf8(s);
}

/// `String::from_utf8` makes a string of bytes that are valid UTF-8, and fails
/// on any others.
#[verifier::external_body]
pub(crate) fn utf8_string(bytes: Vec<u8>) -> (r: Option<String>)
    ensures
        match r {
            Some(s) => valid_utf8(bytes@) && s@ == decode_utf8(bytes@),
            None => !valid_utf8(bytes@),
        },
{
    String::from_utf8(bytes).ok()
}

/// Appends a text.
pub fn push_text(out: &mut Vec<u8>, s: &str)
    ensures
        final(out)@ == old(out)@ + text_bytes(s@),
{
    let bytes = s.as_bytes();
    let mut i: usize = 0;
    while i < bytes.len()
        invariant
            i <= bytes.len(),
            out@ == old(out)@ + bytes@.subrange(0, i as int),
        decreases bytes.len() - i,
    {
        out.push(bytes[i]);
        proof {
            assert(bytes@.subrange(0, i + 1) =~= bytes@.subrange(0, i as int).push(
                bytes@[i as int],
            ));
        }
        i += 1;
    }
    proof {
        assert(bytes@.subrange(0, i as int) =~= bytes@);
    }
    out.push(0);
    proof {
        assert(out@ =~= old(out)@ + text_bytes(s@));
    }
}

/// Reads a text at `pos`, and gives the position behind it.
pub fn take_text(b: &[u8], pos: usize) -> (r: Option<(String, usize)>)
    requires
        pos <= b.len(),
    ensures
        match r {
            Some(p) => ({
                &&& read_text(behind(b@, pos as int)) == Some((p.0@, behind(b@, p.1 as int)))
                &&& pos <= p.1 <= b.len()
            }),
            None => read_text(behind(b@, pos as int)) is None,
        },
{
    let ghost rest = behind(b@, pos as int);
    let mut z: usize = pos;
    while z < b.len() && b[z] != 0
        invariant
            pos <= z <= b.len(),
            rest == behind(b@, pos as int),
            forall|k: int| 0 <= k < z - pos ==> #[trigger] rest[k] != 0,
        decreases b.len() - z,
    {
        z += 1;
    }
    proof {
        if z < b.len() {
            assert(rest[z - pos] == 0);
            lemma_zero_at_is(rest, z - pos);
        } else {
            lemma_zero_at(rest);
            if zero_at(rest) < rest.len() {
                assert(rest[zero_at(rest)] != 0);
            }
        }
    }
    if z == b.len() {
        return None;
    }
    proof {
        assert(rest.subrange(0, z - pos) =~= b@.subrange(pos as int, z as int));
        assert(behind(rest, z - pos + 1) =~= behind(b@, z + 1));
    }
    match utf8_string(vstd::slice::slice_to_vec(slice_subrange(b, pos, z))) {
        Some(s) => Some((s, z + 1)),
        None => None,
    }
}

} // verus!
