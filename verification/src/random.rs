//! Randomness: tokens, tunnel names and session ids.

use crate::text::{hex_byte, hex_encode, is_lower_hex, lemma_hex_encode_shape, push_hex};
use vstd::prelude::*;

verus! {

/// `getrandom::getrandom`: fills the buffer from the system's random source
/// and reports success. The bytes are random (nothing is stated about
/// them); on failure they are unspecified. The length never changes. An
/// empty buffer always succeeds: the source returns `Ok` without asking the
/// system when there is nothing to fill. Whether a non-empty fill succeeds
/// depends on the system and is left unsaid.
#[verifier::external_body]
fn fill_random(buf: &mut Vec<u8>) -> (ok: bool)
    ensures
        final(buf)@.len() == old(buf)@.len(),
        old(buf)@.len() == 0 ==> ok,
{
    getrandom::getrandom(buf.as_mut_slice()).is_ok()
}

/// What comes of a fill of the random source: `None` when it failed,
/// otherwise the bytes it produced in lower-case hex (two digits per byte).
pub fn hex_of_fill(filled: bool, bytes: &[u8]) -> (r: Option<String>)
    ensures
        !filled ==> r is None,
        filled ==> (r matches Some(s) && s@ == hex_encode(bytes@)),
{
    if !filled {
        return None;
    }
    let mut s = String::new();
    push_hex(&mut s, bytes);
    assert(s@ == hex_encode(bytes@));
    Some(s)
}

/// `len` random bytes in lower-case hex (two digits per byte), or `None`
/// when the system's random source fails. Zero bytes always give the empty
/// string.
pub fn random_hex(len: usize) -> (r: Option<String>)
    ensures
        r matches Some(s) ==> exists|b: Seq<u8>| b.len() == len && s@ == #[trigger] hex_encode(b),
        len == 0 ==> (r matches Some(s) && s@ == Seq::<char>::empty()),
{
    let mut buf: Vec<u8> = Vec::new();
    let mut i: usize = 0;
    while i < len
        invariant
            i <= len,
            buf@.len() == i,
        decreases len - i,
    {
        buf.push(0);
        i = i + 1;
    }
    let filled = fill_random(&mut buf);
    proof {
        if len == 0 {
            assert(buf@.len() == 0);
            assert(hex_encode(buf@) == Seq::<char>::empty());
        }
    }
    hex_of_fill(filled, buf.as_slice())
}

/// The bytes of a version-4 UUID made from 16 random bytes: the high four
/// bits of byte 6 become the version 4, the high two bits of byte 8 become
/// the variant `10`; the other bits are kept.
pub open spec fn uuid_v4_bytes(b: Seq<u8>) -> Seq<u8> {
    b.update(6, (b[6] % 16 + 0x40) as u8).update(8, (b[8] % 64 + 0x80) as u8)
}

/// The hyphenated lower-case text of a UUID's 16 bytes: groups of 8, 4, 4,
/// 4 and 12 hexadecimal digits joined by `-`.
pub open spec fn uuid_hyphenated(u: Seq<u8>) -> Seq<char> {
    hex_encode(u.subrange(0, 4)) + "-"@ + hex_encode(u.subrange(4, 6)) + "-"@ + hex_encode(
        u.subrange(6, 8),
    ) + "-"@ + hex_encode(u.subrange(8, 10)) + "-"@ + hex_encode(u.subrange(10, 16))
}

/// The text of the version-4 UUID made from 16 random bytes.
pub open spec fn uuid_v4_text(b: Seq<u8>) -> Seq<char> {
    uuid_hyphenated(uuid_v4_bytes(b))
}

/// `uuid::Builder::from_random_bytes(bytes).into_uuid().to_string()`: the
/// builder sets the version (4) and variant (RFC 4122) bits of the given
/// bytes and nothing else, and `Display` writes the UUID hyphenated in
/// lower-case hex. A function of the bytes alone; it cannot fail.
#[verifier::external_body]
fn uuid_from_random_bytes(bytes: [u8; 16]) -> (s: String)
    ensures
        s@ == uuid_v4_text(bytes@),
{
    uuid::Builder::from_random_bytes(bytes).into_uuid().to_string()
}

/// What comes of a fill of 16 random bytes: `None` when it failed, otherwise
/// the text of the version-4 UUID made from them.
pub fn uuid_of_fill(filled: bool, bytes: &[u8]) -> (r: Option<String>)
    requires
        bytes@.len() == 16,
    ensures
        !filled ==> r is None,
        filled ==> (r matches Some(s) && s@ == uuid_v4_text(bytes@)),
{
    if !filled {
        return None;
    }
    let arr: [u8; 16] = [
        bytes[0],
        bytes[1],
        bytes[2],
        bytes[3],
        bytes[4],
        bytes[5],
        bytes[6],
        bytes[7],
        bytes[8],
        bytes[9],
        bytes[10],
        bytes[11],
        bytes[12],
        bytes[13],
        bytes[14],
        bytes[15],
    ];
    assert(arr@ =~= bytes@);
    Some(uuid_from_random_bytes(arr))
}

/// A random version-4 UUID in its hyphenated text form, drawn from the
/// system's random source; `None` when that source fails.
pub fn random_uuid() -> (r: Option<String>)
    ensures
        r matches Some(s) ==> exists|b: Seq<u8>| b.len() == 16 && s@ == #[trigger] uuid_v4_text(b),
{
    let mut buf: Vec<u8> = Vec::new();
    let mut i: usize = 0;
    while i < 16
        invariant
            i <= 16,
            buf@.len() == i,
        decreases 16 - i,
    {
        buf.push(0);
        i = i + 1;
    }
    let filled = fill_random(&mut buf);
    uuid_of_fill(filled, buf.as_slice())
}

/// A UUID's text is 36 characters: lower-case hex digits with `-` at
/// positions 8, 13, 18 and 23, and the version digit `4` at position 14.
pub proof fn lemma_uuid_text_shape(b: Seq<u8>)
    requires
        b.len() == 16,
    ensures
        uuid_v4_text(b).len() == 36,
        uuid_v4_text(b)[8] == '-' && uuid_v4_text(b)[13] == '-' && uuid_v4_text(b)[18] == '-'
            && uuid_v4_text(b)[23] == '-',
        uuid_v4_text(b)[14] == '4',
        forall|i: int|
            0 <= i < 36 && i != 8 && i != 13 && i != 18 && i != 23 ==> is_lower_hex(
                #[trigger] uuid_v4_text(b)[i],
            ),
{
    reveal_strlit("-");
    let u = uuid_v4_bytes(b);
    let p0 = u.subrange(0, 4);
    let p1 = u.subrange(4, 6);
    let p2 = u.subrange(6, 8);
    let p3 = u.subrange(8, 10);
    let p4 = u.subrange(10, 16);
    lemma_hex_encode_shape(p0);
    lemma_hex_encode_shape(p1);
    lemma_hex_encode_shape(p2);
    lemma_hex_encode_shape(p3);
    lemma_hex_encode_shape(p4);
    let h0 = hex_encode(p0);
    let h1 = hex_encode(p1);
    let h2 = hex_encode(p2);
    let h3 = hex_encode(p3);
    let h4 = hex_encode(p4);
    let t = uuid_v4_text(b);
    assert(t == h0 + "-"@ + h1 + "-"@ + h2 + "-"@ + h3 + "-"@ + h4);
    // The version digit: the first hex digit of byte 6.
    assert(p2.drop_last() =~= seq![u[6]]);
    assert(seq![u[6]].drop_last() =~= Seq::<u8>::empty());
    assert(hex_encode(seq![u[6]]) == hex_byte(u[6]));
    assert(h2 == hex_byte(u[6]) + hex_byte(u[7]));
    assert(u[6] as int / 16 == 4);
    assert(t[14] == h2[0]);
    assert forall|i: int|
        0 <= i < 36 && i != 8 && i != 13 && i != 18 && i != 23 implies is_lower_hex(
        #[trigger] t[i],
    ) by {
        if i < 8 {
            assert(t[i] == h0[i]);
        } else if i < 13 {
            assert(t[i] == h1[i - 9]);
        } else if i < 18 {
            assert(t[i] == h2[i - 14]);
        } else if i < 23 {
            assert(t[i] == h3[i - 19]);
        } else {
            assert(t[i] == h4[i - 24]);
        }
    }
}

} // verus!
