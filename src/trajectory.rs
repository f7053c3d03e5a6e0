//! Trajectory memory layouts: uncompressed 4D polynomial pieces and
//! compressed segments. Coordinates arrive already in fixed point
//! (millimetres, tenths of a degree) or as float bit patterns.
use vstd::prelude::*;
use crate::error::Error;
use crate::memory_views::ElementType;
use crate::positioning::words_bytes;
use crate::value::{Value, encode};

verus! {

/// Number of words of an uncompressed piece: eight coefficients for each of
/// x, y, z and yaw, then the duration.
pub const POLY4D_WORDS: usize = 33;

/// The little-endian bytes of the numbers, one after the other.
pub open spec fn i16s_bytes(s: Seq<i16>) -> Seq<u8>
    decreases s.len(),
{
    if s.len() == 0 {
        Seq::empty()
    } else {
        i16s_bytes(s.drop_last()) + encode(Value::I16(s.last()))
    }
}

fn push_i16s(out: &mut Vec<u8>, s: &[i16])
    ensures
        final(out)@ == old(out)@ + i16s_bytes(s@),
{
    let mut i: usize = 0;
    let ghost start = out@;
    assert(s@.subrange(0, 0) =~= Seq::<i16>::empty());
    while i < s.len()
        invariant
            i <= s@.len(),
            out@ == start + i16s_bytes(s@.subrange(0, i as int)),
        decreases s@.len() - i,
    {
        let b = Value::I16(s[i]).to_le_bytes();
        let ghost before = out@;
        out.push(b[0]);
        out.push(b[1]);
        proof {
            assert(b@ =~= seq![b@[0], b@[1]]);
            let sub = s@.subrange(0, i + 1);
            assert(sub.drop_last() =~= s@.subrange(0, i as int));
            assert(out@ =~= start + i16s_bytes(sub));
        }
        i = i + 1;
    }
    assert(s@.subrange(0, s@.len() as int) =~= s@);
}

/// The two-bit code of an element of `n` numbers (0, 1, 3 or 7).
pub open spec fn element_code(n: nat) -> nat {
    if n == 0 {
        0
    } else if n == 1 {
        1
    } else if n == 3 {
        2
    } else {
        3
    }
}

/// An element may hold 0, 1, 3 or 7 numbers.
pub open spec fn element_len_ok(n: nat) -> bool {
    n == 0 || n == 1 || n == 3 || n == 7
}

fn element_code_of(s: &[i16]) -> (r: Result<u8, Error>)
    ensures
        element_len_ok(s@.len()) ==> r == Ok::<u8, Error>(element_code(s@.len()) as u8),
        !element_len_ok(s@.len()) ==> r == Err::<u8, Error>(Error::InvalidArgument),
{
    match ElementType::from_len(s.len()) {
        Some(t) => Ok(t.code()),
        None => Err(Error::InvalidArgument),
    }
}

/// The bytes of a compressed segment: the element-type byte (two bits per
/// axis, x lowest), the duration in milliseconds, then the numbers of x, y,
/// z (millimetres) and yaw (tenths of a degree). `InvalidArgument` where an
/// element does not hold 0, 1, 3 or 7 numbers.
pub fn pack_compressed_segment(duration_ms: u16, x: &[i16], y: &[i16], z: &[i16], yaw: &[i16]) -> (r:
    Result<Vec<u8>, Error>)
    ensures
        (element_len_ok(x@.len()) && element_len_ok(y@.len()) && element_len_ok(z@.len())
            && element_len_ok(yaw@.len())) ==> (r matches Ok(b) && b@ == seq![
            (element_code(x@.len()) + 4 * element_code(y@.len()) + 16 * element_code(z@.len()) + 64
                * element_code(yaw@.len())) as u8,
            (duration_ms % 256) as u8,
            (duration_ms / 256) as u8,
        ] + i16s_bytes(x@) + i16s_bytes(y@) + i16s_bytes(z@) + i16s_bytes(yaw@)),
        !(element_len_ok(x@.len()) && element_len_ok(y@.len()) && element_len_ok(z@.len())
            && element_len_ok(yaw@.len())) ==> r == Err::<Vec<u8>, Error>(Error::InvalidArgument),
{
    let tx = match element_code_of(x) {
        Ok(t) => t,
        Err(e) => {
            return Err(e);
        },
    };
    let ty = match element_code_of(y) {
        Ok(t) => t,
        Err(e) => {
            return Err(e);
        },
    };
    let tz = match element_code_of(z) {
        Ok(t) => t,
        Err(e) => {
            return Err(e);
        },
    };
    let tw = match element_code_of(yaw) {
        Ok(t) => t,
        Err(e) => {
            return Err(e);
        },
    };
    let types: u8 = tx + 4 * ty + 16 * tz + 64 * tw;
    let mut data: Vec<u8> = vec![types, (duration_ms % 256) as u8, (duration_ms / 256) as u8];
    push_i16s(&mut data, x);
    push_i16s(&mut data, y);
    push_i16s(&mut data, z);
    push_i16s(&mut data, yaw);
    Ok(data)
}

/// The bytes of the start of a compressed trajectory: x, y, z in
/// millimetres and yaw in tenths of a degree.
pub fn pack_compressed_start(x: i16, y: i16, z: i16, yaw: i16) -> (r: Vec<u8>)
    ensures
        r@ == i16s_bytes(seq![x, y, z, yaw]),
{
    let mut data: Vec<u8> = Vec::new();
    let v = [x, y, z, yaw];
    push_i16s(&mut data, &v);
    assert(v@ =~= seq![x, y, z, yaw]);
    assert(Seq::<u8>::empty() + i16s_bytes(v@) =~= i16s_bytes(v@));
    data
}

/// The bytes of an uncompressed piece: 33 words (coefficients, then the
/// duration). `InvalidArgument` for any other number of words.
pub fn pack_poly4d(words: &[u32]) -> (r: Result<Vec<u8>, Error>)
    ensures
        words@.len() == 33 ==> (r matches Ok(b) && b@ == words_bytes(words@)),
        words@.len() != 33 ==> r == Err::<Vec<u8>, Error>(Error::InvalidArgument),
{
    if words.len() != POLY4D_WORDS {
        return Err(Error::InvalidArgument);
    }
    Ok(crate::positioning::words_to_bytes(words))
}

} // verus!
