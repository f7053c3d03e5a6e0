//! Typed values exchanged with the device, and their little-endian codec.
//!
//! Floating-point values are carried as their IEEE-754 bit patterns: the
//! protocol only moves their bytes, and the library never computes with them.
use vstd::prelude::*;
use crate::error::Error;

verus! {

/// The type of a [`Value`].
#[derive(Clone, Copy, Debug, PartialEq, Eq, Structural)]
pub enum ValueType {
    U8,
    U16,
    U32,
    U64,
    I8,
    I16,
    I32,
    I64,
    F16,
    F32,
    F64,
}

/// A typed value. `F16`, `F32` and `F64` hold the bit pattern of the float.
#[derive(Clone, Copy, Debug, PartialEq, Eq, Structural)]
pub enum Value {
    U8(u8),
    U16(u16),
    U32(u32),
    U64(u64),
    I8(i8),
    I16(i16),
    I32(i32),
    I64(i64),
    F16(u16),
    F32(u32),
    F64(u64),
}

/// Number of bytes of a value of type `t` on the wire.
pub open spec fn byte_len(t: ValueType) -> nat {
    match t {
        ValueType::U8 | ValueType::I8 => 1,
        ValueType::U16 | ValueType::I16 | ValueType::F16 => 2,
        ValueType::U32 | ValueType::I32 | ValueType::F32 => 4,
        ValueType::U64 | ValueType::I64 | ValueType::F64 => 8,
    }
}

/// The type of a value.
pub open spec fn type_of(v: Value) -> ValueType {
    match v {
        Value::U8(_) => ValueType::U8,
        Value::U16(_) => ValueType::U16,
        Value::U32(_) => ValueType::U32,
        Value::U64(_) => ValueType::U64,
        Value::I8(_) => ValueType::I8,
        Value::I16(_) => ValueType::I16,
        Value::I32(_) => ValueType::I32,
        Value::I64(_) => ValueType::I64,
        Value::F16(_) => ValueType::F16,
        Value::F32(_) => ValueType::F32,
        Value::F64(_) => ValueType::F64,
    }
}

/// `256` to the power `n`.
pub open spec fn pow256(n: nat) -> nat
    decreases n,
{
    if n == 0 {
        1
    } else {
        256 * pow256((n - 1) as nat)
    }
}

/// The number whose little-endian bytes are `s`.
pub open spec fn le_nat(s: Seq<u8>) -> nat
    decreases s.len(),
{
    if s.len() == 0 {
        0
    } else {
        s[0] as nat + 256 * le_nat(s.drop_first())
    }
}

/// The `len` low bytes of `n`, least significant first.
pub open spec fn le_seq(n: nat, len: nat) -> Seq<u8>
    decreases len,
{
    if len == 0 {
        Seq::empty()
    } else {
        seq![(n % 256) as u8] + le_seq(n / 256, (len - 1) as nat)
    }
}

/// The unsigned bit pattern of a value, as a number.
pub open spec fn raw_of(v: Value) -> nat {
    match v {
        Value::U8(x) => x as nat,
        Value::U16(x) => x as nat,
        Value::U32(x) => x as nat,
        Value::U64(x) => x as nat,
        Value::I8(x) => if x >= 0 { x as nat } else { (x + 0x100) as nat },
        Value::I16(x) => if x >= 0 { x as nat } else { (x + 0x1_0000) as nat },
        Value::I32(x) => if x >= 0 { x as nat } else { (x + 0x1_0000_0000) as nat },
        Value::I64(x) => if x >= 0 { x as nat } else { (x + 0x1_0000_0000_0000_0000) as nat },
        Value::F16(x) => x as nat,
        Value::F32(x) => x as nat,
        Value::F64(x) => x as nat,
    }
}

/// The value of type `t` whose unsigned bit pattern is `n` (two's complement
/// for the signed types).
pub open spec fn value_of_raw(t: ValueType, n: nat) -> Value {
    match t {
        ValueType::U8 => Value::U8(n as u8),
        ValueType::U16 => Value::U16(n as u16),
        ValueType::U32 => Value::U32(n as u32),
        ValueType::U64 => Value::U64(n as u64),
        ValueType::I8 => Value::I8((if n >= 0x80 { n - 0x100 } else { n as int }) as i8),
        ValueType::I16 => Value::I16((if n >= 0x8000 { n - 0x1_0000 } else { n as int }) as i16),
        ValueType::I32 => Value::I32(
            (if n >= 0x8000_0000 { n - 0x1_0000_0000 } else { n as int }) as i32,
        ),
        ValueType::I64 => Value::I64(
            (if n >= 0x8000_0000_0000_0000 {
                n - 0x1_0000_0000_0000_0000
            } else {
                n as int
            }) as i64,
        ),
        ValueType::F16 => Value::F16(n as u16),
        ValueType::F32 => Value::F32(n as u32),
        ValueType::F64 => Value::F64(n as u64),
    }
}

/// Little-endian bytes of a value.
pub open spec fn encode(v: Value) -> Seq<u8> {
    le_seq(raw_of(v), byte_len(type_of(v)))
}

/// The value of type `t` read from the little-endian bytes `b`.
pub open spec fn decode(b: Seq<u8>, t: ValueType) -> Value {
    value_of_raw(t, le_nat(b))
}

proof fn lemma_pow256_values()
    ensures
        pow256(1) == 0x100,
        pow256(2) == 0x1_0000,
        pow256(4) == 0x1_0000_0000,
        pow256(8) == 0x1_0000_0000_0000_0000,
{
    reveal_with_fuel(pow256, 9);
}

proof fn lemma_pow256_mono(a: nat, b: nat)
    requires
        a <= b,
    ensures
        pow256(a) <= pow256(b),
    decreases b,
{
    if a < b {
        lemma_pow256_mono(a, (b - 1) as nat);
    }
}

proof fn lemma_le_nat_bound(s: Seq<u8>)
    ensures
        le_nat(s) < pow256(s.len()),
    decreases s.len(),
{
    if s.len() > 0 {
        lemma_le_nat_bound(s.drop_first());
    }
}

proof fn lemma_le_seq_len(n: nat, len: nat)
    ensures
        le_seq(n, len).len() == len,
    decreases len,
{
    if len > 0 {
        lemma_le_seq_len(n / 256, (len - 1) as nat);
    }
}

proof fn lemma_le_seq_of_le_nat(s: Seq<u8>)
    ensures
        le_seq(le_nat(s), s.len()) == s,
    decreases s.len(),
{
    if s.len() > 0 {
        let rest = s.drop_first();
        lemma_le_seq_of_le_nat(rest);
        let n = le_nat(s);
        assert(n % 256 == s[0] as nat && n / 256 == le_nat(rest)) by (nonlinear_arith)
            requires
                n == s[0] as nat + 256 * le_nat(rest),
                s[0] < 256,
        ;
        assert(le_seq(n, s.len()) =~= s);
    }
}

proof fn lemma_le_nat_of_le_seq(n: nat, len: nat)
    requires
        n < pow256(len),
    ensures
        le_nat(le_seq(n, len)) == n,
    decreases len,
{
    if len > 0 {
        let s = le_seq(n, len);
        lemma_le_seq_len(n, len);
        assert(n / 256 < pow256((len - 1) as nat)) by (nonlinear_arith)
            requires
                n < 256 * pow256((len - 1) as nat),
        ;
        lemma_le_nat_of_le_seq(n / 256, (len - 1) as nat);
        assert(s.drop_first() =~= le_seq(n / 256, (len - 1) as nat));
        assert(n == n % 256 + 256 * (n / 256)) by (nonlinear_arith);
    }
}

proof fn lemma_raw_bound(v: Value)
    ensures
        raw_of(v) < pow256(byte_len(type_of(v))),
{
    lemma_pow256_values();
}

proof fn lemma_raw_of_value_of_raw(t: ValueType, n: nat)
    requires
        n < pow256(byte_len(t)),
    ensures
        type_of(value_of_raw(t, n)) == t,
        raw_of(value_of_raw(t, n)) == n,
{
    lemma_pow256_values();
}

proof fn lemma_value_of_raw_of(v: Value)
    ensures
        value_of_raw(type_of(v), raw_of(v)) == v,
{
}

/// Decoding bytes of the right width as a value of type `t` and encoding that
/// value again gives back the same bytes.
pub proof fn lemma_codec_round_trip(t: ValueType, b: Seq<u8>)
    requires
        b.len() == byte_len(t),
    ensures
        encode(decode(b, t)) == b,
        type_of(decode(b, t)) == t,
{
    lemma_le_nat_bound(b);
    lemma_raw_of_value_of_raw(t, le_nat(b));
    lemma_le_seq_of_le_nat(b);
}

/// Encoding a value and decoding the bytes as a value of its type gives back
/// the same value.
pub proof fn lemma_codec_round_trip_value(v: Value)
    ensures
        encode(v).len() == byte_len(type_of(v)),
        decode(encode(v), type_of(v)) == v,
{
    lemma_raw_bound(v);
    lemma_le_seq_len(raw_of(v), byte_len(type_of(v)));
    lemma_le_nat_of_le_seq(raw_of(v), byte_len(type_of(v)));
    lemma_value_of_raw_of(v);
}

impl ValueType {
    /// Number of bytes of a value of this type on the wire.
    pub fn byte_length(&self) -> (r: usize)
        ensures
            r as nat == byte_len(*self),
    {
        match self {
            ValueType::U8 => 1,
            ValueType::U16 => 2,
            ValueType::U32 => 4,
            ValueType::U64 => 8,
            ValueType::I8 => 1,
            ValueType::I16 => 2,
            ValueType::I32 => 4,
            ValueType::I64 => 8,
            ValueType::F16 => 2,
            ValueType::F32 => 4,
            ValueType::F64 => 8,
        }
    }
}

/// Reads at most eight little-endian bytes as a number.
fn le_read(bytes: &[u8]) -> (r: u64)
    requires
        bytes@.len() <= 8,
    ensures
        r as nat == le_nat(bytes@),
{
    let len = bytes.len();
    let mut acc: u64 = 0;
    let mut i: usize = len;
    proof {
        lemma_pow256_values();
        assert(bytes@.subrange(len as int, len as int) =~= Seq::<u8>::empty());
    }
    while i > 0
        invariant
            len == bytes@.len(),
            len <= 8,
            i <= len,
            acc as nat == le_nat(bytes@.subrange(i as int, len as int)),
            (acc as nat) < pow256((len - i) as nat),
            pow256(8) == 0x1_0000_0000_0000_0000,
        decreases i,
    {
        i = i - 1;
        let ghost tail = bytes@.subrange(i as int, len as int);
        proof {
            assert(tail.drop_first() =~= bytes@.subrange(i + 1, len as int));
            lemma_pow256_mono((len - i) as nat, 8);
            assert(acc * 256 + bytes[i as int] < 256 * pow256((len - i - 1) as nat))
                by (nonlinear_arith)
                requires
                    acc < pow256((len - i - 1) as nat),
                    bytes[i as int] < 256,
            ;
        }
        acc = acc * 256 + bytes[i] as u64;
    }
    proof {
        assert(bytes@.subrange(0, len as int) =~= bytes@);
    }
    acc
}

/// Appends the `len` low bytes of `n` to `out`, least significant first.
fn le_write(out: &mut Vec<u8>, n: u64, len: usize)
    requires
        len <= 8,
    ensures
        final(out)@ == old(out)@ + le_seq(n as nat, len as nat),
{
    let mut v: u64 = n;
    let mut i: usize = 0;
    let ghost start = out@;
    while i < len
        invariant
            i <= len,
            out@ + le_seq(v as nat, (len - i) as nat) == start + le_seq(n as nat, len as nat),
        decreases len - i,
    {
        let ghost k = (len - i) as nat;
        let ghost before = out@;
        assert(le_seq(v as nat, k) == seq![(v as nat % 256) as u8] + le_seq(
            v as nat / 256,
            (k - 1) as nat,
        ));
        out.push((v % 256) as u8);
        proof {
            assert(out@ + le_seq(v as nat / 256, (k - 1) as nat) =~= before + le_seq(
                v as nat,
                k,
            ));
        }
        v = v / 256;
        i = i + 1;
    }
    assert(le_seq(v as nat, 0) =~= Seq::<u8>::empty());
    assert(out@ =~= out@ + le_seq(v as nat, 0));
}

impl Value {
    /// The type of this value.
    pub fn value_type(&self) -> (r: ValueType)
        ensures
            r == type_of(*self),
    {
        match self {
            Value::U8(_) => ValueType::U8,
            Value::U16(_) => ValueType::U16,
            Value::U32(_) => ValueType::U32,
            Value::U64(_) => ValueType::U64,
            Value::I8(_) => ValueType::I8,
            Value::I16(_) => ValueType::I16,
            Value::I32(_) => ValueType::I32,
            Value::I64(_) => ValueType::I64,
            Value::F16(_) => ValueType::F16,
            Value::F32(_) => ValueType::F32,
            Value::F64(_) => ValueType::F64,
        }
    }

    /// Reads a value of type `value_type` from its little-endian bytes. The
    /// slice must be exactly as long as the type.
    pub fn from_le_bytes(bytes: &[u8], value_type: ValueType) -> (r: Result<Value, Error>)
        ensures
            bytes@.len() == byte_len(value_type) ==> r == Ok::<Value, Error>(
                decode(bytes@, value_type),
            ),
            bytes@.len() != byte_len(value_type) ==> r == Err::<Value, Error>(
                Error::ConversionError,
            ),
    {
        if bytes.len() != value_type.byte_length() {
            return Err(Error::ConversionError);
        }
        let raw = le_read(bytes);
        proof {
            lemma_le_nat_bound(bytes@);
            lemma_pow256_values();
        }
        let v = match value_type {
            ValueType::U8 => Value::U8(raw as u8),
            ValueType::U16 => Value::U16(raw as u16),
            ValueType::U32 => Value::U32(raw as u32),
            ValueType::U64 => Value::U64(raw),
            ValueType::I8 => {
                if raw >= 0x80 {
                    Value::I8((raw as i16 - 0x100) as i8)
                } else {
                    Value::I8(raw as i8)
                }
            },
            ValueType::I16 => {
                if raw >= 0x8000 {
                    Value::I16((raw as i32 - 0x1_0000) as i16)
                } else {
                    Value::I16(raw as i16)
                }
            },
            ValueType::I32 => {
                if raw >= 0x8000_0000 {
                    Value::I32((raw as i64 - 0x1_0000_0000) as i32)
                } else {
                    Value::I32(raw as i32)
                }
            },
            ValueType::I64 => {
                if raw >= 0x8000_0000_0000_0000 {
                    Value::I64((raw as i128 - 0x1_0000_0000_0000_0000) as i64)
                } else {
                    Value::I64(raw as i64)
                }
            },
            ValueType::F16 => Value::F16(raw as u16),
            ValueType::F32 => Value::F32(raw as u32),
            ValueType::F64 => Value::F64(raw),
        };
        Ok(v)
    }

    /// The little-endian bytes of this value.
    pub fn to_le_bytes(&self) -> (r: Vec<u8>)
        ensures
            r@ == encode(*self),
            r@.len() == byte_len(type_of(*self)),
    {
        let (raw, len): (u64, usize) = match *self {
            Value::U8(x) => (x as u64, 1),
            Value::U16(x) => (x as u64, 2),
            Value::U32(x) => (x as u64, 4),
            Value::U64(x) => (x, 8),
            Value::I8(x) => if x >= 0 { (x as u64, 1) } else { ((x as i16 + 0x100) as u64, 1) },
            Value::I16(x) => if x >= 0 { (x as u64, 2) } else { ((x as i32 + 0x1_0000) as u64, 2) },
            Value::I32(x) => if x >= 0 {
                (x as u64, 4)
            } else {
                ((x as i64 + 0x1_0000_0000) as u64, 4)
            },
            Value::I64(x) => if x >= 0 {
                (x as u64, 8)
            } else {
                ((x as i128 + 0x1_0000_0000_0000_0000) as u64, 8)
            },
            Value::F16(x) => (x as u64, 2),
            Value::F32(x) => (x as u64, 4),
            Value::F64(x) => (x, 8),
        };
        let mut out: Vec<u8> = Vec::new();
        le_write(&mut out, raw, len);
        proof {
            assert(Seq::<u8>::empty() + le_seq(raw as nat, len as nat) =~= le_seq(raw as nat, len as nat));
            lemma_le_seq_len(raw as nat, len as nat);
        }
        out
    }
}

} // verus!
