//! The wire format of single values: integers in big-endian order or in the
//! variable-length form, truth values, and text with its length in front.

use crate::value::{Scalar, ScalarType, ScalarView};
use vstd::prelude::*;
use vstd::slice::{slice_subrange, slice_to_vec};
use vstd::string::*;
use vstd::utf8::{decode_utf8, encode_utf8, encode_utf8_decode_utf8, encode_utf8_valid_utf8, valid_utf8};

verus! {

/// Why bytes could not be read, or a value not written.
#[derive(Clone, Copy, PartialEq, Eq, Debug, Structural)]
pub enum WireFault {
    /// The bytes end before the value does.
    UnexpectedEof,
    /// The bytes, or the value, are not of the type asked for.
    TypeMismatch,
}

/// 256 to the power `n`.
pub open spec fn pow256(n: nat) -> nat
    decreases n,
{
    if n == 0 {
        1
    } else {
        256 * pow256((n - 1) as nat)
    }
}

/// The `width` low bytes of `u`, the most significant first.
pub open spec fn be_bytes(u: nat, width: nat) -> Seq<u8>
    decreases width,
{
    if width == 0 {
        Seq::empty()
    } else {
        be_bytes(u / 256, (width - 1) as nat).push((u % 256) as u8)
    }
}

/// The number that bytes denote, the most significant first.
pub open spec fn be_value(bytes: Seq<u8>) -> nat
    decreases bytes.len(),
{
    if bytes.len() == 0 {
        0
    } else {
        be_value(bytes.drop_last()) * 256 + bytes.last() as nat
    }
}

/// Whether `v` is a signed integer of `width` bytes.
pub open spec fn fits(v: int, width: nat) -> bool {
    -(pow256(width) as int) <= 2 * v < pow256(width) as int
}

/// The two's complement of `v` in `width` bytes.
pub open spec fn to_unsigned(v: int, width: nat) -> nat {
    if v < 0 {
        (v + pow256(width)) as nat
    } else {
        v as nat
    }
}

/// The signed integer whose two's complement in `width` bytes is `u`.
pub open spec fn to_signed(u: nat, width: nat) -> int {
    if 2 * u >= pow256(width) {
        u - pow256(width)
    } else {
        u as int
    }
}

/// The bytes of a signed integer of `width` bytes, in big-endian order.
pub open spec fn int_bytes(v: int, width: nat) -> Seq<u8> {
    be_bytes(to_unsigned(v, width), width)
}

/// The signed integer that the first `width` bytes denote, and how many
/// bytes were read.
pub open spec fn int_read(bytes: Seq<u8>, width: nat) -> Result<(int, nat), WireFault> {
    if bytes.len() < width {
        Err(WireFault::UnexpectedEof)
    } else {
        Ok((to_signed(be_value(bytes.take(width as int)), width), width))
    }
}

/// The powers of 256 for the widths in use.
pub proof fn lemma_pow256_values()
    ensures
        pow256(0) == 1,
        pow256(1) == 0x100,
        pow256(2) == 0x1_0000,
        pow256(4) == 0x1_0000_0000,
        pow256(8) == 0x1_0000_0000_0000_0000,
{
    reveal_with_fuel(pow256, 9);
}

/// Bytes written for a number are as many as asked for, and denote the number.
pub proof fn lemma_be_round_trip(u: nat, width: nat)
    requires
        u < pow256(width),
    ensures
        be_bytes(u, width).len() == width,
        be_value(be_bytes(u, width)) == u,
    decreases width,
{
    if width > 0 {
        lemma_be_round_trip(u / 256, (width - 1) as nat);
        assert(be_bytes(u, width).drop_last() =~= be_bytes(u / 256, (width - 1) as nat));
    }
}

/// Bytes are as many as asked for, whatever number is written.
pub proof fn lemma_be_len(u: nat, width: nat)
    ensures
        be_bytes(u, width).len() == width,
    decreases width,
{
    if width > 0 {
        lemma_be_len(u / 256, (width - 1) as nat);
    }
}

/// What bytes denote is below 256 to the power of their number.
pub proof fn lemma_be_value_bound(bytes: Seq<u8>)
    ensures
        be_value(bytes) < pow256(bytes.len()),
    decreases bytes.len(),
{
    if bytes.len() > 0 {
        lemma_be_value_bound(bytes.drop_last());
    }
}

/// A signed integer that fits is read back from its bytes.
pub proof fn lemma_int_round_trip(v: int, width: nat, rest: Seq<u8>)
    requires
        fits(v, width),
    ensures
        int_bytes(v, width).len() == width,
        int_read(int_bytes(v, width) + rest, width) == Ok::<(int, nat), WireFault>((v, width)),
{
    let u = to_unsigned(v, width);
    lemma_be_round_trip(u, width);
    assert((int_bytes(v, width) + rest).take(width as int) =~= int_bytes(v, width));
}

/// Appends the `width` low bytes of `u`, the most significant first.
fn put_be(dest: &mut Vec<u8>, u: u64, width: usize)
    ensures
        final(dest)@ == old(dest)@ + be_bytes(u as nat, width as nat),
    decreases width,
{
    if width > 0 {
        put_be(dest, u / 256, width - 1);
        dest.push((u % 256) as u8);
    }
}

/// The number that the bytes from `pos` to `pos + width` denote.
fn get_be(src: &[u8], pos: usize, width: usize) -> (u: u64)
    requires
        width <= 8,
        pos + width <= src@.len(),
    ensures
        u == be_value(src@.subrange(pos as int, pos + width)),
{
    let mut acc: u64 = 0;
    let mut i: usize = 0;
    while i < width
        invariant
            width <= 8,
            pos + width <= src.len(),
            i <= width,
            acc == be_value(src@.subrange(pos as int, pos + i)),
            acc < pow256(i as nat),
        decreases width - i,
    {
        proof {
            let next = src@.subrange(pos as int, pos + i + 1);
            assert(next.drop_last() =~= src@.subrange(pos as int, pos + i));
            lemma_pow256_bound(i as nat);
        }
        acc = acc * 256 + src[pos + i] as u64;
        i = i + 1;
    }
    acc
}

/// A power of 256 with an exponent below eight is below 2 to the power 56.
proof fn lemma_pow256_bound(n: nat)
    requires
        n < 8,
    ensures
        pow256(n) <= 0x100_0000_0000_0000,
{
    reveal_with_fuel(pow256, 9);
}

/// Appends a signed integer of `width` bytes in big-endian order.
pub(crate) fn put_int(dest: &mut Vec<u8>, v: i64, width: usize)
    requires
        width == 1 || width == 2 || width == 4 || width == 8,
        fits(v as int, width as nat),
    ensures
        final(dest)@ == old(dest)@ + int_bytes(v as int, width as nat),
{
    proof {
        lemma_pow256_values();
    }
    let modulus: i128 = if width == 1 {
        0x100
    } else if width == 2 {
        0x1_0000
    } else if width == 4 {
        0x1_0000_0000
    } else {
        0x1_0000_0000_0000_0000
    };
    let u: u64 = if v < 0 {
        (v as i128 + modulus) as u64
    } else {
        v as u64
    };
    put_be(dest, u, width);
}

/// Reads a signed integer of `width` bytes in big-endian order at `pos`;
/// gives the integer and the position behind it.
pub(crate) fn get_int(src: &[u8], pos: usize, width: usize) -> (r: Result<(i64, usize), WireFault>)
    requires
        width == 1 || width == 2 || width == 4 || width == 8,
        pos <= src@.len(),
    ensures
        match int_read(src@.skip(pos as int), width as nat) {
            Ok((v, k)) => r matches Ok((x, p)) && x == v && p == pos + k && fits(v, width as nat)
                && k == width && pos + k <= src@.len(),
            Err(fault) => r == Err::<(i64, usize), WireFault>(fault),
        },
{
    if src.len() - pos < width {
        return Err(WireFault::UnexpectedEof);
    }
    let u = get_be(src, pos, width);
    proof {
        lemma_pow256_values();
        assert(src@.skip(pos as int).take(width as int) =~= src@.subrange(
            pos as int,
            pos + width,
        ));
        lemma_be_value_bound(src@.subrange(pos as int, pos + width));
    }
    let modulus: i128 = if width == 1 {
        0x100
    } else if width == 2 {
        0x1_0000
    } else if width == 4 {
        0x1_0000_0000
    } else {
        0x1_0000_0000_0000_0000
    };
    let v: i128 = if 2 * (u as i128) >= modulus {
        u as i128 - modulus
    } else {
        u as i128
    };
    Ok((v as i64, pos + width))
}

/// The natural number that stands for a signed integer in the
/// variable-length form: small magnitudes, of either sign, get small numbers.
pub open spec fn zigzag(v: int) -> nat {
    if v >= 0 {
        (2 * v) as nat
    } else {
        (-2 * v - 1) as nat
    }
}

/// The signed integer that a natural number stands for.
pub open spec fn unzigzag(n: nat) -> int {
    if n % 2 == 0 {
        n as int / 2
    } else {
        -((n as int + 1) / 2)
    }
}

/// A natural number in groups of seven bits, the lowest group first; every
/// byte but the last has its high bit set.
pub open spec fn leb(n: nat) -> Seq<u8>
    decreases n,
{
    if n < 128 {
        seq![n as u8]
    } else {
        seq![(n % 128 + 128) as u8] + leb(n / 128)
    }
}

/// The longest variable-length form that is read: enough for sixty-four bits.
pub const MAX_VARINT_LEN: usize = 10;

/// Reads groups of seven bits, at most `limit` of them; gives the number
/// and how many bytes were read.
pub open spec fn unleb(bytes: Seq<u8>, limit: nat) -> Result<(nat, nat), WireFault>
    decreases limit,
{
    if limit == 0 {
        Err(WireFault::TypeMismatch)
    } else if bytes.len() == 0 {
        Err(WireFault::UnexpectedEof)
    } else if bytes[0] < 128 {
        Ok((bytes[0] as nat, 1))
    } else {
        match unleb(bytes.drop_first(), (limit - 1) as nat) {
            Ok((high, k)) => Ok((((bytes[0] - 128) + 128 * high) as nat, k + 1)),
            Err(fault) => Err(fault),
        }
    }
}

/// The bytes of a signed integer in the variable-length form.
pub open spec fn varint_bytes(v: int) -> Seq<u8> {
    leb(zigzag(v))
}

/// Reads a signed integer of `width` bytes in the variable-length form;
/// gives the integer and how many bytes were read.
pub open spec fn varint_read(bytes: Seq<u8>, width: nat) -> Result<(int, nat), WireFault> {
    match unleb(bytes, MAX_VARINT_LEN as nat) {
        Ok((n, k)) => if fits(unzigzag(n), width) {
            Ok((unzigzag(n), k))
        } else {
            Err(WireFault::TypeMismatch)
        },
        Err(fault) => Err(fault),
    }
}

/// 128 to the power `n`.
pub open spec fn pow128(n: nat) -> nat
    decreases n,
{
    if n == 0 {
        1
    } else {
        128 * pow128((n - 1) as nat)
    }
}

/// The sign is read back from the number that stands for an integer.
pub proof fn lemma_zigzag_round_trip(v: int)
    ensures
        unzigzag(zigzag(v)) == v,
{
}

/// A number below 128 to the power `k` takes at most `k` bytes, and at least one.
pub proof fn lemma_leb_len(n: nat, k: nat)
    requires
        k > 0,
        n < pow128(k),
    ensures
        1 <= leb(n).len() <= k,
    decreases n,
{
    reveal_with_fuel(pow128, 2);
    if n >= 128 {
        lemma_leb_len(n / 128, (k - 1) as nat);
    }
}

/// A number is read back from its groups, whatever follows them.
pub proof fn lemma_leb_round_trip(n: nat, rest: Seq<u8>, limit: nat)
    requires
        leb(n).len() <= limit,
    ensures
        unleb(leb(n) + rest, limit) == Ok::<(nat, nat), WireFault>((n, leb(n).len())),
    decreases n,
{
    let bytes = leb(n) + rest;
    if n < 128 {
    } else {
        assert(bytes.drop_first() =~= leb(n / 128) + rest);
        lemma_leb_round_trip(n / 128, rest, (limit - 1) as nat);
    }
}

/// A signed integer of at most eight bytes is read back from its
/// variable-length form, whatever follows it.
pub proof fn lemma_varint_round_trip(v: int, width: nat, rest: Seq<u8>)
    requires
        width <= 8,
        fits(v, width),
    ensures
        varint_bytes(v).len() >= 1,
        varint_read(varint_bytes(v) + rest, width) == Ok::<(int, nat), WireFault>(
            (v, varint_bytes(v).len()),
        ),
{
    lemma_pow256_le(width, 8);
    lemma_pow256_values();
    assert(pow128(10) == 0x40_0000_0000_0000_0000) by {
        reveal_with_fuel(pow128, 11);
    }
    lemma_leb_len(zigzag(v), 10);
    lemma_leb_round_trip(zigzag(v), rest, 10);
}

/// Powers of 256 grow with the exponent.
pub proof fn lemma_pow256_le(a: nat, b: nat)
    requires
        a <= b,
    ensures
        pow256(a) <= pow256(b),
    decreases b,
{
    if a < b {
        lemma_pow256_le(a, (b - 1) as nat);
    }
}

/// Powers of 128 grow with the exponent.
proof fn lemma_pow128_le(a: nat, b: nat)
    requires
        a <= b,
    ensures
        pow128(a) <= pow128(b),
    decreases b,
{
    if a < b {
        lemma_pow128_le(a, (b - 1) as nat);
    }
}

/// Appends a natural number in groups of seven bits.
fn put_leb(dest: &mut Vec<u8>, n: u64)
    ensures
        final(dest)@ == old(dest)@ + leb(n as nat),
    decreases n,
{
    if n < 128 {
        dest.push(n as u8);
    } else {
        dest.push((n % 128 + 128) as u8);
        put_leb(dest, n / 128);
    }
}

/// Reads groups of seven bits at `pos`, at most `limit` of them; gives the
/// number and how many bytes were read.
fn get_leb(src: &[u8], pos: usize, limit: usize) -> (r: Result<(u128, usize), WireFault>)
    requires
        pos <= src@.len(),
        limit <= 10,
    ensures
        match unleb(src@.skip(pos as int), limit as nat) {
            Ok((n, k)) => r == Ok::<(u128, usize), WireFault>((n as u128, k as usize)) && n
                < pow128(limit as nat) && 1 <= k <= limit && pos + k <= src@.len(),
            Err(fault) => r == Err::<(u128, usize), WireFault>(fault),
        },
    decreases limit,
{
    if limit == 0 {
        return Err(WireFault::TypeMismatch);
    }
    if pos >= src.len() {
        return Err(WireFault::UnexpectedEof);
    }
    let b = src[pos];
    proof {
        assert(src@.skip(pos as int).drop_first() =~= src@.skip(pos + 1));
        reveal_with_fuel(pow128, 2);
        lemma_pow128_le((limit - 1) as nat, 9);
        assert(pow128(9) == 0x8000_0000_0000_0000) by {
            reveal_with_fuel(pow128, 10);
        }
    }
    if b < 128 {
        proof {
            lemma_pow128_le(1, limit as nat);
        }
        return Ok((b as u128, 1));
    }
    match get_leb(src, pos + 1, limit - 1) {
        Ok((high, k)) => Ok(((b - 128) as u128 + 128 * high, k + 1)),
        Err(fault) => Err(fault),
    }
}

/// Appends a signed integer in the variable-length form.
pub(crate) fn put_varint(dest: &mut Vec<u8>, v: i64)
    ensures
        final(dest)@ == old(dest)@ + varint_bytes(v as int),
{
    let n: u64 = if v >= 0 {
        2 * (v as u64)
    } else {
        let magnitude: i128 = -(v as i128);
        (2 * magnitude - 1) as u64
    };
    put_leb(dest, n);
}

/// Reads a signed integer of `width` bytes in the variable-length form at
/// `pos`; gives the integer and the position behind it.
pub(crate) fn get_varint(src: &[u8], pos: usize, width: usize) -> (r: Result<(i64, usize), WireFault>)
    requires
        width == 1 || width == 2 || width == 4 || width == 8,
        pos <= src@.len(),
    ensures
        match varint_read(src@.skip(pos as int), width as nat) {
            Ok((v, k)) => r matches Ok((x, p)) && x == v && p == pos + k && fits(v, width as nat)
                && 1 <= k && pos + k <= src@.len(),
            Err(fault) => r == Err::<(i64, usize), WireFault>(fault),
        },
{
    proof {
        lemma_pow256_values();
        assert(pow128(10) == 0x40_0000_0000_0000_0000) by {
            reveal_with_fuel(pow128, 11);
        }
    }
    match get_leb(src, pos, MAX_VARINT_LEN) {
        Ok((n, k)) => {
            let v: i128 = if n % 2 == 0 {
                (n / 2) as i128
            } else {
                -(((n + 1) / 2) as i128)
            };
            let half: i128 = if width == 1 {
                0x80
            } else if width == 2 {
                0x8000
            } else if width == 4 {
                0x8000_0000
            } else {
                0x8000_0000_0000_0000
            };
            assert(pos + k <= src.len());
            if -half <= v && v < half {
                Ok((v as i64, pos + k))
            } else {
                Err(WireFault::TypeMismatch)
            }
        },
        Err(fault) => Err(fault),
    }
}

/// The longest text that can be written, in bytes.
pub const MAX_TEXT_LEN: usize = 32767;

/// The bytes of a piece of text: its length in bytes as a signed integer of
/// two bytes, then the text in UTF-8.
pub open spec fn text_bytes(text: Seq<char>) -> Seq<u8> {
    int_bytes(encode_utf8(text).len() as int, 2) + encode_utf8(text)
}

/// Reads a piece of text; gives the text and how many bytes were read.
pub open spec fn text_read(bytes: Seq<u8>) -> Result<(Seq<char>, nat), WireFault> {
    match int_read(bytes, 2) {
        Ok((len, _)) => if len < 0 {
            Err(WireFault::TypeMismatch)
        } else if bytes.len() < 2 + len {
            Err(WireFault::UnexpectedEof)
        } else if valid_utf8(bytes.subrange(2, 2 + len)) {
            Ok((decode_utf8(bytes.subrange(2, 2 + len)), (2 + len) as nat))
        } else {
            Err(WireFault::TypeMismatch)
        },
        Err(fault) => Err(fault),
    }
}

/// The width in bytes of a fixed-width integer type; zero for the others.
pub open spec fn int_width(ty: ScalarType) -> nat {
    match ty {
        ScalarType::Int8 => 1,
        ScalarType::Int16 => 2,
        ScalarType::Int32 => 4,
        ScalarType::Int64 => 8,
        _ => 0,
    }
}

/// The integer that a value of an integer type holds.
pub open spec fn int_of(v: ScalarView) -> int {
    match v {
        ScalarView::Int8(x) => x as int,
        ScalarView::Int16(x) => x as int,
        ScalarView::Int32(x) => x as int,
        ScalarView::Int64(x) => x as int,
        _ => 0,
    }
}

/// The value of the integer type `ty` that holds `v`.
pub open spec fn int_scalar(ty: ScalarType, v: int) -> ScalarView {
    match ty {
        ScalarType::Int8 => ScalarView::Int8(v as i8),
        ScalarType::Int16 => ScalarView::Int16(v as i16),
        ScalarType::Int32 => ScalarView::Int32(v as i32),
        _ => ScalarView::Int64(v as i64),
    }
}

/// Whether a value can be written: a text must not be longer than
/// `MAX_TEXT_LEN` bytes.
pub open spec fn scalar_writable(v: ScalarView) -> bool {
    match v {
        ScalarView::Text(text) => encode_utf8(text).len() <= MAX_TEXT_LEN,
        _ => true,
    }
}

/// The bytes of a single value. An integer is written in big-endian order,
/// or in the variable-length form where `varint` asks for it.
#[verifier::opaque]
pub open spec fn scalar_bytes(v: ScalarView, varint: bool) -> Seq<u8> {
    match v {
        ScalarView::Bool(b) => seq![if b { 1u8 } else { 0u8 }],
        ScalarView::Text(text) => text_bytes(text),
        _ => if varint {
            varint_bytes(int_of(v))
        } else {
            int_bytes(int_of(v), int_width(v.scalar_type()))
        },
    }
}

/// Reads a single value of type `ty`; gives the value and how many bytes
/// were read.
#[verifier::opaque]
pub open spec fn scalar_read(ty: ScalarType, varint: bool, bytes: Seq<u8>) -> Result<
    (ScalarView, nat),
    WireFault,
> {
    match ty {
        ScalarType::Bool => if bytes.len() == 0 {
            Err(WireFault::UnexpectedEof)
        } else if bytes[0] == 0 {
            Ok((ScalarView::Bool(false), 1))
        } else if bytes[0] == 1 {
            Ok((ScalarView::Bool(true), 1))
        } else {
            Err(WireFault::TypeMismatch)
        },
        ScalarType::Text => match text_read(bytes) {
            Ok((text, k)) => Ok((ScalarView::Text(text), k)),
            Err(fault) => Err(fault),
        },
        _ => {
            let read = if varint {
                varint_read(bytes, int_width(ty))
            } else {
                int_read(bytes, int_width(ty))
            };
            match read {
                Ok((v, k)) => Ok((int_scalar(ty, v), k)),
                Err(fault) => Err(fault),
            }
        },
    }
}

/// The integer of every integer type fits the type's width.
pub proof fn lemma_int_of_fits(v: ScalarView)
    requires
        int_width(v.scalar_type()) > 0,
    ensures
        fits(int_of(v), int_width(v.scalar_type())),
        int_scalar(v.scalar_type(), int_of(v)) == v,
{
    lemma_pow256_values();
}

/// A single value that can be written is read back from its bytes,
/// whatever follows them; and it takes at least one byte.
pub proof fn lemma_scalar_round_trip(v: ScalarView, varint: bool, rest: Seq<u8>)
    requires
        scalar_writable(v),
    ensures
        scalar_bytes(v, varint).len() >= 1,
        scalar_read(v.scalar_type(), varint, scalar_bytes(v, varint) + rest) == Ok::<
            (ScalarView, nat),
            WireFault,
        >((v, scalar_bytes(v, varint).len())),
{
    reveal(scalar_bytes);
    reveal(scalar_read);
    let bytes = scalar_bytes(v, varint) + rest;
    match v {
        ScalarView::Bool(b) => {
        },
        ScalarView::Text(text) => {
            let body = encode_utf8(text);
            let n = body.len() as int;
            lemma_pow256_values();
            lemma_int_round_trip(n, 2, body + rest);
            assert(bytes =~= int_bytes(n, 2) + (body + rest));
            assert(bytes.subrange(2, 2 + n) =~= body);
            encode_utf8_valid_utf8(text);
            encode_utf8_decode_utf8(text);
        },
        _ => {
            let width = int_width(v.scalar_type());
            lemma_int_of_fits(v);
            if varint {
                lemma_varint_round_trip(int_of(v), width, rest);
            } else {
                lemma_int_round_trip(int_of(v), width, rest);
            }
        },
    }
}

/// Calls `String::from_utf8`, which std documents to succeed exactly on
/// bytes that are valid UTF-8 and then to hold the text they encode.
#[verifier::external_body]
fn string_from_utf8(bytes: Vec<u8>) -> (r: Option<String>)
    ensures
        r is Some <==> valid_utf8(bytes@),
        r matches Some(text) ==> text@ == decode_utf8(bytes@),
{
    String::from_utf8(bytes).ok()
}

/// Whether a single value can be written.
pub fn scalar_is_writable(v: &Scalar) -> (r: bool)
    ensures
        r == scalar_writable(v@),
{
    match v {
        Scalar::Text(text) => text.as_str().as_bytes().len() <= MAX_TEXT_LEN,
        _ => true,
    }
}

/// Appends the bytes of a single value.
pub(crate) fn put_scalar(dest: &mut Vec<u8>, v: &Scalar, varint: bool)
    requires
        scalar_writable(v@),
    ensures
        final(dest)@ == old(dest)@ + scalar_bytes(v@, varint),
{
    proof {
        lemma_pow256_values();
        reveal(scalar_bytes);
    }
    match v {
        Scalar::Bool(b) => {
            dest.push(if *b { 1u8 } else { 0u8 });
        },
        Scalar::Text(text) => {
            let body = text.as_str().as_bytes();
            put_int(dest, body.len() as i64, 2);
            let ghost mid = dest@;
            let n = body.len();
            let mut i: usize = 0;
            while i < n
                invariant
                    n == body@.len(),
                    i <= n,
                    dest@ == mid + body@.take(i as int),
                decreases n - i,
            {
                dest.push(body[i]);
                i = i + 1;
            }
        },
        Scalar::Int8(x) => if varint {
            put_varint(dest, *x as i64)
        } else {
            put_int(dest, *x as i64, 1)
        },
        Scalar::Int16(x) => if varint {
            put_varint(dest, *x as i64)
        } else {
            put_int(dest, *x as i64, 2)
        },
        Scalar::Int32(x) => if varint {
            put_varint(dest, *x as i64)
        } else {
            put_int(dest, *x as i64, 4)
        },
        Scalar::Int64(x) => if varint {
            put_varint(dest, *x)
        } else {
            put_int(dest, *x, 8)
        },
    }
}

/// Appends the bytes of a single value. A text that is too long to be
/// written is refused, and nothing is appended.
pub fn encode_scalar(v: &Scalar, varint: bool, dest: &mut Vec<u8>) -> (r: Result<(), WireFault>)
    ensures
        scalar_writable(v@) ==> r is Ok && final(dest)@ == old(dest)@ + scalar_bytes(v@, varint),
        !scalar_writable(v@) ==> r == Err::<(), WireFault>(WireFault::TypeMismatch)
            && final(dest)@ == old(dest)@,
{
    if !scalar_is_writable(v) {
        return Err(WireFault::TypeMismatch);
    }
    put_scalar(dest, v, varint);
    Ok(())
}

/// Reads a piece of text at `pos`; gives the text and the position behind it.
fn get_text(src: &[u8], pos: usize) -> (r: Result<(String, usize), WireFault>)
    requires
        pos <= src@.len(),
    ensures
        match text_read(src@.skip(pos as int)) {
            Ok((text, k)) => r matches Ok((s, p)) && s@ == text && p == pos + k && 1 <= k && pos
                + k <= src@.len(),
            Err(fault) => r == Err::<(String, usize), WireFault>(fault),
        },
{
    proof {
        lemma_pow256_values();
    }
    let (len, start) = match get_int(src, pos, 2) {
        Ok(pair) => pair,
        Err(fault) => {
            return Err(fault);
        },
    };
    if len < 0 {
        return Err(WireFault::TypeMismatch);
    }
    let len = len as usize;
    if src.len() - start < len {
        return Err(WireFault::UnexpectedEof);
    }
    let body = slice_to_vec(slice_subrange(src, start, start + len));
    proof {
        assert(src@.skip(pos as int).subrange(2, 2 + len) =~= body@);
    }
    match string_from_utf8(body) {
        Some(text) => Ok((text, start + len)),
        None => Err(WireFault::TypeMismatch),
    }
}

/// Reads a single value of type `ty` at `pos`; gives the value and the
/// position behind it.
pub(crate) fn get_scalar(ty: ScalarType, varint: bool, src: &[u8], pos: usize) -> (r: Result<
    (Scalar, usize),
    WireFault,
>)
    requires
        pos <= src@.len(),
    ensures
        match scalar_read(ty, varint, src@.skip(pos as int)) {
            Ok((v, k)) => r matches Ok((s, p)) && s@ == v && p == pos + k && 1 <= k && pos + k
                <= src@.len() && v.scalar_type() == ty,
            Err(fault) => r == Err::<(Scalar, usize), WireFault>(fault),
        },
{
    proof {
        reveal(scalar_read);
    }
    match ty {
        ScalarType::Bool => {
            if pos >= src.len() {
                return Err(WireFault::UnexpectedEof);
            }
            let b = src[pos];
            if b == 0 {
                Ok((Scalar::Bool(false), pos + 1))
            } else if b == 1 {
                Ok((Scalar::Bool(true), pos + 1))
            } else {
                Err(WireFault::TypeMismatch)
            }
        },
        ScalarType::Text => match get_text(src, pos) {
            Ok((text, p)) => Ok((Scalar::Text(text), p)),
            Err(fault) => Err(fault),
        },
        ScalarType::Int8 => match get_integer(varint, src, pos, 1) {
            Ok((v, p)) => Ok((Scalar::Int8(v as i8), p)),
            Err(fault) => Err(fault),
        },
        ScalarType::Int16 => match get_integer(varint, src, pos, 2) {
            Ok((v, p)) => Ok((Scalar::Int16(v as i16), p)),
            Err(fault) => Err(fault),
        },
        ScalarType::Int32 => match get_integer(varint, src, pos, 4) {
            Ok((v, p)) => Ok((Scalar::Int32(v as i32), p)),
            Err(fault) => Err(fault),
        },
        ScalarType::Int64 => match get_integer(varint, src, pos, 8) {
            Ok((v, p)) => Ok((Scalar::Int64(v), p)),
            Err(fault) => Err(fault),
        },
    }
}

/// Reads a single value of type `ty` from the start of `src`; gives the
/// value and how many bytes were read.
pub fn decode_scalar(ty: ScalarType, varint: bool, src: &[u8]) -> (r: Result<
    (Scalar, usize),
    WireFault,
>)
    ensures
        match scalar_read(ty, varint, src@) {
            Ok((v, k)) => r matches Ok((s, used)) && s@ == v && used == k && 1 <= k <= src@.len()
                && v.scalar_type() == ty,
            Err(fault) => r == Err::<(Scalar, usize), WireFault>(fault),
        },
{
    assert(src@.skip(0) =~= src@);
    get_scalar(ty, varint, src, 0)
}

/// Reads a signed integer of `width` bytes at `pos`, in the form that
/// `varint` tells.
fn get_integer(varint: bool, src: &[u8], pos: usize, width: usize) -> (r: Result<
    (i64, usize),
    WireFault,
>)
    requires
        width == 1 || width == 2 || width == 4 || width == 8,
        pos <= src@.len(),
    ensures
        match (if varint {
            varint_read(src@.skip(pos as int), width as nat)
        } else {
            int_read(src@.skip(pos as int), width as nat)
        }) {
            Ok((v, k)) => r matches Ok((x, p)) && x == v && p == pos + k && fits(v, width as nat)
                && 1 <= k && pos + k <= src@.len(),
            Err(fault) => r == Err::<(i64, usize), WireFault>(fault),
        },
{
    if varint {
        get_varint(src, pos, width)
    } else {
        get_int(src, pos, width)
    }
}

} // verus!
