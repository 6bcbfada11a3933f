//! The wire format of the control messages.
//!
//! Messages are written in bincode's standard format, field after field:
//! integers as variable-length integers, strings as their byte length
//! followed by their UTF-8 bytes, an optional value as a `0` or `1` byte
//! followed by the value, an enum as its variant number followed by the
//! variant's fields, and each render parameter as the eight little-endian
//! bytes of its bit pattern. Each message therefore delimits itself.
use crate::layout::{layout_ok, RenderSize};
use crate::message::{InitializeView, RenderAck, RenderData, RenderFrame, RenderInitialize};
use vstd::prelude::*;
use vstd::slice::slice_to_vec;
use vstd::utf8::{decode_utf8, encode_utf8, valid_utf8};

verus! {

broadcast use vstd::utf8::encode_utf8_valid_utf8, vstd::utf8::encode_utf8_decode_utf8;

/// Why bytes could not be read as a message.
#[derive(Debug, Clone, Copy, PartialEq, Eq, Structural)]
pub enum DecodeError {
    /// The bytes end before the message does: more are needed.
    Truncated,
    /// The bytes are no encoding of the expected message.
    Malformed,
}

/// `256` to the power `n`.
pub open spec fn pow256(n: nat) -> nat
    decreases n,
{
    if n == 0 {
        1
    } else {
        256 * pow256((n - 1) as nat)
    }
}

/// The `n` low bytes of `v`, least significant first.
pub open spec fn le_bytes(v: nat, n: nat) -> Seq<u8>
    decreases n,
{
    if n == 0 {
        Seq::empty()
    } else {
        seq![(v % 256) as u8] + le_bytes(v / 256, (n - 1) as nat)
    }
}

/// The number whose bytes, least significant first, are `s`.
pub open spec fn le_value(s: Seq<u8>) -> nat
    decreases s.len(),
{
    if s.len() == 0 {
        0
    } else {
        s[0] as nat + 256 * le_value(s.drop_first())
    }
}

/// bincode's variable-length encoding of an unsigned integer.
pub open spec fn varint_encoding(v: u64) -> Seq<u8> {
    if v <= 250 {
        seq![v as u8]
    } else if v <= 0xffff {
        seq![251u8] + le_bytes(v as nat, 2)
    } else if v <= 0xffff_ffff {
        seq![252u8] + le_bytes(v as nat, 4)
    } else {
        seq![253u8] + le_bytes(v as nat, 8)
    }
}

/// How many bytes a variable-length integer takes, judged by its first byte,
/// or `None` for a first byte that starts none.
pub open spec fn varint_width(first: u8) -> Option<nat> {
    if first <= 250 {
        Some(1)
    } else if first == 251 {
        Some(3)
    } else if first == 252 {
        Some(5)
    } else if first == 253 {
        Some(9)
    } else {
        None
    }
}

/// The variable-length integer at the front of `b` and the bytes it takes.
pub open spec fn varint_decoding(b: Seq<u8>) -> Result<(u64, nat), DecodeError> {
    if b.len() == 0 {
        Err(DecodeError::Truncated)
    } else {
        match varint_width(b[0]) {
            None => Err(DecodeError::Malformed),
            Some(w) => if b.len() < w {
                Err(DecodeError::Truncated)
            } else if w == 1 {
                Ok((b[0] as u64, 1))
            } else {
                Ok((le_value(b.subrange(1, w as int)) as u64, w))
            },
        }
    }
}

/// Why bincode could not read an integer.
enum VarintFault {
    /// The bytes stop inside the integer.
    End,
    /// The first byte starts no integer of 64 bits or fewer.
    Invalid,
}

/// Relies on `bincode::encode_to_vec` with the standard configuration, which
/// writes a `u64` as a variable-length integer and cannot fail into a `Vec`.
#[verifier::external_body]
fn varint_bytes(value: u64) -> (r: Vec<u8>)
    ensures
        r@ == varint_encoding(value),
{
    match bincode::encode_to_vec(value, bincode::config::standard()) {
        Ok(bytes) => bytes,
        Err(_) => Vec::new(),
    }
}

/// Relies on `bincode::decode_from_slice` with the standard configuration,
/// decoding a `u64`: it reads one variable-length integer from the front of
/// `bytes` and reports the bytes it took, or fails with `UnexpectedEnd` where
/// the bytes stop short.
#[verifier::external_body]
fn read_varint(bytes: &[u8]) -> (r: Result<(u64, usize), VarintFault>)
    ensures
        match r {
            Ok((v, n)) => varint_decoding(bytes@) == Ok::<(u64, nat), DecodeError>((v, n as nat)),
            Err(VarintFault::End) => varint_decoding(bytes@) == Err::<(u64, nat), DecodeError>(
                DecodeError::Truncated,
            ),
            Err(VarintFault::Invalid) => varint_decoding(bytes@) == Err::<(u64, nat), DecodeError>(
                DecodeError::Malformed,
            ),
        },
{
    match bincode::decode_from_slice::<u64, _>(bytes, bincode::config::standard()) {
        Ok(read) => Ok(read),
        Err(bincode::error::DecodeError::UnexpectedEnd { .. }) => Err(VarintFault::End),
        Err(_) => Err(VarintFault::Invalid),
    }
}

/// Relies on `String::from_utf8`, which accepts exactly the valid UTF-8 byte
/// sequences and keeps the characters they encode.
#[verifier::external_body]
fn string_from_utf8(bytes: Vec<u8>) -> (r: Option<String>)
    ensures
        r is Some <==> valid_utf8(bytes@),
        r matches Some(s) ==> s@ == decode_utf8(bytes@),
{
    String::from_utf8(bytes).ok()
}

proof fn lemma_le_unfold(s: Seq<u8>, i: int)
    requires
        0 <= i < s.len(),
    ensures
        le_value(s.subrange(i, s.len() as int)) == s[i] as nat + 256 * le_value(
            s.subrange(i + 1, s.len() as int),
        ),
{
    assert(s.subrange(i, s.len() as int).drop_first() =~= s.subrange(i + 1, s.len() as int));
}

proof fn lemma_le_value_bound(s: Seq<u8>)
    ensures
        le_value(s) < pow256(s.len()),
    decreases s.len(),
{
    if s.len() > 0 {
        lemma_le_value_bound(s.drop_first());
        let r = le_value(s.drop_first());
        let p = pow256(s.drop_first().len());
        assert(s[0] as nat + 256 * r < 256 * p) by (nonlinear_arith)
            requires
                r < p,
                s[0] < 256,
        ;
    }
}

proof fn lemma_le_round_trip(v: nat, n: nat)
    requires
        v < pow256(n),
    ensures
        le_value(le_bytes(v, n)) == v,
        le_bytes(v, n).len() == n,
    decreases n,
{
    if n > 0 {
        let q = v / 256;
        let p = pow256((n - 1) as nat);
        assert(v == 256 * q + v % 256 && q < p) by (nonlinear_arith)
            requires
                v < 256 * p,
                q == v / 256,
        ;
        lemma_le_round_trip(q, (n - 1) as nat);
        assert(le_bytes(v, n).drop_first() =~= le_bytes(q, (n - 1) as nat));
    }
}

proof fn lemma_pow256_values()
    ensures
        pow256(2) == 0x1_0000,
        pow256(4) == 0x1_0000_0000,
        pow256(7) == 0x100_0000_0000_0000,
        pow256(8) == 0x1_0000_0000_0000_0000,
{
    reveal_with_fuel(pow256, 9);
}

proof fn lemma_varint_round_trip(v: u64, rest: Seq<u8>)
    ensures
        varint_decoding(varint_encoding(v) + rest) == Ok::<(u64, nat), DecodeError>(
            (v, varint_encoding(v).len()),
        ),
        1 <= varint_encoding(v).len() <= 9,
{
    lemma_pow256_values();
    let e = varint_encoding(v);
    let b = e + rest;
    if v <= 250 {
    } else if v <= 0xffff {
        lemma_le_round_trip(v as nat, 2);
        assert(b.subrange(1, 3) =~= le_bytes(v as nat, 2));
    } else if v <= 0xffff_ffff {
        lemma_le_round_trip(v as nat, 4);
        assert(b.subrange(1, 5) =~= le_bytes(v as nat, 4));
    } else {
        lemma_le_round_trip(v as nat, 8);
        assert(b.subrange(1, 9) =~= le_bytes(v as nat, 8));
    }
}


/// The bytes of `b` from `at` on.
pub open spec fn from(b: Seq<u8>, at: nat) -> Seq<u8> {
    b.subrange(at as int, b.len() as int)
}

/// A string: the length of its UTF-8 bytes, then those bytes.
pub open spec fn string_encoding(s: Seq<char>) -> Seq<u8> {
    varint_encoding(encode_utf8(s).len() as u64) + encode_utf8(s)
}

/// The string at the front of `b` and the bytes it takes.
pub open spec fn string_decoding(b: Seq<u8>) -> Result<(Seq<char>, nat), DecodeError> {
    match varint_decoding(b) {
        Err(e) => Err(e),
        Ok((n, k)) => if b.len() < k + n {
            Err(DecodeError::Truncated)
        } else if valid_utf8(b.subrange(k as int, (k + n) as int)) {
            Ok((decode_utf8(b.subrange(k as int, (k + n) as int)), (k + n) as nat))
        } else {
            Err(DecodeError::Malformed)
        },
    }
}

/// A frame layout: width, height and source count.
pub open spec fn size_encoding(width: nat, height: nat, count: nat) -> Seq<u8> {
    varint_encoding(width as u64) + varint_encoding(height as u64) + varint_encoding(count as u64)
}

/// The initialize message: the layout, the arena identifier, the configuration.
pub open spec fn initialize_encoding(m: InitializeView) -> Seq<u8> {
    size_encoding(m.0, m.1, m.2) + string_encoding(m.3) + string_encoding(m.4)
}

/// Whether a width, height and count read from the wire form a valid layout.
pub open spec fn layout_fits(width: u64, height: u64, count: u64) -> bool {
    &&& width <= u32::MAX
    &&& height <= u32::MAX
    &&& count <= usize::MAX
    &&& layout_ok(width as nat, height as nat, count as nat)
}

/// The frame layout at the front of `b` and the bytes it takes.
pub open spec fn size_decoding(b: Seq<u8>) -> Result<((nat, nat, nat), nat), DecodeError> {
    match varint_decoding(b) {
        Err(e) => Err(e),
        Ok((w, k1)) => match varint_decoding(from(b, k1)) {
            Err(e) => Err(e),
            Ok((h, k2)) => match varint_decoding(from(b, k1 + k2)) {
                Err(e) => Err(e),
                Ok((c, k3)) => if layout_fits(w, h, c) {
                    Ok(((w as nat, h as nat, c as nat), k1 + k2 + k3))
                } else {
                    Err(DecodeError::Malformed)
                },
            },
        },
    }
}

/// The initialize message at the front of `b` and the bytes it takes.
pub open spec fn initialize_decoding(b: Seq<u8>) -> Result<(InitializeView, nat), DecodeError> {
    match size_decoding(b) {
        Err(e) => Err(e),
        Ok((size, k)) => match string_decoding(from(b, k)) {
            Err(e) => Err(e),
            Ok((id, k4)) => match string_decoding(from(b, k + k4)) {
                Err(e) => Err(e),
                Ok((config, k5)) => Ok(((size.0, size.1, size.2, id, config), k + k4 + k5)),
            },
        },
    }
}

/// The acknowledgement: `0`, or `1` followed by the error message.
pub open spec fn ack_encoding(error: Option<Seq<char>>) -> Seq<u8> {
    match error {
        None => seq![0u8],
        Some(s) => seq![1u8] + string_encoding(s),
    }
}

/// The acknowledgement at the front of `b` and the bytes it takes.
pub open spec fn ack_decoding(b: Seq<u8>) -> Result<(Option<Seq<char>>, nat), DecodeError> {
    if b.len() == 0 {
        Err(DecodeError::Truncated)
    } else if b[0] == 0 {
        Ok((None, 1))
    } else if b[0] == 1 {
        match string_decoding(b.subrange(1, b.len() as int)) {
            Err(e) => Err(e),
            Ok((s, k)) => Ok((Some(s), k + 1)),
        }
    } else {
        Err(DecodeError::Malformed)
    }
}

/// The render parameters: four eight-byte little-endian values.
pub open spec fn data_encoding(d: RenderData) -> Seq<u8> {
    le_bytes(d.time as nat, 8) + le_bytes(d.param1 as nat, 8) + le_bytes(d.param2 as nat, 8)
        + le_bytes(d.param3 as nat, 8)
}

/// The eight-byte little-endian value at `at` in `b`.
pub open spec fn le8_at(b: Seq<u8>, at: int) -> u64 {
    le_value(b.subrange(at, at + 8)) as u64
}

/// The render request (variant `0`, then the parameters) or the terminate
/// message (variant `1`).
pub open spec fn frame_encoding(f: RenderFrame) -> Seq<u8> {
    match f {
        RenderFrame::Render(d) => varint_encoding(0) + data_encoding(d),
        RenderFrame::Terminate => varint_encoding(1),
    }
}

/// The render request or terminate message at the front of `b` and the bytes
/// it takes.
pub open spec fn frame_decoding(b: Seq<u8>) -> Result<(RenderFrame, nat), DecodeError> {
    match varint_decoding(b) {
        Err(e) => Err(e),
        Ok((t, k)) => if t == 0 {
            if b.len() < k + 32 {
                Err(DecodeError::Truncated)
            } else {
                Ok(
                    (
                        RenderFrame::Render(
                            RenderData {
                                time: le8_at(b, k as int),
                                param1: le8_at(b, (k + 8) as int),
                                param2: le8_at(b, (k + 16) as int),
                                param3: le8_at(b, (k + 24) as int),
                            },
                        ),
                        k + 32,
                    ),
                )
            }
        } else if t == 1 {
            Ok((RenderFrame::Terminate, k))
        } else {
            Err(DecodeError::Malformed)
        },
    }
}

/// Appends `value` as a variable-length integer.
fn put_varint(out: &mut Vec<u8>, value: u64)
    ensures
        final(out)@ == old(out)@ + varint_encoding(value),
{
    let mut bytes = varint_bytes(value);
    out.append(&mut bytes);
}

/// Appends `s` as a string.
fn put_string(out: &mut Vec<u8>, s: &str)
    ensures
        final(out)@ == old(out)@ + string_encoding(s@),
{
    let bytes = s.as_bytes();
    put_varint(out, bytes.len() as u64);
    let mut body = slice_to_vec(bytes);
    out.append(&mut body);
    assert(final(out)@ =~= old(out)@ + string_encoding(s@));
}

/// Appends the eight little-endian bytes of `value`.
fn put_le8(out: &mut Vec<u8>, value: u64)
    ensures
        final(out)@ == old(out)@ + le_bytes(value as nat, 8),
{
    let ghost start = out@;
    let mut v: u64 = value;
    let mut i: usize = 0;
    while i < 8
        invariant
            i <= 8,
            out@ + le_bytes(v as nat, (8 - i) as nat) == start + le_bytes(value as nat, 8),
        decreases 8 - i,
    {
        let ghost before = out@;
        out.push((v % 256) as u8);
        proof {
            let rest = le_bytes((v / 256) as nat, (8 - i - 1) as nat);
            assert(le_bytes(v as nat, (8 - i) as nat) == seq![(v % 256) as u8] + rest);
            assert(out@ + rest =~= before + le_bytes(v as nat, (8 - i) as nat));
        }
        v = v / 256;
        i = i + 1;
    }
    assert(out@ =~= start + le_bytes(value as nat, 8));
}

/// Reads eight little-endian bytes at `at`.
fn get_le8(b: &[u8], at: usize) -> (r: u64)
    requires
        at + 8 <= b@.len(),
    ensures
        r == le8_at(b@, at as int),
        le_value(b@.subrange(at as int, at + 8)) < 0x1_0000_0000_0000_0000,
{
    let ghost s = b@.subrange(at as int, at + 8);
    proof {
        lemma_pow256_values();
    }
    let len = b.len();
    let mut acc: u64 = 0;
    let mut i: usize = 8;
    while i > 0
        invariant
            i <= 8,
            len == b@.len(),
            at + 8 <= b@.len(),
            s == b@.subrange(at as int, at + 8),
            acc as nat == le_value(s.subrange(i as int, 8)),
            le_value(s.subrange(i as int, 8)) < pow256((8 - i) as nat),
            pow256(8) == 0x1_0000_0000_0000_0000,
        decreases i,
    {
        proof {
            lemma_le_unfold(s, i - 1);
            lemma_le_value_bound(s.subrange(i - 1, 8));
            assert(s.subrange(i - 1, 8).len() == 8 - i + 1);
            lemma_pow256_monotone((8 - i + 1) as nat, 8);
            assert(s[i - 1] == b@[at + i - 1]);
            lemma_pow256_monotone((8 - i) as nat, 7);
            lemma_pow256_values();
            assert(acc * 256 + 255 < 0x1_0000_0000_0000_0000) by (nonlinear_arith)
                requires
                    acc < 0x100_0000_0000_0000,
            ;
        }
        acc = acc * 256 + b[at + (i - 1)] as u64;
        i = i - 1;
    }
    assert(s.subrange(0, 8) =~= s);
    acc
}

proof fn lemma_pow256_monotone(m: nat, n: nat)
    requires
        m <= n,
    ensures
        pow256(m) <= pow256(n),
    decreases n,
{
    if m < n {
        lemma_pow256_monotone(m, (n - 1) as nat);
    }
}

/// Writes the initialize message.
pub fn encode_initialize(m: &RenderInitialize) -> (r: Vec<u8>)
    ensures
        r@ == initialize_encoding(m@),
{
    let mut out: Vec<u8> = Vec::new();
    put_varint(&mut out, m.size.width() as u64);
    put_varint(&mut out, m.size.height() as u64);
    put_varint(&mut out, m.size.count() as u64);
    put_string(&mut out, m.shmem_id.as_str());
    put_string(&mut out, m.config.as_str());
    assert(out@ =~= initialize_encoding(m@));
    out
}

/// Writes the acknowledgement.
pub fn encode_ack(m: &RenderAck) -> (r: Vec<u8>)
    ensures
        r@ == ack_encoding(m@),
{
    let mut out: Vec<u8> = Vec::new();
    match &m.error {
        None => {
            out.push(0u8);
            assert(out@ =~= ack_encoding(m@));
        },
        Some(e) => {
            out.push(1u8);
            put_string(&mut out, e.as_str());
            assert(out@ =~= ack_encoding(m@));
        },
    }
    out
}

/// Writes the render request or terminate message.
pub fn encode_frame(m: &RenderFrame) -> (r: Vec<u8>)
    ensures
        r@ == frame_encoding(*m),
{
    let mut out: Vec<u8> = Vec::new();
    match m {
        RenderFrame::Render(d) => {
            put_varint(&mut out, 0);
            put_le8(&mut out, d.time);
            put_le8(&mut out, d.param1);
            put_le8(&mut out, d.param2);
            put_le8(&mut out, d.param3);
            assert(out@ =~= frame_encoding(*m));
        },
        RenderFrame::Terminate => {
            put_varint(&mut out, 1);
        },
    }
    out
}


/// Reads a variable-length integer at `at`; returns it and the position after it.
fn varint_at(b: &[u8], at: usize) -> (r: Result<(u64, usize), DecodeError>)
    requires
        at <= b@.len(),
    ensures
        match r {
            Ok((v, n)) => varint_decoding(from(b@, at as nat)) == Ok::<(u64, nat), DecodeError>(
                (v, (n - at) as nat),
            ) && at < n <= b@.len(),
            Err(e) => varint_decoding(from(b@, at as nat)) == Err::<(u64, nat), DecodeError>(e),
        },
{
    let len = b.len();
    let rest = &b[at..len];
    assert(rest@ == from(b@, at as nat));
    match read_varint(rest) {
        Ok((v, n)) => Ok((v, at + n)),
        Err(VarintFault::End) => Err(DecodeError::Truncated),
        Err(VarintFault::Invalid) => Err(DecodeError::Malformed),
    }
}

/// Reads a string at `at`; returns it and the position after it.
fn string_at(b: &[u8], at: usize) -> (r: Result<(String, usize), DecodeError>)
    requires
        at <= b@.len(),
    ensures
        match r {
            Ok((s, n)) => string_decoding(from(b@, at as nat)) == Ok::<
                (Seq<char>, nat),
                DecodeError,
            >((s@, (n - at) as nat)) && at < n <= b@.len(),
            Err(e) => string_decoding(from(b@, at as nat)) == Err::<(Seq<char>, nat), DecodeError>(
                e,
            ),
        },
{
    let len = b.len();
    let ghost rest = from(b@, at as nat);
    let (n, k) = match varint_at(b, at) {
        Ok(read) => read,
        Err(e) => return Err(e),
    };
    if n > (len - k) as u64 {
        return Err(DecodeError::Truncated);
    }
    let n = n as usize;
    let body = slice_to_vec(&b[k..k + n]);
    assert(body@ == rest.subrange((k - at) as int, (k - at + n) as int));
    match string_from_utf8(body) {
        Some(s) => Ok((s, k + n)),
        None => Err(DecodeError::Malformed),
    }
}

/// Reads a frame layout at the front of `b`; returns it and the position after it.
fn size_at(b: &[u8]) -> (r: Result<(RenderSize, usize), DecodeError>)
    ensures
        match r {
            Ok((size, n)) => size_decoding(b@) == Ok::<((nat, nat, nat), nat), DecodeError>(
                ((size.spec_width(), size.spec_height(), size.spec_count()), n as nat),
            ) && size.wf() && n <= b@.len(),
            Err(e) => size_decoding(b@) == Err::<((nat, nat, nat), nat), DecodeError>(e),
        },
{
    assert(from(b@, 0) =~= b@);
    let (w, after_width) = match varint_at(b, 0) {
        Ok(read) => read,
        Err(e) => return Err(e),
    };
    let (h, after_height) = match varint_at(b, after_width) {
        Ok(read) => read,
        Err(e) => return Err(e),
    };
    let (c, after_count) = match varint_at(b, after_height) {
        Ok(read) => read,
        Err(e) => return Err(e),
    };
    if w > u32::MAX as u64 || h > u32::MAX as u64 || c > usize::MAX as u64 {
        return Err(DecodeError::Malformed);
    }
    match RenderSize::try_new(w as u32, h as u32, c as usize) {
        Some(size) => Ok((size, after_count)),
        None => Err(DecodeError::Malformed),
    }
}

/// Reads the initialize message at the front of `b`, and the bytes it took.
pub fn decode_initialize(b: &[u8]) -> (r: Result<(RenderInitialize, usize), DecodeError>)
    ensures
        match r {
            Ok((m, n)) => initialize_decoding(b@) == Ok::<(InitializeView, nat), DecodeError>(
                (m@, n as nat),
            ) && m.size.wf(),
            Err(e) => initialize_decoding(b@) == Err::<(InitializeView, nat), DecodeError>(e),
        },
{
    let (size, after_count) = match size_at(b) {
        Ok(read) => read,
        Err(e) => return Err(e),
    };
    let (shmem_id, after_id) = match string_at(b, after_count) {
        Ok(read) => read,
        Err(e) => return Err(e),
    };
    let (config, after_config) = match string_at(b, after_id) {
        Ok(read) => read,
        Err(e) => return Err(e),
    };
    let m = RenderInitialize::new(size, shmem_id, config);
    Ok((m, after_config))
}

/// Reads the acknowledgement at the front of `b`, and the bytes it took.
pub fn decode_ack(b: &[u8]) -> (r: Result<(RenderAck, usize), DecodeError>)
    ensures
        match r {
            Ok((m, n)) => ack_decoding(b@) == Ok::<(Option<Seq<char>>, nat), DecodeError>(
                (m@, n as nat),
            ),
            Err(e) => ack_decoding(b@) == Err::<(Option<Seq<char>>, nat), DecodeError>(e),
        },
{
    if b.len() == 0 {
        return Err(DecodeError::Truncated);
    }
    if b[0] == 0 {
        return Ok((RenderAck::ok(), 1));
    }
    if b[0] != 1 {
        return Err(DecodeError::Malformed);
    }
    match string_at(b, 1) {
        Ok((s, n)) => Ok((RenderAck::failed(s), n)),
        Err(e) => Err(e),
    }
}

/// Reads the render request or terminate message at the front of `b`, and
/// the bytes it took.
pub fn decode_frame(b: &[u8]) -> (r: Result<(RenderFrame, usize), DecodeError>)
    ensures
        match r {
            Ok((m, n)) => frame_decoding(b@) == Ok::<(RenderFrame, nat), DecodeError>(
                (m, n as nat),
            ),
            Err(e) => frame_decoding(b@) == Err::<(RenderFrame, nat), DecodeError>(e),
        },
{
    assert(from(b@, 0) =~= b@);
    let (t, k) = match varint_at(b, 0) {
        Ok(read) => read,
        Err(e) => return Err(e),
    };
    if t == 1 {
        return Ok((RenderFrame::Terminate, k));
    }
    if t != 0 {
        return Err(DecodeError::Malformed);
    }
    if b.len() - k < 32 {
        return Err(DecodeError::Truncated);
    }
    let data = RenderData {
        time: get_le8(b, k),
        param1: get_le8(b, k + 8),
        param2: get_le8(b, k + 16),
        param3: get_le8(b, k + 24),
    };
    Ok((RenderFrame::Render(data), k + 32))
}


/// Whether the UTF-8 form of `s` fits in memory, as that of every `String`
/// does.
pub open spec fn fits_memory(s: Seq<char>) -> bool {
    encode_utf8(s).len() <= usize::MAX
}

proof fn lemma_string_round_trip(s: Seq<char>, rest: Seq<u8>)
    requires
        fits_memory(s),
    ensures
        string_decoding(string_encoding(s) + rest) == Ok::<(Seq<char>, nat), DecodeError>(
            (s, string_encoding(s).len()),
        ),
{
    let u = encode_utf8(s);
    let v = varint_encoding(u.len() as u64);
    let b = string_encoding(s) + rest;
    assert(b =~= v + (u + rest));
    lemma_varint_round_trip(u.len() as u64, u + rest);
    assert(b.subrange(v.len() as int, (v.len() + u.len()) as int) =~= u);
}

proof fn lemma_size_round_trip(size: RenderSize, rest: Seq<u8>)
    requires
        size.wf(),
    ensures
        size_decoding(
            size_encoding(size.spec_width(), size.spec_height(), size.spec_count()) + rest,
        ) == Ok::<((nat, nat, nat), nat), DecodeError>(
            (
                (size.spec_width(), size.spec_height(), size.spec_count()),
                size_encoding(size.spec_width(), size.spec_height(), size.spec_count()).len(),
            ),
        ),
{
    size.lemma_field_bounds();
    let w = size.spec_width() as u64;
    let h = size.spec_height() as u64;
    let c = size.spec_count() as u64;
    let vw = varint_encoding(w);
    let vh = varint_encoding(h);
    let vc = varint_encoding(c);
    let b = size_encoding(size.spec_width(), size.spec_height(), size.spec_count()) + rest;
    assert(b =~= vw + (vh + vc + rest));
    lemma_varint_round_trip(w, vh + vc + rest);
    assert(from(b, vw.len()) =~= vh + (vc + rest));
    lemma_varint_round_trip(h, vc + rest);
    assert(from(b, vw.len() + vh.len()) =~= vc + rest);
    lemma_varint_round_trip(c, rest);
}

/// Decoding the encoding of an initialize message, whatever bytes follow it,
/// gives back the same layout, arena identifier and configuration, and
/// consumes exactly the encoding.
pub proof fn lemma_initialize_round_trip(m: RenderInitialize, rest: Seq<u8>)
    requires
        m.size.wf(),
        fits_memory(m.shmem_id@),
        fits_memory(m.config@),
    ensures
        initialize_decoding(initialize_encoding(m@) + rest) == Ok::<
            (InitializeView, nat),
            DecodeError,
        >((m@, initialize_encoding(m@).len())),
{
    let v = m@;
    let se = size_encoding(v.0, v.1, v.2);
    let ie = string_encoding(v.3);
    let ce = string_encoding(v.4);
    let b = initialize_encoding(v) + rest;
    assert(b =~= se + (ie + ce + rest));
    lemma_size_round_trip(m.size, ie + ce + rest);
    assert(from(b, se.len()) =~= ie + (ce + rest));
    lemma_string_round_trip(v.3, ce + rest);
    assert(from(b, se.len() + ie.len()) =~= ce + rest);
    lemma_string_round_trip(v.4, rest);
}

/// Decoding the encoding of an acknowledgement, whatever bytes follow it,
/// gives back the same acknowledgement (with or without an error message)
/// and consumes exactly the encoding.
pub proof fn lemma_ack_round_trip(m: RenderAck, rest: Seq<u8>)
    requires
        m@ matches Some(e) ==> fits_memory(e),
    ensures
        ack_decoding(ack_encoding(m@) + rest) == Ok::<(Option<Seq<char>>, nat), DecodeError>(
            (m@, ack_encoding(m@).len()),
        ),
{
    match m@ {
        None => {},
        Some(e) => {
            let b = ack_encoding(m@) + rest;
            assert(b.subrange(1, b.len() as int) =~= string_encoding(e) + rest);
            lemma_string_round_trip(e, rest);
        },
    }
}

/// Decoding the encoding of a render request or terminate message, whatever
/// bytes follow it, gives back the same message and consumes exactly the
/// encoding.
pub proof fn lemma_frame_round_trip(m: RenderFrame, rest: Seq<u8>)
    ensures
        frame_decoding(frame_encoding(m) + rest) == Ok::<(RenderFrame, nat), DecodeError>(
            (m, frame_encoding(m).len()),
        ),
{
    let b = frame_encoding(m) + rest;
    lemma_varint_round_trip(0, seq![]);
    lemma_varint_round_trip(1, seq![]);
    match m {
        RenderFrame::Render(d) => {
            lemma_pow256_values();
            lemma_le_round_trip(d.time as nat, 8);
            lemma_le_round_trip(d.param1 as nat, 8);
            lemma_le_round_trip(d.param2 as nat, 8);
            lemma_le_round_trip(d.param3 as nat, 8);
            assert(b.subrange(1, 9) =~= le_bytes(d.time as nat, 8));
            assert(b.subrange(9, 17) =~= le_bytes(d.param1 as nat, 8));
            assert(b.subrange(17, 25) =~= le_bytes(d.param2 as nat, 8));
            assert(b.subrange(25, 33) =~= le_bytes(d.param3 as nat, 8));
        },
        RenderFrame::Terminate => {},
    }
}

} // verus!
