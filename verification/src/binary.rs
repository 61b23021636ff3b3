use vstd::prelude::*;
use crate::instruction::Instruction;

verus! {

/// The four bytes that open every SGB file: `\x7fSGO`.
pub const SGB_MAGIC: [u8; 4] = [0x7F, 0x53, 0x47, 0x4F];

/// Length of the SGB header: magic, version, max fuel, data size, code size.
pub const SGB_HEADER_LEN: usize = 16;

pub open spec fn magic_bytes() -> Seq<u8> {
    seq![0x7Fu8, 0x53u8, 0x47u8, 0x4Fu8]
}

/// The little-endian bytes of a 16-bit value.
pub open spec fn u16_le(v: u16) -> Seq<u8> {
    seq![(v & 0xff) as u8, ((v >> 8u16) & 0xff) as u8]
}

/// The little-endian bytes of a 32-bit value.
pub open spec fn u32_le(v: u32) -> Seq<u8> {
    seq![
        (v & 0xff) as u8,
        ((v >> 8u32) & 0xff) as u8,
        ((v >> 16u32) & 0xff) as u8,
        ((v >> 24u32) & 0xff) as u8,
    ]
}

/// The 16-bit value of two little-endian bytes.
pub open spec fn le_u16(b0: u8, b1: u8) -> u16 {
    (b0 as u16) | ((b1 as u16) << 8u16)
}

/// The 32-bit value of four little-endian bytes.
pub open spec fn le_u32(b0: u8, b1: u8, b2: u8, b3: u8) -> u32 {
    (b0 as u32) | ((b1 as u32) << 8u32) | ((b2 as u32) << 16u32) | ((b3 as u32) << 24u32)
}

/// Zero bytes that bring a data segment of `n` bytes to a multiple of four.
pub open spec fn padding_len(n: int) -> int {
    (4 - n % 4) % 4
}

/// The code segment: each instruction word little-endian.
pub open spec fn code_bytes(code: Seq<Instruction>) -> Seq<u8> {
    Seq::new((4 * code.len()) as nat, |i: int| u32_le(code[i / 4].0)[i % 4])
}

/// The SGB image of a program: header (magic, version 1, max fuel, data size,
/// code size, all little-endian), data segment, zero padding to four bytes,
/// code segment.
pub open spec fn sgb_image(code: Seq<Instruction>, max_fuel: u16, data: Seq<u8>) -> Seq<u8> {
    magic_bytes() + u16_le(1) + u16_le(max_fuel) + u32_le(data.len() as u32) + u32_le(code.len() as u32)
        + data + Seq::new(padding_len(data.len() as int) as nat, |i: int| 0u8) + code_bytes(code)
}

/// The program that an SGB image holds, or the reason it is refused.
pub open spec fn sgb_parse(b: Seq<u8>) -> Result<(Seq<Instruction>, u16, Seq<u8>), SgbFault> {
    if b.len() < 16 {
        Err(SgbFault::TooSmall)
    } else if b.subrange(0, 4) != magic_bytes() {
        Err(SgbFault::BadMagic)
    } else if le_u16(b[4], b[5]) != 1 {
        Err(SgbFault::BadVersion)
    } else {
        let fuel = le_u16(b[6], b[7]);
        let data_len = le_u32(b[8], b[9], b[10], b[11]) as int;
        let code_len = le_u32(b[12], b[13], b[14], b[15]) as int;
        let pad = padding_len(data_len);
        if b.len() < 16 + data_len + pad + 4 * code_len {
            Err(SgbFault::Truncated)
        } else {
            let code_start = 16 + data_len + pad;
            let code = Seq::new(
                code_len as nat,
                |i: int|
                    Instruction(
                        le_u32(
                            b[code_start + 4 * i],
                            b[code_start + 4 * i + 1],
                            b[code_start + 4 * i + 2],
                            b[code_start + 4 * i + 3],
                        ),
                    ),
            );
            Ok((code, fuel, b.subrange(16, 16 + data_len)))
        }
    }
}

/// Why an SGB image is refused.
pub enum SgbFault {
    TooSmall,
    BadMagic,
    BadVersion,
    Truncated,
}

/// The message that `deserialize_sgb` gives for each refusal.
pub open spec fn fault_message(f: SgbFault) -> Seq<char> {
    match f {
        SgbFault::TooSmall => "Buffer too small"@,
        SgbFault::BadMagic => "Invalid magic number"@,
        SgbFault::BadVersion => "Unsupported version"@,
        SgbFault::Truncated => "Unexpected EOF / file truncated"@,
    }
}

fn push_u16(out: &mut Vec<u8>, v: u16)
    ensures
        final(out)@ == old(out)@ + u16_le(v),
{
    out.push((v & 0xff) as u8);
    out.push(((v >> 8) & 0xff) as u8);
    proof {
        assert(final(out)@ =~= old(out)@ + u16_le(v));
    }
}

fn push_u32(out: &mut Vec<u8>, v: u32)
    ensures
        final(out)@ == old(out)@ + u32_le(v),
{
    out.push((v & 0xff) as u8);
    out.push(((v >> 8) & 0xff) as u8);
    out.push(((v >> 16) & 0xff) as u8);
    out.push(((v >> 24) & 0xff) as u8);
    proof {
        assert(final(out)@ =~= old(out)@ + u32_le(v));
    }
}

/// Serializes instructions, the fuel budget and a data segment into the SGB
/// format; lengths are stored as 32-bit values.
pub fn serialize_sgb(code: &[Instruction], max_fuel: u16, data_segment: &[u8]) -> (r: Vec<u8>)
    ensures
        r@ == sgb_image(code@, max_fuel, data_segment@),
{
    let mut out: Vec<u8> = Vec::new();
    out.push(0x7F);
    out.push(0x53);
    out.push(0x47);
    out.push(0x4F);
    proof {
        assert(out@ =~= magic_bytes());
    }
    push_u16(&mut out, 1);
    push_u16(&mut out, max_fuel);
    push_u32(&mut out, data_segment.len() as u32);
    push_u32(&mut out, code.len() as u32);
    let ghost header = out@;
    let mut i: usize = 0;
    while i < data_segment.len()
        invariant
            i <= data_segment@.len(),
            out@ == header + data_segment@.take(i as int),
        decreases data_segment@.len() - i,
    {
        out.push(data_segment[i]);
        i = i + 1;
        proof {
            assert(data_segment@.take(i as int) =~= data_segment@.take(i - 1).push(data_segment@[i - 1]));
            assert(out@ =~= header + data_segment@.take(i as int));
        }
    }
    proof {
        assert(data_segment@.take(data_segment@.len() as int) =~= data_segment@);
    }
    let ghost with_data = out@;
    let padding = (4 - (data_segment.len() % 4)) % 4;
    let mut p: usize = 0;
    while p < padding
        invariant
            p <= padding,
            padding == padding_len(data_segment@.len() as int),
            out@ == with_data + Seq::new(p as nat, |k: int| 0u8),
        decreases padding - p,
    {
        out.push(0);
        p = p + 1;
        proof {
            assert(out@ =~= with_data + Seq::new(p as nat, |k: int| 0u8));
        }
    }
    let ghost with_pad = out@;
    let mut j: usize = 0;
    while j < code.len()
        invariant
            j <= code@.len(),
            out@ == with_pad + code_bytes(code@.take(j as int)),
        decreases code@.len() - j,
    {
        let ghost before = out@;
        push_u32(&mut out, code[j].0);
        j = j + 1;
        proof {
            let t = code@.take(j as int);
            let t0 = code@.take(j - 1);
            assert(code_bytes(t) =~= code_bytes(t0) + u32_le(code@[j - 1].0)) by {
                assert forall|k: int| 0 <= k < code_bytes(t).len() implies code_bytes(t)[k] == (code_bytes(t0) + u32_le(code@[j - 1].0))[k] by {
                    if k < 4 * (j - 1) {
                        assert(k / 4 < j - 1) by (nonlinear_arith)
                            requires 0 <= k < 4 * (j - 1);
                    } else {
                        assert(k / 4 == j - 1 && k % 4 == k - 4 * (j - 1)) by (nonlinear_arith)
                            requires 4 * (j - 1) <= k < 4 * j;
                    }
                }
            }
            assert(out@ =~= with_pad + code_bytes(t));
        }
    }
    proof {
        assert(code@.take(code@.len() as int) =~= code@);
        assert(out@ =~= sgb_image(code@, max_fuel, data_segment@));
    }
    out
}

/// Deserializes an SGB image into instructions, the fuel budget and the data
/// segment, refusing short buffers, a wrong magic number, versions other
/// than 1 and truncated segments.
pub fn deserialize_sgb(bytes: &[u8]) -> (r: Result<(Vec<Instruction>, u16, Vec<u8>), &'static str>)
    ensures
        match sgb_parse(bytes@) {
            Ok((code, fuel, data)) => r is Ok && r->Ok_0.0@ == code && r->Ok_0.1 == fuel && r->Ok_0.2@
                == data,
            Err(f) => r is Err && r->Err_0@ == fault_message(f),
        },
{
    if bytes.len() < 16 {
        return Err("Buffer too small");
    }
    if bytes[0] != 0x7F || bytes[1] != 0x53 || bytes[2] != 0x47 || bytes[3] != 0x4F {
        proof {
            assert(bytes@.subrange(0, 4) != magic_bytes()) by {
                if bytes@.subrange(0, 4) == magic_bytes() {
                    assert(bytes@.subrange(0, 4)[0] == bytes@[0]);
                    assert(bytes@.subrange(0, 4)[1] == bytes@[1]);
                    assert(bytes@.subrange(0, 4)[2] == bytes@[2]);
                    assert(bytes@.subrange(0, 4)[3] == bytes@[3]);
                }
            }
        }
        return Err("Invalid magic number");
    }
    proof {
        assert(bytes@.subrange(0, 4) =~= magic_bytes());
    }
    let version = (bytes[4] as u16) | ((bytes[5] as u16) << 8);
    if version != 1 {
        return Err("Unsupported version");
    }
    let max_fuel = (bytes[6] as u16) | ((bytes[7] as u16) << 8);
    let data_len32 = (bytes[8] as u32) | ((bytes[9] as u32) << 8) | ((bytes[10] as u32) << 16) | ((
    bytes[11] as u32) << 24);
    let code_len32 = (bytes[12] as u32) | ((bytes[13] as u32) << 8) | ((bytes[14] as u32) << 16) | ((
    bytes[15] as u32) << 24);
    let padding32 = (4 - data_len32 % 4) % 4;
    let expected: u64 = 16 + data_len32 as u64 + padding32 as u64 + 4 * (code_len32 as u64);
    if (bytes.len() as u64) < expected {
        return Err("Unexpected EOF / file truncated");
    }
    let data_len = data_len32 as usize;
    let code_len = code_len32 as usize;
    let padding = padding32 as usize;
    let data_end = 16 + data_len;
    let mut data: Vec<u8> = Vec::new();
    let mut i: usize = 16;
    while i < data_end
        invariant
            16 <= i <= data_end,
            data_end <= bytes@.len(),
            data@ =~= bytes@.subrange(16, i as int),
        decreases data_end - i,
    {
        data.push(bytes[i]);
        i = i + 1;
    }
    let code_start = data_end + padding;
    let blen = bytes.len();
    assert(code_start + 4 * code_len <= blen);
    let mut code: Vec<Instruction> = Vec::new();
    let mut k: usize = 0;
    while k < code_len
        invariant
            k <= code_len,
            blen == bytes@.len(),
            code_start + 4 * code_len <= blen,
            code@ =~= Seq::new(
                k as nat,
                |n: int|
                    Instruction(
                        le_u32(
                            bytes@[code_start + 4 * n],
                            bytes@[code_start + 4 * n + 1],
                            bytes@[code_start + 4 * n + 2],
                            bytes@[code_start + 4 * n + 3],
                        ),
                    ),
            ),
        decreases code_len - k,
    {
        assert(4 * k + 4 <= 4 * code_len) by (nonlinear_arith)
            requires k < code_len;
        let off = code_start + 4 * k;
        let w = (bytes[off] as u32) | ((bytes[off + 1] as u32) << 8) | ((bytes[off + 2] as u32) << 16)
            | ((bytes[off + 3] as u32) << 24);
        code.push(Instruction(w));
        k = k + 1;
    }
    Ok((code, max_fuel, data))
}


/// Reading back the little-endian bytes of a 16-bit value gives the value.
pub proof fn lemma_u16_le_roundtrip(v: u16)
    ensures
        le_u16(u16_le(v)[0], u16_le(v)[1]) == v,
{
    assert(((v & 0xff) as u8 as u16) | ((((v >> 8u16) & 0xff) as u8 as u16) << 8u16) == v) by (bit_vector);
}

/// Reading back the little-endian bytes of a 32-bit value gives the value.
pub proof fn lemma_u32_le_roundtrip(v: u32)
    ensures
        le_u32(u32_le(v)[0], u32_le(v)[1], u32_le(v)[2], u32_le(v)[3]) == v,
{
    assert(((v & 0xff) as u8 as u32) | ((((v >> 8u32) & 0xff) as u8 as u32) << 8u32) | ((((v >> 16u32)
        & 0xff) as u8 as u32) << 16u32) | ((((v >> 24u32) & 0xff) as u8 as u32) << 24u32) == v)
        by (bit_vector);
}

/// Deserializing the SGB image of a program gives back its instructions, its
/// fuel budget and its data segment, whenever both lengths fit the 32-bit
/// size fields.
pub proof fn lemma_sgb_roundtrip(code: Seq<Instruction>, max_fuel: u16, data: Seq<u8>)
    requires
        code.len() <= u32::MAX,
        data.len() <= u32::MAX,
    ensures
        sgb_parse(sgb_image(code, max_fuel, data)) == Ok::<(Seq<Instruction>, u16, Seq<u8>), SgbFault>(
            (code, max_fuel, data),
        ),
{
    let b = sgb_image(code, max_fuel, data);
    let dl = data.len() as int;
    let pad = padding_len(dl);
    let head = magic_bytes() + u16_le(1) + u16_le(max_fuel) + u32_le(data.len() as u32) + u32_le(
        code.len() as u32,
    );
    let zeros = Seq::new(pad as nat, |i: int| 0u8);
    assert(head.len() == 16);
    assert(b =~= head + data + zeros + code_bytes(code));
    assert(b.subrange(0, 4) =~= magic_bytes());
    lemma_u16_le_roundtrip(1);
    lemma_u16_le_roundtrip(max_fuel);
    lemma_u32_le_roundtrip(data.len() as u32);
    lemma_u32_le_roundtrip(code.len() as u32);
    assert(b[4] == u16_le(1)[0] && b[5] == u16_le(1)[1]);
    assert(b[6] == u16_le(max_fuel)[0] && b[7] == u16_le(max_fuel)[1]);
    assert(b[8] == u32_le(data.len() as u32)[0] && b[9] == u32_le(data.len() as u32)[1]);
    assert(b[10] == u32_le(data.len() as u32)[2] && b[11] == u32_le(data.len() as u32)[3]);
    assert(b[12] == u32_le(code.len() as u32)[0] && b[13] == u32_le(code.len() as u32)[1]);
    assert(b[14] == u32_le(code.len() as u32)[2] && b[15] == u32_le(code.len() as u32)[3]);
    let data_len = le_u32(b[8], b[9], b[10], b[11]) as int;
    let code_len = le_u32(b[12], b[13], b[14], b[15]) as int;
    assert(data_len == dl);
    assert(code_len == code.len());
    assert(b.subrange(16, 16 + dl) =~= data);
    let code_start = 16 + dl + pad;
    let parsed = Seq::new(
        code_len as nat,
        |i: int|
            Instruction(
                le_u32(
                    b[code_start + 4 * i],
                    b[code_start + 4 * i + 1],
                    b[code_start + 4 * i + 2],
                    b[code_start + 4 * i + 3],
                ),
            ),
    );
    assert forall|i: int| 0 <= i < code.len() implies parsed[i] == code[i] by {
        let cb = code_bytes(code);
        assert(4 * i + 3 < 4 * code.len()) by (nonlinear_arith)
            requires 0 <= i < code.len();
        assert((4 * i) / 4 == i && (4 * i) % 4 == 0) by (nonlinear_arith)
            requires 0 <= i;
        assert((4 * i + 1) / 4 == i && (4 * i + 1) % 4 == 1) by (nonlinear_arith)
            requires 0 <= i;
        assert((4 * i + 2) / 4 == i && (4 * i + 2) % 4 == 2) by (nonlinear_arith)
            requires 0 <= i;
        assert((4 * i + 3) / 4 == i && (4 * i + 3) % 4 == 3) by (nonlinear_arith)
            requires 0 <= i;
        assert(b[code_start + 4 * i] == cb[4 * i]);
        assert(b[code_start + 4 * i + 1] == cb[4 * i + 1]);
        assert(b[code_start + 4 * i + 2] == cb[4 * i + 2]);
        assert(b[code_start + 4 * i + 3] == cb[4 * i + 3]);
        lemma_u32_le_roundtrip(code[i].0);
    }
    assert(parsed =~= code);
}

/// The instruction words of a program, each little-endian, one after the
/// other (the raw code image that `--build` writes).
pub fn encode_code(code: &[Instruction]) -> (r: Vec<u8>)
    ensures
        r@ == code_bytes(code@),
{
    let mut out: Vec<u8> = Vec::new();
    let mut j: usize = 0;
    while j < code.len()
        invariant
            j <= code@.len(),
            out@ == code_bytes(code@.take(j as int)),
        decreases code@.len() - j,
    {
        push_u32(&mut out, code[j].0);
        j = j + 1;
        proof {
            let t = code@.take(j as int);
            let t0 = code@.take(j - 1);
            assert(code_bytes(t) =~= code_bytes(t0) + u32_le(code@[j - 1].0)) by {
                assert forall|k: int| 0 <= k < code_bytes(t).len() implies code_bytes(t)[k] == (code_bytes(t0) + u32_le(code@[j - 1].0))[k] by {
                    if k < 4 * (j - 1) {
                        assert(k / 4 < j - 1) by (nonlinear_arith)
                            requires 0 <= k < 4 * (j - 1);
                    } else {
                        assert(k / 4 == j - 1 && k % 4 == k - 4 * (j - 1)) by (nonlinear_arith)
                            requires 4 * (j - 1) <= k < 4 * j;
                    }
                }
            }
        }
    }
    proof {
        assert(code@.take(code@.len() as int) =~= code@);
    }
    out
}

} // verus!
