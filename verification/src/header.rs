//! Fixed-layout database-file header codec: serializing a `FileHeader` to its
//! exact on-disk byte layout (big-endian multi-byte fields), decoding a byte
//! buffer back into a `FileHeader` after validating the 16-byte magic
//! signature, and building the initial one-page file image.

use vstd::arithmetic::div_mod::{lemma_div_denominator, lemma_fundamental_div_mod};
use vstd::prelude::*;

verus! {

/// Failures of header decoding: the magic signature does not match, or the
/// buffer ends before the 100-byte required prefix does.
#[derive(Debug, PartialEq, Eq, Structural, Clone, Copy)]
pub enum HeaderError {
    InvalidHeader,
    TooShort,
}

/// The fixed 100-byte header record (plus the 4-byte trailing engine version
/// field) describing a storage file's geometry and metadata. The magic
/// signature is not a field: encoding always writes the fixed signature and
/// decoding validates and discards it.
#[derive(Debug, PartialEq, Eq, Structural, Clone, Copy)]
pub struct FileHeader {
    pub page_size: u16,
    pub write_version: u8,
    pub read_version: u8,
    pub reserved_space_per_page: u8,
    pub max_payload_fraction: u8,
    pub min_payload_fraction: u8,
    pub leaf_payload_fraction: u8,
    pub change_counter: u32,
    pub page_count: u32,
    pub freelist_trunk_page: u32,
    pub freelist_page_count: u32,
    pub schema_cookie: u32,
    pub schema_format: u32,
    pub default_cache_size: u32,
    pub vacuum_root_page: u32,
    pub text_encoding: u32,
    pub user_version: u32,
    pub incremental_vacuum_mode: u32,
    pub application_id: u32,
    pub version_valid_for: u32,
    pub engine_version_number: u32,
}

/// The fixed 16-byte magic signature that opens every valid file.
pub open spec fn magic_bytes() -> Seq<u8> {
    seq![
        0x53u8,
        0x51u8,
        0x4cu8,
        0x69u8,
        0x74u8,
        0x65u8,
        0x20u8,
        0x66u8,
        0x6fu8,
        0x72u8,
        0x6du8,
        0x61u8,
        0x74u8,
        0x20u8,
        0x33u8,
        0x00u8,
    ]
}

/// A buffer opens with the magic signature.
pub open spec fn magic_ok(b: Seq<u8>) -> bool {
    b.len() >= 16 && (forall|i: int| 0 <= i < 16 ==> b[i] == magic_bytes()[i])
}

/// The two big-endian bytes of a 16-bit value.
pub open spec fn be16(x: u16) -> Seq<u8> {
    seq![(x / 0x100) as u8, (x % 0x100) as u8]
}

/// The four big-endian bytes of a 32-bit value.
pub open spec fn be32(x: u32) -> Seq<u8> {
    seq![
        (x / 0x100_0000) as u8,
        ((x / 0x1_0000) % 0x100) as u8,
        ((x / 0x100) % 0x100) as u8,
        (x % 0x100) as u8,
    ]
}

/// The 16-bit value stored big-endian at offset `i` of `b`.
pub open spec fn read_be16(b: Seq<u8>, i: int) -> u16 {
    (b[i] * 0x100 + b[i + 1]) as u16
}

/// The 32-bit value stored big-endian at offset `i` of `b`.
pub open spec fn read_be32(b: Seq<u8>, i: int) -> u32 {
    (b[i] * 0x100_0000 + b[i + 1] * 0x1_0000 + b[i + 2] * 0x100 + b[i + 3]) as u32
}

/// The exact 104-byte on-disk layout of a header: magic at 0, page size at
/// 16, the six one-byte fields at 18..24, the big-endian 32-bit fields from
/// 24 on (with four reserved zero bytes at 28 and twenty at 76), and the
/// engine version number trailing at 100.
pub open spec fn spec_header_bytes(h: FileHeader) -> Seq<u8> {
    magic_bytes() + be16(h.page_size) + seq![
        h.write_version,
        h.read_version,
        h.reserved_space_per_page,
        h.max_payload_fraction,
        h.min_payload_fraction,
        h.leaf_payload_fraction,
    ] + be32(h.change_counter) + be32(0) + be32(h.page_count) + be32(h.freelist_trunk_page) + be32(
        h.freelist_page_count,
    ) + be32(h.schema_cookie) + be32(h.schema_format) + be32(h.default_cache_size) + be32(
        h.vacuum_root_page,
    ) + be32(h.text_encoding) + be32(h.user_version) + be32(h.incremental_vacuum_mode) + be32(
        h.application_id,
    ) + Seq::new(20, |i: int| 0u8) + be32(h.version_valid_for) + be32(h.engine_version_number)
}

/// Decoding a byte buffer: the magic signature is validated first; a buffer
/// shorter than the 100-byte required prefix is rejected; the trailing
/// engine version field is best-effort (zero when the buffer ends at 100).
/// Content beyond byte 104 is ignored.
pub open spec fn spec_decode(b: Seq<u8>) -> Result<FileHeader, HeaderError> {
    if !magic_ok(b) {
        Err(HeaderError::InvalidHeader)
    } else if b.len() < 100 {
        Err(HeaderError::TooShort)
    } else {
        Ok(
            FileHeader {
                page_size: read_be16(b, 16),
                write_version: b[18],
                read_version: b[19],
                reserved_space_per_page: b[20],
                max_payload_fraction: b[21],
                min_payload_fraction: b[22],
                leaf_payload_fraction: b[23],
                change_counter: read_be32(b, 24),
                page_count: read_be32(b, 32),
                freelist_trunk_page: read_be32(b, 36),
                freelist_page_count: read_be32(b, 40),
                schema_cookie: read_be32(b, 44),
                schema_format: read_be32(b, 48),
                default_cache_size: read_be32(b, 52),
                vacuum_root_page: read_be32(b, 56),
                text_encoding: read_be32(b, 60),
                user_version: read_be32(b, 64),
                incremental_vacuum_mode: read_be32(b, 68),
                application_id: read_be32(b, 72),
                version_valid_for: read_be32(b, 96),
                engine_version_number: if b.len() >= 104 {
                    read_be32(b, 100)
                } else {
                    0
                },
            },
        )
    }
}

/// The full initial file image: the 104 header bytes padded with zeros to
/// exactly one page.
pub open spec fn spec_database_image(h: FileHeader) -> Seq<u8> {
    spec_header_bytes(h) + Seq::new((h.page_size - 104) as nat, |i: int| 0u8)
}

/// The fixed field values the write path chooses for a fresh file.
pub open spec fn spec_minimal_header() -> FileHeader {
    FileHeader {
        page_size: 4096,
        write_version: 1,
        read_version: 1,
        reserved_space_per_page: 0,
        max_payload_fraction: 64,
        min_payload_fraction: 32,
        leaf_payload_fraction: 32,
        change_counter: 0,
        page_count: 1,
        freelist_trunk_page: 0,
        freelist_page_count: 0,
        schema_cookie: 1,
        schema_format: 1,
        default_cache_size: 0,
        vacuum_root_page: 0,
        text_encoding: 1,
        user_version: 0,
        incremental_vacuum_mode: 0,
        application_id: 0,
        version_valid_for: 0,
        engine_version_number: 3037000,
    }
}

/// The minimal valid header the write path serializes.
pub fn minimal_header() -> (h: FileHeader)
    ensures
        h == spec_minimal_header(),
{
    FileHeader {
        page_size: 4096,
        write_version: 1,
        read_version: 1,
        reserved_space_per_page: 0,
        max_payload_fraction: 64,
        min_payload_fraction: 32,
        leaf_payload_fraction: 32,
        change_counter: 0,
        page_count: 1,
        freelist_trunk_page: 0,
        freelist_page_count: 0,
        schema_cookie: 1,
        schema_format: 1,
        default_cache_size: 0,
        vacuum_root_page: 0,
        text_encoding: 1,
        user_version: 0,
        incremental_vacuum_mode: 0,
        application_id: 0,
        version_valid_for: 0,
        engine_version_number: 3037000,
    }
}

/// The `i`th byte of the magic signature.
fn magic_byte(i: usize) -> (r: u8)
    requires
        i < 16,
    ensures
        r == magic_bytes()[i as int],
{
    if i == 0 {
        0x53
    } else if i == 1 {
        0x51
    } else if i == 2 {
        0x4c
    } else if i == 3 {
        0x69
    } else if i == 4 {
        0x74
    } else if i == 5 {
        0x65
    } else if i == 6 {
        0x20
    } else if i == 7 {
        0x66
    } else if i == 8 {
        0x6f
    } else if i == 9 {
        0x72
    } else if i == 10 {
        0x6d
    } else if i == 11 {
        0x61
    } else if i == 12 {
        0x74
    } else if i == 13 {
        0x20
    } else if i == 14 {
        0x33
    } else {
        0x00
    }
}

fn push_magic(v: &mut Vec<u8>)
    ensures
        final(v)@ == old(v)@ + magic_bytes(),
{
    let mut i: usize = 0;
    while i < 16
        invariant
            i <= 16,
            v@ == old(v)@ + magic_bytes().subrange(0, i as int),
        decreases 16 - i,
    {
        v.push(magic_byte(i));
        proof {
            assert(v@ =~= old(v)@ + magic_bytes().subrange(0, i + 1));
        }
        i += 1;
    }
    proof {
        assert(v@ =~= old(v)@ + magic_bytes());
    }
}

fn push_be16(v: &mut Vec<u8>, x: u16)
    ensures
        final(v)@ == old(v)@ + be16(x),
{
    v.push((x / 0x100) as u8);
    v.push((x % 0x100) as u8);
    proof {
        assert(v@ =~= old(v)@ + be16(x));
    }
}

fn push_be32(v: &mut Vec<u8>, x: u32)
    ensures
        final(v)@ == old(v)@ + be32(x),
{
    v.push((x / 0x100_0000) as u8);
    v.push(((x / 0x1_0000) % 0x100) as u8);
    v.push(((x / 0x100) % 0x100) as u8);
    v.push((x % 0x100) as u8);
    proof {
        assert(v@ =~= old(v)@ + be32(x));
    }
}

fn push_zero_bytes(v: &mut Vec<u8>, count: usize)
    ensures
        final(v)@ == old(v)@ + Seq::new(count as nat, |i: int| 0u8),
{
    let mut i: usize = 0;
    while i < count
        invariant
            i <= count,
            v@ == old(v)@ + Seq::new(i as nat, |j: int| 0u8),
        decreases count - i,
    {
        v.push(0);
        proof {
            assert(v@ =~= old(v)@ + Seq::new((i + 1) as nat, |j: int| 0u8));
        }
        i += 1;
    }
}

/// The exact 104 header bytes of `h`, per the fixed on-disk layout.
pub fn encode_header(h: &FileHeader) -> (r: Vec<u8>)
    ensures
        r@ == spec_header_bytes(*h),
        r@.len() == 104,
{
    let mut v: Vec<u8> = Vec::new();
    push_magic(&mut v);
    proof {
        assert(v@ =~= magic_bytes());
    }
    push_be16(&mut v, h.page_size);
    v.push(h.write_version);
    v.push(h.read_version);
    v.push(h.reserved_space_per_page);
    v.push(h.max_payload_fraction);
    v.push(h.min_payload_fraction);
    v.push(h.leaf_payload_fraction);
    proof {
        assert(v@ =~= magic_bytes() + be16(h.page_size) + seq![
            h.write_version,
            h.read_version,
            h.reserved_space_per_page,
            h.max_payload_fraction,
            h.min_payload_fraction,
            h.leaf_payload_fraction,
        ]);
    }
    push_be32(&mut v, h.change_counter);
    push_be32(&mut v, 0);
    push_be32(&mut v, h.page_count);
    push_be32(&mut v, h.freelist_trunk_page);
    push_be32(&mut v, h.freelist_page_count);
    push_be32(&mut v, h.schema_cookie);
    push_be32(&mut v, h.schema_format);
    push_be32(&mut v, h.default_cache_size);
    push_be32(&mut v, h.vacuum_root_page);
    push_be32(&mut v, h.text_encoding);
    push_be32(&mut v, h.user_version);
    push_be32(&mut v, h.incremental_vacuum_mode);
    push_be32(&mut v, h.application_id);
    push_zero_bytes(&mut v, 20);
    push_be32(&mut v, h.version_valid_for);
    push_be32(&mut v, h.engine_version_number);
    proof {
        assert(v@ == spec_header_bytes(*h));
        assert(v@.len() == 104);
    }
    v
}

/// The full initial file image for `h`: the 104 header bytes, zero-padded to
/// exactly one page of `h.page_size` bytes.
pub fn build_database_image(h: &FileHeader) -> (r: Vec<u8>)
    requires
        h.page_size >= 104,
    ensures
        r@ == spec_database_image(*h),
        r@.len() == h.page_size,
{
    let mut v = encode_header(h);
    let pad: usize = (h.page_size - 104) as usize;
    push_zero_bytes(&mut v, pad);
    v
}

fn read_u16_be(bytes: &Vec<u8>, i: usize) -> (r: u16)
    requires
        i + 2 <= bytes@.len(),
    ensures
        r == read_be16(bytes@, i as int),
{
    let _n = bytes.len();  // the length bounds the indices, so the index sums below fit in usize
    let b0 = bytes[i];
    let b1 = bytes[i + 1];
    b0 as u16 * 0x100 + b1 as u16
}

fn read_u32_be(bytes: &Vec<u8>, i: usize) -> (r: u32)
    requires
        i + 4 <= bytes@.len(),
    ensures
        r == read_be32(bytes@, i as int),
{
    let _n = bytes.len();  // the length bounds the indices, so the index sums below fit in usize
    let b0 = bytes[i];
    let b1 = bytes[i + 1];
    let b2 = bytes[i + 2];
    let b3 = bytes[i + 3];
    b0 as u32 * 0x100_0000 + b1 as u32 * 0x1_0000 + b2 as u32 * 0x100 + b3 as u32
}

/// Decode the header at the front of `bytes`: validate the magic signature
/// (else `InvalidHeader`), require the 100-byte prefix (else `TooShort`), and
/// read every field at its fixed offset; trailing content is ignored.
pub fn decode_header(bytes: &Vec<u8>) -> (r: Result<FileHeader, HeaderError>)
    ensures
        r == spec_decode(bytes@),
        r is Ok <==> magic_ok(bytes@) && bytes@.len() >= 100,
        r == Err::<FileHeader, HeaderError>(HeaderError::InvalidHeader) <==> !magic_ok(bytes@),
{
    let n = bytes.len();
    if n < 16 {
        return Err(HeaderError::InvalidHeader);
    }
    let mut i: usize = 0;
    while i < 16
        invariant
            i <= 16,
            n == bytes@.len(),
            n >= 16,
            forall|j: int| 0 <= j < i ==> bytes@[j] == magic_bytes()[j],
        decreases 16 - i,
    {
        if bytes[i] != magic_byte(i) {
            return Err(HeaderError::InvalidHeader);
        }
        i += 1;
    }
    if n < 100 {
        return Err(HeaderError::TooShort);
    }
    let engine_version_number = if n >= 104 {
        read_u32_be(bytes, 100)
    } else {
        0
    };
    Ok(
        FileHeader {
            page_size: read_u16_be(bytes, 16),
            write_version: bytes[18],
            read_version: bytes[19],
            reserved_space_per_page: bytes[20],
            max_payload_fraction: bytes[21],
            min_payload_fraction: bytes[22],
            leaf_payload_fraction: bytes[23],
            change_counter: read_u32_be(bytes, 24),
            page_count: read_u32_be(bytes, 32),
            freelist_trunk_page: read_u32_be(bytes, 36),
            freelist_page_count: read_u32_be(bytes, 40),
            schema_cookie: read_u32_be(bytes, 44),
            schema_format: read_u32_be(bytes, 48),
            default_cache_size: read_u32_be(bytes, 52),
            vacuum_root_page: read_u32_be(bytes, 56),
            text_encoding: read_u32_be(bytes, 60),
            user_version: read_u32_be(bytes, 64),
            incremental_vacuum_mode: read_u32_be(bytes, 68),
            application_id: read_u32_be(bytes, 72),
            version_valid_for: read_u32_be(bytes, 96),
            engine_version_number,
        },
    )
}

proof fn lemma_be16_round(x: u16)
    ensures
        read_be16(be16(x), 0) == x,
{
    lemma_fundamental_div_mod(x as int, 0x100);
}

proof fn lemma_be32_round(x: u32)
    ensures
        read_be32(be32(x), 0) == x,
{
    let q1 = x as int / 0x100;
    let q2 = x as int / 0x1_0000;
    let q3 = x as int / 0x100_0000;
    lemma_fundamental_div_mod(x as int, 0x100);
    lemma_fundamental_div_mod(q1, 0x100);
    lemma_fundamental_div_mod(q2, 0x100);
    lemma_div_denominator(x as int, 0x100, 0x100);
    lemma_div_denominator(x as int, 0x1_0000, 0x100);
    assert(q1 / 0x100 == q2);
    assert(q2 / 0x100 == q3);
    assert(x as int == q3 * 0x100_0000 + (q2 % 0x100) * 0x1_0000 + (q1 % 0x100) * 0x100 + x as int
        % 0x100);
}

proof fn lemma_be32_field(b: Seq<u8>, off: int, x: u32)
    requires
        0 <= off,
        off + 4 <= b.len(),
        b[off] == be32(x)[0],
        b[off + 1] == be32(x)[1],
        b[off + 2] == be32(x)[2],
        b[off + 3] == be32(x)[3],
    ensures
        read_be32(b, off) == x,
{
    lemma_be32_round(x);
}

/// The serialized header decodes back to exactly the header it was built
/// from: the magic validates, and every field round-trips.
#[verifier::rlimit(100)]
pub proof fn lemma_header_round_trip(h: FileHeader)
    ensures
        spec_decode(spec_header_bytes(h)) == Ok::<FileHeader, HeaderError>(h),
        spec_header_bytes(h).len() == 104,
{
    let m = magic_bytes();
    let p1 = m + be16(h.page_size);
    let p2 = p1 + seq![
        h.write_version,
        h.read_version,
        h.reserved_space_per_page,
        h.max_payload_fraction,
        h.min_payload_fraction,
        h.leaf_payload_fraction,
    ];
    let p3 = p2 + be32(h.change_counter);
    let p4 = p3 + be32(0);
    let p5 = p4 + be32(h.page_count);
    let p6 = p5 + be32(h.freelist_trunk_page);
    let p7 = p6 + be32(h.freelist_page_count);
    let p8 = p7 + be32(h.schema_cookie);
    let p9 = p8 + be32(h.schema_format);
    let p10 = p9 + be32(h.default_cache_size);
    let p11 = p10 + be32(h.vacuum_root_page);
    let p12 = p11 + be32(h.text_encoding);
    let p13 = p12 + be32(h.user_version);
    let p14 = p13 + be32(h.incremental_vacuum_mode);
    let p15 = p14 + be32(h.application_id);
    let p16 = p15 + Seq::new(20, |i: int| 0u8);
    let p17 = p16 + be32(h.version_valid_for);
    let b = p17 + be32(h.engine_version_number);
    assert(b == spec_header_bytes(h));
    assert(m.len() == 16);
    assert(p1.len() == 18);
    assert(p2.len() == 24);
    assert(p3.len() == 28);
    assert(p4.len() == 32);
    assert(p5.len() == 36);
    assert(p6.len() == 40);
    assert(p7.len() == 44);
    assert(p8.len() == 48);
    assert(p9.len() == 52);
    assert(p10.len() == 56);
    assert(p11.len() == 60);
    assert(p12.len() == 64);
    assert(p13.len() == 68);
    assert(p14.len() == 72);
    assert(p15.len() == 76);
    assert(p16.len() == 96);
    assert(p17.len() == 100);
    assert(b.len() == 104);
    assert forall|i: int| 0 <= i < 16 implies b[i] == magic_bytes()[i] by {
        assert(b[i] == m[i]);
    }
    assert(magic_ok(b));
    assert(b[16] == be16(h.page_size)[0] && b[17] == be16(h.page_size)[1]);
    lemma_be16_round(h.page_size);
    assert(read_be16(b, 16) == h.page_size);
    assert(b[18] == h.write_version);
    assert(b[19] == h.read_version);
    assert(b[20] == h.reserved_space_per_page);
    assert(b[21] == h.max_payload_fraction);
    assert(b[22] == h.min_payload_fraction);
    assert(b[23] == h.leaf_payload_fraction);
    let cc = be32(h.change_counter);
    assert(b[24] == cc[0] && b[25] == cc[1] && b[26] == cc[2] && b[27] == cc[3]);
    lemma_be32_field(b, 24, h.change_counter);
    let pc = be32(h.page_count);
    assert(b[32] == pc[0] && b[33] == pc[1] && b[34] == pc[2] && b[35] == pc[3]);
    lemma_be32_field(b, 32, h.page_count);
    let ft = be32(h.freelist_trunk_page);
    assert(b[36] == ft[0] && b[37] == ft[1] && b[38] == ft[2] && b[39] == ft[3]);
    lemma_be32_field(b, 36, h.freelist_trunk_page);
    let fc = be32(h.freelist_page_count);
    assert(b[40] == fc[0] && b[41] == fc[1] && b[42] == fc[2] && b[43] == fc[3]);
    lemma_be32_field(b, 40, h.freelist_page_count);
    let sc = be32(h.schema_cookie);
    assert(b[44] == sc[0] && b[45] == sc[1] && b[46] == sc[2] && b[47] == sc[3]);
    lemma_be32_field(b, 44, h.schema_cookie);
    let sf = be32(h.schema_format);
    assert(b[48] == sf[0] && b[49] == sf[1] && b[50] == sf[2] && b[51] == sf[3]);
    lemma_be32_field(b, 48, h.schema_format);
    let dc = be32(h.default_cache_size);
    assert(b[52] == dc[0] && b[53] == dc[1] && b[54] == dc[2] && b[55] == dc[3]);
    lemma_be32_field(b, 52, h.default_cache_size);
    let vr = be32(h.vacuum_root_page);
    assert(b[56] == vr[0] && b[57] == vr[1] && b[58] == vr[2] && b[59] == vr[3]);
    lemma_be32_field(b, 56, h.vacuum_root_page);
    let te = be32(h.text_encoding);
    assert(b[60] == te[0] && b[61] == te[1] && b[62] == te[2] && b[63] == te[3]);
    lemma_be32_field(b, 60, h.text_encoding);
    let uv = be32(h.user_version);
    assert(b[64] == uv[0] && b[65] == uv[1] && b[66] == uv[2] && b[67] == uv[3]);
    lemma_be32_field(b, 64, h.user_version);
    let iv = be32(h.incremental_vacuum_mode);
    assert(b[68] == iv[0] && b[69] == iv[1] && b[70] == iv[2] && b[71] == iv[3]);
    lemma_be32_field(b, 68, h.incremental_vacuum_mode);
    let ai = be32(h.application_id);
    assert(b[72] == ai[0] && b[73] == ai[1] && b[74] == ai[2] && b[75] == ai[3]);
    lemma_be32_field(b, 72, h.application_id);
    let vv = be32(h.version_valid_for);
    assert(b[96] == vv[0] && b[97] == vv[1] && b[98] == vv[2] && b[99] == vv[3]);
    lemma_be32_field(b, 96, h.version_valid_for);
    let ev = be32(h.engine_version_number);
    assert(b[100] == ev[0] && b[101] == ev[1] && b[102] == ev[2] && b[103] == ev[3]);
    lemma_be32_field(b, 100, h.engine_version_number);
    assert(spec_decode(b) == Ok::<FileHeader, HeaderError>(h));
}

/// Decoding reads only the first 104 bytes: two buffers that agree there
/// decode alike.
proof fn lemma_decode_prefix(a: Seq<u8>, c: Seq<u8>)
    requires
        a.len() >= 104,
        c.len() >= 104,
        forall|i: int| 0 <= i < 104 ==> a[i] == c[i],
    ensures
        spec_decode(a) == spec_decode(c),
{
    assert forall|i: int| 0 <= i < 16 implies a[i] == magic_bytes()[i] <==> c[i]
        == magic_bytes()[i] by {
        assert(a[i] == c[i]);
    }
    assert(magic_ok(a) <==> magic_ok(c));
    if magic_ok(a) {
        assert(read_be16(a, 16) == read_be16(c, 16));
        assert(read_be32(a, 24) == read_be32(c, 24));
        assert(read_be32(a, 32) == read_be32(c, 32));
        assert(read_be32(a, 36) == read_be32(c, 36));
        assert(read_be32(a, 40) == read_be32(c, 40));
        assert(read_be32(a, 44) == read_be32(c, 44));
        assert(read_be32(a, 48) == read_be32(c, 48));
        assert(read_be32(a, 52) == read_be32(c, 52));
        assert(read_be32(a, 56) == read_be32(c, 56));
        assert(read_be32(a, 60) == read_be32(c, 60));
        assert(read_be32(a, 64) == read_be32(c, 64));
        assert(read_be32(a, 68) == read_be32(c, 68));
        assert(read_be32(a, 72) == read_be32(c, 72));
        assert(read_be32(a, 96) == read_be32(c, 96));
        assert(read_be32(a, 100) == read_be32(c, 100));
        assert(spec_decode(a) == spec_decode(c));
    }
}

/// The full one-page file image the write path produces decodes back to the
/// header it was built from: writing a fresh file and re-reading its header
/// reports exactly the fields that were written.
pub proof fn lemma_image_round_trip(h: FileHeader)
    requires
        h.page_size >= 104,
    ensures
        spec_decode(spec_database_image(h)) == Ok::<FileHeader, HeaderError>(h),
{
    let b = spec_header_bytes(h);
    let img = spec_database_image(h);
    lemma_header_round_trip(h);
    assert(b.len() == 104);
    assert(img.len() == h.page_size);
    assert forall|i: int| 0 <= i < 104 implies img[i] == b[i] by {
        assert(img[i] == b[i]);
    }
    lemma_decode_prefix(img, b);
}

} // verus!
