//! The GUID partition table: decoding the header (LBA 1) and the
//! partition entries from the bytes that the caller read off the disk.
use vstd::prelude::*;

verus! {

/// The size of a logical block.
pub const LB512: u64 = 512;

/// The bytes of the header that are decoded.
pub const GPT_HEADER_LEN: usize = 92;

/// The bytes of a partition entry.
pub const GPT_ENTRY_LEN: usize = 128;

/// The little-endian value of the two bytes of `s` at `off`.
pub open spec fn le16(s: Seq<u8>, off: int) -> int {
    s[off] + s[off + 1] * 0x100
}

/// The little-endian value of the four bytes of `s` at `off`.
pub open spec fn le32(s: Seq<u8>, off: int) -> int {
    le16(s, off) + le16(s, off + 2) * 0x1_0000
}

/// The little-endian value of the eight bytes of `s` at `off`.
pub open spec fn le64(s: Seq<u8>, off: int) -> int {
    le32(s, off) + le32(s, off + 4) * 0x1_0000_0000
}

fn read_le16(b: &[u8], off: usize) -> (r: u16)
    requires
        b@.len() <= usize::MAX,
        off + 2 <= b@.len(),
    ensures
        r == le16(b@, off as int),
{
    b[off] as u16 + b[off + 1] as u16 * 0x100
}

fn read_le32(b: &[u8], off: usize) -> (r: u32)
    requires
        b@.len() <= usize::MAX,
        off + 4 <= b@.len(),
    ensures
        r == le32(b@, off as int),
{
    let lo = read_le16(b, off);
    let hi = read_le16(b, off + 2);
    lo as u32 + hi as u32 * 0x1_0000
}

fn read_le64(b: &[u8], off: usize) -> (r: u64)
    requires
        b@.len() <= usize::MAX,
        off + 8 <= b@.len(),
    ensures
        r == le64(b@, off as int),
{
    let lo = read_le32(b, off);
    let hi = read_le32(b, off + 4);
    lo as u64 + hi as u64 * 0x1_0000_0000
}

fn read_bytes(b: &[u8], off: usize, len: usize) -> (r: Vec<u8>)
    requires
        b@.len() <= usize::MAX,
        off + len <= b@.len(),
    ensures
        r@ == b@.subrange(off as int, off + len),
{
    let mut v: Vec<u8> = Vec::new();
    let mut i: usize = 0;
    while i < len
        invariant
            b@.len() <= usize::MAX,
            off + len <= b@.len(),
            i <= len,
            v@ == b@.subrange(off as int, off + i),
        decreases len - i,
    {
        v.push(b[off + i]);
        i = i + 1;
        assert(v@ =~= b@.subrange(off as int, off + i));
    }
    v
}

/// A GUID as it is stored: a little-endian u32, two little-endian u16 and
/// eight bytes.
#[derive(Debug)]
pub struct Guid {
    pub d1: u32,
    pub d2: u16,
    pub d3: u16,
    pub d4: Vec<u8>,
}

/// Whether `g` is the GUID stored in the sixteen bytes of `s` at `off`.
pub open spec fn guid_at(g: Guid, s: Seq<u8>, off: int) -> bool {
    &&& g.d1 == le32(s, off)
    &&& g.d2 == le16(s, off + 4)
    &&& g.d3 == le16(s, off + 6)
    &&& g.d4@ == s.subrange(off + 8, off + 16)
}

fn read_guid(b: &[u8], off: usize) -> (g: Guid)
    requires
        b@.len() <= usize::MAX,
        off + 16 <= b@.len(),
    ensures
        guid_at(g, b@, off as int),
{
    Guid {
        d1: read_le32(b, off),
        d2: read_le16(b, off + 4),
        d3: read_le16(b, off + 6),
        d4: read_bytes(b, off + 8, 8),
    }
}

/// Whether `g` is the nil GUID 00000000-0000-0000-0000-000000000000,
/// which marks an unused partition entry.
pub fn guid_is_nil(g: &Guid) -> (r: bool)
    ensures
        r == (g.d1 == 0 && g.d2 == 0 && g.d3 == 0 && forall|i: int|
            0 <= i < g.d4@.len() ==> g.d4@[i] == 0),
{
    if g.d1 != 0 || g.d2 != 0 || g.d3 != 0 {
        return false;
    }
    let mut i: usize = 0;
    while i < g.d4.len()
        invariant
            i <= g.d4@.len(),
            forall|j: int| 0 <= j < i ==> g.d4@[j] == 0,
        decreases g.d4@.len() - i,
    {
        if g.d4[i] != 0 {
            return false;
        }
        i = i + 1;
    }
    true
}

/// The GPT header.
#[derive(Debug)]
pub struct GptHeader {
    pub signature: Vec<u8>,
    pub revision: u32,
    pub header_size: u32,
    pub header_crc32: u32,
    pub reserved: Vec<u8>,
    pub current_lba: u64,
    pub backup_lba: u64,
    pub first_usable_lba: u64,
    pub last_usable_lba: u64,
    pub disk_guid: Vec<u8>,
    pub part_start: u64,
    pub num_parts: u32,
    pub part_entry_size: u32,
    pub part_crc32: u32,
}

/// Whether `h` is the header stored at the start of `s`.
pub open spec fn header_of(h: GptHeader, s: Seq<u8>) -> bool {
    &&& h.signature@ == s.subrange(0, 8)
    &&& h.revision == le32(s, 8)
    &&& h.header_size == le32(s, 12)
    &&& h.header_crc32 == le32(s, 16)
    &&& h.reserved@ == s.subrange(20, 24)
    &&& h.current_lba == le64(s, 24)
    &&& h.backup_lba == le64(s, 32)
    &&& h.first_usable_lba == le64(s, 40)
    &&& h.last_usable_lba == le64(s, 48)
    &&& h.disk_guid@ == s.subrange(56, 72)
    &&& h.part_start == le64(s, 72)
    &&& h.num_parts == le32(s, 80)
    &&& h.part_entry_size == le32(s, 84)
    &&& h.part_crc32 == le32(s, 88)
}

/// Decodes the GPT header from the bytes `b` read at LBA 1; `None` when
/// fewer than `GPT_HEADER_LEN` bytes were read.
pub fn gpt_header(b: &[u8]) -> (r: Option<GptHeader>)
    ensures
        r is None <==> b@.len() < GPT_HEADER_LEN,
        r matches Some(h) ==> header_of(h, b@),
{
    if b.len() < GPT_HEADER_LEN {
        return None;
    }
    Some(
        GptHeader {
            signature: read_bytes(b, 0, 8),
            revision: read_le32(b, 8),
            header_size: read_le32(b, 12),
            header_crc32: read_le32(b, 16),
            reserved: read_bytes(b, 20, 4),
            current_lba: read_le64(b, 24),
            backup_lba: read_le64(b, 32),
            first_usable_lba: read_le64(b, 40),
            last_usable_lba: read_le64(b, 48),
            disk_guid: read_bytes(b, 56, 16),
            part_start: read_le64(b, 72),
            num_parts: read_le32(b, 80),
            part_entry_size: read_le32(b, 84),
            part_crc32: read_le32(b, 88),
        },
    )
}

/// The byte offset of the partition entries that start at LBA
/// `part_start`; `None` when it does not fit in 64 bits.
pub fn gpt_entries_offset(part_start: u64) -> (r: Option<u64>)
    ensures
        r is None <==> part_start * LB512 > u64::MAX,
        r matches Some(o) ==> o == part_start * LB512,
{
    part_start.checked_mul(LB512)
}

/// A partition entry.
#[derive(Debug)]
pub struct GptEntry {
    pub type_guid: Guid,
    pub part_guid: Guid,
    pub first_lba: u64,
    pub last_lba: u64,
    pub attributes: u64,
    pub name: Vec<u8>,
}

/// Whether `e` is the partition entry stored at the start of `s`.
pub open spec fn entry_of(e: GptEntry, s: Seq<u8>) -> bool {
    &&& guid_at(e.type_guid, s, 0)
    &&& guid_at(e.part_guid, s, 16)
    &&& e.first_lba == le64(s, 32)
    &&& e.last_lba == le64(s, 40)
    &&& e.attributes == le64(s, 48)
    &&& e.name@ == s.subrange(56, 128)
}

/// Decodes a partition entry from the bytes `b`; `None` when fewer than
/// `GPT_ENTRY_LEN` bytes were read.
pub fn gpt_entry(b: &[u8]) -> (r: Option<GptEntry>)
    ensures
        r is None <==> b@.len() < GPT_ENTRY_LEN,
        r matches Some(e) ==> entry_of(e, b@),
{
    if b.len() < GPT_ENTRY_LEN {
        return None;
    }
    Some(
        GptEntry {
            type_guid: read_guid(b, 0),
            part_guid: read_guid(b, 16),
            first_lba: read_le64(b, 32),
            last_lba: read_le64(b, 40),
            attributes: read_le64(b, 48),
            name: read_bytes(b, 56, 72),
        },
    )
}

/// Whether the entry is in use: its partition type is not the nil GUID.
pub fn gpt_entry_used(e: &GptEntry) -> (r: bool)
    ensures
        r == !(e.type_guid.d1 == 0 && e.type_guid.d2 == 0 && e.type_guid.d3 == 0 && forall|i: int|
            0 <= i < e.type_guid.d4@.len() ==> e.type_guid.d4@[i] == 0),
{
    !guid_is_nil(&e.type_guid)
}

/// The number that the bytes `t` hold in little-endian order: the first
/// byte is the least significant.
pub open spec fn le_value(t: Seq<u8>) -> nat
    decreases t.len(),
{
    if t.len() == 0 {
        0
    } else {
        (t[0] + 256 * le_value(t.drop_first())) as nat
    }
}

proof fn lemma_le_value_step(s: Seq<u8>, a: int, b: int)
    requires
        0 <= a < b <= s.len(),
    ensures
        le_value(s.subrange(a, b)) == s[a] + 256 * le_value(s.subrange(a + 1, b)),
{
    assert(s.subrange(a, b).drop_first() =~= s.subrange(a + 1, b));
}

proof fn lemma_le_value_2(s: Seq<u8>, off: int)
    requires
        0 <= off && off + 2 <= s.len(),
    ensures
        le_value(s.subrange(off, off + 2)) == le16(s, off),
{
    lemma_le_value_step(s, off, off + 2);
    lemma_le_value_step(s, off + 1, off + 2);
    assert(s.subrange(off + 2, off + 2).len() == 0);
}

proof fn lemma_le_value_split(s: Seq<u8>, off: int, n: int, k: int)
    requires
        0 <= off,
        0 <= k <= n,
        off + n <= s.len(),
    ensures
        le_value(s.subrange(off, off + n)) == le_value(s.subrange(off, off + k)) + pow256(k)
            * le_value(s.subrange(off + k, off + n)),
    decreases k,
{
    if k > 0 {
        lemma_le_value_step(s, off, off + n);
        lemma_le_value_step(s, off, off + k);
        lemma_le_value_split(s, off + 1, n - 1, k - 1);
        let x = le_value(s.subrange(off + 1, off + k));
        let y = le_value(s.subrange(off + k, off + n));
        let p = pow256(k - 1);
        assert(256 * (x + p * y) == 256 * x + (256 * p) * y) by (nonlinear_arith);
    }
}

/// 256 to the power `k`.
pub open spec fn pow256(k: int) -> int
    decreases k,
{
    if k <= 0 {
        1
    } else {
        256 * pow256(k - 1)
    }
}

proof fn lemma_le_value_4(s: Seq<u8>, off: int)
    requires
        0 <= off && off + 4 <= s.len(),
    ensures
        le_value(s.subrange(off, off + 4)) == le32(s, off),
{
    lemma_le_value_split(s, off, 4, 2);
    lemma_le_value_2(s, off);
    lemma_le_value_2(s, off + 2);
    assert(pow256(2) == 0x1_0000) by {
        reveal_with_fuel(pow256, 3);
    }
}

proof fn lemma_le_value_8(s: Seq<u8>, off: int)
    requires
        0 <= off && off + 8 <= s.len(),
    ensures
        le_value(s.subrange(off, off + 8)) == le64(s, off),
{
    lemma_le_value_split(s, off, 8, 4);
    lemma_le_value_4(s, off);
    lemma_le_value_4(s, off + 4);
    assert(pow256(4) == 0x1_0000_0000) by {
        reveal_with_fuel(pow256, 5);
    }
}

/// Law: every number field of a decoded header is the little-endian value
/// of its bytes, in the order they are read: signature (8 bytes),
/// revision, header size, header CRC32 (4 each), reserved (4), current,
/// backup, first usable and last usable LBA (8 each), disk GUID (16), start
/// of the entries (8), their number, their size and their CRC32 (4 each).
pub proof fn lemma_gpt_header_layout(h: GptHeader, s: Seq<u8>)
    requires
        s.len() >= 92,
        header_of(h, s),
    ensures
        h.signature@ == s.subrange(0, 8),
        h.revision == le_value(s.subrange(8, 12)),
        h.header_size == le_value(s.subrange(12, 16)),
        h.header_crc32 == le_value(s.subrange(16, 20)),
        h.reserved@ == s.subrange(20, 24),
        h.current_lba == le_value(s.subrange(24, 32)),
        h.backup_lba == le_value(s.subrange(32, 40)),
        h.first_usable_lba == le_value(s.subrange(40, 48)),
        h.last_usable_lba == le_value(s.subrange(48, 56)),
        h.disk_guid@ == s.subrange(56, 72),
        h.part_start == le_value(s.subrange(72, 80)),
        h.num_parts == le_value(s.subrange(80, 84)),
        h.part_entry_size == le_value(s.subrange(84, 88)),
        h.part_crc32 == le_value(s.subrange(88, 92)),
{
    lemma_le_value_4(s, 8);
    lemma_le_value_4(s, 12);
    lemma_le_value_4(s, 16);
    lemma_le_value_8(s, 24);
    lemma_le_value_8(s, 32);
    lemma_le_value_8(s, 40);
    lemma_le_value_8(s, 48);
    lemma_le_value_8(s, 72);
    lemma_le_value_4(s, 80);
    lemma_le_value_4(s, 84);
    lemma_le_value_4(s, 88);
}

/// Law: both GUIDs of a decoded entry follow the GUID layout (a
/// little-endian u32, two little-endian u16, eight bytes), the type GUID
/// at byte 0 and the partition GUID at byte 16; the LBAs and attributes
/// are the little-endian values of bytes 32..40, 40..48 and 48..56; the
/// name is bytes 56..128.
pub proof fn lemma_gpt_entry_layout(e: GptEntry, s: Seq<u8>)
    requires
        s.len() >= 128,
        entry_of(e, s),
    ensures
        e.type_guid.d1 == le_value(s.subrange(0, 4)),
        e.type_guid.d2 == le_value(s.subrange(4, 6)),
        e.type_guid.d3 == le_value(s.subrange(6, 8)),
        e.type_guid.d4@ == s.subrange(8, 16),
        e.part_guid.d1 == le_value(s.subrange(16, 20)),
        e.part_guid.d2 == le_value(s.subrange(20, 22)),
        e.part_guid.d3 == le_value(s.subrange(22, 24)),
        e.part_guid.d4@ == s.subrange(24, 32),
        e.first_lba == le_value(s.subrange(32, 40)),
        e.last_lba == le_value(s.subrange(40, 48)),
        e.attributes == le_value(s.subrange(48, 56)),
        e.name@ == s.subrange(56, 128),
{
    lemma_le_value_4(s, 0);
    lemma_le_value_2(s, 4);
    lemma_le_value_2(s, 6);
    lemma_le_value_4(s, 16);
    lemma_le_value_2(s, 20);
    lemma_le_value_2(s, 22);
    lemma_le_value_8(s, 32);
    lemma_le_value_8(s, 40);
    lemma_le_value_8(s, 48);
}

} // verus!
