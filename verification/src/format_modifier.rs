//! The `IN_FORMATS` blob of a DRM plane: which modifiers (buffer layouts) the
//! plane supports for which pixel formats.
#![allow(non_camel_case_types)]

use crate::text::with_number;
use vstd::arithmetic::power2::pow2;
use vstd::prelude::*;

verus! {

/// The order in which the bytes of an integer lie in memory.
#[derive(Debug, Clone, Copy, PartialEq, Eq, Structural)]
pub enum ByteOrder {
    Little,
    Big,
}

/// The `u32` that the four bytes from `at` on hold.
pub open spec fn u32_at(order: ByteOrder, bytes: Seq<u8>, at: int) -> u32 {
    match order {
        ByteOrder::Little => (bytes[at] + 0x100 * bytes[at + 1] + 0x1_0000 * bytes[at + 2]
            + 0x100_0000 * bytes[at + 3]) as u32,
        ByteOrder::Big => (0x100_0000 * bytes[at] + 0x1_0000 * bytes[at + 1] + 0x100 * bytes[at + 2]
            + bytes[at + 3]) as u32,
    }
}

/// The `u64` that the eight bytes from `at` on hold.
pub open spec fn u64_at(order: ByteOrder, bytes: Seq<u8>, at: int) -> u64 {
    match order {
        ByteOrder::Little => (u32_at(order, bytes, at) + 0x1_0000_0000 * u32_at(
            order,
            bytes,
            at + 4,
        )) as u64,
        ByteOrder::Big => (0x1_0000_0000 * u32_at(order, bytes, at) + u32_at(order, bytes, at + 4)) as u64,
    }
}

fn read_u32(order: ByteOrder, bytes: &[u8], at: usize) -> (r: u32)
    requires
        at + 4 <= bytes.len(),
    ensures
        r == u32_at(order, bytes@, at as int),
{
    let (a, b, c, d) = (bytes[at], bytes[at + 1], bytes[at + 2], bytes[at + 3]);
    match order {
        ByteOrder::Little => a as u32 + 0x100 * (b as u32) + 0x1_0000 * (c as u32) + 0x100_0000 * (
        d as u32),
        ByteOrder::Big => 0x100_0000 * (a as u32) + 0x1_0000 * (b as u32) + 0x100 * (c as u32)
            + d as u32,
    }
}

fn read_u64(order: ByteOrder, bytes: &[u8], at: usize) -> (r: u64)
    requires
        at + 8 <= bytes.len(),
    ensures
        r == u64_at(order, bytes@, at as int),
{
    let first = read_u32(order, bytes, at);
    let second = read_u32(order, bytes, at + 4);
    match order {
        ByteOrder::Little => first as u64 + 0x1_0000_0000 * (second as u64),
        ByteOrder::Big => 0x1_0000_0000 * (first as u64) + second as u64,
    }
}

/// The byte order of the machine that runs this.
pub open spec fn native() -> ByteOrder {
    match vstd::endian::endianness() {
        vstd::endian::Endian::Little => ByteOrder::Little,
        vstd::endian::Endian::Big => ByteOrder::Big,
    }
}

/// Calls std's `u16::from_ne_bytes` on the byte 1 and, after it, the byte 0, and
/// claims that it puts them together in the byte order of the machine.
#[verifier::external_body]
fn native_probe() -> (r: u16)
    ensures
        r == (match native() {
            ByteOrder::Little => 1u16,
            ByteOrder::Big => 0x100u16,
        }),
{
    u16::from_ne_bytes([1, 0])
}

/// The byte order of a machine that reads the byte 1 and, after it, the byte 0
/// as `probe`.
pub fn byte_order(probe: u16) -> (r: ByteOrder)
    ensures
        r == (if probe == 1 {
            ByteOrder::Little
        } else {
            ByteOrder::Big
        }),
{
    if probe == 1 {
        ByteOrder::Little
    } else {
        ByteOrder::Big
    }
}

/// A value with a fixed layout in memory that every bit pattern is valid for.
pub trait Record: Sized {
    /// The number of bytes that a value takes.
    spec fn size() -> nat;

    /// The value that the bytes from `at` on hold.
    spec fn decoded(order: ByteOrder, bytes: Seq<u8>, at: int) -> Self;

    /// The value depends on its own bytes alone, wherever they stand.
    proof fn decoded_of_own_bytes(
        order: ByteOrder,
        bytes: Seq<u8>,
        at: int,
        others: Seq<u8>,
        there: int,
    )
        requires
            0 <= at,
            at + Self::size() <= bytes.len(),
            0 <= there,
            there + Self::size() <= others.len(),
            bytes.subrange(at, at + Self::size()) == others.subrange(there, there + Self::size()),
        ensures
            Self::decoded(order, bytes, at) == Self::decoded(order, others, there),
    ;

    fn size_in_bytes() -> (r: usize)
        ensures
            r == Self::size(),
            0 < r <= 0x100,
    ;

    fn decode(order: ByteOrder, bytes: &[u8], at: usize) -> (r: Self)
        requires
            at + Self::size() <= bytes.len(),
        ensures
            r == Self::decoded(order, bytes@, at as int),
    ;
}

/// Two places that hold the same bytes hold the same integers.
proof fn lemma_u32_of_own_bytes(
    order: ByteOrder,
    bytes: Seq<u8>,
    at: int,
    others: Seq<u8>,
    there: int,
    length: int,
    i: int,
)
    requires
        0 <= at,
        at + length <= bytes.len(),
        0 <= there,
        there + length <= others.len(),
        bytes.subrange(at, at + length) == others.subrange(there, there + length),
        0 <= i,
        i + 4 <= length,
    ensures
        u32_at(order, bytes, at + i) == u32_at(order, others, there + i),
{
    let same = bytes.subrange(at, at + length);
    assert(same[i] == bytes[at + i] && same[i] == others[there + i]);
    assert(same[i + 1] == bytes[at + i + 1] && same[i + 1] == others[there + i + 1]);
    assert(same[i + 2] == bytes[at + i + 2] && same[i + 2] == others[there + i + 2]);
    assert(same[i + 3] == bytes[at + i + 3] && same[i + 3] == others[there + i + 3]);
}

impl Record for u32 {
    open spec fn size() -> nat {
        4
    }

    open spec fn decoded(order: ByteOrder, bytes: Seq<u8>, at: int) -> u32 {
        u32_at(order, bytes, at)
    }

    proof fn decoded_of_own_bytes(
        order: ByteOrder,
        bytes: Seq<u8>,
        at: int,
        others: Seq<u8>,
        there: int,
    ) {
        lemma_u32_of_own_bytes(order, bytes, at, others, there, 4, 0);
    }

    fn size_in_bytes() -> (r: usize) {
        4
    }

    fn decode(order: ByteOrder, bytes: &[u8], at: usize) -> (r: u32) {
        read_u32(order, bytes, at)
    }
}

/// One entry of the blob: a modifier, and the set of formats that it goes with.
///
/// Bit `i` of `formats` stands for the format at index `offset + i`.
#[derive(Debug, Clone, Copy, PartialEq, Eq, Structural)]
pub struct drm_format_modifier {
    pub formats: u64,
    pub offset: u32,
    pub _p: u32,
    pub modifier: u64,
}

/// Whether bit `bit` of `word` is set.
pub open spec fn bit_set(word: u64, bit: int) -> bool {
    (word >> (bit as u64)) & 1 != 0
}

impl drm_format_modifier {
    /// Whether the modifier goes with the format at index `format` of the blob.
    pub open spec fn covers(self, format: int) -> bool {
        &&& self.offset <= format < self.offset + 64
        &&& bit_set(self.formats, format - self.offset)
    }
}

impl Record for drm_format_modifier {
    open spec fn size() -> nat {
        24
    }

    open spec fn decoded(order: ByteOrder, bytes: Seq<u8>, at: int) -> drm_format_modifier {
        drm_format_modifier {
            formats: u64_at(order, bytes, at),
            offset: u32_at(order, bytes, at + 8),
            _p: u32_at(order, bytes, at + 12),
            modifier: u64_at(order, bytes, at + 16),
        }
    }

    proof fn decoded_of_own_bytes(
        order: ByteOrder,
        bytes: Seq<u8>,
        at: int,
        others: Seq<u8>,
        there: int,
    ) {
        lemma_u32_of_own_bytes(order, bytes, at, others, there, 24, 0);
        lemma_u32_of_own_bytes(order, bytes, at, others, there, 24, 4);
        lemma_u32_of_own_bytes(order, bytes, at, others, there, 24, 8);
        lemma_u32_of_own_bytes(order, bytes, at, others, there, 24, 12);
        lemma_u32_of_own_bytes(order, bytes, at, others, there, 24, 16);
        lemma_u32_of_own_bytes(order, bytes, at, others, there, 24, 20);
    }

    fn size_in_bytes() -> (r: usize) {
        24
    }

    fn decode(order: ByteOrder, bytes: &[u8], at: usize) -> (r: drm_format_modifier) {
        drm_format_modifier {
            formats: read_u64(order, bytes, at),
            offset: read_u32(order, bytes, at + 8),
            _p: read_u32(order, bytes, at + 12),
            modifier: read_u64(order, bytes, at + 16),
        }
    }
}

/// What stands at the start of the blob: where its two arrays are.
#[derive(Debug, Clone, Copy, PartialEq, Eq, Structural)]
pub struct drm_format_modifier_blob_header {
    pub version: u32,
    pub flags: u32,
    pub count_formats: u32,
    pub formats_offset: u32,
    pub count_modifiers: u32,
    pub modifiers_offset: u32,
}

impl Record for drm_format_modifier_blob_header {
    open spec fn size() -> nat {
        24
    }

    open spec fn decoded(
        order: ByteOrder,
        bytes: Seq<u8>,
        at: int,
    ) -> drm_format_modifier_blob_header {
        drm_format_modifier_blob_header {
            version: u32_at(order, bytes, at),
            flags: u32_at(order, bytes, at + 4),
            count_formats: u32_at(order, bytes, at + 8),
            formats_offset: u32_at(order, bytes, at + 12),
            count_modifiers: u32_at(order, bytes, at + 16),
            modifiers_offset: u32_at(order, bytes, at + 20),
        }
    }

    proof fn decoded_of_own_bytes(
        order: ByteOrder,
        bytes: Seq<u8>,
        at: int,
        others: Seq<u8>,
        there: int,
    ) {
        lemma_u32_of_own_bytes(order, bytes, at, others, there, 24, 0);
        lemma_u32_of_own_bytes(order, bytes, at, others, there, 24, 4);
        lemma_u32_of_own_bytes(order, bytes, at, others, there, 24, 8);
        lemma_u32_of_own_bytes(order, bytes, at, others, there, 24, 12);
        lemma_u32_of_own_bytes(order, bytes, at, others, there, 24, 16);
        lemma_u32_of_own_bytes(order, bytes, at, others, there, 24, 20);
    }

    fn size_in_bytes() -> (r: usize) {
        24
    }

    fn decode(order: ByteOrder, bytes: &[u8], at: usize) -> (r: drm_format_modifier_blob_header) {
        drm_format_modifier_blob_header {
            version: read_u32(order, bytes, at),
            flags: read_u32(order, bytes, at + 4),
            count_formats: read_u32(order, bytes, at + 8),
            formats_offset: read_u32(order, bytes, at + 12),
            count_modifiers: read_u32(order, bytes, at + 16),
            modifiers_offset: read_u32(order, bytes, at + 20),
        }
    }
}

/// Why a blob could not be read.
#[derive(Debug, Clone, Copy, PartialEq, Eq, Structural)]
pub enum DrmFormatParseError {
    /// The end of an array does not fit in an address.
    Overflow,
    /// The blob is shorter than its header.
    MissingHeader,
    /// The blob has another layout than the one known here.
    UnsupportedVersion { version: u32 },
    /// The formats do not lie within the blob.
    FormatsOutOfBounds,
    /// The modifiers do not lie within the blob.
    ModifiersOutOfBounds,
}

impl DrmFormatParseError {
    /// The text that tells a user what is wrong.
    pub open spec fn text(self) -> Seq<char> {
        match self {
            DrmFormatParseError::Overflow => "overflow in pointer arithmetic"@,
            DrmFormatParseError::MissingHeader =>
                "valid header not present in the blob provided by drm"@,
            DrmFormatParseError::UnsupportedVersion { version } =>
                "expected v1 of `drm_format_modifier_blob`, got "@ + crate::text::decimal(
                version as nat,
            ),
            DrmFormatParseError::FormatsOutOfBounds => "formats slice out of bounds"@,
            DrmFormatParseError::ModifiersOutOfBounds => "modifiers slice out of bounds"@,
        }
    }

    pub fn message(&self) -> (r: String)
        ensures
            r@ == self.text(),
    {
        match *self {
            DrmFormatParseError::Overflow => "overflow in pointer arithmetic".to_owned(),
            DrmFormatParseError::MissingHeader =>
                "valid header not present in the blob provided by drm".to_owned(),
            DrmFormatParseError::UnsupportedVersion { version } => with_number(
                "expected v1 of `drm_format_modifier_blob`, got ",
                version as u64,
            ),
            DrmFormatParseError::FormatsOutOfBounds => "formats slice out of bounds".to_owned(),
            DrmFormatParseError::ModifiersOutOfBounds => "modifiers slice out of bounds".to_owned(),
        }
    }
}

/// The `count` records that stand one after another from `offset` on.
pub open spec fn records<T: Record>(
    order: ByteOrder,
    bytes: Seq<u8>,
    count: nat,
    offset: int,
) -> Seq<T> {
    Seq::new(count, |i: int| T::decoded(order, bytes, offset + i * T::size()))
}

/// What reading an array out of a blob gives: its records, unless their end
/// does not fit in an address, or lies past the end of the blob.
pub open spec fn extracted<T: Record>(
    order: ByteOrder,
    blob: Seq<u8>,
    count: u32,
    offset: u32,
    out_of_bounds: DrmFormatParseError,
) -> Result<Seq<T>, DrmFormatParseError> {
    let end = offset + T::size() * count;
    if end > usize::MAX {
        Err(DrmFormatParseError::Overflow)
    } else if end > blob.len() {
        Err(out_of_bounds)
    } else {
        Ok(records(order, blob, count as nat, offset as int))
    }
}

/// `r` with its array replaced by what the array holds.
pub open spec fn viewed<T>(r: Result<Vec<T>, DrmFormatParseError>) -> Result<
    Seq<T>,
    DrmFormatParseError,
> {
    match r {
        Ok(v) => Ok(v@),
        Err(e) => Err(e),
    }
}

/// Reads `count` records from `offset` on.
pub fn extract_array<T: Record>(
    order: ByteOrder,
    blob: &[u8],
    count: u32,
    offset: u32,
    out_of_bounds: DrmFormatParseError,
) -> (r: Result<Vec<T>, DrmFormatParseError>)
    ensures
        viewed(r) == extracted::<T>(order, blob@, count, offset, out_of_bounds),
        r is Ok <==> offset + T::size() * count <= usize::MAX && offset + T::size() * count
            <= blob@.len(),
        r is Ok ==> r->Ok_0@.len() == count,
{
    let size: usize = T::size_in_bytes();
    let start: usize = offset as usize;
    assert(0 <= size * count) by (nonlinear_arith)
        requires
            0 <= size,
            0 <= count,
    ;
    let length: usize = match size.checked_mul(count as usize) {
        Some(length) => length,
        None => {
            return Err(DrmFormatParseError::Overflow);
        },
    };
    let end: usize = match start.checked_add(length) {
        Some(end) => end,
        None => {
            return Err(DrmFormatParseError::Overflow);
        },
    };
    if end > blob.len() {
        return Err(out_of_bounds);
    }
    let mut dest: Vec<T> = Vec::with_capacity(count as usize);
    let mut i: u32 = 0;
    let mut at: usize = start;
    while i < count
        invariant
            i <= count,
            size == T::size(),
            at == offset + i * size,
            offset + size * count <= blob.len(),
            dest@ == records::<T>(order, blob@, i as nat, offset as int),
        decreases count - i,
    {
        assert(i * size + size <= size * count) by (nonlinear_arith)
            requires
                i + 1 <= count,
                0 <= size,
        ;
        assert((i + 1) * size == i * size + size) by (nonlinear_arith);
        dest.push(T::decode(order, blob, at));
        at = at + size;
        i = i + 1;
        assert(dest@ =~= records::<T>(order, blob@, i as nat, offset as int));
    }
    Ok(dest)
}

/// What a blob holds.
#[derive(Debug)]
pub struct drm_format_modifier_blob {
    pub version: u32,
    pub flags: u32,
    /// The fourcc codes of the formats. Any bit pattern can stand here.
    pub formats: Vec<u32>,
    pub modifiers: Vec<drm_format_modifier>,
}

/// The contents of a [`drm_format_modifier_blob`].
#[verifier::ext_equal]
pub struct BlobContents {
    pub version: u32,
    pub flags: u32,
    pub formats: Seq<u32>,
    pub modifiers: Seq<drm_format_modifier>,
}

impl View for drm_format_modifier_blob {
    type V = BlobContents;

    open spec fn view(&self) -> BlobContents {
        BlobContents {
            version: self.version,
            flags: self.flags,
            formats: self.formats@,
            modifiers: self.modifiers@,
        }
    }
}

/// What the bytes of a blob hold, or the first thing that is wrong with them.
pub open spec fn parsed(order: ByteOrder, blob: Seq<u8>) -> Result<
    BlobContents,
    DrmFormatParseError,
> {
    if blob.len() < drm_format_modifier_blob_header::size() {
        Err(DrmFormatParseError::MissingHeader)
    } else {
        let header = drm_format_modifier_blob_header::decoded(order, blob, 0);
        if header.version != 1 {
            Err(DrmFormatParseError::UnsupportedVersion { version: header.version })
        } else {
            match extracted::<u32>(
                order,
                blob,
                header.count_formats,
                header.formats_offset,
                DrmFormatParseError::FormatsOutOfBounds,
            ) {
                Err(e) => Err(e),
                Ok(formats) => match extracted::<drm_format_modifier>(
                    order,
                    blob,
                    header.count_modifiers,
                    header.modifiers_offset,
                    DrmFormatParseError::ModifiersOutOfBounds,
                ) {
                    Err(e) => Err(e),
                    Ok(modifiers) => Ok(
                        BlobContents {
                            version: header.version,
                            flags: header.flags,
                            formats,
                            modifiers,
                        },
                    ),
                },
            }
        }
    }
}

/// The modifiers of the entries, in their order, that go with the first format
/// that has the code `fourcc`. There are none where no format has it.
pub open spec fn modifiers_of(contents: BlobContents, fourcc: u32) -> Seq<u64> {
    match contents.formats.index_of_first(fourcc) {
        Some(format) => contents.modifiers.filter_map(|m: drm_format_modifier| covering(m, format)),
        None => Seq::empty(),
    }
}

/// The modifier of an entry that goes with a format.
pub open spec fn covering(m: drm_format_modifier, format: int) -> Option<u64> {
    if m.covers(format) {
        Some(m.modifier)
    } else {
        None
    }
}

/// The view of what reading a blob returned.
pub open spec fn viewed_blob(r: Result<drm_format_modifier_blob, DrmFormatParseError>) -> Result<
    BlobContents,
    DrmFormatParseError,
> {
    match r {
        Ok(blob) => Ok(blob@),
        Err(e) => Err(e),
    }
}

impl drm_format_modifier_blob {
    /// Reads a blob that the kernel wrote on this machine: with its byte order.
    pub fn read(blob: &[u8]) -> (r: Result<Self, DrmFormatParseError>)
        ensures
            viewed_blob(r) == parsed(native(), blob@),
    {
        Self::read_in(byte_order(native_probe()), blob)
    }

    /// Reads a blob whose integers have the given byte order.
    pub fn read_in(order: ByteOrder, blob: &[u8]) -> (r: Result<Self, DrmFormatParseError>)
        ensures
            viewed_blob(r) == parsed(order, blob@),
    {
        let mut headers: Vec<drm_format_modifier_blob_header> = extract_array(
            order,
            blob,
            1,
            0,
            DrmFormatParseError::MissingHeader,
        )?;
        let header = headers.pop().unwrap();

        // Another version can have another layout.
        if header.version != 1 {
            return Err(DrmFormatParseError::UnsupportedVersion { version: header.version });
        }
        let formats: Vec<u32> = extract_array(
            order,
            blob,
            header.count_formats,
            header.formats_offset,
            DrmFormatParseError::FormatsOutOfBounds,
        )?;
        let modifiers: Vec<drm_format_modifier> = extract_array(
            order,
            blob,
            header.count_modifiers,
            header.modifiers_offset,
            DrmFormatParseError::ModifiersOutOfBounds,
        )?;
        Ok(
            drm_format_modifier_blob {
                version: header.version,
                flags: header.flags,
                formats,
                modifiers,
            },
        )
    }

    /// The index of the first format with the code `fourcc`.
    fn format_index(&self, fourcc: u32) -> (r: Option<usize>)
        ensures
            match r {
                Some(i) => self@.formats.index_of_first(fourcc) == Some(i as int),
                None => self@.formats.index_of_first(fourcc) is None,
            },
    {
        proof {
            self.formats@.index_of_first_ensures(fourcc);
        }
        let mut i: usize = 0;
        while i < self.formats.len()
            invariant
                i <= self.formats@.len(),
                forall|j: int| 0 <= j < i ==> self.formats@[j] != fourcc,
            decreases self.formats@.len() - i,
        {
            if self.formats[i] == fourcc {
                proof {
                    self.formats@.index_of_first_ensures(fourcc);
                    assert(self.formats@.contains(fourcc));
                }
                return Some(i);
            }
            i = i + 1;
        }
        None
    }

    /// The modifiers that the plane supports for the format with the code `fourcc`.
    pub fn modifiers_for(&self, fourcc: u32) -> (r: Vec<u64>)
        ensures
            r@ == modifiers_of(self@, fourcc),
    {
        let index: u64 = match self.format_index(fourcc) {
            Some(i) => i as u64,
            None => {
                return Vec::new();
            },
        };
        let mut found: Vec<u64> = Vec::new();
        let ghost select = |m: drm_format_modifier| covering(m, index as int);
        let mut i: usize = 0;
        while i < self.modifiers.len()
            invariant
                i <= self.modifiers@.len(),
                select == (|m: drm_format_modifier| covering(m, index as int)),
                found@ == self.modifiers@.take(i as int).filter_map(select),
            decreases self.modifiers@.len() - i,
        {
            let m = self.modifiers[i];
            let offset: u64 = m.offset as u64;
            // The format must lie within this bitset, and its bit must be set.
            if index >= offset && index < offset + 64 && (m.formats >> (index - offset)) & 1 != 0 {
                found.push(m.modifier);
            }
            proof {
                let taken = self.modifiers@.take(i + 1);
                assert(taken.drop_last() =~= self.modifiers@.take(i as int));
            }
            i = i + 1;
        }
        assert(self.modifiers@.take(i as int) =~= self.modifiers@);
        found
    }
}

/// An array that is read out of a blob depends on its own bytes alone: another
/// blob that holds the same bytes, at whatever place, gives the same records.
pub proof fn arrays_depend_on_their_own_bytes<T: Record>(
    order: ByteOrder,
    blob: Seq<u8>,
    count: u32,
    offset: u32,
    other: Seq<u8>,
    other_offset: u32,
    out_of_bounds: DrmFormatParseError,
)
    requires
        offset + T::size() * count <= blob.len() <= usize::MAX,
        other_offset + T::size() * count <= other.len() <= usize::MAX,
        blob.subrange(offset as int, offset + T::size() * count) == other.subrange(
            other_offset as int,
            other_offset + T::size() * count,
        ),
    ensures
        extracted::<T>(order, blob, count, offset, out_of_bounds) == extracted::<T>(
            order,
            other,
            count,
            other_offset,
            out_of_bounds,
        ),
{
    let size = T::size() as int;
    let array = blob.subrange(offset as int, offset + size * count);
    let here = records::<T>(order, blob, count as nat, offset as int);
    let there = records::<T>(order, other, count as nat, other_offset as int);
    assert forall|i: int| 0 <= i < count implies here[i] == there[i] by {
        assert(0 <= i * size && i * size + size <= size * count) by (nonlinear_arith)
            requires
                0 <= i < count,
                0 <= size,
        ;
        let (a, b) = (offset + i * size, other_offset + i * size);
        assert(blob.subrange(a, a + size) =~= array.subrange(i * size, i * size + size));
        assert(other.subrange(b, b + size) =~= array.subrange(i * size, i * size + size));
        T::decoded_of_own_bytes(order, blob, a, other, b);
    }
    assert(here =~= there);
}

/// Bytes after the end of a blob that can be read change nothing.
pub proof fn trailing_bytes_are_ignored(order: ByteOrder, blob: Seq<u8>, rest: Seq<u8>)
    requires
        parsed(order, blob) is Ok,
        blob.len() + rest.len() <= usize::MAX,
    ensures
        parsed(order, blob + rest) == parsed(order, blob),
{
    let longer = blob + rest;
    let header = drm_format_modifier_blob_header::decoded(order, blob, 0);
    assert(drm_format_modifier_blob_header::decoded(order, longer, 0) == header);
    let formats = records::<u32>(
        order,
        blob,
        header.count_formats as nat,
        header.formats_offset as int,
    );
    assert(records::<u32>(
        order,
        longer,
        header.count_formats as nat,
        header.formats_offset as int,
    ) =~= formats);
    let modifiers = records::<drm_format_modifier>(
        order,
        blob,
        header.count_modifiers as nat,
        header.modifiers_offset as int,
    );
    assert(records::<drm_format_modifier>(
        order,
        longer,
        header.count_modifiers as nat,
        header.modifiers_offset as int,
    ) =~= modifiers);
}

/// What filtering and mapping keeps: all that some element maps to, and no more.
proof fn lemma_filter_map_elements<A, B>(s: Seq<A>, f: spec_fn(A) -> Option<B>, b: B)
    ensures
        s.filter_map(f).contains(b) <==> exists|k: int|
            0 <= k < s.len() && f(#[trigger] s[k]) == Some(b),
    decreases s.len(),
{
    if s.len() > 0 {
        let rest = s.drop_last();
        lemma_filter_map_elements(rest, f, b);
        assert forall|k: int| 0 <= k < rest.len() implies rest[k] == #[trigger] s[k] by {}
        let kept = rest.filter_map(f);
        let all = s.filter_map(f);
        match f(s.last()) {
            Some(last) => {
                assert(all == kept + seq![last]);
                assert(all[kept.len() as int] == last);
                if kept.contains(b) {
                    let k = kept.index_of(b);
                    assert(all[k] == b);
                }
                if all.contains(b) && !kept.contains(b) {
                    let k = all.index_of(b);
                    if k < kept.len() {
                        assert(kept[k] == b);
                    }
                }
            },
            None => {},
        }
        if kept.contains(b) {
            let k = choose|k: int| 0 <= k < rest.len() && f(#[trigger] rest[k]) == Some(b);
            assert(f(s[k]) == Some(b));
        }
        if all.contains(b) && !kept.contains(b) {
            assert(f(s[s.len() - 1]) == Some(b));
        }
        if exists|k: int| 0 <= k < s.len() && f(#[trigger] s[k]) == Some(b) {
            let k = choose|k: int| 0 <= k < s.len() && f(#[trigger] s[k]) == Some(b);
            if k < rest.len() {
                assert(f(rest[k]) == Some(b));
            }
        }
    }
}

/// A plane supports nothing for a format that its blob does not list. For a
/// listed one it supports the modifiers of exactly those entries that cover the
/// place at which the format is listed first.
pub proof fn modifiers_come_from_covering_entries(contents: BlobContents, fourcc: u32, m: u64)
    ensures
        match contents.formats.index_of_first(fourcc) {
            None => modifiers_of(contents, fourcc).len() == 0,
            Some(format) => modifiers_of(contents, fourcc).contains(m) <==> exists|k: int|
                {
                    &&& 0 <= k < contents.modifiers.len()
                    &&& (#[trigger] contents.modifiers[k]).covers(format)
                    &&& contents.modifiers[k].modifier == m
                },
        },
        contents.formats.index_of_first(fourcc) is None <==> !contents.formats.contains(fourcc),
{
    contents.formats.index_of_first_ensures(fourcc);
    if let Some(format) = contents.formats.index_of_first(fourcc) {
        let select = |e: drm_format_modifier| covering(e, format);
        lemma_filter_map_elements(contents.modifiers, select, m);
        if modifiers_of(contents, fourcc).contains(m) {
            let k = choose|k: int|
                0 <= k < contents.modifiers.len() && select(#[trigger] contents.modifiers[k])
                    == Some(m);
            assert(contents.modifiers[k].covers(format));
        }
        if exists|k: int|
            {
                &&& 0 <= k < contents.modifiers.len()
                &&& (#[trigger] contents.modifiers[k]).covers(format)
                &&& contents.modifiers[k].modifier == m
            } {
            let k = choose|k: int|
                {
                    &&& 0 <= k < contents.modifiers.len()
                    &&& (#[trigger] contents.modifiers[k]).covers(format)
                    &&& contents.modifiers[k].modifier == m
                };
            assert(select(contents.modifiers[k]) == Some(m));
        }
    }
}

/// The byte order of the machine is what it is said to be.
pub proof fn native_order_is_the_machines()
    ensures
        native() == ByteOrder::Little <==> vstd::endian::endianness() == vstd::endian::Endian::Little,
        native() == ByteOrder::Big <==> vstd::endian::endianness() == vstd::endian::Endian::Big,
{
}

/// An entry covers the format at the index `offset + i` exactly where the `i`th
/// binary digit of its word is 1, and no format outside the 64 from `offset` on.
pub proof fn entries_cover_by_binary_digits(m: drm_format_modifier, format: int)
    ensures
        m.covers(format) <==> {
            &&& m.offset <= format < m.offset + 64
            &&& (m.formats as int / pow2((format - m.offset) as nat) as int) % 2 == 1
        },
{
    if m.offset <= format < m.offset + 64 {
        let bit = (format - m.offset) as u64;
        vstd::bits::lemma_u64_shr_is_div(m.formats, bit);
        let digits = m.formats >> bit;
        assert(digits & 1 != 0 <==> digits % 2 == 1) by (bit_vector);
    }
}

/// An entry whose word is a power of two covers one format and no other.
pub proof fn lone_bits_cover_one_format(m: drm_format_modifier, bit: nat, format: int)
    requires
        bit < 64,
        m.formats == pow2(bit),
    ensures
        m.covers(format) <==> format == m.offset + bit,
{
    let one = bit as u64;
    vstd::bits::lemma_u64_pow2_no_overflow(bit);
    assert(1 * pow2(bit) == pow2(bit));
    vstd::bits::lemma_u64_shl_is_mul(1, one);
    let word = m.formats;
    assert(word == 1u64 << one);
    if m.offset <= format < m.offset + 64 {
        let other = (format - m.offset) as u64;
        assert((word >> other) & 1 != 0 <==> other == one) by (bit_vector)
            requires
                word == 1u64 << one,
                one < 64,
                other < 64,
        ;
        entries_cover_by_binary_digits(m, format);
        vstd::bits::lemma_u64_shr_is_div(word, other);
        let digits = word >> other;
        assert(digits & 1 != 0 <==> digits % 2 == 1) by (bit_vector);
    }
}

proof fn lemma_filter_map_concat<A, B>(a: Seq<A>, b: Seq<A>, f: spec_fn(A) -> Option<B>)
    ensures
        (a + b).filter_map(f) == a.filter_map(f) + b.filter_map(f),
    decreases b.len(),
{
    if b.len() == 0 {
        assert(a + b =~= a);
    } else {
        assert((a + b).drop_last() =~= a + b.drop_last());
        lemma_filter_map_concat(a, b.drop_last(), f);
    }
    assert((a + b).filter_map(f) =~= a.filter_map(f) + b.filter_map(f));
}

/// What a blob says of a format is said entry by entry, in the order of the
/// entries: a blob without entries says nothing, and two blobs with the same
/// formats say together what the blob with the entries of both says.
pub proof fn entries_speak_one_after_another(
    formats: Seq<u32>,
    version: u32,
    flags: u32,
    some: Seq<drm_format_modifier>,
    more: Seq<drm_format_modifier>,
    fourcc: u32,
)
    ensures
        modifiers_of(
            BlobContents { version, flags, formats, modifiers: Seq::empty() },
            fourcc,
        ).len() == 0,
        modifiers_of(BlobContents { version, flags, formats, modifiers: some + more }, fourcc)
            == modifiers_of(BlobContents { version, flags, formats, modifiers: some }, fourcc)
            + modifiers_of(BlobContents { version, flags, formats, modifiers: more }, fourcc),
{
    match formats.index_of_first(fourcc) {
        Some(format) => {
            lemma_filter_map_concat(
                some,
                more,
                |m: drm_format_modifier| covering(m, format),
            );
        },
        None => {
            assert(Seq::<u64>::empty() + Seq::<u64>::empty() =~= Seq::<u64>::empty());
        },
    }
}

/// A single entry gives its modifier to a format, once, exactly where the binary
/// digit of its word that stands for the first place of the format is 1.
pub proof fn an_entry_gives_its_modifier(
    formats: Seq<u32>,
    version: u32,
    flags: u32,
    m: drm_format_modifier,
    place: int,
)
    requires
        0 <= place < formats.len(),
        forall|j: int| 0 <= j < place ==> formats[j] != formats[place],
    ensures
        ({
            let contents = BlobContents { version, flags, formats, modifiers: seq![m] };
            let given = modifiers_of(contents, formats[place]);
            if m.offset <= place < m.offset + 64 && (m.formats as int / pow2(
                (place - m.offset) as nat,
            ) as int) % 2 == 1 {
                given == seq![m.modifier]
            } else {
                given.len() == 0
            }
        }),
{
    formats.index_of_first_ensures(formats[place]);
    assert(formats.contains(formats[place]));
    assert(formats.index_of_first(formats[place]) == Some(place));
    entries_cover_by_binary_digits(m, place);
    let select = |e: drm_format_modifier| covering(e, place);
    assert(seq![m].drop_last() =~= Seq::empty());
    assert(seq![m].last() == m);
    assert(seq![m].drop_last().filter_map(select) =~= Seq::empty());
    assert(Seq::<u64>::empty() + seq![m.modifier] =~= seq![m.modifier]);
}

/// A blob says nothing of a format that it does not list.
pub proof fn unlisted_formats_have_no_modifiers(contents: BlobContents, fourcc: u32)
    requires
        forall|j: int| 0 <= j < contents.formats.len() ==> contents.formats[j] != fourcc,
    ensures
        modifiers_of(contents, fourcc).len() == 0,
{
    contents.formats.index_of_first_ensures(fourcc);
}

/// The four bytes from `at` on are the base-256 digits of `value`, the lowest
/// first or last.
pub open spec fn digits_of_u32(order: ByteOrder, bytes: Seq<u8>, at: int, value: u32) -> bool {
    let (first, second, third, fourth) = if order == ByteOrder::Little {
        (bytes[at], bytes[at + 1], bytes[at + 2], bytes[at + 3])
    } else {
        (bytes[at + 3], bytes[at + 2], bytes[at + 1], bytes[at])
    };
    &&& first == value % 256
    &&& second == value / 256 % 256
    &&& third == value / 65536 % 256
    &&& fourth == value / 16777216
}

/// The eight bytes from `at` on are the base-256 digits of `value`, the lowest
/// first or last.
pub open spec fn digits_of_u64(order: ByteOrder, bytes: Seq<u8>, at: int, value: u64) -> bool {
    let low = (value % 0x1_0000_0000) as u32;
    let high = (value / 0x1_0000_0000) as u32;
    if order == ByteOrder::Little {
        digits_of_u32(order, bytes, at, low) && digits_of_u32(order, bytes, at + 4, high)
    } else {
        digits_of_u32(order, bytes, at, high) && digits_of_u32(order, bytes, at + 4, low)
    }
}

/// An integer is read as the value whose digits its bytes are.
pub proof fn integers_are_their_digits(
    order: ByteOrder,
    bytes: Seq<u8>,
    at: int,
    short: u32,
    long: u64,
)
    ensures
        digits_of_u32(order, bytes, at, short) ==> u32_at(order, bytes, at) == short,
        digits_of_u64(order, bytes, at, long) ==> u64_at(order, bytes, at) == long,
{
    if digits_of_u32(order, bytes, at, short) {
        lemma_u32_digits(order, bytes, at, short);
    }
    if digits_of_u64(order, bytes, at, long) {
        let low = (long % 0x1_0000_0000) as u32;
        let high = (long / 0x1_0000_0000) as u32;
        if order == ByteOrder::Little {
            lemma_u32_digits(order, bytes, at, low);
            lemma_u32_digits(order, bytes, at + 4, high);
        } else {
            lemma_u32_digits(order, bytes, at, high);
            lemma_u32_digits(order, bytes, at + 4, low);
        }
    }
}

proof fn lemma_u32_digits(order: ByteOrder, bytes: Seq<u8>, at: int, value: u32)
    requires
        digits_of_u32(order, bytes, at, value),
    ensures
        u32_at(order, bytes, at) == value,
{
    assert(value == value % 256 + 0x100 * (value / 256 % 256) + 0x1_0000 * (value / 65536 % 256)
        + 0x100_0000 * (value / 16777216)) by (bit_vector);
}

/// The entry stands in the 24 bytes from `at` on: its word, its offset, what is
/// unused, and its modifier.
pub open spec fn entry_at(
    order: ByteOrder,
    bytes: Seq<u8>,
    at: int,
    entry: drm_format_modifier,
) -> bool {
    &&& digits_of_u64(order, bytes, at, entry.formats)
    &&& digits_of_u32(order, bytes, at + 8, entry.offset)
    &&& digits_of_u32(order, bytes, at + 12, entry._p)
    &&& digits_of_u64(order, bytes, at + 16, entry.modifier)
}

/// The blob starts with these six words.
pub open spec fn header_is(
    order: ByteOrder,
    blob: Seq<u8>,
    version: u32,
    flags: u32,
    count_formats: u32,
    formats_offset: u32,
    count_modifiers: u32,
    modifiers_offset: u32,
) -> bool {
    &&& blob.len() >= 24
    &&& digits_of_u32(order, blob, 0, version)
    &&& digits_of_u32(order, blob, 4, flags)
    &&& digits_of_u32(order, blob, 8, count_formats)
    &&& digits_of_u32(order, blob, 12, formats_offset)
    &&& digits_of_u32(order, blob, 16, count_modifiers)
    &&& digits_of_u32(order, blob, 20, modifiers_offset)
}

/// What is written in a blob of the first version is read back, wherever in the
/// blob the formats and the entries stand.
pub proof fn what_is_written_is_read_back(
    order: ByteOrder,
    blob: Seq<u8>,
    flags: u32,
    formats: Seq<u32>,
    formats_offset: u32,
    modifiers: Seq<drm_format_modifier>,
    modifiers_offset: u32,
)
    requires
        blob.len() <= usize::MAX,
        formats.len() <= u32::MAX,
        modifiers.len() <= u32::MAX,
        header_is(
            order,
            blob,
            1,
            flags,
            formats.len() as u32,
            formats_offset,
            modifiers.len() as u32,
            modifiers_offset,
        ),
        formats_offset + 4 * formats.len() <= blob.len(),
        modifiers_offset + 24 * modifiers.len() <= blob.len(),
        forall|i: int|
            0 <= i < formats.len() ==> digits_of_u32(
                order,
                blob,
                formats_offset + 4 * i,
                #[trigger] formats[i],
            ),
        forall|i: int|
            0 <= i < modifiers.len() ==> entry_at(
                order,
                blob,
                modifiers_offset + 24 * i,
                #[trigger] modifiers[i],
            ),
    ensures
        parsed(order, blob) == Ok::<BlobContents, DrmFormatParseError>(
            BlobContents { version: 1, flags, formats, modifiers },
        ),
{
    lemma_u32_digits(order, blob, 0, 1);
    lemma_u32_digits(order, blob, 4, flags);
    lemma_u32_digits(order, blob, 8, formats.len() as u32);
    lemma_u32_digits(order, blob, 12, formats_offset);
    lemma_u32_digits(order, blob, 16, modifiers.len() as u32);
    lemma_u32_digits(order, blob, 20, modifiers_offset);
    let read = records::<u32>(order, blob, formats.len(), formats_offset as int);
    assert forall|i: int| 0 <= i < formats.len() implies read[i] == formats[i] by {
        lemma_u32_digits(order, blob, formats_offset + 4 * i, formats[i]);
    }
    assert(read =~= formats);
    let read = records::<drm_format_modifier>(
        order,
        blob,
        modifiers.len(),
        modifiers_offset as int,
    );
    assert forall|i: int| 0 <= i < modifiers.len() implies read[i] == modifiers[i] by {
        let at = modifiers_offset + 24 * i;
        let m = modifiers[i];
        assert(entry_at(order, blob, at, m));
        integers_are_their_digits(order, blob, at, 0, m.formats);
        integers_are_their_digits(order, blob, at + 8, m.offset, 0);
        integers_are_their_digits(order, blob, at + 12, m._p, 0);
        integers_are_their_digits(order, blob, at + 16, 0, m.modifier);
    }
    assert(read =~= modifiers);
}

/// What is wrong with a blob that cannot be read: it is shorter than its header,
/// or it has another version, or its formats, or else its entries, do not lie
/// within it. What comes first in this list is reported.
pub proof fn the_first_fault_of_a_blob_is_reported(
    order: ByteOrder,
    blob: Seq<u8>,
    version: u32,
    flags: u32,
    count_formats: u32,
    formats_offset: u32,
    count_modifiers: u32,
    modifiers_offset: u32,
)
    ensures
        blob.len() < 24 <==> parsed(order, blob) == Err::<BlobContents, DrmFormatParseError>(
            DrmFormatParseError::MissingHeader,
        ),
        header_is(
            order,
            blob,
            version,
            flags,
            count_formats,
            formats_offset,
            count_modifiers,
            modifiers_offset,
        ) ==> {
            let formats_end = formats_offset + 4 * count_formats;
            let modifiers_end = modifiers_offset + 24 * count_modifiers;
            if version != 1 {
                parsed(order, blob) == Err::<BlobContents, DrmFormatParseError>(
                    DrmFormatParseError::UnsupportedVersion { version },
                )
            } else if formats_end > usize::MAX {
                parsed(order, blob) == Err::<BlobContents, DrmFormatParseError>(
                    DrmFormatParseError::Overflow,
                )
            } else if formats_end > blob.len() {
                parsed(order, blob) == Err::<BlobContents, DrmFormatParseError>(
                    DrmFormatParseError::FormatsOutOfBounds,
                )
            } else if modifiers_end > usize::MAX {
                parsed(order, blob) == Err::<BlobContents, DrmFormatParseError>(
                    DrmFormatParseError::Overflow,
                )
            } else if modifiers_end > blob.len() {
                parsed(order, blob) == Err::<BlobContents, DrmFormatParseError>(
                    DrmFormatParseError::ModifiersOutOfBounds,
                )
            } else {
                parsed(order, blob) is Ok
            }
        },
{
    if header_is(
        order,
        blob,
        version,
        flags,
        count_formats,
        formats_offset,
        count_modifiers,
        modifiers_offset,
    ) {
        lemma_u32_digits(order, blob, 0, version);
        lemma_u32_digits(order, blob, 8, count_formats);
        lemma_u32_digits(order, blob, 12, formats_offset);
        lemma_u32_digits(order, blob, 16, count_modifiers);
        lemma_u32_digits(order, blob, 20, modifiers_offset);
    }
}

/// An array can be read exactly where its end lies within the blob and fits in an
/// address. Its records are then those of its bytes, one stretch of bytes after
/// another, and there are as many as asked for.
pub proof fn arrays_are_read_stretch_by_stretch<T: Record>(
    order: ByteOrder,
    blob: Seq<u8>,
    count: u32,
    offset: u32,
    out_of_bounds: DrmFormatParseError,
)
    ensures
        match extracted::<T>(order, blob, count, offset, out_of_bounds) {
            Ok(read) => {
                &&& offset + T::size() * count <= usize::MAX
                &&& offset + T::size() * count <= blob.len()
                &&& read.len() == count
                &&& forall|i: int|
                    0 <= i < count ==> #[trigger] read[i] == T::decoded(
                        order,
                        blob.subrange(offset + i * T::size(), offset + (i + 1) * T::size()),
                        0,
                    )
            },
            Err(e) => if offset + T::size() * count > usize::MAX {
                e == DrmFormatParseError::Overflow
            } else {
                offset + T::size() * count > blob.len() && e == out_of_bounds
            },
        },
{
    let size = T::size() as int;
    if let Ok(read) = extracted::<T>(order, blob, count, offset, out_of_bounds) {
        assert forall|i: int| 0 <= i < count implies #[trigger] read[i] == T::decoded(
            order,
            blob.subrange(offset + i * size, offset + (i + 1) * size),
            0,
        ) by {
            assert(0 <= i * size && (i + 1) * size == i * size + size && i * size + size <= size
                * count) by (nonlinear_arith)
                requires
                    0 <= i < count,
                    0 <= size,
            ;
            let at = offset + i * size;
            let own = blob.subrange(at, at + size);
            assert(own.subrange(0, size) =~= own);
            T::decoded_of_own_bytes(order, blob, at, own, 0);
        }
    }
}

/// What is told of a blob of another version ends with the digits of that version.
pub proof fn the_other_version_is_told(version: u32)
    ensures
        ({
            let told = (DrmFormatParseError::UnsupportedVersion { version }).text();
            let start = "expected v1 of `drm_format_modifier_blob`, got "@.len() as int;
            &&& told.len() > start
            &&& told.take(start) == "expected v1 of `drm_format_modifier_blob`, got "@
            &&& crate::text::denoted(told.skip(start)) == version
            &&& forall|i: int| start <= i < told.len() ==> '0' <= #[trigger] told[i] <= '9'
        }),
{
    let told = (DrmFormatParseError::UnsupportedVersion { version }).text();
    let start = "expected v1 of `drm_format_modifier_blob`, got "@.len() as int;
    let digits = crate::text::decimal(version as nat);
    crate::text::decimals_denote_their_number(version as nat);
    assert(told.take(start) =~= "expected v1 of `drm_format_modifier_blob`, got "@);
    assert(told.skip(start) =~= digits);
    assert forall|i: int| start <= i < told.len() implies '0' <= #[trigger] told[i] <= '9' by {
        assert(told[i] == digits[i - start]);
    }
}

/// A blob holds what its fields hold, and reading one tells the same of what it gives
/// back: nothing is left out, put in another place, or added.
pub proof fn blobs_hold_what_their_fields_hold(
    blob: drm_format_modifier_blob,
    read: Vec<drm_format_modifier>,
    formats: Vec<u32>,
    error: DrmFormatParseError,
)
    ensures
        blob@.version == blob.version,
        blob@.flags == blob.flags,
        blob@.formats == blob.formats@,
        blob@.modifiers == blob.modifiers@,
        viewed_blob(Ok(blob)) == Ok::<BlobContents, DrmFormatParseError>(blob@),
        viewed_blob(Err(error)) == Err::<BlobContents, DrmFormatParseError>(error),
        viewed(Ok(read)) == Ok::<Seq<drm_format_modifier>, DrmFormatParseError>(read@),
        viewed(Ok(formats)) == Ok::<Seq<u32>, DrmFormatParseError>(formats@),
        viewed::<u32>(Err(error)) == Err::<Seq<u32>, DrmFormatParseError>(error),
{
}

} // verus!
