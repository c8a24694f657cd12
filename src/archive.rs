//! The container's layout, its parser, and identifier lookup.
use crate::le::{u16_at, u16_le, u32_at, u32_bytes, u32_le, u64_at, u64_bytes, u64_le};
use vstd::prelude::*;
use vstd::slice::{slice_subrange, slice_to_vec};

verus! {

/// Length of the fixed header at the start of a container.
pub const HEADER_LEN: usize = 40;

/// Length of the header that opens the manifest.
pub const MANIFEST_HEADER_LEN: usize = 24;

/// Length of one manifest entry.
pub const ENTRY_LEN: usize = 24;

/// Length of one (file id, base id) pair of the index table.
pub const INDEX_PAIR_LEN: usize = 8;

/// Position in the manifest of the entry that holds the index table.
pub const DEFAULT_INDEX_SLOT: usize = 1;

/// The three magic bytes that follow the version byte of a container.
pub open spec fn header_magic() -> Seq<u8> {
    seq![0x41u8, 0x4Eu8, 0x1Au8]
}

/// The four bytes that open the manifest.
pub open spec fn manifest_magic() -> Seq<u8> {
    seq![0x4Du8, 0x66u8, 0x74u8, 0x1Au8]
}

/// Why a container could not be loaded.
#[derive(Debug, Clone, Copy, PartialEq, Eq, Structural)]
pub enum FormatError {
    /// The path does not end in `.dat`.
    InvalidExtension,
    /// The bytes end before a structure that they declare.
    Truncated,
    /// The container header's magic bytes are wrong.
    InvalidMagic,
    /// The manifest's magic bytes are wrong.
    InvalidManifestMagic,
    /// The index table's manifest entry is missing or does not describe a table.
    IndexOutOfRange,
}

/// Why an identifier could not be resolved to a manifest entry.
#[derive(Debug, Clone, Copy, PartialEq, Eq, Structural)]
pub enum LookupError {
    /// No pair of the index table holds the identifier.
    NotFound,
    /// The matching pair names a manifest slot that does not exist.
    IndexOutOfRange,
}

/// Why the bytes of a chunk could not be read.
#[derive(Debug, Clone, Copy, PartialEq, Eq, Structural)]
pub enum IoError {
    /// The file ends before the chunk does.
    Truncated,
    /// The file does not exist.
    NotFound,
    /// The file may not be read.
    PermissionDenied,
}

/// Why a compressed chunk could not be inflated.
#[derive(Debug, Clone, Copy, PartialEq, Eq, Structural)]
pub enum DecompressionError {
    /// The compressed stream is damaged.
    CorruptStream,
    /// The stream uses a variant that the decompressor does not know.
    Unsupported,
}

/// Why a chunk could not be extracted.
#[derive(Debug, Clone, Copy, PartialEq, Eq, Structural)]
pub enum ExtractionError {
    Lookup(LookupError),
    Io(IoError),
    Decompression(DecompressionError),
}

/// Which of the two identifiers of an index pair a lookup matches.
#[derive(Debug, Clone, Copy, PartialEq, Eq, Structural)]
pub enum ArchiveId {
    FileId,
    BaseId,
}

/// The fixed header at the start of a container.
#[derive(Debug)]
pub struct DatHeader {
    pub version: u8,
    pub identifier: Vec<u8>,
    pub header_size: u32,
    pub unknown_field: u32,
    pub chunk_size: u32,
    pub crc: u32,
    pub unknown_field_2: u32,
    pub mft_offset: u64,
    pub mft_size: u32,
    pub flags: u32,
}

impl DatHeader {
    /// This header is the one stored in the first bytes of `b`.
    pub open spec fn read_from(self, b: Seq<u8>) -> bool {
        &&& HEADER_LEN <= b.len()
        &&& self.version == b[0]
        &&& self.identifier@ == b.subrange(1, 4)
        &&& self.header_size == u32_le(b, 4)
        &&& self.unknown_field == u32_le(b, 8)
        &&& self.chunk_size == u32_le(b, 12)
        &&& self.crc == u32_le(b, 16)
        &&& self.unknown_field_2 == u32_le(b, 20)
        &&& self.mft_offset == u64_le(b, 24)
        &&& self.mft_size == u32_le(b, 32)
        &&& self.flags == u32_le(b, 36)
    }

    /// The bytes that store this header.
    pub open spec fn bytes(self) -> Seq<u8> {
        let front = (seq![self.version] + self.identifier@) + (u32_bytes(self.header_size)
            + u32_bytes(self.unknown_field));
        let middle = (u32_bytes(self.chunk_size) + u32_bytes(self.crc)) + (u32_bytes(
            self.unknown_field_2,
        ) + u64_bytes(self.mft_offset));
        let back = u32_bytes(self.mft_size) + u32_bytes(self.flags);
        front + (middle + back)
    }
}

/// What reading the container header from `b` fails with, if anything; with
/// `strict`, magic bytes other than the container's are refused.
pub open spec fn header_error(b: Seq<u8>, strict: bool) -> Option<FormatError> {
    if b.len() < HEADER_LEN {
        Some(FormatError::Truncated)
    } else if strict && b.subrange(1, 4) != header_magic() {
        Some(FormatError::InvalidMagic)
    } else {
        None
    }
}


/// The header that opens the manifest.
#[derive(Debug)]
pub struct MFTHeader {
    pub identifier: Vec<u8>,
    pub unknown: u64,
    pub num_entries: u32,
    pub unknown_field_2: u32,
    pub unknown_field_3: u32,
}

impl MFTHeader {
    /// This header is the one stored at position `at` of `b`.
    pub open spec fn read_from(self, b: Seq<u8>, at: int) -> bool {
        &&& 0 <= at
        &&& at + MANIFEST_HEADER_LEN <= b.len()
        &&& self.identifier@ == b.subrange(at, at + 4)
        &&& self.unknown == u64_le(b, at + 4)
        &&& self.num_entries == u32_le(b, at + 12)
        &&& self.unknown_field_2 == u32_le(b, at + 16)
        &&& self.unknown_field_3 == u32_le(b, at + 20)
    }
}

/// One manifest entry: where a chunk lies in the container and how it is stored.
#[derive(Debug, Clone, Copy, PartialEq, Eq, Structural)]
pub struct MFTData {
    /// Position of the chunk's first byte in the container.
    pub offset: u64,
    /// Number of bytes the chunk takes in the container.
    pub size: u32,
    /// Zero where the chunk is stored as is, otherwise compressed.
    pub compression_flag: u16,
    pub entry_flag: u16,
    pub counter: u32,
    pub crc: u32,
}

/// One pair of the index table.
#[derive(Debug, Clone, Copy, PartialEq, Eq, Structural)]
pub struct MFTIndexData {
    pub file_id: u32,
    /// One more than the position of the pair's entry in the manifest.
    pub base_id: u32,
}

/// The manifest entry stored at position `at` of `b`.
pub open spec fn entry_at(b: Seq<u8>, at: int) -> MFTData {
    MFTData {
        offset: u64_le(b, at),
        size: u32_le(b, at + 8),
        compression_flag: u16_le(b, at + 12),
        entry_flag: u16_le(b, at + 14),
        counter: u32_le(b, at + 16),
        crc: u32_le(b, at + 20),
    }
}

/// The index pair stored at position `at` of `b`.
pub open spec fn pair_at(b: Seq<u8>, at: int) -> MFTIndexData {
    MFTIndexData { file_id: u32_le(b, at), base_id: u32_le(b, at + 4) }
}

/// Position of the manifest, as the container header of `b` gives it.
pub open spec fn manifest_offset(b: Seq<u8>) -> int {
    u64_le(b, 24) as int
}

/// Number of manifest entries, as the manifest header at `at` gives it.
pub open spec fn entry_count(b: Seq<u8>, at: int) -> int {
    u32_le(b, at + 12) as int
}

/// What reading the manifest header at `at` of `b` fails with, if anything.
pub open spec fn manifest_error(b: Seq<u8>, at: int) -> Option<FormatError> {
    if at + 4 > b.len() {
        Some(FormatError::Truncated)
    } else if b.subrange(at, at + 4) != manifest_magic() {
        Some(FormatError::InvalidManifestMagic)
    } else if at + MANIFEST_HEADER_LEN > b.len() {
        Some(FormatError::Truncated)
    } else {
        None
    }
}

/// The `n` manifest entries stored one after another from position `at` of `b`.
pub open spec fn entries_at(b: Seq<u8>, at: int, n: int) -> Seq<MFTData> {
    Seq::new(n as nat, |i: int| entry_at(b, at + ENTRY_LEN * i))
}

/// The index table that `e` describes in `b`: one pair per eight bytes.
pub open spec fn pairs_of(b: Seq<u8>, e: MFTData) -> Seq<MFTIndexData> {
    Seq::new((e.size / 8) as nat, |i: int| pair_at(b, e.offset + INDEX_PAIR_LEN * i))
}

/// The chunk of `e` lies within the first `len` bytes.
pub open spec fn within(e: MFTData, len: int) -> bool {
    e.offset + e.size <= len
}

/// The bytes of the chunk of `e` in `b`.
pub open spec fn chunk_of(b: Seq<u8>, e: MFTData) -> Seq<u8> {
    b.subrange(e.offset as int, e.offset + e.size)
}

/// What taking entry `slot` of `entries` as the index table of a container of
/// `len` bytes fails with, if anything.
pub open spec fn index_error(entries: Seq<MFTData>, slot: int, len: int) -> Option<FormatError> {
    if slot >= entries.len() {
        Some(FormatError::IndexOutOfRange)
    } else if entries[slot].size % 8 != 0 || !within(entries[slot], len) {
        Some(FormatError::IndexOutOfRange)
    } else {
        None
    }
}

/// What loading the container `b` fails with, if anything, with the index
/// table at manifest position `slot`.
pub open spec fn load_error(b: Seq<u8>, slot: int, strict: bool) -> Option<FormatError> {
    if header_error(b, strict) is Some {
        header_error(b, strict)
    } else {
        let at = manifest_offset(b);
        if manifest_error(b, at) is Some {
            manifest_error(b, at)
        } else {
            let start = at + MANIFEST_HEADER_LEN;
            let n = entry_count(b, at);
            if start + ENTRY_LEN * n > b.len() {
                Some(FormatError::Truncated)
            } else {
                let entries = entries_at(b, start, n);
                if index_error(entries, slot, b.len() as int) is Some {
                    index_error(entries, slot, b.len() as int)
                } else if exists|i: int|
                    0 <= i < n && !within(#[trigger] entries[i], b.len() as int) {
                    Some(FormatError::Truncated)
                } else {
                    None
                }
            }
        }
    }
}

impl MFTIndexData {
    /// This pair holds `id` as the identifier of kind `kind`.
    pub open spec fn matches(self, kind: ArchiveId, id: u32) -> bool {
        match kind {
            ArchiveId::FileId => self.file_id == id,
            ArchiveId::BaseId => self.base_id == id,
        }
    }
}

/// Position of the last pair of `pairs` that holds `id` as the identifier of
/// kind `kind`: a later pair wins over an earlier one.
pub open spec fn last_match(pairs: Seq<MFTIndexData>, kind: ArchiveId, id: u32) -> Option<int>
    decreases pairs.len(),
{
    if pairs.len() == 0 {
        None
    } else if pairs.last().matches(kind, id) {
        Some(pairs.len() - 1)
    } else {
        last_match(pairs.drop_last(), kind, id)
    }
}

/// The manifest entry that `id` resolves to through the index table `pairs`:
/// the base id of the last matching pair, counted from one, picks it.
pub open spec fn resolve_in(
    pairs: Seq<MFTIndexData>,
    entries: Seq<MFTData>,
    kind: ArchiveId,
    id: u32,
) -> Result<MFTData, LookupError> {
    match last_match(pairs, kind, id) {
        None => Err(LookupError::NotFound),
        Some(i) => {
            let base = pairs[i].base_id as int;
            if base == 0 || base > entries.len() {
                Err(LookupError::IndexOutOfRange)
            } else {
                Ok(entries[base - 1])
            }
        },
    }
}

/// A position found by `last_match` holds a matching pair, and no pair
/// matches where it finds none.
pub proof fn lemma_last_match_found(pairs: Seq<MFTIndexData>, kind: ArchiveId, id: u32)
    ensures
        match last_match(pairs, kind, id) {
            Some(k) => 0 <= k < pairs.len() && pairs[k].matches(kind, id),
            None => forall|j: int| 0 <= j < pairs.len() ==> !(#[trigger] pairs[j]).matches(kind, id),
        },
    decreases pairs.len(),
{
    if pairs.len() > 0 && !pairs.last().matches(kind, id) {
        lemma_last_match_found(pairs.drop_last(), kind, id);
        assert forall|j: int| 0 <= j < pairs.len() - 1 implies #[trigger] pairs[j]
            == pairs.drop_last()[j] by {}
        match last_match(pairs.drop_last(), kind, id) {
            Some(k) => {
                assert(pairs[k] == pairs.drop_last()[k]);
            },
            None => {
                assert forall|j: int| 0 <= j < pairs.len() implies !(#[trigger] pairs[j]).matches(
                    kind,
                    id,
                ) by {
                    if j < pairs.len() - 1 {
                        assert(pairs[j] == pairs.drop_last()[j]);
                    }
                }
            },
        }
    }
}

/// What extraction returns for what the decompressor returned.
pub open spec fn inflated(out: Result<Vec<u8>, DecompressionError>) -> Result<Vec<u8>, ExtractionError> {
    match out {
        Ok(v) => Ok(v),
        Err(e) => Err(ExtractionError::Decompression(e)),
    }
}

/// A loaded container: its two headers, its manifest and its index table.
#[derive(Debug)]
pub struct DatFile {
    pub header: DatHeader,
    pub mft_header: MFTHeader,
    pub mft_data: Vec<MFTData>,
    pub mft_index_data: Vec<MFTIndexData>,
}

impl DatFile {
    /// This is what loading `b` gives, with the index table at manifest
    /// position `slot`.
    pub open spec fn loaded_from(self, b: Seq<u8>, slot: int) -> bool {
        let at = manifest_offset(b);
        let n = entry_count(b, at);
        &&& self.header.read_from(b)
        &&& self.mft_header.read_from(b, at)
        &&& self.mft_data@ == entries_at(b, at + MANIFEST_HEADER_LEN, n)
        &&& 0 <= slot < n
        &&& self.mft_index_data@ == pairs_of(b, self.mft_data@[slot])
    }

    /// The manifest entry that `id` resolves to.
    pub open spec fn resolve_spec(self, kind: ArchiveId, id: u32) -> Result<MFTData, LookupError> {
        resolve_in(self.mft_index_data@, self.mft_data@, kind, id)
    }

    /// Reads the container header from the start of `bytes`; with `strict`,
    /// magic bytes other than the container's are refused.
    pub fn read_header(bytes: &[u8], strict: bool) -> (r: Result<DatHeader, FormatError>)
        ensures
            match r {
                Ok(h) => header_error(bytes@, strict) is None && h.read_from(bytes@),
                Err(e) => header_error(bytes@, strict) == Some(e),
            },
    {
        if bytes.len() < HEADER_LEN {
            return Err(FormatError::Truncated);
        }
        let magic_ok = bytes[1] == 0x41u8 && bytes[2] == 0x4Eu8 && bytes[3] == 0x1Au8;
        let ghost m = bytes@.subrange(1, 4);
        proof {
            if magic_ok {
                assert(m =~= header_magic());
            } else if m == header_magic() {
                assert(m[0] == bytes@[1] && m[1] == bytes@[2] && m[2] == bytes@[3]);
            }
        }
        if strict && !magic_ok {
            return Err(FormatError::InvalidMagic);
        }
        let mut identifier: Vec<u8> = Vec::new();
        identifier.push(bytes[1]);
        identifier.push(bytes[2]);
        identifier.push(bytes[3]);
        assert(identifier@ =~= m);
        Ok(
            DatHeader {
                version: bytes[0],
                identifier,
                header_size: u32_at(bytes, 4),
                unknown_field: u32_at(bytes, 8),
                chunk_size: u32_at(bytes, 12),
                crc: u32_at(bytes, 16),
                unknown_field_2: u32_at(bytes, 20),
                mft_offset: u64_at(bytes, 24),
                mft_size: u32_at(bytes, 32),
                flags: u32_at(bytes, 36),
            },
        )
    }

    /// Reads the manifest header at position `at` of `bytes`.
    pub fn read_mft_header(bytes: &[u8], at: u64) -> (r: Result<MFTHeader, FormatError>)
        ensures
            match r {
                Ok(h) => manifest_error(bytes@, at as int) is None && h.read_from(
                    bytes@,
                    at as int,
                ),
                Err(e) => manifest_error(bytes@, at as int) == Some(e),
            },
    {
        let len = bytes.len();
        if at > len as u64 || (len as u64 - at) < 4 {
            return Err(FormatError::Truncated);
        }
        let p = at as usize;
        let magic_ok = bytes[p] == 0x4Du8 && bytes[p + 1] == 0x66u8 && bytes[p + 2] == 0x74u8
            && bytes[p + 3] == 0x1Au8;
        let ghost m = bytes@.subrange(at as int, at + 4);
        proof {
            if magic_ok {
                assert(m =~= manifest_magic());
            } else if m == manifest_magic() {
                assert(m[0] == bytes@[p as int] && m[1] == bytes@[p + 1]);
                assert(m[2] == bytes@[p + 2] && m[3] == bytes@[p + 3]);
            }
        }
        if !magic_ok {
            return Err(FormatError::InvalidManifestMagic);
        }
        if len - p < MANIFEST_HEADER_LEN {
            return Err(FormatError::Truncated);
        }
        let mut identifier: Vec<u8> = Vec::new();
        identifier.push(bytes[p]);
        identifier.push(bytes[p + 1]);
        identifier.push(bytes[p + 2]);
        identifier.push(bytes[p + 3]);
        assert(identifier@ =~= m);
        Ok(
            MFTHeader {
                identifier,
                unknown: u64_at(bytes, p + 4),
                num_entries: u32_at(bytes, p + 12),
                unknown_field_2: u32_at(bytes, p + 16),
                unknown_field_3: u32_at(bytes, p + 20),
            },
        )
    }

    /// Reads the manifest entry at position `at` of `bytes`.
    fn read_entry(bytes: &[u8], at: usize) -> (r: MFTData)
        requires
            at + ENTRY_LEN <= bytes@.len(),
        ensures
            r == entry_at(bytes@, at as int),
    {
        // The length is a `usize`, so no position below overflows.
        let _len = bytes.len();
        MFTData {
            offset: u64_at(bytes, at),
            size: u32_at(bytes, at + 8),
            compression_flag: u16_at(bytes, at + 12),
            entry_flag: u16_at(bytes, at + 14),
            counter: u32_at(bytes, at + 16),
            crc: u32_at(bytes, at + 20),
        }
    }

    /// Reads the `count` manifest entries that follow one another from
    /// position `at` of `bytes`.
    pub fn read_mft_data(bytes: &[u8], at: usize, count: u32) -> (r: Result<
        Vec<MFTData>,
        FormatError,
    >)
        ensures
            match r {
                Ok(v) => at + ENTRY_LEN * count <= bytes@.len() && v@ == entries_at(
                    bytes@,
                    at as int,
                    count as int,
                ),
                Err(e) => at + ENTRY_LEN * count > bytes@.len() && e == FormatError::Truncated,
            },
    {
        let len = bytes.len();
        if at > len || ((len - at) / ENTRY_LEN) < count as usize {
            return Err(FormatError::Truncated);
        }
        let n = count as usize;
        let mut v: Vec<MFTData> = Vec::new();
        let mut i: usize = 0;
        while i < n
            invariant
                at + ENTRY_LEN * n <= len,
                len == bytes@.len(),
                i <= n,
                n == count,
                v@ =~= entries_at(bytes@, at as int, i as int),
            decreases n - i,
        {
            v.push(Self::read_entry(bytes, at + ENTRY_LEN * i));
            i = i + 1;
            assert(v@ =~= entries_at(bytes@, at as int, i as int));
        }
        Ok(v)
    }

    /// Reads the index table that entry `slot` of `entries` describes.
    pub fn read_mft_index(bytes: &[u8], entries: &Vec<MFTData>, slot: usize) -> (r: Result<
        Vec<MFTIndexData>,
        FormatError,
    >)
        ensures
            match r {
                Ok(v) => index_error(entries@, slot as int, bytes@.len() as int) is None && v@
                    == pairs_of(bytes@, entries@[slot as int]),
                Err(e) => index_error(entries@, slot as int, bytes@.len() as int) == Some(e),
            },
    {
        if slot >= entries.len() {
            return Err(FormatError::IndexOutOfRange);
        }
        let e = entries[slot];
        let len = bytes.len();
        if e.size % 8 != 0 || e.offset > len as u64 || (len as u64 - e.offset) < e.size as u64 {
            return Err(FormatError::IndexOutOfRange);
        }
        let at = e.offset as usize;
        let n = (e.size / 8) as usize;
        let mut v: Vec<MFTIndexData> = Vec::new();
        let mut i: usize = 0;
        while i < n
            invariant
                at + INDEX_PAIR_LEN * n <= len,
                len == bytes@.len(),
                i <= n,
                n == e.size / 8,
                at == e.offset,
                v@ =~= pairs_of(bytes@, e).take(i as int),
            decreases n - i,
        {
            let p = at + INDEX_PAIR_LEN * i;
            v.push(MFTIndexData { file_id: u32_at(bytes, p), base_id: u32_at(bytes, p + 4) });
            i = i + 1;
            assert(v@ =~= pairs_of(bytes@, e).take(i as int));
        }
        assert(v@ =~= pairs_of(bytes@, e));
        Ok(v)
    }

    /// Checks that the chunk of every entry lies within the first `len` bytes.
    fn check_bounds(entries: &Vec<MFTData>, len: usize) -> (r: Result<(), FormatError>)
        ensures
            match r {
                Ok(_) => forall|i: int|
                    0 <= i < entries@.len() ==> within(#[trigger] entries@[i], len as int),
                Err(e) => e == FormatError::Truncated && exists|i: int|
                    0 <= i < entries@.len() && !within(#[trigger] entries@[i], len as int),
            },
    {
        let mut i: usize = 0;
        while i < entries.len()
            invariant
                forall|j: int| 0 <= j < i ==> within(#[trigger] entries@[j], len as int),
            decreases entries.len() - i,
        {
            let e = entries[i];
            if e.offset > len as u64 || (len as u64 - e.offset) < e.size as u64 {
                assert(!within(entries@[i as int], len as int));
                return Err(FormatError::Truncated);
            }
            i = i + 1;
        }
        Ok(())
    }

    /// Loads a container from its bytes, taking the index table from manifest
    /// position `index_slot`; with `strict_magic`, a container header whose
    /// magic bytes are wrong is refused.
    pub fn load_with(bytes: &[u8], index_slot: usize, strict_magic: bool) -> (r: Result<
        DatFile,
        FormatError,
    >)
        ensures
            match r {
                Ok(d) => load_error(bytes@, index_slot as int, strict_magic) is None
                    && d.loaded_from(bytes@, index_slot as int),
                Err(e) => load_error(bytes@, index_slot as int, strict_magic) == Some(e),
            },
    {
        let len = bytes.len();
        let header = match Self::read_header(bytes, strict_magic) {
            Ok(h) => h,
            Err(e) => {
                return Err(e);
            },
        };
        let mft_header = match Self::read_mft_header(bytes, header.mft_offset) {
            Ok(h) => h,
            Err(e) => {
                return Err(e);
            },
        };
        assert(header.mft_offset + MANIFEST_HEADER_LEN <= len);
        let start = header.mft_offset as usize + MANIFEST_HEADER_LEN;
        let mft_data = match Self::read_mft_data(bytes, start, mft_header.num_entries) {
            Ok(v) => v,
            Err(e) => {
                return Err(e);
            },
        };
        let mft_index_data = match Self::read_mft_index(bytes, &mft_data, index_slot) {
            Ok(v) => v,
            Err(e) => {
                return Err(e);
            },
        };
        match Self::check_bounds(&mft_data, len) {
            Ok(_) => {},
            Err(e) => {
                return Err(e);
            },
        }
        Ok(DatFile { header, mft_header, mft_data, mft_index_data })
    }

    /// Loads a container from its bytes, with the index table at its usual
    /// manifest position and the container header's magic bytes checked.
    pub fn load_from_reader(bytes: &[u8]) -> (r: Result<DatFile, FormatError>)
        ensures
            match r {
                Ok(d) => load_error(bytes@, DEFAULT_INDEX_SLOT as int, true) is None
                    && d.loaded_from(bytes@, DEFAULT_INDEX_SLOT as int),
                Err(e) => load_error(bytes@, DEFAULT_INDEX_SLOT as int, true) == Some(e),
            },
    {
        Self::load_with(bytes, DEFAULT_INDEX_SLOT, true)
    }

    /// Finds the manifest entry that `id`, an identifier of kind `kind`,
    /// resolves to.
    pub fn resolve(&self, kind: ArchiveId, id: u32) -> (r: Result<MFTData, LookupError>)
        ensures
            r == self.resolve_spec(kind, id),
    {
        let pairs = &self.mft_index_data;
        let mut found: Option<usize> = None;
        let mut i: usize = 0;
        while i < pairs.len()
            invariant
                i <= pairs@.len(),
                match found {
                    None => last_match(pairs@.take(i as int), kind, id) is None,
                    Some(k) => last_match(pairs@.take(i as int), kind, id) == Some(k as int),
                },
            decreases pairs.len() - i,
        {
            let p = pairs[i];
            let hit = match kind {
                ArchiveId::FileId => p.file_id == id,
                ArchiveId::BaseId => p.base_id == id,
            };
            assert(pairs@.take(i + 1).drop_last() =~= pairs@.take(i as int));
            if hit {
                found = Some(i);
            }
            i = i + 1;
        }
        assert(pairs@.take(i as int) =~= pairs@);
        proof {
            lemma_last_match_found(pairs@, kind, id);
        }
        match found {
            None => Err(LookupError::NotFound),
            Some(k) => {
                let base = pairs[k].base_id;
                if base == 0 || base as usize > self.mft_data.len() {
                    Err(LookupError::IndexOutOfRange)
                } else {
                    Ok(self.mft_data[base as usize - 1])
                }
            },
        }
    }

    /// Copies the `length` bytes from position `offset` of `contents`.
    pub fn mft_read_data(contents: &[u8], offset: u64, length: u32) -> (r: Result<
        Vec<u8>,
        IoError,
    >)
        ensures
            match r {
                Ok(v) => offset + length <= contents@.len() && v@ == contents@.subrange(
                    offset as int,
                    offset + length,
                ),
                Err(e) => offset + length > contents@.len() && e == IoError::Truncated,
            },
    {
        let len = contents.len();
        if offset > len as u64 || (len as u64 - offset) < length as u64 {
            return Err(IoError::Truncated);
        }
        let start = offset as usize;
        Ok(slice_to_vec(slice_subrange(contents, start, start + length as usize)))
    }

    /// Extracts the chunk that `number`, an identifier of kind `number_type`,
    /// resolves to, from `contents`, the bytes of the container. A chunk that
    /// is stored as is comes back unchanged; a compressed one is handed to
    /// `inflate`, with its stored size as the first guess of its inflated
    /// size, and what `inflate` returns comes back, whatever its length.
    pub fn get_mft_data<F>(
        &self,
        contents: &[u8],
        number_type: ArchiveId,
        number: u32,
        inflate: F,
    ) -> (r: Result<Vec<u8>, ExtractionError>) where
        F: Fn(Vec<u8>, u32) -> Result<Vec<u8>, DecompressionError>,

        requires
            forall|input: Vec<u8>, size_hint: u32| inflate.requires((input, size_hint)),
        ensures
            match self.resolve_spec(number_type, number) {
                Err(e) => r == Err::<Vec<u8>, ExtractionError>(ExtractionError::Lookup(e)),
                Ok(entry) => if !within(entry, contents@.len() as int) {
                    r == Err::<Vec<u8>, ExtractionError>(ExtractionError::Io(IoError::Truncated))
                } else if entry.compression_flag == 0 {
                    match r {
                        Ok(v) => v@ == chunk_of(contents@, entry),
                        Err(_) => false,
                    }
                } else {
                    exists|input: Vec<u8>, out: Result<Vec<u8>, DecompressionError>|
                        {
                            &&& input@ == chunk_of(contents@, entry)
                            &&& #[trigger] inflate.ensures((input, entry.size), out)
                            &&& r == inflated(out)
                        }
                },
            },
    {
        let entry = match self.resolve(number_type, number) {
            Ok(entry) => entry,
            Err(e) => {
                return Err(ExtractionError::Lookup(e));
            },
        };
        let data = match Self::mft_read_data(contents, entry.offset, entry.size) {
            Ok(data) => data,
            Err(e) => {
                return Err(ExtractionError::Io(e));
            },
        };
        if entry.compression_flag == 0 {
            return Ok(data);
        }
        let ghost input = data;
        let out = inflate(data, entry.size);
        let r = match out {
            Ok(v) => Ok(v),
            Err(e) => Err(ExtractionError::Decompression(e)),
        };
        assert(inflate.ensures((input, entry.size), out));
        r
    }
}

} // verus!
