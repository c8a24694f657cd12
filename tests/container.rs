use dat_parser::archive::{
    ArchiveId, DatFile, DecompressionError, ExtractionError, FormatError, IoError, LookupError,
    MFTData, DEFAULT_INDEX_SLOT,
};
use dat_parser::le::{u16_at, u32_at, u64_at};
use dat_parser::path::{check_extension, is_dat_name};
use dat_parser::preview::{ascii_preview, hex_preview};

const RAW_CHUNK: &[u8] = b"hello, container";
const PACKED_CHUNK: &[u8] = &[9, 8, 7, 6, 5];

fn push_u16(v: &mut Vec<u8>, x: u16) {
    v.extend_from_slice(&x.to_le_bytes());
}

fn push_u32(v: &mut Vec<u8>, x: u32) {
    v.extend_from_slice(&x.to_le_bytes());
}

fn push_u64(v: &mut Vec<u8>, x: u64) {
    v.extend_from_slice(&x.to_le_bytes());
}

fn header_bytes(magic: [u8; 3], mft_offset: u64) -> Vec<u8> {
    let mut v = vec![0x05, magic[0], magic[1], magic[2]];
    push_u32(&mut v, 40);
    push_u32(&mut v, 0x1111_2222);
    push_u32(&mut v, 0x0001_0000);
    push_u32(&mut v, 0xDEAD_BEEF);
    push_u32(&mut v, 7);
    push_u64(&mut v, mft_offset);
    push_u32(&mut v, 0x0102_0304);
    push_u32(&mut v, 3);
    v
}

fn index_bytes(pairs: &[(u32, u32)]) -> Vec<u8> {
    let mut v = Vec::new();
    for &(file_id, base_id) in pairs {
        push_u32(&mut v, file_id);
        push_u32(&mut v, base_id);
    }
    v
}

/// A container whose manifest holds a raw chunk, the index table, and a
/// compressed chunk, in that order; `index_pad` bytes are added to the table.
fn container_with(pairs: &[(u32, u32)], index_pad: usize, manifest_magic: [u8; 4]) -> Vec<u8> {
    let mut index = index_bytes(pairs);
    index.extend(std::iter::repeat(0u8).take(index_pad));
    let data_start = 40 + 24 + 3 * 24;
    let chunks: [(&[u8], u16); 3] = [(RAW_CHUNK, 0), (&index, 0), (PACKED_CHUNK, 1)];
    let mut v = header_bytes([0x41, 0x4E, 0x1A], 40);
    v.extend_from_slice(&manifest_magic);
    push_u64(&mut v, 0xAABB_CCDD);
    push_u32(&mut v, 3);
    push_u32(&mut v, 0);
    push_u32(&mut v, 0);
    let mut offset = data_start as u64;
    for (i, (chunk, flag)) in chunks.iter().enumerate() {
        push_u64(&mut v, offset);
        push_u32(&mut v, chunk.len() as u32);
        push_u16(&mut v, *flag);
        push_u16(&mut v, 0x0F0F);
        push_u32(&mut v, i as u32);
        push_u32(&mut v, 0x1234_5678 + i as u32);
        offset += chunk.len() as u64;
    }
    for (chunk, _) in chunks.iter() {
        v.extend_from_slice(chunk);
    }
    v
}

fn container(pairs: &[(u32, u32)]) -> Vec<u8> {
    container_with(pairs, 0, [0x4D, 0x66, 0x74, 0x1A])
}

fn never_called(_: Vec<u8>, _: u32) -> Result<Vec<u8>, DecompressionError> {
    panic!("a raw chunk is not inflated")
}

#[test]
fn header_fields_round_trip() {
    let bytes = header_bytes([0x41, 0x4E, 0x1A], 0x0102_0304_0506_0708);
    let h = DatFile::read_header(&bytes, true).unwrap();
    assert_eq!(h.version, 0x05);
    assert_eq!(h.identifier, vec![0x41, 0x4E, 0x1A]);
    assert_eq!(h.header_size, 40);
    assert_eq!(h.unknown_field, 0x1111_2222);
    assert_eq!(h.chunk_size, 0x0001_0000);
    assert_eq!(h.crc, 0xDEAD_BEEF);
    assert_eq!(h.unknown_field_2, 7);
    assert_eq!(h.mft_offset, 0x0102_0304_0506_0708);
    assert_eq!(h.mft_size, 0x0102_0304);
    assert_eq!(h.flags, 3);
}

#[test]
fn header_too_short_is_truncated() {
    let bytes = header_bytes([0x41, 0x4E, 0x1A], 40);
    assert_eq!(DatFile::read_header(&bytes[..39], true).unwrap_err(), FormatError::Truncated);
    assert_eq!(DatFile::load_from_reader(&bytes[..10]).unwrap_err(), FormatError::Truncated);
}

#[test]
fn header_magic_checked_when_strict() {
    let bytes = header_bytes([0x41, 0x4E, 0x1B], 40);
    assert_eq!(DatFile::read_header(&bytes, true).unwrap_err(), FormatError::InvalidMagic);
    let h = DatFile::read_header(&bytes, false).unwrap();
    assert_eq!(h.identifier, vec![0x41, 0x4E, 0x1B]);
}

#[test]
fn loads_manifest_and_index() {
    let bytes = container(&[(100, 1), (200, 3)]);
    let d = DatFile::load_from_reader(&bytes).unwrap();
    assert_eq!(d.mft_header.identifier, vec![0x4D, 0x66, 0x74, 0x1A]);
    assert_eq!(d.mft_header.unknown, 0xAABB_CCDD);
    assert_eq!(d.mft_header.num_entries, 3);
    assert_eq!(d.mft_data.len(), 3);
    assert_eq!(d.mft_data.len(), d.mft_header.num_entries as usize);
    assert_eq!(d.mft_data[0].offset, 136);
    assert_eq!(d.mft_data[0].size, RAW_CHUNK.len() as u32);
    assert_eq!(d.mft_data[2].compression_flag, 1);
    assert_eq!(d.mft_data[1].entry_flag, 0x0F0F);
    assert_eq!(d.mft_data[1].counter, 1);
    assert_eq!(d.mft_data[2].crc, 0x1234_567A);
    assert_eq!(d.mft_index_data.len(), (d.mft_data[DEFAULT_INDEX_SLOT].size / 8) as usize);
    assert_eq!(d.mft_index_data.len(), 2);
    assert_eq!(d.mft_index_data[1].file_id, 200);
    assert_eq!(d.mft_index_data[1].base_id, 3);
}

#[test]
fn empty_index_table() {
    let bytes = container(&[]);
    let d = DatFile::load_from_reader(&bytes).unwrap();
    assert!(d.mft_index_data.is_empty());
    assert_eq!(d.resolve(ArchiveId::FileId, 1), Err(LookupError::NotFound));
}

#[test]
fn index_size_not_multiple_of_eight() {
    let bytes = container_with(&[(1, 1)], 4, [0x4D, 0x66, 0x74, 0x1A]);
    assert_eq!(DatFile::load_from_reader(&bytes).unwrap_err(), FormatError::IndexOutOfRange);
}

#[test]
fn index_slot_missing() {
    let bytes = container(&[(1, 1)]);
    assert_eq!(DatFile::load_with(&bytes, 3, true).unwrap_err(), FormatError::IndexOutOfRange);
    let d = DatFile::load_with(&bytes, 0, true).unwrap();
    assert_eq!(d.mft_index_data.len(), RAW_CHUNK.len() / 8);
}

#[test]
fn manifest_magic_wrong() {
    let bytes = container_with(&[(1, 1)], 0, [0x4D, 0x66, 0x74, 0x00]);
    assert_eq!(
        DatFile::load_from_reader(&bytes).unwrap_err(),
        FormatError::InvalidManifestMagic
    );
}

#[test]
fn manifest_past_end() {
    let mut bytes = header_bytes([0x41, 0x4E, 0x1A], 1000);
    bytes.extend_from_slice(&[0x4D, 0x66, 0x74, 0x1A]);
    assert_eq!(DatFile::load_from_reader(&bytes).unwrap_err(), FormatError::Truncated);
    let mut short = header_bytes([0x41, 0x4E, 0x1A], 40);
    short.extend_from_slice(&[0x4D, 0x66, 0x74, 0x1A, 0, 0]);
    assert_eq!(DatFile::load_from_reader(&short).unwrap_err(), FormatError::Truncated);
}

#[test]
fn entries_past_end() {
    let bytes = container(&[(1, 1)]);
    assert_eq!(DatFile::load_from_reader(&bytes[..100]).unwrap_err(), FormatError::Truncated);
}

#[test]
fn chunk_past_end_refused_at_load() {
    let bytes = container(&[(1, 1)]);
    let cut = &bytes[..bytes.len() - 1];
    assert_eq!(DatFile::load_from_reader(cut).unwrap_err(), FormatError::Truncated);
}

#[test]
fn resolve_by_file_id() {
    let bytes = container(&[(100, 1), (200, 3)]);
    let d = DatFile::load_from_reader(&bytes).unwrap();
    let e: MFTData = d.resolve(ArchiveId::FileId, 200).unwrap();
    assert_eq!(e, d.mft_data[2]);
    assert_eq!(d.resolve(ArchiveId::FileId, 100).unwrap(), d.mft_data[0]);
}

#[test]
fn resolve_by_base_id() {
    let bytes = container(&[(100, 1), (200, 3)]);
    let d = DatFile::load_from_reader(&bytes).unwrap();
    assert_eq!(d.resolve(ArchiveId::BaseId, 3).unwrap(), d.mft_data[2]);
    assert_eq!(d.resolve(ArchiveId::BaseId, 2), Err(LookupError::NotFound));
}

#[test]
fn resolve_later_pair_wins() {
    let bytes = container(&[(100, 1), (100, 3), (7, 2)]);
    let d = DatFile::load_from_reader(&bytes).unwrap();
    assert_eq!(d.resolve(ArchiveId::FileId, 100).unwrap(), d.mft_data[2]);
}

#[test]
fn resolve_not_found() {
    let bytes = container(&[(100, 1)]);
    let d = DatFile::load_from_reader(&bytes).unwrap();
    assert_eq!(d.resolve(ArchiveId::FileId, 101), Err(LookupError::NotFound));
}

#[test]
fn resolve_base_id_out_of_range() {
    let bytes = container(&[(100, 0), (200, 4), (300, 3)]);
    let d = DatFile::load_from_reader(&bytes).unwrap();
    assert_eq!(d.resolve(ArchiveId::FileId, 100), Err(LookupError::IndexOutOfRange));
    assert_eq!(d.resolve(ArchiveId::FileId, 200), Err(LookupError::IndexOutOfRange));
    assert_eq!(d.resolve(ArchiveId::FileId, 300).unwrap(), d.mft_data[2]);
}

#[test]
fn extract_raw_chunk() {
    let bytes = container(&[(100, 1)]);
    let d = DatFile::load_from_reader(&bytes).unwrap();
    let out = d.get_mft_data(&bytes, ArchiveId::FileId, 100, never_called).unwrap();
    assert_eq!(out, RAW_CHUNK.to_vec());
    let e = d.mft_data[0];
    let slice = &bytes[e.offset as usize..(e.offset + e.size as u64) as usize];
    assert_eq!(out.as_slice(), slice);
}

#[test]
fn extract_compressed_chunk_larger_than_hint() {
    let bytes = container(&[(100, 3)]);
    let d = DatFile::load_from_reader(&bytes).unwrap();
    let inflate = |input: Vec<u8>, hint: u32| -> Result<Vec<u8>, DecompressionError> {
        assert_eq!(input, PACKED_CHUNK.to_vec());
        assert_eq!(hint, PACKED_CHUNK.len() as u32);
        Ok((0u8..40).collect())
    };
    let out = d.get_mft_data(&bytes, ArchiveId::FileId, 100, inflate).unwrap();
    assert_eq!(out, (0u8..40).collect::<Vec<u8>>());
}

#[test]
fn extract_decompression_fails() {
    let bytes = container(&[(100, 3)]);
    let d = DatFile::load_from_reader(&bytes).unwrap();
    let inflate = |_: Vec<u8>, _: u32| Err(DecompressionError::CorruptStream);
    assert_eq!(
        d.get_mft_data(&bytes, ArchiveId::FileId, 100, inflate),
        Err(ExtractionError::Decompression(DecompressionError::CorruptStream))
    );
    let unsupported = |_: Vec<u8>, _: u32| Err(DecompressionError::Unsupported);
    assert_eq!(
        d.get_mft_data(&bytes, ArchiveId::BaseId, 3, unsupported),
        Err(ExtractionError::Decompression(DecompressionError::Unsupported))
    );
}

#[test]
fn extract_lookup_errors() {
    let bytes = container(&[(100, 0)]);
    let d = DatFile::load_from_reader(&bytes).unwrap();
    assert_eq!(
        d.get_mft_data(&bytes, ArchiveId::FileId, 5, never_called),
        Err(ExtractionError::Lookup(LookupError::NotFound))
    );
    assert_eq!(
        d.get_mft_data(&bytes, ArchiveId::FileId, 100, never_called),
        Err(ExtractionError::Lookup(LookupError::IndexOutOfRange))
    );
}

#[test]
fn extract_from_short_contents() {
    let bytes = container(&[(100, 1)]);
    let d = DatFile::load_from_reader(&bytes).unwrap();
    assert_eq!(
        d.get_mft_data(&bytes[..140], ArchiveId::FileId, 100, never_called),
        Err(ExtractionError::Io(IoError::Truncated))
    );
}

#[test]
fn read_chunk_bytes() {
    let data = [1u8, 2, 3, 4, 5, 6];
    assert_eq!(DatFile::mft_read_data(&data, 2, 3).unwrap(), vec![3, 4, 5]);
    assert_eq!(DatFile::mft_read_data(&data, 6, 0).unwrap(), Vec::<u8>::new());
    assert_eq!(DatFile::mft_read_data(&data, 4, 3), Err(IoError::Truncated));
    assert_eq!(DatFile::mft_read_data(&data, u64::MAX, 1), Err(IoError::Truncated));
}

#[test]
fn little_endian_reads() {
    let data = [0x01u8, 0x02, 0x03, 0x04, 0x05, 0x06, 0x07, 0x08, 0x09];
    assert_eq!(u16_at(&data, 1), 0x0302);
    assert_eq!(u32_at(&data, 0), 0x0403_0201);
    assert_eq!(u64_at(&data, 1), 0x0908_0706_0504_0302);
}

#[test]
fn extension_rule() {
    assert_eq!(check_extension("Gw2.dat"), Ok(()));
    assert_eq!(check_extension("C:\\Games\\Local.DAT"), Ok(()));
    assert_eq!(check_extension("archive.Dat"), Ok(()));
    assert_eq!(check_extension("archive.txt"), Err(FormatError::InvalidExtension));
    assert_eq!(check_extension("dat"), Err(FormatError::InvalidExtension));
    assert_eq!(check_extension(""), Err(FormatError::InvalidExtension));
    assert!(is_dat_name("x.dat"));
    assert!(!is_dat_name("x.DAT"));
}

#[test]
fn previews() {
    let data = b"AB\x00\x7f~ 0123456789abcdefXYZ";
    assert_eq!(ascii_preview(data), b"AB..~ 0123456789".to_vec());
    assert_eq!(hex_preview(&[0x00, 0xAB, 0x7F]), b"00 AB 7F ".to_vec());
    assert_eq!(hex_preview(data).len(), 48);
    assert!(ascii_preview(&[]).is_empty());
}
