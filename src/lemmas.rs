//! What holds of every container and every lookup.
use crate::archive::{
    entries_at, entry_count, header_error, header_magic, last_match, load_error,
    manifest_error, manifest_magic, manifest_offset, ArchiveId, DatFile, DatHeader, FormatError,
    LookupError, MFTIndexData, ENTRY_LEN, HEADER_LEN, MANIFEST_HEADER_LEN,
};
use crate::le::{lemma_u32_round_trip, lemma_u64_round_trip, u32_bytes, u64_bytes};
use vstd::prelude::*;

verus! {

/// Reading a container header back from the bytes that store it gives every
/// field of it, and the header is accepted: always where magic bytes are not
/// checked, and where they are if it holds the container's magic bytes.
pub proof fn lemma_header_round_trip(h: DatHeader, b: Seq<u8>)
    requires
        h.identifier@.len() == 3,
        HEADER_LEN <= b.len(),
        b.subrange(0, HEADER_LEN as int) == h.bytes(),
    ensures
        h.read_from(b),
        header_error(b, false) is None,
        h.identifier@ == header_magic() ==> header_error(b, true) is None,
{
    let f1 = seq![h.version] + h.identifier@;
    let f2 = u32_bytes(h.header_size) + u32_bytes(h.unknown_field);
    let m1 = u32_bytes(h.chunk_size) + u32_bytes(h.crc);
    let m2 = u32_bytes(h.unknown_field_2) + u64_bytes(h.mft_offset);
    let back = u32_bytes(h.mft_size) + u32_bytes(h.flags);
    lemma_split(b, 0, f1 + f2, (m1 + m2) + back);
    lemma_split(b, 0, f1, f2);
    lemma_split(b, 4, u32_bytes(h.header_size), u32_bytes(h.unknown_field));
    lemma_split(b, 12, m1 + m2, back);
    lemma_split(b, 12, m1, m2);
    lemma_split(b, 12, u32_bytes(h.chunk_size), u32_bytes(h.crc));
    lemma_split(b, 20, u32_bytes(h.unknown_field_2), u64_bytes(h.mft_offset));
    lemma_split(b, 32, u32_bytes(h.mft_size), u32_bytes(h.flags));
    assert(b[0] == b.subrange(0, 4)[0]);
    assert(b.subrange(1, 4) =~= b.subrange(0, 4).subrange(1, 4));
    assert(f1.subrange(1, 4) =~= h.identifier@);
    lemma_u32_round_trip(h.header_size, b, 4);
    lemma_u32_round_trip(h.unknown_field, b, 8);
    lemma_u32_round_trip(h.chunk_size, b, 12);
    lemma_u32_round_trip(h.crc, b, 16);
    lemma_u32_round_trip(h.unknown_field_2, b, 20);
    lemma_u64_round_trip(h.mft_offset, b, 24);
    lemma_u32_round_trip(h.mft_size, b, 32);
    lemma_u32_round_trip(h.flags, b, 36);
}

/// Where bytes `at..` of `b` hold `x` followed by `y`, they hold `x`, and
/// then `y`.
proof fn lemma_split(b: Seq<u8>, at: int, x: Seq<u8>, y: Seq<u8>)
    requires
        0 <= at,
        at + x.len() + y.len() <= b.len(),
        b.subrange(at, at + x.len() + y.len()) == x + y,
    ensures
        b.subrange(at, at + x.len()) == x,
        b.subrange(at + x.len(), at + x.len() + y.len()) == y,
{
    let w = b.subrange(at, at + x.len() + y.len());
    assert forall|k: int| 0 <= k < x.len() implies b.subrange(at, at + x.len())[k] == x[k] by {
        assert(w[k] == (x + y)[k]);
    }
    assert forall|k: int| 0 <= k < y.len() implies b.subrange(
        at + x.len(),
        at + x.len() + y.len(),
    )[k] == y[k] by {
        assert(w[x.len() + k] == (x + y)[x.len() + k]);
    }
    assert(b.subrange(at, at + x.len()) =~= x);
    assert(b.subrange(at + x.len(), at + x.len() + y.len()) =~= y);
}

/// A loaded manifest holds exactly as many entries as its header declares.
pub proof fn lemma_entry_count(d: DatFile, b: Seq<u8>, slot: int)
    requires
        d.loaded_from(b, slot),
    ensures
        d.mft_data@.len() == d.mft_header.num_entries,
        d.mft_data@.len() == entry_count(b, manifest_offset(b)),
{
}

/// A loaded index table holds one pair per eight bytes of the manifest entry
/// that stores it.
pub proof fn lemma_index_table_len(d: DatFile, b: Seq<u8>, slot: int)
    requires
        d.loaded_from(b, slot),
    ensures
        d.mft_index_data@.len() == d.mft_data@[slot].size / 8,
{
}

/// Where the manifest entry that should hold the index table has a size
/// that is not a multiple of eight, loading fails with `IndexOutOfRange`.
pub proof fn lemma_index_size_refused(b: Seq<u8>, slot: int, strict: bool)
    requires
        header_error(b, strict) is None,
        manifest_error(b, manifest_offset(b)) is None,
        manifest_offset(b) + MANIFEST_HEADER_LEN + ENTRY_LEN * entry_count(b, manifest_offset(b))
            <= b.len(),
        0 <= slot < entry_count(b, manifest_offset(b)),
        entries_at(
            b,
            manifest_offset(b) + MANIFEST_HEADER_LEN,
            entry_count(b, manifest_offset(b)),
        )[slot].size % 8 != 0,
    ensures
        load_error(b, slot, strict) == Some(FormatError::IndexOutOfRange),
{
}

/// Where the manifest's magic bytes are wrong, loading fails with
/// `InvalidManifestMagic`, and so gives no container at all.
pub proof fn lemma_bad_manifest_magic(b: Seq<u8>, slot: int, strict: bool)
    requires
        header_error(b, strict) is None,
        manifest_offset(b) + 4 <= b.len(),
        b.subrange(manifest_offset(b), manifest_offset(b) + 4) != manifest_magic(),
    ensures
        load_error(b, slot, strict) == Some(FormatError::InvalidManifestMagic),
{
}

/// The last pair that matches is the one found, whatever pairs before it match.
proof fn lemma_last_match_is(pairs: Seq<MFTIndexData>, kind: ArchiveId, id: u32, j: int)
    requires
        0 <= j < pairs.len(),
        pairs[j].matches(kind, id),
        forall|k: int| j < k < pairs.len() ==> !(#[trigger] pairs[k]).matches(kind, id),
    ensures
        last_match(pairs, kind, id) == Some(j),
    decreases pairs.len(),
{
    if j < pairs.len() - 1 {
        let init = pairs.drop_last();
        assert(!pairs[pairs.len() - 1].matches(kind, id));
        assert forall|k: int| j < k < init.len() implies !(#[trigger] init[k]).matches(kind, id) by {
            assert(init[k] == pairs[k]);
        }
        assert(init[j] == pairs[j]);
        lemma_last_match_is(init, kind, id, j);
    }
}

/// No pair matches, so none is found.
proof fn lemma_last_match_none(pairs: Seq<MFTIndexData>, kind: ArchiveId, id: u32)
    requires
        forall|k: int| 0 <= k < pairs.len() ==> !(#[trigger] pairs[k]).matches(kind, id),
    ensures
        last_match(pairs, kind, id) is None,
    decreases pairs.len(),
{
    if pairs.len() > 0 {
        let init = pairs.drop_last();
        assert(!pairs[pairs.len() - 1].matches(kind, id));
        assert forall|k: int| 0 <= k < init.len() implies !(#[trigger] init[k]).matches(kind, id) by {
            assert(init[k] == pairs[k]);
        }
        lemma_last_match_none(init, kind, id);
    }
}

/// An identifier resolves through the last pair of the index table that holds
/// it, earlier pairs with the same identifier notwithstanding: to the manifest
/// entry at that pair's base id less one.
pub proof fn lemma_resolve_last_match_wins(d: DatFile, kind: ArchiveId, id: u32, j: int)
    requires
        0 <= j < d.mft_index_data@.len(),
        d.mft_index_data@[j].matches(kind, id),
        forall|k: int|
            j < k < d.mft_index_data@.len() ==> !(#[trigger] d.mft_index_data@[k]).matches(
                kind,
                id,
            ),
        1 <= d.mft_index_data@[j].base_id <= d.mft_data@.len(),
    ensures
        d.resolve_spec(kind, id) == Ok::<_, LookupError>(
            d.mft_data@[d.mft_index_data@[j].base_id - 1],
        ),
{
    lemma_last_match_is(d.mft_index_data@, kind, id, j);
}

/// An identifier that no pair of the index table holds resolves to
/// `NotFound`.
pub proof fn lemma_resolve_not_found(d: DatFile, kind: ArchiveId, id: u32)
    requires
        forall|k: int|
            0 <= k < d.mft_index_data@.len() ==> !(#[trigger] d.mft_index_data@[k]).matches(
                kind,
                id,
            ),
    ensures
        d.resolve_spec(kind, id) == Err::<crate::archive::MFTData, _>(LookupError::NotFound),
{
    lemma_last_match_none(d.mft_index_data@, kind, id);
}

} // verus!
