//! The layout of a whole archive, planned before any byte is written: which
//! bytes go where, and where the data of each file on disk is copied in.
use vstd::prelude::*;
use vstd::utf8::encode_utf8;
use crate::crc::crc32;
use crate::zip::{
    archive, central_directory, file_size_u32, laid_out, local_record, local_section,
    local_section_len, CentralEntry, ZipError, ZipWriter, CENTRAL_HEADER_FIXED_LEN,
    LOCAL_HEADER_FIXED_LEN, MAX_NAME_LEN,
};

verus! {

/// Where the data of an entry comes from.
pub enum EntryContent {
    /// A file on disk of `size` bytes whose CRC-32 is `crc32`; its bytes are
    /// copied in when the archive is written.
    OnDisk { crc32: u32, size: u64 },
    /// Bytes made by MorSteg itself.
    InMemory { bytes: Vec<u8> },
}

/// An entry to put into an archive.
pub struct PackageEntry {
    /// The entry name.
    pub name: String,
    /// Its data.
    pub content: EntryContent,
}

/// A piece of the archive, in writing order.
pub enum PackagePiece {
    /// These bytes, as they are.
    Bytes { bytes: Vec<u8> },
    /// The bytes of the file of entry `index`.
    FileData { index: usize },
}

/// What to write, in order, and what the central directory records.
pub struct PackagePlan {
    /// The pieces of the archive, in writing order.
    pub pieces: Vec<PackagePiece>,
    /// The central directory entries, one per package entry.
    pub central: Vec<CentralEntry>,
}

/// Byte length of the data of `e`.
pub open spec fn content_size(e: PackageEntry) -> int {
    match e.content {
        EntryContent::OnDisk { size, .. } => size as int,
        EntryContent::InMemory { bytes } => bytes@.len() as int,
    }
}

/// CRC-32 of the data of `e`.
pub open spec fn content_crc(e: PackageEntry) -> u32 {
    match e.content {
        EntryContent::OnDisk { crc32, .. } => crc32,
        EntryContent::InMemory { bytes } => crc32(bytes@),
    }
}

/// Bytes taken by the local records of `es`.
pub open spec fn records_len(es: Seq<PackageEntry>) -> int
    decreases es.len(),
{
    if es.len() == 0 {
        0
    } else {
        records_len(es.drop_last()) + LOCAL_HEADER_FIXED_LEN + encode_utf8(es.last().name@).len()
            + content_size(es.last())
    }
}

/// Bytes taken by the central directory headers of `es`.
pub open spec fn central_len(es: Seq<PackageEntry>) -> int
    decreases es.len(),
{
    if es.len() == 0 {
        0
    } else {
        central_len(es.drop_last()) + CENTRAL_HEADER_FIXED_LEN + encode_utf8(es.last().name@).len()
    }
}

/// Why entry `e` cannot be added at `offset`, if it cannot: data of 4 GiB or
/// more, a header that would start past 4 GiB, or a name over 65535 bytes.
pub open spec fn entry_failure(e: PackageEntry, offset: int) -> Option<ZipError> {
    if content_size(e) > u32::MAX {
        Some(
            match e.content {
                EntryContent::OnDisk { .. } => ZipError::FileTooLarge,
                EntryContent::InMemory { .. } => ZipError::EntryTooLarge,
            },
        )
    } else if offset > u32::MAX {
        Some(ZipError::ArchiveTooLarge)
    } else if encode_utf8(e.name@).len() > MAX_NAME_LEN {
        Some(ZipError::NameTooLong)
    } else {
        None
    }
}

/// The first failure among the entries of `es`, added in order.
pub open spec fn entries_failure(es: Seq<PackageEntry>) -> Option<ZipError>
    decreases es.len(),
{
    if es.len() == 0 {
        None
    } else {
        match entries_failure(es.drop_last()) {
            Some(f) => Some(f),
            None => entry_failure(es.last(), records_len(es.drop_last())),
        }
    }
}

/// Why an archive of `es` cannot be written, if it cannot: the first entry that
/// cannot be added, else a central directory that would end past 4 GiB, else
/// more than 65535 entries.
pub open spec fn plan_failure(es: Seq<PackageEntry>) -> Option<ZipError> {
    match entries_failure(es) {
        Some(f) => Some(f),
        None => if records_len(es) + central_len(es) > u32::MAX {
            Some(ZipError::ArchiveTooLarge)
        } else if es.len() > 0xffff {
            Some(ZipError::TooManyFiles)
        } else {
            None
        },
    }
}

/// The central directory entries record the package entries: names in UTF-8,
/// sizes and checksums of their data.
pub open spec fn records_entries(central: Seq<CentralEntry>, es: Seq<PackageEntry>) -> bool {
    &&& central.len() == es.len()
    &&& forall|i: int|
        0 <= i < es.len() ==> {
            &&& (#[trigger] central[i]).name@ == encode_utf8(es[i].name@)
            &&& central[i].size == content_size(es[i])
            &&& central[i].crc32 == content_crc(es[i])
        }
}

/// `data` gives each entry its data: the bytes of an in-memory entry, and as
/// many bytes as recorded for a file on disk.
pub open spec fn data_fits(es: Seq<PackageEntry>, data: Seq<Seq<u8>>) -> bool {
    &&& data.len() == es.len()
    &&& forall|i: int|
        0 <= i < es.len() ==> match (#[trigger] es[i]).content {
            EntryContent::OnDisk { size, .. } => data[i].len() == size,
            EntryContent::InMemory { bytes } => data[i] == bytes@,
        }
}

/// The bytes of `pieces`, with the data of entry `i` standing for `FileData(i)`.
pub open spec fn expand(pieces: Seq<PackagePiece>, data: Seq<Seq<u8>>) -> Seq<u8>
    decreases pieces.len(),
{
    if pieces.len() == 0 {
        Seq::empty()
    } else {
        expand(pieces.drop_last(), data) + match pieces.last() {
            PackagePiece::Bytes { bytes } => bytes@,
            PackagePiece::FileData { index } => data[index as int],
        }
    }
}

pub(crate) proof fn lemma_expand_push(pieces: Seq<PackagePiece>, p: PackagePiece, data: Seq<Seq<u8>>)
    ensures
        expand(pieces.push(p), data) == expand(pieces, data) + match p {
            PackagePiece::Bytes { bytes } => bytes@,
            PackagePiece::FileData { index } => data[index as int],
        },
{
    assert(pieces.push(p).drop_last() == pieces);
}

pub(crate) proof fn lemma_local_section_step(central: Seq<CentralEntry>, data: Seq<Seq<u8>>, k: int)
    requires
        0 <= k < central.len(),
        k < data.len(),
    ensures
        local_section(central.take(k + 1), data.take(k + 1)) == local_section(
            central.take(k),
            data.take(k),
        ) + local_record(central[k], data[k]),
{
    assert(central.take(k + 1).drop_last() == central.take(k));
    assert(data.take(k + 1).drop_last() == data.take(k));
}

proof fn lemma_central_len(central: Seq<CentralEntry>, es: Seq<PackageEntry>)
    requires
        records_entries(central, es),
    ensures
        central_directory(central).len() == central_len(es),
        local_section_len(central) == records_len(es),
    decreases es.len(),
{
    if es.len() > 0 {
        let c2 = central.drop_last();
        let e2 = es.drop_last();
        assert forall|i: int| 0 <= i < e2.len() implies {
            &&& (#[trigger] c2[i]).name@ == encode_utf8(e2[i].name@)
            &&& c2[i].size == content_size(e2[i])
            &&& c2[i].crc32 == content_crc(e2[i])
        } by {
            assert(c2[i] == central[i]);
            assert(e2[i] == es[i]);
        }
        lemma_central_len(c2, e2);
        crate::zip::lemma_central_header_len(central.last());
        assert(central.last() == central[central.len() - 1]);
    }
}

/// After planning the first `i` entries: none failed, the writer records them,
/// and the pieces lay out their local records.
spec fn planned_through(
    central: Seq<CentralEntry>,
    pieces: Seq<PackagePiece>,
    es: Seq<PackageEntry>,
    i: int,
) -> bool {
    &&& 0 <= i <= es.len()
    &&& entries_failure(es.take(i)) is None
    &&& records_entries(central, es.take(i))
    &&& laid_out(central)
    &&& forall|data: Seq<Seq<u8>>|
        data_fits(es, data) ==> expand(pieces, data) == local_section(central, data.take(i))
}

/// Plans entry `i`: its local header, then its data.
#[verifier::spinoff_prover]
#[verifier::rlimit(40)]
fn plan_entry(
    writer: &mut ZipWriter,
    pieces: &mut Vec<PackagePiece>,
    entries: &Vec<PackageEntry>,
    i: usize,
) -> (r: Result<(), ZipError>)
    requires
        i < entries@.len(),
        planned_through(old(writer).entries(), old(pieces)@, entries@, i as int),
    ensures
        match r {
            Ok(()) => planned_through(final(writer).entries(), final(pieces)@, entries@, i + 1),
            Err(e) => plan_failure(entries@) == Some(e),
        },
{
    let ghost before = writer.entries();
    let ghost old_pieces = pieces@;
    let e = &entries[i];
    assert(entries@.take(i + 1).drop_last() == entries@.take(i as int));
    assert(entries@.take(i + 1).last() == entries@[i as int]);
    proof {
        lemma_central_len(before, entries@.take(i as int));
    }
    match &e.content {
        EntryContent::OnDisk { crc32, size } => {
            let size32 = match file_size_u32(*size) {
                Ok(s) => s,
                Err(err) => {
                    proof {
                        lemma_failure_stays(entries@, i as int + 1);
                    }
                    return Err(err);
                },
            };
            let header = match writer.add_file_entry(e.name.as_str(), *crc32, size32) {
                Ok(h) => h,
                Err(err) => {
                    proof {
                        lemma_failure_stays(entries@, i as int + 1);
                    }
                    return Err(err);
                },
            };
            pieces.push(PackagePiece::Bytes { bytes: header });
            pieces.push(PackagePiece::FileData { index: i });
        },
        EntryContent::InMemory { bytes } => {
            let out = match writer.add_bytes_entry(e.name.as_str(), bytes.as_slice()) {
                Ok(o) => o,
                Err(err) => {
                    proof {
                        lemma_failure_stays(entries@, i as int + 1);
                    }
                    return Err(err);
                },
            };
            pieces.push(PackagePiece::Bytes { bytes: out });
        },
    }
    proof {
        let after = writer.entries();
        assert(after.drop_last() == before);
        assert(after[i as int] == after.last());
        assert(records_entries(after, entries@.take(i + 1))) by {
            assert forall|j: int| 0 <= j < i + 1 implies {
                &&& (#[trigger] after[j]).name@ == encode_utf8(entries@.take(i + 1)[j].name@)
                &&& after[j].size == content_size(entries@.take(i + 1)[j])
                &&& after[j].crc32 == content_crc(entries@.take(i + 1)[j])
            } by {
                if j < i {
                    assert(after[j] == before[j]);
                    assert(entries@.take(i + 1)[j] == entries@.take(i as int)[j]);
                }
            }
        }
        assert forall|data: Seq<Seq<u8>>| data_fits(entries@, data) implies expand(
            pieces@,
            data,
        ) == local_section(after, data.take(i + 1)) by {
            assert(after.take(i as int) == before);
            assert(after.take(i + 1) == after);
            lemma_local_section_step(after, data, i as int);
            match e.content {
                EntryContent::OnDisk { .. } => {
                    let mid = old_pieces.push(pieces@[pieces@.len() - 2]);
                    assert(pieces@ == mid.push(pieces@.last()));
                    lemma_expand_push(old_pieces, pieces@[pieces@.len() - 2], data);
                    lemma_expand_push(mid, pieces@.last(), data);
                },
                EntryContent::InMemory { .. } => {
                    assert(pieces@ == old_pieces.push(pieces@.last()));
                    lemma_expand_push(old_pieces, pieces@.last(), data);
                },
            }
        }
    }
    Ok(())
}

/// Plans an archive of `entries`, in order: each entry's local header followed by
/// its data, then the central directory and the end record. Fails exactly as
/// `plan_failure` says.
pub fn plan_archive(entries: &Vec<PackageEntry>) -> (r: Result<PackagePlan, ZipError>)
    ensures
        match r {
            Ok(_) => plan_failure(entries@) is None,
            Err(e) => plan_failure(entries@) == Some(e),
        },
        r matches Ok(plan) ==> {
            &&& records_entries(plan.central@, entries@)
            &&& laid_out(plan.central@)
            &&& forall|data: Seq<Seq<u8>>|
                data_fits(entries@, data) ==> expand(plan.pieces@, data) == archive(
                    plan.central@,
                    data,
                )
        },
{
    let mut writer = ZipWriter::new();
    let mut pieces: Vec<PackagePiece> = Vec::new();
    let mut i: usize = 0;
    assert(entries@.take(0) == Seq::<PackageEntry>::empty());
    assert forall|data: Seq<Seq<u8>>| data_fits(entries@, data) implies expand(pieces@, data)
        == local_section(writer.entries(), data.take(0)) by {}
    while i < entries.len()
        invariant
            planned_through(writer.entries(), pieces@, entries@, i as int),
        decreases entries@.len() - i,
    {
        match plan_entry(&mut writer, &mut pieces, entries, i) {
            Ok(()) => {},
            Err(err) => return Err(err),
        }
        i = i + 1;
    }
    assert(entries@.take(entries@.len() as int) == entries@);
    proof {
        lemma_central_len(writer.entries(), entries@);
    }
    let (tail, closed) = writer.finish();
    if let Err(err) = closed {
        return Err(err);
    }
    let ghost before_tail = pieces@;
    pieces.push(PackagePiece::Bytes { bytes: tail });
    let central = writer.into_entries();
    proof {
        reveal(archive);
        assert forall|data: Seq<Seq<u8>>| data_fits(entries@, data) implies expand(pieces@, data)
            == archive(central@, data) by {
            lemma_expand_push(before_tail, pieces@.last(), data);
            assert(data.take(data.len() as int) == data);
        }
    }
    Ok(PackagePlan { pieces, central })
}

/// Once an entry fails, the plan fails with the first failure.
proof fn lemma_failure_stays(es: Seq<PackageEntry>, k: int)
    requires
        0 < k <= es.len(),
        entries_failure(es.take(k - 1)) is None,
        entry_failure(es[k - 1], records_len(es.take(k - 1))) is Some,
    ensures
        plan_failure(es) == entry_failure(es[k - 1], records_len(es.take(k - 1))),
{
    assert(es.take(k).drop_last() == es.take(k - 1));
    assert(es.take(k).last() == es[k - 1]);
    lemma_failure_prefix(es, k);
}

proof fn lemma_failure_prefix(es: Seq<PackageEntry>, k: int)
    requires
        0 <= k <= es.len(),
        entries_failure(es.take(k)) is Some,
    ensures
        entries_failure(es) == entries_failure(es.take(k)),
    decreases es.len() - k,
{
    if k == es.len() {
        assert(es.take(k) == es);
    } else {
        assert(es.take(k + 1).drop_last() == es.take(k));
        lemma_failure_prefix(es, k + 1);
    }
}

} // verus!
