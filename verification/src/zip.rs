use vstd::prelude::*;
use vstd::string::*;
use crate::crc::{crc32, crc32_bytes};

verus! {

/// Signature of a local file header.
pub const LOCAL_HEADER_SIGNATURE: u32 = 0x0403_4b50;

/// Signature of a central directory file header.
pub const CENTRAL_HEADER_SIGNATURE: u32 = 0x0201_4b50;

/// Signature of the end of central directory record.
pub const END_OF_CENTRAL_DIRECTORY_SIGNATURE: u32 = 0x0605_4b50;

/// "Version needed to extract" (and "made by"): 2.0.
pub const ZIP_VERSION: u16 = 20;

/// General purpose flags: bit 11, the entry name is UTF-8.
pub const UTF8_NAME_FLAG: u16 = 0x0800;

/// Byte length of a local file header without its name.
pub const LOCAL_HEADER_FIXED_LEN: u64 = 30;

/// Byte length of a central directory header without its name.
pub const CENTRAL_HEADER_FIXED_LEN: u64 = 46;

/// The largest entry name length, in bytes, that a header can record.
pub const MAX_NAME_LEN: usize = 0xffff;

/// Why the archive writer refused to go on.
#[derive(Debug, Clone, Copy, PartialEq, Eq, Structural)]
pub enum ZipError {
    /// An entry name is longer than 65535 bytes.
    NameTooLong,
    /// A file on disk is larger than 4 GiB minus one byte.
    FileTooLarge,
    /// A generated entry is larger than 4 GiB minus one byte.
    EntryTooLarge,
    /// An offset in the archive would not fit in 32 bits.
    ArchiveTooLarge,
    /// More than 65535 entries.
    TooManyFiles,
}

impl ZipError {
    /// The sentence that reports this error to a person.
    pub fn message(&self) -> (m: &'static str)
        ensures
            m@ == match *self {
                ZipError::NameTooLong => "ZIP name too long"@,
                ZipError::FileTooLarge => "file is too large for this simple ZIP writer"@,
                ZipError::EntryTooLarge => "generated entry is too large"@,
                ZipError::ArchiveTooLarge => "ZIP file is too large for this simple ZIP writer"@,
                ZipError::TooManyFiles => "too many files for this simple ZIP writer"@,
            },
    {
        match self {
            ZipError::NameTooLong => "ZIP name too long",
            ZipError::FileTooLarge => "file is too large for this simple ZIP writer",
            ZipError::EntryTooLarge => "generated entry is too large",
            ZipError::ArchiveTooLarge => "ZIP file is too large for this simple ZIP writer",
            ZipError::TooManyFiles => "too many files for this simple ZIP writer",
        }
    }
}

/// Little-endian encoding of a 16-bit value.
pub open spec fn le16(v: u16) -> Seq<u8> {
    seq![(v & 0xff) as u8, (v >> 8) as u8]
}

/// Little-endian encoding of a 32-bit value.
pub open spec fn le32(v: u32) -> Seq<u8> {
    seq![(v & 0xff) as u8, ((v >> 8) & 0xff) as u8, ((v >> 16) & 0xff) as u8, (v >> 24) as u8]
}

/// The local file header of a stored (uncompressed) entry named `name`.
#[verifier::opaque]
pub open spec fn local_header(name: Seq<u8>, crc: u32, size: u32) -> Seq<u8> {
    le32(LOCAL_HEADER_SIGNATURE) + le16(ZIP_VERSION) + le16(UTF8_NAME_FLAG)
        + le16(0) + le16(0) + le16(0) + le32(crc) + le32(size) + le32(size)
        + le16(name.len() as u16) + le16(0) + name
}

/// The central directory header of a stored entry whose local header starts at `offset`.
#[verifier::opaque]
pub open spec fn central_header(name: Seq<u8>, crc: u32, size: u32, offset: u32) -> Seq<u8> {
    le32(CENTRAL_HEADER_SIGNATURE) + le16(ZIP_VERSION) + le16(ZIP_VERSION)
        + le16(UTF8_NAME_FLAG) + le16(0) + le16(0) + le16(0) + le32(crc) + le32(size)
        + le32(size) + le16(name.len() as u16) + le16(0) + le16(0) + le16(0) + le16(0)
        + le32(0) + le32(offset) + name
}

/// The end of central directory record of a single-disk archive.
#[verifier::opaque]
pub open spec fn end_of_central_directory(count: u16, size: u32, offset: u32) -> Seq<u8> {
    le32(END_OF_CENTRAL_DIRECTORY_SIGNATURE) + le16(0) + le16(0) + le16(count) + le16(count)
        + le32(size) + le32(offset) + le16(0)
}

/// What the central directory records of one entry.
pub struct CentralEntry {
    /// The entry name, UTF-8 encoded.
    pub name: Vec<u8>,
    /// CRC-32 of the entry data.
    pub crc32: u32,
    /// Byte length of the entry data.
    pub size: u32,
    /// Where the entry's local header starts in the archive.
    pub local_header_offset: u32,
}

/// The central directory header of `e`.
pub open spec fn entry_central_header(e: CentralEntry) -> Seq<u8> {
    central_header(e.name@, e.crc32, e.size, e.local_header_offset)
}

/// The central directory: the headers of `entries`, in order.
pub open spec fn central_directory(entries: Seq<CentralEntry>) -> Seq<u8>
    decreases entries.len(),
{
    if entries.len() == 0 {
        Seq::empty()
    } else {
        central_directory(entries.drop_last()) + entry_central_header(entries.last())
    }
}

/// Bytes taken in the archive by the local header and data of `e`.
pub open spec fn local_record_len(e: CentralEntry) -> int {
    LOCAL_HEADER_FIXED_LEN + e.name@.len() + e.size
}

/// Bytes taken by the local headers and data of `entries`.
pub open spec fn local_section_len(entries: Seq<CentralEntry>) -> int
    decreases entries.len(),
{
    if entries.len() == 0 {
        0
    } else {
        local_section_len(entries.drop_last()) + local_record_len(entries.last())
    }
}

/// The local header of `e` followed by its data.
pub open spec fn local_record(e: CentralEntry, data: Seq<u8>) -> Seq<u8> {
    local_header(e.name@, e.crc32, e.size) + data
}

/// The local records of `entries`, each followed by its data `data[i]`.
pub open spec fn local_section(entries: Seq<CentralEntry>, data: Seq<Seq<u8>>) -> Seq<u8>
    decreases entries.len(),
{
    if entries.len() == 0 || data.len() == 0 {
        Seq::empty()
    } else {
        local_section(entries.drop_last(), data.drop_last()) + local_record(
            entries.last(),
            data.last(),
        )
    }
}

/// The whole archive: local records, central directory, end record.
#[verifier::opaque]
pub open spec fn archive(entries: Seq<CentralEntry>, data: Seq<Seq<u8>>) -> Seq<u8> {
    local_section(entries, data) + central_directory(entries) + end_of_central_directory(
        entries.len() as u16,
        central_directory(entries).len() as u32,
        local_section_len(entries) as u32,
    )
}

/// Appends the little-endian bytes of a 16-bit value.
pub fn write_u16(out: &mut Vec<u8>, value: u16)
    ensures
        final(out)@ == old(out)@ + le16(value),
{
    out.push((value & 0xff) as u8);
    out.push((value >> 8) as u8);
}

/// Appends the little-endian bytes of a 32-bit value.
pub fn write_u32(out: &mut Vec<u8>, value: u32)
    ensures
        final(out)@ == old(out)@ + le32(value),
{
    out.push((value & 0xff) as u8);
    out.push(((value >> 8) & 0xff) as u8);
    out.push(((value >> 16) & 0xff) as u8);
    out.push((value >> 24) as u8);
}

fn write_bytes(out: &mut Vec<u8>, bytes: &[u8])
    ensures
        final(out)@ == old(out)@ + bytes@,
{
    let mut i: usize = 0;
    while i < bytes.len()
        invariant
            i <= bytes.len(),
            out@ == old(out)@ + bytes@.take(i as int),
        decreases bytes.len() - i,
    {
        out.push(bytes[i]);
        i = i + 1;
        assert(bytes@.take(i as int) == bytes@.take(i - 1).push(bytes@[i - 1]));
    }
    assert(bytes@.take(bytes.len() as int) == bytes@);
}

/// The local header of a stored entry, or `NameTooLong` when the name does not
/// fit in 65535 bytes.
pub fn write_local_header(name: &[u8], crc32: u32, size: u32) -> (r: Result<Vec<u8>, ZipError>)
    ensures
        name@.len() > MAX_NAME_LEN ==> r == Err::<Vec<u8>, ZipError>(ZipError::NameTooLong),
        name@.len() <= MAX_NAME_LEN ==> (r matches Ok(h) && h@ == local_header(name@, crc32, size)),
{
    if name.len() > MAX_NAME_LEN {
        return Err(ZipError::NameTooLong);
    }
    let mut out: Vec<u8> = Vec::new();
    write_u32(&mut out, LOCAL_HEADER_SIGNATURE);
    write_u16(&mut out, ZIP_VERSION);
    write_u16(&mut out, UTF8_NAME_FLAG);
    write_u16(&mut out, 0);
    write_u16(&mut out, 0);
    write_u16(&mut out, 0);
    write_u32(&mut out, crc32);
    write_u32(&mut out, size);
    write_u32(&mut out, size);
    write_u16(&mut out, name.len() as u16);
    write_u16(&mut out, 0);
    write_bytes(&mut out, name);
    proof {
        reveal(local_header);
    }
    Ok(out)
}

/// The central directory header of `entry`, or `NameTooLong` when its name does
/// not fit in 65535 bytes.
pub fn write_central_header(entry: &CentralEntry) -> (r: Result<Vec<u8>, ZipError>)
    ensures
        entry.name@.len() > MAX_NAME_LEN ==> r == Err::<Vec<u8>, ZipError>(
            ZipError::NameTooLong,
        ),
        entry.name@.len() <= MAX_NAME_LEN ==> (r matches Ok(h) && h@ == entry_central_header(
            *entry,
        )),
{
    if entry.name.len() > MAX_NAME_LEN {
        return Err(ZipError::NameTooLong);
    }
    let mut out: Vec<u8> = Vec::new();
    write_u32(&mut out, CENTRAL_HEADER_SIGNATURE);
    write_u16(&mut out, ZIP_VERSION);
    write_u16(&mut out, ZIP_VERSION);
    write_u16(&mut out, UTF8_NAME_FLAG);
    write_u16(&mut out, 0);
    write_u16(&mut out, 0);
    write_u16(&mut out, 0);
    write_u32(&mut out, entry.crc32);
    write_u32(&mut out, entry.size);
    write_u32(&mut out, entry.size);
    write_u16(&mut out, entry.name.len() as u16);
    write_u16(&mut out, 0);
    write_u16(&mut out, 0);
    write_u16(&mut out, 0);
    write_u16(&mut out, 0);
    write_u32(&mut out, 0);
    write_u32(&mut out, entry.local_header_offset);
    write_bytes(&mut out, entry.name.as_slice());
    proof {
        reveal(central_header);
    }
    Ok(out)
}

/// The end of central directory record.
pub fn write_end_of_central_directory(entry_count: u16, central_size: u32, central_offset: u32)
    -> (out: Vec<u8>)
    ensures
        out@ == end_of_central_directory(entry_count, central_size, central_offset),
{
    let mut out: Vec<u8> = Vec::new();
    write_u32(&mut out, END_OF_CENTRAL_DIRECTORY_SIGNATURE);
    write_u16(&mut out, 0);
    write_u16(&mut out, 0);
    write_u16(&mut out, entry_count);
    write_u16(&mut out, entry_count);
    write_u32(&mut out, central_size);
    write_u32(&mut out, central_offset);
    write_u16(&mut out, 0);
    proof {
        reveal(end_of_central_directory);
    }
    out
}

/// An archive offset as the 32-bit field that records it, or `ArchiveTooLarge`.
pub fn current_offset_u32(offset: u64) -> (r: Result<u32, ZipError>)
    ensures
        offset > u32::MAX ==> r == Err::<u32, ZipError>(ZipError::ArchiveTooLarge),
        offset <= u32::MAX ==> r == Ok::<u32, ZipError>(offset as u32),
{
    if offset > u32::MAX as u64 {
        Err(ZipError::ArchiveTooLarge)
    } else {
        Ok(offset as u32)
    }
}

/// The size of a file on disk as the 32-bit field that records it, or `FileTooLarge`.
pub fn file_size_u32(size: u64) -> (r: Result<u32, ZipError>)
    ensures
        size > u32::MAX ==> r == Err::<u32, ZipError>(ZipError::FileTooLarge),
        size <= u32::MAX ==> r == Ok::<u32, ZipError>(size as u32),
{
    if size > u32::MAX as u64 {
        Err(ZipError::FileTooLarge)
    } else {
        Ok(size as u32)
    }
}

/// What closing an archive of `entries` writes (`out`) and how it ends
/// (`result`): the central directory and the end record; nothing and
/// `ArchiveTooLarge` when the directory would start past 4 GiB; the directory
/// alone and `ArchiveTooLarge` when it would end past 4 GiB; the directory alone
/// and `TooManyFiles` beyond 65535 entries.
pub open spec fn finishes(entries: Seq<CentralEntry>, out: Seq<u8>, result: Result<(), ZipError>) -> bool {
    let cd = central_directory(entries);
    if local_section_len(entries) > u32::MAX {
        out == Seq::<u8>::empty() && result == Err::<(), ZipError>(ZipError::ArchiveTooLarge)
    } else if local_section_len(entries) + cd.len() > u32::MAX {
        out == cd && result == Err::<(), ZipError>(ZipError::ArchiveTooLarge)
    } else if entries.len() > 0xffff {
        out == cd && result == Err::<(), ZipError>(ZipError::TooManyFiles)
    } else {
        &&& out == cd + end_of_central_directory(
            entries.len() as u16,
            cd.len() as u32,
            local_section_len(entries) as u32,
        )
        &&& result == Ok::<(), ZipError>(())
    }
}

/// Largest number of bytes the writer can have handed out: a record may start at
/// any offset up to `u32::MAX` and take up to `30 + 65535 + u32::MAX` bytes.
pub open spec fn max_written() -> int {
    2 * (u32::MAX as int) + 0x1_0000 + 30
}

/// Writes a ZIP archive of stored entries as a stream: each entry's local header
/// is handed out for the caller to write, followed by the entry's data; `finish`
/// hands out the central directory and the end record.
pub struct ZipWriter {
    entries: Vec<CentralEntry>,
    written: u64,
}

impl ZipWriter {
    #[verifier::type_invariant]
    spec fn layout_holds(&self) -> bool {
        &&& self.written == local_section_len(self.entries@)
        &&& self.written <= max_written()
        &&& forall|i: int|
            0 <= i < self.entries@.len() ==> {
                &&& (#[trigger] self.entries@[i]).name@.len() <= MAX_NAME_LEN
                &&& self.entries@[i].local_header_offset == local_section_len(
                    self.entries@.take(i),
                )
            }
    }

    /// The entries added so far, in order.
    pub closed spec fn entries(&self) -> Seq<CentralEntry> {
        self.entries@
    }

    /// An archive with no entries yet.
    pub fn new() -> (w: Self)
        ensures
            w.entries() == Seq::<CentralEntry>::empty(),
            laid_out(w.entries()),
    {
        ZipWriter { entries: Vec::new(), written: 0 }
    }

    /// The entries added, giving the writer up.
    pub fn into_entries(self) -> (entries: Vec<CentralEntry>)
        ensures
            entries@ == self.entries(),
    {
        let ZipWriter { entries, written: _ } = self;
        entries
    }

    /// How many entries have been added.
    pub fn entry_count(&self) -> (n: usize)
        ensures
            n == self.entries().len(),
    {
        self.entries.len()
    }

    /// Bytes handed out so far for the local records (headers and data).
    pub fn written(&self) -> (n: u64)
        ensures
            n == local_section_len(self.entries()),
    {
        proof {
            use_type_invariant(self);
        }
        self.written
    }

    /// Starts an entry named `name` whose data of `size` bytes has checksum `crc32`:
    /// returns its local header, to be written followed by exactly that data.
    /// Fails with `ArchiveTooLarge` when the header would start past 4 GiB, and with
    /// `NameTooLong` when the name takes more than 65535 bytes.
    pub fn add_file_entry(&mut self, name: &str, crc32: u32, size: u32) -> (r: Result<
        Vec<u8>,
        ZipError,
    >)
        ensures
            local_section_len(old(self).entries()) > u32::MAX ==> r == Err::<Vec<u8>, ZipError>(
                ZipError::ArchiveTooLarge,
            ),
            local_section_len(old(self).entries()) <= u32::MAX && name.spec_bytes().len()
                > MAX_NAME_LEN ==> r == Err::<Vec<u8>, ZipError>(ZipError::NameTooLong),
            local_section_len(old(self).entries()) <= u32::MAX && name.spec_bytes().len()
                <= MAX_NAME_LEN ==> r is Ok,
            r is Err ==> final(self).entries() == old(self).entries(),
            laid_out(final(self).entries()),
            r matches Ok(h) ==> {
                &&& local_section_len(old(self).entries()) <= u32::MAX
                &&& name.spec_bytes().len() <= MAX_NAME_LEN
                &&& h@ == local_header(name.spec_bytes(), crc32, size)
                &&& final(self).entries().len() == old(self).entries().len() + 1
                &&& final(self).entries().drop_last() == old(self).entries()
                &&& final(self).entries().last().name@ == name.spec_bytes()
                &&& final(self).entries().last().crc32 == crc32
                &&& final(self).entries().last().size == size
                &&& final(self).entries().last().local_header_offset == local_section_len(
                    old(self).entries(),
                )
            },
    {
        proof {
            use_type_invariant(&*self);
        }
        let offset = match current_offset_u32(self.written) {
            Ok(o) => o,
            Err(e) => return Err(e),
        };
        let name_bytes = name.as_bytes_vec();
        let header = match write_local_header(name_bytes.as_slice(), crc32, size) {
            Ok(h) => h,
            Err(e) => return Err(e),
        };
        let entry = CentralEntry {
            name: name_bytes,
            crc32,
            size,
            local_header_offset: offset,
        };
        let ghost old_entries = self.entries@;
        let new_written: u64 = self.written + LOCAL_HEADER_FIXED_LEN + name.len() as u64
            + size as u64;
        let mut taken = ZipWriter { entries: Vec::new(), written: 0 };
        std::mem::swap(self, &mut taken);
        let ZipWriter { mut entries, written: _ } = taken;
        entries.push(entry);
        proof {
            assert(entries@.drop_last() == old_entries);
            assert forall|i: int| 0 <= i < entries@.len() implies {
                &&& (#[trigger] entries@[i]).name@.len() <= MAX_NAME_LEN
                &&& entries@[i].local_header_offset == local_section_len(entries@.take(i))
            } by {
                if i < old_entries.len() {
                    assert(entries@.take(i) == old_entries.take(i));
                } else {
                    assert(entries@.take(i) == old_entries);
                }
            }
        }
        *self = ZipWriter { entries, written: new_written };
        proof {
            use_type_invariant(&*self);
        }
        Ok(header)
    }

    /// Adds an entry made of `bytes`, computing its checksum: returns its local
    /// header followed by `bytes`, to be written as they are. Fails with
    /// `EntryTooLarge` when `bytes` is 4 GiB or more, then as `add_file_entry` does.
    pub fn add_bytes_entry(&mut self, name: &str, bytes: &[u8]) -> (r: Result<
        Vec<u8>,
        ZipError,
    >)
        ensures
            bytes@.len() > u32::MAX ==> r == Err::<Vec<u8>, ZipError>(ZipError::EntryTooLarge),
            bytes@.len() <= u32::MAX && local_section_len(old(self).entries()) > u32::MAX ==> r
                == Err::<Vec<u8>, ZipError>(ZipError::ArchiveTooLarge),
            bytes@.len() <= u32::MAX && local_section_len(old(self).entries()) <= u32::MAX
                && name.spec_bytes().len() > MAX_NAME_LEN ==> r == Err::<Vec<u8>, ZipError>(
                ZipError::NameTooLong,
            ),
            bytes@.len() <= u32::MAX && local_section_len(old(self).entries()) <= u32::MAX
                && name.spec_bytes().len() <= MAX_NAME_LEN ==> r is Ok,
            r is Err ==> final(self).entries() == old(self).entries(),
            laid_out(final(self).entries()),
            r matches Ok(out) ==> {
                &&& bytes@.len() <= u32::MAX
                &&& local_section_len(old(self).entries()) <= u32::MAX
                &&& name.spec_bytes().len() <= MAX_NAME_LEN
                &&& out@ == local_header(name.spec_bytes(), crc32(bytes@), bytes@.len() as u32)
                    + bytes@
                &&& final(self).entries().len() == old(self).entries().len() + 1
                &&& final(self).entries().drop_last() == old(self).entries()
                &&& final(self).entries().last().name@ == name.spec_bytes()
                &&& final(self).entries().last().crc32 == crc32(bytes@)
                &&& final(self).entries().last().size == bytes@.len()
                &&& final(self).entries().last().local_header_offset == local_section_len(
                    old(self).entries(),
                )
            },
    {
        proof {
            use_type_invariant(&*self);
        }
        if bytes.len() > u32::MAX as usize {
            return Err(ZipError::EntryTooLarge);
        }
        let crc = crc32_bytes(bytes);
        let size = bytes.len() as u32;
        let mut out = match self.add_file_entry(name, crc, size) {
            Ok(h) => h,
            Err(e) => return Err(e),
        };
        write_bytes(&mut out, bytes);
        Ok(out)
    }

    /// Closes the archive: returns the bytes to write and how it ended. The bytes
    /// are the central directory followed by the end record; when the directory
    /// would start past 4 GiB nothing is written and the result is
    /// `ArchiveTooLarge`; when it would end past 4 GiB, or there are more than
    /// 65535 entries, the directory is written without the end record and the
    /// result is `ArchiveTooLarge` or `TooManyFiles`.
    pub fn finish(&self) -> (r: (Vec<u8>, Result<(), ZipError>))
        ensures
            finishes(self.entries(), r.0@, r.1),
    {
        proof {
            use_type_invariant(self);
        }
        let central_start = match current_offset_u32(self.written) {
            Ok(o) => o,
            Err(e) => return (Vec::new(), Err(e)),
        };
        let mut out = write_central_directory(&self.entries);
        if out.len() > u32::MAX as usize {
            return (out, Err(ZipError::ArchiveTooLarge));
        }
        let central_end: u64 = central_start as u64 + out.len() as u64;
        let central_end32 = match current_offset_u32(central_end) {
            Ok(o) => o,
            Err(e) => return (out, Err(e)),
        };
        let central_size: u32 = central_end32 - central_start;
        if self.entries.len() > 0xffff {
            return (out, Err(ZipError::TooManyFiles));
        }
        let eocd = write_end_of_central_directory(
            self.entries.len() as u16,
            central_size,
            central_start,
        );
        write_bytes(&mut out, eocd.as_slice());
        (out, Ok(()))
    }
}

/// The central directory of `entries`.
fn write_central_directory(entries: &Vec<CentralEntry>) -> (out: Vec<u8>)
    requires
        forall|k: int| 0 <= k < entries@.len() ==> (#[trigger] entries@[k]).name@.len() <= MAX_NAME_LEN,
    ensures
        out@ == central_directory(entries@),
{
    let mut out: Vec<u8> = Vec::new();
    let mut i: usize = 0;
    while i < entries.len()
        invariant
            i <= entries@.len(),
            out@ == central_directory(entries@.take(i as int)),
            forall|k: int| 0 <= k < entries@.len() ==> (#[trigger] entries@[k]).name@.len() <= MAX_NAME_LEN,
        decreases entries@.len() - i,
    {
        let header = match write_central_header(&entries[i]) {
            Ok(h) => h,
            Err(_) => {
                proof {
                    assert(entries@[i as int].name@.len() <= MAX_NAME_LEN);
                }
                return out;
            },
        };
        write_bytes(&mut out, header.as_slice());
        proof {
            assert(entries@.take(i + 1).drop_last() == entries@.take(i as int));
        }
        i = i + 1;
    }
    assert(entries@.take(entries@.len() as int) == entries@);
    out
}


/// Every entry's local header starts where the local records before it end:
/// what the writer records of the entries it has been handed.
pub open spec fn laid_out(entries: Seq<CentralEntry>) -> bool {
    forall|i: int|
        0 <= i < entries.len() ==> (#[trigger] entries[i]).local_header_offset
            == local_section_len(entries.take(i))
}

/// `data` holds, for each entry, as many bytes as the entry records.
pub open spec fn data_matches_sizes(entries: Seq<CentralEntry>, data: Seq<Seq<u8>>) -> bool {
    &&& data.len() == entries.len()
    &&& forall|j: int| 0 <= j < entries.len() ==> (#[trigger] data[j]).len() == entries[j].size
}

/// A central directory header is 46 bytes plus the name.
pub proof fn lemma_central_header_len(e: CentralEntry)
    ensures
        entry_central_header(e).len() == CENTRAL_HEADER_FIXED_LEN + e.name@.len(),
{
    reveal(central_header);
}

/// A local header is 30 bytes plus the name.
pub proof fn lemma_local_header_len(name: Seq<u8>, crc: u32, size: u32)
    ensures
        local_header(name, crc, size).len() == LOCAL_HEADER_FIXED_LEN + name.len(),
{
    reveal(local_header);
}

proof fn lemma_local_section_len(entries: Seq<CentralEntry>, data: Seq<Seq<u8>>)
    requires
        data_matches_sizes(entries, data),
    ensures
        local_section(entries, data).len() == local_section_len(entries),
    decreases entries.len(),
{
    if entries.len() > 0 {
        let last = entries.last();
        assert(data.last().len() == entries[entries.len() - 1].size);
        lemma_local_header_len(last.name@, last.crc32, last.size);
        let e2 = entries.drop_last();
        let d2 = data.drop_last();
        assert forall|j: int| 0 <= j < e2.len() implies (#[trigger] d2[j]).len() == e2[j].size by {
            assert(d2[j] == data[j]);
        }
        lemma_local_section_len(e2, d2);
    }
}

proof fn lemma_local_section_prefix(entries: Seq<CentralEntry>, data: Seq<Seq<u8>>, k: int)
    requires
        data.len() == entries.len(),
        0 <= k <= entries.len(),
    ensures
        local_section(entries.take(k), data.take(k)).len() <= local_section(entries, data).len(),
        local_section(entries.take(k), data.take(k)) == local_section(entries, data).take(
            local_section(entries.take(k), data.take(k)).len() as int,
        ),
    decreases entries.len() - k,
{
    if k == entries.len() {
        assert(entries.take(k) == entries);
        assert(data.take(k) == data);
        let whole = local_section(entries, data);
        assert(whole.take(whole.len() as int) == whole);
    } else {
        lemma_local_section_prefix(entries, data, k + 1);
        let e1 = entries.take(k + 1);
        let d1 = data.take(k + 1);
        assert(e1.drop_last() == entries.take(k));
        assert(d1.drop_last() == data.take(k));
        let small = local_section(entries.take(k), data.take(k));
        let big = local_section(e1, d1);
        assert(big == small + local_record(e1.last(), d1.last()));
        assert(big.take(small.len() as int) == small);
        let whole = local_section(entries, data);
        assert(whole.take(small.len() as int) =~= big.take(small.len() as int));
    }
}

/// The local record of entry `i` stands in the local section right after the
/// records before it.
#[verifier::spinoff_prover]
proof fn lemma_record_in_section(entries: Seq<CentralEntry>, data: Seq<Seq<u8>>, i: int)
    requires
        data.len() == entries.len(),
        0 <= i < entries.len(),
        forall|j: int| 0 <= j < i ==> (#[trigger] data[j]).len() == entries[j].size,
    ensures
        ({
            let off = local_section_len(entries.take(i));
            let rec = local_record(entries[i], data[i]);
            let whole = local_section(entries, data);
            &&& off + rec.len() <= whole.len()
            &&& whole.subrange(off, off + rec.len()) == rec
        }),
{
    let rec = local_record(entries[i], data[i]);
    let before = local_section(entries.take(i), data.take(i));
    let upto = local_section(entries.take(i + 1), data.take(i + 1));
    let whole = local_section(entries, data);
    assert(upto == before + rec) by {
        let e1 = entries.take(i + 1);
        let d1 = data.take(i + 1);
        assert(e1.drop_last() == entries.take(i));
        assert(d1.drop_last() == data.take(i));
        assert(e1.last() == entries[i]);
        assert(d1.last() == data[i]);
    }
    assert(before.len() == local_section_len(entries.take(i))) by {
        assert forall|j: int| 0 <= j < i implies (#[trigger] data.take(i)[j]).len()
            == entries.take(i)[j].size by {
            assert(data.take(i)[j] == data[j]);
            assert(entries.take(i)[j] == entries[j]);
        }
        lemma_local_section_len(entries.take(i), data.take(i));
    }
    lemma_local_section_prefix(entries, data, i + 1);
    let off = before.len() as int;
    assert(upto.len() == off + rec.len());
    assert(upto.len() <= whole.len());
    let sub = whole.subrange(off, off + rec.len());
    assert forall|k: int| 0 <= k < rec.len() implies #[trigger] sub[k] == rec[k] by {
        assert(upto[off + k] == rec[k]);
        assert(whole.take(upto.len() as int)[off + k] == whole[off + k]);
        assert(sub[k] == whole[off + k]);
    }
    assert(sub =~= rec);
}

proof fn lemma_subrange_of_front<A>(x: Seq<A>, y: Seq<A>, a: int, b: int)
    requires
        0 <= a <= b <= x.len(),
    ensures
        (x + y).subrange(a, b) == x.subrange(a, b),
{
    assert((x + y).subrange(a, b) =~= x.subrange(a, b));
}

proof fn lemma_subrange_split<A>(s: Seq<A>, off: int, h: Seq<A>, d: Seq<A>)
    requires
        0 <= off,
        off + h.len() + d.len() <= s.len(),
        s.subrange(off, off + h.len() + d.len()) == h + d,
    ensures
        s.subrange(off, off + h.len()) == h,
        s.subrange(off + h.len(), off + h.len() + d.len()) == d,
{
    let whole = s.subrange(off, off + h.len() + d.len());
    assert(s.subrange(off, off + h.len()) =~= whole.subrange(0, h.len() as int));
    assert(s.subrange(off + h.len(), off + h.len() + d.len()) =~= whole.subrange(
        h.len() as int,
        whole.len() as int,
    ));
    assert((h + d).subrange(0, h.len() as int) =~= h);
    assert((h + d).subrange(h.len() as int, (h + d).len() as int) =~= d);
}

/// Laid out as the writer hands its pieces out, each followed by its entry's data,
/// the central directory record of entry `i` names the offset at which that
/// entry's local header stands in the archive, and the entry's data follows it.
#[verifier::spinoff_prover]
pub proof fn law_central_record_points_at_local_header(
    entries: Seq<CentralEntry>,
    data: Seq<Seq<u8>>,
    i: int,
)
    requires
        laid_out(entries),
        data_matches_sizes(entries, data),
        0 <= i < entries.len(),
    ensures
        ({
            let a = archive(entries, data);
            let e = entries[i];
            let off = e.local_header_offset as int;
            let h = local_header(e.name@, e.crc32, e.size);
            &&& a.subrange(off, off + h.len()) == h
            &&& a.subrange(off + h.len(), off + h.len() + e.size) == data[i]
        }),
{
    let e = entries[i];
    let h = local_header(e.name@, e.crc32, e.size);
    let off = e.local_header_offset as int;
    let d = data[i];
    let whole = local_section(entries, data);
    assert(off == local_section_len(entries.take(i)));
    assert(d.len() == e.size);
    assert(forall|j: int| 0 <= j < i ==> (#[trigger] data[j]).len() == entries[j].size);
    lemma_record_in_section(entries, data, i);
    let rest = central_directory(entries) + end_of_central_directory(
        entries.len() as u16,
        central_directory(entries).len() as u32,
        local_section_len(entries) as u32,
    );
    assert(archive(entries, data) == whole + rest) by {
        reveal(archive);
    }
    assert(local_record(e, d) == h + d);
    lemma_subrange_of_front(whole, rest, off, off + h.len() + d.len());
    lemma_subrange_split(whole + rest, off, h, d);
}

/// The 16-bit little-endian number stored at `at` in `s`.
pub open spec fn read_u16(s: Seq<u8>, at: int) -> int {
    s[at] + 256 * s[at + 1]
}

/// The 32-bit little-endian number stored at `at` in `s`.
pub open spec fn read_u32(s: Seq<u8>, at: int) -> int {
    s[at] + 256 * s[at + 1] + 65536 * s[at + 2] + 16777216 * s[at + 3]
}

proof fn lemma_read_le16(v: u16)
    ensures
        read_u16(le16(v), 0) == v,
{
    let a = (v & 0xff) as u8;
    let b = (v >> 8) as u8;
    assert(le16(v)[0] == a && le16(v)[1] == b);
    assert(a + 256 * b == v) by (bit_vector)
        requires
            a == (v & 0xff) as u8,
            b == (v >> 8) as u8,
    ;
}

proof fn lemma_read_le32(v: u32)
    ensures
        read_u32(le32(v), 0) == v,
{
    let a = (v & 0xff) as u8;
    let b = ((v >> 8) & 0xff) as u8;
    let c = ((v >> 16) & 0xff) as u8;
    let d = (v >> 24) as u8;
    assert(le32(v)[0] == a && le32(v)[1] == b && le32(v)[2] == c && le32(v)[3] == d);
    assert(a + 256 * b + 65536 * c + 16777216 * d == v) by (bit_vector)
        requires
            a == (v & 0xff) as u8,
            b == ((v >> 8) & 0xff) as u8,
            c == ((v >> 16) & 0xff) as u8,
            d == (v >> 24) as u8,
    ;
}

proof fn lemma_read_u16_at(s: Seq<u8>, at: int, v: u16)
    requires
        0 <= at,
        at + 2 <= s.len(),
        s.subrange(at, at + 2) == le16(v),
    ensures
        read_u16(s, at) == v,
{
    lemma_read_le16(v);
    assert(s[at] == s.subrange(at, at + 2)[0]);
    assert(s[at + 1] == s.subrange(at, at + 2)[1]);
}

proof fn lemma_read_u32_at(s: Seq<u8>, at: int, v: u32)
    requires
        0 <= at,
        at + 4 <= s.len(),
        s.subrange(at, at + 4) == le32(v),
    ensures
        read_u32(s, at) == v,
{
    lemma_read_le32(v);
    assert(s[at] == s.subrange(at, at + 4)[0]);
    assert(s[at + 1] == s.subrange(at, at + 4)[1]);
    assert(s[at + 2] == s.subrange(at, at + 4)[2]);
    assert(s[at + 3] == s.subrange(at, at + 4)[3]);
}

/// A local header, read back byte by byte as ZIP readers read it, describes a
/// stored entry: the local header signature, compression method 0 (stored),
/// the CRC-32, the data size both compressed and uncompressed (the same, as
/// nothing is compressed), the name length, and the name right after the 30
/// fixed bytes.
pub proof fn law_local_header_describes_stored_entry(name: Seq<u8>, crc: u32, size: u32)
    requires
        name.len() <= 0xffff,
    ensures
        ({
            let h = local_header(name, crc, size);
            &&& h.len() == 30 + name.len()
            &&& read_u32(h, 0) == 0x0403_4b50
            &&& read_u16(h, 4) == 20
            &&& read_u16(h, 6) == 0x0800
            &&& read_u16(h, 8) == 0
            &&& read_u32(h, 14) == crc
            &&& read_u32(h, 18) == size
            &&& read_u32(h, 22) == size
            &&& read_u16(h, 26) == name.len()
            &&& h.subrange(30, h.len() as int) == name
        }),
{
    reveal(local_header);
    let h = local_header(name, crc, size);
    assert(h.subrange(0, 4) =~= le32(LOCAL_HEADER_SIGNATURE));
    assert(h.subrange(4, 6) =~= le16(ZIP_VERSION));
    assert(h.subrange(6, 8) =~= le16(UTF8_NAME_FLAG));
    assert(h.subrange(8, 10) =~= le16(0));
    assert(h.subrange(14, 18) =~= le32(crc));
    assert(h.subrange(18, 22) =~= le32(size));
    assert(h.subrange(22, 26) =~= le32(size));
    assert(h.subrange(26, 28) =~= le16(name.len() as u16));
    assert(h.subrange(30, h.len() as int) =~= name);
    lemma_read_u32_at(h, 0, LOCAL_HEADER_SIGNATURE);
    lemma_read_u16_at(h, 4, ZIP_VERSION);
    lemma_read_u16_at(h, 6, UTF8_NAME_FLAG);
    lemma_read_u16_at(h, 8, 0);
    lemma_read_u32_at(h, 14, crc);
    lemma_read_u32_at(h, 18, size);
    lemma_read_u32_at(h, 22, size);
    lemma_read_u16_at(h, 26, name.len() as u16);
}

/// A central directory header, read back byte by byte as ZIP readers read it,
/// describes a stored entry whose local header is at `offset`: the central
/// header signature, compression method 0 (stored, as in the local header), the
/// CRC-32, the data size both compressed and uncompressed, the name length, the
/// offset of the local header, and the name right after the 46 fixed bytes.
pub proof fn law_central_header_describes_stored_entry(
    name: Seq<u8>,
    crc: u32,
    size: u32,
    offset: u32,
)
    requires
        name.len() <= 0xffff,
    ensures
        ({
            let h = central_header(name, crc, size, offset);
            &&& h.len() == 46 + name.len()
            &&& read_u32(h, 0) == 0x0201_4b50
            &&& read_u16(h, 8) == 0x0800
            &&& read_u16(h, 10) == 0
            &&& read_u32(h, 16) == crc
            &&& read_u32(h, 20) == size
            &&& read_u32(h, 24) == size
            &&& read_u16(h, 28) == name.len()
            &&& read_u32(h, 42) == offset
            &&& h.subrange(46, h.len() as int) == name
        }),
{
    reveal(central_header);
    let h = central_header(name, crc, size, offset);
    assert(h.subrange(0, 4) =~= le32(CENTRAL_HEADER_SIGNATURE));
    assert(h.subrange(8, 10) =~= le16(UTF8_NAME_FLAG));
    assert(h.subrange(10, 12) =~= le16(0));
    assert(h.subrange(16, 20) =~= le32(crc));
    assert(h.subrange(20, 24) =~= le32(size));
    assert(h.subrange(24, 28) =~= le32(size));
    assert(h.subrange(28, 30) =~= le16(name.len() as u16));
    assert(h.subrange(42, 46) =~= le32(offset));
    assert(h.subrange(46, h.len() as int) =~= name);
    lemma_read_u32_at(h, 0, CENTRAL_HEADER_SIGNATURE);
    lemma_read_u16_at(h, 8, UTF8_NAME_FLAG);
    lemma_read_u16_at(h, 10, 0);
    lemma_read_u32_at(h, 16, crc);
    lemma_read_u32_at(h, 20, size);
    lemma_read_u32_at(h, 24, size);
    lemma_read_u16_at(h, 28, name.len() as u16);
    lemma_read_u32_at(h, 42, offset);
}

/// The end record, read back byte by byte, gives its signature, the entry count
/// (on this disk and in all), the size and the offset of the central directory.
pub proof fn law_end_record_describes_directory(count: u16, size: u32, offset: u32)
    ensures
        ({
            let h = end_of_central_directory(count, size, offset);
            &&& h.len() == 22
            &&& read_u32(h, 0) == 0x0605_4b50
            &&& read_u16(h, 8) == count
            &&& read_u16(h, 10) == count
            &&& read_u32(h, 12) == size
            &&& read_u32(h, 16) == offset
        }),
{
    reveal(end_of_central_directory);
    let h = end_of_central_directory(count, size, offset);
    assert(h.subrange(0, 4) =~= le32(END_OF_CENTRAL_DIRECTORY_SIGNATURE));
    assert(h.subrange(8, 10) =~= le16(count));
    assert(h.subrange(10, 12) =~= le16(count));
    assert(h.subrange(12, 16) =~= le32(size));
    assert(h.subrange(16, 20) =~= le32(offset));
    lemma_read_u32_at(h, 0, END_OF_CENTRAL_DIRECTORY_SIGNATURE);
    lemma_read_u16_at(h, 8, count);
    lemma_read_u16_at(h, 10, count);
    lemma_read_u32_at(h, 12, size);
    lemma_read_u32_at(h, 16, offset);
}

} // verus!
