use mor_steg::cloud::{
    cloud_safe_readme, directory_entry_name, directory_manifest, file_entry_name,
    package_report, plan_directory_package, plan_single_file_package, safe_zip_name,
    safe_zip_path, single_file_manifest, sort_by_relative_path,
    suggested_cloud_zip_path, FileOnDisk, PackageStream, PackagedFile, MANIFEST_ENTRY_NAME,
    README_ENTRY_NAME,
};
use mor_steg::crc::crc32_bytes;
use mor_steg::package::{plan_archive, EntryContent, PackageEntry, PackagePiece};
use mor_steg::paths::AppConfig;
use mor_steg::zip::ZipError;

#[test]
fn zip_names_lose_separators() {
    assert_eq!(safe_zip_name("a/b\\c.txt"), "a_b_c.txt");
    assert_eq!(safe_zip_name("plain.jpg"), "plain.jpg");
}

#[test]
fn zip_paths_drop_traversal() {
    assert_eq!(safe_zip_path("a/b/c.txt"), "a/b/c.txt");
    assert_eq!(safe_zip_path("../../etc/passwd"), "etc/passwd");
    assert_eq!(safe_zip_path("/abs//./x"), "abs/x");
    assert_eq!(safe_zip_path("a\\b/c"), "a_b/c");
    assert_eq!(safe_zip_path(""), "");
    assert_eq!(safe_zip_path("./.."), "");
}

#[test]
fn entry_names() {
    assert_eq!(file_entry_name("/pics/cat.jpg"), "files/cat.jpg");
    assert_eq!(file_entry_name("/"), "files/steg-file");
    assert_eq!(directory_entry_name("sub/x.wav"), "files/sub/x.wav");
}

#[test]
fn manifests() {
    assert_eq!(
        single_file_manifest("files/cat.jpg"),
        "MorSteg cloud-safe package\npackage_type=single_file\nprotected_file=files/cat.jpg\n"
    );
    assert_eq!(
        directory_manifest(12),
        "MorSteg cloud-safe package\npackage_type=directory\nfile_count=12\n"
    );
    assert_eq!(
        directory_manifest(0),
        "MorSteg cloud-safe package\npackage_type=directory\nfile_count=0\n"
    );
}

#[test]
fn readme_mentions_store_entries() {
    let r = cloud_safe_readme();
    assert!(r.starts_with("MorSteg Cloud-Safe Package\n"));
    assert!(r.contains("This ZIP uses normal \"store\" entries. It is not encryption."));
}

#[test]
fn package_report_lists_entries() {
    let package = plan_single_file_package("/x/cat.jpg", 0, 0).unwrap();
    let report = package_report("/cloud/cat.MorSteg.zip", &package);
    assert_eq!(report.output, "/cloud/cat.MorSteg.zip");
    assert_eq!(report.entries, vec!["files/cat.jpg", README_ENTRY_NAME, MANIFEST_ENTRY_NAME]);
}

#[test]
fn cloud_zip_suggestions() {
    let mut c = AppConfig::default();
    c.cloud_dir = Some("/cloud".to_string());
    assert_eq!(suggested_cloud_zip_path("/p/cat.jpg", &c), "/cloud/cat.MorSteg.zip");
    assert_eq!(suggested_cloud_zip_path("/p/folder/", &c), "/cloud/folder.MorSteg.zip");
    assert_eq!(suggested_cloud_zip_path("/", &c), "/cloud/MorSteg-package.MorSteg.zip");
    assert_eq!(suggested_cloud_zip_path(".bashrc", &AppConfig::default()), "./.bashrc.MorSteg.zip");
}

fn found(rel: &str, index: usize) -> PackagedFile {
    PackagedFile { relative_path: rel.to_string(), index }
}

fn file(rel: &str, size: u64) -> FileOnDisk {
    FileOnDisk { relative_path: rel.to_string(), crc32: 7, size }
}

#[test]
fn files_are_sorted_by_relative_path() {
    let files = vec![found("b", 0), found("a/z", 1), found("a", 2), found("B", 3)];
    let sorted = sort_by_relative_path(&files);
    let names: Vec<&str> = sorted.iter().map(|f| f.relative_path.as_str()).collect();
    assert_eq!(names, vec!["B", "a", "a/z", "b"]);
    assert_eq!(sorted[1].index, 2);
}

/// Lays the plan out with the given data of files on disk.
fn lay_out(pieces: &[PackagePiece], data: &[Vec<u8>]) -> Vec<u8> {
    let mut out = Vec::new();
    for p in pieces {
        match p {
            PackagePiece::Bytes { bytes } => out.extend_from_slice(bytes),
            PackagePiece::FileData { index } => out.extend_from_slice(&data[*index]),
        }
    }
    out
}

fn le32(b: &[u8], at: usize) -> u32 {
    u32::from_le_bytes([b[at], b[at + 1], b[at + 2], b[at + 3]])
}

fn le16(b: &[u8], at: usize) -> u16 {
    u16::from_le_bytes([b[at], b[at + 1]])
}

#[test]
fn single_file_package_is_a_readable_zip() {
    let data = b"stego bytes".to_vec();
    let crc = crc32_bytes(&data);
    let package = plan_single_file_package("/pics/cat.jpg", crc, data.len() as u64).unwrap();
    let names: Vec<&str> = package.entries.iter().map(|e| e.name.as_str()).collect();
    assert_eq!(names, vec!["files/cat.jpg", README_ENTRY_NAME, MANIFEST_ENTRY_NAME]);
    let archive = lay_out(&package.plan.pieces, &[data.clone(), vec![], vec![]]);

    // end record
    let end = archive.len() - 22;
    assert_eq!(le32(&archive, end), 0x0605_4b50);
    assert_eq!(le16(&archive, end + 8), 3);
    let central_size = le32(&archive, end + 12) as usize;
    let central_offset = le32(&archive, end + 16) as usize;
    assert_eq!(central_offset + central_size, end);

    // walk the central directory and check each local record
    let mut at = central_offset;
    let mut found = Vec::new();
    for _ in 0..3 {
        assert_eq!(le32(&archive, at), 0x0201_4b50);
        let crc = le32(&archive, at + 16);
        let size = le32(&archive, at + 20) as usize;
        let name_len = le16(&archive, at + 28) as usize;
        let local = le32(&archive, at + 42) as usize;
        let name = String::from_utf8(archive[at + 46..at + 46 + name_len].to_vec()).unwrap();
        assert_eq!(le32(&archive, local), 0x0403_4b50);
        assert_eq!(le16(&archive, local + 26) as usize, name_len);
        let body = &archive[local + 30 + name_len..local + 30 + name_len + size];
        assert_eq!(crc32_bytes(body), crc);
        found.push((name, body.to_vec()));
        at += 46 + name_len;
    }
    assert_eq!(found[0].0, "files/cat.jpg");
    assert_eq!(found[0].1, data);
    assert_eq!(found[1].1, cloud_safe_readme().into_bytes());
    assert_eq!(
        found[2].1,
        b"MorSteg cloud-safe package\npackage_type=single_file\nprotected_file=files/cat.jpg\n".to_vec()
    );
}

#[test]
fn directory_package_counts_files() {
    let files = vec![file("a.jpg", 1), file("z.jpg", 2)];
    let package = plan_directory_package(&files).unwrap();
    let names: Vec<&str> = package.entries.iter().map(|e| e.name.as_str()).collect();
    assert_eq!(names, vec!["files/a.jpg", "files/z.jpg", README_ENTRY_NAME, MANIFEST_ENTRY_NAME]);
    match &package.entries[3].content {
        EntryContent::InMemory { bytes } => assert_eq!(
            bytes,
            &b"MorSteg cloud-safe package\npackage_type=directory\nfile_count=2\n".to_vec()
        ),
        _ => panic!("manifest should be in memory"),
    }
}

#[test]
fn oversized_files_are_refused() {
    let r = plan_single_file_package("/big.bin", 0, 1 << 32);
    assert!(matches!(r, Err(ZipError::FileTooLarge)));
}

#[test]
fn long_names_are_refused() {
    let entries = vec![PackageEntry {
        name: "x".repeat(70_000),
        content: EntryContent::InMemory { bytes: vec![1, 2, 3] },
    }];
    assert!(matches!(plan_archive(&entries), Err(ZipError::NameTooLong)));
}

#[test]
fn archives_past_four_gib_are_refused() {
    let big = |n: &str| PackageEntry {
        name: n.to_string(),
        content: EntryContent::OnDisk { crc32: 0, size: u32::MAX as u64 },
    };
    let entries = vec![big("a"), big("b")];
    assert!(matches!(plan_archive(&entries), Err(ZipError::ArchiveTooLarge)));
}

#[test]
fn streamed_folder_package_matches_the_plan() {
    let a = b"first".to_vec();
    let z = b"second file".to_vec();
    let (ca, cz) = (crc32_bytes(&a), crc32_bytes(&z));
    let mut stream = PackageStream::new();
    let mut out = Vec::new();
    out.extend(stream.add_folder_file("a.jpg", ca, a.len() as u64).unwrap());
    out.extend(&a);
    out.extend(stream.add_folder_file("sub/../z.jpg", cz, z.len() as u64).unwrap());
    out.extend(&z);
    out.extend(stream.add_readme().unwrap());
    out.extend(stream.add_folder_manifest().unwrap());
    let (tail, closed) = stream.finish();
    assert_eq!(closed, Ok(()));
    out.extend(tail);

    let files = vec![
        FileOnDisk { relative_path: "a.jpg".to_string(), crc32: ca, size: a.len() as u64 },
        FileOnDisk { relative_path: "sub/../z.jpg".to_string(), crc32: cz, size: z.len() as u64 },
    ];
    let package = plan_directory_package(&files).unwrap();
    let planned = lay_out(&package.plan.pieces, &[a, z, vec![], vec![]]);
    assert_eq!(out, planned);

    let report = stream.report("/cloud/x.MorSteg.zip");
    assert_eq!(report.output, "/cloud/x.MorSteg.zip");
    assert_eq!(
        report.entries,
        vec!["files/a.jpg", "files/sub/z.jpg", README_ENTRY_NAME, MANIFEST_ENTRY_NAME]
    );
}

#[test]
fn streamed_single_file_package_names_its_file() {
    let data = b"stego bytes".to_vec();
    let crc = crc32_bytes(&data);
    let mut stream = PackageStream::new();
    let mut out = stream.add_single_file("/pics/cat.jpg", crc, data.len() as u64).unwrap();
    out.extend(&data);
    out.extend(stream.add_readme().unwrap());
    out.extend(stream.add_single_file_manifest().unwrap());
    let (tail, closed) = stream.finish();
    assert_eq!(closed, Ok(()));
    out.extend(tail);
    let package = plan_single_file_package("/pics/cat.jpg", crc, data.len() as u64).unwrap();
    assert_eq!(out, lay_out(&package.plan.pieces, &[data, vec![], vec![]]));
}

#[test]
fn streamed_file_too_large_leaves_earlier_records() {
    let mut stream = PackageStream::new();
    let first = stream.add_folder_file("a", 1, 3).unwrap();
    assert_eq!(first.len(), 30 + 7);
    assert_eq!(stream.add_folder_file("b", 1, 1 << 32), Err(ZipError::FileTooLarge));
    let report = stream.report("p.zip");
    assert_eq!(report.entries, vec!["files/a"]);
}

#[test]
fn streamed_archive_past_four_gib_refuses_the_next_entry() {
    let mut stream = PackageStream::new();
    stream.add_folder_file("a", 0, u32::MAX as u64).unwrap();
    assert_eq!(stream.add_readme(), Err(ZipError::ArchiveTooLarge));
    // nothing of the central directory is written when it would start past 4 GiB
    let (tail, closed) = stream.finish();
    assert_eq!(closed, Err(ZipError::ArchiveTooLarge));
    assert!(tail.is_empty());
}

#[test]
fn safe_paths_are_already_safe() {
    for p in ["a/../b//c\\d/./e.jpg", "", "..", "/x/", "a\\b", "./a/b"] {
        let once = safe_zip_path(p);
        assert_eq!(safe_zip_path(&once), once);
    }
}

#[test]
fn equal_relative_paths_keep_their_order() {
    let files = vec![found("b", 0), found("a\\b", 1), found("a", 2), found("a\\b", 3), found("a\\b", 4)];
    let sorted = sort_by_relative_path(&files);
    let order: Vec<(&str, usize)> =
        sorted.iter().map(|f| (f.relative_path.as_str(), f.index)).collect();
    assert_eq!(order, vec![("a", 2), ("a\\b", 1), ("a\\b", 3), ("a\\b", 4), ("b", 0)]);
}
