//! Cloud-safe packages: ZIP archives of "store" entries that carry steghide
//! files byte for byte, with a README and a manifest.
use vstd::prelude::*;
use crate::paths::{active_cloud_dir, AppConfig};
use crate::package::{
    content_crc, content_size, data_fits, expand, plan_archive, plan_failure, records_entries,
    EntryContent, PackageEntry, PackagePiece, PackagePlan,
};
use crate::commands::strings_view;
use crate::zip::{
    archive, data_matches_sizes, finishes, laid_out, law_central_record_points_at_local_header,
    lemma_local_header_len, local_header, local_section, local_section_len, CentralEntry, ZipError, ZipWriter,
    LOCAL_HEADER_FIXED_LEN, MAX_NAME_LEN,
};
use vstd::utf8::encode_utf8;
use crate::text::{
    chars_of, decimal, decimal_chars, lemma_lex_total, lemma_lex_transitive,
    lemma_split_on_nonempty, lex_le, lex_le_chars, push_chars, push_str_chars, split_on,
    string_of,
};
use crate::unix_path::{file_name, file_stem, join, path_file_name, path_file_stem, path_join};

verus! {

/// What a cloud-safe package was written to and which entries it holds, in order.
pub struct CloudPackageReport {
    /// The archive file.
    pub output: String,
    /// The entry names, in archive order.
    pub entries: Vec<String>,
}

/// Name of the README entry of every package.
pub const README_ENTRY_NAME: &'static str = "README_MorSteg_Cloud_Safe.txt";

/// Name of the manifest entry of every package.
pub const MANIFEST_ENTRY_NAME: &'static str = "manifest_MorSteg.txt";

/// `c` with path separators replaced by `_`.
pub open spec fn sanitize_char(c: char) -> char {
    if c == '\\' || c == '/' {
        '_'
    } else {
        c
    }
}

/// `name` with every `\` and `/` replaced by `_`.
pub open spec fn sanitized_name(name: Seq<char>) -> Seq<char> {
    name.map_values(|c: char| sanitize_char(c))
}

/// The pieces of `s` between `/` separators, as `str::split('/')` gives them.
pub open spec fn split_slash(s: Seq<char>) -> Seq<Seq<char>> {
    split_on(s, '/')
}

/// A piece of a relative path that names a file or folder: not empty, not `.`,
/// not `..`.
pub open spec fn is_plain_part(p: Seq<char>) -> bool {
    p.len() > 0 && p != seq!['.'] && p != seq!['.', '.']
}

/// The plain pieces of `parts`, in order, each with its separators replaced.
pub open spec fn sanitized_parts(parts: Seq<Seq<char>>) -> Seq<Seq<char>>
    decreases parts.len(),
{
    if parts.len() == 0 {
        Seq::empty()
    } else {
        let rest = sanitized_parts(parts.drop_last());
        if is_plain_part(parts.last()) {
            rest.push(sanitized_name(parts.last()))
        } else {
            rest
        }
    }
}

/// `parts` joined with `/` between them.
pub open spec fn join_slash(parts: Seq<Seq<char>>) -> Seq<char>
    decreases parts.len(),
{
    if parts.len() == 0 {
        Seq::empty()
    } else if parts.len() == 1 {
        parts[0]
    } else {
        join_slash(parts.drop_last()) + seq!['/'] + parts.last()
    }
}

/// A relative path made safe as a ZIP entry path.
pub open spec fn safe_path(path: Seq<char>) -> Seq<char> {
    join_slash(sanitized_parts(split_slash(path)))
}

/// `name` with `\` and `/` replaced by `_`, so that it names a single archive entry.
pub fn safe_zip_name(name: &str) -> (safe: String)
    ensures
        safe@ == sanitized_name(name@),
{
    let cs = chars_of(name);
    let mut out: Vec<char> = Vec::new();
    let mut i: usize = 0;
    while i < cs.len()
        invariant
            i <= cs.len(),
            out@ == sanitized_name(cs@.take(i as int)),
        decreases cs.len() - i,
    {
        let c = cs[i];
        out.push(if c == '\\' || c == '/' { '_' } else { c });
        i = i + 1;
        assert(sanitized_name(cs@.take(i as int)) =~= sanitized_name(cs@.take(i - 1)).push(
            sanitize_char(c),
        ));
    }
    assert(cs@.take(cs.len() as int) == cs@);
    string_of(&out)
}

fn sanitized_chars(p: &[char]) -> (out: Vec<char>)
    ensures
        out@ == sanitized_name(p@),
{
    let mut out: Vec<char> = Vec::new();
    let mut i: usize = 0;
    while i < p.len()
        invariant
            i <= p.len(),
            out@ == sanitized_name(p@.take(i as int)),
        decreases p.len() - i,
    {
        let c = p[i];
        out.push(if c == '\\' || c == '/' { '_' } else { c });
        i = i + 1;
        assert(sanitized_name(p@.take(i as int)) =~= sanitized_name(p@.take(i - 1)).push(
            sanitize_char(c),
        ));
    }
    assert(p@.take(p.len() as int) == p@);
    out
}

fn is_plain_part_chars(p: &[char]) -> (r: bool)
    ensures
        r == is_plain_part(p@),
{
    if p.len() == 0 {
        return false;
    }
    if p.len() == 1 && p[0] == '.' {
        assert(p@ =~= seq!['.']);
        return false;
    }
    if p.len() == 2 && p[0] == '.' && p[1] == '.' {
        assert(p@ =~= seq!['.', '.']);
        return false;
    }
    proof {
        if p@ == seq!['.'] {
            assert(p@[0] == '.');
        }
        if p@ == seq!['.', '.'] {
            assert(p@[0] == '.' && p@[1] == '.');
        }
    }
    true
}

/// Appends the sanitized `part`, after a `/` when `out` already holds a part.
fn append_part(
    out: &mut Vec<char>,
    any: bool,
    part: &[char],
    Ghost(done): Ghost<Seq<Seq<char>>>,
) -> (any_after: bool)
    requires
        old(out)@ == join_slash(sanitized_parts(done)),
        any == (sanitized_parts(done).len() > 0),
    ensures
        final(out)@ == join_slash(sanitized_parts(done.push(part@))),
        any_after == (sanitized_parts(done.push(part@)).len() > 0),
{
    assert(done.push(part@).drop_last() == done);
    if is_plain_part_chars(part) {
        let ghost rest = sanitized_parts(done);
        let ghost x = sanitized_name(part@);
        assert(sanitized_parts(done.push(part@)) == rest.push(x));
        assert(rest.push(x).drop_last() == rest);
        if any {
            out.push('/');
        } else {
            assert(rest.push(x) =~= seq![x]);
        }
        let s = sanitized_chars(part);
        push_chars(out, &s);
        true
    } else {
        any
    }
}

/// A relative path made safe as a ZIP entry path: split at `/`, with empty, `.`
/// and `..` pieces dropped and `\` replaced by `_` in the rest, joined with `/`.
pub fn safe_zip_path(path: &str) -> (safe: String)
    ensures
        safe@ == safe_path(path@),
{
    let cs = chars_of(path);
    let mut out: Vec<char> = Vec::new();
    let mut cur: Vec<char> = Vec::new();
    let mut any = false;
    let ghost mut done: Seq<Seq<char>> = Seq::empty();
    let mut i: usize = 0;
    assert(cs@.take(0) == Seq::<char>::empty());
    assert(split_slash(Seq::<char>::empty()) == seq![Seq::<char>::empty()]);
    assert(seq![Seq::<char>::empty()] == done.push(cur@));
    while i < cs.len()
        invariant
            i <= cs.len(),
            split_slash(cs@.take(i as int)) == done.push(cur@),
            out@ == join_slash(sanitized_parts(done)),
            any == (sanitized_parts(done).len() > 0),
        decreases cs.len() - i,
    {
        let c = cs[i];
        let ghost prev = cs@.take(i as int);
        assert(cs@.take(i + 1).drop_last() == prev);
        assert(cs@.take(i + 1).last() == c);
        if c == '/' {
            any = append_part(&mut out, any, &cur, Ghost(done));
            proof {
                done = done.push(cur@);
            }
            cur = Vec::new();
            assert(split_slash(cs@.take(i + 1)) == done.push(cur@));
        } else {
            let ghost before = cur@;
            cur.push(c);
            proof {
                lemma_split_on_nonempty(prev, '/');
                assert(split_slash(cs@.take(i + 1)) =~= done.push(before).update(
                    done.len() as int,
                    before.push(c),
                ));
                assert(done.push(before).update(done.len() as int, before.push(c)) =~= done.push(
                    cur@,
                ));
            }
        }
        i = i + 1;
    }
    assert(cs@.take(cs.len() as int) == cs@);
    let _ = append_part(&mut out, any, &cur, Ghost(done));
    string_of(&out)
}

/// Every piece of a safe ZIP path is plain: not empty, not `.` or `..`, and
/// without `/` or `\`; so the entry cannot climb out of the folder it is
/// extracted into.
pub proof fn law_safe_zip_path_parts_are_plain(path: Seq<char>, i: int)
    requires
        0 <= i < sanitized_parts(split_slash(path)).len(),
    ensures
        ({
            let p = sanitized_parts(split_slash(path))[i];
            &&& is_plain_part(p)
            &&& !p.contains('/')
            &&& !p.contains('\\')
        }),
{
    lemma_sanitized_parts_plain(split_slash(path), i);
}

proof fn lemma_sanitized_parts_plain(parts: Seq<Seq<char>>, i: int)
    requires
        0 <= i < sanitized_parts(parts).len(),
    ensures
        ({
            let p = sanitized_parts(parts)[i];
            &&& is_plain_part(p)
            &&& !p.contains('/')
            &&& !p.contains('\\')
        }),
    decreases parts.len(),
{
    let rest = sanitized_parts(parts.drop_last());
    if i < rest.len() {
        lemma_sanitized_parts_plain(parts.drop_last(), i);
    } else {
        let q = parts.last();
        let p = sanitized_name(q);
        assert(p.len() == q.len());
        if p.len() > 0 {
            assert(p[0] == sanitize_char(q[0]));
        }
        if p.len() > 1 {
            assert(p[1] == sanitize_char(q[1]));
        }
        if p == seq!['.'] {
            assert(q[0] == '.');
            assert(q =~= seq!['.']);
        }
        if p == seq!['.', '.'] {
            assert(q[0] == '.' && q[1] == '.');
            assert(q =~= seq!['.', '.']);
        }
        assert forall|k: int| 0 <= k < p.len() implies p[k] != '/' && p[k] != '\\' by {}
    }
}

/// Splitting at a separator placed between `x` and `y` splits each side apart.
proof fn lemma_split_on_concat(x: Seq<char>, y: Seq<char>, sep: char)
    ensures
        split_on(x + seq![sep] + y, sep) == split_on(x, sep) + split_on(y, sep),
    decreases y.len(),
{
    let s = x + seq![sep] + y;
    if y.len() == 0 {
        assert(s.drop_last() == x);
        assert(split_on(y, sep) == seq![Seq::<char>::empty()]);
        assert(split_on(x, sep).push(Seq::<char>::empty()) == split_on(x, sep) + seq![
            Seq::<char>::empty(),
        ]);
    } else {
        let y2 = y.drop_last();
        assert(s.drop_last() == x + seq![sep] + y2);
        assert(s.last() == y.last());
        lemma_split_on_concat(x, y2, sep);
        lemma_split_on_nonempty(y2, sep);
        let a = split_on(x, sep);
        let b = split_on(y2, sep);
        if y.last() == sep {
            assert((a + b).push(Seq::<char>::empty()) == a + b.push(Seq::<char>::empty()));
        } else {
            assert((a + b).update((a + b).len() - 1, (a + b).last().push(y.last())) == a + b.update(
                b.len() - 1,
                b.last().push(y.last()),
            ));
        }
    }
}

/// A piece with no separator splits into itself.
proof fn lemma_split_on_without_sep(x: Seq<char>, sep: char)
    requires
        !x.contains(sep),
    ensures
        split_on(x, sep) == seq![x],
    decreases x.len(),
{
    if x.len() == 0 {
        assert(x =~= Seq::<char>::empty());
    } else {
        assert(!x.drop_last().contains(sep)) by {
            if x.drop_last().contains(sep) {
                let k = choose|k: int| 0 <= k < x.drop_last().len() && x.drop_last()[k] == sep;
                assert(x[k] == sep);
            }
        }
        lemma_split_on_without_sep(x.drop_last(), sep);
        assert(x.last() == x[x.len() - 1]);
        assert(x.last() != sep);
        assert(x.drop_last().push(x.last()) == x);
        assert(seq![x.drop_last()].update(0, x.drop_last().push(x.last())) =~= seq![x]);
    }
}

/// Splitting joined pieces that hold no `/` gives the pieces back.
proof fn lemma_split_join(parts: Seq<Seq<char>>)
    requires
        parts.len() > 0,
        forall|i: int| 0 <= i < parts.len() ==> !(#[trigger] parts[i]).contains('/'),
    ensures
        split_on(join_slash(parts), '/') == parts,
    decreases parts.len(),
{
    if parts.len() == 1 {
        lemma_split_on_without_sep(parts[0], '/');
        assert(parts == seq![parts[0]]);
    } else {
        let front = parts.drop_last();
        assert forall|i: int| 0 <= i < front.len() implies !(#[trigger] front[i]).contains('/') by {
            assert(front[i] == parts[i]);
        }
        lemma_split_join(front);
        assert(parts.last() == parts[parts.len() - 1]);
        lemma_split_on_without_sep(parts.last(), '/');
        lemma_split_on_concat(join_slash(front), parts.last(), '/');
        assert(front + seq![parts.last()] == parts);
    }
}

/// Pieces that are plain and hold no separator are kept as they are.
proof fn lemma_sanitized_parts_keep(parts: Seq<Seq<char>>)
    requires
        forall|i: int|
            0 <= i < parts.len() ==> is_plain_part(#[trigger] parts[i]) && !parts[i].contains('/')
                && !parts[i].contains('\\'),
    ensures
        sanitized_parts(parts) == parts,
    decreases parts.len(),
{
    if parts.len() > 0 {
        let front = parts.drop_last();
        assert forall|i: int|
            0 <= i < front.len() implies is_plain_part(#[trigger] front[i]) && !front[i].contains(
            '/',
        ) && !front[i].contains('\\') by {
            assert(front[i] == parts[i]);
        }
        lemma_sanitized_parts_keep(front);
        let q = parts.last();
        assert(q == parts[parts.len() - 1]);
        assert(sanitized_name(q) =~= q) by {
            assert forall|k: int| 0 <= k < q.len() implies sanitized_name(q)[k] == q[k] by {
                assert(q[k] != '/' && q[k] != '\\');
            }
        }
        assert(front.push(q) == parts);
    }
}

/// Making a path safe twice gives what making it safe once gives.
pub proof fn law_safe_zip_path_idempotent(path: Seq<char>)
    ensures
        safe_path(safe_path(path)) == safe_path(path),
{
    let parts = sanitized_parts(split_slash(path));
    assert forall|i: int| 0 <= i < parts.len() implies is_plain_part(#[trigger] parts[i])
        && !parts[i].contains('/') && !parts[i].contains('\\') by {
        lemma_sanitized_parts_plain(split_slash(path), i);
    }
    if parts.len() == 0 {
        let e = Seq::<char>::empty();
        assert(safe_path(path) == e);
        assert(split_slash(e) == seq![e]);
        assert(seq![e].drop_last() =~= Seq::<Seq<char>>::empty());
        assert(!is_plain_part(seq![e].last()));
        assert(sanitized_parts(Seq::<Seq<char>>::empty()) == Seq::<Seq<char>>::empty());
        assert(sanitized_parts(seq![e]) == Seq::<Seq<char>>::empty());
    } else {
        assert(safe_path(path) == join_slash(parts));
        lemma_split_join(parts);
        lemma_sanitized_parts_keep(parts);
        assert(split_slash(join_slash(parts)) == parts);
        assert(sanitized_parts(split_slash(join_slash(parts))) == parts);
    }
}

/// A sanitized name holds no path separator and is as long as the name it came from.
pub proof fn law_safe_zip_name_has_no_separator(name: Seq<char>)
    ensures
        sanitized_name(name).len() == name.len(),
        !sanitized_name(name).contains('/'),
        !sanitized_name(name).contains('\\'),
{
    let p = sanitized_name(name);
    assert forall|k: int| 0 <= k < p.len() implies p[k] != '/' && p[k] != '\\' by {}
}

/// The README text put into every package.
pub open spec fn readme_text() -> Seq<char> {
    "MorSteg Cloud-Safe Package\n\nThis archive is meant to protect steghide carrier files from cloud/social media recompression.\n\nPlain English:\n- Upload this .MorSteg.zip file to the cloud.\n- Do not upload the raw steghide image/audio file to sites that recompress media.\n- Extract the file from this archive before opening it with MorSteg.\n\nWhy:\nSteghide needs the carrier file bytes to survive unchanged.\nIf a site resizes, recompresses, or converts the image/audio file, the hidden data may be destroyed.\n\nThis ZIP uses normal \"store\" entries. It is not encryption.\nThe secrecy comes from MorSteg's age encryption step.\n"@
}

/// The README text put into every package.
pub fn cloud_safe_readme() -> (text: String)
    ensures
        text@ == readme_text(),
{
    String::from_str(
        "MorSteg Cloud-Safe Package\n\nThis archive is meant to protect steghide carrier files from cloud/social media recompression.\n\nPlain English:\n- Upload this .MorSteg.zip file to the cloud.\n- Do not upload the raw steghide image/audio file to sites that recompress media.\n- Extract the file from this archive before opening it with MorSteg.\n\nWhy:\nSteghide needs the carrier file bytes to survive unchanged.\nIf a site resizes, recompresses, or converts the image/audio file, the hidden data may be destroyed.\n\nThis ZIP uses normal \"store\" entries. It is not encryption.\nThe secrecy comes from MorSteg's age encryption step.\n",
    )
}

/// The name a file on disk is known by inside a single-file package: its file
/// name, or `steg-file` when the path has none.
pub open spec fn packaged_file_name(input: Seq<char>) -> Seq<char> {
    match file_name(input) {
        Some(n) => n,
        None => "steg-file"@,
    }
}

/// The archive entry of the protected file of a single-file package.
pub open spec fn single_file_entry_name(input: Seq<char>) -> Seq<char> {
    "files/"@ + sanitized_name(packaged_file_name(input))
}

/// The manifest of a single-file package.
pub open spec fn single_file_manifest_text(entry_name: Seq<char>) -> Seq<char> {
    "MorSteg cloud-safe package\npackage_type=single_file\nprotected_file="@ + entry_name + "\n"@
}

/// The manifest of a folder package holding `file_count` files.
pub open spec fn directory_manifest_text(file_count: nat) -> Seq<char> {
    "MorSteg cloud-safe package\npackage_type=directory\nfile_count="@ + decimal(file_count) + "\n"@
}

/// The archive entry of the protected file at `input_path` in a single-file package.
pub fn file_entry_name(input_path: &str) -> (name: String)
    ensures
        name@ == single_file_entry_name(input_path@),
{
    let p = chars_of(input_path);
    let plain = match path_file_name(&p) {
        Some(n) => string_of(&n),
        None => String::from_str("steg-file"),
    };
    let safe = safe_zip_name(plain.as_str());
    let mut out: Vec<char> = Vec::new();
    push_str_chars(&mut out, "files/");
    push_str_chars(&mut out, safe.as_str());
    string_of(&out)
}

/// The archive entry of the file at `relative_path` (relative to the packaged
/// folder, with `/` separators) in a folder package.
pub fn directory_entry_name(relative_path: &str) -> (name: String)
    ensures
        name@ == "files/"@ + safe_path(relative_path@),
{
    let safe = safe_zip_path(relative_path);
    let mut out: Vec<char> = Vec::new();
    push_str_chars(&mut out, "files/");
    push_str_chars(&mut out, safe.as_str());
    string_of(&out)
}

/// The manifest of a single-file package whose protected entry is `entry_name`.
pub fn single_file_manifest(entry_name: &str) -> (text: String)
    ensures
        text@ == single_file_manifest_text(entry_name@),
{
    let mut out: Vec<char> = Vec::new();
    push_str_chars(&mut out, "MorSteg cloud-safe package\npackage_type=single_file\nprotected_file=");
    push_str_chars(&mut out, entry_name);
    push_str_chars(&mut out, "\n");
    string_of(&out)
}

/// The manifest of a folder package holding `file_count` files.
pub fn directory_manifest(file_count: usize) -> (text: String)
    ensures
        text@ == directory_manifest_text(file_count as nat),
{
    let mut out: Vec<char> = Vec::new();
    push_str_chars(&mut out, "MorSteg cloud-safe package\npackage_type=directory\nfile_count=");
    let d = decimal_chars(file_count);
    push_chars(&mut out, &d);
    push_str_chars(&mut out, "\n");
    string_of(&out)
}

/// The name of the package suggested for `input`: its stem (or file name, or
/// `MorSteg-package`) with `.MorSteg.zip`, in the cloud-safe folder.
pub open spec fn suggested_zip_path(input: Seq<char>, cloud_dir: Seq<char>) -> Seq<char> {
    let name = match file_stem(input) {
        Some(s) => s,
        None => match file_name(input) {
            Some(n) => n,
            None => "MorSteg-package"@,
        },
    };
    join(cloud_dir, name + ".MorSteg.zip"@)
}

/// Where the package made from `input` (a file or folder) is suggested to go.
pub fn suggested_cloud_zip_path(input: &str, config: &AppConfig) -> (path: String)
    ensures
        path@ == suggested_zip_path(
            input@,
            match config.cloud_dir {
                Some(d) => d@,
                None => "."@,
            },
        ),
{
    let base = active_cloud_dir(config);
    let p = chars_of(input);
    let mut name: Vec<char> = match path_file_stem(&p) {
        Some(s) => s,
        None => match path_file_name(&p) {
            Some(n) => n,
            None => chars_of("MorSteg-package"),
        },
    };
    push_str_chars(&mut name, ".MorSteg.zip");
    let b = chars_of(base.as_str());
    let j = path_join(&b, &name);
    string_of(&j)
}

/// A file found in a folder being packaged.
pub struct PackagedFile {
    /// Its path relative to the packaged folder, with `/` separators.
    pub relative_path: String,
    /// Its position in the caller's list of the files found.
    pub index: usize,
}

/// A file of a folder package, with what the archive records of its data.
pub struct FileOnDisk {
    /// Its path relative to the packaged folder, with `/` separators.
    pub relative_path: String,
    /// CRC-32 of its bytes.
    pub crc32: u32,
    /// Its length in bytes.
    pub size: u64,
}

/// `files` is ordered by relative path (code point order, as `String` orders).
pub open spec fn sorted_by_relative_path(files: Seq<PackagedFile>) -> bool {
    forall|i: int, j: int|
        0 <= i < j < files.len() ==> lex_le(files[i].relative_path@, files[j].relative_path@)
}

fn copy_file_record(f: &PackagedFile) -> (c: PackagedFile)
    ensures
        c == *f,
{
    PackagedFile { relative_path: f.relative_path.clone(), index: f.index }
}

proof fn lemma_insert_multiset<A>(s: Seq<A>, p: int, a: A)
    requires
        0 <= p <= s.len(),
    ensures
        s.insert(p, a).to_multiset() =~= s.to_multiset().insert(a),
{
    broadcast use vstd::seq_lib::group_to_multiset_ensures;
    broadcast use vstd::multiset::group_multiset_axioms;

    let t = s.insert(p, a);
    s.insert_ensures(p, a);
    assert(t.remove(p) =~= s);
    assert(t[p] == a);
    assert(t.to_multiset().count(a) > 0) by {
        assert(t.contains(a));
    }
}

/// The first position in `sorted` whose relative path comes after `key`.
fn insertion_point(sorted: &Vec<PackagedFile>, key: &[char]) -> (p: usize)
    ensures
        p <= sorted@.len(),
        forall|k: int| 0 <= k < p ==> lex_le(#[trigger] sorted@[k].relative_path@, key@),
        p < sorted@.len() ==> !lex_le(sorted@[p as int].relative_path@, key@),
{
    let mut p: usize = 0;
    while p < sorted.len()
        invariant
            p <= sorted@.len(),
            forall|k: int| 0 <= k < p ==> lex_le(#[trigger] sorted@[k].relative_path@, key@),
        decreases sorted@.len() - p,
    {
        let oc = chars_of(sorted[p].relative_path.as_str());
        if !lex_le_chars(&oc, key) {
            return p;
        }
        p = p + 1;
    }
    p
}

/// The indices of `files` increase along it, as positions do.
pub open spec fn indices_increase(files: Seq<PackagedFile>) -> bool {
    forall|a: int, b: int| 0 <= a < b < files.len() ==> files[a].index < files[b].index
}

/// Files of `files` with equal relative paths come in the order of their indices.
pub open spec fn equal_paths_in_index_order(files: Seq<PackagedFile>) -> bool {
    forall|a: int, b: int|
        0 <= a < b < files.len() && files[a].relative_path@ == files[b].relative_path@
            ==> files[a].index < files[b].index
}

/// Inserting `f` after every file whose path comes at or before its own keeps
/// equal paths in index order, when `f` has the largest index so far.
proof fn lemma_insert_keeps_index_order(
    before: Seq<PackagedFile>,
    p: int,
    f: PackagedFile,
    key: Seq<char>,
    files: Seq<PackagedFile>,
    i: int,
)
    requires
        0 <= p <= before.len(),
        0 <= i < files.len(),
        f == files[i],
        f.relative_path@ == key,
        indices_increase(files),
        sorted_by_relative_path(before),
        equal_paths_in_index_order(before),
        forall|k: int| 0 <= k < before.len() ==> (#[trigger] before[k]).index < files[i].index,
        p < before.len() ==> !lex_le(before[p].relative_path@, key),
    ensures
        equal_paths_in_index_order(before.insert(p, f)),
        i + 1 < files.len() ==> forall|k: int|
            0 <= k < before.len() + 1 ==> (#[trigger] before.insert(p, f)[k]).index < files[i
                + 1].index,
{
    let t = before.insert(p, f);
    before.insert_ensures(p, f);
    assert forall|a: int, b: int|
        0 <= a < b < t.len() && t[a].relative_path@ == t[b].relative_path@ implies t[a].index
        < t[b].index by {
        if a < p && b < p {
        } else if a < p && b == p {
        } else if a < p && b > p {
            assert(t[a] == before[a]);
            assert(t[b] == before[b - 1]);
        } else if a == p {
            assert(t[b] == before[b - 1]);
            if b - 1 > p {
                assert(lex_le(before[p].relative_path@, before[b - 1].relative_path@));
            } else {
                lemma_lex_total(key, key);
            }
        } else {
            assert(t[a] == before[a - 1]);
            assert(t[b] == before[b - 1]);
        }
    }
    if i + 1 < files.len() {
        assert forall|k: int| 0 <= k < before.len() + 1 implies (#[trigger] t[k]).index < files[i
            + 1].index by {
            if k < p {
            } else if k == p {
            } else {
                assert(t[k] == before[k - 1]);
            }
        }
    }
}

/// The files in the order they are packaged: by relative path, as `sort_by` on
/// the relative path orders them. The sort is stable: when the indices increase
/// along `files` (as positions do), files with equal relative paths keep the
/// order of their indices.
pub fn sort_by_relative_path(files: &Vec<PackagedFile>) -> (sorted: Vec<PackagedFile>)
    ensures
        sorted@.to_multiset() == files@.to_multiset(),
        sorted_by_relative_path(sorted@),
        indices_increase(files@) ==> equal_paths_in_index_order(sorted@),
{
    broadcast use vstd::seq_lib::group_to_multiset_ensures;

    let mut out: Vec<PackagedFile> = Vec::new();
    let mut i: usize = 0;
    while i < files.len()
        invariant
            i <= files@.len(),
            out@.to_multiset() == files@.take(i as int).to_multiset(),
            sorted_by_relative_path(out@),
            indices_increase(files@) ==> equal_paths_in_index_order(out@),
            indices_increase(files@) && i < files@.len() ==> forall|k: int|
                0 <= k < out@.len() ==> (#[trigger] out@[k]).index < files@[i as int].index,
        decreases files@.len() - i,
    {
        let f = copy_file_record(&files[i]);
        let fc = chars_of(f.relative_path.as_str());
        let p = insertion_point(&out, &fc);
        let ghost before = out@;
        proof {
            if indices_increase(files@) {
                lemma_insert_keeps_index_order(before, p as int, f, fc@, files@, i as int);
            }
            if p < out@.len() {
                assert(!lex_le(before[p as int].relative_path@, fc@));
                lemma_lex_total(before[p as int].relative_path@, fc@);
            }
            assert forall|a: int, b: int| 0 <= a < b < before.len() + 1 implies lex_le(
                before.insert(p as int, f)[a].relative_path@,
                before.insert(p as int, f)[b].relative_path@,
            ) by {
                before.insert_ensures(p as int, f);
                let t = before.insert(p as int, f);
                if a < p && b < p {
                } else if a < p && b == p {
                } else if a < p && b > p {
                    assert(t[b] == before[b - 1]);
                    if p < before.len() {
                        lemma_lex_transitive(t[a].relative_path@, fc@, before[p as int].relative_path@);
                        if b - 1 > p {
                            lemma_lex_transitive(t[a].relative_path@, before[p as int].relative_path@, before[b - 1].relative_path@);
                        }
                    }
                } else if a == p {
                    assert(t[b] == before[b - 1]);
                    if b - 1 > p {
                        lemma_lex_transitive(fc@, before[p as int].relative_path@, before[b - 1].relative_path@);
                    }
                } else {
                    assert(t[a] == before[a - 1]);
                    assert(t[b] == before[b - 1]);
                }
            }
            lemma_insert_multiset(before, p as int, f);
            assert(files@.take(i + 1) == files@.take(i as int).push(files@[i as int]));
        }
        out.insert(p, f);
        proof {
            let prev = files@.take(i as int);
            prev.to_multiset_ensures();
            assert(prev.push(files@[i as int]).to_multiset() =~= prev.to_multiset().insert(
                files@[i as int],
            ));
        }
        i = i + 1;
    }
    assert(files@.take(files@.len() as int) == files@);
    out
}

/// The entries of a single-file package, in archive order: the file on disk
/// under `files/` and its safe name, the README, and the manifest naming it.
pub open spec fn single_file_package_entries_spec(
    es: Seq<PackageEntry>,
    input_path: Seq<char>,
    crc32: u32,
    size: u64,
) -> bool {
    &&& es.len() == 3
    &&& es[0].name@ == single_file_entry_name(input_path)
    &&& es[0].content == (EntryContent::OnDisk { crc32, size })
    &&& es[1].name@ == README_ENTRY_NAME@
    &&& es[1].content matches EntryContent::InMemory { bytes } && bytes@ == vstd::utf8::encode_utf8(readme_text())
    &&& es[2].name@ == MANIFEST_ENTRY_NAME@
    &&& es[2].content matches EntryContent::InMemory { bytes } && bytes@ == vstd::utf8::encode_utf8(
        single_file_manifest_text(single_file_entry_name(input_path)),
    )
}

/// The entries of a folder package, in archive order: one per file (in the
/// given order) under `files/` and its safe path, the README, and the manifest
/// counting the files.
pub open spec fn directory_package_entries_spec(es: Seq<PackageEntry>, files: Seq<FileOnDisk>) -> bool {
    &&& es.len() == files.len() + 2
    &&& forall|i: int|
        0 <= i < files.len() ==> {
            &&& (#[trigger] es[i]).name@ == "files/"@ + safe_path(files[i].relative_path@)
            &&& es[i].content == (EntryContent::OnDisk { crc32: files[i].crc32, size: files[i].size })
        }
    &&& es[files.len() as int].name@ == README_ENTRY_NAME@
    &&& es[files.len() as int].content matches EntryContent::InMemory { bytes } && bytes@
        == vstd::utf8::encode_utf8(readme_text())
    &&& es[files.len() + 1int].name@ == MANIFEST_ENTRY_NAME@
    &&& es[files.len() + 1int].content matches EntryContent::InMemory { bytes } && bytes@
        == vstd::utf8::encode_utf8(directory_manifest_text(files.len() as nat))
}

/// The entries of a package and the plan that writes it.
pub struct CloudPackage {
    /// The entries, in archive order.
    pub entries: Vec<PackageEntry>,
    /// What to write.
    pub plan: PackagePlan,
}

/// What `plan_archive` promises of a plan for `es`.
pub open spec fn plans_archive(es: Seq<PackageEntry>, plan: PackagePlan) -> bool {
    &&& records_entries(plan.central@, es)
    &&& laid_out(plan.central@)
    &&& forall|data: Seq<Seq<u8>>|
        data_fits(es, data) ==> expand(plan.pieces@, data) == archive(plan.central@, data)
}

fn text_bytes(s: &String) -> (b: Vec<u8>)
    ensures
        b@ == vstd::utf8::encode_utf8(s@),
{
    s.as_str().as_bytes_vec()
}

/// The package that protects the file at `input_path`, whose bytes have CRC-32
/// `crc32` and length `size`: its entries and the plan that writes it, or why it
/// cannot be written.
pub fn plan_single_file_package(input_path: &str, crc32: u32, size: u64) -> (r: Result<
    CloudPackage,
    ZipError,
>)
    ensures
        match r {
            Ok(p) => {
                &&& single_file_package_entries_spec(p.entries@, input_path@, crc32, size)
                &&& plan_failure(p.entries@) is None
                &&& plans_archive(p.entries@, p.plan)
            },
            Err(e) => exists|es: Seq<PackageEntry>|
                single_file_package_entries_spec(es, input_path@, crc32, size) && plan_failure(es)
                    == Some(e),
        },
{
    let name = file_entry_name(input_path);
    let readme = cloud_safe_readme();
    let manifest = single_file_manifest(name.as_str());
    let mut entries: Vec<PackageEntry> = Vec::new();
    entries.push(PackageEntry { name, content: EntryContent::OnDisk { crc32, size } });
    entries.push(
        PackageEntry {
            name: String::from_str(README_ENTRY_NAME),
            content: EntryContent::InMemory { bytes: text_bytes(&readme) },
        },
    );
    entries.push(
        PackageEntry {
            name: String::from_str(MANIFEST_ENTRY_NAME),
            content: EntryContent::InMemory { bytes: text_bytes(&manifest) },
        },
    );
    assert(single_file_package_entries_spec(entries@, input_path@, crc32, size));
    match plan_archive(&entries) {
        Ok(plan) => Ok(CloudPackage { entries, plan }),
        Err(e) => Err(e),
    }
}

/// The package that protects the files of a folder, taken in the given order:
/// its entries and the plan that writes it, or why it cannot be written.
pub fn plan_directory_package(files: &Vec<FileOnDisk>) -> (r: Result<CloudPackage, ZipError>)
    ensures
        match r {
            Ok(p) => {
                &&& directory_package_entries_spec(p.entries@, files@)
                &&& plan_failure(p.entries@) is None
                &&& plans_archive(p.entries@, p.plan)
            },
            Err(e) => exists|es: Seq<PackageEntry>|
                directory_package_entries_spec(es, files@) && plan_failure(es) == Some(e),
        },
{
    let sorted = files;
    let mut entries: Vec<PackageEntry> = Vec::new();
    let mut i: usize = 0;
    while i < sorted.len()
        invariant
            i <= sorted@.len(),
            entries@.len() == i,
            forall|k: int|
                0 <= k < i ==> {
                    &&& (#[trigger] entries@[k]).name@ == "files/"@ + safe_path(
                        sorted@[k].relative_path@,
                    )
                    &&& entries@[k].content == (EntryContent::OnDisk {
                        crc32: sorted@[k].crc32,
                        size: sorted@[k].size,
                    })
                },
        decreases sorted@.len() - i,
    {
        let f = &sorted[i];
        entries.push(
            PackageEntry {
                name: directory_entry_name(f.relative_path.as_str()),
                content: EntryContent::OnDisk { crc32: f.crc32, size: f.size },
            },
        );
        i = i + 1;
    }
    let readme = cloud_safe_readme();
    let manifest = directory_manifest(sorted.len());
    entries.push(
        PackageEntry {
            name: String::from_str(README_ENTRY_NAME),
            content: EntryContent::InMemory { bytes: text_bytes(&readme) },
        },
    );
    entries.push(
        PackageEntry {
            name: String::from_str(MANIFEST_ENTRY_NAME),
            content: EntryContent::InMemory { bytes: text_bytes(&manifest) },
        },
    );
    assert(directory_package_entries_spec(entries@, sorted@));
    match plan_archive(&entries) {
        Ok(plan) => Ok(CloudPackage { entries, plan }),
        Err(e) => Err(e),
    }
}

/// A package carries each entry's data byte for byte: laid out with the data of
/// its entries, the bytes right after the local header that the central
/// directory record of entry `i` points at are exactly that data, and the record
/// holds its name, its length and its CRC-32 (computed here for the README and
/// the manifest).
pub proof fn law_package_carries_entry_data(
    es: Seq<PackageEntry>,
    plan: PackagePlan,
    data: Seq<Seq<u8>>,
    i: int,
)
    requires
        plans_archive(es, plan),
        data_fits(es, data),
        0 <= i < es.len(),
    ensures
        ({
            let a = expand(plan.pieces@, data);
            let e = plan.central@[i];
            let start = e.local_header_offset + LOCAL_HEADER_FIXED_LEN + e.name@.len();
            &&& e.name@ == vstd::utf8::encode_utf8(es[i].name@)
            &&& e.size == data[i].len()
            &&& e.crc32 == content_crc(es[i])
            &&& (es[i].content is InMemory ==> e.crc32 == crate::crc::crc32(data[i]))
            &&& a.subrange(start, start + data[i].len()) == data[i]
        }),
{
    let central = plan.central@;
    assert forall|j: int| 0 <= j < central.len() implies (#[trigger] data[j]).len()
        == central[j].size by {
        assert(central[j].size == content_size(es[j]));
        match es[j].content {
            EntryContent::OnDisk { .. } => {},
            EntryContent::InMemory { .. } => {},
        }
    }
    assert(data_matches_sizes(central, data));
    let e = central[i];
    lemma_local_header_len(e.name@, e.crc32, e.size);
    law_central_record_points_at_local_header(central, data, i);
    match es[i].content {
        EntryContent::OnDisk { .. } => {},
        EntryContent::InMemory { .. } => {},
    }
}

/// The report of a package written to `output`: the archive and its entry names,
/// in archive order.
pub fn package_report(output: &str, package: &CloudPackage) -> (r: CloudPackageReport)
    ensures
        r.output@ == output@,
        r.entries@.len() == package.entries@.len(),
        forall|i: int|
            0 <= i < package.entries@.len() ==> (#[trigger] r.entries@[i])@
                == package.entries@[i].name@,
{
    let mut entries: Vec<String> = Vec::new();
    let mut i: usize = 0;
    while i < package.entries.len()
        invariant
            i <= package.entries@.len(),
            entries@.len() == i,
            forall|k: int| 0 <= k < i ==> (#[trigger] entries@[k])@ == package.entries@[k].name@,
        decreases package.entries@.len() - i,
    {
        entries.push(package.entries[i].name.clone());
        i = i + 1;
    }
    CloudPackageReport { output: String::from_str(output), entries }
}

/// `after` is `before` with one more entry: named `name`, recording `size`
/// bytes of data with CRC-32 `crc`, its local header where the local records of
/// `before` end.
pub open spec fn entry_appended(
    before: Seq<CentralEntry>,
    after: Seq<CentralEntry>,
    name: Seq<char>,
    crc: u32,
    size: int,
) -> bool {
    &&& after.len() == before.len() + 1
    &&& after.drop_last() == before
    &&& after.last().name@ == encode_utf8(name)
    &&& after.last().crc32 == crc
    &&& after.last().size == size
    &&& after.last().local_header_offset == local_section_len(before)
}

/// `data` can stand for the data of `entries` as far as they go: as many bytes
/// as each entry records, and for an entry whose data MorSteg made (`fixed`),
/// exactly that data.
pub open spec fn stream_data_fits(
    entries: Seq<CentralEntry>,
    fixed: Seq<Option<Seq<u8>>>,
    data: Seq<Seq<u8>>,
) -> bool {
    &&& data.len() >= entries.len()
    &&& forall|k: int|
        0 <= k < entries.len() ==> {
            &&& (#[trigger] data[k]).len() == entries[k].size
            &&& (fixed[k] matches Some(b) ==> data[k] == b)
        }
}

/// The outcome of adding an entry named `name` whose data is `size` bytes with
/// CRC-32 `crc`, either a file on disk (`made` is `None`) or data MorSteg made
/// (`made` is `Some`): either it fails and nothing changes, or `out` is what to
/// write now (its local header, followed by the made data) and the pieces
/// written so far grow by `out`, then, for a file, by the file's data.
pub open spec fn stream_step(
    before: PackageStream,
    after: PackageStream,
    name: Seq<char>,
    crc: u32,
    size: int,
    made: Option<Seq<u8>>,
    r: Result<Seq<u8>, ZipError>,
) -> bool {
    let too_large = if made is Some {
        ZipError::EntryTooLarge
    } else {
        ZipError::FileTooLarge
    };
    let failure = if size > u32::MAX {
        Some(too_large)
    } else if local_section_len(before.entries()) > u32::MAX {
        Some(ZipError::ArchiveTooLarge)
    } else if encode_utf8(name).len() > MAX_NAME_LEN {
        Some(ZipError::NameTooLong)
    } else {
        None::<ZipError>
    };
    match r {
        Ok(out) => {
            &&& failure is None
            &&& entry_appended(before.entries(), after.entries(), name, crc, size)
            &&& after.names() == before.names().push(name)
            &&& after.fixed_data() == before.fixed_data().push(made)
            &&& match made {
                Some(b) => {
                    &&& out == local_header(encode_utf8(name), crc, size as u32) + b
                    &&& after.pieces().drop_last() == before.pieces()
                    &&& after.pieces().last() matches PackagePiece::Bytes { bytes } && bytes@ == out
                },
                None => {
                    &&& out == local_header(encode_utf8(name), crc, size as u32)
                    &&& after.pieces().len() == before.pieces().len() + 2
                    &&& after.pieces().take(before.pieces().len() as int) == before.pieces()
                    &&& after.pieces()[before.pieces().len() as int] matches PackagePiece::Bytes {
                        bytes,
                    } && bytes@ == out
                    &&& after.pieces().last() == (PackagePiece::FileData {
                        index: before.entries().len() as usize,
                    })
                },
            }
        },
        Err(e) => {
            &&& failure == Some(e)
            &&& after.entries() == before.entries()
            &&& after.names() == before.names()
            &&& after.pieces() == before.pieces()
            &&& after.fixed_data() == before.fixed_data()
        },
    }
}

/// The view of a result that hands out bytes.
pub open spec fn bytes_result(r: Result<Vec<u8>, ZipError>) -> Result<Seq<u8>, ZipError> {
    match r {
        Ok(v) => Ok(v@),
        Err(e) => Err(e),
    }
}

/// The pieces handed out lay out the local records of `entries`, with the
/// made data recorded in `fixed`.
spec fn stream_lays_out(
    entries: Seq<CentralEntry>,
    fixed: Seq<Option<Seq<u8>>>,
    pieces: Seq<PackagePiece>,
) -> bool {
    &&& fixed.len() == entries.len()
    &&& laid_out(entries)
    &&& forall|k: int|
        0 <= k < fixed.len() ==> (#[trigger] fixed[k] matches Some(b) ==> {
            &&& entries[k].crc32 == crate::crc::crc32(b)
            &&& entries[k].size == b.len()
        })
    &&& forall|data: Seq<Seq<u8>>|
        #[trigger] stream_data_fits(entries, fixed, data) ==> expand(pieces, data) == local_section(
            entries,
            data.take(entries.len() as int),
        )
}

/// The pieces after an entry whose header (and made data) is `out`: that, then,
/// for a file, the data of entry `index`.
spec fn pieces_after(
    pieces: Seq<PackagePiece>,
    made: Option<Seq<u8>>,
    out: Vec<u8>,
    index: usize,
) -> Seq<PackagePiece> {
    match made {
        Some(_) => pieces.push(PackagePiece::Bytes { bytes: out }),
        None => pieces.push(PackagePiece::Bytes { bytes: out }).push(
            PackagePiece::FileData { index },
        ),
    }
}

proof fn lemma_pieces_after(
    pieces: Seq<PackagePiece>,
    made: Option<Seq<u8>>,
    out: Vec<u8>,
    index: usize,
)
    ensures
        ({
            let p = pieces_after(pieces, made, out, index);
            match made {
                Some(_) => {
                    &&& p.drop_last() == pieces
                    &&& p.last() matches PackagePiece::Bytes { bytes } && bytes@ == out@
                },
                None => {
                    &&& p.len() == pieces.len() + 2
                    &&& p.take(pieces.len() as int) == pieces
                    &&& p[pieces.len() as int] matches PackagePiece::Bytes { bytes } && bytes@
                        == out@
                    &&& p.last() == (PackagePiece::FileData { index })
                },
            }
        }),
{
    let p = pieces_after(pieces, made, out, index);
    if made is None {
        assert(p.take(pieces.len() as int) =~= pieces);
        assert(p[pieces.len() as int] == PackagePiece::Bytes { bytes: out });
    }
}

/// Adding one entry, with its header `out` and then either its made data or a
/// file's data, keeps the pieces laying out the local records.
#[verifier::spinoff_prover]
#[verifier::rlimit(40)]
proof fn lemma_stream_lays_out_step(
    entries: Seq<CentralEntry>,
    fixed: Seq<Option<Seq<u8>>>,
    pieces: Seq<PackagePiece>,
    after: Seq<CentralEntry>,
    made: Option<Seq<u8>>,
    out: Vec<u8>,
    index: usize,
)
    requires
        index == entries.len(),
        stream_lays_out(entries, fixed, pieces),
        laid_out(after),
        after.len() == entries.len() + 1,
        after.drop_last() == entries,
        made matches Some(b) ==> {
            &&& out@ == local_header(after.last().name@, after.last().crc32, after.last().size) + b
            &&& after.last().crc32 == crate::crc::crc32(b)
            &&& after.last().size == b.len()
        },
        made is None ==> out@ == local_header(
            after.last().name@,
            after.last().crc32,
            after.last().size,
        ),
    ensures
        stream_lays_out(after, fixed.push(made), pieces_after(pieces, made, out, index)),
{
    let n = entries.len();
    let new_fixed = fixed.push(made);
    let new_pieces = pieces_after(pieces, made, out, index);
    assert(after.take(n as int) == entries);
    assert(after.take(n as int + 1) == after);
    assert(after[n as int] == after.last());
    assert forall|k: int| 0 <= k < new_fixed.len() implies (#[trigger] new_fixed[k] matches Some(b)
        ==> {
        &&& after[k].crc32 == crate::crc::crc32(b)
        &&& after[k].size == b.len()
    }) by {
        if k < n {
            assert(after[k] == entries[k]);
            assert(new_fixed[k] == fixed[k]);
        }
    }
    assert forall|data: Seq<Seq<u8>>| #[trigger] stream_data_fits(after, new_fixed, data) implies expand(
        new_pieces,
        data,
    ) == local_section(after, data.take(after.len() as int)) by {
        assert(stream_data_fits(entries, fixed, data)) by {
            assert forall|k: int| 0 <= k < entries.len() implies {
                &&& (#[trigger] data[k]).len() == entries[k].size
                &&& (fixed[k] matches Some(b) ==> data[k] == b)
            } by {
                assert(after[k] == entries[k]);
                assert(new_fixed[k] == fixed[k]);
            }
        }
        crate::package::lemma_local_section_step(after, data, n as int);
        let ls = local_section(entries, data.take(n as int));
        let hdr = local_header(after[n as int].name@, after[n as int].crc32, after[n as int].size);
        assert(expand(pieces, data) == ls);
        assert(local_section(after, data.take(after.len() as int)) == ls + (hdr + data[n as int]));
        match made {
            Some(b) => {
                assert(new_fixed[n as int] == made);
                assert(data[n as int] == b);
                crate::package::lemma_expand_push(pieces, PackagePiece::Bytes { bytes: out }, data);
                assert(new_pieces == pieces.push(PackagePiece::Bytes { bytes: out }));
                assert(expand(new_pieces, data) == ls + out@);
            },
            None => {
                let mid = pieces.push(PackagePiece::Bytes { bytes: out });
                crate::package::lemma_expand_push(pieces, PackagePiece::Bytes { bytes: out }, data);
                crate::package::lemma_expand_push(
                    mid,
                    PackagePiece::FileData { index },
                    data,
                );
                assert(new_pieces == mid.push(PackagePiece::FileData { index }));
                assert(expand(new_pieces, data) == (ls + hdr) + data[n as int]);
                assert((ls + hdr) + data[n as int] =~= ls + (hdr + data[n as int]));
            },
        }
    }
}

/// A cloud-safe package written as it goes, as the files are read one after the
/// other: each call hands out the bytes to append to the archive file (after a
/// file's header, the caller appends the file's bytes), so that a package that
/// fails part way leaves what was written before the failure. The pieces
/// written so far are kept, and a package closed without failure lays out, with
/// the data of its entries, as the archive of its entries.
pub struct PackageStream {
    writer: ZipWriter,
    names: Vec<String>,
    pieces: Ghost<Seq<PackagePiece>>,
    fixed: Ghost<Seq<Option<Seq<u8>>>>,
}

impl PackageStream {
    #[verifier::type_invariant]
    spec fn lays_out(&self) -> bool {
        stream_lays_out(self.writer.entries(), self.fixed@, self.pieces@)
    }

    /// The central directory entries so far, in order.
    pub closed spec fn entries(&self) -> Seq<CentralEntry> {
        self.writer.entries()
    }

    /// The entry names so far, in order.
    pub closed spec fn names(&self) -> Seq<Seq<char>> {
        strings_view(self.names@)
    }

    /// What has been handed out so far, in writing order, a file's data standing
    /// for itself.
    pub closed spec fn pieces(&self) -> Seq<PackagePiece> {
        self.pieces@
    }

    /// For each entry so far, its data when MorSteg made it, `None` for a file.
    pub closed spec fn fixed_data(&self) -> Seq<Option<Seq<u8>>> {
        self.fixed@
    }

    /// A package with no entries yet.
    pub fn new() -> (s: Self)
        ensures
            s.entries() == Seq::<CentralEntry>::empty(),
            s.names() == Seq::<Seq<char>>::empty(),
            s.pieces() == Seq::<PackagePiece>::empty(),
            s.fixed_data() == Seq::<Option<Seq<u8>>>::empty(),
    {
        let s = PackageStream {
            writer: ZipWriter::new(),
            names: Vec::new(),
            pieces: Ghost(Seq::empty()),
            fixed: Ghost(Seq::empty()),
        };
        assert(s.names() =~= Seq::<Seq<char>>::empty());
        s
    }

    #[verifier::spinoff_prover]
    fn add_entry(&mut self, name: String, crc32: u32, size: u64, made: Option<&String>) -> (r:
        Result<Vec<u8>, ZipError>)
        requires
            made matches Some(t) ==> crc32 == crate::crc::crc32(encode_utf8(t@)) && size
                == encode_utf8(t@).len(),
        ensures
            stream_step(
                *old(self),
                *final(self),
                name@,
                crc32,
                size as int,
                match made {
                    Some(t) => Some(encode_utf8(t@)),
                    None => None,
                },
                bytes_result(r),
            ),
    {
        let ghost made_bytes: Option<Seq<u8>> = match made {
            Some(t) => Some(encode_utf8(t@)),
            None => None,
        };
        proof {
            use_type_invariant(&*self);
        }
        let mut taken = PackageStream::new();
        std::mem::swap(self, &mut taken);
        proof {
            use_type_invariant(&taken);
        }
        let PackageStream { mut writer, mut names, pieces, fixed } = taken;
        let ghost old_entries = writer.entries();
        let index = writer.entry_count();
        let result = match made {
            Some(t) => {
                let bytes = text_bytes(t);
                writer.add_bytes_entry(name.as_str(), bytes.as_slice())
            },
            None => match crate::zip::file_size_u32(size) {
                Ok(size32) => writer.add_file_entry(name.as_str(), crc32, size32),
                Err(e) => Err(e),
            },
        };
        let out = match result {
            Ok(out) => out,
            Err(e) => {
                *self = PackageStream { writer, names, pieces, fixed };
                return Err(e);
            },
        };
        let ghost nm = name@;
        let ghost old_names = strings_view(names@);
        names.push(name);
        proof {
            assert(strings_view(names@) =~= old_names.push(nm));
            if made_bytes is None {
                assert(out@ + Seq::<u8>::empty() =~= out@);
            }
            lemma_stream_lays_out_step(old_entries, fixed@, pieces@, writer.entries(), made_bytes, out, index);
            lemma_pieces_after(pieces@, made_bytes, out, index);
        }
        let ghost new_pieces = pieces_after(pieces@, made_bytes, out, index);
        let ghost new_fixed = fixed@.push(made_bytes);
        *self = PackageStream { writer, names, pieces: Ghost(new_pieces), fixed: Ghost(new_fixed) };
        Ok(out)
    }

    /// Adds the file of a single-file package found at `input_path`, whose
    /// `size` bytes have CRC-32 `crc32`: its local header, to be written followed
    /// by the file's bytes. Fails with `FileTooLarge` from 4 GiB on.
    pub fn add_single_file(&mut self, input_path: &str, crc32: u32, size: u64) -> (r: Result<
        Vec<u8>,
        ZipError,
    >)
        ensures
            stream_step(
                *old(self),
                *final(self),
                single_file_entry_name(input_path@),
                crc32,
                size as int,
                None,
                bytes_result(r),
            ),
    {
        let name = file_entry_name(input_path);
        self.add_entry(name, crc32, size, None)
    }

    /// Adds the file of a folder package at `relative_path` (with `/`
    /// separators), whose `size` bytes have CRC-32 `crc32`: its local header, to
    /// be written followed by the file's bytes. Fails with `FileTooLarge` from
    /// 4 GiB on.
    pub fn add_folder_file(&mut self, relative_path: &str, crc32: u32, size: u64) -> (r: Result<
        Vec<u8>,
        ZipError,
    >)
        ensures
            stream_step(
                *old(self),
                *final(self),
                "files/"@ + safe_path(relative_path@),
                crc32,
                size as int,
                None,
                bytes_result(r),
            ),
    {
        let name = directory_entry_name(relative_path);
        self.add_entry(name, crc32, size, None)
    }

    fn add_text(&mut self, name: &str, text: &String) -> (r: Result<Vec<u8>, ZipError>)
        ensures
            stream_step(
                *old(self),
                *final(self),
                name@,
                crate::crc::crc32(encode_utf8(text@)),
                encode_utf8(text@).len() as int,
                Some(encode_utf8(text@)),
                bytes_result(r),
            ),
    {
        let bytes = text_bytes(text);
        let crc = crate::crc::crc32_bytes(bytes.as_slice());
        let len = bytes.len() as u64;
        self.add_entry(String::from_str(name), crc, len, Some(text))
    }

    /// Adds the README: its local record, header and text.
    pub fn add_readme(&mut self) -> (r: Result<Vec<u8>, ZipError>)
        ensures
            stream_step(
                *old(self),
                *final(self),
                README_ENTRY_NAME@,
                crate::crc::crc32(encode_utf8(readme_text())),
                encode_utf8(readme_text()).len() as int,
                Some(encode_utf8(readme_text())),
                bytes_result(r),
            ),
    {
        let text = cloud_safe_readme();
        self.add_text(README_ENTRY_NAME, &text)
    }

    /// Adds the manifest of a single-file package, naming its first entry.
    pub fn add_single_file_manifest(&mut self) -> (r: Result<Vec<u8>, ZipError>)
        requires
            old(self).names().len() > 0,
        ensures
            ({
                let text = encode_utf8(single_file_manifest_text(old(self).names()[0]));
                stream_step(
                    *old(self),
                    *final(self),
                    MANIFEST_ENTRY_NAME@,
                    crate::crc::crc32(text),
                    text.len() as int,
                    Some(text),
                    bytes_result(r),
                )
            }),
    {
        let text = single_file_manifest(self.names[0].as_str());
        self.add_text(MANIFEST_ENTRY_NAME, &text)
    }

    /// Adds the manifest of a folder package, counting every entry so far but
    /// the README.
    pub fn add_folder_manifest(&mut self) -> (r: Result<Vec<u8>, ZipError>)
        ensures
            ({
                let n = old(self).names().len();
                let text = encode_utf8(
                    directory_manifest_text((if n > 0 { n - 1 } else { 0 }) as nat),
                );
                stream_step(
                    *old(self),
                    *final(self),
                    MANIFEST_ENTRY_NAME@,
                    crate::crc::crc32(text),
                    text.len() as int,
                    Some(text),
                    bytes_result(r),
                )
            }),
    {
        let n = self.names.len();
        let count: usize = if n > 0 { n - 1 } else { 0 };
        let text = directory_manifest(count);
        self.add_text(MANIFEST_ENTRY_NAME, &text)
    }

    /// Closes the package: the bytes to write last (the central directory and
    /// the end record, or what of them comes before a failure) and how it ended.
    /// Closed without failure, the pieces written, laid out with the data of the
    /// entries, are the archive of the entries.
    pub fn finish(&self) -> (r: (Vec<u8>, Result<(), ZipError>))
        ensures
            finishes(self.entries(), r.0@, r.1),
            laid_out(self.entries()),
            r.1 is Ok ==> forall|data: Seq<Seq<u8>>|
                #![trigger stream_data_fits(self.entries(), self.fixed_data(), data)]
                stream_data_fits(self.entries(), self.fixed_data(), data) && data.len()
                    == self.entries().len() ==> expand(
                    self.pieces().push(PackagePiece::Bytes { bytes: r.0 }),
                    data,
                ) == archive(self.entries(), data),
    {
        proof {
            use_type_invariant(self);
        }
        let r = self.writer.finish();
        proof {
            if r.1 is Ok {
                reveal(archive);
                assert forall|data: Seq<Seq<u8>>|
                    stream_data_fits(self.entries(), self.fixed_data(), data) && data.len()
                        == self.entries().len() implies expand(
                    self.pieces().push(PackagePiece::Bytes { bytes: r.0 }),
                    data,
                ) == archive(self.entries(), data) by {
                    crate::package::lemma_expand_push(
                        self.pieces(),
                        PackagePiece::Bytes { bytes: r.0 },
                        data,
                    );
                    assert(data.take(data.len() as int) == data);
                }
            }
        }
        r
    }

    /// The report of the package written to `output`: its entry names so far.
    pub fn report(&self, output: &str) -> (r: CloudPackageReport)
        ensures
            r.output@ == output@,
            strings_view(r.entries@) == self.names(),
    {
        let mut entries: Vec<String> = Vec::new();
        let mut i: usize = 0;
        while i < self.names.len()
            invariant
                i <= self.names@.len(),
                entries@.len() == i,
                forall|k: int| 0 <= k < i ==> (#[trigger] entries@[k])@ == self.names@[k]@,
            decreases self.names@.len() - i,
        {
            entries.push(self.names[i].clone());
            i = i + 1;
        }
        assert(strings_view(entries@) =~= strings_view(self.names@));
        CloudPackageReport { output: String::from_str(output), entries }
    }
}

/// A streamed package carries each entry's data byte for byte: once it is closed
/// without failure, the bytes right after the local header that the central
/// directory record of entry `i` points at are exactly that entry's data, and the
/// record holds its length, and the CRC-32 of the data MorSteg made.
pub proof fn law_streamed_package_carries_entry_data(
    entries: Seq<CentralEntry>,
    fixed: Seq<Option<Seq<u8>>>,
    written: Seq<u8>,
    data: Seq<Seq<u8>>,
    i: int,
)
    requires
        laid_out(entries),
        fixed.len() == entries.len(),
        forall|k: int|
            0 <= k < fixed.len() ==> (#[trigger] fixed[k] matches Some(b) ==> entries[k].crc32
                == crate::crc::crc32(b)),
        stream_data_fits(entries, fixed, data),
        data.len() == entries.len(),
        written == archive(entries, data),
        0 <= i < entries.len(),
    ensures
        ({
            let e = entries[i];
            let start = e.local_header_offset + LOCAL_HEADER_FIXED_LEN + e.name@.len();
            &&& e.size == data[i].len()
            &&& (fixed[i] is Some ==> e.crc32 == crate::crc::crc32(data[i]))
            &&& written.subrange(start, start + data[i].len()) == data[i]
        }),
{
    assert(data_matches_sizes(entries, data));
    lemma_local_header_len(entries[i].name@, entries[i].crc32, entries[i].size);
    law_central_record_points_at_local_header(entries, data, i);
}

} // verus!
