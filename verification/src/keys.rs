//! Age key files: their names, the `age-keygen` command that makes them, the
//! public key line inside a private key file, and the share-safe public key file.
use vstd::prelude::*;
use crate::commands::{strings_view, ToolCommand};
use crate::text::{
    chars_of, has_prefix, lemma_split_on_nonempty, push_str_chars, split_on,
    starts_with_chars, string_of, trim, trim_chars,
};
use crate::unix_path::{file_stem, join, parent, path_file_stem, path_join, path_parent};

verus! {

/// Which kind of age key to make.
#[derive(Debug, Clone, Copy, PartialEq, Eq, Structural)]
pub enum KeyKind {
    /// A classic X25519 age key.
    Normal,
    /// A post-quantum-capable age key (`age-keygen -pq`).
    PostQuantum,
}

/// The private and public key file names for `kind`.
pub open spec fn key_file_names_spec(kind: KeyKind) -> (Seq<char>, Seq<char>) {
    match kind {
        KeyKind::Normal => ("morsteg-age-key.txt"@, "morsteg-age-public-key.txt"@),
        KeyKind::PostQuantum => ("morsteg-pq-key.txt"@, "morsteg-pq-public-key.txt"@),
    }
}

/// The private and public key file names made for `kind`, in the key folder.
pub fn key_file_names(kind: KeyKind) -> (names: (String, String))
    ensures
        (names.0@, names.1@) == key_file_names_spec(kind),
{
    match kind {
        KeyKind::Normal => (
            String::from_str("morsteg-age-key.txt"),
            String::from_str("morsteg-age-public-key.txt"),
        ),
        KeyKind::PostQuantum => (
            String::from_str("morsteg-pq-key.txt"),
            String::from_str("morsteg-pq-public-key.txt"),
        ),
    }
}

/// The `age-keygen` command that writes a new private key of `kind` to `key_path`.
pub fn keygen_command(kind: KeyKind, key_path: &str) -> (c: ToolCommand)
    ensures
        c.program@ == "age-keygen"@,
        strings_view(c.args@) == match kind {
            KeyKind::Normal => seq!["-o"@, key_path@],
            KeyKind::PostQuantum => seq!["-pq"@, "-o"@, key_path@],
        },
{
    let mut args: Vec<String> = Vec::new();
    if kind == KeyKind::PostQuantum {
        args.push(String::from_str("-pq"));
    }
    args.push(String::from_str("-o"));
    args.push(String::from_str(key_path));
    proof {
        match kind {
            KeyKind::Normal => assert(strings_view(args@) =~= seq!["-o"@, key_path@]),
            KeyKind::PostQuantum => assert(strings_view(args@) =~= seq!["-pq"@, "-o"@, key_path@]),
        }
    }
    ToolCommand { program: String::from_str("age-keygen"), args }
}

/// The marker of the public key comment line in an age private key file.
pub open spec fn public_key_marker() -> Seq<char> {
    "# public key:"@
}

/// The public key a line announces: the line, trimmed, starts with the marker and
/// what follows it, trimmed, is not empty.
pub open spec fn public_key_of_line(line: Seq<char>) -> Option<Seq<char>> {
    let t = trim(line);
    if has_prefix(t, public_key_marker()) && trim(t.skip(public_key_marker().len() as int)).len()
        > 0 {
        Some(trim(t.skip(public_key_marker().len() as int)))
    } else {
        None
    }
}

/// The public key announced by the first line of `lines` that announces one.
pub open spec fn first_public_key(lines: Seq<Seq<char>>) -> Option<Seq<char>>
    decreases lines.len(),
{
    if lines.len() == 0 {
        None
    } else {
        match first_public_key(lines.drop_last()) {
            Some(k) => Some(k),
            None => public_key_of_line(lines.last()),
        }
    }
}

/// The public key written in the text of a private age key file: the first line
/// of the form `# public key: <key>` with a non-empty key. Lines are the pieces
/// between `\n`; a `\r` before it is white space and trimmed away with the rest.
pub open spec fn public_key_in(contents: Seq<char>) -> Option<Seq<char>> {
    first_public_key(split_on(contents, '\n'))
}

fn public_key_of_line_chars(line: &[char]) -> (r: Option<Vec<char>>)
    ensures
        match r {
            Some(k) => public_key_of_line(line@) == Some(k@),
            None => public_key_of_line(line@) is None,
        },
{
    let t = trim_chars(line);
    let marker = chars_of("# public key:");
    if !starts_with_chars(&t, &marker) {
        return None;
    }
    let mut rest: Vec<char> = Vec::new();
    let mut i: usize = marker.len();
    while i < t.len()
        invariant
            marker@.len() <= i <= t@.len(),
            rest@ == t@.subrange(marker@.len() as int, i as int),
        decreases t@.len() - i,
    {
        rest.push(t[i]);
        i = i + 1;
        assert(t@.subrange(marker@.len() as int, i as int) == t@.subrange(
            marker@.len() as int,
            i - 1,
        ).push(t@[i - 1]));
    }
    assert(rest@ == t@.skip(marker@.len() as int));
    let key = trim_chars(&rest);
    if key.len() == 0 {
        return None;
    }
    Some(key)
}

/// The public key written in the text of a private age key file, if any.
pub fn public_key_from_identity_text(contents: &str) -> (r: Option<String>)
    ensures
        match r {
            Some(k) => public_key_in(contents@) == Some(k@),
            None => public_key_in(contents@) is None,
        },
{
    let cs = chars_of(contents);
    let mut cur: Vec<char> = Vec::new();
    let ghost mut done: Seq<Seq<char>> = Seq::empty();
    let mut i: usize = 0;
    assert(cs@.take(0) == Seq::<char>::empty());
    assert(split_on(Seq::<char>::empty(), '\n') =~= done.push(cur@));
    while i < cs.len()
        invariant
            i <= cs.len(),
            cs@ == contents@,
            split_on(cs@.take(i as int), '\n') == done.push(cur@),
            first_public_key(done) is None,
        decreases cs.len() - i,
    {
        let c = cs[i];
        let ghost prev = cs@.take(i as int);
        assert(cs@.take(i + 1).drop_last() == prev);
        assert(cs@.take(i + 1).last() == c);
        if c == '\n' {
            match public_key_of_line_chars(&cur) {
                Some(k) => {
                    proof {
                        let lines = done.push(cur@);
                        assert(lines.drop_last() == done);
                        assert(lines.last() == cur@);
                        assert(first_public_key(lines) == Some(k@));
                        assert(split_on(cs@.take(i + 1), '\n') == lines.push(Seq::empty()));
                        lemma_split_keeps_completed_lines(cs@, i + 1, cs@.len() as int, lines);
                        assert(cs@.take(cs@.len() as int) == cs@);
                        lemma_first_key_of_extension(lines, split_on(cs@, '\n'));
                    }
                    return Some(string_of(&k));
                },
                None => {},
            }
            proof {
                assert(done.push(cur@).drop_last() == done);
                done = done.push(cur@);
            }
            cur = Vec::new();
            assert(split_on(cs@.take(i + 1), '\n') == done.push(cur@));
        } else {
            let ghost before = cur@;
            cur.push(c);
            proof {
                lemma_split_on_nonempty(prev, '\n');
                assert(split_on(cs@.take(i + 1), '\n') =~= done.push(before).update(
                    done.len() as int,
                    before.push(c),
                ));
                assert(done.push(before).update(done.len() as int, before.push(c)) =~= done.push(
                    cur@,
                ));
            }
        }
        i = i + 1;
    }
    assert(cs@.take(cs.len() as int) == cs@);
    assert(done.push(cur@).drop_last() == done);
    match public_key_of_line_chars(&cur) {
        Some(k) => Some(string_of(&k)),
        None => None,
    }
}

/// Completed lines stay in front as the text grows: once `s[..n]` splits into
/// `lines` and an empty last piece, every longer prefix splits into `lines`
/// followed by at least one more piece.
proof fn lemma_split_keeps_completed_lines(s: Seq<char>, n: int, m: int, lines: Seq<Seq<char>>)
    requires
        0 <= n <= m <= s.len(),
        split_on(s.take(n), '\n') == lines.push(Seq::empty()),
    ensures
        split_on(s.take(m), '\n').len() >= lines.len() + 1,
        split_on(s.take(m), '\n').take(lines.len() as int) == lines,
    decreases m - n,
{
    if m == n {
        assert(lines.push(Seq::<char>::empty()).take(lines.len() as int) == lines);
    } else {
        lemma_split_keeps_completed_lines(s, n, m - 1, lines);
        let t = s.take(m);
        assert(t.drop_last() == s.take(m - 1));
        let prev = split_on(s.take(m - 1), '\n');
        let next = split_on(t, '\n');
        if t.last() == '\n' {
            assert(next == prev.push(Seq::<char>::empty()));
        } else {
            assert(next == prev.update(prev.len() - 1, prev.last().push(t.last())));
        }
        assert(next.take(lines.len() as int) =~= prev.take(lines.len() as int));
    }
}

/// The first key of a list of lines does not change when lines are added after
/// the lines that announce it.
proof fn lemma_first_key_of_extension(lines: Seq<Seq<char>>, more: Seq<Seq<char>>)
    requires
        first_public_key(lines) is Some,
        more.len() >= lines.len(),
        more.take(lines.len() as int) == lines,
    ensures
        first_public_key(more) == first_public_key(lines),
    decreases more.len(),
{
    if more.len() == lines.len() {
        assert(more == more.take(lines.len() as int));
    } else {
        assert(more.drop_last().take(lines.len() as int) =~= more.take(lines.len() as int));
        lemma_first_key_of_extension(lines, more.drop_last());
    }
}

/// The contents of the share-safe public key file.
pub open spec fn public_key_file_contents(public_key: Seq<char>) -> Seq<char> {
    "# MorSteg public age key\n# Safe to share. This cannot decrypt files.\n# Give this to someone who wants to hide a file for you.\n"@
        + public_key + "\n"@
}

/// The contents of the share-safe public key file for `public_key`.
pub fn public_key_file_text(public_key: &str) -> (text: String)
    ensures
        text@ == public_key_file_contents(public_key@),
{
    let mut out: Vec<char> = Vec::new();
    push_str_chars(
        &mut out,
        "# MorSteg public age key\n# Safe to share. This cannot decrypt files.\n# Give this to someone who wants to hide a file for you.\n",
    );
    push_str_chars(&mut out, public_key);
    push_str_chars(&mut out, "\n");
    string_of(&out)
}

/// Where the share-safe public key file of `private_key` goes: beside it (or in
/// `.` when the path has no parent), named after its stem (or `morsteg-age`) with
/// `-public-key.txt`.
pub open spec fn public_key_path_for(private_key: Seq<char>) -> Seq<char> {
    let dir = match parent(private_key) {
        Some(p) => p,
        None => "."@,
    };
    let stem = match file_stem(private_key) {
        Some(s) => s,
        None => "morsteg-age"@,
    };
    join(dir, stem + "-public-key.txt"@)
}

/// Where the share-safe public key file of the private key file `private_key` goes.
pub fn default_public_key_path_for_private_key(private_key: &str) -> (path: String)
    ensures
        path@ == public_key_path_for(private_key@),
{
    let p = chars_of(private_key);
    let dir = match path_parent(&p) {
        Some(d) => d,
        None => chars_of("."),
    };
    let mut name = match path_file_stem(&p) {
        Some(s) => s,
        None => chars_of("morsteg-age"),
    };
    push_str_chars(&mut name, "-public-key.txt");
    let j = path_join(&dir, &name);
    string_of(&j)
}

/// The two key files of every kind have different names, so the share-safe
/// public key file is never written over the private key: for a normal key they
/// are `morsteg-age-key.txt` and `morsteg-age-public-key.txt`, for a
/// post-quantum key `morsteg-pq-key.txt` and `morsteg-pq-public-key.txt`. Both
/// are plain relative names (not empty, no `/`), and they differ even in
/// length, so they name different files in any one folder.
pub proof fn law_key_file_names_differ(kind: KeyKind)
    ensures
        key_file_names_spec(kind).0 != key_file_names_spec(kind).1,
        key_file_names_spec(kind).0.len() != key_file_names_spec(kind).1.len(),
        key_file_names_spec(kind).0.len() > 0 && key_file_names_spec(kind).0[0] != '/',
        key_file_names_spec(kind).1.len() > 0 && key_file_names_spec(kind).1[0] != '/',
        kind == KeyKind::Normal ==> key_file_names_spec(kind) == (
            "morsteg-age-key.txt"@,
            "morsteg-age-public-key.txt"@,
        ),
        kind == KeyKind::PostQuantum ==> key_file_names_spec(kind) == (
            "morsteg-pq-key.txt"@,
            "morsteg-pq-public-key.txt"@,
        ),
{
    reveal_strlit("morsteg-age-key.txt");
    reveal_strlit("morsteg-age-public-key.txt");
    reveal_strlit("morsteg-pq-key.txt");
    reveal_strlit("morsteg-pq-public-key.txt");
    let (a, b) = key_file_names_spec(kind);
    assert(a.len() != b.len());
    if a == b {
        assert(a.len() == b.len());
    }
}

} // verus!
