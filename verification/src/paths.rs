//! Where MorSteg saves things, and how typed paths are cleaned and resolved.
use vstd::prelude::*;
use crate::text::{
    chars_eq_str, chars_of, has_prefix, push_chars, push_str_chars, starts_with_chars, string_of,
    trim, trim_chars,
};
use crate::unix_path::{is_absolute, join, parent, path_is_absolute, path_join, path_parent};

verus! {

/// The save locations chosen in this session; `None` means the default.
#[derive(Debug, Clone)]
pub struct AppConfig {
    /// Where new steghide and recovered files go when only a file name is typed.
    pub output_dir: Option<String>,
    /// Where age key files go.
    pub key_dir: Option<String>,
    /// Where cloud-safe packages go.
    pub cloud_dir: Option<String>,
}

impl Default for AppConfig {
    fn default() -> (c: Self)
        ensures
            c.output_dir is None,
            c.key_dir is None,
            c.cloud_dir is None,
    {
        AppConfig { output_dir: None, key_dir: None, cloud_dir: None }
    }
}

/// The view of an optional string.
pub open spec fn opt_view(o: Option<String>) -> Option<Seq<char>> {
    match o {
        Some(s) => Some(s@),
        None => None,
    }
}

/// The view of an optional string slice.
pub open spec fn opt_str_view(o: Option<&str>) -> Option<Seq<char>> {
    match o {
        Some(s) => Some(s@),
        None => None,
    }
}

/// The default age key folder: `$XDG_CONFIG_HOME/mor-steg/keys`, else
/// `$HOME/.config/mor-steg/keys`, else `./mor-steg-keys`.
pub open spec fn default_key_dir_spec(xdg_config_home: Option<Seq<char>>, home: Option<Seq<char>>)
    -> Seq<char> {
    match xdg_config_home {
        Some(x) => join(join(x, "mor-steg"@), "keys"@),
        None => match home {
            Some(h) => join(join(join(h, ".config"@), "mor-steg"@), "keys"@),
            None => join("."@, "mor-steg-keys"@),
        },
    }
}

fn join_str(base: &[char], p: &str) -> (r: Vec<char>)
    ensures
        r@ == join(base@, p@),
{
    let pc = chars_of(p);
    path_join(base, &pc)
}

/// The default age key folder, given the values of `XDG_CONFIG_HOME` and `HOME`
/// (`None` where the variable is unset).
pub fn default_key_dir(xdg_config_home: Option<&str>, home: Option<&str>) -> (dir: String)
    ensures
        dir@ == default_key_dir_spec(opt_str_view(xdg_config_home), opt_str_view(home)),
{
    let out = match xdg_config_home {
        Some(x) => {
            let xc = chars_of(x);
            let a = join_str(&xc, "mor-steg");
            join_str(&a, "keys")
        },
        None => match home {
            Some(h) => {
                let hc = chars_of(h);
                let a = join_str(&hc, ".config");
                let b = join_str(&a, "mor-steg");
                join_str(&b, "keys")
            },
            None => {
                let d = chars_of(".");
                join_str(&d, "mor-steg-keys")
            },
        },
    };
    string_of(&out)
}

/// The age key folder in use: the chosen one, else the default (computed from
/// `XDG_CONFIG_HOME` and `HOME` as `default_key_dir` does).
pub fn active_key_dir(config: &AppConfig, xdg_config_home: Option<&str>, home: Option<&str>) -> (dir: String)
    ensures
        dir@ == match config.key_dir {
            Some(d) => d@,
            None => default_key_dir_spec(opt_str_view(xdg_config_home), opt_str_view(home)),
        },
{
    match &config.key_dir {
        Some(d) => d.clone(),
        None => default_key_dir(xdg_config_home, home),
    }
}

/// The cloud-safe package folder in use: the chosen one, else the folder MorSteg
/// was started from (`.`).
pub fn active_cloud_dir(config: &AppConfig) -> (dir: String)
    ensures
        dir@ == match config.cloud_dir {
            Some(d) => d@,
            None => "."@,
        },
{
    match &config.cloud_dir {
        Some(d) => d.clone(),
        None => String::from_str("."),
    }
}

/// Whether `p` names a folder part: its parent is present and not empty.
pub open spec fn has_folder_part(p: Seq<char>) -> bool {
    parent(p) matches Some(q) && q.len() > 0
}

/// Where a typed output path points: an absolute path or one with a folder part
/// as typed; a bare file name inside the chosen output folder, if any.
pub open spec fn resolved_output_path(typed: Seq<char>, output_dir: Option<Seq<char>>) -> Seq<char> {
    if is_absolute(typed) || has_folder_part(typed) {
        typed
    } else {
        match output_dir {
            Some(d) => join(d, typed),
            None => typed,
        }
    }
}

/// Where the typed output path `typed_path` points, given the chosen output folder.
pub fn resolve_output_path(typed_path: &str, config: &AppConfig) -> (path: String)
    ensures
        path@ == resolved_output_path(typed_path@, opt_view(config.output_dir)),
{
    let typed = chars_of(typed_path);
    if path_is_absolute(&typed) {
        return string_of(&typed);
    }
    let has_parent = match path_parent(&typed) {
        Some(q) => q.len() > 0,
        None => false,
    };
    if has_parent {
        return string_of(&typed);
    }
    match &config.output_dir {
        Some(d) => {
            let dc = chars_of(d.as_str());
            let joined = path_join(&dc, &typed);
            string_of(&joined)
        },
        None => string_of(&typed),
    }
}

/// `path` made absolute against the current folder `cwd`, when it is relative and
/// the current folder is known.
pub fn to_absolute_path(path: &str, cwd: Option<&str>) -> (abs: String)
    ensures
        abs@ == if is_absolute(path@) {
            path@
        } else {
            match cwd {
                Some(c) => join(c@, path@),
                None => path@,
            }
        },
{
    let p = chars_of(path);
    if path_is_absolute(&p) {
        return string_of(&p);
    }
    match cwd {
        Some(c) => {
            let cc = chars_of(c);
            let j = path_join(&cc, &p);
            string_of(&j)
        },
        None => string_of(&p),
    }
}

/// The parent of `path` (`Path::parent` on Unix).
pub fn parent_dir(path: &str) -> (r: Option<String>)
    ensures
        opt_view(r) == parent(path@),
{
    let p = chars_of(path);
    match path_parent(&p) {
        Some(q) => Some(string_of(&q)),
        None => None,
    }
}

/// The private temporary file that holds the encrypted payload inside the
/// temporary workspace folder `workspace`.
pub fn temp_payload_path(workspace: &str) -> (path: String)
    ensures
        path@ == join(workspace@, "payload.age"@),
{
    let w = chars_of(workspace);
    let j = join_str(&w, "payload.age");
    string_of(&j)
}

/// `t` without one pair of matching surrounding double or single quotes.
pub open spec fn strip_matching_quotes(t: Seq<char>) -> Seq<char> {
    if t.len() >= 2 && ((t[0] == '"' && t.last() == '"') || (t[0] == '\'' && t.last() == '\'')) {
        t.subrange(1, t.len() - 1)
    } else {
        t
    }
}

/// `s` with every escaped space `\ ` turned into a plain space, left to right.
pub open spec fn unescape_spaces(s: Seq<char>) -> Seq<char>
    decreases s.len(),
{
    if s.len() == 0 {
        s
    } else if s.len() >= 2 && s[0] == '\\' && s[1] == ' ' {
        seq![' '] + unescape_spaces(s.skip(2))
    } else {
        seq![s[0]] + unescape_spaces(s.skip(1))
    }
}

/// A path pasted or dragged into a terminal, cleaned: white space around it,
/// one pair of surrounding quotes and the escapes of spaces removed.
pub open spec fn clean_terminal(s: Seq<char>) -> Seq<char> {
    unescape_spaces(strip_matching_quotes(trim(s)))
}

/// Input that is, apart from white space, a single quote character: cleaning it
/// would cut out the text between its first and last character, which is the
/// same character.
pub open spec fn is_lone_quote(s: Seq<char>) -> bool {
    trim(s) == seq!['"'] || trim(s) == seq!['\'']
}

fn strip_matching_quotes_chars(t: &[char]) -> (r: Vec<char>)
    requires
        t@ != seq!['"'],
        t@ != seq!['\''],
    ensures
        r@ == strip_matching_quotes(t@),
{
    let n = t.len();
    let mut out: Vec<char> = Vec::new();
    if n >= 1 && ((t[0] == '"' && t[n - 1] == '"') || (t[0] == '\'' && t[n - 1] == '\'')) {
        if n == 1 {
            assert(t@ =~= seq![t@[0]]);
        }
        let mut i: usize = 1;
        while i < n - 1
            invariant
                2 <= n == t.len(),
                1 <= i <= n - 1,
                out@ == t@.subrange(1, i as int),
            decreases n - i,
        {
            out.push(t[i]);
            i = i + 1;
            assert(t@.subrange(1, i as int) == t@.subrange(1, i - 1).push(t@[i - 1]));
        }
        return out;
    }
    push_chars(&mut out, t);
    out
}

fn unescape_spaces_chars(s: &[char]) -> (r: Vec<char>)
    ensures
        r@ == unescape_spaces(s@),
{
    let mut out: Vec<char> = Vec::new();
    let mut i: usize = 0;
    assert(s@.skip(0) == s@);
    while i < s.len()
        invariant
            i <= s.len(),
            out@ + unescape_spaces(s@.skip(i as int)) == unescape_spaces(s@),
        decreases s.len() - i,
    {
        let ghost rest = s@.skip(i as int);
        if i + 1 < s.len() && s[i] == '\\' && s[i + 1] == ' ' {
            assert(rest.skip(2) == s@.skip(i + 2));
            assert(rest[0] == '\\' && rest[1] == ' ');
            out.push(' ');
            i = i + 2;
        } else {
            assert(rest.skip(1) == s@.skip(i + 1));
            assert(rest[0] == s@[i as int]);
            out.push(s[i]);
            i = i + 1;
        }
    }
    assert(s@.skip(s.len() as int) == Seq::<char>::empty());
    out
}

fn clean_terminal_chars(input: &str) -> (r: Vec<char>)
    requires
        !is_lone_quote(input@),
    ensures
        r@ == clean_terminal(input@),
{
    let c = chars_of(input);
    let t = trim_chars(&c);
    let q = strip_matching_quotes_chars(&t);
    unescape_spaces_chars(&q)
}

/// A path pasted or dragged into a terminal, cleaned (see `clean_terminal`).
pub fn clean_terminal_path(input: &str) -> (cleaned: String)
    requires
        !is_lone_quote(input@),
    ensures
        cleaned@ == clean_terminal(input@),
{
    let r = clean_terminal_chars(input);
    string_of(&r)
}

/// `c` with a leading `~` replaced by the home folder `h`: `~` alone, `~/rest`
/// and `~\rest` (with `allow_backslash`) are expanded; anything else is kept.
pub open spec fn expand_home(c: Seq<char>, home: Option<Seq<char>>, allow_backslash: bool) -> Seq<char> {
    match home {
        Some(h) => if c == seq!['~'] {
            h
        } else if has_prefix(c, seq!['~', '/']) {
            h + seq!['/'] + c.skip(2)
        } else if allow_backslash && has_prefix(c, seq!['~', '\\']) {
            h + seq!['\\'] + c.skip(2)
        } else {
            c
        },
        None => c,
    }
}

fn expand_home_chars(c: &[char], home: Option<&str>, allow_backslash: bool) -> (r: Vec<char>)
    ensures
        r@ == expand_home(c@, opt_str_view(home), allow_backslash),
{
    let mut out: Vec<char> = Vec::new();
    match home {
        Some(h) => {
            let tilde = ['~'];
            let tilde_slash = ['~', '/'];
            let tilde_back = ['~', '\\'];
            assert(tilde@ == seq!['~']);
            assert(tilde_slash@ == seq!['~', '/']);
            assert(tilde_back@ == seq!['~', '\\']);
            if crate::text::chars_eq(c, &tilde) {
                push_str_chars(&mut out, h);
                return out;
            }
            let sep = if starts_with_chars(c, &tilde_slash) {
                Some('/')
            } else if allow_backslash && starts_with_chars(c, &tilde_back) {
                Some('\\')
            } else {
                None
            };
            match sep {
                Some(ch) => {
                    push_str_chars(&mut out, h);
                    out.push(ch);
                    let mut i: usize = 2;
                    while i < c.len()
                        invariant
                            2 <= i <= c.len(),
                            out@ == h@ + seq![ch] + c@.subrange(2, i as int),
                        decreases c.len() - i,
                    {
                        out.push(c[i]);
                        i = i + 1;
                        assert(c@.subrange(2, i as int) == c@.subrange(2, i - 1).push(c@[i - 1]));
                    }
                    assert(c@.subrange(2, c.len() as int) == c@.skip(2));
                    out
                },
                None => {
                    push_chars(&mut out, c);
                    out
                },
            }
        },
        None => {
            push_chars(&mut out, c);
            out
        },
    }
}

/// A typed path, cleaned and with a leading `~` expanded to the home folder
/// `home` (the value of `HOME`, or of `USERPROFILE` on Windows; `None` when unset).
pub fn expand_tilde(input: &str, home: Option<&str>) -> (path: String)
    requires
        !is_lone_quote(input@),
    ensures
        path@ == expand_home(clean_terminal(input@), opt_str_view(home), true),
{
    let c = clean_terminal_chars(input);
    let r = expand_home_chars(&c, home, true);
    string_of(&r)
}

/// A folder path typed at a menu, cleaned and with `~` or `~/` expanded to the
/// home folder `home` (the value of `HOME`; `None` when unset).
pub fn clean_menu_path(input: &str, home: Option<&str>) -> (path: String)
    requires
        !is_lone_quote(input@),
    ensures
        path@ == expand_home(clean_terminal(input@), opt_str_view(home), false),
{
    let c = clean_terminal_chars(input);
    let r = expand_home_chars(&c, home, false);
    string_of(&r)
}

/// Whether `input`, apart from white space, is a single quote character, on which
/// `clean_terminal_path` has nothing to keep between the quotes.
pub fn is_lone_quote_input(input: &str) -> (r: bool)
    ensures
        r == is_lone_quote(input@),
{
    let c = chars_of(input);
    let t = trim_chars(&c);
    proof {
        reveal_strlit("\"");
        reveal_strlit("'");
        assert("\""@ =~= seq!['"']);
        assert("'"@ =~= seq!['\'']);
    }
    chars_eq_str(&t, "\"") || chars_eq_str(&t, "'")
}

/// Which save folder a menu choice is about.
#[derive(Debug, Clone, Copy, PartialEq, Eq, Structural)]
pub enum SaveFolder {
    /// Where steghide and recovered files go.
    Output,
    /// Where age key files go.
    Keys,
    /// Where cloud-safe packages go.
    Cloud,
}

/// The folder kept after a choice: `None` (reset) clears it, a folder replaces
/// it once it was created, and a folder that could not be created leaves it as
/// it was.
pub open spec fn chosen_folder(current: Option<String>, chosen: Option<String>, created: bool) -> Option<
    String,
> {
    match chosen {
        None => None,
        Some(f) => if created {
            Some(f)
        } else {
            current
        },
    }
}

/// Records a choice at the save-folder menu of `which`: the chosen folder
/// (`None` to reset it to the default), and whether it could be created. Only
/// that folder changes; the other two stay as they were.
pub fn apply_folder_choice(config: &mut AppConfig, which: SaveFolder, chosen: Option<String>, created: bool)
    ensures
        final(config).output_dir == if which == SaveFolder::Output {
            chosen_folder(old(config).output_dir, chosen, created)
        } else {
            old(config).output_dir
        },
        final(config).key_dir == if which == SaveFolder::Keys {
            chosen_folder(old(config).key_dir, chosen, created)
        } else {
            old(config).key_dir
        },
        final(config).cloud_dir == if which == SaveFolder::Cloud {
            chosen_folder(old(config).cloud_dir, chosen, created)
        } else {
            old(config).cloud_dir
        },
{
    if chosen.is_some() && !created {
        return;
    }
    match which {
        SaveFolder::Output => {
            config.output_dir = chosen;
        },
        SaveFolder::Keys => {
            config.key_dir = chosen;
        },
        SaveFolder::Cloud => {
            config.cloud_dir = chosen;
        },
    }
}

} // verus!
