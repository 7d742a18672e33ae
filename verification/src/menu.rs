//! What the answers typed at MorSteg's menus and questions select.
use vstd::prelude::*;
use crate::paths::{clean_menu_path, clean_terminal, expand_home, is_lone_quote, opt_str_view};
use crate::text::{chars_eq_str, chars_of, decimal, digit_char, trim, trim_chars};

verus! {

/// An entry of the main menu.
#[derive(Debug, Clone, Copy, PartialEq, Eq, Structural)]
pub enum MainMenuChoice {
    /// `[1]` Hide a file using a password.
    HideWithPassword,
    /// `[2]` Open a hidden file with a password.
    OpenWithPassword,
    /// `[3]` Hide for someone using their age key.
    HideForRecipient,
    /// `[4]` Open using my private age key.
    OpenWithIdentity,
    /// `[5]` Age key helper.
    AgeKeyHelper,
    /// `[6]` Steghide/output save folder.
    OutputFolder,
    /// `[7]` Age key save folder.
    KeyFolder,
    /// `[8]` Cloud-safe package folder.
    CloudFolder,
    /// `[9]` Make one file cloud-safe.
    CloudSafeFile,
    /// `[10]` Make a folder cloud-safe.
    CloudSafeFolder,
    /// `[11]` Check a file for hidden steghide info.
    Inspect,
    /// `[12]` Check the tools.
    CheckTools,
    /// `[13]`, `q`, `quit` or `exit`.
    Quit,
    /// Anything else.
    Unknown,
}

/// The main menu entry selected by the answer `t` (already trimmed).
pub open spec fn main_menu_choice_of(t: Seq<char>) -> MainMenuChoice {
    if t == "1"@ { MainMenuChoice::HideWithPassword }
    else if t == "2"@ { MainMenuChoice::OpenWithPassword }
    else if t == "3"@ { MainMenuChoice::HideForRecipient }
    else if t == "4"@ { MainMenuChoice::OpenWithIdentity }
    else if t == "5"@ { MainMenuChoice::AgeKeyHelper }
    else if t == "6"@ { MainMenuChoice::OutputFolder }
    else if t == "7"@ { MainMenuChoice::KeyFolder }
    else if t == "8"@ { MainMenuChoice::CloudFolder }
    else if t == "9"@ { MainMenuChoice::CloudSafeFile }
    else if t == "10"@ { MainMenuChoice::CloudSafeFolder }
    else if t == "11"@ { MainMenuChoice::Inspect }
    else if t == "12"@ { MainMenuChoice::CheckTools }
    else if t == "13"@ || t == "q"@ || t == "quit"@ || t == "exit"@ { MainMenuChoice::Quit }
    else { MainMenuChoice::Unknown }
}

/// The main menu entry selected by the typed answer `input`.
pub fn main_menu_choice(input: &str) -> (c: MainMenuChoice)
    ensures
        c == main_menu_choice_of(trim(input@)),
{
    let cs = chars_of(input);
    let t = trim_chars(&cs);
    if chars_eq_str(&t, "1") { MainMenuChoice::HideWithPassword }
    else if chars_eq_str(&t, "2") { MainMenuChoice::OpenWithPassword }
    else if chars_eq_str(&t, "3") { MainMenuChoice::HideForRecipient }
    else if chars_eq_str(&t, "4") { MainMenuChoice::OpenWithIdentity }
    else if chars_eq_str(&t, "5") { MainMenuChoice::AgeKeyHelper }
    else if chars_eq_str(&t, "6") { MainMenuChoice::OutputFolder }
    else if chars_eq_str(&t, "7") { MainMenuChoice::KeyFolder }
    else if chars_eq_str(&t, "8") { MainMenuChoice::CloudFolder }
    else if chars_eq_str(&t, "9") { MainMenuChoice::CloudSafeFile }
    else if chars_eq_str(&t, "10") { MainMenuChoice::CloudSafeFolder }
    else if chars_eq_str(&t, "11") { MainMenuChoice::Inspect }
    else if chars_eq_str(&t, "12") { MainMenuChoice::CheckTools }
    else if chars_eq_str(&t, "13") || chars_eq_str(&t, "q") || chars_eq_str(&t, "quit")
        || chars_eq_str(&t, "exit") { MainMenuChoice::Quit }
    else { MainMenuChoice::Unknown }
}

/// The entries of the main menu in the order it prints them: `[1]` Hide a file
/// using a password, `[2]` Open a hidden file with a password, `[3]` Hide for
/// someone using their age key, `[4]` Open using my private age key, `[5]` Age
/// key helper, `[6]` Steghide/output save folder, `[7]` Age key save folder,
/// `[8]` Cloud-safe package folder, `[9]` Make one file cloud-safe, `[10]` Make a
/// folder cloud-safe, `[11]` Check a file for hidden steghide info, `[12]` Check
/// the tools, `[13]` Quit.
pub open spec fn printed_main_menu() -> Seq<MainMenuChoice> {
    seq![
        MainMenuChoice::HideWithPassword,
        MainMenuChoice::OpenWithPassword,
        MainMenuChoice::HideForRecipient,
        MainMenuChoice::OpenWithIdentity,
        MainMenuChoice::AgeKeyHelper,
        MainMenuChoice::OutputFolder,
        MainMenuChoice::KeyFolder,
        MainMenuChoice::CloudFolder,
        MainMenuChoice::CloudSafeFile,
        MainMenuChoice::CloudSafeFolder,
        MainMenuChoice::Inspect,
        MainMenuChoice::CheckTools,
        MainMenuChoice::Quit,
    ]
}

/// Typing a number of the main menu selects the entry printed next to it: the
/// decimal digits of `n`, for `n` from 1 to 13, select entry `n` of the printed
/// menu; `q`, `quit` and `exit` quit as `13` does.
pub proof fn law_menu_numbers_select_printed_entries(n: nat)
    requires
        1 <= n <= 13,
    ensures
        main_menu_choice_of(decimal(n)) == printed_main_menu()[n - 1],
        main_menu_choice_of("q"@) == MainMenuChoice::Quit,
        main_menu_choice_of("quit"@) == MainMenuChoice::Quit,
        main_menu_choice_of("exit"@) == MainMenuChoice::Quit,
{
    reveal_strlit("1");
    reveal_strlit("2");
    reveal_strlit("3");
    reveal_strlit("4");
    reveal_strlit("5");
    reveal_strlit("6");
    reveal_strlit("7");
    reveal_strlit("8");
    reveal_strlit("9");
    reveal_strlit("10");
    reveal_strlit("11");
    reveal_strlit("12");
    reveal_strlit("13");
    reveal_strlit("q");
    reveal_strlit("quit");
    reveal_strlit("exit");
    assert("1"@ =~= seq!['1']);
    assert("2"@ =~= seq!['2']);
    assert("3"@ =~= seq!['3']);
    assert("4"@ =~= seq!['4']);
    assert("5"@ =~= seq!['5']);
    assert("6"@ =~= seq!['6']);
    assert("7"@ =~= seq!['7']);
    assert("8"@ =~= seq!['8']);
    assert("9"@ =~= seq!['9']);
    assert("10"@ =~= seq!['1', '0']);
    assert("11"@ =~= seq!['1', '1']);
    assert("12"@ =~= seq!['1', '2']);
    assert("13"@ =~= seq!['1', '3']);
    assert("q"@ =~= seq!['q']);
    assert("quit"@ =~= seq!['q', 'u', 'i', 't']);
    assert("exit"@ =~= seq!['e', 'x', 'i', 't']);
    if n == 1 {
        assert(decimal(1) =~= seq!['1']);
    }
    if n == 2 {
        assert(decimal(2) =~= seq!['2']);
        assert("2"@ != "1"@) by { assert("2"@.len() != "1"@.len() || "2"@[0] != "1"@[0]); }
    }
    if n == 3 {
        assert(decimal(3) =~= seq!['3']);
        assert("3"@ != "1"@) by { assert("3"@.len() != "1"@.len() || "3"@[0] != "1"@[0]); }
        assert("3"@ != "2"@) by { assert("3"@.len() != "2"@.len() || "3"@[0] != "2"@[0]); }
    }
    if n == 4 {
        assert(decimal(4) =~= seq!['4']);
        assert("4"@ != "1"@) by { assert("4"@.len() != "1"@.len() || "4"@[0] != "1"@[0]); }
        assert("4"@ != "2"@) by { assert("4"@.len() != "2"@.len() || "4"@[0] != "2"@[0]); }
        assert("4"@ != "3"@) by { assert("4"@.len() != "3"@.len() || "4"@[0] != "3"@[0]); }
    }
    if n == 5 {
        assert(decimal(5) =~= seq!['5']);
        assert("5"@ != "1"@) by { assert("5"@.len() != "1"@.len() || "5"@[0] != "1"@[0]); }
        assert("5"@ != "2"@) by { assert("5"@.len() != "2"@.len() || "5"@[0] != "2"@[0]); }
        assert("5"@ != "3"@) by { assert("5"@.len() != "3"@.len() || "5"@[0] != "3"@[0]); }
        assert("5"@ != "4"@) by { assert("5"@.len() != "4"@.len() || "5"@[0] != "4"@[0]); }
    }
    if n == 6 {
        assert(decimal(6) =~= seq!['6']);
        assert("6"@ != "1"@) by { assert("6"@.len() != "1"@.len() || "6"@[0] != "1"@[0]); }
        assert("6"@ != "2"@) by { assert("6"@.len() != "2"@.len() || "6"@[0] != "2"@[0]); }
        assert("6"@ != "3"@) by { assert("6"@.len() != "3"@.len() || "6"@[0] != "3"@[0]); }
        assert("6"@ != "4"@) by { assert("6"@.len() != "4"@.len() || "6"@[0] != "4"@[0]); }
        assert("6"@ != "5"@) by { assert("6"@.len() != "5"@.len() || "6"@[0] != "5"@[0]); }
    }
    if n == 7 {
        assert(decimal(7) =~= seq!['7']);
        assert("7"@ != "1"@) by { assert("7"@.len() != "1"@.len() || "7"@[0] != "1"@[0]); }
        assert("7"@ != "2"@) by { assert("7"@.len() != "2"@.len() || "7"@[0] != "2"@[0]); }
        assert("7"@ != "3"@) by { assert("7"@.len() != "3"@.len() || "7"@[0] != "3"@[0]); }
        assert("7"@ != "4"@) by { assert("7"@.len() != "4"@.len() || "7"@[0] != "4"@[0]); }
        assert("7"@ != "5"@) by { assert("7"@.len() != "5"@.len() || "7"@[0] != "5"@[0]); }
        assert("7"@ != "6"@) by { assert("7"@.len() != "6"@.len() || "7"@[0] != "6"@[0]); }
    }
    if n == 8 {
        assert(decimal(8) =~= seq!['8']);
        assert("8"@ != "1"@) by { assert("8"@.len() != "1"@.len() || "8"@[0] != "1"@[0]); }
        assert("8"@ != "2"@) by { assert("8"@.len() != "2"@.len() || "8"@[0] != "2"@[0]); }
        assert("8"@ != "3"@) by { assert("8"@.len() != "3"@.len() || "8"@[0] != "3"@[0]); }
        assert("8"@ != "4"@) by { assert("8"@.len() != "4"@.len() || "8"@[0] != "4"@[0]); }
        assert("8"@ != "5"@) by { assert("8"@.len() != "5"@.len() || "8"@[0] != "5"@[0]); }
        assert("8"@ != "6"@) by { assert("8"@.len() != "6"@.len() || "8"@[0] != "6"@[0]); }
        assert("8"@ != "7"@) by { assert("8"@.len() != "7"@.len() || "8"@[0] != "7"@[0]); }
    }
    if n == 9 {
        assert(decimal(9) =~= seq!['9']);
        assert("9"@ != "1"@) by { assert("9"@.len() != "1"@.len() || "9"@[0] != "1"@[0]); }
        assert("9"@ != "2"@) by { assert("9"@.len() != "2"@.len() || "9"@[0] != "2"@[0]); }
        assert("9"@ != "3"@) by { assert("9"@.len() != "3"@.len() || "9"@[0] != "3"@[0]); }
        assert("9"@ != "4"@) by { assert("9"@.len() != "4"@.len() || "9"@[0] != "4"@[0]); }
        assert("9"@ != "5"@) by { assert("9"@.len() != "5"@.len() || "9"@[0] != "5"@[0]); }
        assert("9"@ != "6"@) by { assert("9"@.len() != "6"@.len() || "9"@[0] != "6"@[0]); }
        assert("9"@ != "7"@) by { assert("9"@.len() != "7"@.len() || "9"@[0] != "7"@[0]); }
        assert("9"@ != "8"@) by { assert("9"@.len() != "8"@.len() || "9"@[0] != "8"@[0]); }
    }
    if n == 10 {
        assert(decimal(10) == decimal(1).push(digit_char(0)));
        assert(decimal(10) =~= seq!['1', '0']);
        assert("10"@ != "1"@) by { assert("10"@.len() != "1"@.len() || "10"@[0] != "1"@[0]); }
        assert("10"@ != "2"@) by { assert("10"@.len() != "2"@.len() || "10"@[0] != "2"@[0]); }
        assert("10"@ != "3"@) by { assert("10"@.len() != "3"@.len() || "10"@[0] != "3"@[0]); }
        assert("10"@ != "4"@) by { assert("10"@.len() != "4"@.len() || "10"@[0] != "4"@[0]); }
        assert("10"@ != "5"@) by { assert("10"@.len() != "5"@.len() || "10"@[0] != "5"@[0]); }
        assert("10"@ != "6"@) by { assert("10"@.len() != "6"@.len() || "10"@[0] != "6"@[0]); }
        assert("10"@ != "7"@) by { assert("10"@.len() != "7"@.len() || "10"@[0] != "7"@[0]); }
        assert("10"@ != "8"@) by { assert("10"@.len() != "8"@.len() || "10"@[0] != "8"@[0]); }
        assert("10"@ != "9"@) by { assert("10"@.len() != "9"@.len() || "10"@[0] != "9"@[0]); }
    }
    if n == 11 {
        assert(decimal(11) == decimal(1).push(digit_char(1)));
        assert(decimal(11) =~= seq!['1', '1']);
        assert("11"@ != "1"@) by { assert("11"@.len() != "1"@.len() || "11"@[0] != "1"@[0]); }
        assert("11"@ != "2"@) by { assert("11"@.len() != "2"@.len() || "11"@[0] != "2"@[0]); }
        assert("11"@ != "3"@) by { assert("11"@.len() != "3"@.len() || "11"@[0] != "3"@[0]); }
        assert("11"@ != "4"@) by { assert("11"@.len() != "4"@.len() || "11"@[0] != "4"@[0]); }
        assert("11"@ != "5"@) by { assert("11"@.len() != "5"@.len() || "11"@[0] != "5"@[0]); }
        assert("11"@ != "6"@) by { assert("11"@.len() != "6"@.len() || "11"@[0] != "6"@[0]); }
        assert("11"@ != "7"@) by { assert("11"@.len() != "7"@.len() || "11"@[0] != "7"@[0]); }
        assert("11"@ != "8"@) by { assert("11"@.len() != "8"@.len() || "11"@[0] != "8"@[0]); }
        assert("11"@ != "9"@) by { assert("11"@.len() != "9"@.len() || "11"@[0] != "9"@[0]); }
        assert("11"@ != "10"@) by { assert("11"@.len() != "10"@.len() || "11"@[1] != "10"@[1]); }
    }
    if n == 12 {
        assert(decimal(12) == decimal(1).push(digit_char(2)));
        assert(decimal(12) =~= seq!['1', '2']);
        assert("12"@ != "1"@) by { assert("12"@.len() != "1"@.len() || "12"@[0] != "1"@[0]); }
        assert("12"@ != "2"@) by { assert("12"@.len() != "2"@.len() || "12"@[0] != "2"@[0]); }
        assert("12"@ != "3"@) by { assert("12"@.len() != "3"@.len() || "12"@[0] != "3"@[0]); }
        assert("12"@ != "4"@) by { assert("12"@.len() != "4"@.len() || "12"@[0] != "4"@[0]); }
        assert("12"@ != "5"@) by { assert("12"@.len() != "5"@.len() || "12"@[0] != "5"@[0]); }
        assert("12"@ != "6"@) by { assert("12"@.len() != "6"@.len() || "12"@[0] != "6"@[0]); }
        assert("12"@ != "7"@) by { assert("12"@.len() != "7"@.len() || "12"@[0] != "7"@[0]); }
        assert("12"@ != "8"@) by { assert("12"@.len() != "8"@.len() || "12"@[0] != "8"@[0]); }
        assert("12"@ != "9"@) by { assert("12"@.len() != "9"@.len() || "12"@[0] != "9"@[0]); }
        assert("12"@ != "10"@) by { assert("12"@.len() != "10"@.len() || "12"@[1] != "10"@[1]); }
        assert("12"@ != "11"@) by { assert("12"@.len() != "11"@.len() || "12"@[1] != "11"@[1]); }
    }
    if n == 13 {
        assert(decimal(13) == decimal(1).push(digit_char(3)));
        assert(decimal(13) =~= seq!['1', '3']);
        assert("13"@ != "1"@) by { assert("13"@.len() != "1"@.len() || "13"@[0] != "1"@[0]); }
        assert("13"@ != "2"@) by { assert("13"@.len() != "2"@.len() || "13"@[0] != "2"@[0]); }
        assert("13"@ != "3"@) by { assert("13"@.len() != "3"@.len() || "13"@[0] != "3"@[0]); }
        assert("13"@ != "4"@) by { assert("13"@.len() != "4"@.len() || "13"@[0] != "4"@[0]); }
        assert("13"@ != "5"@) by { assert("13"@.len() != "5"@.len() || "13"@[0] != "5"@[0]); }
        assert("13"@ != "6"@) by { assert("13"@.len() != "6"@.len() || "13"@[0] != "6"@[0]); }
        assert("13"@ != "7"@) by { assert("13"@.len() != "7"@.len() || "13"@[0] != "7"@[0]); }
        assert("13"@ != "8"@) by { assert("13"@.len() != "8"@.len() || "13"@[0] != "8"@[0]); }
        assert("13"@ != "9"@) by { assert("13"@.len() != "9"@.len() || "13"@[0] != "9"@[0]); }
        assert("13"@ != "10"@) by { assert("13"@.len() != "10"@.len() || "13"@[1] != "10"@[1]); }
        assert("13"@ != "11"@) by { assert("13"@.len() != "11"@.len() || "13"@[1] != "11"@[1]); }
        assert("13"@ != "12"@) by { assert("13"@.len() != "12"@.len() || "13"@[1] != "12"@[1]); }
    }
    assert("q"@ != "1"@) by { assert("q"@.len() != "1"@.len() || "q"@[0] != "1"@[0]); }
    assert("q"@ != "2"@) by { assert("q"@.len() != "2"@.len() || "q"@[0] != "2"@[0]); }
    assert("q"@ != "3"@) by { assert("q"@.len() != "3"@.len() || "q"@[0] != "3"@[0]); }
    assert("q"@ != "4"@) by { assert("q"@.len() != "4"@.len() || "q"@[0] != "4"@[0]); }
    assert("q"@ != "5"@) by { assert("q"@.len() != "5"@.len() || "q"@[0] != "5"@[0]); }
    assert("q"@ != "6"@) by { assert("q"@.len() != "6"@.len() || "q"@[0] != "6"@[0]); }
    assert("q"@ != "7"@) by { assert("q"@.len() != "7"@.len() || "q"@[0] != "7"@[0]); }
    assert("q"@ != "8"@) by { assert("q"@.len() != "8"@.len() || "q"@[0] != "8"@[0]); }
    assert("q"@ != "9"@) by { assert("q"@.len() != "9"@.len() || "q"@[0] != "9"@[0]); }
    assert("q"@ != "10"@) by { assert("q"@.len() != "10"@.len() || "q"@[0] != "10"@[0]); }
    assert("q"@ != "11"@) by { assert("q"@.len() != "11"@.len() || "q"@[0] != "11"@[0]); }
    assert("q"@ != "12"@) by { assert("q"@.len() != "12"@.len() || "q"@[0] != "12"@[0]); }
    assert("q"@ != "13"@) by { assert("q"@.len() != "13"@.len() || "q"@[0] != "13"@[0]); }
    assert("quit"@ != "1"@) by { assert("quit"@.len() != "1"@.len() || "quit"@[0] != "1"@[0]); }
    assert("quit"@ != "2"@) by { assert("quit"@.len() != "2"@.len() || "quit"@[0] != "2"@[0]); }
    assert("quit"@ != "3"@) by { assert("quit"@.len() != "3"@.len() || "quit"@[0] != "3"@[0]); }
    assert("quit"@ != "4"@) by { assert("quit"@.len() != "4"@.len() || "quit"@[0] != "4"@[0]); }
    assert("quit"@ != "5"@) by { assert("quit"@.len() != "5"@.len() || "quit"@[0] != "5"@[0]); }
    assert("quit"@ != "6"@) by { assert("quit"@.len() != "6"@.len() || "quit"@[0] != "6"@[0]); }
    assert("quit"@ != "7"@) by { assert("quit"@.len() != "7"@.len() || "quit"@[0] != "7"@[0]); }
    assert("quit"@ != "8"@) by { assert("quit"@.len() != "8"@.len() || "quit"@[0] != "8"@[0]); }
    assert("quit"@ != "9"@) by { assert("quit"@.len() != "9"@.len() || "quit"@[0] != "9"@[0]); }
    assert("quit"@ != "10"@) by { assert("quit"@.len() != "10"@.len() || "quit"@[0] != "10"@[0]); }
    assert("quit"@ != "11"@) by { assert("quit"@.len() != "11"@.len() || "quit"@[0] != "11"@[0]); }
    assert("quit"@ != "12"@) by { assert("quit"@.len() != "12"@.len() || "quit"@[0] != "12"@[0]); }
    assert("quit"@ != "13"@) by { assert("quit"@.len() != "13"@.len() || "quit"@[0] != "13"@[0]); }
    assert("exit"@ != "1"@) by { assert("exit"@.len() != "1"@.len() || "exit"@[0] != "1"@[0]); }
    assert("exit"@ != "2"@) by { assert("exit"@.len() != "2"@.len() || "exit"@[0] != "2"@[0]); }
    assert("exit"@ != "3"@) by { assert("exit"@.len() != "3"@.len() || "exit"@[0] != "3"@[0]); }
    assert("exit"@ != "4"@) by { assert("exit"@.len() != "4"@.len() || "exit"@[0] != "4"@[0]); }
    assert("exit"@ != "5"@) by { assert("exit"@.len() != "5"@.len() || "exit"@[0] != "5"@[0]); }
    assert("exit"@ != "6"@) by { assert("exit"@.len() != "6"@.len() || "exit"@[0] != "6"@[0]); }
    assert("exit"@ != "7"@) by { assert("exit"@.len() != "7"@.len() || "exit"@[0] != "7"@[0]); }
    assert("exit"@ != "8"@) by { assert("exit"@.len() != "8"@.len() || "exit"@[0] != "8"@[0]); }
    assert("exit"@ != "9"@) by { assert("exit"@.len() != "9"@.len() || "exit"@[0] != "9"@[0]); }
    assert("exit"@ != "10"@) by { assert("exit"@.len() != "10"@.len() || "exit"@[0] != "10"@[0]); }
    assert("exit"@ != "11"@) by { assert("exit"@.len() != "11"@.len() || "exit"@[0] != "11"@[0]); }
    assert("exit"@ != "12"@) by { assert("exit"@.len() != "12"@.len() || "exit"@[0] != "12"@[0]); }
    assert("exit"@ != "13"@) by { assert("exit"@.len() != "13"@.len() || "exit"@[0] != "13"@[0]); }
}

/// An entry of the age key helper menu.
#[derive(Debug, Clone, Copy, PartialEq, Eq, Structural)]
pub enum KeyHelperChoice {
    /// `[1]` Make a post-quantum age key.
    MakePostQuantumKey,
    /// `[2]` Make a normal age key.
    MakeNormalKey,
    /// `[3]` Show the public key from a key file.
    ShowPublicKey,
    /// `[4]` Explain age keys.
    Explain,
    /// `[5]` Where private key files should live.
    StorageAdvice,
    /// `[6]`, `q` or `back`: return to the main menu.
    Back,
    /// Anything else.
    Unknown,
}

/// The key helper entry selected by the answer `t` (already trimmed).
pub open spec fn key_helper_choice_of(t: Seq<char>) -> KeyHelperChoice {
    if t == "1"@ { KeyHelperChoice::MakePostQuantumKey }
    else if t == "2"@ { KeyHelperChoice::MakeNormalKey }
    else if t == "3"@ { KeyHelperChoice::ShowPublicKey }
    else if t == "4"@ { KeyHelperChoice::Explain }
    else if t == "5"@ { KeyHelperChoice::StorageAdvice }
    else if t == "6"@ || t == "q"@ || t == "back"@ { KeyHelperChoice::Back }
    else { KeyHelperChoice::Unknown }
}

/// The entries of the age key helper menu in the order it prints them: `[1]`
/// Make a post-quantum age key, `[2]` Make a normal age key, `[3]` Show the
/// public key from a key file, `[4]` Explain age keys, `[5]` Where private key
/// files should live, `[6]` Return to the main menu.
pub open spec fn printed_key_helper_menu() -> Seq<KeyHelperChoice> {
    seq![
        KeyHelperChoice::MakePostQuantumKey,
        KeyHelperChoice::MakeNormalKey,
        KeyHelperChoice::ShowPublicKey,
        KeyHelperChoice::Explain,
        KeyHelperChoice::StorageAdvice,
        KeyHelperChoice::Back,
    ]
}

/// Typing a number of the key helper menu selects the entry printed next to
/// it: the digit of `n`, for `n` from 1 to 6, selects entry `n` of the printed
/// menu; `q` and `back` go back as `6` does.
pub proof fn law_key_helper_numbers_select_printed_entries(n: nat)
    requires
        1 <= n <= 6,
    ensures
        key_helper_choice_of(decimal(n)) == printed_key_helper_menu()[n - 1],
        key_helper_choice_of("q"@) == KeyHelperChoice::Back,
        key_helper_choice_of("back"@) == KeyHelperChoice::Back,
{
    reveal_strlit("1");
    reveal_strlit("2");
    reveal_strlit("3");
    reveal_strlit("4");
    reveal_strlit("5");
    reveal_strlit("6");
    reveal_strlit("q");
    reveal_strlit("back");
    assert("1"@ =~= seq!['1']);
    assert("2"@ =~= seq!['2']);
    assert("3"@ =~= seq!['3']);
    assert("4"@ =~= seq!['4']);
    assert("5"@ =~= seq!['5']);
    assert("6"@ =~= seq!['6']);
    assert("q"@ =~= seq!['q']);
    assert("back"@ =~= seq!['b', 'a', 'c', 'k']);
    if n == 1 {
        assert(decimal(1) =~= seq!['1']);
    }
    if n == 2 {
        assert(decimal(2) =~= seq!['2']);
        assert("2"@ != "1"@) by { assert("2"@[0] != "1"@[0]); }
    }
    if n == 3 {
        assert(decimal(3) =~= seq!['3']);
        assert("3"@ != "1"@) by { assert("3"@[0] != "1"@[0]); }
        assert("3"@ != "2"@) by { assert("3"@[0] != "2"@[0]); }
    }
    if n == 4 {
        assert(decimal(4) =~= seq!['4']);
        assert("4"@ != "1"@) by { assert("4"@[0] != "1"@[0]); }
        assert("4"@ != "2"@) by { assert("4"@[0] != "2"@[0]); }
        assert("4"@ != "3"@) by { assert("4"@[0] != "3"@[0]); }
    }
    if n == 5 {
        assert(decimal(5) =~= seq!['5']);
        assert("5"@ != "1"@) by { assert("5"@[0] != "1"@[0]); }
        assert("5"@ != "2"@) by { assert("5"@[0] != "2"@[0]); }
        assert("5"@ != "3"@) by { assert("5"@[0] != "3"@[0]); }
        assert("5"@ != "4"@) by { assert("5"@[0] != "4"@[0]); }
    }
    if n == 6 {
        assert(decimal(6) =~= seq!['6']);
        assert("6"@ != "1"@) by { assert("6"@[0] != "1"@[0]); }
        assert("6"@ != "2"@) by { assert("6"@[0] != "2"@[0]); }
        assert("6"@ != "3"@) by { assert("6"@[0] != "3"@[0]); }
        assert("6"@ != "4"@) by { assert("6"@[0] != "4"@[0]); }
        assert("6"@ != "5"@) by { assert("6"@[0] != "5"@[0]); }
    }
    assert("q"@ != "1"@) by { assert("q"@.len() != "1"@.len() || "q"@[0] != "1"@[0]); }
    assert("q"@ != "2"@) by { assert("q"@.len() != "2"@.len() || "q"@[0] != "2"@[0]); }
    assert("q"@ != "3"@) by { assert("q"@.len() != "3"@.len() || "q"@[0] != "3"@[0]); }
    assert("q"@ != "4"@) by { assert("q"@.len() != "4"@.len() || "q"@[0] != "4"@[0]); }
    assert("q"@ != "5"@) by { assert("q"@.len() != "5"@.len() || "q"@[0] != "5"@[0]); }
    assert("q"@ != "6"@) by { assert("q"@.len() != "6"@.len() || "q"@[0] != "6"@[0]); }
    assert("back"@ != "1"@) by { assert("back"@.len() != "1"@.len() || "back"@[0] != "1"@[0]); }
    assert("back"@ != "2"@) by { assert("back"@.len() != "2"@.len() || "back"@[0] != "2"@[0]); }
    assert("back"@ != "3"@) by { assert("back"@.len() != "3"@.len() || "back"@[0] != "3"@[0]); }
    assert("back"@ != "4"@) by { assert("back"@.len() != "4"@.len() || "back"@[0] != "4"@[0]); }
    assert("back"@ != "5"@) by { assert("back"@.len() != "5"@.len() || "back"@[0] != "5"@[0]); }
    assert("back"@ != "6"@) by { assert("back"@.len() != "6"@.len() || "back"@[0] != "6"@[0]); }
}

/// The key helper entry selected by the typed answer `input`.
pub fn key_helper_choice(input: &str) -> (c: KeyHelperChoice)
    ensures
        c == key_helper_choice_of(trim(input@)),
{
    let cs = chars_of(input);
    let t = trim_chars(&cs);
    if chars_eq_str(&t, "1") { KeyHelperChoice::MakePostQuantumKey }
    else if chars_eq_str(&t, "2") { KeyHelperChoice::MakeNormalKey }
    else if chars_eq_str(&t, "3") { KeyHelperChoice::ShowPublicKey }
    else if chars_eq_str(&t, "4") { KeyHelperChoice::Explain }
    else if chars_eq_str(&t, "5") { KeyHelperChoice::StorageAdvice }
    else if chars_eq_str(&t, "6") || chars_eq_str(&t, "q") || chars_eq_str(&t, "back") {
        KeyHelperChoice::Back
    } else { KeyHelperChoice::Unknown }
}

/// What an answer at a save-folder menu asks for.
#[derive(Debug, Clone, PartialEq, Eq)]
pub enum FolderChoice {
    /// `[1]`: ask for a folder path.
    Choose,
    /// `[2]`: clear the choice and go back to the default folder.
    Reset,
    /// `[3]`, `q`, `quit` or `back`: change nothing.
    Back,
    /// A blank answer: change nothing.
    NoChange,
    /// Any other answer: a folder path, cleaned and with `~` expanded.
    Folder(String),
}

/// What the answer `input` at a save-folder menu asks for, given the home folder
/// `home` (the value of `HOME`; `None` when unset), as a spec.
pub open spec fn folder_choice_of(input: Seq<char>, home: Option<Seq<char>>) -> Option<Seq<char>> {
    if trim(input) == "1"@ || trim(input) == "2"@ || trim(input) == "3"@ || trim(input) == "q"@
        || trim(input) == "quit"@ || trim(input) == "back"@ || trim(input).len() == 0 {
        None
    } else {
        Some(expand_home(clean_terminal(trim(input)), home, false))
    }
}

/// What the answer `input` at a save-folder menu asks for, given the home folder
/// `home` (the value of `HOME`; `None` when unset).
pub fn folder_menu_choice(input: &str, home: Option<&str>) -> (c: FolderChoice)
    requires
        !is_lone_quote(input@),
    ensures
        trim(input@) == "1"@ ==> c == FolderChoice::Choose,
        trim(input@) == "2"@ ==> c == FolderChoice::Reset,
        trim(input@) == "3"@ || trim(input@) == "q"@ || trim(input@) == "quit"@ || trim(input@)
            == "back"@ ==> c == FolderChoice::Back,
        trim(input@).len() == 0 ==> c == FolderChoice::NoChange,
        match folder_choice_of(input@, opt_str_view(home)) {
            Some(p) => c matches FolderChoice::Folder(f) && f@ == p,
            None => !(c is Folder),
        },
{
    let cs = chars_of(input);
    let t = trim_chars(&cs);
    proof {
        reveal_strlit("1");
        reveal_strlit("2");
        reveal_strlit("3");
        reveal_strlit("q");
        reveal_strlit("quit");
        reveal_strlit("back");
        assert("1"@ =~= seq!['1']);
        assert("2"@ =~= seq!['2']);
        assert("3"@ =~= seq!['3']);
        assert("q"@ =~= seq!['q']);
        assert("quit"@ =~= seq!['q', 'u', 'i', 't']);
        assert("back"@ =~= seq!['b', 'a', 'c', 'k']);
        assert("1"@[0] != "2"@[0]);
        assert("1"@[0] != "3"@[0] && "2"@[0] != "3"@[0]);
        assert("1"@[0] != "q"@[0] && "2"@[0] != "q"@[0]);
        assert("1"@.len() != "quit"@.len() && "2"@.len() != "quit"@.len());
        assert("1"@.len() != "back"@.len() && "2"@.len() != "back"@.len());
    }
    if chars_eq_str(&t, "1") {
        FolderChoice::Choose
    } else if chars_eq_str(&t, "2") {
        FolderChoice::Reset
    } else if chars_eq_str(&t, "3") || chars_eq_str(&t, "q") || chars_eq_str(&t, "quit")
        || chars_eq_str(&t, "back") {
        FolderChoice::Back
    } else if t.len() == 0 {
        FolderChoice::NoChange
    } else {
        let trimmed = crate::text::string_of(&t);
        proof {
            crate::text::lemma_trim_idempotent(input@);
        }
        FolderChoice::Folder(clean_menu_path(trimmed.as_str(), home))
    }
}

/// `str::to_lowercase`: the lowercase mapping of every character, by the Unicode
/// `Lowercase_Mapping` tables of the standard library.
pub uninterp spec fn lowercase(s: Seq<char>) -> Seq<char>;

/// `str::to_lowercase`; its result is named `lowercase` of its argument.
#[verifier::external_body]
fn to_lowercase(s: &str) -> (r: String)
    ensures
        r@ == lowercase(s@),
{
    s.to_lowercase()
}

/// The yes/no answer given by an answer already put in lowercase: `y`/`yes` are
/// yes, `n`/`no` are no, anything else is no answer.
pub open spec fn yes_no_of(lowered: Seq<char>) -> Option<bool> {
    if lowered == "y"@ || lowered == "yes"@ {
        Some(true)
    } else if lowered == "n"@ || lowered == "no"@ {
        Some(false)
    } else {
        None
    }
}

/// The yes/no answer given by `lowered`, an answer already put in lowercase.
pub fn yes_no(lowered: &str) -> (r: Option<bool>)
    ensures
        r == yes_no_of(lowered@),
{
    let cs = chars_of(lowered);
    if chars_eq_str(&cs, "y") || chars_eq_str(&cs, "yes") {
        Some(true)
    } else if chars_eq_str(&cs, "n") || chars_eq_str(&cs, "no") {
        Some(false)
    } else {
        None
    }
}

/// The yes/no answer given at a `[y/n]` question; `None` means ask again.
pub fn confirm_answer(answer: &str) -> (r: Option<bool>)
    ensures
        r == yes_no_of(lowercase(answer@)),
{
    let lowered = to_lowercase(answer);
    yes_no(lowered.as_str())
}

/// Whether a value typed where one is required is blank (only white space).
pub fn is_blank(value: &str) -> (r: bool)
    ensures
        r == (trim(value@).len() == 0),
{
    let cs = chars_of(value);
    let t = trim_chars(&cs);
    t.len() == 0
}

} // verus!
