//! Hiding with `steghide`: the commands that embed, extract and inspect.
use vstd::prelude::*;
use crate::commands::{push_arg, strings_view, ToolCommand};

verus! {

/// The `steghide` command that hides `encrypted_payload` in `cover_file`, writing
/// the disguised file to `stego_output`.
pub fn embed_command(cover_file: &str, encrypted_payload: &str, stego_output: &str) -> (c:
    ToolCommand)
    ensures
        c.program@ == "steghide"@,
        strings_view(c.args@) == seq![
            "embed"@,
            "-cf"@,
            cover_file@,
            "-ef"@,
            encrypted_payload@,
            "-sf"@,
            stego_output@,
        ],
{
    let mut args: Vec<String> = Vec::new();
    push_arg(&mut args, "embed");
    push_arg(&mut args, "-cf");
    push_arg(&mut args, cover_file);
    push_arg(&mut args, "-ef");
    push_arg(&mut args, encrypted_payload);
    push_arg(&mut args, "-sf");
    push_arg(&mut args, stego_output);
    assert(strings_view(args@) =~= seq![
        "embed"@,
        "-cf"@,
        cover_file@,
        "-ef"@,
        encrypted_payload@,
        "-sf"@,
        stego_output@,
    ]);
    ToolCommand { program: String::from_str("steghide"), args }
}

/// The `steghide` command that pulls the hidden payload out of `stego_file` into
/// `encrypted_payload_output`.
pub fn extract_command(stego_file: &str, encrypted_payload_output: &str) -> (c: ToolCommand)
    ensures
        c.program@ == "steghide"@,
        strings_view(c.args@) == seq![
            "extract"@,
            "-sf"@,
            stego_file@,
            "-xf"@,
            encrypted_payload_output@,
        ],
{
    let mut args: Vec<String> = Vec::new();
    push_arg(&mut args, "extract");
    push_arg(&mut args, "-sf");
    push_arg(&mut args, stego_file);
    push_arg(&mut args, "-xf");
    push_arg(&mut args, encrypted_payload_output);
    assert(strings_view(args@) =~= seq![
        "extract"@,
        "-sf"@,
        stego_file@,
        "-xf"@,
        encrypted_payload_output@,
    ]);
    ToolCommand { program: String::from_str("steghide"), args }
}

/// The `steghide` command that reports what it can tell about `file`.
pub fn inspect_command(file: &str) -> (c: ToolCommand)
    ensures
        c.program@ == "steghide"@,
        strings_view(c.args@) == seq!["info"@, file@],
{
    let mut args: Vec<String> = Vec::new();
    push_arg(&mut args, "info");
    push_arg(&mut args, file);
    assert(strings_view(args@) =~= seq!["info"@, file@]);
    ToolCommand { program: String::from_str("steghide"), args }
}

} // verus!
