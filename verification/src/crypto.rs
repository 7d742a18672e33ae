//! Encryption with `age`: the modes MorSteg offers and the `age` commands that
//! encrypt and decrypt the payload.
use vstd::prelude::*;
use crate::commands::{push_arg, strings_view, ToolCommand};
use crate::text::{chars_of, has_prefix, starts_with_chars};

verus! {

/// How the secret is encrypted before it is hidden.
pub enum EncryptionMode {
    /// `age` asks for a passphrase itself.
    AgePassphrase,
    /// Encrypted to the holder of an age public key.
    AgeRecipient { recipient: String },
}

/// How the recovered payload is decrypted.
pub enum DecryptionMode {
    /// `age` asks for the passphrase itself.
    AgePassphrase,
    /// Decrypted with a private age key file.
    AgeIdentityFile { identity_file: String },
}

/// The arguments of `age` that encrypt `secret_file` into `encrypted_payload`.
pub open spec fn encrypt_args(mode: EncryptionMode, secret_file: Seq<char>, encrypted_payload: Seq<char>)
    -> Seq<Seq<char>> {
    match mode {
        EncryptionMode::AgePassphrase => seq!["-p"@, "-o"@, encrypted_payload, secret_file],
        EncryptionMode::AgeRecipient { recipient } => seq![
            "-r"@,
            recipient@,
            "-o"@,
            encrypted_payload,
            secret_file,
        ],
    }
}

/// The arguments of `age` that decrypt `encrypted_payload` into `final_output`.
pub open spec fn decrypt_args(mode: DecryptionMode, encrypted_payload: Seq<char>, final_output: Seq<char>)
    -> Seq<Seq<char>> {
    match mode {
        DecryptionMode::AgePassphrase => seq!["-d"@, "-o"@, final_output, encrypted_payload],
        DecryptionMode::AgeIdentityFile { identity_file } => seq![
            "-d"@,
            "-i"@,
            identity_file@,
            "-o"@,
            final_output,
            encrypted_payload,
        ],
    }
}

/// The `age` command that encrypts `secret_file` into `encrypted_payload`.
pub fn encrypt_command(mode: &EncryptionMode, secret_file: &str, encrypted_payload: &str) -> (c:
    ToolCommand)
    ensures
        c.program@ == "age"@,
        strings_view(c.args@) == encrypt_args(*mode, secret_file@, encrypted_payload@),
{
    let mut args: Vec<String> = Vec::new();
    match mode {
        EncryptionMode::AgePassphrase => {
            push_arg(&mut args, "-p");
        },
        EncryptionMode::AgeRecipient { recipient } => {
            push_arg(&mut args, "-r");
            push_arg(&mut args, recipient.as_str());
        },
    }
    push_arg(&mut args, "-o");
    push_arg(&mut args, encrypted_payload);
    push_arg(&mut args, secret_file);
    assert(strings_view(args@) =~= encrypt_args(*mode, secret_file@, encrypted_payload@));
    ToolCommand { program: String::from_str("age"), args }
}

/// The `age` command that decrypts `encrypted_payload` into `final_output`.
pub fn decrypt_command(mode: &DecryptionMode, encrypted_payload: &str, final_output: &str) -> (c:
    ToolCommand)
    ensures
        c.program@ == "age"@,
        strings_view(c.args@) == decrypt_args(*mode, encrypted_payload@, final_output@),
{
    let mut args: Vec<String> = Vec::new();
    push_arg(&mut args, "-d");
    match mode {
        DecryptionMode::AgePassphrase => {},
        DecryptionMode::AgeIdentityFile { identity_file } => {
            push_arg(&mut args, "-i");
            push_arg(&mut args, identity_file.as_str());
        },
    }
    push_arg(&mut args, "-o");
    push_arg(&mut args, final_output);
    push_arg(&mut args, encrypted_payload);
    assert(strings_view(args@) =~= decrypt_args(*mode, encrypted_payload@, final_output@));
    ToolCommand { program: String::from_str("age"), args }
}

/// Whether `recipient` looks like an age post-quantum recipient (`age1pq1...`).
pub fn looks_post_quantum(recipient: &str) -> (r: bool)
    ensures
        r == has_prefix(recipient@, "age1pq1"@),
{
    let rc = chars_of(recipient);
    let p = chars_of("age1pq1");
    starts_with_chars(&rc, &p)
}

/// The lines that describe an encryption mode to the person hiding a file.
pub open spec fn mode_note(mode: EncryptionMode) -> Seq<Seq<char>> {
    match mode {
        EncryptionMode::AgePassphrase => seq![
            "Mode: age passphrase encryption."@,
            "Mor-SteG is not reading or storing this password."@,
        ],
        EncryptionMode::AgeRecipient { recipient } => if has_prefix(recipient@, "age1pq1"@) {
            seq![
                "Mode: age recipient encryption."@,
                "Recipient looks like an age post-quantum recipient."@,
                "Mor-SteG still labels this as PQ-capable, not magically quantum-proof."@,
            ]
        } else {
            seq![
                "Mode: age recipient encryption."@,
                "Recipient does not look like an age post-quantum recipient."@,
                "This may still be a normal age recipient, but Mor-SteG will not call it PQ."@,
            ]
        },
    }
}

/// The lines that describe `mode` to the person hiding a file.
pub fn mode_note_lines(mode: &EncryptionMode) -> (lines: Vec<String>)
    ensures
        strings_view(lines@) == mode_note(*mode),
{
    let mut lines: Vec<String> = Vec::new();
    match mode {
        EncryptionMode::AgePassphrase => {
            push_arg(&mut lines, "Mode: age passphrase encryption.");
            push_arg(&mut lines, "Mor-SteG is not reading or storing this password.");
        },
        EncryptionMode::AgeRecipient { recipient } => {
            push_arg(&mut lines, "Mode: age recipient encryption.");
            if looks_post_quantum(recipient.as_str()) {
                push_arg(&mut lines, "Recipient looks like an age post-quantum recipient.");
                push_arg(
                    &mut lines,
                    "Mor-SteG still labels this as PQ-capable, not magically quantum-proof.",
                );
            } else {
                push_arg(&mut lines, "Recipient does not look like an age post-quantum recipient.");
                push_arg(
                    &mut lines,
                    "This may still be a normal age recipient, but Mor-SteG will not call it PQ.",
                );
            }
        },
    }
    assert(strings_view(lines@) =~= mode_note(*mode));
    lines
}

} // verus!
