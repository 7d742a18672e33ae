use mor_steg::crypto::{
    decrypt_command, encrypt_command, looks_post_quantum, mode_note_lines, DecryptionMode,
    EncryptionMode,
};
use mor_steg::steg::{embed_command, extract_command, inspect_command};
use mor_steg::deps::{
    age_exists, age_keygen_exists, command_exists, core_dependencies_exist, steghide_exists,
    version_probe, ProbeOutcome, Tool,
};
use mor_steg::keys::{
    default_public_key_path_for_private_key, key_file_names, keygen_command,
    public_key_file_text, public_key_from_identity_text, KeyKind,
};
use mor_steg::menu::{
    confirm_answer, folder_menu_choice, is_blank, key_helper_choice, main_menu_choice, yes_no,
    FolderChoice, KeyHelperChoice, MainMenuChoice,
};

#[test]
fn age_passphrase_encryption_passes_no_password() {
    let c = encrypt_command(&EncryptionMode::AgePassphrase, "secret.txt", "/tmp/w/payload.age");
    assert_eq!(c.program, "age");
    assert_eq!(c.args, vec!["-p", "-o", "/tmp/w/payload.age", "secret.txt"]);
}

#[test]
fn age_recipient_encryption() {
    let mode = EncryptionMode::AgeRecipient { recipient: "age1abc".to_string() };
    let c = encrypt_command(&mode, "s", "p");
    assert_eq!(c.args, vec!["-r", "age1abc", "-o", "p", "s"]);
}

#[test]
fn age_decryption_commands() {
    let c = decrypt_command(&DecryptionMode::AgePassphrase, "p.age", "out.txt");
    assert_eq!(c.program, "age");
    assert_eq!(c.args, vec!["-d", "-o", "out.txt", "p.age"]);
    let mode = DecryptionMode::AgeIdentityFile { identity_file: "key.txt".to_string() };
    let c = decrypt_command(&mode, "p.age", "out.txt");
    assert_eq!(c.args, vec!["-d", "-i", "key.txt", "-o", "out.txt", "p.age"]);
}

#[test]
fn steghide_commands() {
    let c = embed_command("cover.jpg", "p.age", "out.jpg");
    assert_eq!(c.program, "steghide");
    assert_eq!(c.args, vec!["embed", "-cf", "cover.jpg", "-ef", "p.age", "-sf", "out.jpg"]);
    let c = extract_command("out.jpg", "p.age");
    assert_eq!(c.args, vec!["extract", "-sf", "out.jpg", "-xf", "p.age"]);
    let c = inspect_command("x.jpg");
    assert_eq!(c.args, vec!["info", "x.jpg"]);
}

#[test]
fn file_names_with_spaces_stay_one_argument() {
    let c = embed_command("my cover.jpg", "p; rm -rf ~", "o.jpg");
    assert_eq!(c.args[2], "my cover.jpg");
    assert_eq!(c.args[4], "p; rm -rf ~");
}

#[test]
fn post_quantum_recipients() {
    assert!(looks_post_quantum("age1pq1xyz"));
    assert!(!looks_post_quantum("age1xyz"));
    assert!(!looks_post_quantum("age1pq"));
    let lines = mode_note_lines(&EncryptionMode::AgeRecipient { recipient: "age1pq1q".to_string() });
    assert_eq!(lines[1], "Recipient looks like an age post-quantum recipient.");
    let lines = mode_note_lines(&EncryptionMode::AgePassphrase);
    assert_eq!(lines, vec![
        "Mode: age passphrase encryption.",
        "Mor-SteG is not reading or storing this password.",
    ]);
}

#[test]
fn tool_probes() {
    let c = version_probe(Tool::AgeKeygen);
    assert_eq!(c.program, "age-keygen");
    assert_eq!(c.args, vec!["--version"]);
    assert!(command_exists(ProbeOutcome::Exited { success: true }));
    assert!(!command_exists(ProbeOutcome::Exited { success: false }));
    assert!(!steghide_exists(ProbeOutcome::NotStarted));
    assert!(age_exists(ProbeOutcome::Exited { success: true }));
    assert!(!age_keygen_exists(ProbeOutcome::NotStarted));
    let ok = ProbeOutcome::Exited { success: true };
    assert!(core_dependencies_exist(ok, Some(ok)));
    assert!(!core_dependencies_exist(ok, Some(ProbeOutcome::NotStarted)));
    assert!(!core_dependencies_exist(ProbeOutcome::NotStarted, None));
    assert!(!core_dependencies_exist(ok, None));
}

#[test]
fn key_files_and_keygen() {
    let (private, public) = key_file_names(KeyKind::PostQuantum);
    assert_eq!(private, "morsteg-pq-key.txt");
    assert_eq!(public, "morsteg-pq-public-key.txt");
    let (private, _) = key_file_names(KeyKind::Normal);
    assert_eq!(private, "morsteg-age-key.txt");
    let c = keygen_command(KeyKind::PostQuantum, "/k/key.txt");
    assert_eq!(c.program, "age-keygen");
    assert_eq!(c.args, vec!["-pq", "-o", "/k/key.txt"]);
    let c = keygen_command(KeyKind::Normal, "/k/key.txt");
    assert_eq!(c.args, vec!["-o", "/k/key.txt"]);
}

#[test]
fn public_key_is_read_from_identity_file() {
    let text = "# created: 2024-01-01T00:00:00Z\n# public key: age1qqqq\nAGE-SECRET-KEY-1XYZ\n";
    assert_eq!(public_key_from_identity_text(text), Some("age1qqqq".to_string()));
    let crlf = "# created: x\r\n  # public key:   age1pq1zz  \r\nAGE-SECRET\r\n";
    assert_eq!(public_key_from_identity_text(crlf), Some("age1pq1zz".to_string()));
    assert_eq!(public_key_from_identity_text("# public key:\n# public key: b\n"), Some("b".to_string()));
    assert_eq!(public_key_from_identity_text("# public key: last"), Some("last".to_string()));
    assert_eq!(public_key_from_identity_text("AGE-SECRET-KEY-1XYZ\n"), None);
    assert_eq!(public_key_from_identity_text(""), None);
}

#[test]
fn public_key_file_contents() {
    assert_eq!(
        public_key_file_text("age1abc"),
        "# MorSteg public age key\n# Safe to share. This cannot decrypt files.\n# Give this to someone who wants to hide a file for you.\nage1abc\n"
    );
}

#[test]
fn public_key_path_beside_private_key() {
    assert_eq!(
        default_public_key_path_for_private_key("/k/morsteg-pq-key.txt"),
        "/k/morsteg-pq-key-public-key.txt"
    );
    assert_eq!(default_public_key_path_for_private_key("key"), "key-public-key.txt");
    assert_eq!(default_public_key_path_for_private_key("/"), "./morsteg-age-public-key.txt");
}

#[test]
fn main_menu() {
    assert_eq!(main_menu_choice(" 1 "), MainMenuChoice::HideWithPassword);
    assert_eq!(main_menu_choice("10"), MainMenuChoice::CloudSafeFolder);
    assert_eq!(main_menu_choice("exit"), MainMenuChoice::Quit);
    assert_eq!(main_menu_choice("q"), MainMenuChoice::Quit);
    assert_eq!(main_menu_choice("14"), MainMenuChoice::Unknown);
    assert_eq!(main_menu_choice("Quit"), MainMenuChoice::Unknown);
}

#[test]
fn key_helper_menu() {
    assert_eq!(key_helper_choice("1"), KeyHelperChoice::MakePostQuantumKey);
    assert_eq!(key_helper_choice("back"), KeyHelperChoice::Back);
    assert_eq!(key_helper_choice("quit"), KeyHelperChoice::Unknown);
}

#[test]
fn folder_menu() {
    assert_eq!(folder_menu_choice("1", None), FolderChoice::Choose);
    assert_eq!(folder_menu_choice("2", None), FolderChoice::Reset);
    assert_eq!(folder_menu_choice("quit", None), FolderChoice::Back);
    assert_eq!(folder_menu_choice("   ", None), FolderChoice::NoChange);
    assert_eq!(
        folder_menu_choice("'~/my\\ dir'", Some("/home/u")),
        FolderChoice::Folder("/home/u/my dir".to_string())
    );
}

#[test]
fn yes_no_answers() {
    assert_eq!(confirm_answer("Y"), Some(true));
    assert_eq!(confirm_answer("YES"), Some(true));
    assert_eq!(confirm_answer("n"), Some(false));
    assert_eq!(confirm_answer("No"), Some(false));
    assert_eq!(confirm_answer("maybe"), None);
    assert_eq!(yes_no("yes"), Some(true));
    assert_eq!(yes_no("YES"), None);
    assert!(is_blank("  \t"));
    assert!(!is_blank(" a "));
}
