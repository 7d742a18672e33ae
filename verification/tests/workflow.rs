use mor_steg::commands::ToolCommand;
use mor_steg::crypto::{DecryptionMode, EncryptionMode};
use mor_steg::keys::KeyKind;
use mor_steg::workflow::{
    hide_commands, hide_step, key_step, open_commands, open_step, HideAction, HideEvent,
    HideState, KeyAction, KeyEvent, KeyState, OpenAction, OpenEvent, OpenState,
};

fn s(v: &str) -> String {
    v.to_string()
}

fn args(c: &ToolCommand) -> Vec<&str> {
    c.args.iter().map(|a| a.as_str()).collect()
}

#[test]
fn hiding_encrypts_then_hides_the_encrypted_payload() {
    let (age, steghide) =
        hide_commands(&EncryptionMode::AgePassphrase, "cover.jpg", "secret.txt", "out.jpg", "/tmp/w/p.age");
    assert_eq!(age.program, "age");
    assert_eq!(args(&age), vec!["-p", "-o", "/tmp/w/p.age", "secret.txt"]);
    assert_eq!(steghide.program, "steghide");
    assert_eq!(
        args(&steghide),
        vec!["embed", "-cf", "cover.jpg", "-ef", "/tmp/w/p.age", "-sf", "out.jpg"]
    );
}

#[test]
fn opening_extracts_then_decrypts() {
    let mode = DecryptionMode::AgeIdentityFile { identity_file: s("key.txt") };
    let (steghide, age) = open_commands(&mode, "in.jpg", "notes.txt", "/tmp/w/p.age");
    assert_eq!(steghide.program, "steghide");
    assert_eq!(args(&steghide), vec!["extract", "-sf", "in.jpg", "-xf", "/tmp/w/p.age"]);
    assert_eq!(age.program, "age");
    assert_eq!(args(&age), vec!["-d", "-i", "key.txt", "-o", "notes.txt", "/tmp/w/p.age"]);
}

#[test]
fn a_whole_hiding_runs_age_then_steghide() {
    let mode = EncryptionMode::AgeRecipient { recipient: s("age1abc") };
    let (st, a) = hide_step(&mode, HideState::CheckingTools, HideEvent::ToolsChecked { present: true });
    assert!(matches!(a, HideAction::AskForFiles));
    let (st, a) = hide_step(
        &mode,
        st,
        HideEvent::FilesChosen {
            cover: s("c.jpg"),
            secret: s("s.txt"),
            output: s("o.jpg"),
            cover_is_file: true,
            secret_is_file: true,
        },
    );
    assert!(matches!(a, HideAction::AskToContinue));
    let (st, a) = hide_step(&mode, st, HideEvent::Answered { yes: true });
    assert!(matches!(a, HideAction::MakeWorkspace));
    let (st, a) = hide_step(&mode, st, HideEvent::WorkspaceMade { temp_payload: s("/t/p.age") });
    match a {
        HideAction::Run { command } => {
            assert_eq!(command.program, "age");
            assert_eq!(args(&command), vec!["-r", "age1abc", "-o", "/t/p.age", "s.txt"]);
        }
        _ => panic!("age should run"),
    }
    let (st, a) = hide_step(&mode, st, HideEvent::ToolExited { success: true });
    match a {
        HideAction::Run { command } => {
            assert_eq!(command.program, "steghide");
            assert_eq!(args(&command), vec!["embed", "-cf", "c.jpg", "-ef", "/t/p.age", "-sf", "o.jpg"]);
        }
        _ => panic!("steghide should run"),
    }
    let (st, a) = hide_step(&mode, st, HideEvent::ToolExited { success: false });
    assert!(matches!(a, HideAction::ReportHidingResult { success: false }));
    assert!(matches!(st, HideState::Done));
}

#[test]
fn failed_encryption_never_runs_steghide() {
    let mode = EncryptionMode::AgePassphrase;
    let st = HideState::MakingWorkspace { cover: s("c"), secret: s("s"), output: s("o") };
    let (st, _) = hide_step(&mode, st, HideEvent::WorkspaceMade { temp_payload: s("t") });
    let (st, a) = hide_step(&mode, st, HideEvent::ToolExited { success: false });
    assert!(matches!(a, HideAction::ReportEncryptionFailure));
    assert!(matches!(st, HideState::Done));
}

#[test]
fn hiding_stops_on_missing_tools_no_or_workspace_failure() {
    let mode = EncryptionMode::AgePassphrase;
    let (st, a) = hide_step(&mode, HideState::CheckingTools, HideEvent::ToolsChecked { present: false });
    assert!(matches!(a, HideAction::ReportMissingTools) && matches!(st, HideState::Done));
    let st = HideState::Confirming { cover: s("c"), secret: s("s"), output: s("o") };
    let (st, a) = hide_step(&mode, st, HideEvent::Answered { yes: false });
    assert!(matches!(a, HideAction::ReportCancelled) && matches!(st, HideState::Done));
    let st = HideState::MakingWorkspace { cover: s("c"), secret: s("s"), output: s("o") };
    let (st, a) = hide_step(&mode, st, HideEvent::WorkspaceFailed);
    assert!(matches!(a, HideAction::ReportWorkspaceFailure) && matches!(st, HideState::Done));
    let (st, a) = hide_step(&mode, HideState::ChoosingFiles, HideEvent::Answered { yes: true });
    assert!(matches!(a, HideAction::Ignore) && matches!(st, HideState::ChoosingFiles));
}

#[test]
fn opening_decrypts_only_after_extraction() {
    let mode = DecryptionMode::AgePassphrase;
    let st = OpenState::MakingWorkspace { stego: s("in.jpg"), output: s("out.txt") };
    let (st, a) = open_step(&mode, st, OpenEvent::WorkspaceMade { temp_payload: s("/t/p") });
    match a {
        OpenAction::Run { command } => assert_eq!(command.program, "steghide"),
        _ => panic!("steghide should run"),
    }
    let (st2, a) = open_step(&mode, st, OpenEvent::ToolExited { success: false });
    assert!(matches!(a, OpenAction::ReportExtractionFailure) && matches!(st2, OpenState::Done));

    let st = OpenState::MakingWorkspace { stego: s("in.jpg"), output: s("out.txt") };
    let (st, _) = open_step(&mode, st, OpenEvent::WorkspaceMade { temp_payload: s("/t/p") });
    let (st, a) = open_step(&mode, st, OpenEvent::ToolExited { success: true });
    match a {
        OpenAction::Run { command } => {
            assert_eq!(command.program, "age");
            assert_eq!(args(&command), vec!["-d", "-o", "out.txt", "/t/p"]);
        }
        _ => panic!("age should run"),
    }
    let (_, a) = open_step(&mode, st, OpenEvent::ToolExited { success: true });
    assert!(matches!(a, OpenAction::ReportRecovered));
    let (_, a) = open_step(&mode, OpenState::Decrypting, OpenEvent::ToolExited { success: false });
    assert!(matches!(a, OpenAction::ReportDecryptionFailure));
}

#[test]
fn opening_starts_with_the_tool_check() {
    let mode = DecryptionMode::AgePassphrase;
    let (st, a) = open_step(&mode, OpenState::CheckingTools, OpenEvent::ToolsChecked { present: true });
    assert!(matches!(a, OpenAction::AskForFiles));
    let (st, a) = open_step(&mode, st, OpenEvent::FilesChosen { stego: s("x"), output: s("y"), stego_is_file: true });
    assert!(matches!(a, OpenAction::AskToContinue));
    let (_, a) = open_step(&mode, st, OpenEvent::Answered { yes: false });
    assert!(matches!(a, OpenAction::ReportCancelled));
}

#[test]
fn key_making_asks_and_writes_the_public_key() {
    let kind = KeyKind::PostQuantum;
    let st = KeyState::CheckingTool { key_dir: s("/home/u/.config/morsteg/keys") };
    let (st, a) = key_step(kind, st, KeyEvent::ToolChecked { present: true });
    match &a {
        KeyAction::MakeFolder { path } => assert_eq!(path, "/home/u/.config/morsteg/keys"),
        _ => panic!("folder first"),
    }
    let (st, a) = key_step(kind, st, KeyEvent::FolderMade { ok: true });
    match &a {
        KeyAction::CheckFiles { private_path, public_path } => {
            assert_eq!(private_path, "/home/u/.config/morsteg/keys/morsteg-pq-key.txt");
            assert_eq!(public_path, "/home/u/.config/morsteg/keys/morsteg-pq-public-key.txt");
        }
        _ => panic!("check files"),
    }
    let (st, a) =
        key_step(kind, st, KeyEvent::FilesChecked { private_exists: false, public_exists: true });
    assert!(matches!(a, KeyAction::AskOverwrite { private_exists: false, public_exists: true }));
    let (st, a) = key_step(kind, st, KeyEvent::Answered { yes: true });
    match &a {
        KeyAction::Run { command } => {
            assert_eq!(command.program, "age-keygen");
            assert_eq!(
                args(command),
                vec!["-pq", "-o", "/home/u/.config/morsteg/keys/morsteg-pq-key.txt"]
            );
        }
        _ => panic!("keygen should run"),
    }
    let (st, a) = key_step(kind, st, KeyEvent::ToolExited { success: true });
    assert!(matches!(&a, KeyAction::ReadPrivateKey { path } if path == "/home/u/.config/morsteg/keys/morsteg-pq-key.txt"));
    let text = s("# created: now\n# public key: age1pq1xyz\nAGE-SECRET-KEY-PQ-1ABC\n");
    let (st, a) = key_step(kind, st, KeyEvent::KeyRead { contents: Some(text) });
    match &a {
        KeyAction::WritePublicKey { path, contents } => {
            assert_eq!(path, "/home/u/.config/morsteg/keys/morsteg-pq-public-key.txt");
            assert!(contents.ends_with("age1pq1xyz\n"));
            assert!(contents.starts_with("# MorSteg public age key\n"));
        }
        _ => panic!("public key file should be written"),
    }
    let (st, a) = key_step(kind, st, KeyEvent::PublicKeyWritten { ok: false });
    assert!(matches!(&a, KeyAction::ReportKeysMade { public_key, public_key_file_written: false } if public_key == "age1pq1xyz"));
    assert!(matches!(st, KeyState::Done));
}

#[test]
fn key_making_asks_to_create_when_nothing_exists() {
    let st = KeyState::CheckingFiles { private_path: s("p"), public_path: s("q") };
    let (st, a) = key_step(
        KeyKind::Normal,
        st,
        KeyEvent::FilesChecked { private_exists: false, public_exists: false },
    );
    assert!(matches!(a, KeyAction::AskCreate));
    let (st, a) = key_step(KeyKind::Normal, st, KeyEvent::Answered { yes: false });
    assert!(matches!(a, KeyAction::ReportCancelled) && matches!(st, KeyState::Done));
}

#[test]
fn failed_post_quantum_keygen_suggests_a_normal_key() {
    let st = KeyState::Generating { private_path: s("p"), public_path: s("q") };
    let (_, a) = key_step(KeyKind::PostQuantum, st, KeyEvent::ToolExited { success: false });
    assert!(matches!(a, KeyAction::ReportKeygenFailure { suggest_normal_key: true }));
    let st = KeyState::Generating { private_path: s("p"), public_path: s("q") };
    let (_, a) = key_step(KeyKind::Normal, st, KeyEvent::ToolExited { success: false });
    assert!(matches!(a, KeyAction::ReportKeygenFailure { suggest_normal_key: false }));
    let st = KeyState::Generating { private_path: s("p"), public_path: s("q") };
    let (_, a) = key_step(KeyKind::PostQuantum, st, KeyEvent::ToolNotStarted);
    assert!(matches!(a, KeyAction::ReportKeygenNotRun));
}

#[test]
fn unreadable_or_keyless_private_key_is_reported() {
    let (_, a) = key_step(
        KeyKind::Normal,
        KeyState::ReadingKey { public_path: s("q") },
        KeyEvent::KeyRead { contents: None },
    );
    assert!(matches!(a, KeyAction::ReportPublicKeyNotFound));
    let (_, a) = key_step(
        KeyKind::Normal,
        KeyState::ReadingKey { public_path: s("q") },
        KeyEvent::KeyRead { contents: Some(s("AGE-SECRET-KEY-1\n")) },
    );
    assert!(matches!(a, KeyAction::ReportPublicKeyNotFound));
}

#[test]
fn missing_files_are_asked_for_again() {
    let mode = EncryptionMode::AgePassphrase;
    let (st, a) = hide_step(
        &mode,
        HideState::ChoosingFiles,
        HideEvent::FilesChosen {
            cover: s("c"),
            secret: s("gone.txt"),
            output: s("o"),
            cover_is_file: true,
            secret_is_file: false,
        },
    );
    assert!(matches!(a, HideAction::AskForFiles) && matches!(st, HideState::ChoosingFiles));
    let (st, a) = open_step(
        &DecryptionMode::AgePassphrase,
        OpenState::ChoosingFiles,
        OpenEvent::FilesChosen { stego: s("gone.jpg"), output: s("o"), stego_is_file: false },
    );
    assert!(matches!(a, OpenAction::AskForFiles) && matches!(st, OpenState::ChoosingFiles));
}
