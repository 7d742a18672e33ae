//! The guided flows of MorSteg as state machines: hiding a secret, opening one,
//! and making an age key. A step takes the flow's state and what just happened,
//! and gives the next state and what to do next; prompting, running the tools
//! and touching files is left to the caller, which reports back.
use vstd::prelude::*;
use crate::commands::{strings_view, ToolCommand};
use crate::crypto::{
    decrypt_args, decrypt_command, encrypt_args, encrypt_command, DecryptionMode, EncryptionMode,
};
use crate::keys::{
    key_file_names, key_file_names_spec, keygen_command, public_key_file_contents,
    public_key_file_text, public_key_from_identity_text, public_key_in, KeyKind,
};
use crate::steg::{embed_command, extract_command};
use crate::text::{chars_of, string_of};
use crate::unix_path::{join, path_join};

verus! {

/// The arguments of `steghide` that hide `payload` in `cover`, writing `output`.
pub open spec fn embed_args(cover: Seq<char>, payload: Seq<char>, output: Seq<char>) -> Seq<
    Seq<char>,
> {
    seq!["embed"@, "-cf"@, cover, "-ef"@, payload, "-sf"@, output]
}

/// The arguments of `steghide` that pull the payload of `stego` out into `payload`.
pub open spec fn extract_args(stego: Seq<char>, payload: Seq<char>) -> Seq<Seq<char>> {
    seq!["extract"@, "-sf"@, stego, "-xf"@, payload]
}

/// The arguments of `age-keygen` that write a new key of `kind` to `key_path`.
pub open spec fn keygen_args(kind: KeyKind, key_path: Seq<char>) -> Seq<Seq<char>> {
    match kind {
        KeyKind::Normal => seq!["-o"@, key_path],
        KeyKind::PostQuantum => seq!["-pq"@, "-o"@, key_path],
    }
}

/// `c` runs `age` to encrypt `secret` into `payload`.
pub open spec fn runs_age_encrypt(
    c: ToolCommand,
    mode: EncryptionMode,
    secret: Seq<char>,
    payload: Seq<char>,
) -> bool {
    c.program@ == "age"@ && strings_view(c.args@) == encrypt_args(mode, secret, payload)
}

/// `c` runs `steghide` to hide `payload` in `cover`, writing `output`.
pub open spec fn runs_steghide_embed(
    c: ToolCommand,
    cover: Seq<char>,
    payload: Seq<char>,
    output: Seq<char>,
) -> bool {
    c.program@ == "steghide"@ && strings_view(c.args@) == embed_args(cover, payload, output)
}

/// `c` runs `steghide` to pull the payload of `stego` out into `payload`.
pub open spec fn runs_steghide_extract(c: ToolCommand, stego: Seq<char>, payload: Seq<char>) -> bool {
    c.program@ == "steghide"@ && strings_view(c.args@) == extract_args(stego, payload)
}

/// `c` runs `age` to decrypt `payload` into `output`.
pub open spec fn runs_age_decrypt(
    c: ToolCommand,
    mode: DecryptionMode,
    payload: Seq<char>,
    output: Seq<char>,
) -> bool {
    c.program@ == "age"@ && strings_view(c.args@) == decrypt_args(mode, payload, output)
}

/// `c` runs `age-keygen` to write a new key of `kind` to `key_path`.
pub open spec fn runs_keygen(c: ToolCommand, kind: KeyKind, key_path: Seq<char>) -> bool {
    c.program@ == "age-keygen"@ && strings_view(c.args@) == keygen_args(kind, key_path)
}

/// The two commands of a hiding: `age` encrypts the secret into the private
/// temporary payload, then `steghide` hides that payload (never the secret
/// itself) in the cover file, writing the disguised output.
pub fn hide_commands(
    mode: &EncryptionMode,
    cover: &str,
    secret: &str,
    output: &str,
    temp_payload: &str,
) -> (cmds: (ToolCommand, ToolCommand))
    ensures
        runs_age_encrypt(cmds.0, *mode, secret@, temp_payload@),
        runs_steghide_embed(cmds.1, cover@, temp_payload@, output@),
{
    (encrypt_command(mode, secret, temp_payload), embed_command(cover, temp_payload, output))
}

/// The two commands of an opening: `steghide` pulls the hidden payload out into
/// the private temporary payload, then `age` decrypts that payload into the
/// recovered output.
pub fn open_commands(mode: &DecryptionMode, stego: &str, output: &str, temp_payload: &str) -> (cmds:
    (ToolCommand, ToolCommand))
    ensures
        runs_steghide_extract(cmds.0, stego@, temp_payload@),
        runs_age_decrypt(cmds.1, *mode, temp_payload@, output@),
{
    (extract_command(stego, temp_payload), decrypt_command(mode, temp_payload, output))
}

/// Steghide hides what age wrote: the payload that `steghide embed` takes (`-ef`)
/// is the file `age` encrypts into (`-o`), and the secret is the last argument of
/// `age`, the file it reads.
pub proof fn law_steghide_hides_age_output(
    mode: EncryptionMode,
    cover: Seq<char>,
    secret: Seq<char>,
    output: Seq<char>,
    payload: Seq<char>,
)
    ensures
        ({
            let enc = encrypt_args(mode, secret, payload);
            let emb = embed_args(cover, payload, output);
            &&& enc[enc.len() - 3] == "-o"@
            &&& enc[enc.len() - 2] == payload
            &&& enc.last() == secret
            &&& emb[3] == "-ef"@
            &&& emb[4] == payload
        }),
{
}

/// Where a hiding stands.
pub enum HideState {
    /// Checking that `steghide` and `age` are installed.
    CheckingTools,
    /// Waiting for the cover, secret and output files.
    ChoosingFiles,
    /// Waiting for the go-ahead on these files.
    Confirming { cover: String, secret: String, output: String },
    /// Waiting for a private temporary workspace.
    MakingWorkspace { cover: String, secret: String, output: String },
    /// `age` is encrypting the secret; `embed` hides the result once it succeeds.
    Encrypting { embed: ToolCommand },
    /// `steghide` is hiding the encrypted payload.
    Hiding,
    /// The flow is over.
    Done,
}

/// What happened during a hiding.
pub enum HideEvent {
    /// The tool check ended; `present` when both tools were found.
    ToolsChecked { present: bool },
    /// The files were chosen; `cover_is_file` and `secret_is_file` tell whether
    /// the cover and the secret are existing regular files.
    FilesChosen {
        cover: String,
        secret: String,
        output: String,
        cover_is_file: bool,
        secret_is_file: bool,
    },
    /// The question was answered.
    Answered { yes: bool },
    /// A private temporary workspace was made; the payload goes to `temp_payload`.
    WorkspaceMade { temp_payload: String },
    /// No temporary workspace could be made.
    WorkspaceFailed,
    /// The tool that was run ended; `success` when it ran and exited with success.
    ToolExited { success: bool },
}

/// What to do next in a hiding.
pub enum HideAction {
    /// Say that a tool is missing.
    ReportMissingTools,
    /// Ask for the cover, secret and output files.
    AskForFiles,
    /// Show the files and ask whether to go on.
    AskToContinue,
    /// Say that the hiding was cancelled.
    ReportCancelled,
    /// Make a private temporary workspace.
    MakeWorkspace,
    /// Say that no temporary workspace could be made.
    ReportWorkspaceFailure,
    /// Run `command` and report how it ended.
    Run { command: ToolCommand },
    /// Say that the encryption failed.
    ReportEncryptionFailure,
    /// Say how the hiding ended.
    ReportHidingResult { success: bool },
    /// The event does not fit the state: nothing to do.
    Ignore,
}

/// One step of a hiding. The files are asked for until the cover and the secret
/// are existing files. The secret reaches `age` alone, once the files were
/// chosen, the go-ahead given and the workspace made; `steghide` runs only after
/// `age` exited with success, on what `age` wrote.
pub open spec fn hide_steps_to(
    mode: EncryptionMode,
    state: HideState,
    event: HideEvent,
    next: (HideState, HideAction),
) -> bool {
    match (state, event) {
        (HideState::CheckingTools, HideEvent::ToolsChecked { present }) => if present {
            next.0 is ChoosingFiles && next.1 is AskForFiles
        } else {
            next.0 is Done && next.1 is ReportMissingTools
        },
        (
            HideState::ChoosingFiles,
            HideEvent::FilesChosen { cover, secret, output, cover_is_file, secret_is_file },
        ) => if cover_is_file && secret_is_file {
            next.0 == (HideState::Confirming { cover, secret, output }) && next.1 is AskToContinue
        } else {
            next.0 is ChoosingFiles && next.1 is AskForFiles
        },
        (HideState::Confirming { cover, secret, output }, HideEvent::Answered { yes }) => if yes {
            next.0 == (HideState::MakingWorkspace { cover, secret, output })
                && next.1 is MakeWorkspace
        } else {
            next.0 is Done && next.1 is ReportCancelled
        },
        (
            HideState::MakingWorkspace { cover, secret, output },
            HideEvent::WorkspaceMade { temp_payload },
        ) => {
            &&& next.0 matches HideState::Encrypting { embed } && runs_steghide_embed(
                embed,
                cover@,
                temp_payload@,
                output@,
            )
            &&& next.1 matches HideAction::Run { command } && runs_age_encrypt(
                command,
                mode,
                secret@,
                temp_payload@,
            )
        },
        (HideState::MakingWorkspace { .. }, HideEvent::WorkspaceFailed) => next.0 is Done
            && next.1 is ReportWorkspaceFailure,
        (HideState::Encrypting { embed }, HideEvent::ToolExited { success }) => if success {
            next.0 is Hiding && next.1 == (HideAction::Run { command: embed })
        } else {
            next.0 is Done && next.1 is ReportEncryptionFailure
        },
        (HideState::Hiding, HideEvent::ToolExited { success }) => next.0 is Done && next.1 == (
        HideAction::ReportHidingResult { success }),
        (s, _) => next.0 == s && next.1 is Ignore,
    }
}

/// The next state of a hiding with `mode`, and what to do.
pub fn hide_step(mode: &EncryptionMode, state: HideState, event: HideEvent) -> (next: (
    HideState,
    HideAction,
))
    ensures
        hide_steps_to(*mode, state, event, next),
{
    match (state, event) {
        (HideState::CheckingTools, HideEvent::ToolsChecked { present }) => if present {
            (HideState::ChoosingFiles, HideAction::AskForFiles)
        } else {
            (HideState::Done, HideAction::ReportMissingTools)
        },
        (
            HideState::ChoosingFiles,
            HideEvent::FilesChosen { cover, secret, output, cover_is_file, secret_is_file },
        ) => if cover_is_file && secret_is_file {
            (HideState::Confirming { cover, secret, output }, HideAction::AskToContinue)
        } else {
            (HideState::ChoosingFiles, HideAction::AskForFiles)
        },
        (HideState::Confirming { cover, secret, output }, HideEvent::Answered { yes }) => if yes {
            (HideState::MakingWorkspace { cover, secret, output }, HideAction::MakeWorkspace)
        } else {
            (HideState::Done, HideAction::ReportCancelled)
        },
        (
            HideState::MakingWorkspace { cover, secret, output },
            HideEvent::WorkspaceMade { temp_payload },
        ) => {
            let (encrypt, embed) = hide_commands(
                mode,
                cover.as_str(),
                secret.as_str(),
                output.as_str(),
                temp_payload.as_str(),
            );
            (HideState::Encrypting { embed }, HideAction::Run { command: encrypt })
        },
        (HideState::MakingWorkspace { .. }, HideEvent::WorkspaceFailed) => (
            HideState::Done,
            HideAction::ReportWorkspaceFailure,
        ),
        (HideState::Encrypting { embed }, HideEvent::ToolExited { success }) => if success {
            (HideState::Hiding, HideAction::Run { command: embed })
        } else {
            (HideState::Done, HideAction::ReportEncryptionFailure)
        },
        (HideState::Hiding, HideEvent::ToolExited { success }) => (
            HideState::Done,
            HideAction::ReportHidingResult { success },
        ),
        (s, _) => (s, HideAction::Ignore),
    }
}

/// What every state of a hiding keeps: the command held back while `age` runs
/// is a `steghide` command.
pub open spec fn hide_state_holds(state: HideState) -> bool {
    state matches HideState::Encrypting { embed } ==> embed.program@ == "steghide"@
}

/// The gates of a hiding, from any state that keeps `hide_state_holds` (as the
/// first state does, and every step keeps): the files are asked for once the
/// tools were found, and again while the cover or the secret is not an existing
/// file; the go-ahead is asked only for existing files, the workspace made only
/// after a yes, `age` run only once
/// the workspace exists, and `steghide` run only when `age` exited with success.
pub proof fn law_hide_gates(
    mode: EncryptionMode,
    state: HideState,
    event: HideEvent,
    next: (HideState, HideAction),
)
    requires
        hide_state_holds(state),
        hide_steps_to(mode, state, event, next),
    ensures
        hide_state_holds(next.0),
        next.1 is AskForFiles ==> (state is CheckingTools && event == (HideEvent::ToolsChecked {
            present: true,
        })) || (state is ChoosingFiles && (event matches HideEvent::FilesChosen {
            cover_is_file,
            secret_is_file,
            ..
        } && !(cover_is_file && secret_is_file))),
        next.0 is Confirming ==> state is Confirming || (state is ChoosingFiles && (
        event matches HideEvent::FilesChosen { cover_is_file, secret_is_file, .. }
            && cover_is_file && secret_is_file)),
        next.1 is MakeWorkspace ==> state is Confirming && event == (HideEvent::Answered {
            yes: true,
        }),
        (next.1 matches HideAction::Run { command } && command.program@ == "age"@) ==> (
        state is MakingWorkspace && event is WorkspaceMade),
        (next.1 matches HideAction::Run { command } && command.program@ == "steghide"@) ==> (
        state is Encrypting && event == (HideEvent::ToolExited { success: true })),
{
    reveal_strlit("age");
    reveal_strlit("steghide");
    assert("age"@.len() != "steghide"@.len());
}

/// Where an opening stands.
pub enum OpenState {
    /// Checking that `steghide` and `age` are installed.
    CheckingTools,
    /// Waiting for the file with the hidden secret and the recovered file's name.
    ChoosingFiles,
    /// Waiting for the go-ahead on these files.
    Confirming { stego: String, output: String },
    /// Waiting for a private temporary workspace.
    MakingWorkspace { stego: String, output: String },
    /// `steghide` is pulling the payload out; `decrypt` opens it once that succeeds.
    Extracting { decrypt: ToolCommand },
    /// `age` is decrypting the payload.
    Decrypting,
    /// The flow is over.
    Done,
}

/// What happened during an opening.
pub enum OpenEvent {
    /// The tool check ended; `present` when both tools were found.
    ToolsChecked { present: bool },
    /// The files were chosen; `stego_is_file` tells whether the file with the
    /// hidden secret is an existing regular file.
    FilesChosen { stego: String, output: String, stego_is_file: bool },
    /// The question was answered.
    Answered { yes: bool },
    /// A private temporary workspace was made; the payload goes to `temp_payload`.
    WorkspaceMade { temp_payload: String },
    /// No temporary workspace could be made.
    WorkspaceFailed,
    /// The tool that was run ended; `success` when it ran and exited with success.
    ToolExited { success: bool },
}

/// What to do next in an opening.
pub enum OpenAction {
    /// Say that a tool is missing.
    ReportMissingTools,
    /// Ask for the file with the hidden secret and the recovered file's name.
    AskForFiles,
    /// Ask whether to go on.
    AskToContinue,
    /// Say that the opening was cancelled.
    ReportCancelled,
    /// Make a private temporary workspace.
    MakeWorkspace,
    /// Say that no temporary workspace could be made.
    ReportWorkspaceFailure,
    /// Run `command` and report how it ended.
    Run { command: ToolCommand },
    /// Say that the extraction failed.
    ReportExtractionFailure,
    /// Say that the secret was recovered into the chosen file.
    ReportRecovered,
    /// Say that the decryption failed.
    ReportDecryptionFailure,
    /// The event does not fit the state: nothing to do.
    Ignore,
}

/// One step of an opening: the files are asked for until the file with the
/// hidden secret exists; `steghide` pulls the payload out once the files were
/// chosen, the go-ahead given and the workspace made; `age` decrypts only after
/// `steghide` exited with success, and the secret is reported recovered only
/// when `age` exited with success.
pub open spec fn open_steps_to(
    mode: DecryptionMode,
    state: OpenState,
    event: OpenEvent,
    next: (OpenState, OpenAction),
) -> bool {
    match (state, event) {
        (OpenState::CheckingTools, OpenEvent::ToolsChecked { present }) => if present {
            next.0 is ChoosingFiles && next.1 is AskForFiles
        } else {
            next.0 is Done && next.1 is ReportMissingTools
        },
        (OpenState::ChoosingFiles, OpenEvent::FilesChosen { stego, output, stego_is_file }) =>
            if stego_is_file {
            next.0 == (OpenState::Confirming { stego, output }) && next.1 is AskToContinue
        } else {
            next.0 is ChoosingFiles && next.1 is AskForFiles
        },
        (OpenState::Confirming { stego, output }, OpenEvent::Answered { yes }) => if yes {
            next.0 == (OpenState::MakingWorkspace { stego, output }) && next.1 is MakeWorkspace
        } else {
            next.0 is Done && next.1 is ReportCancelled
        },
        (OpenState::MakingWorkspace { stego, output }, OpenEvent::WorkspaceMade { temp_payload }) => {
            &&& next.0 matches OpenState::Extracting { decrypt } && runs_age_decrypt(
                decrypt,
                mode,
                temp_payload@,
                output@,
            )
            &&& next.1 matches OpenAction::Run { command } && runs_steghide_extract(
                command,
                stego@,
                temp_payload@,
            )
        },
        (OpenState::MakingWorkspace { .. }, OpenEvent::WorkspaceFailed) => next.0 is Done
            && next.1 is ReportWorkspaceFailure,
        (OpenState::Extracting { decrypt }, OpenEvent::ToolExited { success }) => if success {
            next.0 is Decrypting && next.1 == (OpenAction::Run { command: decrypt })
        } else {
            next.0 is Done && next.1 is ReportExtractionFailure
        },
        (OpenState::Decrypting, OpenEvent::ToolExited { success }) => next.0 is Done && if success {
            next.1 is ReportRecovered
        } else {
            next.1 is ReportDecryptionFailure
        },
        (s, _) => next.0 == s && next.1 is Ignore,
    }
}

/// The next state of an opening with `mode`, and what to do.
pub fn open_step(mode: &DecryptionMode, state: OpenState, event: OpenEvent) -> (next: (
    OpenState,
    OpenAction,
))
    ensures
        open_steps_to(*mode, state, event, next),
{
    match (state, event) {
        (OpenState::CheckingTools, OpenEvent::ToolsChecked { present }) => if present {
            (OpenState::ChoosingFiles, OpenAction::AskForFiles)
        } else {
            (OpenState::Done, OpenAction::ReportMissingTools)
        },
        (OpenState::ChoosingFiles, OpenEvent::FilesChosen { stego, output, stego_is_file }) =>
            if stego_is_file {
            (OpenState::Confirming { stego, output }, OpenAction::AskToContinue)
        } else {
            (OpenState::ChoosingFiles, OpenAction::AskForFiles)
        },
        (OpenState::Confirming { stego, output }, OpenEvent::Answered { yes }) => if yes {
            (OpenState::MakingWorkspace { stego, output }, OpenAction::MakeWorkspace)
        } else {
            (OpenState::Done, OpenAction::ReportCancelled)
        },
        (OpenState::MakingWorkspace { stego, output }, OpenEvent::WorkspaceMade { temp_payload }) => {
            let (extract, decrypt) = open_commands(
                mode,
                stego.as_str(),
                output.as_str(),
                temp_payload.as_str(),
            );
            (OpenState::Extracting { decrypt }, OpenAction::Run { command: extract })
        },
        (OpenState::MakingWorkspace { .. }, OpenEvent::WorkspaceFailed) => (
            OpenState::Done,
            OpenAction::ReportWorkspaceFailure,
        ),
        (OpenState::Extracting { decrypt }, OpenEvent::ToolExited { success }) => if success {
            (OpenState::Decrypting, OpenAction::Run { command: decrypt })
        } else {
            (OpenState::Done, OpenAction::ReportExtractionFailure)
        },
        (OpenState::Decrypting, OpenEvent::ToolExited { success }) => if success {
            (OpenState::Done, OpenAction::ReportRecovered)
        } else {
            (OpenState::Done, OpenAction::ReportDecryptionFailure)
        },
        (s, _) => (s, OpenAction::Ignore),
    }
}

/// What every state of an opening keeps: the command held back while `steghide`
/// runs is an `age` command.
pub open spec fn open_state_holds(state: OpenState) -> bool {
    state matches OpenState::Extracting { decrypt } ==> decrypt.program@ == "age"@
}

/// The gates of an opening, from any state that keeps `open_state_holds`: the
/// go-ahead is asked only once the file with the hidden secret exists, `steghide`
/// runs only once the workspace exists, `age` only when `steghide`
/// exited with success, and the secret is reported recovered only when `age`
/// exited with success.
pub proof fn law_open_gates(
    mode: DecryptionMode,
    state: OpenState,
    event: OpenEvent,
    next: (OpenState, OpenAction),
)
    requires
        open_state_holds(state),
        open_steps_to(mode, state, event, next),
    ensures
        open_state_holds(next.0),
        next.1 is MakeWorkspace ==> state is Confirming && event == (OpenEvent::Answered {
            yes: true,
        }),
        next.0 is Confirming ==> state is Confirming || (state is ChoosingFiles && (
        event matches OpenEvent::FilesChosen { stego_is_file, .. } && stego_is_file)),
        (next.1 matches OpenAction::Run { command } && command.program@ == "steghide"@) ==> (
        state is MakingWorkspace && event is WorkspaceMade),
        (next.1 matches OpenAction::Run { command } && command.program@ == "age"@) ==> (
        state is Extracting && event == (OpenEvent::ToolExited { success: true })),
        next.1 is ReportRecovered ==> state is Decrypting && event == (OpenEvent::ToolExited {
            success: true,
        }),
{
    reveal_strlit("age");
    reveal_strlit("steghide");
    assert("age"@.len() != "steghide"@.len());
}

/// Where the making of an age key stands.
pub enum KeyState {
    /// Checking that `age-keygen` is installed; the key goes to `key_dir`.
    CheckingTool { key_dir: String },
    /// Waiting for the key folder to be made.
    MakingFolder { key_dir: String },
    /// Waiting to learn which of the two key files exist already.
    CheckingFiles { private_path: String, public_path: String },
    /// Waiting for the go-ahead.
    Confirming { private_path: String, public_path: String },
    /// `age-keygen` is writing the private key.
    Generating { private_path: String, public_path: String },
    /// Waiting for the text of the new private key file.
    ReadingKey { public_path: String },
    /// Waiting for the public key file to be written.
    WritingPublicKey { public_key: String },
    /// The flow is over.
    Done,
}

/// What happened while making an age key.
pub enum KeyEvent {
    /// The tool check ended; `present` when `age-keygen` was found.
    ToolChecked { present: bool },
    /// The key folder was made (`ok`) or could not be.
    FolderMade { ok: bool },
    /// Which key files exist already.
    FilesChecked { private_exists: bool, public_exists: bool },
    /// The question was answered.
    Answered { yes: bool },
    /// `age-keygen` ran and exited, with success or not.
    ToolExited { success: bool },
    /// `age-keygen` could not be started.
    ToolNotStarted,
    /// The private key file was read (`Some` text) or could not be.
    KeyRead { contents: Option<String> },
    /// The public key file was written (`ok`) or could not be.
    PublicKeyWritten { ok: bool },
}

/// What to do next while making an age key.
pub enum KeyAction {
    /// Say that `age-keygen` is missing.
    ReportMissingTool,
    /// Make the folder `path`.
    MakeFolder { path: String },
    /// Say that the key folder could not be made.
    ReportFolderFailure,
    /// Show the two key files to be made and find out which exist already.
    CheckFiles { private_path: String, public_path: String },
    /// Show the key files that exist and ask whether to overwrite them.
    AskOverwrite { private_exists: bool, public_exists: bool },
    /// Ask whether to make the key files.
    AskCreate,
    /// Say that nothing was made.
    ReportCancelled,
    /// Run `command` and report how it ended.
    Run { command: ToolCommand },
    /// Say that `age-keygen` failed, suggesting a normal key when a post-quantum
    /// one was asked for.
    ReportKeygenFailure { suggest_normal_key: bool },
    /// Say that `age-keygen` could not be run.
    ReportKeygenNotRun,
    /// Read the new private key file `path`.
    ReadPrivateKey { path: String },
    /// Say that no public key line was found in the private key file.
    ReportPublicKeyNotFound,
    /// Write `contents` to the public key file `path`.
    WritePublicKey { path: String, contents: String },
    /// Say that the keys were made, with the public key and whether its file was
    /// written.
    ReportKeysMade { public_key: String, public_key_file_written: bool },
    /// The event does not fit the state: nothing to do.
    Ignore,
}

/// One step of making an age key of `kind`: the key files go into the key
/// folder under their names for `kind`; the overwrite question is asked exactly
/// when one of them exists; `age-keygen` runs only after a yes; and after it
/// succeeded, the public key file gets the key announced in the new private key
/// file.
pub open spec fn key_steps_to(
    kind: KeyKind,
    state: KeyState,
    event: KeyEvent,
    next: (KeyState, KeyAction),
) -> bool {
    match (state, event) {
        (KeyState::CheckingTool { key_dir }, KeyEvent::ToolChecked { present }) => if present {
            &&& next.0 == (KeyState::MakingFolder { key_dir })
            &&& next.1 matches KeyAction::MakeFolder { path } && path@ == key_dir@
        } else {
            next.0 is Done && next.1 is ReportMissingTool
        },
        (KeyState::MakingFolder { key_dir }, KeyEvent::FolderMade { ok }) => if ok {
            let private_path = join(key_dir@, key_file_names_spec(kind).0);
            let public_path = join(key_dir@, key_file_names_spec(kind).1);
            &&& next.0 matches KeyState::CheckingFiles { private_path: p, public_path: q } && p@
                == private_path && q@ == public_path
            &&& next.1 matches KeyAction::CheckFiles { private_path: p, public_path: q } && p@
                == private_path && q@ == public_path
        } else {
            next.0 is Done && next.1 is ReportFolderFailure
        },
        (
            KeyState::CheckingFiles { private_path, public_path },
            KeyEvent::FilesChecked { private_exists, public_exists },
        ) => {
            &&& next.0 == (KeyState::Confirming { private_path, public_path })
            &&& if private_exists || public_exists {
                next.1 == (KeyAction::AskOverwrite { private_exists, public_exists })
            } else {
                next.1 is AskCreate
            }
        },
        (KeyState::Confirming { private_path, public_path }, KeyEvent::Answered { yes }) => if yes {
            &&& next.0 == (KeyState::Generating { private_path, public_path })
            &&& next.1 matches KeyAction::Run { command } && runs_keygen(command, kind, private_path@)
        } else {
            next.0 is Done && next.1 is ReportCancelled
        },
        (KeyState::Generating { private_path, public_path }, KeyEvent::ToolExited { success }) =>
            if success {
            next.0 == (KeyState::ReadingKey { public_path }) && next.1 == (
            KeyAction::ReadPrivateKey { path: private_path })
        } else {
            next.0 is Done && next.1 == (KeyAction::ReportKeygenFailure {
                suggest_normal_key: kind == KeyKind::PostQuantum,
            })
        },
        (KeyState::Generating { .. }, KeyEvent::ToolNotStarted) => next.0 is Done
            && next.1 is ReportKeygenNotRun,
        (KeyState::ReadingKey { public_path }, KeyEvent::KeyRead { contents }) => if contents is Some
            && public_key_in(contents->0@) is Some {
            let key = public_key_in(contents->0@)->0;
            &&& next.0 matches KeyState::WritingPublicKey { public_key } && public_key@ == key
            &&& next.1 matches KeyAction::WritePublicKey { path, contents: text } && path
                == public_path && text@ == public_key_file_contents(key)
        } else {
            next.0 is Done && next.1 is ReportPublicKeyNotFound
        },
        (KeyState::WritingPublicKey { public_key }, KeyEvent::PublicKeyWritten { ok }) => next.0 is Done
            && next.1 == (KeyAction::ReportKeysMade { public_key, public_key_file_written: ok }),
        (s, _) => next.0 == s && next.1 is Ignore,
    }
}

fn joined(dir: &str, name: &str) -> (path: String)
    ensures
        path@ == join(dir@, name@),
{
    let d = chars_of(dir);
    let n = chars_of(name);
    let j = path_join(&d, &n);
    string_of(&j)
}

fn copy_string(s: &str) -> (c: String)
    ensures
        c@ == s@,
{
    String::from_str(s)
}

/// The next state of making an age key of `kind`, and what to do.
pub fn key_step(kind: KeyKind, state: KeyState, event: KeyEvent) -> (next: (KeyState, KeyAction))
    ensures
        key_steps_to(kind, state, event, next),
{
    match (state, event) {
        (KeyState::CheckingTool { key_dir }, KeyEvent::ToolChecked { present }) => if present {
            let path = copy_string(key_dir.as_str());
            (KeyState::MakingFolder { key_dir }, KeyAction::MakeFolder { path })
        } else {
            (KeyState::Done, KeyAction::ReportMissingTool)
        },
        (KeyState::MakingFolder { key_dir }, KeyEvent::FolderMade { ok }) => if ok {
            let (private_name, public_name) = key_file_names(kind);
            let private_path = joined(key_dir.as_str(), private_name.as_str());
            let public_path = joined(key_dir.as_str(), public_name.as_str());
            let action = KeyAction::CheckFiles {
                private_path: copy_string(private_path.as_str()),
                public_path: copy_string(public_path.as_str()),
            };
            (KeyState::CheckingFiles { private_path, public_path }, action)
        } else {
            (KeyState::Done, KeyAction::ReportFolderFailure)
        },
        (
            KeyState::CheckingFiles { private_path, public_path },
            KeyEvent::FilesChecked { private_exists, public_exists },
        ) => {
            let action = if private_exists || public_exists {
                KeyAction::AskOverwrite { private_exists, public_exists }
            } else {
                KeyAction::AskCreate
            };
            (KeyState::Confirming { private_path, public_path }, action)
        },
        (KeyState::Confirming { private_path, public_path }, KeyEvent::Answered { yes }) => if yes {
            let command = keygen_command(kind, private_path.as_str());
            (KeyState::Generating { private_path, public_path }, KeyAction::Run { command })
        } else {
            (KeyState::Done, KeyAction::ReportCancelled)
        },
        (KeyState::Generating { private_path, public_path }, KeyEvent::ToolExited { success }) =>
            if success {
            (KeyState::ReadingKey { public_path }, KeyAction::ReadPrivateKey { path: private_path })
        } else {
            (
                KeyState::Done,
                KeyAction::ReportKeygenFailure { suggest_normal_key: kind == KeyKind::PostQuantum },
            )
        },
        (KeyState::Generating { .. }, KeyEvent::ToolNotStarted) => (
            KeyState::Done,
            KeyAction::ReportKeygenNotRun,
        ),
        (KeyState::ReadingKey { public_path }, KeyEvent::KeyRead { contents }) => {
            let found = match &contents {
                Some(text) => public_key_from_identity_text(text.as_str()),
                None => None,
            };
            match found {
                Some(public_key) => {
                    let text = public_key_file_text(public_key.as_str());
                    (
                        KeyState::WritingPublicKey { public_key },
                        KeyAction::WritePublicKey { path: public_path, contents: text },
                    )
                },
                None => (KeyState::Done, KeyAction::ReportPublicKeyNotFound),
            }
        },
        (KeyState::WritingPublicKey { public_key }, KeyEvent::PublicKeyWritten { ok }) => (
            KeyState::Done,
            KeyAction::ReportKeysMade { public_key, public_key_file_written: ok },
        ),
        (s, _) => (s, KeyAction::Ignore),
    }
}

/// The gates of making a key: `age-keygen` runs only after a yes to the question
/// asked, and the public key file is written only after `age-keygen` succeeded
/// and its key was read back.
pub proof fn law_key_gates(kind: KeyKind, state: KeyState, event: KeyEvent, next: (KeyState, KeyAction))
    requires
        key_steps_to(kind, state, event, next),
    ensures
        next.1 is Run ==> state is Confirming && event == (KeyEvent::Answered { yes: true }),
        next.1 is ReadPrivateKey ==> state is Generating && event == (KeyEvent::ToolExited {
            success: true,
        }),
        next.1 is WritePublicKey ==> state is ReadingKey && event is KeyRead,
        next.1 is AskOverwrite ==> state is CheckingFiles && (event matches KeyEvent::FilesChecked {
            private_exists,
            public_exists,
        } && (private_exists || public_exists)),
        next.1 is AskCreate ==> state is CheckingFiles && event == (KeyEvent::FilesChecked {
            private_exists: false,
            public_exists: false,
        }),
{
}

/// The arguments `age` decrypts with in `mode`: `-d`, the key file for a key,
/// then the output after `-o`, then the payload last.
pub open spec fn decrypts_into(mode: DecryptionMode, args: Seq<Seq<char>>, payload: Seq<char>, output: Seq<char>) -> bool {
    match mode {
        DecryptionMode::AgePassphrase => args =~= seq!["-d"@, "-o"@, output, payload],
        DecryptionMode::AgeIdentityFile { identity_file } => args =~= seq![
            "-d"@,
            "-i"@,
            identity_file@,
            "-o"@,
            output,
            payload,
        ],
    }
}

/// The arguments `age` encrypts with in `mode`: `-p` or `-r` and the recipient,
/// then the payload after `-o`, then the secret last.
pub open spec fn encrypts_into(mode: EncryptionMode, args: Seq<Seq<char>>, secret: Seq<char>, payload: Seq<char>) -> bool {
    match mode {
        EncryptionMode::AgePassphrase => args =~= seq!["-p"@, "-o"@, payload, secret],
        EncryptionMode::AgeRecipient { recipient } => args =~= seq![
            "-r"@,
            recipient@,
            "-o"@,
            payload,
            secret,
        ],
    }
}

/// An opening keeps the chosen files in their roles: after the files were
/// chosen (the one with the hidden secret existing), the go-ahead given, the
/// workspace made and the extraction succeeded, `steghide` extracted from
/// exactly the chosen `stego` file into the temporary payload, and `age`
/// decrypts that payload into exactly the chosen `output`.
pub proof fn law_open_keeps_file_roles(
    mode: DecryptionMode,
    stego: String,
    output: String,
    temp_payload: String,
    n1: (OpenState, OpenAction),
    n2: (OpenState, OpenAction),
    n3: (OpenState, OpenAction),
    n4: (OpenState, OpenAction),
)
    requires
        open_steps_to(
            mode,
            OpenState::ChoosingFiles,
            OpenEvent::FilesChosen { stego, output, stego_is_file: true },
            n1,
        ),
        open_steps_to(mode, n1.0, OpenEvent::Answered { yes: true }, n2),
        open_steps_to(mode, n2.0, OpenEvent::WorkspaceMade { temp_payload }, n3),
        open_steps_to(mode, n3.0, OpenEvent::ToolExited { success: true }, n4),
    ensures
        n3.1 matches OpenAction::Run { command } && command.program@ == "steghide"@
            && strings_view(command.args@) == seq![
            "extract"@,
            "-sf"@,
            stego@,
            "-xf"@,
            temp_payload@,
        ],
        n4.1 matches OpenAction::Run { command } && command.program@ == "age"@ && decrypts_into(
            mode,
            strings_view(command.args@),
            temp_payload@,
            output@,
        ),
{
}

/// A hiding keeps the chosen files in their roles: after the files were chosen
/// (cover and secret existing), the go-ahead given, the workspace made and the
/// encryption succeeded, `age` encrypted exactly the chosen `secret` into the
/// temporary payload, and `steghide` hides that payload in exactly the chosen
/// `cover`, writing exactly the chosen `output`.
pub proof fn law_hide_keeps_file_roles(
    mode: EncryptionMode,
    cover: String,
    secret: String,
    output: String,
    temp_payload: String,
    n1: (HideState, HideAction),
    n2: (HideState, HideAction),
    n3: (HideState, HideAction),
    n4: (HideState, HideAction),
)
    requires
        hide_steps_to(
            mode,
            HideState::ChoosingFiles,
            HideEvent::FilesChosen {
                cover,
                secret,
                output,
                cover_is_file: true,
                secret_is_file: true,
            },
            n1,
        ),
        hide_steps_to(mode, n1.0, HideEvent::Answered { yes: true }, n2),
        hide_steps_to(mode, n2.0, HideEvent::WorkspaceMade { temp_payload }, n3),
        hide_steps_to(mode, n3.0, HideEvent::ToolExited { success: true }, n4),
    ensures
        n3.1 matches HideAction::Run { command } && command.program@ == "age"@ && encrypts_into(
            mode,
            strings_view(command.args@),
            secret@,
            temp_payload@,
        ),
        n4.1 matches HideAction::Run { command } && command.program@ == "steghide"@
            && strings_view(command.args@) == seq![
            "embed"@,
            "-cf"@,
            cover@,
            "-ef"@,
            temp_payload@,
            "-sf"@,
            output@,
        ],
{
}

/// Joining one folder with names of different lengths, neither absolute, gives
/// different paths.
proof fn lemma_join_distinct(dir: Seq<char>, a: Seq<char>, b: Seq<char>)
    requires
        a.len() != b.len(),
        !crate::unix_path::is_absolute(a),
        !crate::unix_path::is_absolute(b),
    ensures
        join(dir, a) != join(dir, b),
{
    assert(join(dir, a).len() - a.len() == join(dir, b).len() - b.len());
}

/// Making a key keeps the two key files in their roles: after the key folder
/// was made, the files checked, the go-ahead given, `age-keygen` succeeded and
/// the new private key was read back with a public key in it, `age-keygen`
/// wrote the private key file of `kind` in the key folder, that same file was
/// read back, and the public key text goes to the public key file of `kind` in
/// that folder, which is not the private key file.
pub proof fn law_key_files_keep_roles(
    kind: KeyKind,
    key_dir: String,
    private_exists: bool,
    public_exists: bool,
    text: String,
    n1: (KeyState, KeyAction),
    n2: (KeyState, KeyAction),
    n3: (KeyState, KeyAction),
    n4: (KeyState, KeyAction),
    n5: (KeyState, KeyAction),
)
    requires
        key_steps_to(kind, KeyState::MakingFolder { key_dir }, KeyEvent::FolderMade { ok: true }, n1),
        key_steps_to(kind, n1.0, KeyEvent::FilesChecked { private_exists, public_exists }, n2),
        key_steps_to(kind, n2.0, KeyEvent::Answered { yes: true }, n3),
        key_steps_to(kind, n3.0, KeyEvent::ToolExited { success: true }, n4),
        key_steps_to(kind, n4.0, KeyEvent::KeyRead { contents: Some(text) }, n5),
        public_key_in(text@) is Some,
    ensures
        ({
            let private_path = join(key_dir@, key_file_names_spec(kind).0);
            let public_path = join(key_dir@, key_file_names_spec(kind).1);
            &&& private_path != public_path
            &&& n3.1 matches KeyAction::Run { command } && command.program@ == "age-keygen"@
                && strings_view(command.args@).last() == private_path
            &&& n4.1 matches KeyAction::ReadPrivateKey { path } && path@ == private_path
            &&& n5.1 matches KeyAction::WritePublicKey { path, contents } && path@ == public_path
                && contents@ == public_key_file_contents(public_key_in(text@)->0)
        }),
{
    crate::keys::law_key_file_names_differ(kind);
    lemma_join_distinct(key_dir@, key_file_names_spec(kind).0, key_file_names_spec(kind).1);
}

} // verus!
