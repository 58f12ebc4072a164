//! Where tokens are kept: in the keychain of the system where it can be used,
//! and else in a file, one token for each server.

use crate::order::TextMap;
use crate::outside::wipe;
use crate::text::opt_text;
use vstd::prelude::*;
use vstd::string::*;

verus! {

/// The name under which the keychain shows the tokens.
pub const KEYRING_SERVICE: &'static str = "klaay-cli";

/// A token and whose it is.
pub struct StoredToken {
    pub token: String,
    pub api_url: String,
    pub account_id: Option<String>,
    pub email: Option<String>,
}

pub struct TokenView {
    pub token: Seq<char>,
    pub api_url: Seq<char>,
    pub account_id: Option<Seq<char>>,
    pub email: Option<Seq<char>>,
}

impl View for StoredToken {
    type V = TokenView;

    open spec fn view(&self) -> TokenView {
        TokenView {
            token: self.token@,
            api_url: self.api_url@,
            account_id: opt_text(self.account_id),
            email: opt_text(self.email),
        }
    }
}

fn wipe_option(s: &mut Option<String>)
    ensures
        *final(s) is None,
{
    if let Some(mut text) = s.take() {
        wipe(&mut text);
    }
}

impl StoredToken {
    /// The same once more.
    pub fn copy(&self) -> (r: StoredToken)
        ensures
            r@ == self@,
    {
        StoredToken {
            token: self.token.clone(),
            api_url: self.api_url.clone(),
            account_id: match &self.account_id {
                Some(s) => Some(s.clone()),
                None => None,
            },
            email: match &self.email {
                Some(s) => Some(s.clone()),
                None => None,
            },
        }
    }

    /// Wipes everything.
    pub fn zeroize(&mut self)
        ensures
            final(self)@ == (TokenView {
                token: Seq::empty(),
                api_url: Seq::empty(),
                account_id: None,
                email: None,
            }),
    {
        wipe(&mut self.token);
        wipe(&mut self.api_url);
        wipe_option(&mut self.account_id);
        wipe_option(&mut self.email);
    }
}

/// The tokens in the file, by server.
pub type CredentialMap = TextMap<StoredToken>;

pub type CredentialsView = Map<Seq<char>, StoredToken>;

/// The tokens with one more, in place of the one for the same server.
pub open spec fn with_token(m: CredentialsView, t: StoredToken) -> CredentialsView {
    m.insert(t.api_url@, t)
}

/// The token for a server.
pub open spec fn token_for(m: CredentialsView, api_url: Seq<char>) -> Option<StoredToken> {
    if m.dom().contains(api_url) {
        Some(m[api_url])
    } else {
        None
    }
}

/// Why the tokens of the file are not known.
pub enum LoadFileMapError {
    /// The file could not be read.
    Io(String),
    /// The file does not hold tokens.
    Parse(String),
    /// It is not known where the file is.
    Config(String),
}

pub enum LoadErrorView {
    Io(Seq<char>),
    Parse(Seq<char>),
    Config(Seq<char>),
}

impl View for LoadFileMapError {
    type V = LoadErrorView;

    open spec fn view(&self) -> LoadErrorView {
        match self {
            LoadFileMapError::Io(m) => LoadErrorView::Io(m@),
            LoadFileMapError::Parse(m) => LoadErrorView::Parse(m@),
            LoadFileMapError::Config(m) => LoadErrorView::Config(m@),
        }
    }
}

pub open spec fn load_error_text(e: LoadErrorView) -> Seq<char> {
    match e {
        LoadErrorView::Io(m) => "I/O error: "@ + m,
        LoadErrorView::Parse(m) => "parse error: "@ + m,
        LoadErrorView::Config(m) => "configuration error: "@ + m,
    }
}

impl LoadFileMapError {
    pub fn message(&self) -> (r: String)
        ensures
            r@ == load_error_text(self@),
    {
        match self {
            LoadFileMapError::Io(m) => "I/O error: ".to_owned().concat(m.as_str()),
            LoadFileMapError::Parse(m) => "parse error: ".to_owned().concat(m.as_str()),
            LoadFileMapError::Config(m) => "configuration error: ".to_owned().concat(m.as_str()),
        }
    }
}

/// Why a token was not kept.
pub enum SaveTokenError {
    /// The file is there but does not hold tokens; it is left to the user.
    CorruptedFile(String),
    Other(String),
}

pub enum SaveErrorView {
    CorruptedFile(Seq<char>),
    Other(Seq<char>),
}

impl View for SaveTokenError {
    type V = SaveErrorView;

    open spec fn view(&self) -> SaveErrorView {
        match self {
            SaveTokenError::CorruptedFile(m) => SaveErrorView::CorruptedFile(m@),
            SaveTokenError::Other(m) => SaveErrorView::Other(m@),
        }
    }
}

pub open spec fn save_error_text(e: SaveErrorView) -> Seq<char> {
    match e {
        SaveErrorView::CorruptedFile(m) => "corrupted credentials file: "@ + m,
        SaveErrorView::Other(m) => m,
    }
}

impl SaveTokenError {
    pub fn message(&self) -> (r: String)
        ensures
            r@ == save_error_text(self@),
    {
        match self {
            SaveTokenError::CorruptedFile(m) => "corrupted credentials file: ".to_owned().concat(
                m.as_str(),
            ),
            SaveTokenError::Other(m) => m.clone(),
        }
    }
}

/// What reading the file came to.
pub enum FileRead {
    /// It is not known where the file is.
    NoPath,
    /// There is no such file.
    Missing,
    Failed(String),
    /// What it holds are no tokens.
    NotParsed(String),
    Tokens(CredentialMap),
}

/// The tokens of the file, or why they are not known.
pub open spec fn file_map(read: FileRead, path: Seq<char>, bin: Seq<char>) -> Result<
    CredentialsView,
    LoadErrorView,
> {
    match read {
        FileRead::NoPath => Err(
            LoadErrorView::Config(
                "could not determine the credentials file path (is HOME/USERPROFILE set?)"@,
            ),
        ),
        FileRead::Missing => Ok(CredentialsView::empty()),
        FileRead::Failed(x) => Err(
            LoadErrorView::Io("could not read credentials file "@ + path + ": "@ + x@),
        ),
        FileRead::NotParsed(x) => Err(
            LoadErrorView::Parse(
                "credentials file "@ + path + " could not be parsed ("@ + x@
                    + ") - remove or fix it manually, then run `"@ + bin + " login` again"@,
            ),
        ),
        FileRead::Tokens(t) => Ok(t@),
    }
}

pub open spec fn map_result(r: Result<CredentialMap, LoadFileMapError>) -> Result<
    CredentialsView,
    LoadErrorView,
> {
    match r {
        Ok(m) => Ok(m@),
        Err(e) => Err(e@),
    }
}

/// The tokens of the file. Where there is no file there are none; a file that
/// cannot be read or understood is an error, so that it is not overwritten.
pub fn load_file_map(read: FileRead, path: &str, bin: &str) -> (r: Result<
    CredentialMap,
    LoadFileMapError,
>)
    ensures
        map_result(r) == file_map(read, path@, bin@),
{
    match read {
        FileRead::NoPath => Err(
            LoadFileMapError::Config(
                "could not determine the credentials file path (is HOME/USERPROFILE set?)".to_owned(),
            ),
        ),
        FileRead::Missing => Ok(TextMap::new()),
        FileRead::Failed(e) => Err(
            LoadFileMapError::Io(
                "could not read credentials file ".to_owned().concat(path).concat(": ").concat(
                    e.as_str(),
                ),
            ),
        ),
        FileRead::NotParsed(e) => Err(
            LoadFileMapError::Parse(
                "credentials file ".to_owned().concat(path).concat(
                    " could not be parsed (",
                ).concat(e.as_str()).concat(") - remove or fix it manually, then run `").concat(
                    bin,
                ).concat(" login` again"),
            ),
        ),
        FileRead::Tokens(m) => Ok(m),
    }
}

/// What storing a token in the keychain came to.
pub enum KeychainWrite {
    /// The keychain has no place for it.
    Unavailable(String),
    NotSerialized(String),
    Stored,
    Failed(String),
}

/// What happened to the file.
pub enum FileOutcome {
    Done,
    /// It was not there any more.
    Missing,
    Failed(String),
    NotSerialized(String),
    /// It is not known where the file is.
    NoPath,
}

/// How far the keeping of a token has come.
pub enum SaveState {
    /// The token is being stored in the keychain.
    Keychain(StoredToken),
    /// The keychain has it, and the file is looked into for an older one for
    /// this server.
    Tidying(String),
    /// The older one is being taken out of the file.
    Removing(String),
    /// The directory for the file is being made.
    Directory(StoredToken),
    /// The directory is being kept from others.
    Permissions(StoredToken),
    /// The file is being read.
    Loading(StoredToken),
    /// The file is being written.
    Writing,
    Over,
}

/// What happened.
pub enum SaveEvent {
    Keychain(KeychainWrite),
    /// It is not known where settings are kept.
    NoHome,
    /// The directory is there, or could not be made.
    DirectoryMade(Option<String>),
    /// The directory is kept from others, or could not be.
    Restricted(Option<String>),
    Loaded(Result<CredentialMap, LoadFileMapError>),
    File(FileOutcome),
}

/// What is done next.
pub enum SaveAction {
    MakeDirectory,
    RestrictDirectory,
    LoadFile,
    RemoveFile,
    /// Write these tokens, and remove before it what an interrupted write left
    /// behind, if so asked.
    WriteFile { tokens: CredentialMap, clean_up: bool },
    /// The token is kept.
    Done,
    Fail(SaveTokenError),
}

pub enum SaveActionView {
    MakeDirectory,
    RestrictDirectory,
    LoadFile,
    RemoveFile,
    WriteFile { tokens: CredentialsView, clean_up: bool },
    Done,
    Fail(SaveErrorView),
}

impl View for SaveAction {
    type V = SaveActionView;

    open spec fn view(&self) -> SaveActionView {
        match self {
            SaveAction::MakeDirectory => SaveActionView::MakeDirectory,
            SaveAction::RestrictDirectory => SaveActionView::RestrictDirectory,
            SaveAction::LoadFile => SaveActionView::LoadFile,
            SaveAction::RemoveFile => SaveActionView::RemoveFile,
            SaveAction::WriteFile { tokens, clean_up } => SaveActionView::WriteFile {
                tokens: tokens@,
                clean_up: *clean_up,
            },
            SaveAction::Done => SaveActionView::Done,
            SaveAction::Fail(e) => SaveActionView::Fail(e@),
        }
    }
}

/// What is done next, what is said before it, and the state then.
pub struct SaveStep {
    pub state: SaveState,
    pub action: SaveAction,
    pub said: Option<String>,
}

pub struct SaveStepView {
    pub state: SaveState,
    pub action: SaveActionView,
    pub said: Option<Seq<char>>,
}

impl View for SaveStep {
    type V = SaveStepView;

    open spec fn view(&self) -> SaveStepView {
        SaveStepView { state: self.state, action: self.action@, said: opt_text(self.said) }
    }
}

/// The events that can happen in a state.
pub open spec fn save_may_follow(state: SaveState, event: SaveEvent) -> bool {
    match state {
        SaveState::Keychain(_) => event is Keychain,
        SaveState::Tidying(_) => event is Loaded,
        SaveState::Removing(_) => event is File,
        SaveState::Directory(_) => event is NoHome || event is DirectoryMade,
        SaveState::Permissions(_) => event is Restricted,
        SaveState::Loading(_) => event is Loaded,
        SaveState::Writing => event matches SaveEvent::File(o) && !(o is Missing),
        SaveState::Over => false,
    }
}

pub open spec fn saving(
    state: SaveState,
    action: SaveActionView,
    said: Option<Seq<char>>,
) -> SaveStepView {
    SaveStepView { state, action, said }
}

pub open spec fn kept(said: Option<Seq<char>>) -> SaveStepView {
    saving(SaveState::Over, SaveActionView::Done, said)
}

pub open spec fn not_kept(message: Seq<char>) -> SaveStepView {
    saving(SaveState::Over, SaveActionView::Fail(SaveErrorView::Other(message)), None)
}

/// The keychain was tried.
pub open spec fn keychain_tried(stored: StoredToken, write: KeychainWrite) -> SaveStepView {
    match write {
        KeychainWrite::Stored => saving(
            SaveState::Tidying(stored.api_url),
            SaveActionView::LoadFile,
            None,
        ),
        KeychainWrite::NotSerialized(e) => not_kept("could not serialize token: "@ + e@),
        KeychainWrite::Unavailable(e) => saving(
            SaveState::Directory(stored),
            SaveActionView::MakeDirectory,
            Some(
                "Warning: could not construct a keyring entry ("@ + e@
                    + "); falling back to file."@,
            ),
        ),
        KeychainWrite::Failed(e) => saving(
            SaveState::Directory(stored),
            SaveActionView::MakeDirectory,
            Some(
                "Warning: could not store token in OS keychain ("@ + e@
                    + "); falling back to file."@,
            ),
        ),
    }
}

/// The keychain has the token: an older one for the same server goes from the
/// file, where there is one.
pub open spec fn tidied(api_url: String, loaded: Result<CredentialMap, LoadFileMapError>) -> SaveStepView {
    match loaded {
        Err(_) => kept(None),
        Ok(m) => if !m@.dom().contains(api_url@) {
            kept(None)
        } else if m@.remove(api_url@) == CredentialsView::empty() {
            saving(SaveState::Removing(api_url), SaveActionView::RemoveFile, None)
        } else {
            saving(
                SaveState::Removing(api_url),
                SaveActionView::WriteFile { tokens: m@.remove(api_url@), clean_up: false },
                None,
            )
        },
    }
}

/// What is said where an older token stayed in the file.
pub open spec fn stale_text(outcome: FileOutcome, api_url: Seq<char>) -> Option<Seq<char>> {
    match outcome {
        FileOutcome::Failed(e) => Some(
            "Warning: could not remove stale file-fallback entry for "@ + api_url
                + " after keychain write ("@ + e@
                + "); it may be served on a future keychain failure."@,
        ),
        FileOutcome::NotSerialized(e) => Some(
            "Warning: could not serialize file-fallback credentials while removing the stale entry for "@
                + api_url + " after keychain write ("@ + e@
                + "); it may be served on a future keychain failure."@,
        ),
        _ => None,
    }
}

/// The file was read: the token goes in among those that are there. A file
/// that does not hold tokens is left as it is.
pub open spec fn added(stored: StoredToken, loaded: Result<CredentialMap, LoadFileMapError>) -> SaveStepView {
    match loaded {
        Ok(m) => saving(
            SaveState::Writing,
            SaveActionView::WriteFile { tokens: with_token(m@, stored), clean_up: true },
            None,
        ),
        Err(e) => saving(
            SaveState::Over,
            SaveActionView::Fail(
                match e@ {
                    LoadErrorView::Parse(m) => SaveErrorView::CorruptedFile(m),
                    _ => SaveErrorView::Other(load_error_text(e@)),
                },
            ),
            None,
        ),
    }
}

/// The file was to be written.
pub open spec fn file_written(outcome: FileOutcome, path: Seq<char>) -> SaveStepView {
    match outcome {
        FileOutcome::Done => kept(
            Some(
                "Note: the OS keychain wasn't usable, storing the token in "@ + path
                    + " instead (permissions restricted to your user)."@,
            ),
        ),
        FileOutcome::Failed(e) => not_kept(e@),
        FileOutcome::NotSerialized(e) => not_kept("could not serialize credentials: "@ + e@),
        FileOutcome::Missing | FileOutcome::NoPath => not_kept(
            "could not determine credentials file path"@,
        ),
    }
}

/// What follows from an event.
pub open spec fn save_step(state: SaveState, event: SaveEvent, dir: Seq<char>, path: Seq<char>) -> SaveStepView {
    match (state, event) {
        (SaveState::Keychain(stored), SaveEvent::Keychain(w)) => keychain_tried(stored, w),
        (SaveState::Tidying(url), SaveEvent::Loaded(l)) => tidied(url, l),
        (SaveState::Removing(url), SaveEvent::File(o)) => kept(stale_text(o, url@)),
        (SaveState::Directory(_), SaveEvent::NoHome) => not_kept(
            "could not determine your home directory (no HOME/USERPROFILE set)"@,
        ),
        (SaveState::Directory(stored), SaveEvent::DirectoryMade(error)) => match error {
            Some(e) => not_kept("could not create config directory "@ + dir + ": "@ + e@),
            None => saving(
                SaveState::Permissions(stored),
                SaveActionView::RestrictDirectory,
                None,
            ),
        },
        (SaveState::Permissions(stored), SaveEvent::Restricted(error)) => saving(
            SaveState::Loading(stored),
            SaveActionView::LoadFile,
            match error {
                Some(e) => Some(
                    "Warning: could not set permissions on config directory "@ + dir + ": "@ + e@,
                ),
                None => None,
            },
        ),
        (SaveState::Loading(stored), SaveEvent::Loaded(l)) => added(stored, l),
        (SaveState::Writing, SaveEvent::File(o)) => file_written(o, path),
        _ => kept(None),
    }
}

fn go_on(state: SaveState, action: SaveAction, said: Option<String>) -> (r: SaveStep)
    ensures
        r@ == saving(state, action@, opt_text(said)),
{
    SaveStep { state, action, said }
}

fn end(said: Option<String>) -> (r: SaveStep)
    ensures
        r@ == kept(opt_text(said)),
{
    go_on(SaveState::Over, SaveAction::Done, said)
}

fn give_up(message: String) -> (r: SaveStep)
    ensures
        r@ == not_kept(message@),
{
    go_on(SaveState::Over, SaveAction::Fail(SaveTokenError::Other(message)), None)
}

fn try_keychain(stored: StoredToken, write: KeychainWrite) -> (r: SaveStep)
    ensures
        r@ == keychain_tried(stored, write),
{
    match write {
        KeychainWrite::Stored => go_on(
            SaveState::Tidying(stored.api_url),
            SaveAction::LoadFile,
            None,
        ),
        KeychainWrite::NotSerialized(e) => give_up(
            "could not serialize token: ".to_owned().concat(e.as_str()),
        ),
        KeychainWrite::Unavailable(e) => go_on(
            SaveState::Directory(stored),
            SaveAction::MakeDirectory,
            Some(
                "Warning: could not construct a keyring entry (".to_owned().concat(
                    e.as_str(),
                ).concat("); falling back to file."),
            ),
        ),
        KeychainWrite::Failed(e) => go_on(
            SaveState::Directory(stored),
            SaveAction::MakeDirectory,
            Some(
                "Warning: could not store token in OS keychain (".to_owned().concat(
                    e.as_str(),
                ).concat("); falling back to file."),
            ),
        ),
    }
}

fn remove_stale_file_entry(
    api_url: String,
    loaded: Result<CredentialMap, LoadFileMapError>,
) -> (r: SaveStep)
    ensures
        r@ == tidied(api_url, loaded),
{
    match loaded {
        Err(_) => end(None),
        Ok(m) => {
            let mut m = m;
            if m.remove(api_url.as_str()).is_none() {
                end(None)
            } else if m.is_empty() {
                go_on(SaveState::Removing(api_url), SaveAction::RemoveFile, None)
            } else {
                go_on(
                    SaveState::Removing(api_url),
                    SaveAction::WriteFile { tokens: m, clean_up: false },
                    None,
                )
            }
        },
    }
}

fn stale_warning(outcome: FileOutcome, api_url: &str) -> (r: Option<String>)
    ensures
        opt_text(r) == stale_text(outcome, api_url@),
{
    match outcome {
        FileOutcome::Failed(e) => Some(
            "Warning: could not remove stale file-fallback entry for ".to_owned().concat(
                api_url,
            ).concat(" after keychain write (").concat(e.as_str()).concat(
                "); it may be served on a future keychain failure.",
            ),
        ),
        FileOutcome::NotSerialized(e) => Some(
            "Warning: could not serialize file-fallback credentials while removing the stale entry for ".to_owned().concat(
                api_url,
            ).concat(" after keychain write (").concat(e.as_str()).concat(
                "); it may be served on a future keychain failure.",
            ),
        ),
        _ => None,
    }
}

fn save_to_file(stored: StoredToken, loaded: Result<CredentialMap, LoadFileMapError>) -> (r: SaveStep)
    ensures
        r@ == added(stored, loaded),
{
    match loaded {
        Ok(m) => {
            let mut m = m;
            let url = stored.api_url.clone();
            m.insert(url.as_str(), stored);
            go_on(SaveState::Writing, SaveAction::WriteFile { tokens: m, clean_up: true }, None)
        },
        Err(LoadFileMapError::Parse(m)) => go_on(
            SaveState::Over,
            SaveAction::Fail(SaveTokenError::CorruptedFile(m)),
            None,
        ),
        Err(e) => give_up(e.message()),
    }
}

fn finish_file(outcome: FileOutcome, path: &str) -> (r: SaveStep)
    ensures
        r@ == file_written(outcome, path@),
{
    match outcome {
        FileOutcome::Done => end(
            Some(
                "Note: the OS keychain wasn't usable, storing the token in ".to_owned().concat(
                    path,
                ).concat(" instead (permissions restricted to your user)."),
            ),
        ),
        FileOutcome::Failed(e) => give_up(e),
        FileOutcome::NotSerialized(e) => give_up(
            "could not serialize credentials: ".to_owned().concat(e.as_str()),
        ),
        FileOutcome::Missing | FileOutcome::NoPath => give_up(
            "could not determine credentials file path".to_owned(),
        ),
    }
}

/// One step of keeping a token: the keychain is tried first, and an older
/// token in the file then goes; where the keychain cannot be used the token
/// goes into the file, among those that are there. `dir` and `path` are where
/// the file is.
pub fn save(state: SaveState, event: SaveEvent, dir: &str, path: &str) -> (r: SaveStep)
    requires
        save_may_follow(state, event),
    ensures
        r@ == save_step(state, event, dir@, path@),
{
    match (state, event) {
        (SaveState::Keychain(stored), SaveEvent::Keychain(w)) => try_keychain(stored, w),
        (SaveState::Tidying(url), SaveEvent::Loaded(l)) => remove_stale_file_entry(url, l),
        (SaveState::Removing(url), SaveEvent::File(o)) => end(stale_warning(o, url.as_str())),
        (SaveState::Directory(_), SaveEvent::NoHome) => give_up(
            "could not determine your home directory (no HOME/USERPROFILE set)".to_owned(),
        ),
        (SaveState::Directory(stored), SaveEvent::DirectoryMade(error)) => match error {
            Some(e) => give_up(
                "could not create config directory ".to_owned().concat(dir).concat(": ").concat(
                    e.as_str(),
                ),
            ),
            None => go_on(SaveState::Permissions(stored), SaveAction::RestrictDirectory, None),
        },
        (SaveState::Permissions(stored), SaveEvent::Restricted(error)) => {
            let said = match error {
                Some(e) => Some(
                    "Warning: could not set permissions on config directory ".to_owned().concat(
                        dir,
                    ).concat(": ").concat(e.as_str()),
                ),
                None => None,
            };
            go_on(SaveState::Loading(stored), SaveAction::LoadFile, said)
        },
        (SaveState::Loading(stored), SaveEvent::Loaded(l)) => save_to_file(stored, l),
        (SaveState::Writing, SaveEvent::File(o)) => finish_file(o, path),
        _ => end(None),
    }
}

/// What reading a token from the keychain came to.
pub enum KeychainRead {
    Unavailable(String),
    Found(StoredToken),
    NotParsed(String),
    Absent,
    Failed(String),
}

/// How far the search for a token has come.
#[derive(Clone, Copy, Debug, PartialEq, Eq, Structural)]
pub enum LoadState {
    /// The keychain is asked.
    Keychain,
    /// The file is read.
    File,
    Over,
}

/// What happened.
pub enum LoadEvent {
    Keychain(KeychainRead),
    Loaded(Result<CredentialMap, LoadFileMapError>),
}

/// What is done next.
pub enum LoadAction {
    LoadFile,
    /// This is the token, if there is one.
    Answer(Option<StoredToken>),
}

/// What is done next, what is warned of before it, and the state then.
pub struct LoadStep {
    pub state: LoadState,
    pub action: LoadAction,
    pub warning: Option<String>,
}

pub struct LoadStepView {
    pub state: LoadState,
    pub action: LoadAction,
    pub warning: Option<Seq<char>>,
}

impl View for LoadStep {
    type V = LoadStepView;

    open spec fn view(&self) -> LoadStepView {
        LoadStepView { state: self.state, action: self.action, warning: opt_text(self.warning) }
    }
}

/// The events that can happen in a state.
pub open spec fn load_may_follow(state: LoadState, event: LoadEvent) -> bool {
    match state {
        LoadState::Keychain => event is Keychain,
        LoadState::File => event is Loaded,
        LoadState::Over => false,
    }
}

pub open spec fn answered(token: Option<StoredToken>, warning: Option<Seq<char>>) -> LoadStepView {
    LoadStepView { state: LoadState::Over, action: LoadAction::Answer(token), warning }
}

pub open spec fn look_into_file(warning: Option<Seq<char>>) -> LoadStepView {
    LoadStepView { state: LoadState::File, action: LoadAction::LoadFile, warning }
}

/// What follows from what the keychain says. An entry that cannot be
/// understood is not passed over for an older one in the file.
pub open spec fn keychain_asked(read: KeychainRead, api_url: Seq<char>, bin: Seq<char>) -> LoadStepView {
    match read {
        KeychainRead::Unavailable(e) => look_into_file(
            Some(
                "Warning: could not construct a keyring entry for "@ + api_url + " ("@ + e@
                    + "); falling back to file."@,
            ),
        ),
        KeychainRead::Found(t) => answered(Some(t), None),
        KeychainRead::NotParsed(e) => answered(
            None,
            Some(
                "Warning: keyring entry for "@ + api_url + " could not be parsed ("@ + e@
                    + ") - treating as not logged in. Run `"@ + bin + " logout` then `"@ + bin
                    + " login` again to recover."@,
            ),
        ),
        KeychainRead::Absent => look_into_file(None),
        KeychainRead::Failed(e) => look_into_file(
            Some(
                "Warning: could not read keyring entry for "@ + api_url + " ("@ + e@
                    + "); falling back to file."@,
            ),
        ),
    }
}

/// What follows from what the file holds.
pub open spec fn file_searched(
    loaded: Result<CredentialMap, LoadFileMapError>,
    api_url: Seq<char>,
) -> LoadStepView {
    match loaded {
        Ok(m) => answered(token_for(m@, api_url), None),
        Err(e) => answered(None, Some("Warning: "@ + load_error_text(e@))),
    }
}

/// What follows from an event.
pub open spec fn load_step(state: LoadState, event: LoadEvent, api_url: Seq<char>, bin: Seq<char>) -> LoadStepView {
    match (state, event) {
        (LoadState::Keychain, LoadEvent::Keychain(read)) => keychain_asked(read, api_url, bin),
        (LoadState::File, LoadEvent::Loaded(l)) => file_searched(l, api_url),
        _ => answered(None, None),
    }
}

fn answer_with(token: Option<StoredToken>, warning: Option<String>) -> (r: LoadStep)
    ensures
        r@ == answered(token, opt_text(warning)),
{
    LoadStep { state: LoadState::Over, action: LoadAction::Answer(token), warning }
}

fn use_file(warning: Option<String>) -> (r: LoadStep)
    ensures
        r@ == look_into_file(opt_text(warning)),
{
    LoadStep { state: LoadState::File, action: LoadAction::LoadFile, warning }
}

fn ask_keychain(read: KeychainRead, api_url: &str, bin: &str) -> (r: LoadStep)
    ensures
        r@ == keychain_asked(read, api_url@, bin@),
{
    match read {
        KeychainRead::Unavailable(e) => use_file(
            Some(
                "Warning: could not construct a keyring entry for ".to_owned().concat(
                    api_url,
                ).concat(" (").concat(e.as_str()).concat("); falling back to file."),
            ),
        ),
        KeychainRead::Found(t) => answer_with(Some(t), None),
        KeychainRead::NotParsed(e) => answer_with(
            None,
            Some(
                "Warning: keyring entry for ".to_owned().concat(api_url).concat(
                    " could not be parsed (",
                ).concat(e.as_str()).concat(") - treating as not logged in. Run `").concat(
                    bin,
                ).concat(" logout` then `").concat(bin).concat(" login` again to recover."),
            ),
        ),
        KeychainRead::Absent => use_file(None),
        KeychainRead::Failed(e) => use_file(
            Some(
                "Warning: could not read keyring entry for ".to_owned().concat(api_url).concat(
                    " (",
                ).concat(e.as_str()).concat("); falling back to file."),
            ),
        ),
    }
}

fn load_from_file(loaded: Result<CredentialMap, LoadFileMapError>, api_url: &str) -> (r: LoadStep)
    ensures
        r@ == file_searched(loaded, api_url@),
{
    match loaded {
        Ok(m) => {
            let mut m = m;
            answer_with(m.remove(api_url), None)
        },
        Err(e) => answer_with(None, Some("Warning: ".to_owned().concat(e.message().as_str()))),
    }
}

/// One step of looking for the token for a server: in the keychain first, and
/// in the file where the keychain has none that it can give.
pub fn load(state: LoadState, event: LoadEvent, api_url: &str, bin: &str) -> (r: LoadStep)
    requires
        load_may_follow(state, event),
    ensures
        r@ == load_step(state, event, api_url@, bin@),
{
    match (state, event) {
        (LoadState::Keychain, LoadEvent::Keychain(read)) => ask_keychain(read, api_url, bin),
        (LoadState::File, LoadEvent::Loaded(l)) => load_from_file(l, api_url),
        _ => answer_with(None, None),
    }
}

/// What removing a token from the keychain came to.
pub enum KeychainRemoval {
    Unavailable(String),
    Removed,
    Absent,
    Failed(String),
}

/// What is known once the keychain has been dealt with: whether a token was
/// removed, and whether one may still be there, because the keychain could not
/// be reached.
#[derive(Clone, Copy, Debug, PartialEq, Eq, Structural)]
pub struct Removal {
    pub removed_something: bool,
    pub keychain_delete_failed: bool,
}

/// How far the removal of a token has come.
#[derive(Clone, Copy, Debug, PartialEq, Eq, Structural)]
pub enum DeleteState {
    /// The token is being removed from the keychain.
    Keychain,
    /// The file is being read.
    Loading(Removal),
    /// The file is being removed.
    Removing,
    /// The file is being written without the token.
    Rewriting,
    Over,
}

/// What happened.
pub enum DeleteEvent {
    Keychain(KeychainRemoval),
    Loaded(Result<CredentialMap, LoadFileMapError>),
    File(FileOutcome),
}

/// What is done next.
pub enum DeleteAction {
    LoadFile,
    /// Remove the file: no other token is left in it.
    RemoveFile,
    /// Remove what an interrupted write left behind, and write what is left.
    WriteFile(CredentialMap),
    /// Whether there was a token, or why one may still be there.
    Answer(Result<bool, String>),
}

pub enum DeleteActionView {
    LoadFile,
    RemoveFile,
    WriteFile(CredentialsView),
    Answer(Result<bool, Seq<char>>),
}

pub open spec fn bool_result(r: Result<bool, String>) -> Result<bool, Seq<char>> {
    match r {
        Ok(b) => Ok(b),
        Err(e) => Err(e@),
    }
}

impl View for DeleteAction {
    type V = DeleteActionView;

    open spec fn view(&self) -> DeleteActionView {
        match self {
            DeleteAction::LoadFile => DeleteActionView::LoadFile,
            DeleteAction::RemoveFile => DeleteActionView::RemoveFile,
            DeleteAction::WriteFile(m) => DeleteActionView::WriteFile(m@),
            DeleteAction::Answer(r) => DeleteActionView::Answer(bool_result(*r)),
        }
    }
}

/// What is done next, what is warned of before it, and the state then.
pub struct DeleteStep {
    pub state: DeleteState,
    pub action: DeleteAction,
    pub warning: Option<String>,
}

pub struct DeleteStepView {
    pub state: DeleteState,
    pub action: DeleteActionView,
    pub warning: Option<Seq<char>>,
}

impl View for DeleteStep {
    type V = DeleteStepView;

    open spec fn view(&self) -> DeleteStepView {
        DeleteStepView { state: self.state, action: self.action@, warning: opt_text(self.warning) }
    }
}

/// The events that can happen in a state.
pub open spec fn delete_may_follow(state: DeleteState, event: DeleteEvent) -> bool {
    match state {
        DeleteState::Keychain => event is Keychain,
        DeleteState::Loading(_) => event is Loaded,
        DeleteState::Removing => event is File,
        DeleteState::Rewriting => event matches DeleteEvent::File(o) && !(o is Missing),
        DeleteState::Over => false,
    }
}

pub open spec fn deleting(
    state: DeleteState,
    action: DeleteActionView,
    warning: Option<Seq<char>>,
) -> DeleteStepView {
    DeleteStepView { state, action, warning }
}

pub open spec fn deleted(answer: Result<bool, Seq<char>>, warning: Option<Seq<char>>) -> DeleteStepView {
    deleting(DeleteState::Over, DeleteActionView::Answer(answer), warning)
}

/// What is answered where the file has no token: whether the keychain had one,
/// unless it may still have it.
pub open spec fn keychain_answer(removed_something: bool, keychain_delete_failed: bool) -> Result<
    bool,
    Seq<char>,
> {
    if keychain_delete_failed && !removed_something {
        Err(
            "the keychain credential could not be removed due to a transient error (see the warning above), and no file-fallback entry existed for this API URL - it may still be present in the keychain; try logout again"@,
        )
    } else {
        Ok(removed_something)
    }
}

/// What is answered where the file has no token.
pub fn keychain_delete_result(removed_something: bool, keychain_delete_failed: bool) -> (r: Result<
    bool,
    String,
>)
    ensures
        bool_result(r) == keychain_answer(removed_something, keychain_delete_failed),
{
    if keychain_delete_failed && !removed_something {
        Err(
            "the keychain credential could not be removed due to a transient error (see the warning above), and no file-fallback entry existed for this API URL - it may still be present in the keychain; try logout again".to_owned(),
        )
    } else {
        Ok(removed_something)
    }
}

/// What is known once the keychain has been dealt with.
pub open spec fn removal_from(removal: KeychainRemoval) -> Removal {
    Removal {
        removed_something: removal is Removed,
        keychain_delete_failed: removal is Failed || removal is Unavailable,
    }
}

pub open spec fn keychain_cleared(removal: KeychainRemoval) -> DeleteStepView {
    deleting(
        DeleteState::Loading(removal_from(removal)),
        DeleteActionView::LoadFile,
        match removal {
            KeychainRemoval::Unavailable(e) => Some(
                "Warning: could not construct a keyring entry ("@ + e@
                    + "); the keychain credential may not have been removed."@,
            ),
            KeychainRemoval::Failed(e) => Some("Warning: could not remove keyring entry: "@ + e@),
            _ => None,
        },
    )
}

/// What is answered where the keychain had no token and the file cannot tell.
pub open spec fn unread_text() -> Seq<char> {
    "the credentials file could not be read (see the warning above), so a token for this API URL may still be present in it; fix or remove the file and try logout again"@
}

/// What is done about the file once the keychain has been dealt with. Where
/// the file cannot be read and nothing was removed, it is not known whether
/// there was a token.
pub open spec fn file_opened(
    removal: Removal,
    loaded: Result<CredentialMap, LoadFileMapError>,
    api_url: Seq<char>,
) -> DeleteStepView {
    let answer = keychain_answer(removal.removed_something, removal.keychain_delete_failed);
    match loaded {
        Err(e) => deleted(
            if answer == Ok::<bool, Seq<char>>(false) {
                Err(unread_text())
            } else {
                answer
            },
            Some("Warning: "@ + load_error_text(e@)),
        ),
        Ok(m) => if !m@.dom().contains(api_url) {
            deleted(answer, None)
        } else if m@.remove(api_url) == CredentialsView::empty() {
            deleting(DeleteState::Removing, DeleteActionView::RemoveFile, None)
        } else {
            deleting(
                DeleteState::Rewriting,
                DeleteActionView::WriteFile(m@.remove(api_url)),
                None,
            )
        },
    }
}

pub open spec fn no_path_text() -> Seq<char> {
    "could not determine credentials file path to complete logout - the file-fallback entry for this API URL is still present on disk (only the in-memory copy was updated); set HOME/USERPROFILE and run logout again to actually remove it"@
}

/// The answer once the file was to be changed; `rewritten` says that other
/// tokens are left in it.
pub open spec fn file_changed(outcome: FileOutcome, rewritten: bool, path: Seq<char>) -> DeleteStepView {
    deleted(
        match outcome {
            FileOutcome::Done | FileOutcome::Missing => Ok(true),
            FileOutcome::Failed(e) => Err(
                if rewritten {
                    e@
                } else {
                    "could not remove credentials file "@ + path + ": "@ + e@
                },
            ),
            FileOutcome::NotSerialized(e) => Err(
                "could not serialize remaining credentials: "@ + e@,
            ),
            FileOutcome::NoPath => Err(no_path_text()),
        },
        None,
    )
}

/// What follows from an event.
pub open spec fn delete_step(
    state: DeleteState,
    event: DeleteEvent,
    api_url: Seq<char>,
    path: Seq<char>,
) -> DeleteStepView {
    match (state, event) {
        (DeleteState::Keychain, DeleteEvent::Keychain(k)) => keychain_cleared(k),
        (DeleteState::Loading(removal), DeleteEvent::Loaded(l)) => file_opened(removal, l, api_url),
        (DeleteState::Removing, DeleteEvent::File(o)) => file_changed(o, false, path),
        (DeleteState::Rewriting, DeleteEvent::File(o)) => file_changed(o, true, path),
        _ => deleted(Ok(false), None),
    }
}

fn answer_deletion(answer: Result<bool, String>, warning: Option<String>) -> (r: DeleteStep)
    ensures
        r@ == deleted(bool_result(answer), opt_text(warning)),
{
    DeleteStep { state: DeleteState::Over, action: DeleteAction::Answer(answer), warning }
}

fn note_keychain(removal: KeychainRemoval) -> (r: DeleteStep)
    ensures
        r@ == keychain_cleared(removal),
{
    let (removed_something, keychain_delete_failed, warning): (bool, bool, Option<String>) =
        match removal {
        KeychainRemoval::Unavailable(e) => (
            false,
            true,
            Some(
                "Warning: could not construct a keyring entry (".to_owned().concat(
                    e.as_str(),
                ).concat("); the keychain credential may not have been removed."),
            ),
        ),
        KeychainRemoval::Removed => (true, false, None),
        KeychainRemoval::Absent => (false, false, None),
        KeychainRemoval::Failed(e) => (
            false,
            true,
            Some("Warning: could not remove keyring entry: ".to_owned().concat(e.as_str())),
        ),
    };
    DeleteStep {
        state: DeleteState::Loading(Removal { removed_something, keychain_delete_failed }),
        action: DeleteAction::LoadFile,
        warning,
    }
}

fn remove_from_file(
    removal: Removal,
    loaded: Result<CredentialMap, LoadFileMapError>,
    api_url: &str,
) -> (r: DeleteStep)
    ensures
        r@ == file_opened(removal, loaded, api_url@),
{
    let answer = keychain_delete_result(removal.removed_something, removal.keychain_delete_failed);
    match loaded {
        Err(e) => {
            let answer = match answer {
                Ok(false) => Err(
                    "the credentials file could not be read (see the warning above), so a token for this API URL may still be present in it; fix or remove the file and try logout again".to_owned(),
                ),
                other => other,
            };
            answer_deletion(answer, Some("Warning: ".to_owned().concat(e.message().as_str())))
        },
        Ok(m) => {
            let mut m = m;
            if m.remove(api_url).is_none() {
                answer_deletion(answer, None)
            } else if m.is_empty() {
                DeleteStep {
                    state: DeleteState::Removing,
                    action: DeleteAction::RemoveFile,
                    warning: None,
                }
            } else {
                DeleteStep {
                    state: DeleteState::Rewriting,
                    action: DeleteAction::WriteFile(m),
                    warning: None,
                }
            }
        },
    }
}

fn finish_deletion(outcome: FileOutcome, rewritten: bool, path: &str) -> (r: DeleteStep)
    ensures
        r@ == file_changed(outcome, rewritten, path@),
{
    let answer = match outcome {
        FileOutcome::Done | FileOutcome::Missing => Ok(true),
        FileOutcome::Failed(e) => if rewritten {
            Err(e)
        } else {
            Err(
                "could not remove credentials file ".to_owned().concat(path).concat(": ").concat(
                    e.as_str(),
                ),
            )
        },
        FileOutcome::NotSerialized(e) => Err(
            "could not serialize remaining credentials: ".to_owned().concat(e.as_str()),
        ),
        FileOutcome::NoPath => Err(
            "could not determine credentials file path to complete logout - the file-fallback entry for this API URL is still present on disk (only the in-memory copy was updated); set HOME/USERPROFILE and run logout again to actually remove it".to_owned(),
        ),
    };
    answer_deletion(answer, None)
}

/// One step of removing the token for a server: from the keychain, and then
/// from the file, whose other tokens stay. A keychain that fails does not stop
/// the removal from the file.
pub fn delete(state: DeleteState, event: DeleteEvent, api_url: &str, path: &str) -> (r: DeleteStep)
    requires
        delete_may_follow(state, event),
    ensures
        r@ == delete_step(state, event, api_url@, path@),
{
    match (state, event) {
        (DeleteState::Keychain, DeleteEvent::Keychain(k)) => note_keychain(k),
        (DeleteState::Loading(removal), DeleteEvent::Loaded(l)) => remove_from_file(
            removal,
            l,
            api_url,
        ),
        (DeleteState::Removing, DeleteEvent::File(o)) => finish_deletion(o, false, path),
        (DeleteState::Rewriting, DeleteEvent::File(o)) => finish_deletion(o, true, path),
        _ => answer_deletion(Ok(false), None),
    }
}

/// A token that was written to the file is found there again, and what was
/// kept for other servers is found as before.
pub proof fn law_kept_token_is_found(
    stored: StoredToken,
    before: CredentialMap,
    after: CredentialMap,
    dir: Seq<char>,
    path: Seq<char>,
    bin: Seq<char>,
    other: Seq<char>,
)
    requires
        save_step(
            SaveState::Loading(stored),
            SaveEvent::Loaded(Ok(before)),
            dir,
            path,
        ).action == (SaveActionView::WriteFile { tokens: after@, clean_up: true }),
    ensures
        load_step(LoadState::File, LoadEvent::Loaded(Ok(after)), stored.api_url@, bin).action
            == LoadAction::Answer(Some(stored)),
        other != stored.api_url@ ==> load_step(
            LoadState::File,
            LoadEvent::Loaded(Ok(after)),
            other,
            bin,
        ).action == load_step(LoadState::File, LoadEvent::Loaded(Ok(before)), other, bin).action,
{
}

/// A token that was removed from the file, or had to give way to one in the
/// keychain, is not found there any more, and what was kept for other servers
/// is found as before. Where the whole file goes there was nothing else in it.
pub proof fn law_removed_token_is_gone(
    url: String,
    removal: Removal,
    before: CredentialMap,
    dir: Seq<char>,
    path: Seq<char>,
    other: Seq<char>,
)
    ensures
        match delete_step(
            DeleteState::Loading(removal),
            DeleteEvent::Loaded(Ok(before)),
            url@,
            path,
        ).action {
            DeleteActionView::WriteFile(after) => token_for(after, url@) is None && (other != url@
                ==> token_for(after, other) == token_for(before@, other)),
            DeleteActionView::RemoveFile => other != url@ ==> token_for(before@, other) is None,
            _ => token_for(before@, url@) is None,
        },
        match save_step(SaveState::Tidying(url), SaveEvent::Loaded(Ok(before)), dir, path).action {
            SaveActionView::WriteFile { tokens: after, .. } => token_for(after, url@) is None && (
            other != url@ ==> token_for(after, other) == token_for(before@, other)),
            SaveActionView::RemoveFile => other != url@ ==> token_for(before@, other) is None,
            _ => token_for(before@, url@) is None,
        },
{
    let rest = before@.remove(url@);
    if other != url@ && before@.dom().contains(other) {
        assert(rest.dom().contains(other));
    }
}

/// The file is written or removed only where it has been read and holds
/// tokens: one that cannot be read or understood is left to the user.
pub proof fn law_unreadable_file_is_left_alone(
    save: SaveState,
    save_event: SaveEvent,
    remove: DeleteState,
    remove_event: DeleteEvent,
    dir: Seq<char>,
    path: Seq<char>,
    url: Seq<char>,
)
    ensures
        match save_step(save, save_event, dir, path).action {
            SaveActionView::WriteFile { .. } | SaveActionView::RemoveFile => save_event matches SaveEvent::Loaded(
                l,
            ) && l is Ok,
            _ => true,
        },
        match delete_step(remove, remove_event, url, path).action {
            DeleteActionView::WriteFile(_) | DeleteActionView::RemoveFile => remove_event matches DeleteEvent::Loaded(
                l,
            ) && l is Ok,
            _ => true,
        },
{
}

/// A token counts as kept only where the keychain has stored it or the file
/// was written with it.
pub proof fn law_done_means_kept(state: SaveState, event: SaveEvent, dir: Seq<char>, path: Seq<char>)
    requires
        save_may_follow(state, event),
    ensures
        save_step(state, event, dir, path).action is Done ==> state is Tidying || state is Removing
            || (state is Writing && event->File_0 is Done),
        save_step(state, event, dir, path).state is Tidying ==> event == SaveEvent::Keychain(
            KeychainWrite::Stored,
        ),
        save_step(state, event, dir, path).state is Removing ==> state is Tidying,
        save_step(state, event, dir, path).state is Writing ==> state is Loading,
{
}

/// The token of the keychain is the one that is found, whatever the file holds;
/// and the file is asked only where the keychain gave no entry.
pub proof fn law_keychain_comes_first(read: KeychainRead, url: Seq<char>, bin: Seq<char>)
    ensures
        match load_step(LoadState::Keychain, LoadEvent::Keychain(read), url, bin).action {
            LoadAction::Answer(t) => read matches KeychainRead::Found(x) && t == Some(x)
                || read is NotParsed && t is None,
            LoadAction::LoadFile => read is Unavailable || read is Absent || read is Failed,
        },
{
}

/// That nothing was there is said only where neither store had a token for the
/// server: the keychain says that it has no entry, and the file was read and
/// has none either.
pub proof fn law_nothing_removed_is_certain(
    removal: KeychainRemoval,
    loaded: Result<CredentialMap, LoadFileMapError>,
    url: Seq<char>,
    path: Seq<char>,
)
    ensures
        ({
            let first = delete_step(
                DeleteState::Keychain,
                DeleteEvent::Keychain(removal),
                url,
                path,
            );
            let second = delete_step(first.state, DeleteEvent::Loaded(loaded), url, path);
            second.action == DeleteActionView::Answer(Ok(false)) <==> removal is Absent && (
            loaded matches Ok(m) && token_for(m@, url) is None)
        }),
{
}

/// That a token was removed is said only where the keychain removed one, or the
/// file was changed to hold none for the server any more.
pub proof fn law_removed_means_removed(
    removal: Removal,
    loaded: Result<CredentialMap, LoadFileMapError>,
    state: DeleteState,
    outcome: FileOutcome,
    url: Seq<char>,
    path: Seq<char>,
)
    requires
        delete_may_follow(state, DeleteEvent::File(outcome)),
    ensures
        delete_step(
            DeleteState::Loading(removal),
            DeleteEvent::Loaded(loaded),
            url,
            path,
        ).action == DeleteActionView::Answer(Ok(true)) ==> removal.removed_something && (
        loaded matches Ok(m) ==> token_for(m@, url) is None),
        delete_step(state, DeleteEvent::File(outcome), url, path).action
            == DeleteActionView::Answer(Ok(true)) ==> outcome is Done || (outcome is Missing
            && state is Removing),
{
}

/// One token is kept for each server: a new one takes the place of the old one
/// for its server and of no other.
pub proof fn law_one_token_for_each_server(m: CredentialsView, t: StoredToken, other: Seq<char>)
    ensures
        token_for(with_token(m, t), t.api_url@) == Some(t),
        other != t.api_url@ ==> token_for(with_token(m, t), other) == token_for(m, other),
        token_for(CredentialsView::empty(), other) is None,
        KEYRING_SERVICE@ == "klaay-cli"@,
{
}

/// Where there is no file there are no tokens; what is in it is what is read;
/// and a file that cannot be read or understood is an error, never an empty
/// one.
pub proof fn law_files_are_read_as_they_are(read: FileRead, path: Seq<char>, bin: Seq<char>)
    ensures
        read is Missing ==> file_map(read, path, bin) == Ok::<CredentialsView, LoadErrorView>(
            CredentialsView::empty(),
        ),
        read matches FileRead::Tokens(t) ==> file_map(read, path, bin) == Ok::<
            CredentialsView,
            LoadErrorView,
        >(t@),
        read is Failed ==> (file_map(read, path, bin) matches Err(e) && e is Io),
        read is NotParsed ==> (file_map(read, path, bin) matches Err(e) && e is Parse),
        read is NoPath ==> (file_map(read, path, bin) matches Err(e) && e is Config),
{
}

/// A token is kept from step to step: in the keychain, or, where that cannot be
/// used, in the file, with the directory made and closed before it. What cannot
/// be kept is told.
pub proof fn law_token_is_kept(
    stored: StoredToken,
    write: KeychainWrite,
    error: Option<String>,
    loaded: Result<CredentialMap, LoadFileMapError>,
    outcome: FileOutcome,
    dir: Seq<char>,
    path: Seq<char>,
    other: Seq<char>,
)
    ensures
        ({
            let tried = save_step(
                SaveState::Keychain(stored),
                SaveEvent::Keychain(write),
                dir,
                path,
            );
            &&& write is Stored ==> tried.state == SaveState::Tidying(stored.api_url)
                && tried.action == SaveActionView::LoadFile && tried.said is None
            &&& write is Unavailable || write is Failed ==> tried.state == SaveState::Directory(
                stored,
            ) && tried.action == SaveActionView::MakeDirectory && tried.said is Some
            &&& write is NotSerialized ==> tried.action is Fail
        }),
        ({
            let made = save_step(
                SaveState::Directory(stored),
                SaveEvent::DirectoryMade(error),
                dir,
                path,
            );
            &&& error is None ==> made.state == SaveState::Permissions(stored) && made.action
                == SaveActionView::RestrictDirectory
            &&& error is Some ==> made.action is Fail
        }),
        save_step(SaveState::Directory(stored), SaveEvent::NoHome, dir, path).action is Fail,
        ({
            let closed = save_step(
                SaveState::Permissions(stored),
                SaveEvent::Restricted(error),
                dir,
                path,
            );
            &&& closed.state == SaveState::Loading(stored) && closed.action
                == SaveActionView::LoadFile
            &&& closed.said is Some <==> error is Some
        }),
        ({
            let read = save_step(SaveState::Loading(stored), SaveEvent::Loaded(loaded), dir, path);
            match loaded {
                Ok(m) => {
                    &&& read.state == SaveState::Writing
                    &&& read.action matches SaveActionView::WriteFile { tokens, clean_up }
                    &&& clean_up
                    &&& token_for(tokens, stored.api_url@) == Some(stored)
                    &&& other != stored.api_url@ ==> token_for(tokens, other) == token_for(
                        m@,
                        other,
                    )
                },
                Err(e) => {
                    &&& e@ matches LoadErrorView::Parse(m) ==> read.action == SaveActionView::Fail(
                        SaveErrorView::CorruptedFile(m),
                    )
                    &&& !(e@ is Parse) ==> read.action == SaveActionView::Fail(
                        SaveErrorView::Other(load_error_text(e@)),
                    )
                },
            }
        }),
        ({
            let end = save_step(SaveState::Writing, SaveEvent::File(outcome), dir, path);
            &&& outcome is Done ==> end.action == SaveActionView::Done && end.said == Some(
                "Note: the OS keychain wasn't usable, storing the token in "@ + path
                    + " instead (permissions restricted to your user)."@,
            )
            &&& !(outcome is Done) ==> end.action is Fail
        }),
{
}

/// Once the keychain has a token, the file loses the one for that server and
/// the token counts as kept, whatever becomes of the file; that an older one
/// may have stayed is told.
pub proof fn law_file_gives_way_to_the_keychain(
    url: String,
    other: Seq<char>,
    loaded: Result<CredentialMap, LoadFileMapError>,
    outcome: FileOutcome,
    dir: Seq<char>,
    path: Seq<char>,
)
    ensures
        ({
            let step = save_step(SaveState::Tidying(url), SaveEvent::Loaded(loaded), dir, path);
            match loaded {
                Err(_) => step.action == SaveActionView::Done,
                Ok(m) => {
                    &&& token_for(m@, url@) is None ==> step.action == SaveActionView::Done
                    &&& token_for(m@, url@) is Some ==> step.state == SaveState::Removing(url) && (
                    step.action is RemoveFile || (step.action matches SaveActionView::WriteFile {
                        tokens,
                        clean_up,
                    } && !clean_up && token_for(tokens, url@) is None && (other != url@
                        ==> token_for(tokens, other) == token_for(m@, other))))
                    &&& token_for(m@, url@) is Some && other != url@ && token_for(m@, other) is Some
                        ==> step.action is WriteFile
                },
            }
        }),
        ({
            let step = save_step(SaveState::Removing(url), SaveEvent::File(outcome), dir, path);
            &&& step.action == SaveActionView::Done
            &&& step.said is Some <==> outcome is Failed || outcome is NotSerialized
        }),
{
    if let Ok(m) = loaded {
        if m@.dom().contains(other) && other != url@ {
            assert(m@.remove(url@).dom().contains(other));
        }
    }
}

/// The token for a server is what the file holds for it, where the file is
/// asked; a file that cannot be read gives none, and that is told.
pub proof fn law_file_is_searched(
    loaded: Result<CredentialMap, LoadFileMapError>,
    url: Seq<char>,
    bin: Seq<char>,
)
    ensures
        ({
            let step = load_step(LoadState::File, LoadEvent::Loaded(loaded), url, bin);
            match loaded {
                Ok(m) => step.action == LoadAction::Answer(token_for(m@, url)) && step.warning
                    is None,
                Err(e) => step.action == LoadAction::Answer(None) && step.warning == Some(
                    "Warning: "@ + load_error_text(e@),
                ),
            }
        }),
{
}

/// What the keychain says is passed on: its token, or that the file is asked,
/// with a warning where the keychain could not be used.
pub proof fn law_keychain_is_asked(read: KeychainRead, url: Seq<char>, bin: Seq<char>)
    ensures
        ({
            let step = load_step(LoadState::Keychain, LoadEvent::Keychain(read), url, bin);
            &&& read matches KeychainRead::Found(t) ==> step.action == LoadAction::Answer(Some(t))
            &&& read is Absent || read is Failed || read is Unavailable ==> step.action
                == LoadAction::LoadFile && step.state == LoadState::File
            &&& read is NotParsed ==> step.action == LoadAction::Answer(None)
            &&& step.warning is Some <==> read is Failed || read is Unavailable || read is NotParsed
        }),
{
}

/// A token is removed from both stores: the file is looked into whatever the
/// keychain said, and loses the token where it has it. What could not be
/// removed is told.
pub proof fn law_token_is_removed(
    removal: KeychainRemoval,
    known: Removal,
    m: CredentialMap,
    outcome: FileOutcome,
    url: Seq<char>,
    path: Seq<char>,
)
    ensures
        ({
            let step = delete_step(
                DeleteState::Keychain,
                DeleteEvent::Keychain(removal),
                url,
                path,
            );
            &&& step.action == DeleteActionView::LoadFile
            &&& step.state matches DeleteState::Loading(k)
            &&& k.removed_something <==> removal is Removed
            &&& k.keychain_delete_failed <==> removal is Failed || removal is Unavailable
            &&& step.warning is Some <==> removal is Failed || removal is Unavailable
        }),
        ({
            let step = delete_step(
                DeleteState::Loading(known),
                DeleteEvent::Loaded(Ok(m)),
                url,
                path,
            );
            &&& token_for(m@, url) is Some ==> step.action is RemoveFile && step.state
                == DeleteState::Removing || step.action is WriteFile && step.state
                == DeleteState::Rewriting
            &&& token_for(m@, url) is None && known.removed_something ==> step.action
                == DeleteActionView::Answer(Ok(true))
            &&& token_for(m@, url) is None && !known.removed_something
                && known.keychain_delete_failed ==> (step.action matches DeleteActionView::Answer(a)
                && a is Err)
        }),
        ({
            let gone = delete_step(DeleteState::Removing, DeleteEvent::File(outcome), url, path);
            let cut = delete_step(DeleteState::Rewriting, DeleteEvent::File(outcome), url, path);
            &&& outcome is Done ==> gone.action == DeleteActionView::Answer(Ok(true)) && cut.action
                == DeleteActionView::Answer(Ok(true))
            &&& outcome is Missing ==> gone.action == DeleteActionView::Answer(Ok(true))
            &&& outcome is Failed || outcome is NotSerialized || outcome is NoPath ==> (
            gone.action matches DeleteActionView::Answer(a) && a is Err) && (
            cut.action matches DeleteActionView::Answer(b) && b is Err)
        }),
{
}

/// The texts of the errors keep what they were made of.
pub proof fn law_error_texts(m: Seq<char>)
    ensures
        load_error_text(LoadErrorView::Io(m)) == "I/O error: "@ + m,
        load_error_text(LoadErrorView::Parse(m)) == "parse error: "@ + m,
        load_error_text(LoadErrorView::Config(m)) == "configuration error: "@ + m,
        save_error_text(SaveErrorView::CorruptedFile(m)) == "corrupted credentials file: "@ + m,
        save_error_text(SaveErrorView::Other(m)) == m,
{
}

/// What goes wrong with the file or the keychain is told with its cause, and
/// with the file, the directory or the server that it is about.
pub proof fn law_causes_of_reading_are_told(x: String, path: Seq<char>, url: Seq<char>, bin: Seq<char>)
    ensures
        file_map(FileRead::Failed(x), path, bin) == Err::<CredentialsView, LoadErrorView>(
            LoadErrorView::Io("could not read credentials file "@ + path + ": "@ + x@),
        ),
        file_map(FileRead::NotParsed(x), path, bin) == Err::<CredentialsView, LoadErrorView>(
            LoadErrorView::Parse(
                "credentials file "@ + path + " could not be parsed ("@ + x@
                    + ") - remove or fix it manually, then run `"@ + bin + " login` again"@,
            ),
        ),
        load_step(
            LoadState::Keychain,
            LoadEvent::Keychain(KeychainRead::Unavailable(x)),
            url,
            bin,
        ).warning == Some(
            "Warning: could not construct a keyring entry for "@ + url + " ("@ + x@
                + "); falling back to file."@,
        ),
        load_step(
            LoadState::Keychain,
            LoadEvent::Keychain(KeychainRead::Failed(x)),
            url,
            bin,
        ).warning == Some(
            "Warning: could not read keyring entry for "@ + url + " ("@ + x@
                + "); falling back to file."@,
        ),
        load_step(
            LoadState::Keychain,
            LoadEvent::Keychain(KeychainRead::NotParsed(x)),
            url,
            bin,
        ).warning == Some(
            "Warning: keyring entry for "@ + url + " could not be parsed ("@ + x@
                + ") - treating as not logged in. Run `"@ + bin + " logout` then `"@ + bin
                + " login` again to recover."@,
        ),
{
}

/// What keeps a token from being stored is told with its cause.
pub proof fn law_causes_of_saving_are_told(
    stored: StoredToken,
    url: String,
    x: String,
    dir: Seq<char>,
    path: Seq<char>,
)
    ensures
        save_step(
            SaveState::Keychain(stored),
            SaveEvent::Keychain(KeychainWrite::NotSerialized(x)),
            dir,
            path,
        ).action == SaveActionView::Fail(
            SaveErrorView::Other("could not serialize token: "@ + x@),
        ),
        save_step(
            SaveState::Keychain(stored),
            SaveEvent::Keychain(KeychainWrite::Unavailable(x)),
            dir,
            path,
        ).said == Some(
            "Warning: could not construct a keyring entry ("@ + x@ + "); falling back to file."@,
        ),
        save_step(
            SaveState::Keychain(stored),
            SaveEvent::Keychain(KeychainWrite::Failed(x)),
            dir,
            path,
        ).said == Some(
            "Warning: could not store token in OS keychain ("@ + x@ + "); falling back to file."@,
        ),
        save_step(
            SaveState::Directory(stored),
            SaveEvent::DirectoryMade(Some(x)),
            dir,
            path,
        ).action == SaveActionView::Fail(
            SaveErrorView::Other("could not create config directory "@ + dir + ": "@ + x@),
        ),
        save_step(
            SaveState::Permissions(stored),
            SaveEvent::Restricted(Some(x)),
            dir,
            path,
        ).said == Some(
            "Warning: could not set permissions on config directory "@ + dir + ": "@ + x@,
        ),
        save_step(SaveState::Writing, SaveEvent::File(FileOutcome::Failed(x)), dir, path).action
            == SaveActionView::Fail(SaveErrorView::Other(x@)),
        save_step(
            SaveState::Writing,
            SaveEvent::File(FileOutcome::NotSerialized(x)),
            dir,
            path,
        ).action == SaveActionView::Fail(
            SaveErrorView::Other("could not serialize credentials: "@ + x@),
        ),
        save_step(
            SaveState::Removing(url),
            SaveEvent::File(FileOutcome::Failed(x)),
            dir,
            path,
        ).said == Some(
            "Warning: could not remove stale file-fallback entry for "@ + url@
                + " after keychain write ("@ + x@
                + "); it may be served on a future keychain failure."@,
        ),
        save_step(
            SaveState::Removing(url),
            SaveEvent::File(FileOutcome::NotSerialized(x)),
            dir,
            path,
        ).said == Some(
            "Warning: could not serialize file-fallback credentials while removing the stale entry for "@
                + url@ + " after keychain write ("@ + x@
                + "); it may be served on a future keychain failure."@,
        ),
{
}

/// What keeps a token from being removed is told with its cause; the message of
/// a failed rewriting is passed on as it is.
pub proof fn law_causes_of_removing_are_told(x: String, url: Seq<char>, path: Seq<char>)
    ensures
        delete_step(
            DeleteState::Keychain,
            DeleteEvent::Keychain(KeychainRemoval::Failed(x)),
            url,
            path,
        ).warning == Some("Warning: could not remove keyring entry: "@ + x@),
        delete_step(
            DeleteState::Keychain,
            DeleteEvent::Keychain(KeychainRemoval::Unavailable(x)),
            url,
            path,
        ).warning == Some(
            "Warning: could not construct a keyring entry ("@ + x@
                + "); the keychain credential may not have been removed."@,
        ),
        delete_step(
            DeleteState::Removing,
            DeleteEvent::File(FileOutcome::Failed(x)),
            url,
            path,
        ).action == DeleteActionView::Answer(
            Err("could not remove credentials file "@ + path + ": "@ + x@),
        ),
        delete_step(
            DeleteState::Rewriting,
            DeleteEvent::File(FileOutcome::Failed(x)),
            url,
            path,
        ).action == DeleteActionView::Answer(Err(x@)),
        delete_step(
            DeleteState::Rewriting,
            DeleteEvent::File(FileOutcome::NotSerialized(x)),
            url,
            path,
        ).action == DeleteActionView::Answer(
            Err("could not serialize remaining credentials: "@ + x@),
        ),
{
}

} // verus!
