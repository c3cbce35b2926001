//! What the caller is told of the signing keys and of the operations on
//! the keyring.
//!
//! The operations themselves run outside this library, supervised by a
//! task that forwards a cancellation request to them. What is decided here
//! is what each of their reports and outcomes means to the caller.

use vstd::prelude::*;
use vstd::string::*;

use crate::events::{
    complete, complete_view, event_of, log, log_view, text_of, StreamEvent, StreamEventView,
};
use crate::text::{concat, concat3, decimal, decimal_string, octal, octal_string, views};

verus! {

/// Seconds allowed for refreshing the keys.
pub const REFRESH_TIMEOUT_SECS: u64 = 600;

/// Seconds allowed for creating the keyring.
pub const INIT_TIMEOUT_SECS: u64 = 120;

/// Seconds allowed for filling the keyring.
pub const POPULATE_TIMEOUT_SECS: u64 = 300;

/// Milliseconds between two looks of the supervisor at the cancellation
/// flag.
pub const SUPERVISOR_POLL_MILLIS: u64 = 100;

/// How far a key is held to belong to whom it names.
#[derive(Debug, Clone, Copy, PartialEq, Eq, Structural)]
pub enum KeyTrust {
    Unknown,
    Undefined,
    Never,
    Marginal,
    Full,
    Ultimate,
    Expired,
    Revoked,
    /// A level that this library has no name for.
    Other,
}

/// The name of a level of trust.
pub open spec fn trust_name(trust: KeyTrust) -> Seq<char> {
    match trust {
        KeyTrust::Unknown => "unknown"@,
        KeyTrust::Undefined => "undefined"@,
        KeyTrust::Never => "never"@,
        KeyTrust::Marginal => "marginal"@,
        KeyTrust::Full => "full"@,
        KeyTrust::Ultimate => "ultimate"@,
        KeyTrust::Expired => "expired"@,
        KeyTrust::Revoked => "revoked"@,
        KeyTrust::Other => "unknown"@,
    }
}

/// The name of a level of trust.
pub fn validity_to_string(trust: KeyTrust) -> (name: &'static str)
    ensures
        name@ == trust_name(trust),
{
    match trust {
        KeyTrust::Unknown => "unknown",
        KeyTrust::Undefined => "undefined",
        KeyTrust::Never => "never",
        KeyTrust::Marginal => "marginal",
        KeyTrust::Full => "full",
        KeyTrust::Ultimate => "ultimate",
        KeyTrust::Expired => "expired",
        KeyTrust::Revoked => "revoked",
        KeyTrust::Other => "unknown",
    }
}

/// What a look at the keyring directory found.
#[derive(Debug, Clone, PartialEq, Eq)]
pub enum KeyringState {
    Ready,
    DirectoryMissing,
    PathIsSymlink,
    /// The directory has the permission bits `actual`.
    IncorrectPermissions { actual: u32 },
    NoKeyringFiles,
    NoTrustDb,
    /// A state that this library has no name for, as the text given.
    Other(String),
    /// The look failed with the text given.
    Unreadable(String),
}

/// Whether the keyring can be used in the given state. A directory with
/// wrong permissions still can.
pub open spec fn keyring_usable(state: KeyringState) -> bool {
    state is Ready || state is IncorrectPermissions
}

/// The warning that goes with a state, where one does.
pub open spec fn keyring_warning(state: KeyringState) -> Option<Seq<char>> {
    match state {
        KeyringState::Ready => None,
        KeyringState::DirectoryMissing => Some(
            "Keyring not initialized. Run 'pacman-key --init' to initialize."@,
        ),
        KeyringState::PathIsSymlink => Some(
            "Security warning: keyring path is a symlink. This may be unsafe."@,
        ),
        KeyringState::IncorrectPermissions { actual } => Some(
            "Keyring directory has incorrect permissions: "@ + octal(actual as nat)
                + " (expected 700)"@,
        ),
        KeyringState::NoKeyringFiles => Some("Keyring directory exists but contains no keys."@),
        KeyringState::NoTrustDb => Some("Keyring missing trust database."@),
        KeyringState::Other(text) => Some("Keyring status: "@ + text@),
        KeyringState::Unreadable(error) => Some("Failed to check keyring status: "@ + error@),
    }
}

/// Whether the keyring can be used, and the warning that goes with its
/// state.
pub fn keyring_verdict(state: &KeyringState) -> (r: (bool, Option<String>))
    ensures
        r.0 == keyring_usable(*state),
        text_of(r.1) == keyring_warning(*state),
{
    match state {
        KeyringState::Ready => (true, None),
        KeyringState::DirectoryMissing => (
            false,
            Some(
                String::from_str("Keyring not initialized. Run 'pacman-key --init' to initialize."),
            ),
        ),
        KeyringState::PathIsSymlink => (
            false,
            Some(
                String::from_str(
                    "Security warning: keyring path is a symlink. This may be unsafe.",
                ),
            ),
        ),
        KeyringState::IncorrectPermissions { actual } => {
            let bits = octal_string(*actual as u64);
            (
                true,
                Some(
                    concat3(
                        "Keyring directory has incorrect permissions: ",
                        bits.as_str(),
                        " (expected 700)",
                    ),
                ),
            )
        },
        KeyringState::NoKeyringFiles => (
            false,
            Some(String::from_str("Keyring directory exists but contains no keys.")),
        ),
        KeyringState::NoTrustDb => (
            false,
            Some(String::from_str("Keyring missing trust database.")),
        ),
        KeyringState::Other(text) => (false, Some(concat("Keyring status: ", text.as_str()))),
        KeyringState::Unreadable(error) => (
            false,
            Some(concat("Failed to check keyring status: ", error.as_str())),
        ),
    }
}

/// A key as the keyring lists it, with its dates as texts.
#[derive(Debug, Clone, PartialEq, Eq)]
pub struct KeyRecord {
    pub fingerprint: String,
    pub uid: String,
    pub created: Option<String>,
    pub expires: Option<String>,
    pub validity: KeyTrust,
}

/// A key as the caller is told of it.
#[derive(Debug, Clone, PartialEq, Eq)]
pub struct KeyringKey {
    pub fingerprint: String,
    pub uid: String,
    pub created: Option<String>,
    pub expires: Option<String>,
    pub trust: String,
}

/// The mathematical content of a [`KeyringKey`].
pub struct KeyringKeyView {
    pub fingerprint: Seq<char>,
    pub uid: Seq<char>,
    pub created: Option<Seq<char>>,
    pub expires: Option<Seq<char>>,
    pub trust: Seq<char>,
}

impl View for KeyringKey {
    type V = KeyringKeyView;

    open spec fn view(&self) -> KeyringKeyView {
        KeyringKeyView {
            fingerprint: self.fingerprint@,
            uid: self.uid@,
            created: text_of(self.created),
            expires: text_of(self.expires),
            trust: self.trust@,
        }
    }
}

/// What the caller is told of a listed key.
pub open spec fn reported_key(key: KeyRecord) -> KeyringKeyView {
    KeyringKeyView {
        fingerprint: key.fingerprint@,
        uid: key.uid@,
        created: text_of(key.created),
        expires: text_of(key.expires),
        trust: trust_name(key.validity),
    }
}

/// The state of the keyring as the caller is told of it.
#[derive(Debug, Clone, PartialEq, Eq)]
pub struct KeyringStatusResponse {
    pub keys: Vec<KeyringKey>,
    pub total: usize,
    pub master_key_initialized: bool,
    pub warnings: Vec<String>,
}

/// The warnings of a status: the one of the state, then the one of a
/// listing that failed.
pub open spec fn status_warnings(state: KeyringState, listing: Result<Vec<KeyRecord>, String>) -> Seq<
    Seq<char>,
> {
    (match keyring_warning(state) {
        Some(w) => seq![w],
        None => Seq::empty(),
    }) + (match listing {
        Err(e) => if keyring_usable(state) {
            seq!["Failed to list keys: "@ + e@]
        } else {
            Seq::empty()
        },
        Ok(_) => Seq::empty(),
    })
}

/// The keys of a status: those listed, where the keyring can be used and
/// the listing succeeded, else none.
pub open spec fn status_keys(state: KeyringState, listing: Result<Vec<KeyRecord>, String>) -> Seq<
    KeyringKeyView,
> {
    match listing {
        Ok(keys) => if keyring_usable(state) {
            Seq::new(keys@.len(), |i: int| reported_key(keys@[i]))
        } else {
            Seq::empty()
        },
        Err(_) => Seq::empty(),
    }
}

/// The contents of a list of keys, element by element.
pub open spec fn key_list_views(keys: Seq<KeyringKey>) -> Seq<KeyringKeyView> {
    Seq::new(keys.len(), |i: int| keys[i]@)
}

/// What the caller is told of the keyring, from the state of its directory
/// and the listing of its keys. The listing counts only where the keyring
/// can be used.
pub fn keyring_status(state: &KeyringState, listing: Result<Vec<KeyRecord>, String>) -> (r:
    KeyringStatusResponse)
    ensures
        r.master_key_initialized == keyring_usable(*state),
        key_list_views(r.keys@) == status_keys(*state, listing),
        r.total == r.keys@.len(),
        views(r.warnings@) == status_warnings(*state, listing),
{
    let (usable, warning) = keyring_verdict(state);
    let mut warnings: Vec<String> = Vec::new();
    let mut keys: Vec<KeyringKey> = Vec::new();
    assert(views(warnings@) =~= Seq::empty());
    match warning {
        Some(w) => {
            warnings.push(w);
            assert(views(warnings@) =~= seq![w@]);
        },
        None => {},
    }
    let ghost first = views(warnings@);
    if usable {
        match &listing {
            Ok(list) => {
                let mut i: usize = 0;
                while i < list.len()
                    invariant
                        i <= list.len(),
                        keys@.len() == i,
                        forall|j: int| 0 <= j < i ==> keys@[j]@ == reported_key(list@[j]),
                    decreases list.len() - i,
                {
                    let k = &list[i];
                    keys.push(
                        KeyringKey {
                            fingerprint: k.fingerprint.clone(),
                            uid: k.uid.clone(),
                            created: k.created.clone(),
                            expires: k.expires.clone(),
                            trust: String::from_str(validity_to_string(k.validity)),
                        },
                    );
                    i += 1;
                }
                assert(key_list_views(keys@) =~= status_keys(*state, listing));
                assert(first + Seq::<Seq<char>>::empty() =~= first);
            },
            Err(e) => {
                let text = concat("Failed to list keys: ", e.as_str());
                warnings.push(text);
                assert(views(warnings@) =~= first + seq![text@]);
                assert(key_list_views(keys@) =~= status_keys(*state, listing));
            },
        }
    } else {
        assert(key_list_views(keys@) =~= status_keys(*state, listing));
        assert(first + Seq::<Seq<char>>::empty() =~= first);
    }
    KeyringStatusResponse { total: keys.len(), keys, master_key_initialized: usable, warnings }
}

/// A report of the refresh of the keys.
#[derive(Debug, Clone, PartialEq, Eq)]
pub enum RefreshProgress {
    Starting { total_keys: usize },
    Refreshing { current: usize, total: usize, keyid: String },
    Completed,
    Error { keyid: String, message: String },
    /// A report that this library has no name for.
    Other,
}

/// The line to log for a report of the refresh, where it gets one.
pub open spec fn refresh_line(progress: RefreshProgress) -> Option<StreamEventView> {
    match progress {
        RefreshProgress::Starting { total_keys } => Some(
            log_view(
                "info"@,
                "Starting refresh of "@ + decimal(total_keys as nat) + " keys"@,
            ),
        ),
        RefreshProgress::Refreshing { current, total, keyid } => Some(
            log_view(
                "info"@,
                "Refreshing key "@ + decimal(current as nat) + "/"@ + decimal(total as nat)
                    + ": "@ + keyid@,
            ),
        ),
        RefreshProgress::Completed => Some(log_view("info"@, "Key refresh completed"@)),
        RefreshProgress::Error { keyid, message } => Some(
            log_view("warning"@, "Error refreshing key "@ + keyid@ + ": "@ + message@),
        ),
        RefreshProgress::Other => None,
    }
}

/// The line to log for a report of the refresh.
pub fn refresh_record(progress: &RefreshProgress) -> (e: Option<StreamEvent>)
    ensures
        event_of(e) == refresh_line(*progress),
{
    match progress {
        RefreshProgress::Starting { total_keys } => {
            let n = decimal_string(*total_keys as u64);
            Some(log("info", concat3("Starting refresh of ", n.as_str(), " keys")))
        },
        RefreshProgress::Refreshing { current, total, keyid } => {
            let c = decimal_string(*current as u64);
            let t = decimal_string(*total as u64);
            let mut text = concat3("Refreshing key ", c.as_str(), "/");
            text.append(t.as_str());
            text.append(": ");
            text.append(keyid.as_str());
            Some(log("info", text))
        },
        RefreshProgress::Completed => Some(log("info", String::from_str("Key refresh completed"))),
        RefreshProgress::Error { keyid, message } => {
            let mut text = concat3("Error refreshing key ", keyid.as_str(), ": ");
            text.append(message.as_str());
            Some(log("warning", text))
        },
        RefreshProgress::Other => None,
    }
}

/// How an operation on the keyring ended.
#[derive(Debug, Clone, PartialEq, Eq)]
pub enum KeyringOutcome {
    Done,
    Cancelled,
    /// The operation was stopped after this many seconds.
    TimedOut(u64),
    /// The operation failed with the text given.
    Failed(String),
}

/// An operation on the keyring.
#[derive(Debug, Clone, Copy, PartialEq, Eq, Structural)]
pub enum KeyringJob {
    Refresh,
    Init,
    Populate,
}

/// The terminal record for the outcome of an operation, where the
/// operation is the last of its run or did not succeed.
pub open spec fn outcome_view(job: KeyringJob, outcome: KeyringOutcome) -> Option<StreamEventView> {
    match outcome {
        KeyringOutcome::Done => match job {
            KeyringJob::Refresh => Some(complete_view(true, "Keyring refresh completed"@)),
            KeyringJob::Init => None,
            KeyringJob::Populate => Some(complete_view(true, "Keyring initialized and populated"@)),
        },
        KeyringOutcome::Cancelled => Some(complete_view(false, "Operation cancelled by user"@)),
        KeyringOutcome::TimedOut(secs) => Some(
            complete_view(
                false,
                (match job {
                    KeyringJob::Refresh => "Operation"@,
                    KeyringJob::Init => "Init"@,
                    KeyringJob::Populate => "Populate"@,
                }) + " timed out after "@ + decimal(secs as nat) + " seconds"@,
            ),
        ),
        KeyringOutcome::Failed(error) => Some(
            complete_view(
                false,
                (match job {
                    KeyringJob::Refresh => "Keyring refresh failed: "@,
                    KeyringJob::Init => "Failed to initialize keyring: "@,
                    KeyringJob::Populate => "Failed to populate keyring: "@,
                }) + error@,
            ),
        ),
    }
}

/// The terminal record for the outcome of an operation. The creation of
/// the keyring is followed by its filling, so its success ends nothing;
/// every other outcome ends the run.
pub fn outcome_record(job: KeyringJob, outcome: &KeyringOutcome) -> (e: Option<StreamEvent>)
    ensures
        event_of(e) == outcome_view(job, *outcome),
{
    match outcome {
        KeyringOutcome::Done => match job {
            KeyringJob::Refresh => Some(
                complete(true, String::from_str("Keyring refresh completed")),
            ),
            KeyringJob::Init => None,
            KeyringJob::Populate => Some(
                complete(true, String::from_str("Keyring initialized and populated")),
            ),
        },
        KeyringOutcome::Cancelled => Some(
            complete(false, String::from_str("Operation cancelled by user")),
        ),
        KeyringOutcome::TimedOut(secs) => {
            let n = decimal_string(*secs);
            let head = match job {
                KeyringJob::Refresh => "Operation",
                KeyringJob::Init => "Init",
                KeyringJob::Populate => "Populate",
            };
            let mut text = concat3(head, " timed out after ", n.as_str());
            text.append(" seconds");
            Some(complete(false, text))
        },
        KeyringOutcome::Failed(error) => {
            let head = match job {
                KeyringJob::Refresh => "Keyring refresh failed: ",
                KeyringJob::Init => "Failed to initialize keyring: ",
                KeyringJob::Populate => "Failed to populate keyring: ",
            };
            Some(complete(false, concat(head, error.as_str())))
        },
    }
}

/// What a run on the keyring streams before its first operation: the
/// terminal record where cancellation was requested already, which ends
/// the run, else the line that announces the operation.
pub open spec fn opening_view(job: KeyringJob, cancelled: bool) -> StreamEventView {
    if cancelled {
        complete_view(false, "Operation cancelled"@)
    } else {
        log_view(
            "info"@,
            match job {
                KeyringJob::Refresh => "Refreshing pacman keyring..."@,
                KeyringJob::Init => "Initializing pacman keyring..."@,
                KeyringJob::Populate => "Populating keyring with Arch Linux keys..."@,
            },
        )
    }
}

/// What a run on the keyring streams before an operation. A request for
/// cancellation is looked at once, before the first operation.
pub fn opening_record(job: KeyringJob, cancelled: bool) -> (e: StreamEvent)
    ensures
        e@ == opening_view(job, cancelled),
{
    if cancelled {
        complete(false, String::from_str("Operation cancelled"))
    } else {
        log(
            "info",
            String::from_str(
                match job {
                    KeyringJob::Refresh => "Refreshing pacman keyring...",
                    KeyringJob::Init => "Initializing pacman keyring...",
                    KeyringJob::Populate => "Populating keyring with Arch Linux keys...",
                },
            ),
        )
    }
}

} // verus!
