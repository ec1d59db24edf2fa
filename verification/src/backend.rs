//! The two storage backends, as far as they decide anything: where a
//! snapshot goes, in which steps it is written, and what an answer from
//! the store means. Reading and sending is left to the caller.

use vstd::prelude::*;
use vstd::string::*;
use crate::error::{ErrorKind, VaultError};
use crate::github::{
    Author, Committer, GithubClient, GithubCreateUpdateRequest, GithubFileContent, Lookup,
    StatusClass, api_error_message, author_from, author_view, base64_encode, base64_fits,
    committer_from, committer_view, decoded_content, identity_spec, status_class_spec,
    without_line_feeds,
};
use crate::password::{PasswordView, Timestamp, opt_string_view};
use crate::store::StorageData;
use crate::text::{decimal_digits, push_decimal};
use vstd::utf8::*;

verus! {

/// The schema version written into a snapshot that stands for a missing
/// resource.
pub open spec fn missing_version() -> Seq<char> {
    "1.0.0"@
}

/// The snapshot that a backend's `load` returns: what was found, or an
/// empty snapshot where the resource does not exist yet.
pub fn snapshot_or_empty(found: Option<StorageData>, now: Timestamp) -> (data: StorageData)
    requires
        found matches Some(d) ==> d.wf(),
    ensures
        data.wf(),
        match found {
            Some(d) => data == d,
            None => data.records() == Seq::<PasswordView>::empty() && data.metadata.version@
                == missing_version() && data.metadata.last_sync == now,
        },
{
    match found {
        Some(d) => d,
        None => StorageData::empty("1.0.0", now),
    }
}

/// Whether a snapshot holds any encrypted value.
pub fn has_encrypted_data(data: &StorageData) -> (any: bool)
    ensures
        any == (data.records().len() > 0),
{
    data.passwords.len() > 0
}

/// One step of writing a file to disk.
#[derive(Debug)]
pub enum FileAction {
    /// Create the directories above `path`.
    CreateParentDirs { path: String },
    /// Write `content` to `path`, replacing what is there.
    Write { path: String, content: String },
    /// Move `from` over `to` in one step.
    Rename { from: String, to: String },
}

/// The backend that keeps the snapshot in a file on the local disk.
#[derive(Debug)]
pub struct LocalStorage {
    pub data_path: String,
}

impl LocalStorage {
    /// A backend for the file at `data_path`.
    pub fn new(data_path: String) -> (s: LocalStorage)
        ensures
            s.data_path == data_path,
    {
        LocalStorage { data_path }
    }

    /// The path of the temporary file that a save writes first.
    pub open spec fn temp_path_spec(&self) -> Seq<char> {
        self.data_path@ + ".tmp"@
    }

    /// The path of the temporary file that a save writes first.
    pub fn temp_path(&self) -> (path: String)
        ensures
            path@ == self.temp_path_spec(),
    {
        let mut path = self.data_path.clone();
        path.append(".tmp");
        path
    }

    /// The steps of a save, in order: make the directories, write the
    /// content to the temporary file, and move that file over the
    /// snapshot, so that a crash never leaves a truncated snapshot.
    pub fn save(&self, content: String) -> (steps: Vec<FileAction>)
        ensures
            steps@.len() == 3,
            steps@[0] matches FileAction::CreateParentDirs { path } && path@ == self.data_path@,
            steps@[1] matches FileAction::Write { path, content: c } && path@
                == self.temp_path_spec() && c == content,
            steps@[2] matches FileAction::Rename { from, to } && from@ == self.temp_path_spec()
                && to@ == self.data_path@,
    {
        let mut steps: Vec<FileAction> = Vec::new();
        steps.push(FileAction::CreateParentDirs { path: self.data_path.clone() });
        steps.push(FileAction::Write { path: self.temp_path(), content });
        steps.push(FileAction::Rename { from: self.temp_path(), to: self.data_path.clone() });
        steps
    }

    /// The step of a probe: the directories above the file can be made.
    pub fn test_connection(&self) -> (step: FileAction)
        ensures
            step matches FileAction::CreateParentDirs { path } && path@ == self.data_path@,
    {
        FileAction::CreateParentDirs { path: self.data_path.clone() }
    }
}

/// A store that keeps its records in one file.
#[derive(Debug)]
pub struct LocalFileStore {
    pub file_path: String,
}

impl LocalFileStore {
    /// A store for the file at `file_path`.
    pub fn new(file_path: String) -> (s: LocalFileStore)
        ensures
            s.file_path == file_path,
    {
        LocalFileStore { file_path }
    }
}

/// The backend that keeps the snapshot in one file of a hosted
/// repository.
#[derive(Debug)]
pub struct GithubStorage {
    pub client: GithubClient,
    pub file_path: String,
    /// The name under which commits are made, if one is set.
    pub author_name: Option<String>,
    /// The e-mail address under which commits are made, if one is set.
    pub author_email: Option<String>,
}

/// Where a save to the hosted repository stands.
#[derive(Debug)]
pub enum SaveState {
    /// Nothing was asked yet.
    Idle,
    /// The current revision was asked for; `content` waits to be written
    /// under the commit message `message`.
    AwaitingRevision { content: String, message: String },
    /// The write was sent.
    AwaitingWrite,
    /// The save is over.
    Finished,
}

/// What happened since the last step of a save.
#[derive(Debug)]
pub enum SaveEvent {
    /// A snapshot of `password_count` records, serialised as `content`,
    /// is to be saved.
    Start { content: String, password_count: usize },
    /// The lookup of the current revision came back.
    Revision(Result<Lookup, VaultError>),
    /// The write was answered with `status` and the body `text`.
    Written { status: u16, text: String },
    /// The write got no answer: the remote was unreachable or timed out.
    Unreachable(String),
}

/// What the caller does next.
#[derive(Debug)]
pub enum SaveAction {
    /// Request the file at `url`.
    Get { url: String },
    /// Send `body` to `url`.
    Put { url: String, body: GithubCreateUpdateRequest },
    /// Stop: the save ended with `outcome`.
    Finish { outcome: Result<(), VaultError> },
}

/// The commit message of a save of `count` records.
pub open spec fn commit_message_spec(count: nat) -> Seq<char> {
    "Update passwords - "@ + decimal_digits(count) + " items"@
}

/// The revision that a write has to name after a lookup that was
/// answered: the file's own where the file exists, none where it does not
/// exist yet.
pub open spec fn revision_spec(lookup: Lookup) -> Option<Seq<char>> {
    match lookup {
        Lookup::Found(file) => Some(file.sha@),
        Lookup::Missing => None,
    }
}

impl GithubStorage {
    /// A backend for the file at `file_path` of the repository
    /// `owner/repo` on `branch`.
    pub fn new(owner: String, repo: String, token: String, branch: String, file_path: String) -> (s:
        GithubStorage)
        ensures
            s.client.owner == owner,
            s.client.repo == repo,
            s.client.token == token,
            s.client.branch == branch,
            s.file_path == file_path,
            s.author_name is None,
            s.author_email is None,
    {
        GithubStorage {
            client: GithubClient::new(owner, repo, token, branch),
            file_path,
            author_name: None,
            author_email: None,
        }
    }

    /// The same backend, committing under the given name and e-mail
    /// address.
    pub fn with_identity(self, author_name: Option<String>, author_email: Option<String>) -> (s:
        GithubStorage)
        ensures
            s.client == self.client,
            s.file_path == self.file_path,
            s.author_name == author_name,
            s.author_email == author_email,
    {
        GithubStorage { client: self.client, file_path: self.file_path, author_name, author_email }
    }

    /// The commit author: present exactly when both a name and an e-mail
    /// address are set.
    pub fn get_author(&self) -> (r: Option<Author>)
        ensures
            author_view(r) == identity_spec(self.author_name, self.author_email),
    {
        author_from(&self.author_name, &self.author_email)
    }

    /// The committer: the same identity as the author.
    pub fn get_committer(&self) -> (r: Option<Committer>)
        ensures
            committer_view(r) == identity_spec(self.author_name, self.author_email),
    {
        committer_from(&self.author_name, &self.author_email)
    }

    /// The commit message of a save of `count` records.
    pub fn commit_message(count: usize) -> (m: String)
        ensures
            m@ == commit_message_spec(count as nat),
    {
        let mut m = "Update passwords - ".to_owned();
        push_decimal(&mut m, count as u64);
        m.append(" items");
        m
    }

    /// The address that a probe requests.
    pub fn test_connection(&self) -> (url: String)
        ensures
            url@ == self.client.repo_url_spec(),
    {
        self.client.repo_url()
    }

    /// The serialised snapshot that a lookup holds: the decoded content of
    /// the file, or `None` where the file does not exist yet, which stands
    /// for an empty snapshot. A failed lookup is handed on, and content
    /// that cannot be decoded is a `SerializationFailure`.
    pub fn load(&self, lookup: Result<Lookup, VaultError>) -> (r: Result<Option<String>, VaultError>)
        ensures
            match lookup {
                Ok(Lookup::Found(file)) => match decoded_content(file.encoding@, file.content@) {
                    Some(text) => r matches Ok(Some(s)) && s@ == text,
                    None => r matches Err(e) && e.kind == ErrorKind::SerializationFailure,
                },
                Ok(Lookup::Missing) => r matches Ok(None),
                Err(e) => r == Err::<Option<String>, VaultError>(e),
            },
    {
        match lookup {
            Ok(Lookup::Found(file)) => match self.client.decode_file_content(&file) {
                Ok(text) => Ok(Some(text)),
                Err(e) => Err(e),
            },
            Ok(Lookup::Missing) => Ok(None),
            Err(e) => Err(e),
        }
    }

    /// One step of a save: from where the save stands and what happened,
    /// to where it stands next and what to do.
    ///
    /// A save first asks for the file, to learn its revision. If the
    /// lookup fails, the save ends with that failure and nothing is
    /// written. Otherwise it writes the content under the backend's
    /// identity, naming the revision if the file exists and none if it
    /// does not exist yet. The write is sent once: a rejected revision ends
    /// the save with a `ConflictFailure`, any other failure with a
    /// `NetworkFailure`, and nothing is tried again. An event that does
    /// not fit the state ends the save with a `NotFoundFailure`.
    pub fn save_step(&self, state: SaveState, event: SaveEvent) -> (r: (SaveState, SaveAction))
        ensures
            match (state, event) {
                (SaveState::Idle, SaveEvent::Start { content, password_count }) => {
                    &&& r.0 matches SaveState::AwaitingRevision { content: c, message: m } && c
                        == content && m@ == commit_message_spec(password_count as nat)
                    &&& r.1 matches SaveAction::Get { url } && url@
                        == self.client.contents_url_spec(self.file_path@)
                },
                (
                    SaveState::AwaitingRevision { content, message },
                    SaveEvent::Revision(Err(failure)),
                ) => {
                    &&& r.0 is Finished
                    &&& r.1 == (SaveAction::Finish { outcome: Err(failure) })
                },
                (
                    SaveState::AwaitingRevision { content, message },
                    SaveEvent::Revision(Ok(lookup)),
                ) => {
                    if base64_fits(encode_utf8(content@).len()) {
                        &&& r.0 is AwaitingWrite
                        &&& r.1 matches SaveAction::Put { url, body } && url@
                            == self.client.contents_url_spec(self.file_path@) && body.message@
                            == message@ && body.content@ == base64_encode(encode_utf8(content@))
                            && decoded_content("base64"@, body.content@) == Some(content@)
                            && without_line_feeds(encode_utf8(body.content@)) == encode_utf8(
                            body.content@,
                        ) && body.branch@ == self.client.branch@ && opt_string_view(body.sha)
                            == revision_spec(lookup) && author_view(body.author) == identity_spec(
                            self.author_name,
                            self.author_email,
                        ) && committer_view(body.committer) == identity_spec(
                            self.author_name,
                            self.author_email,
                        )
                    } else {
                        &&& r.0 is Finished
                        &&& r.1 matches SaveAction::Finish { outcome: Err(e) } && e.kind
                            == ErrorKind::SerializationFailure
                    }
                },
                (SaveState::AwaitingWrite, SaveEvent::Written { status, text }) => {
                    &&& r.0 is Finished
                    &&& r.1 matches SaveAction::Finish { outcome } && match status_class_spec(
                        status,
                    ) {
                        StatusClass::Success => outcome is Ok,
                        StatusClass::Conflict => outcome matches Err(e) && e.kind
                            == ErrorKind::ConflictFailure && e.message@ == api_error_message(
                            status,
                            text@,
                        ),
                        _ => outcome matches Err(e) && e.kind == ErrorKind::NetworkFailure
                            && e.message@ == api_error_message(status, text@),
                    }
                },
                (SaveState::AwaitingWrite, SaveEvent::Unreachable(reason)) => {
                    &&& r.0 is Finished
                    &&& r.1 matches SaveAction::Finish { outcome: Err(e) } && e.kind
                        == ErrorKind::NetworkFailure && e.message@ == reason@
                },
                _ => {
                    &&& r.0 is Finished
                    &&& r.1 matches SaveAction::Finish { outcome: Err(e) } && e.kind
                        == ErrorKind::NotFoundFailure
                },
            },
    {
        match (state, event) {
            (SaveState::Idle, SaveEvent::Start { content, password_count }) => {
                let message = GithubStorage::commit_message(password_count);
                let url = self.client.contents_url(self.file_path.as_str());
                (SaveState::AwaitingRevision { content, message }, SaveAction::Get { url })
            },
            (SaveState::AwaitingRevision { content, message }, SaveEvent::Revision(Err(failure))) => {
                (SaveState::Finished, SaveAction::Finish { outcome: Err(failure) })
            },
            (SaveState::AwaitingRevision { content, message }, SaveEvent::Revision(Ok(lookup))) => {
                let made = match &lookup {
                    Lookup::Found(file) => self.client.create_or_update_file(
                        content.as_str(),
                        message.as_str(),
                        Some(file.sha.as_str()),
                        self.get_author(),
                        self.get_committer(),
                    ),
                    Lookup::Missing => self.client.create_or_update_file(
                        content.as_str(),
                        message.as_str(),
                        None,
                        self.get_author(),
                        self.get_committer(),
                    ),
                };
                match made {
                    Ok(body) => {
                        let url = self.client.contents_url(self.file_path.as_str());
                        (SaveState::AwaitingWrite, SaveAction::Put { url, body })
                    },
                    Err(e) => (SaveState::Finished, SaveAction::Finish { outcome: Err(e) }),
                }
            },
            (SaveState::AwaitingWrite, SaveEvent::Written { status, text }) => {
                let outcome = GithubClient::write_outcome(status, text.as_str());
                (SaveState::Finished, SaveAction::Finish { outcome })
            },
            (SaveState::AwaitingWrite, SaveEvent::Unreachable(reason)) => {
                let e = VaultError { kind: ErrorKind::NetworkFailure, message: reason };
                (SaveState::Finished, SaveAction::Finish { outcome: Err(e) })
            },
            _ => {
                let e = VaultError::new(ErrorKind::NotFoundFailure, "unexpected event");
                (SaveState::Finished, SaveAction::Finish { outcome: Err(e) })
            },
        }
    }
}

} // verus!
