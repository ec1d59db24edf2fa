//! The credential record and the requests that create and change it.

use vstd::prelude::*;
use crate::crypto::{EncryptedData, EncryptedDataView};

verus! {

/// A point in time: seconds and nanoseconds since the Unix epoch, in UTC.
#[derive(Debug, Clone, Copy, PartialEq, Eq, Structural)]
pub struct Timestamp {
    pub secs: i64,
    pub nanos: u32,
}

/// Calls `chrono::Utc::now` and splits the instant into seconds and
/// nanoseconds. Nothing is claimed of the result.
#[verifier::external_body]
pub(crate) fn current_time() -> (t: Timestamp) {
    let now = chrono::Utc::now();
    Timestamp { secs: now.timestamp(), nanos: now.timestamp_subsec_nanos() }
}

/// Length of an identifier: 32 hexadecimal digits and 4 hyphens.
pub const ID_LEN: usize = 36;

/// Calls `uuid::Uuid::new_v4` and writes the identifier in its hyphenated
/// form. Claimed: the result has 36 characters. Which ones is a matter of
/// chance.
#[verifier::external_body]
pub(crate) fn fresh_id() -> (id: String)
    ensures
        id@.len() == ID_LEN,
{
    uuid::Uuid::new_v4().to_string()
}

/// The character sequences of a sequence of strings.
pub open spec fn strings_view(v: Seq<String>) -> Seq<Seq<char>> {
    v.map_values(|s: String| s@)
}

/// The character sequence of an optional string.
pub open spec fn opt_string_view(o: Option<String>) -> Option<Seq<char>> {
    match o {
        Some(s) => Some(s@),
        None => None,
    }
}

/// A copy of a vector of strings.
pub fn clone_strings(v: &Vec<String>) -> (out: Vec<String>)
    ensures
        strings_view(out@) == strings_view(v@),
{
    let mut out: Vec<String> = Vec::new();
    let mut i: usize = 0;
    while i < v.len()
        invariant
            i <= v.len(),
            out@.len() == i,
            forall|j: int| 0 <= j < i ==> out@[j]@ == v@[j]@,
        decreases v.len() - i,
    {
        out.push(v[i].clone());
        i += 1;
    }
    assert(strings_view(out@) =~= strings_view(v@));
    out
}

/// A copy of an optional string.
pub fn clone_opt_string(o: &Option<String>) -> (out: Option<String>)
    ensures
        opt_string_view(out) == opt_string_view(*o),
{
    match o {
        Some(s) => Some(s.clone()),
        None => None,
    }
}

/// One credential entry. Only `encrypted_password` is encrypted; the other
/// fields stay in plaintext so that they can be searched.
#[derive(Debug)]
pub struct Password {
    pub id: String,
    /// Shown and searched.
    pub title: String,
    /// Shown and searched.
    pub description: String,
    pub tags: Vec<String>,
    pub username: String,
    pub encrypted_password: EncryptedData,
    pub url: Option<String>,
    pub created_at: Timestamp,
    pub updated_at: Timestamp,
}

/// The mathematical content of a [`Password`].
pub struct PasswordView {
    pub id: Seq<char>,
    pub title: Seq<char>,
    pub description: Seq<char>,
    pub tags: Seq<Seq<char>>,
    pub username: Seq<char>,
    pub encrypted_password: EncryptedDataView,
    pub url: Option<Seq<char>>,
    pub created_at: Timestamp,
    pub updated_at: Timestamp,
}

impl View for Password {
    type V = PasswordView;

    open spec fn view(&self) -> PasswordView {
        PasswordView {
            id: self.id@,
            title: self.title@,
            description: self.description@,
            tags: strings_view(self.tags@),
            username: self.username@,
            encrypted_password: self.encrypted_password@,
            url: opt_string_view(self.url),
            created_at: self.created_at,
            updated_at: self.updated_at,
        }
    }
}

impl Clone for Password {
    fn clone(&self) -> (r: Self)
        ensures
            r@ == self@,
    {
        Password {
            id: self.id.clone(),
            title: self.title.clone(),
            description: self.description.clone(),
            tags: clone_strings(&self.tags),
            username: self.username.clone(),
            encrypted_password: self.encrypted_password.clone(),
            url: clone_opt_string(&self.url),
            created_at: self.created_at,
            updated_at: self.updated_at,
        }
    }
}

/// What a caller supplies to create a record.
#[derive(Debug)]
pub struct PasswordCreateRequest {
    pub title: String,
    pub description: String,
    pub tags: Vec<String>,
    pub username: String,
    /// The secret, in plaintext.
    pub password: String,
    pub url: Option<String>,
    /// The passphrase the secret is encrypted under.
    pub key: String,
}

/// What a caller supplies to change a record; an absent field is kept.
#[derive(Debug)]
pub struct PasswordUpdateRequest {
    pub id: String,
    pub title: Option<String>,
    pub description: Option<String>,
    pub tags: Option<Vec<String>>,
    pub username: Option<String>,
    /// The new secret, in plaintext.
    pub password: Option<String>,
    pub url: Option<String>,
}

/// Two update requests ask for the same changes.
pub open spec fn same_update(a: PasswordUpdateRequest, b: PasswordUpdateRequest) -> bool {
    &&& a.id@ == b.id@
    &&& opt_string_view(a.title) == opt_string_view(b.title)
    &&& opt_string_view(a.description) == opt_string_view(b.description)
    &&& match (a.tags, b.tags) {
        (Some(x), Some(y)) => strings_view(x@) == strings_view(y@),
        (None, None) => true,
        _ => false,
    }
    &&& opt_string_view(a.username) == opt_string_view(b.username)
    &&& opt_string_view(a.password) == opt_string_view(b.password)
    &&& opt_string_view(a.url) == opt_string_view(b.url)
}

impl Clone for PasswordUpdateRequest {
    fn clone(&self) -> (r: Self)
        ensures
            same_update(r, *self),
    {
        PasswordUpdateRequest {
            id: self.id.clone(),
            title: clone_opt_string(&self.title),
            description: clone_opt_string(&self.description),
            tags: match &self.tags {
                Some(t) => Some(clone_strings(t)),
                None => None,
            },
            username: clone_opt_string(&self.username),
            password: clone_opt_string(&self.password),
            url: clone_opt_string(&self.url),
        }
    }
}

/// A search: a keyword and, optionally, tags.
#[derive(Debug)]
pub struct PasswordSearchQuery {
    pub keyword: String,
    pub tags: Option<Vec<String>>,
}

/// The record `p` after `request` was applied at `now` with the secret
/// `encrypted_password`: each field that the request holds replaces the
/// record's, the secret is replaced, and the identifier and the creation
/// time stay.
pub open spec fn applied(
    p: PasswordView,
    request: PasswordUpdateRequest,
    encrypted_password: EncryptedDataView,
    now: Timestamp,
) -> PasswordView {
    PasswordView {
        id: p.id,
        title: match request.title {
            Some(t) => t@,
            None => p.title,
        },
        description: match request.description {
            Some(d) => d@,
            None => p.description,
        },
        tags: match request.tags {
            Some(t) => strings_view(t@),
            None => p.tags,
        },
        username: match request.username {
            Some(u) => u@,
            None => p.username,
        },
        encrypted_password,
        url: match request.url {
            Some(u) => Some(u@),
            None => p.url,
        },
        created_at: p.created_at,
        updated_at: now,
    }
}

/// Requests that ask for the same changes change a record in the same
/// way.
pub proof fn lemma_same_update_applies_alike(
    p: PasswordView,
    a: PasswordUpdateRequest,
    b: PasswordUpdateRequest,
    encrypted_password: EncryptedDataView,
    now: Timestamp,
)
    requires
        same_update(a, b),
    ensures
        applied(p, a, encrypted_password, now) == applied(p, b, encrypted_password, now),
{
}

impl Password {
    /// The record that `request` describes, under the given identifier,
    /// secret and creation time.
    pub fn assemble(
        id: String,
        request: PasswordCreateRequest,
        encrypted_password: EncryptedData,
        now: Timestamp,
    ) -> (p: Password)
        ensures
            p@ == (PasswordView {
                id: id@,
                title: request.title@,
                description: request.description@,
                tags: strings_view(request.tags@),
                username: request.username@,
                encrypted_password: encrypted_password@,
                url: opt_string_view(request.url),
                created_at: now,
                updated_at: now,
            }),
    {
        Password {
            id,
            title: request.title,
            description: request.description,
            tags: request.tags,
            username: request.username,
            encrypted_password,
            url: request.url,
            created_at: now,
            updated_at: now,
        }
    }

    /// A new record for `request` with a fresh identifier, created now.
    pub fn new(request: PasswordCreateRequest, encrypted_password: EncryptedData) -> (p: Password)
        ensures
            p@.id.len() == ID_LEN,
            p@.title == request.title@,
            p@.description == request.description@,
            p@.tags == strings_view(request.tags@),
            p@.username == request.username@,
            p@.encrypted_password == encrypted_password@,
            p@.url == opt_string_view(request.url),
            p@.created_at == p@.updated_at,
    {
        let now = current_time();
        let id = fresh_id();
        Password::assemble(id, request, encrypted_password, now)
    }

    /// Applies `request` at time `now`: each field that the request holds
    /// replaces the record's, the secret is replaced, and the identifier
    /// and the creation time stay.
    pub fn update_at(
        &mut self,
        request: PasswordUpdateRequest,
        encrypted_password: EncryptedData,
        now: Timestamp,
    )
        ensures
            final(self)@ == applied(old(self)@, request, encrypted_password@, now),
    {
        if let Some(title) = request.title {
            self.title = title;
        }
        if let Some(description) = request.description {
            self.description = description;
        }
        if let Some(tags) = request.tags {
            self.tags = tags;
        }
        if let Some(username) = request.username {
            self.username = username;
        }
        self.encrypted_password = encrypted_password;
        if let Some(url) = request.url {
            self.url = Some(url);
        }
        self.updated_at = now;
    }

    /// Applies `request` now. See [`Password::update_at`].
    pub fn update(&mut self, request: PasswordUpdateRequest, encrypted_password: EncryptedData)
        ensures
            exists|now: Timestamp|
                final(self)@ == #[trigger] applied(old(self)@, request, encrypted_password@, now),
    {
        let now = current_time();
        self.update_at(request, encrypted_password, now);
    }
}

} // verus!
