//! The hosted-repository backend: what is asked of the contents endpoint,
//! and what each of its answers means.
//!
//! The requests themselves are sent by the caller; this module decides
//! what to send and how to read what came back.

use vstd::prelude::*;
use vstd::string::*;
use vstd::utf8::*;
use vstd::slice::*;
use base64::Engine;
use crate::crypto::string_from_utf8;
use crate::error::{ErrorKind, VaultError};
use crate::password::{clone_opt_string, opt_string_view};
use crate::text::{str_eq, decimal_digits, push_decimal};

verus! {

/// The error type of `base64`'s decoding.
#[verifier::external_type_specification]
#[verifier::external_body]
pub struct ExDecodeError(base64::DecodeError);

/// The standard, padded base64 text of a byte sequence.
pub uninterp spec fn base64_encode(input: Seq<u8>) -> Seq<char>;

/// The bytes that a standard, padded base64 text stands for, or `None`
/// where the text is no such encoding.
pub uninterp spec fn base64_decode(input: Seq<u8>) -> Option<Seq<u8>>;

/// The largest input whose base64 text still has a length that fits.
pub open spec fn base64_fits(len: nat) -> bool {
    len / 3 * 4 + 4 <= usize::MAX
}

/// Calls `base64::engine::general_purpose::STANDARD.encode`. Claimed: the
/// result is a function of the input, it holds no line feed, and decoding
/// its bytes gives the input back. The call panics where the encoded
/// length overflows, which `requires` leaves out.
#[verifier::external_body]
fn base64_encode_bytes(input: &[u8]) -> (out: String)
    requires
        base64_fits(input@.len()),
    ensures
        out@ == base64_encode(input@),
        without_line_feeds(encode_utf8(out@)) == encode_utf8(out@),
        base64_decode(encode_utf8(out@)) == Some(input@),
{
    base64::engine::general_purpose::STANDARD.encode(input)
}

/// Calls `base64::engine::general_purpose::STANDARD.decode`. Claimed: the
/// result is a function of the input.
#[verifier::external_body]
fn base64_decode_bytes(input: &[u8]) -> (r: Result<Vec<u8>, base64::DecodeError>)
    ensures
        r is Ok <==> base64_decode(input@) is Some,
        r matches Ok(bytes) ==> base64_decode(input@) == Some(bytes@),
{
    base64::engine::general_purpose::STANDARD.decode(input)
}

/// What the contents endpoint returns for a file.
#[derive(Debug)]
pub struct GithubFileContent {
    pub content: String,
    pub encoding: String,
    /// The revision identifier of the committed content.
    pub sha: String,
    pub size: i32,
    pub name: String,
    pub path: String,
}

/// Who wrote a commit.
#[derive(Debug)]
pub struct Author {
    pub name: String,
    pub email: String,
}

/// Who committed a commit.
#[derive(Debug)]
pub struct Committer {
    pub name: String,
    pub email: String,
}

/// The body of a request that creates or replaces a file.
#[derive(Debug)]
pub struct GithubCreateUpdateRequest {
    pub message: String,
    /// The new content, base64-encoded.
    pub content: String,
    /// The revision being replaced; absent when the file is created.
    pub sha: Option<String>,
    pub branch: String,
    /// Under whose name the commit is written, if an identity is set.
    pub author: Option<Author>,
    /// Under whose name the commit is committed, if an identity is set.
    pub committer: Option<Committer>,
}

/// The identity that a name and an e-mail address make: present exactly
/// when both are given.
pub open spec fn identity_spec(name: Option<String>, email: Option<String>) -> Option<
    (Seq<char>, Seq<char>),
> {
    match (name, email) {
        (Some(n), Some(e)) => Some((n@, e@)),
        _ => None,
    }
}

/// Name and e-mail address of an optional author.
pub open spec fn author_view(author: Option<Author>) -> Option<(Seq<char>, Seq<char>)> {
    match author {
        Some(a) => Some((a.name@, a.email@)),
        None => None,
    }
}

/// Name and e-mail address of an optional committer.
pub open spec fn committer_view(committer: Option<Committer>) -> Option<(Seq<char>, Seq<char>)> {
    match committer {
        Some(c) => Some((c.name@, c.email@)),
        None => None,
    }
}

/// The author that a name and an e-mail address make.
pub fn author_from(name: &Option<String>, email: &Option<String>) -> (r: Option<Author>)
    ensures
        author_view(r) == identity_spec(*name, *email),
{
    match (name, email) {
        (Some(n), Some(e)) => Some(Author { name: n.clone(), email: e.clone() }),
        _ => None,
    }
}

/// The committer that a name and an e-mail address make.
pub fn committer_from(name: &Option<String>, email: &Option<String>) -> (r: Option<Committer>)
    ensures
        committer_view(r) == identity_spec(*name, *email),
{
    match (name, email) {
        (Some(n), Some(e)) => Some(Committer { name: n.clone(), email: e.clone() }),
        _ => None,
    }
}

/// The body of a request that deletes a file.
#[derive(Debug)]
pub struct DeleteRequest {
    pub message: String,
    pub sha: String,
    pub branch: String,
}

/// Where the snapshot lives in a hosted repository, and under whose name
/// commits are made.
#[derive(Debug)]
pub struct GitHubStoreConfig {
    pub owner: String,
    pub repo: String,
    pub file_path: String,
    pub branch: Option<String>,
    pub author_name: Option<String>,
    pub author_email: Option<String>,
}

impl GitHubStoreConfig {
    /// The commit author: present exactly when both a name and an e-mail
    /// address are configured.
    pub fn get_author(&self) -> (r: Option<Author>)
        ensures
            author_view(r) == identity_spec(self.author_name, self.author_email),
    {
        author_from(&self.author_name, &self.author_email)
    }

    /// The committer: the same identity as the author.
    pub fn get_committer(&self) -> (r: Option<Committer>)
        ensures
            committer_view(r) == identity_spec(self.author_name, self.author_email),
    {
        committer_from(&self.author_name, &self.author_email)
    }
}

/// How a repository is addressed and authenticated.
#[derive(Debug)]
pub struct GithubClient {
    pub owner: String,
    pub repo: String,
    pub token: String,
    pub branch: String,
}

/// The class of an HTTP status.
#[derive(Debug, Clone, Copy, PartialEq, Eq, Structural)]
pub enum StatusClass {
    /// 200 to 299.
    Success,
    /// 404: the resource does not exist.
    NotFound,
    /// 409, 412 or 422: a write was rejected because the revision it
    /// named is not the current one, or none was named for a file that
    /// exists.
    Conflict,
    /// Any other status.
    Failure,
}

/// The class of `status`.
pub open spec fn status_class_spec(status: u16) -> StatusClass {
    if 200 <= status < 300 {
        StatusClass::Success
    } else if status == 404 {
        StatusClass::NotFound
    } else if status == 409 || status == 412 || status == 422 {
        StatusClass::Conflict
    } else {
        StatusClass::Failure
    }
}

/// Classifies an HTTP status.
pub fn status_class(status: u16) -> (c: StatusClass)
    ensures
        c == status_class_spec(status),
{
    if 200 <= status && status < 300 {
        StatusClass::Success
    } else if status == 404 {
        StatusClass::NotFound
    } else if status == 409 || status == 412 || status == 422 {
        StatusClass::Conflict
    } else {
        StatusClass::Failure
    }
}

/// The message of a failure reported by the API.
pub open spec fn api_error_message(status: u16, text: Seq<char>) -> Seq<char> {
    "GitHub API error ("@ + decimal_digits(status as nat) + "): "@ + text
}

/// The failure for an answer with a status that is no success: its class
/// follows the status, and its message holds status and body.
pub fn api_failure(kind: ErrorKind, status: u16, text: &str) -> (e: VaultError)
    ensures
        e.kind == kind,
        e.message@ == api_error_message(status, text@),
{
    let mut message = "GitHub API error (".to_owned();
    push_decimal(&mut message, status as u64);
    message.append("): ");
    message.append(text);
    VaultError { kind, message }
}

/// The bytes of `bytes` that are no line feed.
pub open spec fn without_line_feeds(bytes: Seq<u8>) -> Seq<u8> {
    bytes.filter(|b: u8| b != 10u8)
}

/// The text that the file's content stands for, or `None` where the
/// encoding is not `base64`, the content is no base64, or the decoded
/// bytes are no UTF-8.
pub open spec fn decoded_content(encoding: Seq<char>, content: Seq<char>) -> Option<Seq<char>> {
    if encoding != "base64"@ {
        None
    } else {
        match base64_decode(without_line_feeds(encode_utf8(content))) {
            Some(bytes) => if valid_utf8(bytes) {
                Some(decode_utf8(bytes))
            } else {
                None
            },
            None => None,
        }
    }
}

/// The characters of `text` that are no line feed.
pub open spec fn without_line_feed_chars(text: Seq<char>) -> Seq<char> {
    text.filter(|c: char| c != '\n')
}

/// What a filter of characters keeps was there before.
proof fn lemma_kept_chars_are_members(text: Seq<char>, pred: spec_fn(char) -> bool)
    ensures
        forall|i: int|
            0 <= i < text.filter(pred).len() ==> text.contains(#[trigger] text.filter(pred)[i]),
    decreases text.len(),
{
    reveal(Seq::filter);
    if text.len() > 0 {
        let init = text.drop_last();
        lemma_kept_chars_are_members(init, pred);
        let f = text.filter(pred);
        let fi = init.filter(pred);
        assert forall|i: int| 0 <= i < f.len() implies text.contains(#[trigger] f[i]) by {
            if i < fi.len() {
                assert(f[i] == fi[i]);
                let k = choose|k: int| 0 <= k < init.len() && init[k] == fi[i];
                assert(text[k] == f[i]);
            } else {
                assert(text[text.len() - 1] == f[i]);
            }
        }
    }
}

/// For text made of ASCII characters, taking the line feeds out of its
/// bytes gives the bytes of the text without its line feeds.
pub proof fn lemma_line_feed_bytes_are_line_feed_chars(text: Seq<char>)
    requires
        is_ascii_chars(text),
    ensures
        is_ascii_chars(without_line_feed_chars(text)),
        without_line_feeds(encode_utf8(text)) == encode_utf8(without_line_feed_chars(text)),
    decreases text.len(),
{
    reveal(Seq::filter);
    let pred = |c: char| c != '\n';
    lemma_kept_chars_are_members(text, pred);
    let kept = without_line_feed_chars(text);
    assert forall|i: int| 0 <= i < kept.len() implies '\0' <= #[trigger] kept[i] <= '\u{7f}' by {
        let k = choose|k: int| 0 <= k < text.len() && text[k] == kept[i];
        assert('\0' <= text[k] <= '\u{7f}');
    }
    is_ascii_chars_encode_utf8(text);
    is_ascii_chars_encode_utf8(kept);
    if text.len() > 0 {
        let init = text.drop_last();
        let x = text.last();
        assert forall|i: int| 0 <= i < init.len() implies '\0' <= #[trigger] init[i] <= '\u{7f}' by {
            assert(init[i] == text[i]);
        }
        lemma_line_feed_bytes_are_line_feed_chars(init);
        let kept_init = without_line_feed_chars(init);
        is_ascii_chars_encode_utf8(init);
        is_ascii_chars_encode_utf8(kept_init);
        let bytes = encode_utf8(text);
        assert(bytes.drop_last() =~= encode_utf8(init)) by {
            assert forall|i: int| 0 <= i < init.len() implies bytes.drop_last()[i] == encode_utf8(
                init,
            )[i] by {
                assert(init[i] == text[i]);
                assert(bytes[i] == text[i] as u8);
                assert(encode_utf8(init)[i] == init[i] as u8);
            }
        }
        assert(bytes.last() == x as u8) by {
            assert(bytes[text.len() - 1] == text[text.len() - 1] as u8);
        }
        assert('\0' <= text[text.len() - 1] <= '\u{7f}');
        let n = x as u32;
        assert(n < 128);
        assert((x as u8 != 10u8) == (x != '\n')) by {
            assert('\n' as u32 == 10);
            assert(x as u8 == n as u8);
            if x as u8 == 10u8 {
                assert(n == 10);
            }
        }
        if x != '\n' {
            assert(kept =~= kept_init.push(x));
            assert(encode_utf8(kept) =~= encode_utf8(kept_init).push(x as u8)) by {
                assert forall|i: int| 0 <= i < kept.len() implies encode_utf8(kept)[i]
                    == encode_utf8(kept_init).push(x as u8)[i] by {
                    assert(encode_utf8(kept)[i] == kept[i] as u8);
                    if i < kept_init.len() {
                        assert(kept[i] == kept_init[i]);
                        assert(encode_utf8(kept_init)[i] == kept_init[i] as u8);
                    }
                }
            }
        } else {
            assert(kept =~= kept_init);
        }
    } else {
        assert(kept =~= Seq::<char>::empty());
        assert(encode_utf8(text) =~= Seq::<u8>::empty());
        assert(encode_utf8(kept) =~= Seq::<u8>::empty());
    }
}

/// Content that was written decodes to the same text when line feeds
/// were put into it at any places: `received` is ASCII text that, without
/// its line feeds, is `written`, whose bytes hold no line feed.
pub proof fn lemma_inserted_line_feeds_are_ignored(
    encoding: Seq<char>,
    written: Seq<char>,
    received: Seq<char>,
)
    requires
        is_ascii_chars(received),
        without_line_feed_chars(received) == written,
        without_line_feeds(encode_utf8(written)) == encode_utf8(written),
    ensures
        decoded_content(encoding, received) == decoded_content(encoding, written),
{
    lemma_line_feed_bytes_are_line_feed_chars(received);
}

/// What a lookup of the file came to.
#[derive(Debug)]
pub enum Lookup {
    /// The file exists.
    Found(GithubFileContent),
    /// The endpoint answered "not found": there is no snapshot yet.
    Missing,
}

impl GithubClient {
    /// A client for the repository `owner/repo` on `branch`.
    pub fn new(owner: String, repo: String, token: String, branch: String) -> (c: GithubClient)
        ensures
            c.owner == owner,
            c.repo == repo,
            c.token == token,
            c.branch == branch,
    {
        GithubClient { owner, repo, token, branch }
    }

    /// The address of the repository.
    pub open spec fn repo_url_spec(&self) -> Seq<char> {
        "https://api.github.com/repos/"@ + self.owner@ + "/"@ + self.repo@
    }

    /// The address of the file at `path`.
    pub open spec fn contents_url_spec(&self, path: Seq<char>) -> Seq<char> {
        self.repo_url_spec() + "/contents/"@ + path
    }

    /// The address of the repository, which a probe requests.
    pub fn repo_url(&self) -> (url: String)
        ensures
            url@ == self.repo_url_spec(),
    {
        let mut url = "https://api.github.com/repos/".to_owned();
        url.append(self.owner.as_str());
        url.append("/");
        url.append(self.repo.as_str());
        url
    }

    /// The address of the file at `path`.
    pub fn contents_url(&self, path: &str) -> (url: String)
        ensures
            url@ == self.contents_url_spec(path@),
    {
        let mut url = self.repo_url();
        url.append("/contents/");
        url.append(path);
        url
    }

    /// The value of the `Authorization` header.
    pub fn authorization(&self) -> (value: String)
        ensures
            value@ == "Bearer "@ + self.token@,
    {
        let mut value = "Bearer ".to_owned();
        value.append(self.token.as_str());
        value
    }

    /// Reads the answer to a lookup of the file.
    ///
    /// A success with a parsed body is the file; "not found" means that
    /// there is no snapshot yet; a success whose body did not parse is a
    /// `SerializationFailure`; any other status is a `NetworkFailure`.
    pub fn get_file(status: u16, body: Option<GithubFileContent>, text: &str) -> (r: Result<
        Lookup,
        VaultError,
    >)
        ensures
            match status_class_spec(status) {
                StatusClass::Success => match body {
                    Some(file) => r == Ok::<Lookup, VaultError>(Lookup::Found(file)),
                    None => r matches Err(e) && e.kind == ErrorKind::SerializationFailure,
                },
                StatusClass::NotFound => r == Ok::<Lookup, VaultError>(Lookup::Missing),
                _ => r matches Err(e) && e.kind == ErrorKind::NetworkFailure && e.message@
                    == api_error_message(status, text@),
            },
    {
        match status_class(status) {
            StatusClass::Success => match body {
                Some(file) => Ok(Lookup::Found(file)),
                None => Err(
                    VaultError::new(ErrorKind::SerializationFailure, "Failed to parse response"),
                ),
            },
            StatusClass::NotFound => Ok(Lookup::Missing),
            _ => Err(api_failure(ErrorKind::NetworkFailure, status, text)),
        }
    }

    /// The body of the request that writes `content` with the commit
    /// message `message`, replacing revision `sha` if one is given, under
    /// the given author and committer.
    ///
    /// Fails with `SerializationFailure` exactly when the content is too
    /// long for its base64 text to fit.
    pub fn create_or_update_file(
        &self,
        content: &str,
        message: &str,
        sha: Option<&str>,
        author: Option<Author>,
        committer: Option<Committer>,
    ) -> (r: Result<GithubCreateUpdateRequest, VaultError>)
        ensures
            match r {
                Ok(req) => base64_fits(encode_utf8(content@).len()) && req.message@ == message@
                    && req.content@ == base64_encode(encode_utf8(content@)) && decoded_content(
                    "base64"@,
                    req.content@,
                ) == Some(content@) && without_line_feeds(encode_utf8(req.content@))
                    == encode_utf8(req.content@) && req.branch@ == self.branch@ && req.author
                    == author
                    && req.committer == committer && match sha {
                    Some(s) => opt_string_view(req.sha) == Some(s@),
                    None => req.sha is None,
                },
                Err(e) => e.kind == ErrorKind::SerializationFailure && !base64_fits(
                    encode_utf8(content@).len(),
                ),
            },
    {
        let bytes = content.as_bytes();
        if bytes.len() / 3 > (usize::MAX - 4) / 4 {
            return Err(VaultError::new(ErrorKind::SerializationFailure, "content is too long"));
        }
        let encoded = base64_encode_bytes(bytes);
        proof {
            encode_utf8_valid_utf8(content@);
            encode_utf8_decode_utf8(content@);
        }
        Ok(
            GithubCreateUpdateRequest {
                message: message.to_owned(),
                content: encoded,
                sha: match sha {
                    Some(s) => Some(s.to_owned()),
                    None => None,
                },
                branch: self.branch.clone(),
                author,
                committer,
            },
        )
    }

    /// Reads the status of the answer to a probe of the repository.
    ///
    /// A success is `Ok`; any other status, a missing repository too, is
    /// a `NetworkFailure`.
    pub fn probe_outcome(status: u16, text: &str) -> (r: Result<(), VaultError>)
        ensures
            match status_class_spec(status) {
                StatusClass::Success => r is Ok,
                _ => r matches Err(e) && e.kind == ErrorKind::NetworkFailure && e.message@
                    == api_error_message(status, text@),
            },
    {
        match status_class(status) {
            StatusClass::Success => Ok(()),
            _ => Err(api_failure(ErrorKind::NetworkFailure, status, text)),
        }
    }

    /// Reads the status of the answer to a write.
    ///
    /// A success is `Ok`; a rejected revision is a `ConflictFailure`; any
    /// other status is a `NetworkFailure`.
    pub fn write_outcome(status: u16, text: &str) -> (r: Result<(), VaultError>)
        ensures
            match status_class_spec(status) {
                StatusClass::Success => r is Ok,
                StatusClass::Conflict => r matches Err(e) && e.kind == ErrorKind::ConflictFailure
                    && e.message@ == api_error_message(status, text@),
                _ => r matches Err(e) && e.kind == ErrorKind::NetworkFailure && e.message@
                    == api_error_message(status, text@),
            },
    {
        match status_class(status) {
            StatusClass::Success => Ok(()),
            StatusClass::Conflict => Err(api_failure(ErrorKind::ConflictFailure, status, text)),
            _ => Err(api_failure(ErrorKind::NetworkFailure, status, text)),
        }
    }

    /// The body of the request that deletes revision `sha` of a file.
    pub fn delete_file(&self, message: &str, sha: &str) -> (req: DeleteRequest)
        ensures
            req.message@ == message@,
            req.sha@ == sha@,
            req.branch@ == self.branch@,
    {
        DeleteRequest {
            message: message.to_owned(),
            sha: sha.to_owned(),
            branch: self.branch.clone(),
        }
    }

    /// The text that a file's content stands for.
    ///
    /// Fails with `SerializationFailure` exactly when [`decoded_content`]
    /// is `None`.
    pub fn decode_file_content(&self, file_content: &GithubFileContent) -> (r: Result<
        String,
        VaultError,
    >)
        ensures
            match r {
                Ok(s) => decoded_content(file_content.encoding@, file_content.content@) == Some(
                    s@,
                ),
                Err(e) => e.kind == ErrorKind::SerializationFailure && decoded_content(
                    file_content.encoding@,
                    file_content.content@,
                ) is None,
            },
    {
        if !str_eq(file_content.encoding.as_str(), "base64") {
            return Err(VaultError::new(ErrorKind::SerializationFailure, "Unsupported encoding"));
        }
        let stripped = strip_line_feeds(file_content.content.as_str().as_bytes());
        let decoded = match base64_decode_bytes(stripped.as_slice()) {
            Ok(bytes) => bytes,
            Err(_) => {
                return Err(
                    VaultError::new(ErrorKind::SerializationFailure, "Failed to decode base64"),
                );
            },
        };
        match string_from_utf8(decoded) {
            Ok(s) => Ok(s),
            Err(_) => Err(VaultError::new(ErrorKind::SerializationFailure, "Invalid UTF-8 content")),
        }
    }
}

/// The bytes of `bytes` that are no line feed.
pub fn strip_line_feeds(bytes: &[u8]) -> (out: Vec<u8>)
    ensures
        out@ == without_line_feeds(bytes@),
{
    let mut out: Vec<u8> = Vec::new();
    let mut i: usize = 0;
    proof {
        reveal(Seq::filter);
        assert(bytes@.subrange(0, 0) =~= Seq::<u8>::empty());
    }
    while i < bytes.len()
        invariant
            i <= bytes.len(),
            out@ == without_line_feeds(bytes@.subrange(0, i as int)),
        decreases bytes.len() - i,
    {
        proof {
            reveal(Seq::filter);
            assert(bytes@.subrange(0, i + 1).drop_last() =~= bytes@.subrange(0, i as int));
        }
        if bytes[i] != 10u8 {
            out.push(bytes[i]);
        }
        i += 1;
    }
    assert(bytes@.subrange(0, bytes.len() as int) =~= bytes@);
    out
}

} // verus!
