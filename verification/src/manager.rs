//! The manager: the set of enabled backends and, for each of them, the
//! cached snapshot that every read is answered from.
//!
//! A change is made to the cache first, once and unconditionally. The
//! caller then persists each cached snapshot through its backend and
//! hands the outcomes back; failures are reported together and undo
//! nothing. A backend whose save failed stays behind the cache until a
//! later save succeeds: backends are independent replicas and are never
//! reconciled automatically.

use vstd::prelude::*;
use vstd::string::*;
use crate::backend::{GithubStorage, LocalStorage};
use crate::config::Config;
use crate::crypto::{
    EncryptedData, EncryptedDataView, decrypt_with_password, decryption_failure, encrypt_with_password, open_spec,
    sealed_by,
};
use crate::error::{ErrorKind, VaultError};
use crate::generator::{
    PasswordGeneratorConfig, allowed_chars, generate_password, is_generated_for,
};
use crate::password::{
    ID_LEN, Password, PasswordCreateRequest, PasswordUpdateRequest, PasswordView, Timestamp,
    applied, clone_opt_string, current_time, fresh_id, lemma_same_update_applies_alike,
    opt_string_view, strings_view,
};
use crate::store::{
    StorageData, StorageTarget, has_id, lemma_filter_keeps_unique_ids,
    lemma_fresh_record_is_appended, lemma_has_id_by_member, lemma_search_after_removal,
    lemma_upsert_all_ids, position_of,
    lemma_search_finds_inserted, lemma_search_misses_removed, lemma_upsert_all_holds_items,
    lemma_upsert_all_members, matches_query, records_view, search_spec, upsert, upsert_all,
    without,
};
use crate::text::{
    is_substring, lemma_is_substring_of_concat, lemma_is_substring_reflexive, str_contains,
};

verus! {

/// The enabled backends.
#[derive(Debug)]
pub struct Storages {
    pub local: Option<LocalStorage>,
    pub github: Option<GithubStorage>,
}

/// One cached snapshot per backend.
#[derive(Debug)]
pub struct Cache {
    pub local: Option<StorageData>,
    pub github: Option<StorageData>,
}

/// A snapshot to persist through the backend of `target`.
#[derive(Debug)]
pub struct SaveJob {
    pub target: StorageTarget,
    pub data: StorageData,
}

/// How the save through the backend of `target` ended.
#[derive(Debug)]
pub struct SaveReport {
    pub target: StorageTarget,
    pub result: Result<(), VaultError>,
}

/// What is known of one backend after an attempt to load from it.
#[derive(Debug)]
pub struct StorageStatus {
    pub enabled: bool,
    pub connected: bool,
    pub password_count: usize,
    pub last_sync: Option<Timestamp>,
    pub error: Option<String>,
}

/// The status of an enabled backend, from what loading from it gave: a
/// snapshot shows it connected, with its count and time of
/// synchronisation; a failure shows it not connected, with its message.
pub fn get_storage_status(loaded: &Result<StorageData, VaultError>) -> (status: StorageStatus)
    ensures
        status.enabled,
        match loaded {
            Ok(data) => status.connected && status.password_count == data.records().len()
                && status.last_sync == Some(data.metadata.last_sync) && status.error is None,
            Err(e) => !status.connected && status.password_count == 0 && status.last_sync is None
                && opt_string_view(status.error) == Some(e.message@),
        },
{
    match loaded {
        Ok(data) => StorageStatus {
            enabled: true,
            connected: true,
            password_count: data.passwords.len(),
            last_sync: Some(data.metadata.last_sync),
            error: None,
        },
        Err(e) => StorageStatus {
            enabled: true,
            connected: false,
            password_count: 0,
            last_sync: None,
            error: Some(e.message.clone()),
        },
    }
}

/// The manager's state.
#[derive(Debug)]
pub struct PasswordManager {
    pub config: Config,
    pub storages: Storages,
    pub cache: Cache,
}

/// The records of an optional snapshot; none where there is no snapshot.
pub open spec fn records_of(data: Option<StorageData>) -> Seq<PasswordView> {
    match data {
        Some(d) => d.records(),
        None => Seq::empty(),
    }
}

/// What putting `p` in does to one backend's cache entry: an enabled
/// backend then has a snapshot, which is the old one, or an empty one
/// where there was none, with `p` put in; another backend's entry stays.
pub open spec fn put_effect(
    before: Option<StorageData>,
    enabled: bool,
    after: Option<StorageData>,
    p: PasswordView,
) -> bool {
    if enabled {
        after matches Some(d) && d.wf() && d.records() == upsert(records_of(before), p)
            && d.metadata.version@ == version_of(before)
    } else {
        after == before
    }
}

/// The secret that an update leaves in the record `old`: the new one
/// where one is given, the record's own otherwise.
pub open spec fn secret_after(old: PasswordView, new_secret: Option<EncryptedDataView>) -> EncryptedDataView {
    match new_secret {
        Some(e) => e,
        None => old.encrypted_password,
    }
}

/// The content of an optional secret.
pub open spec fn opt_secret_view(secret: Option<&EncryptedData>) -> Option<EncryptedDataView> {
    match secret {
        Some(e) => Some(e@),
        None => None,
    }
}

/// What applying `request` at `now` to the record `id` does to one
/// backend's cache entry: a snapshot that holds the record has it changed
/// in place and is marked as synchronised at `now`; any other entry stays.
pub open spec fn update_effect(
    before: Option<StorageData>,
    after: Option<StorageData>,
    id: Seq<char>,
    request: PasswordUpdateRequest,
    new_secret: Option<EncryptedDataView>,
    now: Timestamp,
) -> bool {
    match before {
        Some(b) => if has_id(b.records(), id) {
            let pos = position_of(b.records(), id);
            let old = b.records()[pos];
            after matches Some(d) && d.wf() && d.metadata.version == b.metadata.version
                && d.metadata.last_sync == now && d.records() == b.records().update(
                pos,
                applied(old, request, secret_after(old, new_secret), now),
            )
        } else {
            after == before
        },
        None => after is None,
    }
}

/// Applies `request` at `now` to the record `id` of one cache entry, if the
/// entry holds it.
fn update_entry(
    entry: Option<StorageData>,
    id: &str,
    request: &PasswordUpdateRequest,
    new_secret: Option<&EncryptedData>,
    now: Timestamp,
) -> (r: (Option<StorageData>, bool))
    requires
        entry matches Some(d) ==> d.wf(),
    ensures
        update_effect(entry, r.0, id@, *request, opt_secret_view(new_secret), now),
        r.1 == has_id(records_of(entry), id@),
{
    match entry {
        Some(mut data) => {
            let ghost before = data.records();
            match data.get(id) {
                Some(existing) => {
                    let secret = match new_secret {
                        Some(e) => e.clone(),
                        None => existing.encrypted_password,
                    };
                    let asked = request.clone();
                    proof {
                        lemma_same_update_applies_alike(
                            before[position_of(before, id@)],
                            asked,
                            *request,
                            secret@,
                            now,
                        );
                    }
                    data.update(id, asked, secret, now);
                    (Some(data), true)
                },
                None => (Some(data), false),
            }
        },
        None => (None, false),
    }
}

/// The schema version of an optional snapshot; that of a snapshot started
/// by the manager where there is none.
pub open spec fn version_of(data: Option<StorageData>) -> Seq<char> {
    match data {
        Some(d) => d.metadata.version@,
        None => "1"@,
    }
}

/// The backends `s` are those that `config` enables, each with the path,
/// the repository and the identity that `config` gives it.
pub open spec fn storages_match(s: Storages, config: Config) -> bool {
    &&& s.local is Some <==> config.local_enabled()
    &&& s.local matches Some(l) ==> l.data_path@ == config.storage.local_storage->0.data_path@
        && l.data_path@.len() > 0
    &&& s.github is Some <==> config.github_enabled()
    &&& s.github matches Some(g) ==> {
        let c = config.storage.github_storage->0;
        &&& g.client.owner@ == c.owner@
        &&& g.client.repo@ == c.repo@
        &&& g.client.token@ == c.token@
        &&& g.client.branch@ == c.branch@
        &&& g.file_path@ == c.file_path@
        &&& opt_string_view(g.author_name) == opt_string_view(c.author_name)
        &&& opt_string_view(g.author_email) == opt_string_view(c.author_email)
    }
}

/// What taking the record `id` out does to one backend's cache entry: a
/// snapshot loses the record if it holds it and is unchanged otherwise;
/// its schema version stays in either case.
pub open spec fn take_effect(
    before: Option<StorageData>,
    after: Option<StorageData>,
    id: Seq<char>,
) -> bool {
    match before {
        Some(b) => after matches Some(d) && d.wf() && d.records() == without(b.records(), id)
            && d.metadata.version == b.metadata.version && (!has_id(b.records(), id) ==> d == b),
        None => after is None,
    }
}

/// `p` is the record that `request` asks for, under the identifier `id`:
/// it has the request's plaintext fields, and its secret is the request's
/// secret sealed under the request's passphrase.
pub open spec fn record_of_request(
    p: PasswordView,
    id: Seq<char>,
    request: PasswordCreateRequest,
) -> bool {
    &&& p.id == id
    &&& p.title == request.title@
    &&& p.description == request.description@
    &&& p.tags == strings_view(request.tags@)
    &&& p.username == request.username@
    &&& p.url == opt_string_view(request.url)
    &&& p.created_at == p.updated_at
    &&& sealed_by(p.encrypted_password, request.password@, request.key@)
}

/// The line that reports one failed save.
pub open spec fn failure_line(target: StorageTarget, message: Seq<char>) -> Seq<char> {
    "Failed to save to "@ + target.name_spec() + ": "@ + message
}

/// Some save among `reports` failed.
pub open spec fn any_failed(reports: Seq<SaveReport>) -> bool {
    exists|i: int| 0 <= i < reports.len() && (#[trigger] reports[i]).result is Err
}

/// The message that reports every failed save among `reports`: one line
/// for each, in order, separated by line feeds.
pub open spec fn aggregate_message(reports: Seq<SaveReport>) -> Seq<char>
    decreases reports.len(),
{
    if reports.len() == 0 {
        Seq::empty()
    } else {
        let head = aggregate_message(reports.drop_last());
        match reports.last().result {
            Ok(_) => head,
            Err(e) => if any_failed(reports.drop_last()) {
                head + "\n"@ + failure_line(reports.last().target, e.message@)
            } else {
                failure_line(reports.last().target, e.message@)
            },
        }
    }
}

/// The class of the first failed save among `reports`.
pub open spec fn first_failure_kind(reports: Seq<SaveReport>) -> ErrorKind
    decreases reports.len(),
{
    if reports.len() == 0 {
        ErrorKind::IOFailure
    } else if any_failed(reports.drop_last()) {
        first_failure_kind(reports.drop_last())
    } else {
        match reports.last().result {
            Ok(_) => ErrorKind::IOFailure,
            Err(e) => e.kind,
        }
    }
}

/// The backends that `config` enables.
///
/// Fails with `NotFoundFailure` exactly when the local backend is enabled
/// without a path.
pub fn build_storages_from_config(config: &Config) -> (r: Result<Storages, VaultError>)
    ensures
        match r {
            Ok(s) => storages_match(s, *config),
            Err(e) => e.kind == ErrorKind::NotFoundFailure && config.local_enabled()
                && config.storage.local_storage->0.data_path@.len() == 0,
        },
{
    let mut storages = Storages { local: None, github: None };
    if let Some(local) = &config.storage.local_storage {
        if local.enabled {
            if local.data_path.as_str().is_empty() {
                return Err(VaultError::new(ErrorKind::NotFoundFailure, "DATA_PATH not set"));
            }
            storages.local = Some(LocalStorage::new(local.data_path.clone()));
        }
    }
    if let Some(github) = &config.storage.github_storage {
        if github.enabled {
            storages.github = Some(
                GithubStorage::new(
                    github.owner.clone(),
                    github.repo.clone(),
                    github.token.clone(),
                    github.branch.clone(),
                    github.file_path.clone(),
                ).with_identity(
                    clone_opt_string(&github.author_name),
                    clone_opt_string(&github.author_email),
                ),
            );
        }
    }
    Ok(storages)
}

/// Gathers the outcomes of the saves of one operation.
///
/// The result is `Ok` exactly when every save succeeded. Otherwise it is
/// one failure whose message has a line for every failed save, naming its
/// backend, and whose class is that of the first.
pub fn save_data(reports: &Vec<SaveReport>) -> (r: Result<(), VaultError>)
    ensures
        r is Ok <==> !any_failed(reports@),
        r matches Err(e) ==> e.message@ == aggregate_message(reports@) && e.kind
            == first_failure_kind(reports@),
{
    let mut failed = false;
    let mut kind = ErrorKind::IOFailure;
    let mut message = String::new();
    let mut i: usize = 0;
    proof {
        assert(reports@.subrange(0, 0) =~= Seq::<SaveReport>::empty());
    }
    while i < reports.len()
        invariant
            i <= reports.len(),
            failed == any_failed(reports@.subrange(0, i as int)),
            !failed ==> message@.len() == 0,
            message@ == aggregate_message(reports@.subrange(0, i as int)),
            kind == first_failure_kind(reports@.subrange(0, i as int)),
        decreases reports.len() - i,
    {
        let ghost prefix = reports@.subrange(0, i as int);
        let ghost next = reports@.subrange(0, i + 1);
        proof {
            assert(next.drop_last() =~= prefix);
            assert(next.last() == reports@[i as int]);
            if any_failed(prefix) {
                let k = choose|k: int| 0 <= k < prefix.len() && (#[trigger] prefix[k]).result is Err;
                assert(next[k].result is Err);
            }
            if any_failed(next) && !any_failed(prefix) {
                let k = choose|k: int| 0 <= k < next.len() && (#[trigger] next[k]).result is Err;
                if k < i {
                    assert(prefix[k].result is Err);
                }
            }
        }
        let report = &reports[i];
        match &report.result {
            Ok(_) => {},
            Err(e) => {
                if failed {
                    message.append("\n");
                } else {
                    kind = e.kind;
                }
                message.append("Failed to save to ");
                message.append(report.target.name());
                message.append(": ");
                message.append(e.message.as_str());
                failed = true;
                proof {
                    assert(next[i as int].result is Err);
                    assert(message@ =~= aggregate_message(next));
                }
            },
        }
        i += 1;
    }
    assert(reports@.subrange(0, reports.len() as int) =~= reports@);
    if failed {
        Err(VaultError { kind, message })
    } else {
        Ok(())
    }
}

impl PasswordManager {
    /// The backend of `target` is enabled.
    pub open spec fn enabled(&self, target: StorageTarget) -> bool {
        match target {
            StorageTarget::Local => self.storages.local is Some,
            StorageTarget::GitHub => self.storages.github is Some,
        }
    }

    /// The cached snapshot of `target`, if there is one.
    pub open spec fn cached(&self, target: StorageTarget) -> Option<StorageData> {
        match target {
            StorageTarget::Local => self.cache.local,
            StorageTarget::GitHub => self.cache.github,
        }
    }

    /// The manager's invariant: only enabled backends have a cached
    /// snapshot, and every cached snapshot is well formed, so that its
    /// metadata counts its records.
    pub open spec fn wf(&self) -> bool {
        &&& self.cache.local matches Some(d) ==> d.wf() && self.storages.local is Some
        &&& self.cache.github matches Some(d) ==> d.wf() && self.storages.github is Some
    }

    /// What a search for `query` over all backends returns: the matches
    /// of the local snapshot, then those of the hosted one, a later record
    /// replacing an earlier one with the same identifier.
    pub open spec fn search_all_spec(&self, query: Seq<char>) -> Seq<PasswordView> {
        upsert_all(
            upsert_all(Seq::empty(), search_spec(records_of(self.cache.local), query)),
            search_spec(records_of(self.cache.github), query),
        )
    }

    /// From this manager, `after` is reached by putting the record `p` in,
    /// and `p` is the record that `request` asks for under `id`.
    pub open spec fn added_as(
        &self,
        after: PasswordManager,
        p: PasswordView,
        id: Seq<char>,
        request: PasswordCreateRequest,
    ) -> bool {
        &&& record_of_request(p, id, request)
        &&& put_effect(self.cache.local, self.storages.local is Some, after.cache.local, p)
        &&& put_effect(self.cache.github, self.storages.github is Some, after.cache.github, p)
        &&& self.storages.local is Some ==> after.cache.local->0.metadata.last_sync
            == p.created_at
        &&& self.storages.github is Some ==> after.cache.github->0.metadata.last_sync
            == p.created_at
    }

    /// From this manager, `after` is reached by putting in the record
    /// that `request` asks for under `id`.
    pub open spec fn added(
        &self,
        after: PasswordManager,
        id: Seq<char>,
        request: PasswordCreateRequest,
    ) -> bool {
        exists|p: PasswordView| #[trigger] self.added_as(after, p, id, request)
    }

    /// A manager for the backends that `config` enables, with an empty
    /// cache. Fails as [`build_storages_from_config`] does.
    pub fn new(config: Config) -> (r: Result<PasswordManager, VaultError>)
        ensures
            match r {
                Ok(m) => {
                    &&& m.wf()
                    &&& m.config == config
                    &&& storages_match(m.storages, config)
                    &&& m.cache.local is None
                    &&& m.cache.github is None
                },
                Err(e) => e.kind == ErrorKind::NotFoundFailure && config.local_enabled()
                    && config.storage.local_storage->0.data_path@.len() == 0,
            },
    {
        match build_storages_from_config(&config) {
            Ok(storages) => Ok(
                PasswordManager { config, storages, cache: Cache { local: None, github: None } },
            ),
            Err(e) => Err(e),
        }
    }

    /// Whether the backend of `target` is enabled.
    pub fn is_enabled(&self, target: StorageTarget) -> (b: bool)
        ensures
            b == self.enabled(target),
    {
        match target {
            StorageTarget::Local => self.storages.local.is_some(),
            StorageTarget::GitHub => self.storages.github.is_some(),
        }
    }

    /// The enabled backends, the local one first.
    pub open spec fn enabled_targets(&self) -> Seq<StorageTarget> {
        (if self.storages.local is Some {
            seq![StorageTarget::Local]
        } else {
            Seq::empty()
        }) + (if self.storages.github is Some {
            seq![StorageTarget::GitHub]
        } else {
            Seq::empty()
        })
    }

    /// The enabled backends, the local one first.
    pub fn get_enabled_storages(&self) -> (targets: Vec<StorageTarget>)
        ensures
            targets@ == self.enabled_targets(),
    {
        let mut targets: Vec<StorageTarget> = Vec::new();
        if self.storages.local.is_some() {
            targets.push(StorageTarget::Local);
        }
        if self.storages.github.is_some() {
            targets.push(StorageTarget::GitHub);
        }
        assert(targets@ =~= self.enabled_targets());
        targets
    }

    /// Installs `data`, as loaded from the backend of `target`, as that
    /// backend's cached snapshot. Snapshots of different backends are
    /// never merged.
    ///
    /// Fails with `NotFoundFailure`, and changes nothing, exactly when the
    /// backend is not enabled.
    pub fn load_data_to_cache(&mut self, target: StorageTarget, data: StorageData) -> (r: Result<
        (),
        VaultError,
    >)
        requires
            old(self).wf(),
            data.wf(),
        ensures
            final(self).wf(),
            final(self).config == old(self).config,
            final(self).storages == old(self).storages,
            r is Ok <==> old(self).enabled(target),
            r is Ok ==> final(self).cached(target) == Some(data),
            target != StorageTarget::Local ==> final(self).cache.local == old(self).cache.local,
            target != StorageTarget::GitHub ==> final(self).cache.github == old(self).cache.github,
            r matches Err(e) ==> e.kind == ErrorKind::NotFoundFailure && *final(self) == *old(self),
    {
        if !self.is_enabled(target) {
            return Err(VaultError::new(ErrorKind::NotFoundFailure, "storage target is not enabled"));
        }
        match target {
            StorageTarget::Local => {
                self.cache.local = Some(data);
            },
            StorageTarget::GitHub => {
                self.cache.github = Some(data);
            },
        }
        Ok(())
    }

    /// Replaces the configuration and the set of enabled backends in one
    /// step, and drops the cached snapshot of every backend that is no
    /// longer enabled.
    ///
    /// Fails as [`build_storages_from_config`] does, and then changes
    /// nothing.
    pub fn update_config(&mut self, new_config: Config) -> (r: Result<(), VaultError>)
        requires
            old(self).wf(),
        ensures
            final(self).wf(),
            match r {
                Ok(_) => {
                    &&& final(self).config == new_config
                    &&& storages_match(final(self).storages, new_config)
                    &&& final(self).cache.local == if new_config.local_enabled() {
                        old(self).cache.local
                    } else {
                        None
                    }
                    &&& final(self).cache.github == if new_config.github_enabled() {
                        old(self).cache.github
                    } else {
                        None
                    }
                },
                Err(e) => e.kind == ErrorKind::NotFoundFailure && *final(self) == *old(self)
                    && new_config.local_enabled()
                    && new_config.storage.local_storage->0.data_path@.len() == 0,
            },
    {
        match build_storages_from_config(&new_config) {
            Ok(storages) => {
                if storages.local.is_none() {
                    self.cache.local = None;
                }
                if storages.github.is_none() {
                    self.cache.github = None;
                }
                self.config = new_config;
                self.storages = storages;
                Ok(())
            },
            Err(e) => Err(e),
        }
    }

    /// Puts `password` into the cached snapshot of every enabled backend,
    /// starting an empty snapshot where a backend has none, and marks each
    /// as synchronised at `now`.
    pub fn add_record(&mut self, password: Password, now: Timestamp)
        requires
            old(self).wf(),
        ensures
            final(self).wf(),
            final(self).config == old(self).config,
            final(self).storages == old(self).storages,
            put_effect(
                old(self).cache.local,
                old(self).storages.local is Some,
                final(self).cache.local,
                password@,
            ),
            put_effect(
                old(self).cache.github,
                old(self).storages.github is Some,
                final(self).cache.github,
                password@,
            ),
            old(self).storages.local is Some ==> final(self).cache.local->0.metadata.last_sync
                == now,
            old(self).storages.github is Some ==> final(self).cache.github->0.metadata.last_sync
                == now,
    {
        if self.storages.local.is_some() {
            let mut data = match self.cache.local.take() {
                Some(d) => d,
                None => StorageData::empty("1", now),
            };
            data.insert(password.clone(), now);
            self.cache.local = Some(data);
        }
        if self.storages.github.is_some() {
            let mut data = match self.cache.github.take() {
                Some(d) => d,
                None => StorageData::empty("1", now),
            };
            data.insert(password, now);
            self.cache.github = Some(data);
        }
    }

    /// Encrypts the secret of `request` under its passphrase, makes a
    /// record with a fresh identifier, and puts it into the cached
    /// snapshot of every enabled backend. Returns the new identifier.
    ///
    /// Fails with `CryptoFailure`, and changes nothing, when the
    /// encryption fails, which it does not for a passphrase and a secret
    /// within the sizes that the cipher accepts.
    pub fn add_password(&mut self, request: PasswordCreateRequest) -> (r: Result<String, VaultError>)
        requires
            old(self).wf(),
        ensures
            final(self).wf(),
            final(self).config == old(self).config,
            final(self).storages == old(self).storages,
            match r {
                Ok(id) => id@.len() == ID_LEN && old(self).added(*final(self), id@, request),
                Err(e) => e.kind == ErrorKind::CryptoFailure && *final(self) == *old(self),
            },
            vstd::utf8::encode_utf8(request.key@).len() <= crate::crypto::MAX_PASSPHRASE_BYTES
                && vstd::utf8::encode_utf8(request.password@).len()
                <= crate::crypto::MAX_PLAINTEXT_BYTES ==> r is Ok,
    {
        let encrypted = match encrypt_with_password(
            request.password.as_str(),
            request.key.as_str(),
        ) {
            Ok(blob) => blob,
            Err(e) => {
                return Err(e);
            },
        };
        let now = current_time();
        let id = fresh_id();
        let password = Password::assemble(id.clone(), request, encrypted, now);
        let ghost p = password@;
        self.add_record(password, now);
        assert(record_of_request(p, id@, request));
        assert(old(self).added_as(*self, p, id@, request));
        Ok(id)
    }

    /// Takes the record with identifier `id` out of every cached snapshot
    /// that holds it, and marks each of those as synchronised at `now`.
    /// Returns whether any snapshot held it.
    pub fn delete_record(&mut self, id: &str, now: Timestamp) -> (removed: bool)
        requires
            old(self).wf(),
        ensures
            final(self).wf(),
            final(self).config == old(self).config,
            final(self).storages == old(self).storages,
            removed == (has_id(records_of(old(self).cache.local), id@) || has_id(
                records_of(old(self).cache.github),
                id@,
            )),
            !removed ==> *final(self) == *old(self),
            take_effect(old(self).cache.local, final(self).cache.local, id@),
            take_effect(old(self).cache.github, final(self).cache.github, id@),
            has_id(records_of(old(self).cache.local), id@) ==> final(self).cache.local->0.metadata.last_sync == now,
            has_id(records_of(old(self).cache.github), id@) ==> final(self).cache.github->0.metadata.last_sync == now,
    {
        let mut removed = false;
        if let Some(mut data) = self.cache.local.take() {
            let hit = data.remove(id, now);
            removed = removed || hit;
            self.cache.local = Some(data);
        }
        if let Some(mut data) = self.cache.github.take() {
            let hit = data.remove(id, now);
            removed = removed || hit;
            self.cache.github = Some(data);
        }
        removed
    }

    /// From this manager, `after` is reached by taking the record `id` out
    /// at `now`: every snapshot that held it is marked as synchronised at
    /// that one time.
    pub open spec fn deleted_at(&self, after: PasswordManager, id: Seq<char>, now: Timestamp) -> bool {
        &&& take_effect(self.cache.local, after.cache.local, id)
        &&& take_effect(self.cache.github, after.cache.github, id)
        &&& has_id(records_of(self.cache.local), id) ==> after.cache.local->0.metadata.last_sync
            == now
        &&& has_id(records_of(self.cache.github), id) ==> after.cache.github->0.metadata.last_sync
            == now
    }

    /// Takes the record with identifier `id` out of every cached snapshot
    /// that holds it, and marks each of those as synchronised at one and
    /// the same time.
    ///
    /// Fails with `NotFoundFailure`, and changes nothing, exactly when no
    /// cached snapshot holds a record with that identifier.
    pub fn delete_password(&mut self, password_id: &str) -> (r: Result<(), VaultError>)
        requires
            old(self).wf(),
        ensures
            final(self).wf(),
            final(self).config == old(self).config,
            final(self).storages == old(self).storages,
            r is Ok <==> has_id(records_of(old(self).cache.local), password_id@) || has_id(
                records_of(old(self).cache.github),
                password_id@,
            ),
            r matches Err(e) ==> e.kind == ErrorKind::NotFoundFailure && *final(self) == *old(self),
            take_effect(old(self).cache.local, final(self).cache.local, password_id@),
            take_effect(old(self).cache.github, final(self).cache.github, password_id@),
            exists|now: Timestamp| #[trigger] old(self).deleted_at(*final(self), password_id@, now),
    {
        let now = current_time();
        if self.delete_record(password_id, now) {
            assert(old(self).deleted_at(*self, password_id@, now));
            Ok(())
        } else {
            assert(old(self).deleted_at(*self, password_id@, now));
            Err(VaultError::new(ErrorKind::NotFoundFailure, "Password not found"))
        }
    }

    /// From this manager, `after` is reached by applying `request` at
    /// `now` to the record `id`, with the secret `new_secret` where the
    /// request holds a new secret, which `new_secret` then is, sealed under
    /// `key`.
    pub open spec fn updated_as(
        &self,
        after: PasswordManager,
        id: Seq<char>,
        request: PasswordUpdateRequest,
        key: Seq<char>,
        new_secret: Option<EncryptedDataView>,
        now: Timestamp,
    ) -> bool {
        &&& new_secret is Some <==> request.password is Some
        &&& new_secret matches Some(e) ==> sealed_by(e, request.password->0@, key)
        &&& update_effect(self.cache.local, after.cache.local, id, request, new_secret, now)
        &&& update_effect(self.cache.github, after.cache.github, id, request, new_secret, now)
    }

    /// Applies `request` at `now` to the record with identifier `id` in
    /// every cached snapshot that holds it: each field that the request
    /// holds replaces the record's, and the secret is replaced by
    /// `new_secret` if one is given. Returns whether any snapshot held the
    /// record.
    pub fn update_record(
        &mut self,
        id: &str,
        request: &PasswordUpdateRequest,
        new_secret: Option<&EncryptedData>,
        now: Timestamp,
    ) -> (updated: bool)
        requires
            old(self).wf(),
        ensures
            final(self).wf(),
            final(self).config == old(self).config,
            final(self).storages == old(self).storages,
            updated == (has_id(records_of(old(self).cache.local), id@) || has_id(
                records_of(old(self).cache.github),
                id@,
            )),
            !updated ==> *final(self) == *old(self),
            update_effect(
                old(self).cache.local,
                final(self).cache.local,
                id@,
                *request,
                opt_secret_view(new_secret),
                now,
            ),
            update_effect(
                old(self).cache.github,
                final(self).cache.github,
                id@,
                *request,
                opt_secret_view(new_secret),
                now,
            ),
    {
        let (local, in_local) = update_entry(self.cache.local.take(), id, request, new_secret, now);
        self.cache.local = local;
        let (hosted, in_hosted) = update_entry(
            self.cache.github.take(),
            id,
            request,
            new_secret,
            now,
        );
        self.cache.github = hosted;
        in_local || in_hosted
    }

    /// Applies `request` to the record with identifier `password_id` in
    /// every cached snapshot that holds it. Where the request holds a new
    /// secret, it is encrypted under `key` and replaces the old one;
    /// otherwise each record keeps its secret.
    ///
    /// Fails with `NotFoundFailure` exactly when no cached snapshot holds
    /// the record, and with `CryptoFailure` when encrypting a new secret
    /// fails, which it does not for a passphrase and a secret within the
    /// sizes that the cipher accepts. A failure changes nothing.
    pub fn update_password(&mut self, password_id: &str, request: PasswordUpdateRequest, key: &str) -> (r:
        Result<(), VaultError>)
        requires
            old(self).wf(),
        ensures
            final(self).wf(),
            final(self).config == old(self).config,
            final(self).storages == old(self).storages,
            match r {
                Ok(_) => old(self).holds(password_id@) && exists|
                    new_secret: Option<EncryptedDataView>,
                    now: Timestamp,
                | #[trigger]
                    old(self).updated_as(*final(self), password_id@, request, key@, new_secret, now),
                Err(e) => *final(self) == *old(self) && if old(self).holds(password_id@) {
                    e.kind == ErrorKind::CryptoFailure && request.password is Some
                } else {
                    e.kind == ErrorKind::NotFoundFailure
                },
            },
            old(self).holds(password_id@) && (request.password matches Some(secret)
                ==> vstd::utf8::encode_utf8(key@).len() <= crate::crypto::MAX_PASSPHRASE_BYTES
                && vstd::utf8::encode_utf8(secret@).len() <= crate::crypto::MAX_PLAINTEXT_BYTES)
                ==> r is Ok,
    {
        let in_local = match &self.cache.local {
            Some(data) => data.contains_id(password_id),
            None => false,
        };
        let in_hosted = match &self.cache.github {
            Some(data) => data.contains_id(password_id),
            None => false,
        };
        if !in_local && !in_hosted {
            return Err(VaultError::new(ErrorKind::NotFoundFailure, "Password not found"));
        }
        let new_secret = match &request.password {
            Some(secret) => match encrypt_with_password(secret.as_str(), key) {
                Ok(blob) => Some(blob),
                Err(e) => {
                    return Err(e);
                },
            },
            None => None,
        };
        let now = current_time();
        let updated = match &new_secret {
            Some(blob) => self.update_record(password_id, &request, Some(blob), now),
            None => self.update_record(password_id, &request, None, now),
        };
        assert(old(self).updated_as(
            *self,
            password_id@,
            request,
            key@,
            match new_secret {
                Some(blob) => Some(blob@),
                None => None,
            },
            now,
        ));
        Ok(())
    }

    /// Some cached snapshot holds a record with identifier `id`.
    pub open spec fn holds(&self, id: Seq<char>) -> bool {
        has_id(records_of(self.cache.local), id) || has_id(records_of(self.cache.github), id)
    }

    /// Whether `p` occurs in `s`.
    pub fn is_content_match(s: &str, p: &str) -> (found: bool)
        ensures
            found == is_substring(p@, s@),
    {
        str_contains(s, p)
    }

    /// The records of `data` whose title or description contains `query`.
    pub fn search_in_storagedata(query: &str, data: &StorageData) -> (out: Vec<Password>)
        ensures
            records_view(out@) == search_spec(data.records(), query@),
    {
        data.search(query)
    }

    /// The records of all cached snapshots whose title or description
    /// contains `query`, one for each identifier; where two backends hold
    /// a record under one identifier, the hosted backend's is returned.
    pub fn search_passwords(&self, query: &str) -> (out: Vec<Password>)
        requires
            self.wf(),
        ensures
            records_view(out@) == self.search_all_spec(query@),
    {
        let zero = Timestamp { secs: 0, nanos: 0 };
        let mut found = StorageData::empty("", zero);
        if let Some(data) = &self.cache.local {
            let hits = data.search(query);
            merge_into(&mut found, hits, zero);
        } else {
            assert(search_spec(Seq::<PasswordView>::empty(), query@) =~= Seq::<
                PasswordView,
            >::empty()) by {
                reveal(Seq::filter);
            }
        }
        if let Some(data) = &self.cache.github {
            let hits = data.search(query);
            merge_into(&mut found, hits, zero);
        } else {
            assert(search_spec(Seq::<PasswordView>::empty(), query@) =~= Seq::<
                PasswordView,
            >::empty()) by {
                reveal(Seq::filter);
            }
        }
        found.passwords
    }

    /// The records of the cached snapshot of `target` whose title or
    /// description contains `query`.
    ///
    /// Fails with `NotFoundFailure` exactly when the backend has no
    /// cached snapshot.
    pub fn search_passwords_in_storage(&self, query: &str, target: StorageTarget) -> (r: Result<
        Vec<Password>,
        VaultError,
    >)
        ensures
            match r {
                Ok(out) => self.cached(target) matches Some(d) && records_view(out@)
                    == search_spec(d.records(), query@),
                Err(e) => e.kind == ErrorKind::NotFoundFailure && self.cached(target) is None,
            },
    {
        let entry = match target {
            StorageTarget::Local => &self.cache.local,
            StorageTarget::GitHub => &self.cache.github,
        };
        match entry {
            Some(data) => Ok(data.search(query)),
            None => Err(VaultError::new(ErrorKind::NotFoundFailure, "no data for this storage target")),
        }
    }

    /// A copy of the record with identifier `id` in the cached snapshot of
    /// `target`, if it holds one.
    ///
    /// Fails with `NotFoundFailure` exactly when the backend has no
    /// cached snapshot.
    pub fn get_password_by_id_from_storage(&self, password_id: &str, target: StorageTarget) -> (r:
        Result<Option<Password>, VaultError>)
        requires
            self.wf(),
        ensures
            match r {
                Ok(found) => self.cached(target) matches Some(d) && match found {
                    Some(p) => has_id(d.records(), password_id@) && p@ == d.records()[position_of(
                        d.records(),
                        password_id@,
                    )],
                    None => !has_id(d.records(), password_id@),
                },
                Err(e) => e.kind == ErrorKind::NotFoundFailure && self.cached(target) is None,
            },
    {
        let entry = match target {
            StorageTarget::Local => &self.cache.local,
            StorageTarget::GitHub => &self.cache.github,
        };
        match entry {
            Some(data) => {
                assert(self.cached(target) == Some(*data));
                Ok(data.get(password_id))
            },
            None => Err(VaultError::new(ErrorKind::NotFoundFailure, "no data for this storage target")),
        }
    }

    /// A copy of the cached snapshot of `target`.
    ///
    /// Fails with `NotFoundFailure` exactly when the backend has no
    /// cached snapshot.
    pub fn get_all_passwords_from_storage(&self, target: StorageTarget) -> (r: Result<
        StorageData,
        VaultError,
    >)
        requires
            self.wf(),
        ensures
            match r {
                Ok(data) => self.cached(target) matches Some(d) && data.records() == d.records()
                    && data.wf() && data.metadata.version@ == d.metadata.version@
                    && data.metadata.last_sync == d.metadata.last_sync
                    && data.metadata.password_count == d.metadata.password_count,
                Err(e) => e.kind == ErrorKind::NotFoundFailure && self.cached(target) is None,
            },
    {
        let entry = match target {
            StorageTarget::Local => &self.cache.local,
            StorageTarget::GitHub => &self.cache.github,
        };
        match entry {
            Some(data) => {
                assert(self.cached(target) == Some(*data));
                Ok(data.clone())
            },
            None => Err(VaultError::new(ErrorKind::NotFoundFailure, "no data for this storage target")),
        }
    }

    /// The snapshots to persist after a change: a copy of every cached
    /// snapshot, the local one first.
    pub fn save_plan(&self) -> (jobs: Vec<SaveJob>)
        requires
            self.wf(),
        ensures
            jobs@.len() == (if self.cache.local is Some { 1int } else { 0 }) + (if self.cache.github
                is Some { 1int } else { 0 }),
            forall|i: int|
                0 <= i < jobs@.len() ==> self.enabled((#[trigger] jobs@[i]).target)
                    && jobs@[i].data.wf() && (self.cached(jobs@[i].target) matches Some(d)
                    && jobs@[i].data.records() == d.records()
                    && jobs@[i].data.metadata.password_count == d.metadata.password_count
                    && jobs@[i].data.metadata.last_sync == d.metadata.last_sync
                    && jobs@[i].data.metadata.version@ == d.metadata.version@),
            self.cache.local is Some ==> jobs@[0].target == StorageTarget::Local,
            self.cache.github is Some ==> jobs@[jobs@.len() - 1].target == StorageTarget::GitHub,
    {
        let mut jobs: Vec<SaveJob> = Vec::new();
        if let Some(data) = &self.cache.local {
            assert(self.cached(StorageTarget::Local) == Some(*data));
            jobs.push(SaveJob { target: StorageTarget::Local, data: data.clone() });
        }
        if let Some(data) = &self.cache.github {
            assert(self.cached(StorageTarget::GitHub) == Some(*data));
            jobs.push(SaveJob { target: StorageTarget::GitHub, data: data.clone() });
        }
        jobs
    }

    /// Generates a password for `config`. The cache plays no part.
    pub fn generate_password(&self, config: &PasswordGeneratorConfig) -> (r: Result<
        String,
        VaultError,
    >)
        ensures
            r is Err <==> allowed_chars(*config).len() == 0,
            r matches Err(e) ==> e.kind == ErrorKind::InvalidInput,
            r matches Ok(s) ==> is_generated_for(s@, *config),
    {
        generate_password(config)
    }

    /// Decrypts `data` under `key`. The cache plays no part.
    pub fn decrypt_password(&self, key: &str, data: &EncryptedData) -> (r: Result<
        String,
        VaultError,
    >)
        ensures
            match r {
                Ok(s) => open_spec(data@, key@) == Some(s@),
                Err(e) => e.kind == ErrorKind::CryptoFailure && e.message@ == decryption_failure()
                    && open_spec(data@, key@) is None,
            },
    {
        decrypt_with_password(data, key)
    }
}

/// After a record is put in while some backend is enabled, a search over
/// all backends for a query that occurs in its title returns it.
pub proof fn lemma_added_record_is_found(
    before: PasswordManager,
    after: PasswordManager,
    p: PasswordView,
    query: Seq<char>,
)
    requires
        before.wf(),
        put_effect(before.cache.local, before.storages.local is Some, after.cache.local, p),
        put_effect(before.cache.github, before.storages.github is Some, after.cache.github, p),
        before.storages.local is Some || before.storages.github is Some,
        is_substring(query, p.title),
    ensures
        after.search_all_spec(query).contains(p),
{
    let pred = |r: PasswordView| matches_query(r, query);
    let local = search_spec(records_of(after.cache.local), query);
    let hosted = search_spec(records_of(after.cache.github), query);
    let first = upsert_all(Seq::empty(), local);
    if before.storages.github is Some {
        lemma_search_finds_inserted(records_of(before.cache.github), p, query);
        lemma_filter_keeps_unique_ids(records_of(after.cache.github), pred);
        lemma_upsert_all_holds_items(first, hosted, p);
    } else {
        assert(hosted =~= Seq::<PasswordView>::empty()) by {
            reveal(Seq::filter);
        }
        lemma_search_finds_inserted(records_of(before.cache.local), p, query);
        lemma_filter_keeps_unique_ids(records_of(after.cache.local), pred);
        lemma_upsert_all_holds_items(Seq::empty(), local, p);
    }
}

/// After the record `id` is taken out, no search over all backends
/// returns a record with that identifier.
pub proof fn lemma_deleted_record_is_not_found(
    before: PasswordManager,
    after: PasswordManager,
    id: Seq<char>,
    query: Seq<char>,
)
    requires
        before.wf(),
        take_effect(before.cache.local, after.cache.local, id),
        take_effect(before.cache.github, after.cache.github, id),
    ensures
        forall|r: PasswordView| #[trigger] after.search_all_spec(query).contains(r) ==> r.id != id,
{
    let local = search_spec(records_of(after.cache.local), query);
    let hosted = search_spec(records_of(after.cache.github), query);
    let first = upsert_all(Seq::empty(), local);
    lemma_upsert_all_members(Seq::empty(), local);
    lemma_upsert_all_members(first, hosted);
    assert forall|r: PasswordView| #[trigger] local.contains(r) implies r.id != id by {
        match before.cache.local {
            Some(b) => {
                lemma_search_misses_removed(b.records(), id, query);
            },
            None => {
                reveal(Seq::filter);
            },
        }
    }
    assert forall|r: PasswordView| #[trigger] hosted.contains(r) implies r.id != id by {
        match before.cache.github {
            Some(b) => {
                lemma_search_misses_removed(b.records(), id, query);
            },
            None => {
                reveal(Seq::filter);
            },
        }
    }
    assert forall|r: PasswordView| #[trigger]
        after.search_all_spec(query).contains(r) implies r.id != id by {
        if !hosted.contains(r) {
            assert(first.contains(r));
            assert(local.contains(r));
        }
    }
}

/// After the record `id` is taken out, a search over all backends
/// returns records under exactly the identifiers it returned before, but
/// for `id`: no other identifier goes, and none comes in.
pub proof fn lemma_delete_keeps_other_results(
    before: PasswordManager,
    after: PasswordManager,
    id: Seq<char>,
    query: Seq<char>,
    other: Seq<char>,
)
    requires
        before.wf(),
        take_effect(before.cache.local, after.cache.local, id),
        take_effect(before.cache.github, after.cache.github, id),
    ensures
        has_id(after.search_all_spec(query), other) <==> has_id(
            before.search_all_spec(query),
            other,
        ) && other != id,
{
    let l0 = search_spec(records_of(before.cache.local), query);
    let g0 = search_spec(records_of(before.cache.github), query);
    let l1 = search_spec(records_of(after.cache.local), query);
    let g1 = search_spec(records_of(after.cache.github), query);
    let none = Seq::<PasswordView>::empty();
    lemma_upsert_all_ids(none, l0, other);
    lemma_upsert_all_ids(upsert_all(none, l0), g0, other);
    lemma_upsert_all_ids(none, l1, other);
    lemma_upsert_all_ids(upsert_all(none, l1), g1, other);
    assert(!has_id(none, other));
    lemma_has_id_by_member(l0, other);
    lemma_has_id_by_member(l1, other);
    lemma_has_id_by_member(g0, other);
    lemma_has_id_by_member(g1, other);
    match before.cache.local {
        Some(b) => {
            lemma_search_after_removal(b.records(), id, query);
        },
        None => {},
    }
    match before.cache.github {
        Some(b) => {
            lemma_search_after_removal(b.records(), id, query);
        },
        None => {},
    }
    assert(has_id(l1, other) <==> has_id(l0, other) && other != id) by {
        if has_id(l1, other) {
            let r = choose|r: PasswordView| #[trigger] l1.contains(r) && r.id == other;
            assert(l0.contains(r) && r.id == other);
        }
        if has_id(l0, other) && other != id {
            let r = choose|r: PasswordView| #[trigger] l0.contains(r) && r.id == other;
            assert(l1.contains(r) && r.id == other);
        }
    }
    assert(has_id(g1, other) <==> has_id(g0, other) && other != id) by {
        if has_id(g1, other) {
            let r = choose|r: PasswordView| #[trigger] g1.contains(r) && r.id == other;
            assert(g0.contains(r) && r.id == other);
        }
        if has_id(g0, other) && other != id {
            let r = choose|r: PasswordView| #[trigger] g0.contains(r) && r.id == other;
            assert(g1.contains(r) && r.id == other);
        }
    }
}

/// Putting in a record whose identifier no cached snapshot uses adds
/// exactly one record to the snapshot of every enabled backend, after the
/// records that were there, which stay as they are; the count of each
/// grows by one.
pub proof fn lemma_fresh_id_adds_one(
    before: Option<StorageData>,
    after: Option<StorageData>,
    p: PasswordView,
)
    requires
        before matches Some(b) ==> b.wf(),
        put_effect(before, true, after, p),
        !has_id(records_of(before), p.id),
    ensures
        after matches Some(d) && d.records() == records_of(before).push(p)
            && d.metadata.password_count == records_of(before).len() + 1,
{
    lemma_fresh_record_is_appended(records_of(before), p);
}

/// After any putting in or taking out, the metadata of every cached
/// snapshot counts its records.
pub proof fn lemma_counts_match_records(m: PasswordManager, target: StorageTarget)
    requires
        m.wf(),
    ensures
        m.cached(target) matches Some(d) ==> d.metadata.password_count == d.records().len(),
{
}

/// The line that reports a failed save names its backend.
pub proof fn lemma_failure_line_names_target(target: StorageTarget, message: Seq<char>)
    ensures
        is_substring(target.name_spec(), failure_line(target, message)),
{
    let name = target.name_spec();
    lemma_is_substring_reflexive(name);
    lemma_is_substring_of_concat(name, "Failed to save to "@, name, ": "@ + message);
    assert("Failed to save to "@ + name + (": "@ + message) =~= failure_line(target, message));
}

/// The aggregated message names every backend whose save failed, and
/// holds the line of each.
pub proof fn lemma_every_failure_is_named(reports: Seq<SaveReport>, i: int)
    requires
        0 <= i < reports.len(),
        reports[i].result is Err,
    ensures
        is_substring(
            failure_line(reports[i].target, reports[i].result->Err_0.message@),
            aggregate_message(reports),
        ),
        is_substring(reports[i].target.name_spec(), aggregate_message(reports)),
    decreases reports.len(),
{
    let init = reports.drop_last();
    let head = aggregate_message(init);
    let whole = aggregate_message(reports);
    let line = failure_line(reports[i].target, reports[i].result->Err_0.message@);
    let name = reports[i].target.name_spec();
    lemma_failure_line_names_target(reports[i].target, reports[i].result->Err_0.message@);
    if i == reports.len() - 1 {
        lemma_is_substring_reflexive(line);
        if any_failed(init) {
            lemma_is_substring_of_concat(line, head + "\n"@, line, Seq::empty());
            assert(head + "\n"@ + line + Seq::<char>::empty() =~= whole);
            lemma_is_substring_of_concat(name, head + "\n"@, line, Seq::empty());
        }
    } else {
        assert(init[i] == reports[i]);
        lemma_every_failure_is_named(init, i);
        match reports.last().result {
            Ok(_) => {},
            Err(e) => {
                let tail = "\n"@ + failure_line(reports.last().target, e.message@);
                assert(any_failed(init));
                assert(Seq::<char>::empty() + head + tail =~= whole);
                lemma_is_substring_of_concat(line, Seq::empty(), head, tail);
                lemma_is_substring_of_concat(name, Seq::empty(), head, tail);
            },
        }
    }
}

/// Puts each record of `items` into `found`, in order.
fn merge_into(found: &mut StorageData, items: Vec<Password>, now: Timestamp)
    requires
        old(found).wf(),
    ensures
        final(found).wf(),
        final(found).records() == upsert_all(old(found).records(), records_view(items@)),
{
    let ghost all = records_view(items@);
    let mut i: usize = 0;
    while i < items.len()
        invariant
            i <= items.len(),
            all == records_view(items@),
            found.wf(),
            found.records() == upsert_all(old(found).records(), all.subrange(0, i as int)),
        decreases items.len() - i,
    {
        proof {
            assert(all.subrange(0, i + 1).drop_last() =~= all.subrange(0, i as int));
            assert(all.subrange(0, i + 1).last() == items@[i as int]@);
        }
        found.insert(items[i].clone(), now);
        i += 1;
    }
    assert(all.subrange(0, items.len() as int) =~= all);
}

} // verus!
