//! The snapshot of one backend: its records, keyed by identifier, and the
//! metadata that counts them.

use vstd::prelude::*;
use crate::crypto::EncryptedData;
use crate::password::{
    Password, PasswordUpdateRequest, PasswordView, Timestamp, applied, current_time,
};
use crate::text::{is_substring, str_contains, str_eq};

verus! {

/// Which backend a snapshot belongs to.
#[derive(Debug, Clone, Copy, PartialEq, Eq, Hash, Structural)]
pub enum StorageTarget {
    /// The file on the local disk.
    Local,
    /// The file in the hosted repository.
    GitHub,
}

impl StorageTarget {
    /// The target's name as a character sequence.
    pub open spec fn name_spec(self) -> Seq<char> {
        match self {
            StorageTarget::Local => "Local"@,
            StorageTarget::GitHub => "GitHub"@,
        }
    }

    /// The target's name: `Local` or `GitHub`.
    pub fn name(&self) -> (s: &'static str)
        ensures
            s@ == self.name_spec(),
    {
        match self {
            StorageTarget::Local => "Local",
            StorageTarget::GitHub => "GitHub",
        }
    }

    /// The target that a lowercase name stands for: `local` or `github`.
    pub fn from_name(name: &str) -> (r: Option<StorageTarget>)
        ensures
            r == if name@ == "local"@ {
                Some(StorageTarget::Local)
            } else if name@ == "github"@ {
                Some(StorageTarget::GitHub)
            } else {
                None
            },
    {
        if str_eq(name, "local") {
            Some(StorageTarget::Local)
        } else if str_eq(name, "github") {
            Some(StorageTarget::GitHub)
        } else {
            None
        }
    }

    /// The target's name, as an owned string.
    pub fn to_string(&self) -> (s: String)
        ensures
            s@ == self.name_spec(),
    {
        self.name().to_owned()
    }
}

/// What a snapshot records about itself.
#[derive(Debug)]
pub struct StorageMetadata {
    pub version: String,
    pub last_sync: Timestamp,
    pub password_count: usize,
}

/// The complete set of records held by one backend.
///
/// Records are kept in the order in which their identifiers first came in.
#[derive(Debug)]
pub struct StorageData {
    pub metadata: StorageMetadata,
    pub passwords: Vec<Password>,
}

/// The contents of a sequence of records.
pub open spec fn records_view(v: Seq<Password>) -> Seq<PasswordView> {
    v.map_values(|p: Password| p@)
}

/// No identifier occurs twice.
pub open spec fn unique_ids(s: Seq<PasswordView>) -> bool {
    forall|i: int, j: int| 0 <= i < j < s.len() ==> s[i].id != s[j].id
}

/// Some record has the identifier `id`.
pub open spec fn has_id(s: Seq<PasswordView>, id: Seq<char>) -> bool {
    exists|i: int| 0 <= i < s.len() && #[trigger] s[i].id == id
}

/// The position of a record with identifier `id`.
pub open spec fn position_of(s: Seq<PasswordView>, id: Seq<char>) -> int {
    choose|i: int| 0 <= i < s.len() && #[trigger] s[i].id == id
}

/// `s` with `p` put in: in place of the record with the same identifier
/// where there is one, at the end otherwise.
pub open spec fn upsert(s: Seq<PasswordView>, p: PasswordView) -> Seq<PasswordView> {
    if has_id(s, p.id) {
        s.update(position_of(s, p.id), p)
    } else {
        s.push(p)
    }
}

/// `s` without the record with identifier `id`.
pub open spec fn without(s: Seq<PasswordView>, id: Seq<char>) -> Seq<PasswordView> {
    if has_id(s, id) {
        s.remove(position_of(s, id))
    } else {
        s
    }
}

/// `s` with each record of `items` put in, in order.
pub open spec fn upsert_all(s: Seq<PasswordView>, items: Seq<PasswordView>) -> Seq<PasswordView>
    decreases items.len(),
{
    if items.len() == 0 {
        s
    } else {
        upsert(upsert_all(s, items.drop_last()), items.last())
    }
}

/// The query occurs in the record's title or in its description.
pub open spec fn matches_query(p: PasswordView, query: Seq<char>) -> bool {
    is_substring(query, p.title) || is_substring(query, p.description)
}

/// The records of `s` that match `query`, in their order.
pub open spec fn search_spec(s: Seq<PasswordView>, query: Seq<char>) -> Seq<PasswordView> {
    s.filter(|p: PasswordView| matches_query(p, query))
}

impl StorageData {
    /// The contents of the records, in order.
    pub open spec fn records(&self) -> Seq<PasswordView> {
        records_view(self.passwords@)
    }

    /// The snapshot's invariant: identifiers are unique, and the metadata
    /// counts the records.
    pub open spec fn wf(&self) -> bool {
        &&& unique_ids(self.records())
        &&& self.metadata.password_count == self.passwords@.len()
    }

    /// An empty snapshot of the given schema version, synchronised at `now`.
    pub fn empty(version: &str, now: Timestamp) -> (data: StorageData)
        ensures
            data.wf(),
            data.records() == Seq::<PasswordView>::empty(),
            data.metadata.version@ == version@,
            data.metadata.last_sync == now,
            data.metadata.password_count == 0,
    {
        let data = StorageData {
            metadata: StorageMetadata {
                version: version.to_owned(),
                last_sync: now,
                password_count: 0,
            },
            passwords: Vec::new(),
        };
        assert(data.records() =~= Seq::<PasswordView>::empty());
        data
    }

    /// An empty snapshot of schema version `1`, synchronised now.
    pub fn new() -> (data: StorageData)
        ensures
            data.wf(),
            data.records() == Seq::<PasswordView>::empty(),
            data.metadata.version@ == "1"@,
            data.metadata.password_count == 0,
    {
        StorageData::empty("1", current_time())
    }

    /// The snapshot that holds `records` put in one after the other, a
    /// later record replacing an earlier one with the same identifier.
    pub fn from_records(version: &str, last_sync: Timestamp, records: Vec<Password>) -> (data:
        StorageData)
        ensures
            data.wf(),
            data.records() == upsert_all(Seq::<PasswordView>::empty(), records_view(records@)),
            data.metadata.version@ == version@,
            data.metadata.last_sync == last_sync,
    {
        let mut data = StorageData::empty(version, last_sync);
        let ghost all = records_view(records@);
        let mut i: usize = 0;
        while i < records.len()
            invariant
                i <= records.len(),
                all == records_view(records@),
                data.wf(),
                data.records() == upsert_all(Seq::<PasswordView>::empty(), all.subrange(0, i as int)),
                data.metadata.version@ == version@,
                data.metadata.last_sync == last_sync,
            decreases records.len() - i,
        {
            proof {
                assert(all.subrange(0, i + 1).drop_last() =~= all.subrange(0, i as int));
                assert(all.subrange(0, i + 1).last() == records@[i as int]@);
            }
            data.insert(records[i].clone(), last_sync);
            i += 1;
        }
        assert(all.subrange(0, records.len() as int) =~= all);
        data
    }

    /// Whether the snapshot's invariant holds.
    pub fn is_well_formed(&self) -> (ok: bool)
        ensures
            ok == self.wf(),
    {
        if self.metadata.password_count != self.passwords.len() {
            return false;
        }
        let mut i: usize = 0;
        while i < self.passwords.len()
            invariant
                i <= self.passwords.len(),
                unique_ids(self.records().subrange(0, i as int)),
            decreases self.passwords.len() - i,
        {
            let mut j: usize = 0;
            while j < i
                invariant
                    j <= i < self.passwords.len(),
                    forall|k: int| 0 <= k < j ==> self.records()[k].id != self.records()[i as int].id,
                decreases i - j,
            {
                if self.passwords[j].id == self.passwords[i].id {
                    assert(self.records()[j as int].id == self.records()[i as int].id);
                    return false;
                }
                j += 1;
            }
            i += 1;
        }
        assert(self.records().subrange(0, self.passwords.len() as int) =~= self.records());
        true
    }

    /// The number of records.
    pub fn len(&self) -> (n: usize)
        ensures
            n == self.records().len(),
    {
        self.passwords.len()
    }

    /// The position of the record with identifier `id`, if there is one.
    pub fn find(&self, id: &str) -> (r: Option<usize>)
        ensures
            match r {
                Some(i) => i < self.records().len() && self.records()[i as int].id == id@
                    && forall|k: int| 0 <= k < i ==> self.records()[k].id != id@,
                None => !has_id(self.records(), id@),
            },
    {
        let mut i: usize = 0;
        while i < self.passwords.len()
            invariant
                i <= self.passwords.len(),
                forall|k: int| 0 <= k < i ==> self.records()[k].id != id@,
            decreases self.passwords.len() - i,
        {
            if str_eq(self.passwords[i].id.as_str(), id) {
                return Some(i);
            }
            i += 1;
        }
        None
    }

    /// Whether a record with identifier `id` is present.
    pub fn contains_id(&self, id: &str) -> (found: bool)
        ensures
            found == has_id(self.records(), id@),
    {
        self.find(id).is_some()
    }

    /// A copy of the record with identifier `id`, if there is one.
    pub fn get(&self, id: &str) -> (r: Option<Password>)
        requires
            self.wf(),
        ensures
            match r {
                Some(p) => has_id(self.records(), id@) && p@ == self.records()[position_of(
                    self.records(),
                    id@,
                )],
                None => !has_id(self.records(), id@),
            },
    {
        match self.find(id) {
            Some(i) => {
                proof {
                    lemma_position_unique(self.records(), id@, i as int);
                }
                Some(self.passwords[i].clone())
            },
            None => None,
        }
    }

    /// Puts `password` in, replacing the record with the same identifier
    /// if there is one, and marks the snapshot as synchronised at `now`.
    /// Returns whether a record was replaced.
    pub fn insert(&mut self, password: Password, now: Timestamp) -> (replaced: bool)
        requires
            old(self).wf(),
        ensures
            final(self).wf(),
            final(self).records() == upsert(old(self).records(), password@),
            replaced == has_id(old(self).records(), password@.id),
            final(self).metadata.last_sync == now,
            final(self).metadata.version == old(self).metadata.version,
    {
        let found = self.find(password.id.as_str());
        let ghost before = self.records();
        let ghost p = password@;
        match found {
            Some(i) => {
                proof {
                    lemma_position_unique(before, p.id, i as int);
                }
                self.passwords.set(i, password);
                self.metadata.last_sync = now;
                assert(self.records() =~= before.update(i as int, p));
                true
            },
            None => {
                self.passwords.push(password);
                self.metadata.password_count = self.passwords.len();
                self.metadata.last_sync = now;
                assert(self.records() =~= before.push(p));
                false
            },
        }
    }

    /// Takes the record with identifier `id` out, if there is one, and
    /// then marks the snapshot as synchronised at `now`. Returns whether a
    /// record was taken out; if none was, the snapshot is unchanged.
    pub fn remove(&mut self, id: &str, now: Timestamp) -> (removed: bool)
        requires
            old(self).wf(),
        ensures
            final(self).wf(),
            final(self).records() == without(old(self).records(), id@),
            removed == has_id(old(self).records(), id@),
            removed ==> final(self).metadata.last_sync == now,
            !removed ==> *final(self) == *old(self),
            final(self).metadata.version == old(self).metadata.version,
    {
        let found = self.find(id);
        let ghost before = self.records();
        match found {
            Some(i) => {
                proof {
                    lemma_position_unique(before, id@, i as int);
                }
                self.passwords.remove(i);
                self.metadata.password_count = self.passwords.len();
                self.metadata.last_sync = now;
                assert(self.records() =~= before.remove(i as int));
                true
            },
            None => false,
        }
    }

    /// Applies `request` at `now`, with the secret `encrypted_password`, to
    /// the record with identifier `id`, if there is one, and then marks the
    /// snapshot as synchronised at `now`. Returns whether a record was
    /// changed; if none was, the snapshot is unchanged.
    pub fn update(
        &mut self,
        id: &str,
        request: PasswordUpdateRequest,
        encrypted_password: EncryptedData,
        now: Timestamp,
    ) -> (updated: bool)
        requires
            old(self).wf(),
        ensures
            final(self).wf(),
            updated == has_id(old(self).records(), id@),
            updated ==> final(self).records() == old(self).records().update(
                position_of(old(self).records(), id@),
                applied(
                    old(self).records()[position_of(old(self).records(), id@)],
                    request,
                    encrypted_password@,
                    now,
                ),
            ) && final(self).metadata.last_sync == now,
            !updated ==> *final(self) == *old(self),
            final(self).metadata.version == old(self).metadata.version,
    {
        let found = self.find(id);
        let ghost before = self.records();
        match found {
            Some(i) => {
                proof {
                    lemma_position_unique(before, id@, i as int);
                }
                let mut record = self.passwords.remove(i);
                record.update_at(request, encrypted_password, now);
                let ghost after = record@;
                self.passwords.insert(i, record);
                self.metadata.last_sync = now;
                assert(self.records() =~= before.update(i as int, after));
                assert(after.id == before[i as int].id);
                true
            },
            None => false,
        }
    }

    /// The records whose title or description contains `query`, in order.
    pub fn search(&self, query: &str) -> (out: Vec<Password>)
        ensures
            records_view(out@) == search_spec(self.records(), query@),
    {
        let mut out: Vec<Password> = Vec::new();
        let ghost all = self.records();
        let mut i: usize = 0;
        proof {
            reveal(Seq::filter);
            assert(all.subrange(0, 0) =~= Seq::<PasswordView>::empty());
            assert(records_view(out@) =~= search_spec(all.subrange(0, 0), query@));
        }
        while i < self.passwords.len()
            invariant
                i <= self.passwords.len(),
                all == self.records(),
                records_view(out@) == search_spec(all.subrange(0, i as int), query@),
            decreases self.passwords.len() - i,
        {
            let p = &self.passwords[i];
            let hit = str_contains(p.title.as_str(), query) || str_contains(
                p.description.as_str(),
                query,
            );
            proof {
                reveal(Seq::filter);
                assert(all.subrange(0, i + 1).drop_last() =~= all.subrange(0, i as int));
                assert(all.subrange(0, i + 1).last() == p@);
                assert(hit == matches_query(p@, query@));
            }
            if hit {
                let ghost prev = records_view(out@);
                out.push(p.clone());
                assert(records_view(out@) =~= prev.push(p@));
            }
            i += 1;
        }
        assert(all.subrange(0, self.passwords.len() as int) =~= all);
        out
    }
}

impl Clone for StorageMetadata {
    fn clone(&self) -> (r: Self)
        ensures
            r.version@ == self.version@,
            r.last_sync == self.last_sync,
            r.password_count == self.password_count,
    {
        StorageMetadata {
            version: self.version.clone(),
            last_sync: self.last_sync,
            password_count: self.password_count,
        }
    }
}

impl Clone for StorageData {
    fn clone(&self) -> (r: Self)
        ensures
            r.records() == self.records(),
            r.metadata.version@ == self.metadata.version@,
            r.metadata.last_sync == self.metadata.last_sync,
            r.metadata.password_count == self.metadata.password_count,
            self.wf() ==> r.wf(),
    {
        let mut passwords: Vec<Password> = Vec::new();
        let mut i: usize = 0;
        while i < self.passwords.len()
            invariant
                i <= self.passwords.len(),
                passwords@.len() == i,
                forall|k: int| 0 <= k < i ==> passwords@[k]@ == self.passwords@[k]@,
            decreases self.passwords.len() - i,
        {
            passwords.push(self.passwords[i].clone());
            i += 1;
        }
        let r = StorageData { metadata: self.metadata.clone(), passwords };
        assert(r.records() =~= self.records());
        r
    }
}

/// What a filter keeps was in the sequence.
pub proof fn lemma_filter_keeps_members(s: Seq<PasswordView>, pred: spec_fn(PasswordView) -> bool)
    ensures
        forall|x: PasswordView| #[trigger] s.filter(pred).contains(x) ==> s.contains(x),
    decreases s.len(),
{
    reveal(Seq::filter);
    if s.len() > 0 {
        lemma_filter_keeps_members(s.drop_last(), pred);
        assert forall|x: PasswordView| #[trigger] s.filter(pred).contains(x) implies s.contains(
            x,
        ) by {
            if s.drop_last().filter(pred).contains(x) {
                let k = choose|k: int| 0 <= k < s.drop_last().len() && s.drop_last()[k] == x;
                assert(s[k] == x);
            } else {
                assert(x == s.last());
                assert(s[s.len() - 1] == x);
            }
        }
    }
}

/// A record that was put in is found by every query that occurs in its
/// title.
pub proof fn lemma_search_finds_inserted(s: Seq<PasswordView>, p: PasswordView, query: Seq<char>)
    requires
        unique_ids(s),
        is_substring(query, p.title),
    ensures
        search_spec(upsert(s, p), query).contains(p),
{
    let t = upsert(s, p);
    let pred = |r: PasswordView| matches_query(r, query);
    let idx = if has_id(s, p.id) {
        position_of(s, p.id)
    } else {
        s.len() as int
    };
    assert(0 <= idx < t.len() && t[idx] == p);
    t.lemma_filter_contains(pred, idx);
}

/// Once a record is taken out, no query finds a record with its
/// identifier.
pub proof fn lemma_search_misses_removed(s: Seq<PasswordView>, id: Seq<char>, query: Seq<char>)
    requires
        unique_ids(s),
    ensures
        forall|r: PasswordView| #[trigger]
            search_spec(without(s, id), query).contains(r) ==> r.id != id,
{
    let t = without(s, id);
    let pred = |r: PasswordView| matches_query(r, query);
    lemma_filter_keeps_members(t, pred);
    assert forall|r: PasswordView| #[trigger] t.contains(r) implies r.id != id by {
        let k = choose|k: int| 0 <= k < t.len() && t[k] == r;
        if has_id(s, id) {
            let pos = position_of(s, id);
            if k < pos {
                assert(t[k] == s[k]);
                assert(s[k].id != s[pos].id);
            } else {
                assert(t[k] == s[k + 1]);
                assert(s[pos].id != s[k + 1].id);
            }
        } else {
            assert(t[k] == s[k]);
        }
    }
}

/// Putting a record in and taking one out keep identifiers unique.
pub proof fn lemma_unique_ids_preserved(s: Seq<PasswordView>, p: PasswordView, id: Seq<char>)
    requires
        unique_ids(s),
    ensures
        unique_ids(upsert(s, p)),
        unique_ids(without(s, id)),
        has_id(upsert(s, p), p.id),
        !has_id(without(s, id), id),
{
    let t = upsert(s, p);
    if has_id(s, p.id) {
        let pos = position_of(s, p.id);
        assert(t[pos].id == p.id);
    } else {
        assert(t[s.len() as int].id == p.id);
    }
    let w = without(s, id);
    if has_id(s, id) {
        let pos = position_of(s, id);
        assert forall|k: int| 0 <= k < w.len() implies #[trigger] w[k].id != id by {
            if k < pos {
                assert(s[k].id != s[pos].id);
            } else {
                assert(w[k] == s[k + 1]);
                assert(s[pos].id != s[k + 1].id);
            }
        }
        assert forall|i: int, j: int| 0 <= i < j < w.len() implies w[i].id != w[j].id by {
            let a = if i < pos { i } else { i + 1 };
            let b = if j < pos { j } else { j + 1 };
            assert(w[i] == s[a] && w[j] == s[b]);
        }
    }
}

/// Putting the records of a well-formed snapshot in again, one after the
/// other, gives the same records in the same order.
pub proof fn lemma_reassembling_keeps_records(s: Seq<PasswordView>)
    requires
        unique_ids(s),
    ensures
        upsert_all(Seq::empty(), s) == s,
    decreases s.len(),
{
    if s.len() > 0 {
        let init = s.drop_last();
        assert forall|i: int, j: int| 0 <= i < j < init.len() implies init[i].id != init[j].id by {
            assert(s[i].id != s[j].id);
        }
        lemma_reassembling_keeps_records(init);
        if has_id(init, s.last().id) {
            let k = choose|k: int| 0 <= k < init.len() && #[trigger] init[k].id == s.last().id;
            assert(s[k].id != s[s.len() - 1].id);
        }
        assert(init.push(s.last()) =~= s);
    } else {
        assert(s =~= Seq::<PasswordView>::empty());
    }
}

/// A record whose identifier is not in use is put at the end: the
/// records that were there stay as they are, and there is one more.
pub proof fn lemma_fresh_record_is_appended(s: Seq<PasswordView>, p: PasswordView)
    requires
        !has_id(s, p.id),
    ensures
        upsert(s, p) == s.push(p),
        upsert(s, p).len() == s.len() + 1,
{
}

/// A search returns exactly the records that match.
pub proof fn lemma_search_members(s: Seq<PasswordView>, query: Seq<char>)
    ensures
        forall|r: PasswordView| #[trigger]
            search_spec(s, query).contains(r) <==> s.contains(r) && matches_query(r, query),
{
    let pred = |r: PasswordView| matches_query(r, query);
    let f = s.filter(pred);
    lemma_filter_keeps_members(s, pred);
    assert forall|r: PasswordView| #[trigger] f.contains(r) <==> s.contains(r) && matches_query(
        r,
        query,
    ) by {
        if f.contains(r) {
            let k = choose|k: int| 0 <= k < f.len() && f[k] == r;
            s.lemma_filter_pred(pred, k);
        }
        if s.contains(r) && matches_query(r, query) {
            let k = choose|k: int| 0 <= k < s.len() && s[k] == r;
            s.lemma_filter_contains(pred, k);
        }
    }
}

/// Taking a record out leaves exactly the records with other
/// identifiers.
pub proof fn lemma_without_members(s: Seq<PasswordView>, id: Seq<char>)
    requires
        unique_ids(s),
    ensures
        forall|r: PasswordView| #[trigger]
            without(s, id).contains(r) <==> s.contains(r) && r.id != id,
{
    let w = without(s, id);
    assert forall|r: PasswordView| #[trigger] w.contains(r) <==> s.contains(r) && r.id != id by {
        if has_id(s, id) {
            let pos = position_of(s, id);
            if w.contains(r) {
                let k = choose|k: int| 0 <= k < w.len() && w[k] == r;
                if k < pos {
                    assert(s[k] == r);
                    assert(s[k].id != s[pos].id);
                } else {
                    assert(s[k + 1] == r);
                    assert(s[pos].id != s[k + 1].id);
                }
            }
            if s.contains(r) && r.id != id {
                let k = choose|k: int| 0 <= k < s.len() && s[k] == r;
                if k < pos {
                    assert(w[k] == r);
                } else {
                    assert(w[k - 1] == r);
                }
            }
        } else {
            if s.contains(r) {
                let k = choose|k: int| 0 <= k < s.len() && s[k] == r;
                assert(s[k].id != id);
            }
        }
    }
}

/// After a record is taken out, a search returns exactly what it
/// returned before but for the record with that identifier: nothing else
/// goes, and nothing comes in.
pub proof fn lemma_search_after_removal(s: Seq<PasswordView>, id: Seq<char>, query: Seq<char>)
    requires
        unique_ids(s),
    ensures
        forall|r: PasswordView| #[trigger]
            search_spec(without(s, id), query).contains(r) <==> search_spec(s, query).contains(r)
                && r.id != id,
{
    lemma_search_members(s, query);
    lemma_search_members(without(s, id), query);
    lemma_without_members(s, id);
}

/// An identifier is in use in a sequence exactly when a record there
/// has it.
pub proof fn lemma_has_id_by_member(s: Seq<PasswordView>, id: Seq<char>)
    ensures
        has_id(s, id) <==> exists|r: PasswordView| #[trigger] s.contains(r) && r.id == id,
{
    if has_id(s, id) {
        let k = choose|k: int| 0 <= k < s.len() && #[trigger] s[k].id == id;
        assert(s.contains(s[k]) && s[k].id == id);
    }
    if exists|r: PasswordView| #[trigger] s.contains(r) && r.id == id {
        let r = choose|r: PasswordView| #[trigger] s.contains(r) && r.id == id;
        let k = choose|k: int| 0 <= k < s.len() && s[k] == r;
        assert(s[k].id == id);
    }
}

/// Putting records in brings in their identifiers and no others.
pub proof fn lemma_upsert_all_ids(s: Seq<PasswordView>, items: Seq<PasswordView>, id: Seq<char>)
    ensures
        has_id(upsert_all(s, items), id) <==> has_id(s, id) || has_id(items, id),
    decreases items.len(),
{
    if items.len() > 0 {
        let init = items.drop_last();
        let last = items.last();
        let t = upsert_all(s, init);
        lemma_upsert_all_ids(s, init, id);
        lemma_upsert_members(t, last);
        lemma_has_id_by_member(t, id);
        lemma_has_id_by_member(upsert(t, last), id);
        lemma_has_id_by_member(items, id);
        lemma_has_id_by_member(init, id);
        assert(items.contains(last)) by {
            assert(items[items.len() - 1] == last);
        }
        assert forall|r: PasswordView| init.contains(r) implies items.contains(r) by {
            let k = choose|k: int| 0 <= k < init.len() && init[k] == r;
            assert(items[k] == r);
        }
        assert forall|r: PasswordView| items.contains(r) implies init.contains(r) || r == last by {
            let k = choose|k: int| 0 <= k < items.len() && items[k] == r;
            if k < items.len() - 1 {
                assert(init[k] == r);
            }
        }
        if has_id(upsert(t, last), id) {
            let r = choose|r: PasswordView| #[trigger] upsert(t, last).contains(r) && r.id == id;
            if r == last {
                assert(items.contains(last) && last.id == id);
            } else {
                assert(t.contains(r) && r.id == id);
            }
        }
        if has_id(s, id) || has_id(items, id) {
            if last.id == id {
                assert(upsert(t, last).contains(last) && last.id == id);
            } else {
                if has_id(items, id) {
                    let r = choose|r: PasswordView| #[trigger] items.contains(r) && r.id == id;
                    assert(init.contains(r) && r.id == id);
                }
                assert(has_id(t, id));
                let r = choose|r: PasswordView| #[trigger] t.contains(r) && r.id == id;
                assert(upsert(t, last).contains(r) && r.id == id);
            }
        }
    }
}

/// A filter keeps identifiers unique.
pub proof fn lemma_filter_keeps_unique_ids(
    s: Seq<PasswordView>,
    pred: spec_fn(PasswordView) -> bool,
)
    requires
        unique_ids(s),
    ensures
        unique_ids(s.filter(pred)),
    decreases s.len(),
{
    reveal(Seq::filter);
    if s.len() > 0 {
        let init = s.drop_last();
        lemma_filter_keeps_unique_ids(init, pred);
        lemma_filter_keeps_members(init, pred);
        let f = s.filter(pred);
        let fi = init.filter(pred);
        assert forall|i: int, j: int| 0 <= i < j < f.len() implies f[i].id != f[j].id by {
            if j < fi.len() {
                assert(f[i] == fi[i] && f[j] == fi[j]);
            } else {
                assert(f[j] == s.last());
                assert(f[i] == fi[i]);
                assert(fi.contains(fi[i]));
                let k = choose|k: int| 0 <= k < init.len() && init[k] == fi[i];
                assert(s[k].id != s[s.len() - 1].id);
            }
        }
    }
}

/// Putting a record in keeps every record with another identifier, and
/// brings nothing in but the record itself.
pub proof fn lemma_upsert_members(s: Seq<PasswordView>, p: PasswordView)
    ensures
        upsert(s, p).contains(p),
        forall|x: PasswordView| s.contains(x) && x.id != p.id ==> #[trigger] upsert(s, p).contains(x),
        forall|x: PasswordView| #[trigger] upsert(s, p).contains(x) ==> s.contains(x) || x == p,
{
    let t = upsert(s, p);
    if has_id(s, p.id) {
        let pos = position_of(s, p.id);
        assert(t[pos] == p);
        assert forall|x: PasswordView| s.contains(x) && x.id != p.id implies #[trigger] t.contains(
            x,
        ) by {
            let k = choose|k: int| 0 <= k < s.len() && s[k] == x;
            assert(t[k] == x);
        }
        assert forall|x: PasswordView| #[trigger] t.contains(x) implies s.contains(x) || x == p by {
            let k = choose|k: int| 0 <= k < t.len() && t[k] == x;
            if k != pos {
                assert(s[k] == x);
            }
        }
    } else {
        assert(t[s.len() as int] == p);
        assert forall|x: PasswordView| s.contains(x) && x.id != p.id implies #[trigger] t.contains(
            x,
        ) by {
            let k = choose|k: int| 0 <= k < s.len() && s[k] == x;
            assert(t[k] == x);
        }
        assert forall|x: PasswordView| #[trigger] t.contains(x) implies s.contains(x) || x == p by {
            let k = choose|k: int| 0 <= k < t.len() && t[k] == x;
            if k < s.len() {
                assert(s[k] == x);
            }
        }
    }
}

/// Putting records with unique identifiers in, one after the other,
/// leaves each of them in the result.
pub proof fn lemma_upsert_all_holds_items(
    s: Seq<PasswordView>,
    items: Seq<PasswordView>,
    x: PasswordView,
)
    requires
        unique_ids(items),
        items.contains(x),
    ensures
        upsert_all(s, items).contains(x),
    decreases items.len(),
{
    let k = choose|k: int| 0 <= k < items.len() && items[k] == x;
    let init = items.drop_last();
    let t = upsert_all(s, init);
    lemma_upsert_members(t, items.last());
    if k < items.len() - 1 {
        assert(init[k] == x);
        assert(init.contains(x));
        assert(unique_ids(init)) by {
            assert forall|i: int, j: int| 0 <= i < j < init.len() implies init[i].id
                != init[j].id by {
                assert(items[i].id != items[j].id);
            }
        }
        lemma_upsert_all_holds_items(s, init, x);
        assert(items[k].id != items[items.len() - 1].id);
    }
}

/// Putting records in brings nothing in but those records.
pub proof fn lemma_upsert_all_members(s: Seq<PasswordView>, items: Seq<PasswordView>)
    ensures
        forall|x: PasswordView| #[trigger]
            upsert_all(s, items).contains(x) ==> s.contains(x) || items.contains(x),
    decreases items.len(),
{
    if items.len() > 0 {
        let init = items.drop_last();
        let t = upsert_all(s, init);
        lemma_upsert_all_members(s, init);
        lemma_upsert_members(t, items.last());
        assert forall|x: PasswordView| #[trigger] upsert_all(s, items).contains(x) implies s.contains(
            x,
        ) || items.contains(x) by {
            if x == items.last() {
                assert(items[items.len() - 1] == x);
            } else {
                assert(t.contains(x));
                if init.contains(x) {
                    let k = choose|k: int| 0 <= k < init.len() && init[k] == x;
                    assert(items[k] == x);
                }
            }
        }
    }
}

/// With unique identifiers, the position of an identifier is the one
/// place where it stands.
pub proof fn lemma_position_unique(s: Seq<PasswordView>, id: Seq<char>, i: int)
    requires
        0 <= i < s.len(),
        s[i].id == id,
        unique_ids(s),
    ensures
        has_id(s, id),
        position_of(s, id) == i,
{
    let j = position_of(s, id);
    if j < i {
        assert(s[j].id != s[i].id);
    } else if i < j {
        assert(s[i].id != s[j].id);
    }
}

} // verus!
