//! TUIC authentication: the users, their passwords, and the limit on
//! failed attempts.

use crate::config::UserConfig;
use crate::protocol::tuic::command::authenticate::{Authenticate, AuthenticateView};
use crate::wire::{be_bytes, copy_bytes, copy_range, put_be};
use dashmap::DashMap;
use std::collections::HashMap;
use uuid::Uuid;
use vstd::prelude::*;

verus! {

broadcast use vstd::std_specs::hash::group_hash_axioms;

/// How many failed attempts in a window close the door.
pub const MAX_FAILED_ATTEMPTS: u32 = 5;

/// The length of the window in which failed attempts are counted, in
/// milliseconds: one hour.
pub const FAILED_ATTEMPTS_WINDOW: u64 = 3_600_000;

/// Why an Authenticate command was refused.
#[derive(Debug, Clone, Copy, PartialEq, Eq, Structural)]
pub enum AuthError {
    /// No user has this id.
    UnknownUser,
    /// The token is not the one derived from the session.
    BadToken,
    /// Too many failed attempts for this user in the last hour.
    RateLimited,
    /// The session could not export keying material.
    DeriveFailed,
}

/// The failed attempts of one user.
#[derive(Debug, Clone, Copy, PartialEq, Eq, Structural)]
pub struct FailedAttempts {
    /// How many attempts failed in the window.
    pub count: u32,
    /// When the first of them failed: where the window starts.
    pub first_failure_time: u64,
}

/// A [`TuicAuthenticationManager`] as a value of specifications.
pub struct AuthView {
    /// The password of each user.
    pub users: Map<u128, Seq<u8>>,
    /// The failed attempts of each user that has any on record.
    pub failed: Map<u128, FailedAttempts>,
}

/// Whether the window that `record` opened is over at `now`. Time that
/// runs backwards counts as no time passed.
pub open spec fn spec_window_over(record: FailedAttempts, now: u64) -> bool {
    now - record.first_failure_time > FAILED_ATTEMPTS_WINDOW
}

/// Whether a user with the failed attempts `record` is shut out at `now`:
/// five or more attempts failed in a window that is not over.
pub open spec fn spec_is_limited(record: Option<FailedAttempts>, now: u64) -> bool {
    match record {
        Some(r) => r.count >= MAX_FAILED_ATTEMPTS && !spec_window_over(r, now),
        None => false,
    }
}

/// The record after one more attempt failed at `now`: the first failure,
/// or the first after the window was over, opens a window and counts as 1;
/// any other adds one to the count.
pub open spec fn spec_record_failure(record: Option<FailedAttempts>, now: u64) -> FailedAttempts {
    match record {
        Some(r) => if spec_window_over(r, now) {
            FailedAttempts { count: 1, first_failure_time: now }
        } else {
            FailedAttempts {
                count: if r.count < u32::MAX {
                    (r.count + 1) as u32
                } else {
                    r.count
                },
                first_failure_time: r.first_failure_time,
            }
        },
        None => FailedAttempts { count: 1, first_failure_time: now },
    }
}

/// The failed attempts on record for `user`.
pub open spec fn spec_record_of(v: AuthView, user: u128) -> Option<FailedAttempts> {
    if v.failed.contains_key(user) {
        Some(v.failed[user])
    } else {
        None
    }
}

/// What the first half of authentication gives for `user` at `now`: the
/// password from which the token is derived, `UnknownUser` for a user that
/// is not on record, `RateLimited` for one that is shut out.
pub open spec fn spec_begin(v: AuthView, user: u128, now: u64) -> Result<Seq<u8>, AuthError> {
    if !v.users.contains_key(user) {
        Err(AuthError::UnknownUser)
    } else if spec_is_limited(spec_record_of(v, user), now) {
        Err(AuthError::RateLimited)
    } else {
        Ok(v.users[user])
    }
}

/// What the second half of authentication makes of the manager and
/// answers, given what the session derived: without keying material the
/// answer is `DeriveFailed`; a token that matches clears the failed
/// attempts of the user; one that does not adds a failed attempt and the
/// answer is `BadToken`.
pub open spec fn spec_finish(
    v: AuthView,
    command: AuthenticateView,
    derived: Option<Seq<u8>>,
    now: u64,
) -> (AuthView, Result<(), AuthError>) {
    match derived {
        None => (v, Err(AuthError::DeriveFailed)),
        Some(token) => if token == command.token {
            (AuthView { users: v.users, failed: v.failed.remove(command.uuid) }, Ok(()))
        } else {
            (
                AuthView {
                    users: v.users,
                    failed: v.failed.insert(
                        command.uuid,
                        spec_record_failure(spec_record_of(v, command.uuid), now),
                    ),
                },
                Err(AuthError::BadToken),
            )
        },
    }
}

/// The label under which keying material is exported for `user`: the 16
/// bytes of the user id.
pub open spec fn spec_exporter_label(user: u128) -> Seq<u8> {
    be_bytes(user as nat, 16)
}

/// The passwords that a map of users holds, by user id.
pub uninterp spec fn passwords_of(map: DashMap<u128, Vec<u8>>) -> Map<u128, Vec<u8>>;

/// `DashMap::new` of the crate dashmap: a map without entries.
#[verifier::external_body]
fn users_new() -> (made: DashMap<u128, Vec<u8>>)
    ensures
        passwords_of(made) == (Map::<u128, Vec<u8>>::empty()),
{
    DashMap::new()
}

/// `DashMap::insert` of the crate dashmap: puts `password` under `id` and
/// hands back what was there before.
#[verifier::external_body]
fn users_insert(map: &mut DashMap<u128, Vec<u8>>, id: u128, password: Vec<u8>) -> (previous:
    Option<Vec<u8>>)
    ensures
        passwords_of(*final(map)) == passwords_of(*old(map)).insert(id, password),
        previous == (if passwords_of(*old(map)).contains_key(id) {
            Some(passwords_of(*old(map))[id])
        } else {
            None
        }),
{
    map.insert(id, password)
}

/// `DashMap::get` of the crate dashmap, the entry turned into a copy of its
/// password: `None` where `id` has no entry.
#[verifier::external_body]
fn users_get(map: &DashMap<u128, Vec<u8>>, id: &u128) -> (found: Option<Vec<u8>>)
    ensures
        found is Some == passwords_of(*map).contains_key(*id),
        found matches Some(p) ==> p@ == passwords_of(*map)[*id]@,
{
    map.get(id).map(|entry| copy_bytes(entry.value()))
}

/// The users of the server and the failed attempts of each.
pub struct TuicAuthenticationManager {
    users: DashMap<u128, Vec<u8>>,
    failed: HashMap<u128, FailedAttempts>,
}

/// The passwords of a table of users as sequences.
pub open spec fn password_views(users: Map<u128, Vec<u8>>) -> Map<u128, Seq<u8>> {
    Map::new(|k: u128| users.contains_key(k), |k: u128| users[k]@)
}

impl View for TuicAuthenticationManager {
    type V = AuthView;

    closed spec fn view(&self) -> AuthView {
        AuthView { users: password_views(passwords_of(self.users)), failed: self.failed@ }
    }
}

/// The table that `entries` make: each id with its password, a later entry
/// replacing an earlier one with the same id.
pub open spec fn spec_user_table(entries: Seq<(u128, Vec<u8>)>) -> Map<u128, Seq<u8>>
    decreases entries.len(),
{
    if entries.len() == 0 {
        Map::empty()
    } else {
        spec_user_table(entries.drop_last()).insert(entries.last().0, entries.last().1@)
    }
}

impl TuicAuthenticationManager {
    /// A manager for the users `user_entries`, with no failed attempt on
    /// record.
    pub fn new(user_entries: Vec<(u128, Vec<u8>)>) -> (m: Self)
        ensures
            m@.users == spec_user_table(user_entries@),
            m@.failed == Map::<u128, FailedAttempts>::empty(),
    {
        let mut users: DashMap<u128, Vec<u8>> = users_new();
        let mut i: usize = 0;
        assert(password_views(passwords_of(users)) =~= spec_user_table(user_entries@.take(0)));
        while i < user_entries.len()
            invariant
                i <= user_entries@.len(),
                password_views(passwords_of(users)) == spec_user_table(
                    user_entries@.take(i as int),
                ),
            decreases user_entries@.len() - i,
        {
            let ghost before = passwords_of(users);
            let id: u128 = user_entries[i].0;
            let password: Vec<u8> = copy_bytes(&user_entries[i].1);
            users_insert(&mut users, id, password);
            proof {
                let after = passwords_of(users);
                assert(user_entries@.take(i + 1).drop_last() =~= user_entries@.take(i as int));
                let table = spec_user_table(user_entries@.take(i as int));
                assert(password_views(before) == table);
                assert forall|k: u128| #[trigger]
                    password_views(after).contains_key(k) == table.insert(
                        id,
                        user_entries@[i as int].1@,
                    ).contains_key(k) by {
                    assert(password_views(before).contains_key(k) == before.contains_key(k));
                }
                assert forall|k: u128| #[trigger]
                    password_views(after).contains_key(k) implies password_views(after)[k]
                    == table.insert(id, user_entries@[i as int].1@)[k] by {
                    if k != id {
                        assert(password_views(before).contains_key(k));
                        assert(password_views(before)[k] == before[k]@);
                    }
                }
                assert(password_views(after) =~= table.insert(id, user_entries@[i as int].1@));
            }
            i = i + 1;
        }
        assert(user_entries@.take(i as int) =~= user_entries@);
        TuicAuthenticationManager { users, failed: HashMap::new() }
    }

    /// A copy of the password of `uuid`, or `UnknownUser`.
    pub fn password(&self, uuid: u128) -> (r: Result<Vec<u8>, AuthError>)
        ensures
            match r {
                Ok(p) => self@.users.contains_key(uuid) && p@ == self@.users[uuid],
                Err(e) => !self@.users.contains_key(uuid) && e == AuthError::UnknownUser,
            },
    {
        match users_get(&self.users, &uuid) {
            Some(p) => Ok(p),
            None => Err(AuthError::UnknownUser),
        }
    }

    /// The failed attempts on record for `uuid`.
    pub fn failed_attempts(&self, uuid: u128) -> (r: Option<FailedAttempts>)
        ensures
            r == spec_record_of(self@, uuid),
    {
        match self.failed.get(&uuid) {
            Some(record) => Some(*record),
            None => None,
        }
    }

    /// Whether `uuid` is shut out at `now`.
    pub fn is_rate_limited(&self, uuid: u128, now: u64) -> (r: bool)
        ensures
            r == spec_is_limited(spec_record_of(self@, uuid), now),
    {
        match self.failed.get(&uuid) {
            Some(record) => record.count >= MAX_FAILED_ATTEMPTS && !(now
                > record.first_failure_time && now - record.first_failure_time
                > FAILED_ATTEMPTS_WINDOW),
            None => false,
        }
    }

    /// The first half of authentication: whether a token may be derived
    /// for `uuid` at `now`, and from which password; see [`spec_begin`].
    pub fn begin(&self, uuid: u128, now: u64) -> (r: Result<Vec<u8>, AuthError>)
        ensures
            match r {
                Ok(p) => spec_begin(self@, uuid, now) == Ok::<Seq<u8>, AuthError>(p@),
                Err(e) => spec_begin(self@, uuid, now) == Err::<Seq<u8>, AuthError>(e),
            },
    {
        let password: Vec<u8> = match self.password(uuid) {
            Ok(p) => p,
            Err(e) => {
                return Err(e);
            },
        };
        if self.is_rate_limited(uuid, now) {
            return Err(AuthError::RateLimited);
        }
        Ok(password)
    }

    /// The second half of authentication: compares the token of `command`
    /// with the one that the session derived and keeps the record of failed
    /// attempts; see [`spec_finish`].
    pub fn finish(&mut self, command: &Authenticate, derived: Option<[u8; 32]>, now: u64) -> (r:
        Result<(), AuthError>)
        ensures
            (final(self)@, r) == spec_finish(
                old(self)@,
                command@,
                match derived {
                    Some(t) => Some(t@),
                    None => None,
                },
                now,
            ),
    {
        let expected: [u8; 32] = match derived {
            Some(t) => t,
            None => {
                return Err(AuthError::DeriveFailed);
            },
        };
        let uuid: u128 = command.uuid();
        if command.verify_token(&expected) {
            self.failed.remove(&uuid);
            assert(self@.users =~= old(self)@.users);
            Ok(())
        } else {
            let record: FailedAttempts = record_failure(self.failed_attempts(uuid), now);
            self.failed.insert(uuid, record);
            assert(self@.users =~= old(self)@.users);
            Err(AuthError::BadToken)
        }
    }
}

/// See [`spec_record_failure`].
pub fn record_failure(record: Option<FailedAttempts>, now: u64) -> (r: FailedAttempts)
    ensures
        r == spec_record_failure(record, now),
{
    match record {
        Some(old) => {
            if now > old.first_failure_time && now - old.first_failure_time
                > FAILED_ATTEMPTS_WINDOW {
                FailedAttempts { count: 1, first_failure_time: now }
            } else {
                FailedAttempts {
                    count: if old.count < u32::MAX {
                        old.count + 1
                    } else {
                        old.count
                    },
                    first_failure_time: old.first_failure_time,
                }
            }
        },
        None => FailedAttempts { count: 1, first_failure_time: now },
    }
}

/// The label under which keying material is exported for `user`.
pub fn exporter_label(user: u128) -> (label: Vec<u8>)
    ensures
        label@ == spec_exporter_label(user),
{
    let mut label: Vec<u8> = Vec::new();
    put_be(&mut label, user, 16);
    assert(label@ =~= spec_exporter_label(user));
    label
}

/// The record of a user after attempts failed at each of `times`, in their
/// order, starting from `record`.
pub open spec fn spec_failures(record: Option<FailedAttempts>, times: Seq<u64>) -> Option<
    FailedAttempts,
>
    decreases times.len(),
{
    if times.len() == 0 {
        record
    } else {
        Some(spec_record_failure(spec_failures(record, times.drop_last()), times.last()))
    }
}

/// Failures that all fall into the window of the first are counted one by
/// one.
proof fn lemma_failures_count(times: Seq<u64>, k: nat)
    requires
        1 <= k <= times.len(),
        times.len() < u32::MAX,
        forall|i: int|
            0 <= i < times.len() ==> (#[trigger] times[i]) - times[0] <= FAILED_ATTEMPTS_WINDOW,
    ensures
        spec_failures(None, times.take(k as int)) == Some(
            FailedAttempts { count: k as u32, first_failure_time: times[0] },
        ),
    decreases k,
{
    let head = times.take(k as int);
    assert(head.drop_last() =~= times.take(k - 1));
    assert(head.last() == times[k - 1]);
    if k > 1 {
        lemma_failures_count(times, (k - 1) as nat);
    }
}

/// The fifth failed attempt in a window shuts the user out for the rest of
/// the window: before it the user is let in, and from it on the first half
/// of authentication answers `RateLimited`, so that no token is derived.
/// Once the window is over the user is let in again, and a failed attempt
/// then opens a new window with a count of 1.
pub proof fn lemma_rate_limit(v: AuthView, user: u128, times: Seq<u64>, now: u64, later: u64)
    requires
        v.users.contains_key(user),
        times.len() == MAX_FAILED_ATTEMPTS,
        forall|i: int|
            0 <= i < times.len() ==> (#[trigger] times[i]) - times[0] <= FAILED_ATTEMPTS_WINDOW,
        spec_record_of(v, user) == spec_failures(None, times),
        now - times[0] <= FAILED_ATTEMPTS_WINDOW,
        later - times[0] > FAILED_ATTEMPTS_WINDOW,
    ensures
        spec_record_of(v, user) == Some(
            FailedAttempts { count: MAX_FAILED_ATTEMPTS, first_failure_time: times[0] },
        ),
        !spec_is_limited(spec_failures(None, times.drop_last()), now),
        spec_begin(v, user, now) == Err::<Seq<u8>, AuthError>(AuthError::RateLimited),
        spec_begin(v, user, later) == Ok::<Seq<u8>, AuthError>(v.users[user]),
        spec_record_failure(spec_record_of(v, user), later) == (FailedAttempts {
            count: 1,
            first_failure_time: later,
        }),
{
    lemma_failures_count(times, 5);
    lemma_failures_count(times, 4);
    assert(times.take(5) =~= times);
    assert(times.take(4) =~= times.drop_last());
}

/// The textual form of a UUID as a number, `None` for a text that is not
/// one.
pub uninterp spec fn spec_parse_uuid(text: Seq<char>) -> Option<u128>;

/// `Uuid::parse_str` of the crate uuid, the id turned into a number with
/// `Uuid::as_u128`: the id that `text` spells, if it spells one.
#[verifier::external_body]
fn parse_uuid(text: &str) -> (id: Option<u128>)
    ensures
        id == spec_parse_uuid(text@),
{
    Uuid::parse_str(text).ok().map(|u| u.as_u128())
}

/// The entries that `ids` and `passwords` make: one for each position with
/// an id, in order, with the bytes of the password at that position.
pub open spec fn spec_entries(ids: Seq<Option<u128>>, passwords: Seq<Seq<u8>>) -> Seq<
    (u128, Seq<u8>),
>
    decreases ids.len(),
{
    if ids.len() == 0 {
        Seq::empty()
    } else {
        let head = spec_entries(ids.drop_last(), passwords.drop_last());
        match ids.last() {
            Some(id) => head.push((id, passwords.last())),
            None => head,
        }
    }
}

/// The views of `entries`.
pub open spec fn spec_entry_views(entries: Seq<(u128, Vec<u8>)>) -> Seq<(u128, Seq<u8>)> {
    Seq::new(entries.len(), |i: int| (entries[i].0, entries[i].1@))
}

/// The ids that the configured users spell.
pub open spec fn spec_user_ids(users: Seq<UserConfig>) -> Seq<Option<u128>> {
    Seq::new(users.len(), |i: int| spec_parse_uuid(users[i].uuid@))
}

/// The passwords of the configured users, as bytes.
pub open spec fn spec_user_passwords(users: Seq<UserConfig>) -> Seq<Seq<u8>> {
    Seq::new(users.len(), |i: int| vstd::utf8::encode_utf8(users[i].password@))
}

/// Pairs each id that is there with the password at its position; see
/// [`spec_entries`].
pub fn entries_from(ids: &[Option<u128>], passwords: &[Vec<u8>]) -> (entries: Vec<(u128, Vec<u8>)>)
    requires
        ids@.len() == passwords@.len(),
    ensures
        spec_entry_views(entries@) == spec_entries(
            ids@,
            Seq::new(passwords@.len(), |i: int| passwords@[i]@),
        ),
{
    let ghost all = Seq::new(passwords@.len(), |i: int| passwords@[i]@);
    let mut entries: Vec<(u128, Vec<u8>)> = Vec::new();
    let mut i: usize = 0;
    assert(spec_entry_views(entries@) =~= spec_entries(ids@.take(0), all.take(0)));
    while i < ids.len()
        invariant
            i <= ids@.len() == passwords@.len(),
            all == Seq::new(passwords@.len(), |i: int| passwords@[i]@),
            spec_entry_views(entries@) == spec_entries(ids@.take(i as int), all.take(i as int)),
        decreases ids@.len() - i,
    {
        let ghost before = spec_entry_views(entries@);
        proof {
            assert(ids@.take(i + 1).drop_last() =~= ids@.take(i as int));
            assert(all.take(i + 1).drop_last() =~= all.take(i as int));
        }
        match ids[i] {
            Some(id) => {
                let password: Vec<u8> = copy_range(passwords[i].as_slice(), 0, passwords[i].len());
                let ghost old_entries = entries@;
                entries.push((id, password));
                assert(password@ =~= passwords@[i as int]@);
                assert(all[i as int] == passwords@[i as int]@);
                assert(entries@ == old_entries.push((id, password)));
                assert(spec_entry_views(entries@) =~= before.push((id, all[i as int])));
            },
            None => {},
        }
        i = i + 1;
    }
    assert(ids@.take(i as int) =~= ids@);
    assert(all.take(i as int) =~= all);
    entries
}

/// The user entries of a configuration: each user whose id is the textual
/// form of a UUID, with the bytes of the password. The others are left
/// out.
pub fn user_entries(users: &[UserConfig]) -> (entries: Vec<(u128, Vec<u8>)>)
    ensures
        spec_entry_views(entries@) == spec_entries(
            spec_user_ids(users@),
            spec_user_passwords(users@),
        ),
{
    let mut ids: Vec<Option<u128>> = Vec::new();
    let mut passwords: Vec<Vec<u8>> = Vec::new();
    let mut i: usize = 0;
    while i < users.len()
        invariant
            i <= users@.len(),
            ids@.len() == i,
            passwords@.len() == i,
            forall|j: int| 0 <= j < i ==> ids@[j] == spec_parse_uuid(users@[j].uuid@),
            forall|j: int|
                0 <= j < i ==> (#[trigger] passwords@[j])@ == vstd::utf8::encode_utf8(
                    users@[j].password@,
                ),
        decreases users@.len() - i,
    {
        ids.push(parse_uuid(users[i].uuid()));
        let bytes: &[u8] = users[i].password().as_bytes();
        passwords.push(copy_range(bytes, 0, bytes.len()));
        i = i + 1;
    }
    assert(ids@ =~= spec_user_ids(users@));
    assert(Seq::new(passwords@.len(), |i: int| passwords@[i]@) =~= spec_user_passwords(users@));
    entries_from(ids.as_slice(), passwords.as_slice())
}

} // verus!
