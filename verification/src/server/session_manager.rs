//! Sessions: bearer tokens bound to organizations, expiring when unused.

use vstd::prelude::*;
use std::time::Instant;
use crate::bytes::same_bytes;
use crate::data::{Token, TOKEN_LENGTH_BYTES};
use crate::primitives::clock::{clock_reading, nanoseconds_since, NANOSECONDS_PER_SECOND};
use crate::primitives::random::random_bytes;

verus! {

/// What the manager knows of one session.
pub struct SessionView {
    /// The organization that the session has unlocked.
    pub organization_name: Seq<char>,
    /// When the session was last used, in nanoseconds on the manager's
    /// clock.
    pub last_activity_time: u128,
}

/// The sessions of a manager: at most one for a token.
pub type Sessions = Map<Seq<u8>, SessionView>;

/// Whole seconds from `earlier` to `now`, two readings in nanoseconds; zero
/// if `now` is not later.
pub open spec fn seconds_between(earlier: u128, now: u128) -> int {
    if now >= earlier {
        (now - earlier) / (NANOSECONDS_PER_SECOND as int)
    } else {
        0
    }
}

/// A session is live while the whole seconds for which it has been unused
/// are fewer than the timeout.
pub open spec fn is_live(session: SessionView, now: u128, timeout: u64) -> bool {
    seconds_between(session.last_activity_time, now) < timeout
}

/// The sessions that are live at `now`.
pub open spec fn purged(sessions: Sessions, now: u128, timeout: u64) -> Sessions {
    Map::new(
        |token: Seq<u8>| sessions.dom().contains(token) && is_live(sessions[token], now, timeout),
        |token: Seq<u8>| sessions[token],
    )
}

/// The sessions after one was opened at `now`: the expired ones are gone and
/// the token is bound to the organization.
pub open spec fn after_opening(
    sessions: Sessions,
    timeout: u64,
    organization_name: Seq<char>,
    token: Seq<u8>,
    now: u128,
) -> Sessions {
    purged(sessions, now, timeout).insert(
        token,
        SessionView { organization_name, last_activity_time: now },
    )
}

/// The organization that a token stands for at `now`: that of its session,
/// if the session is live.
pub open spec fn organization_of(sessions: Sessions, timeout: u64, token: Seq<u8>, now: u128) -> Option<
    Seq<char>,
> {
    if purged(sessions, now, timeout).dom().contains(token) {
        Some(sessions[token].organization_name)
    } else {
        None
    }
}

/// The sessions after a token was looked up at `now`: the expired ones are
/// gone, and the token's session, if live, counts as used at `now`.
pub open spec fn after_lookup(sessions: Sessions, timeout: u64, token: Seq<u8>, now: u128) -> Sessions {
    let live = purged(sessions, now, timeout);
    if live.dom().contains(token) {
        live.insert(
            token,
            SessionView {
                organization_name: sessions[token].organization_name,
                last_activity_time: now,
            },
        )
    } else {
        live
    }
}

/// The sessions after one was ended at `now`: the expired ones and that of
/// the token are gone.
pub open spec fn after_ending(sessions: Sessions, timeout: u64, token: Seq<u8>, now: u128) -> Sessions {
    purged(sessions, now, timeout).remove(token)
}

/// The text of an optional string.
pub open spec fn optional_text(value: Option<String>) -> Option<Seq<char>> {
    match value {
        Some(text) => Some(text@),
        None => None,
    }
}

/// A session was opened at `now`, which made `after` of `before`.
pub open spec fn was_opened(
    before: Sessions,
    after: Sessions,
    timeout: u64,
    organization_name: Seq<char>,
    token: Seq<u8>,
    now: u128,
) -> bool {
    after == after_opening(before, timeout, organization_name, token, now)
}

/// A token was looked up at `now`, which made `after` of `before` and found
/// the organization `found`, or none.
pub open spec fn was_looked_up(
    before: Sessions,
    after: Sessions,
    timeout: u64,
    token: Seq<u8>,
    now: u128,
    found: Option<Seq<char>>,
) -> bool {
    &&& after == after_lookup(before, timeout, token, now)
    &&& found == organization_of(before, timeout, token, now)
}

/// A session was ended at `now`, which made `after` of `before`.
pub open spec fn was_ended(
    before: Sessions,
    after: Sessions,
    timeout: u64,
    token: Seq<u8>,
    now: u128,
) -> bool {
    after == after_ending(before, timeout, token, now)
}

struct Session {
    token: Token,
    organization_name: String,
    last_activity_time: u128,
}

impl Session {
    spec fn summary(&self) -> SessionView {
        SessionView {
            organization_name: self.organization_name@,
            last_activity_time: self.last_activity_time,
        }
    }
}

spec fn holds_token(entries: Seq<Session>, token: Seq<u8>) -> bool {
    exists|i: int| 0 <= i < entries.len() && (#[trigger] entries[i]).token@ == token
}

spec fn position_of(entries: Seq<Session>, token: Seq<u8>) -> int {
    choose|i: int| 0 <= i < entries.len() && (#[trigger] entries[i]).token@ == token
}

spec fn tokens_differ(entries: Seq<Session>) -> bool {
    forall|i: int, j: int|
        0 <= i < j < entries.len() ==> (#[trigger] entries[i]).token@ != (
        #[trigger] entries[j]).token@
}

spec fn sessions_of(entries: Seq<Session>) -> Sessions {
    Map::new(
        |token: Seq<u8>| holds_token(entries, token),
        |token: Seq<u8>| entries[position_of(entries, token)].summary(),
    )
}

proof fn lemma_session_at(entries: Seq<Session>, i: int)
    requires
        tokens_differ(entries),
        0 <= i < entries.len(),
    ensures
        sessions_of(entries).dom().contains(entries[i].token@),
        sessions_of(entries)[entries[i].token@] == entries[i].summary(),
{
    let token = entries[i].token@;
    assert(holds_token(entries, token));
    let p = position_of(entries, token);
    assert(entries[p].token@ == token);
    if p < i {
        assert(entries[p].token@ != entries[i].token@);
    } else if i < p {
        assert(entries[i].token@ != entries[p].token@);
    }
}

/// Issues, validates and expires the tokens that bind a session to an
/// organization.
///
/// Its view is the sessions that it holds. The timeout is not part of the
/// view: `timeout()` states it, and no operation changes it. Nor is the
/// reading from which the manager's clock counts, of which nothing is known.
pub struct SessionManager {
    sessions: Vec<Session>,
    timeout: u64,
    started: Instant,
}

impl View for SessionManager {
    type V = Sessions;

    closed spec fn view(&self) -> Sessions {
        sessions_of(self.sessions@)
    }
}

impl SessionManager {
    /// No two sessions share a token.
    pub closed spec fn wf(&self) -> bool {
        tokens_differ(self.sessions@)
    }

    /// Seconds of disuse after which a session expires.
    pub closed spec fn timeout(&self) -> u64 {
        self.timeout
    }

    /// A manager without sessions.
    pub fn new(timeout: u64) -> (manager: Self)
        ensures
            manager.wf(),
            manager@ == Map::<Seq<u8>, SessionView>::empty(),
            manager.timeout() == timeout,
    {
        let manager = SessionManager { sessions: Vec::new(), timeout, started: clock_reading() };
        assert(manager@ =~= Map::<Seq<u8>, SessionView>::empty());
        manager
    }

    /// Opens a session for an organization under a fresh random token of 32
    /// bytes, at the present time. What happens to the sessions is what
    /// `open_session_at` does with that token and that time.
    pub fn new_session(&mut self, organization_name: &str) -> (token: Token)
        requires
            old(self).wf(),
        ensures
            final(self).wf(),
            final(self).timeout() == old(self).timeout(),
            token@.len() == TOKEN_LENGTH_BYTES,
            exists|now: u128| #[trigger]
                was_opened(
                    old(self)@,
                    final(self)@,
                    old(self).timeout(),
                    organization_name@,
                    token@,
                    now,
                ),
    {
        let now = nanoseconds_since(&self.started);
        let token = random_bytes(TOKEN_LENGTH_BYTES);
        let copy = crate::bytes::copy_bytes(&token);
        self.open_session_at(organization_name, copy, now);
        assert(was_opened(
            old(self)@,
            self@,
            old(self).timeout(),
            organization_name@,
            token@,
            now,
        ));
        token
    }

    /// Drops the sessions that have expired at `now`, a reading of the clock
    /// in nanoseconds, then binds the token to the organization, in place of
    /// any session that the token had.
    pub fn open_session_at(&mut self, organization_name: &str, token: Token, now: u128)
        requires
            old(self).wf(),
        ensures
            final(self).wf(),
            final(self).timeout() == old(self).timeout(),
            final(self)@ == after_opening(
                old(self)@,
                old(self).timeout(),
                organization_name@,
                token@,
                now,
            ),
    {
        self.purge_sessions(now);
        let ghost live = self@;
        let ghost live_entries = self.sessions@;
        match self.find(&token) {
            Some(i) => {
                let removed = self.sessions.remove(i);
                proof {
                    let rest = self.sessions@;
                    assert forall|a: int, b: int| 0 <= a < b < rest.len() implies (
                    #[trigger] rest[a]).token@ != (#[trigger] rest[b]).token@ by {
                        let a0 = if a < i { a } else { a + 1 };
                        let b0 = if b < i { b } else { b + 1 };
                        assert(rest[a] == live_entries[a0]);
                        assert(rest[b] == live_entries[b0]);
                    }
                    assert forall|k: int| 0 <= k < rest.len() implies (#[trigger] rest[k]).token@
                        != token@ by {
                        let k0 = if k < i { k } else { k + 1 };
                        assert(rest[k] == live_entries[k0]);
                        if k0 < i {
                            assert(live_entries[k0].token@ != live_entries[i as int].token@);
                        } else {
                            assert(live_entries[i as int].token@ != live_entries[k0].token@);
                        }
                    }
                }
            },
            None => {},
        }
        let ghost rest = self.sessions@;
        self.sessions.push(
            Session {
                token,
                organization_name: organization_name.to_owned(),
                last_activity_time: now,
            },
        );
        proof {
            let all = self.sessions@;
            let last = all.len() - 1;
            assert(forall|k: int| 0 <= k < rest.len() ==> all[k] == rest[k]);
            assert(tokens_differ(all));
            let goal = live.insert(
                token@,
                SessionView { organization_name: organization_name@, last_activity_time: now },
            );
            assert forall|t: Seq<u8>| #[trigger] self@.dom().contains(t) <==> goal.dom().contains(
                t,
            ) by {
                if self@.dom().contains(t) {
                    let p = position_of(all, t);
                    if p < last {
                        assert(all[p] == rest[p]);
                        lemma_kept_entry(live_entries, rest, p);
                    }
                }
                if goal.dom().contains(t) && t != token@ {
                    let p = position_of(live_entries, t);
                    lemma_entry_survives(live_entries, rest, token@, p);
                    let q = choose|q: int| 0 <= q < rest.len() && rest[q] == live_entries[p];
                    assert(all[q].token@ == t);
                }
                if t == token@ {
                    assert(all[last].token@ == t);
                }
            }
            assert forall|t: Seq<u8>| #[trigger] self@.dom().contains(t) implies self@[t]
                == goal[t] by {
                let p = position_of(all, t);
                lemma_session_at(all, p);
                if p < last {
                    assert(all[p] == rest[p]);
                    lemma_kept_entry(live_entries, rest, p);
                    let q = choose|q: int|
                        0 <= q < live_entries.len() && live_entries[q] == rest[p];
                    lemma_session_at(live_entries, q);
                }
            }
            assert(self@ =~= goal);
        }
    }

    /// The name of the organization that a token stands for at the present
    /// time, if its session is live. What happens is what `lookup_at` does at
    /// that time.
    pub fn get_organization_name_from_token(&mut self, token: &Token) -> (name: Option<String>)
        requires
            old(self).wf(),
        ensures
            final(self).wf(),
            final(self).timeout() == old(self).timeout(),
            exists|now: u128| #[trigger]
                was_looked_up(
                    old(self)@,
                    final(self)@,
                    old(self).timeout(),
                    token@,
                    now,
                    optional_text(name),
                ),
    {
        let now = nanoseconds_since(&self.started);
        let name = self.lookup_at(token, now);
        assert(was_looked_up(
            old(self)@,
            self@,
            old(self).timeout(),
            token@,
            now,
            optional_text(name),
        ));
        name
    }

    /// Drops the expired sessions, then looks the token up. A session that is
    /// found counts as used at `now`; an expired token is as unknown as one
    /// that was never issued.
    pub fn lookup_at(&mut self, token: &Token, now: u128) -> (name: Option<String>)
        requires
            old(self).wf(),
        ensures
            final(self).wf(),
            final(self).timeout() == old(self).timeout(),
            final(self)@ == after_lookup(old(self)@, old(self).timeout(), token@, now),
            optional_text(name) == organization_of(old(self)@, old(self).timeout(), token@, now),
    {
        self.purge_sessions(now);
        let ghost live = self@;
        let ghost live_entries = self.sessions@;
        match self.find(token) {
            Some(i) => {
                let name = self.sessions[i].organization_name.clone();
                let token_copy = crate::bytes::copy_bytes(&self.sessions[i].token);
                let name_copy = self.sessions[i].organization_name.clone();
                self.sessions.set(
                    i,
                    Session {
                        token: token_copy,
                        organization_name: name_copy,
                        last_activity_time: now,
                    },
                );
                proof {
                    let all = self.sessions@;
                    lemma_session_at(live_entries, i as int);
                    assert forall|a: int, b: int| 0 <= a < b < all.len() implies (
                    #[trigger] all[a]).token@ != (#[trigger] all[b]).token@ by {
                        assert(all[a].token@ == live_entries[a].token@);
                        assert(all[b].token@ == live_entries[b].token@);
                    }
                    let goal = live.insert(
                        token@,
                        SessionView {
                            organization_name: live[token@].organization_name,
                            last_activity_time: now,
                        },
                    );
                    assert forall|t: Seq<u8>| #[trigger] self@.dom().contains(t)
                        <==> goal.dom().contains(t) by {
                        if self@.dom().contains(t) {
                            let p = position_of(all, t);
                            assert(live_entries[p].token@ == t);
                        }
                        if goal.dom().contains(t) {
                            if t == token@ {
                                assert(all[i as int].token@ == t);
                            } else {
                                let p = position_of(live_entries, t);
                                assert(all[p].token@ == t);
                            }
                        }
                    }
                    assert forall|t: Seq<u8>| #[trigger] self@.dom().contains(t) implies self@[t]
                        == goal[t] by {
                        let p = position_of(all, t);
                        lemma_session_at(all, p);
                        assert(live_entries[p].token@ == t);
                        lemma_session_at(live_entries, p);
                        if p != i {
                            assert(all[p] == live_entries[p]);
                        }
                    }
                    assert(self@ =~= goal);
                }
                Some(name)
            },
            None => None,
        }
    }

    /// Ends the session of a token at the present time; a token without a
    /// session changes nothing but the expired sessions. What happens is what
    /// `end_session_at` does at that time.
    pub fn end_session(&mut self, token: &Token)
        requires
            old(self).wf(),
        ensures
            final(self).wf(),
            final(self).timeout() == old(self).timeout(),
            exists|now: u128| #[trigger]
                was_ended(old(self)@, final(self)@, old(self).timeout(), token@, now),
    {
        let now = nanoseconds_since(&self.started);
        self.end_session_at(token, now);
        assert(was_ended(old(self)@, self@, old(self).timeout(), token@, now));
    }

    /// Drops the expired sessions and the session of the token.
    pub fn end_session_at(&mut self, token: &Token, now: u128)
        requires
            old(self).wf(),
        ensures
            final(self).wf(),
            final(self).timeout() == old(self).timeout(),
            final(self)@ == after_ending(old(self)@, old(self).timeout(), token@, now),
    {
        self.purge_sessions(now);
        let ghost live = self@;
        let ghost live_entries = self.sessions@;
        match self.find(token) {
            Some(i) => {
                let removed = self.sessions.remove(i);
                proof {
                    let rest = self.sessions@;
                    assert forall|k: int| 0 <= k < rest.len() implies rest[k] == live_entries[if k
                        < i {
                        k
                    } else {
                        k + 1
                    }] by {}
                    assert forall|a: int, b: int| 0 <= a < b < rest.len() implies (
                    #[trigger] rest[a]).token@ != (#[trigger] rest[b]).token@ by {
                        let a0 = if a < i { a } else { a + 1 };
                        let b0 = if b < i { b } else { b + 1 };
                        assert(rest[a] == live_entries[a0]);
                        assert(rest[b] == live_entries[b0]);
                    }
                    let goal = live.remove(token@);
                    assert forall|t: Seq<u8>| #[trigger] self@.dom().contains(t)
                        <==> goal.dom().contains(t) by {
                        if self@.dom().contains(t) {
                            let p = position_of(rest, t);
                            let source = if p < i { p } else { p + 1 };
                            assert(rest[p] == live_entries[source]);
                            if source < i {
                                assert(live_entries[source].token@ != live_entries[i as int].token@);
                            } else {
                                assert(live_entries[i as int].token@ != live_entries[source].token@);
                            }
                        }
                        if goal.dom().contains(t) {
                            let p = position_of(live_entries, t);
                            let q = if p < i { p } else { p - 1 };
                            assert(rest[q] == live_entries[p]);
                        }
                    }
                    assert forall|t: Seq<u8>| #[trigger] self@.dom().contains(t) implies self@[t]
                        == goal[t] by {
                        let p = position_of(rest, t);
                        let source = if p < i { p } else { p + 1 };
                        assert(rest[p] == live_entries[source]);
                        lemma_session_at(rest, p);
                        lemma_session_at(live_entries, source);
                    }
                    assert(self@ =~= goal);
                }
            },
            None => {
                assert(self@ =~= live.remove(token@));
            },
        }
    }

    fn find(&self, token: &Token) -> (position: Option<usize>)
        ensures
            match position {
                Some(i) => i < self.sessions@.len() && self.sessions@[i as int].token@ == token@,
                None => !self@.dom().contains(token@),
            },
    {
        let mut i: usize = 0;
        while i < self.sessions.len()
            invariant
                i <= self.sessions@.len(),
                forall|k: int| 0 <= k < i ==> (#[trigger] self.sessions@[k]).token@ != token@,
            decreases self.sessions@.len() - i,
        {
            if same_bytes(&self.sessions[i].token, token) {
                return Some(i);
            }
            i = i + 1;
        }
        None
    }

    fn purge_sessions(&mut self, now: u128)
        requires
            old(self).wf(),
        ensures
            final(self).wf(),
            final(self).timeout() == old(self).timeout(),
            final(self)@ == purged(old(self)@, now, old(self).timeout()),
    {
        let ghost before = self.sessions@;
        let mut kept: Vec<Session> = Vec::new();
        let ghost mut origin: Seq<int> = Seq::empty();
        let mut i: usize = 0;
        let total = self.sessions.len();
        while i < total
            invariant
                i <= total,
                total == before.len(),
                self.sessions@.len() == total - i,
                forall|k: int| 0 <= k < total - i ==> self.sessions@[k] == before[k + i],
                tokens_differ(before),
                origin.len() == kept@.len(),
                forall|k: int|
                    0 <= k < kept@.len() ==> 0 <= #[trigger] origin[k] < i && kept@[k]
                        == before[origin[k]] && is_live(
                        before[origin[k]].summary(),
                        now,
                        self.timeout,
                    ),
                forall|a: int, b: int|
                    0 <= a < b < kept@.len() ==> #[trigger] origin[a] < #[trigger] origin[b],
                forall|p: int|
                    0 <= p < i && is_live((#[trigger] before[p]).summary(), now, self.timeout)
                        ==> exists|k: int| 0 <= k < kept@.len() && #[trigger] origin[k] == p,
                self.timeout == old(self).timeout,
            decreases total - i,
        {
            let session = self.sessions.remove(0);
            assert(session == before[i as int]);
            let unused: u128 = if now >= session.last_activity_time {
                (now - session.last_activity_time) / NANOSECONDS_PER_SECOND
            } else {
                0
            };
            if unused < self.timeout as u128 {
                let ghost earlier = origin;
                kept.push(session);
                proof {
                    origin = earlier.push(i as int);
                    assert forall|p: int|
                        0 <= p < i + 1 && is_live(
                            (#[trigger] before[p]).summary(),
                            now,
                            self.timeout,
                        ) implies exists|k: int|
                        0 <= k < kept@.len() && #[trigger] origin[k] == p by {
                        if p < i {
                            let k = choose|k: int|
                                0 <= k < earlier.len() && #[trigger] earlier[k] == p;
                            assert(origin[k] == p);
                        } else {
                            assert(origin[kept@.len() - 1] == p);
                        }
                    }
                }
            }
            i = i + 1;
        }
        self.sessions = kept;
        proof {
            let after = self.sessions@;
            assert forall|a: int, b: int| 0 <= a < b < after.len() implies (
            #[trigger] after[a]).token@ != (#[trigger] after[b]).token@ by {
                assert(origin[a] < origin[b]);
                assert(before[origin[a]].token@ != before[origin[b]].token@);
            }
            let goal = purged(sessions_of(before), now, self.timeout);
            assert forall|t: Seq<u8>| #[trigger] self@.dom().contains(t) <==> goal.dom().contains(
                t,
            ) by {
                if self@.dom().contains(t) {
                    let k = position_of(after, t);
                    lemma_session_at(before, origin[k]);
                }
                if goal.dom().contains(t) {
                    let p = position_of(before, t);
                    lemma_session_at(before, p);
                    let k = choose|k: int| 0 <= k < after.len() && #[trigger] origin[k] == p;
                    assert(after[k].token@ == t);
                }
            }
            assert forall|t: Seq<u8>| #[trigger] self@.dom().contains(t) implies self@[t]
                == goal[t] by {
                let k = position_of(after, t);
                lemma_session_at(after, k);
                lemma_session_at(before, origin[k]);
            }
            assert(self@ =~= goal);
        }
    }
}

proof fn lemma_kept_entry(before: Seq<Session>, rest: Seq<Session>, p: int)
    requires
        0 <= p < rest.len(),
        rest.len() == before.len() || rest.len() + 1 == before.len(),
        rest.len() == before.len() ==> rest == before,
        rest.len() + 1 == before.len() ==> exists|i: int|
            0 <= i < before.len() && rest == before.remove(i),
    ensures
        exists|q: int| 0 <= q < before.len() && before[q] == rest[p],
{
    if rest.len() == before.len() {
        assert(before[p] == rest[p]);
    } else {
        let i = choose|i: int| 0 <= i < before.len() && rest == before.remove(i);
        let q = if p < i { p } else { p + 1 };
        assert(before[q] == rest[p]);
    }
}

proof fn lemma_entry_survives(before: Seq<Session>, rest: Seq<Session>, token: Seq<u8>, p: int)
    requires
        0 <= p < before.len(),
        before[p].token@ != token,
        rest.len() == before.len() || rest.len() + 1 == before.len(),
        rest.len() == before.len() ==> rest == before,
        rest.len() + 1 == before.len() ==> exists|i: int|
            0 <= i < before.len() && before[i].token@ == token && rest == before.remove(i),
    ensures
        exists|q: int| 0 <= q < rest.len() && rest[q] == before[p],
{
    if rest.len() == before.len() {
        assert(rest[p] == before[p]);
    } else {
        let i = choose|i: int|
            0 <= i < before.len() && before[i].token@ == token && rest == before.remove(i);
        let q = if p < i { p } else { p - 1 };
        assert(rest[q] == before[p]);
    }
}

/// A token whose session has expired stands for no organization, and the
/// lookup that finds it so leaves no session under it.
pub proof fn lemma_expired_token_is_unknown(
    sessions: Sessions,
    timeout: u64,
    token: Seq<u8>,
    now: u128,
)
    requires
        sessions.dom().contains(token),
        !is_live(sessions[token], now, timeout),
    ensures
        organization_of(sessions, timeout, token, now).is_none(),
        !purged(sessions, now, timeout).dom().contains(token),
        !after_lookup(sessions, timeout, token, now).dom().contains(token),
{
}

/// A token without a session gets none from anything that happens to another
/// token, at whatever time: only opening a session under that very token
/// binds it again.
pub proof fn lemma_tokens_never_resurrect(
    sessions: Sessions,
    timeout: u64,
    token: Seq<u8>,
    other: Seq<u8>,
    organization_name: Seq<char>,
    now: u128,
)
    requires
        !sessions.dom().contains(token),
    ensures
        !purged(sessions, now, timeout).dom().contains(token),
        organization_of(sessions, timeout, token, now).is_none(),
        !after_lookup(sessions, timeout, other, now).dom().contains(token),
        !after_ending(sessions, timeout, other, now).dom().contains(token),
        other != token ==> !after_opening(
            sessions,
            timeout,
            organization_name,
            other,
            now,
        ).dom().contains(token),
{
}

/// Ending a session twice is ending it once.
pub proof fn lemma_ending_is_idempotent(sessions: Sessions, timeout: u64, token: Seq<u8>, now: u128)
    ensures
        after_ending(after_ending(sessions, timeout, token, now), timeout, token, now)
            == after_ending(sessions, timeout, token, now),
        !after_ending(sessions, timeout, token, now).dom().contains(token),
{
    assert(after_ending(after_ending(sessions, timeout, token, now), timeout, token, now)
        =~= after_ending(sessions, timeout, token, now));
}

} // verus!
