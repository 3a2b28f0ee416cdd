use vstd::prelude::*;

use crate::constants::{
    CMD_ACCEPT, CMD_CHALLENGE, CMD_DECLINE, CMD_DRAW_ACCEPT, CMD_DRAW_DECLINE, CMD_DRAW_OFFER,
    CMD_ERROR, CMD_MOVE, CMD_RESIGN, STATUS_ACTIVE, STATUS_COMPLETED, STATUS_DECLINED,
    STATUS_EXPIRED, STATUS_PENDING, TTL_ACTIVE, TTL_GRACE_PERIOD, TTL_PENDING,
};
use crate::constants::{lemma_commands_distinct, lemma_statuses_distinct};
use crate::errors::LrgpError;
use crate::text::str_eq;
use crate::value::StrMap;

verus! {

/// Milliseconds since the Unix epoch, read from the system clock
/// (`SystemTime` via `UNIX_EPOCH.elapsed()`; a clock set before the epoch
/// reads as 0). Nothing is promised of the value.
#[verifier::external_body]
pub(crate) fn now_millis() -> i64 {
    match std::time::UNIX_EPOCH.elapsed() {
        Ok(d) => d.as_millis() as i64,
        Err(_) => 0,
    }
}

/// An LRGP game session record. Times are milliseconds since the Unix epoch.
pub struct Session {
    pub session_id: String,
    pub identity_id: String,
    pub app_id: String,
    pub app_version: u32,
    pub contact_hash: String,
    pub initiator: String,
    pub status: String,
    pub metadata: StrMap,
    pub unread: i64,
    pub created_at: i64,
    pub updated_at: i64,
    pub last_action_at: i64,
}

impl Session {
    /// A new pending session with the given id, created at time `now`.
    pub fn new_at(session_id: &str, now: i64) -> (r: Session)
        ensures
            r.session_id@ == session_id@,
            r.identity_id@ == Seq::<char>::empty(),
            r.app_id@ == Seq::<char>::empty(),
            r.app_version == 1,
            r.contact_hash@ == Seq::<char>::empty(),
            r.initiator@ == Seq::<char>::empty(),
            r.status@ == STATUS_PENDING@,
            r.metadata@ == Map::<Seq<char>, crate::value::ValueModel>::empty(),
            r.unread == 0,
            r.created_at == now,
            r.updated_at == now,
            r.last_action_at == now,
    {
        Session {
            session_id: session_id.to_owned(),
            identity_id: String::new(),
            app_id: String::new(),
            app_version: 1,
            contact_hash: String::new(),
            initiator: String::new(),
            status: STATUS_PENDING.to_owned(),
            metadata: StrMap::new(),
            unread: 0,
            created_at: now,
            updated_at: now,
            last_action_at: now,
        }
    }

    /// A new pending session with the given id, created now.
    pub fn new(session_id: &str) -> (r: Session)
        ensures
            r.session_id@ == session_id@,
            r.identity_id@ == Seq::<char>::empty(),
            r.app_id@ == Seq::<char>::empty(),
            r.app_version == 1,
            r.contact_hash@ == Seq::<char>::empty(),
            r.initiator@ == Seq::<char>::empty(),
            r.status@ == STATUS_PENDING@,
            r.metadata@ == Map::<Seq<char>, crate::value::ValueModel>::empty(),
            r.unread == 0,
            r.created_at == r.updated_at,
            r.updated_at == r.last_action_at,
    {
        Session::new_at(session_id, now_millis())
    }

    /// A copy of the session, field for field.
    pub fn duplicate(&self) -> (r: Session)
        ensures
            r.same_as(*self),
    {
        Session {
            session_id: self.session_id.clone(),
            identity_id: self.identity_id.clone(),
            app_id: self.app_id.clone(),
            app_version: self.app_version,
            contact_hash: self.contact_hash.clone(),
            initiator: self.initiator.clone(),
            status: self.status.clone(),
            metadata: self.metadata.duplicate(),
            unread: self.unread,
            created_at: self.created_at,
            updated_at: self.updated_at,
            last_action_at: self.last_action_at,
        }
    }

    /// The two sessions agree in every field, by view.
    pub open spec fn same_as(self, other: Session) -> bool {
        &&& self.same_except_status_and_times(other)
        &&& self.status@ == other.status@
        &&& self.created_at == other.created_at
        &&& self.updated_at == other.updated_at
        &&& self.last_action_at == other.last_action_at
    }

    /// The two sessions agree in the fields that no action changes.
    pub open spec fn same_identity(self, other: Session) -> bool {
        &&& self.session_id@ == other.session_id@
        &&& self.identity_id@ == other.identity_id@
        &&& self.app_id@ == other.app_id@
        &&& self.app_version == other.app_version
        &&& self.contact_hash@ == other.contact_hash@
        &&& self.initiator@ == other.initiator@
        &&& self.created_at == other.created_at
    }

    /// The two sessions agree in every field but the status and the times.
    pub open spec fn same_except_status_and_times(self, other: Session) -> bool {
        &&& self.session_id@ == other.session_id@
        &&& self.identity_id@ == other.identity_id@
        &&& self.app_id@ == other.app_id@
        &&& self.app_version == other.app_version
        &&& self.contact_hash@ == other.contact_hash@
        &&& self.initiator@ == other.initiator@
        &&& self.metadata@ == other.metadata@
        &&& self.metadata.pairs() == other.metadata.pairs()
        &&& self.unread == other.unread
    }
}

/// Per-status time-to-live overrides, in milliseconds.
pub struct SessionTtl {
    pub pending: Option<i64>,
    pub active: Option<i64>,
}

/// The explicit status transitions.
pub open spec fn transition(status: Seq<char>, command: Seq<char>) -> Option<Seq<char>> {
    if status == STATUS_PENDING@ && command == CMD_ACCEPT@ {
        Some(STATUS_ACTIVE@)
    } else if status == STATUS_PENDING@ && command == CMD_DECLINE@ {
        Some(STATUS_DECLINED@)
    } else if status == STATUS_ACTIVE@ && command == CMD_RESIGN@ {
        Some(STATUS_COMPLETED@)
    } else if status == STATUS_ACTIVE@ && command == CMD_DRAW_ACCEPT@ {
        Some(STATUS_COMPLETED@)
    } else {
        None
    }
}

/// Commands that an active session takes without leaving its status.
pub open spec fn same_status_command(status: Seq<char>, command: Seq<char>) -> bool {
    status == STATUS_ACTIVE@ && (command == CMD_MOVE@ || command == CMD_DRAW_OFFER@ || command
        == CMD_DRAW_DECLINE@ || command == CMD_ERROR@)
}

/// The status a session moves to when `command` is applied, or `None` if
/// the command is illegal in `status`.
pub open spec fn next_status(status: Seq<char>, command: Seq<char>, terminal: bool) -> Option<
    Seq<char>,
> {
    match transition(status, command) {
        Some(s) => Some(s),
        None => if same_status_command(status, command) {
            Some(
                if terminal {
                    STATUS_COMPLETED@
                } else {
                    status
                },
            )
        } else if command == CMD_CHALLENGE@ && status == STATUS_PENDING@ {
            Some(status)
        } else {
            None
        },
    }
}

/// A session whose status is one of these takes no more commands and does
/// not expire again.
pub open spec fn is_final_status(status: Seq<char>) -> bool {
    status == STATUS_COMPLETED@ || status == STATUS_EXPIRED@ || status == STATUS_DECLINED@
}

/// The time-to-live of a session in `status`: the override where one is
/// given, the default otherwise; `None` where the session does not expire.
pub open spec fn ttl_limit(status: Seq<char>, ttl: Option<SessionTtl>) -> Option<int> {
    if status == STATUS_PENDING@ {
        Some(
            match ttl {
                Some(t) => match t.pending {
                    Some(v) => v as int,
                    None => TTL_PENDING as int,
                },
                None => TTL_PENDING as int,
            },
        )
    } else if status == STATUS_ACTIVE@ {
        Some(
            match ttl {
                Some(t) => match t.active {
                    Some(v) => v as int,
                    None => TTL_ACTIVE as int,
                },
                None => TTL_ACTIVE as int,
            },
        )
    } else {
        None
    }
}

/// A session in `status` whose last action was at `last_action_at` has
/// expired at time `now`: the time-to-live and the grace period have passed.
pub open spec fn is_expired_at(
    status: Seq<char>,
    last_action_at: int,
    ttl: Option<SessionTtl>,
    now: int,
) -> bool {
    match ttl_limit(status, ttl) {
        Some(limit) => now > last_action_at + limit + TTL_GRACE_PERIOD,
        None => false,
    }
}

/// The overrides as a spec value.
pub open spec fn ttl_value(ttl: Option<&SessionTtl>) -> Option<SessionTtl> {
    match ttl {
        Some(t) => Some(*t),
        None => None,
    }
}

/// The status after `command`: the next status where the command is legal,
/// the same status where it is refused.
pub open spec fn status_after(status: Seq<char>, command: Seq<char>, terminal: bool) -> Seq<char> {
    match next_status(status, command, terminal) {
        Some(n) => n,
        None => status,
    }
}

/// A completed, expired or declined session takes no command and does not
/// expire (again).
pub proof fn law_final_status_is_final(
    status: Seq<char>,
    command: Seq<char>,
    terminal: bool,
    ttl: Option<SessionTtl>,
)
    requires
        is_final_status(status),
    ensures
        next_status(status, command, terminal) is None,
        ttl_limit(status, ttl) is None,
{
    lemma_statuses_distinct();
}

/// Only pending and active sessions take commands; a pending session moves
/// to pending, active or declined, and an active session stays active or
/// completes.
pub proof fn law_status_moves_forward(status: Seq<char>, command: Seq<char>, terminal: bool)
    ensures
        next_status(status, command, terminal) matches Some(n) ==> {
            ||| status == STATUS_PENDING@ && (n == STATUS_PENDING@ || n == STATUS_ACTIVE@ || n
                == STATUS_DECLINED@)
            ||| status == STATUS_ACTIVE@ && (n == STATUS_ACTIVE@ || n == STATUS_COMPLETED@)
        },
{
    lemma_statuses_distinct();
}

/// Only a non-terminal move, draw offer, draw decline or error leaves an
/// active session active; a terminal move completes it.
pub proof fn law_active_session_moves(command: Seq<char>, terminal: bool)
    ensures
        command == CMD_MOVE@ ==> next_status(STATUS_ACTIVE@, command, terminal) == Some(
            if terminal {
                STATUS_COMPLETED@
            } else {
                STATUS_ACTIVE@
            },
        ),
{
    lemma_statuses_distinct();
    lemma_commands_distinct();
}

/// The status table of the protocol. A pending session goes to active on
/// an accept, to declined on a decline, and stays pending on a repeated
/// challenge; nothing else applies to it. An active session that gets a
/// move, a draw offer, a draw decline or an error stays active (a move
/// that ends the game completes it); a resignation or an accepted draw
/// completes it; nothing else applies to it.
pub proof fn law_status_table(command: Seq<char>, terminal: bool)
    ensures
        next_status(STATUS_PENDING@, command, terminal) == Some(STATUS_ACTIVE@) <==> command == CMD_ACCEPT@,
        next_status(STATUS_PENDING@, command, terminal) == Some(STATUS_DECLINED@) <==> command
            == CMD_DECLINE@,
        next_status(STATUS_PENDING@, command, terminal) == Some(STATUS_PENDING@) <==> command
            == CMD_CHALLENGE@,
        next_status(STATUS_PENDING@, command, terminal) is None <==> (command != CMD_ACCEPT@ && command
            != CMD_DECLINE@ && command != CMD_CHALLENGE@),
        next_status(STATUS_ACTIVE@, command, false) == Some(STATUS_ACTIVE@) <==> (command == CMD_MOVE@
            || command == CMD_DRAW_OFFER@ || command == CMD_DRAW_DECLINE@ || command == CMD_ERROR@),
        next_status(STATUS_ACTIVE@, command, false) == Some(STATUS_COMPLETED@) <==> (command
            == CMD_RESIGN@ || command == CMD_DRAW_ACCEPT@),
        next_status(STATUS_ACTIVE@, CMD_MOVE@, true) == Some(STATUS_COMPLETED@),
        next_status(STATUS_ACTIVE@, command, terminal) is None <==> (command != CMD_MOVE@ && command
            != CMD_DRAW_OFFER@ && command != CMD_DRAW_DECLINE@ && command != CMD_ERROR@ && command
            != CMD_RESIGN@ && command != CMD_DRAW_ACCEPT@),
{
    lemma_statuses_distinct();
    lemma_commands_distinct();
}

/// Expiry by the documented time-to-live: an unanswered (pending) session
/// lasts 24 hours and an active one 7 days unless an override for its
/// status is given, and either expires once one more hour of grace has
/// passed after that.
pub proof fn law_expiry_deadlines(last_action_at: int, ttl: Option<SessionTtl>, now: int)
    ensures
        (ttl is None || ttl.unwrap().pending is None) ==> (is_expired_at(
            STATUS_PENDING@,
            last_action_at,
            ttl,
            now,
        ) <==> now > last_action_at + 24 * 3600 * 1000 + 3600 * 1000),
        (ttl is None || ttl.unwrap().active is None) ==> (is_expired_at(
            STATUS_ACTIVE@,
            last_action_at,
            ttl,
            now,
        ) <==> now > last_action_at + 7 * 24 * 3600 * 1000 + 3600 * 1000),
        ttl is Some && ttl.unwrap().pending is Some ==> (is_expired_at(
            STATUS_PENDING@,
            last_action_at,
            ttl,
            now,
        ) <==> now > last_action_at + ttl.unwrap().pending.unwrap() + 3600 * 1000),
        ttl is Some && ttl.unwrap().active is Some ==> (is_expired_at(
            STATUS_ACTIVE@,
            last_action_at,
            ttl,
            now,
        ) <==> now > last_action_at + ttl.unwrap().active.unwrap() + 3600 * 1000),
{
    lemma_statuses_distinct();
    assert(TTL_GRACE_PERIOD == 3600 * 1000);
}

/// Enforces legal game session state transitions.
pub struct SessionStateMachine;

impl SessionStateMachine {
    /// Apply a command to a session at time `now`, updating its status if
    /// appropriate. If `terminal` is true, the action ends the session
    /// (e.g., winning move).
    pub fn apply_command_at(session: &mut Session, command: &str, terminal: bool, now: i64) -> (r:
        Result<String, LrgpError>)
        ensures
            match next_status(old(session).status@, command@, terminal) {
                Some(s) => {
                    &&& r matches Ok(t) && t@ == s
                    &&& final(session).status@ == s
                    &&& final(session).same_except_status_and_times(*old(session))
                    &&& final(session).created_at == old(session).created_at
                    &&& final(session).updated_at == now
                    &&& final(session).last_action_at == now
                },
                None => {
                    &&& r matches Err(LrgpError::IllegalTransition { command: c, status: st })
                    &&& c@ == command@
                    &&& st@ == old(session).status@
                    &&& final(session).same_as(*old(session))
                },
            },
    {
        if let Some(new_status) = Self::get_transition(session.status.as_str(), command) {
            session.status = new_status.to_owned();
            session.updated_at = now;
            session.last_action_at = now;
            return Ok(session.status.clone());
        }
        if Self::is_same_status_command(session.status.as_str(), command) {
            if terminal {
                session.status = STATUS_COMPLETED.to_owned();
            }
            session.updated_at = now;
            session.last_action_at = now;
            return Ok(session.status.clone());
        }
        if str_eq(command, CMD_CHALLENGE) && str_eq(session.status.as_str(), STATUS_PENDING) {
            session.updated_at = now;
            session.last_action_at = now;
            return Ok(session.status.clone());
        }
        Err(
            LrgpError::IllegalTransition {
                command: command.to_owned(),
                status: session.status.clone(),
            },
        )
    }

    /// Apply a command to a session now (see `apply_command_at`).
    pub fn apply_command(session: &mut Session, command: &str, terminal: bool) -> (r: Result<
        String,
        LrgpError,
    >)
        ensures
            match next_status(old(session).status@, command@, terminal) {
                Some(s) => {
                    &&& r matches Ok(t) && t@ == s
                    &&& final(session).status@ == s
                    &&& final(session).same_except_status_and_times(*old(session))
                    &&& final(session).created_at == old(session).created_at
                    &&& final(session).updated_at == final(session).last_action_at
                },
                None => {
                    &&& r matches Err(LrgpError::IllegalTransition { command: c, status: st })
                    &&& c@ == command@
                    &&& st@ == old(session).status@
                    &&& final(session).same_as(*old(session))
                },
            },
    {
        let now = now_millis();
        Self::apply_command_at(session, command, terminal, now)
    }

    /// Check at time `now` whether a session has expired based on its TTL.
    /// Returns `true` if the session expired (and then marks it expired).
    pub fn check_expiry_at(session: &mut Session, ttl: Option<&SessionTtl>, now: i64) -> (r: bool)
        ensures
            r == is_expired_at(
                old(session).status@,
                old(session).last_action_at as int,
                ttl_value(ttl),
                now as int,
            ),
            r ==> {
                &&& final(session).status@ == STATUS_EXPIRED@
                &&& final(session).same_except_status_and_times(*old(session))
                &&& final(session).created_at == old(session).created_at
                &&& final(session).last_action_at == old(session).last_action_at
                &&& final(session).updated_at == now
            },
            !r ==> final(session).same_as(*old(session)),
    {
        proof {
            lemma_statuses_distinct();
        }
        let status = session.status.as_str();
        if str_eq(status, STATUS_COMPLETED) || str_eq(status, STATUS_EXPIRED) || str_eq(
            status,
            STATUS_DECLINED,
        ) {
            return false;
        }
        let limit: i64 = if str_eq(status, STATUS_PENDING) {
            match ttl {
                Some(t) => match t.pending {
                    Some(v) => v,
                    None => TTL_PENDING,
                },
                None => TTL_PENDING,
            }
        } else if str_eq(status, STATUS_ACTIVE) {
            match ttl {
                Some(t) => match t.active {
                    Some(v) => v,
                    None => TTL_ACTIVE,
                },
                None => TTL_ACTIVE,
            }
        } else {
            return false;
        };
        let deadline: i128 = session.last_action_at as i128 + limit as i128
            + TTL_GRACE_PERIOD as i128;
        if (now as i128) > deadline {
            session.status = STATUS_EXPIRED.to_owned();
            session.updated_at = now;
            return true;
        }
        false
    }

    /// Check whether a session has expired, at `now_override` if given and
    /// at the current time otherwise (see `check_expiry_at`).
    pub fn check_expiry(
        session: &mut Session,
        ttl: Option<&SessionTtl>,
        now_override: Option<i64>,
    ) -> (r: bool)
        ensures
            now_override matches Some(t) ==> r == is_expired_at(
                old(session).status@,
                old(session).last_action_at as int,
                ttl_value(ttl),
                t as int,
            ),
            now_override matches Some(t) ==> (r ==> final(session).updated_at == t),
            ttl_limit(old(session).status@, ttl_value(ttl)) is None ==> !r,
            r ==> is_expired_at(
                old(session).status@,
                old(session).last_action_at as int,
                ttl_value(ttl),
                final(session).updated_at as int,
            ),
            r ==> {
                &&& final(session).status@ == STATUS_EXPIRED@
                &&& final(session).same_except_status_and_times(*old(session))
                &&& final(session).created_at == old(session).created_at
                &&& final(session).last_action_at == old(session).last_action_at
            },
            !r ==> final(session).same_as(*old(session)),
    {
        let now = match now_override {
            Some(t) => t,
            None => now_millis(),
        };
        Self::check_expiry_at(session, ttl, now)
    }

    /// The explicit transition of `command` from `current`, if any.
    pub fn get_transition(current: &str, command: &str) -> (r: Option<&'static str>)
        ensures
            match transition(current@, command@) {
                Some(s) => r matches Some(t) && t@ == s,
                None => r is None,
            },
    {
        if str_eq(current, STATUS_PENDING) && str_eq(command, CMD_ACCEPT) {
            Some(STATUS_ACTIVE)
        } else if str_eq(current, STATUS_PENDING) && str_eq(command, CMD_DECLINE) {
            Some(STATUS_DECLINED)
        } else if str_eq(current, STATUS_ACTIVE) && str_eq(command, CMD_RESIGN) {
            Some(STATUS_COMPLETED)
        } else if str_eq(current, STATUS_ACTIVE) && str_eq(command, CMD_DRAW_ACCEPT) {
            Some(STATUS_COMPLETED)
        } else {
            None
        }
    }

    /// Whether `command` keeps a session in `current` status.
    pub fn is_same_status_command(current: &str, command: &str) -> (r: bool)
        ensures
            r == same_status_command(current@, command@),
    {
        if str_eq(current, STATUS_ACTIVE) {
            str_eq(command, CMD_MOVE) || str_eq(command, CMD_DRAW_OFFER) || str_eq(
                command,
                CMD_DRAW_DECLINE,
            ) || str_eq(command, CMD_ERROR)
        } else {
            false
        }
    }
}

/// The key of a session: its id and the local identity.
pub open spec fn session_key(s: Session) -> (Seq<char>, Seq<char>) {
    (s.session_id@, s.identity_id@)
}

/// The map that a sequence of sessions denotes when later sessions replace
/// earlier ones with the same key.
pub open spec fn table_of(s: Seq<Session>) -> Map<(Seq<char>, Seq<char>), Session>
    decreases s.len(),
{
    if s.len() == 0 {
        Map::empty()
    } else {
        table_of(s.drop_last()).insert(session_key(s.last()), s.last())
    }
}

/// Index of the last session with key `k`, or -1 if there is none.
pub open spec fn last_session_index(s: Seq<Session>, k: (Seq<char>, Seq<char>)) -> int
    decreases s.len(),
{
    if s.len() == 0 {
        -1
    } else if session_key(s.last()) == k {
        s.len() - 1
    } else {
        last_session_index(s.drop_last(), k)
    }
}

/// `last_session_index` finds the last session with the key, and the
/// table holds that session.
pub proof fn lemma_last_session_index(s: Seq<Session>, k: (Seq<char>, Seq<char>))
    ensures
        -1 <= last_session_index(s, k) < s.len(),
        last_session_index(s, k) >= 0 ==> session_key(s[last_session_index(s, k)]) == k,
        forall|i: int| last_session_index(s, k) < i < s.len() ==> session_key(s[i]) != k,
        table_of(s).contains_key(k) <==> last_session_index(s, k) >= 0,
        last_session_index(s, k) >= 0 ==> table_of(s)[k] == s[last_session_index(s, k)],
    decreases s.len(),
{
    if s.len() > 0 && session_key(s.last()) != k {
        let p = s.drop_last();
        lemma_last_session_index(p, k);
        assert forall|i: int| last_session_index(s, k) < i < s.len() implies session_key(s[i])
            != k by {
            if i < s.len() - 1 {
                assert(s[i] == p[i]);
            }
        }
    }
}

/// Replacing a session of another key leaves the last session of `kk` in place.
proof fn lemma_update_other_session(s: Seq<Session>, i: int, p: Session, kk: (Seq<char>, Seq<char>))
    requires
        0 <= i < s.len(),
        session_key(s[i]) != kk,
        session_key(p) != kk,
    ensures
        last_session_index(s.update(i, p), kk) == last_session_index(s, kk),
    decreases s.len(),
{
    let t = s.update(i, p);
    if i == s.len() - 1 {
        assert(t.drop_last() =~= s.drop_last());
    } else {
        assert(t.drop_last() =~= s.drop_last().update(i, p));
        lemma_update_other_session(s.drop_last(), i, p, kk);
    }
}

/// Sessions kept in memory, found by session id and local identity.
pub struct SessionTable {
    sessions: Vec<Session>,
}

impl SessionTable {
    /// The sessions by key.
    pub closed spec fn table(self) -> Map<(Seq<char>, Seq<char>), Session> {
        table_of(self.sessions@)
    }

    /// An empty table.
    pub fn new() -> (r: SessionTable)
        ensures
            r.table() == Map::<(Seq<char>, Seq<char>), Session>::empty(),
    {
        SessionTable { sessions: Vec::new() }
    }

    /// Position of the last session with this key, if present.
    fn find(&self, session_id: &str, identity_id: &str) -> (r: Option<usize>)
        ensures
            r is None ==> last_session_index(self.sessions@, (session_id@, identity_id@)) == -1,
            r matches Some(i) ==> i == last_session_index(
                self.sessions@,
                (session_id@, identity_id@),
            ),
    {
        let ghost k = (session_id@, identity_id@);
        proof {
            lemma_last_session_index(self.sessions@, k);
        }
        let mut i: usize = self.sessions.len();
        while i > 0
            invariant
                i <= self.sessions@.len(),
                k == (session_id@, identity_id@),
                forall|j: int| i <= j < self.sessions@.len() ==> session_key(self.sessions@[j]) != k,
                -1 <= last_session_index(self.sessions@, k) < self.sessions@.len(),
                last_session_index(self.sessions@, k) >= 0 ==> session_key(
                    self.sessions@[last_session_index(self.sessions@, k)],
                ) == k,
                forall|j: int|
                    last_session_index(self.sessions@, k) < j < self.sessions@.len() ==> session_key(
                        self.sessions@[j],
                    ) != k,
            decreases i,
        {
            i = i - 1;
            let s = &self.sessions[i];
            if str_eq(s.session_id.as_str(), session_id) && str_eq(
                s.identity_id.as_str(),
                identity_id,
            ) {
                return Some(i);
            }
        }
        None
    }

    /// A copy of the session with this key, if there is one.
    pub fn get(&self, session_id: &str, identity_id: &str) -> (r: Option<Session>)
        ensures
            r is Some <==> self.table().contains_key((session_id@, identity_id@)),
            r matches Some(s) ==> s.same_as(self.table()[(session_id@, identity_id@)]),
            self.table().contains_key((session_id@, identity_id@)) ==> session_key(
                self.table()[(session_id@, identity_id@)],
            ) == (session_id@, identity_id@),
    {
        proof {
            lemma_last_session_index(self.sessions@, (session_id@, identity_id@));
        }
        match self.find(session_id, identity_id) {
            Some(i) => Some(self.sessions[i].duplicate()),
            None => None,
        }
    }

    /// Store a session under its key, in the place of an earlier one.
    pub fn save(&mut self, session: Session)
        ensures
            final(self).table() == old(self).table().insert(session_key(session), session),
    {
        let ghost old_s = self.sessions@;
        let ghost k = session_key(session);
        proof {
            lemma_last_session_index(old_s, k);
        }
        let found = self.find(session.session_id.as_str(), session.identity_id.as_str());
        let ghost sv = session;
        match found {
            Some(i) => {
                self.sessions.set(i, session);
            },
            None => {
                self.sessions.push(session);
            },
        }
        proof {
            let new_s = self.sessions@;
            if found is Some {
                let i = last_session_index(old_s, k);
                assert forall|kk: (Seq<char>, Seq<char>)| #[trigger] table_of(new_s).contains_key(kk)
                    == table_of(old_s).insert(k, sv).contains_key(kk) && (table_of(
                    new_s,
                ).contains_key(kk) ==> table_of(new_s)[kk] == table_of(old_s).insert(k, sv)[kk]) by {
                    lemma_last_session_index(new_s, kk);
                    lemma_last_session_index(old_s, kk);
                    if kk != k {
                        lemma_update_other_session(old_s, i, sv, kk);
                    } else {
                        assert(session_key(new_s[i]) == k);
                        let j = last_session_index(new_s, kk);
                        if j > i {
                        }
                    }
                }
            } else {
                assert(new_s.drop_last() =~= old_s);
            }
        }
    }
}

} // verus!
