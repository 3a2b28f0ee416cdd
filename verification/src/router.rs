use vstd::prelude::*;

use crate::app_base::{GameApp, GameManifest, IncomingResult, OutgoingResult};
use crate::constants::{lemma_envelope_keys, KEY_APP, KEY_COMMAND, KEY_PAYLOAD, KEY_SESSION};
use crate::envelope::{
    app_ver_text, dict_of, envelope_pairs, law_app_version_roundtrip, lemma_map_of_dict, map_from_value, map_of_value, pack_envelope, parse_app_version, spec_parse_app_version,
    Envelope,
};
use crate::errors::LrgpError;
use crate::text::str_eq;
use crate::value::{map_of_pairs, model_as_str, value_as_str, StrMap, ValueModel};

verus! {

/// Registry of LRGP game implementations, one per game id.
pub struct LrgpRouter<A: GameApp> {
    apps: Vec<A>,
}

impl<A: GameApp> LrgpRouter<A> {
    /// The registered games, in the order they were first registered.
    pub closed spec fn apps(&self) -> Seq<A> {
        self.apps@
    }

    /// The ids of the registered games.
    pub open spec fn app_ids(&self) -> Seq<Seq<char>> {
        self.apps().map_values(|a: A| a.spec_app_id())
    }

    /// The registered games are valid and have distinct ids.
    pub open spec fn wf(&self) -> bool {
        &&& forall|i: int| 0 <= i < self.apps().len() ==> (#[trigger] self.apps()[i]).app_wf()
        &&& forall|i: int, j: int|
            0 <= i < j < self.apps().len() ==> #[trigger] self.apps()[i].spec_app_id()
                != #[trigger] self.apps()[j].spec_app_id()
    }

    /// A router with no games.
    pub fn new() -> (r: LrgpRouter<A>)
        ensures
            r.wf(),
            r.app_ids() == Seq::<Seq<char>>::empty(),
    {
        let r = LrgpRouter { apps: Vec::new() };
        r
    }

    /// The position of the game with this id.
    fn find(&self, app_id: &str) -> (r: Option<usize>)
        requires
            self.wf(),
        ensures
            r is None ==> !self.app_ids().contains(app_id@),
            r matches Some(i) ==> i < self.apps@.len() && self.app_ids()[i as int] == app_id@,
    {
        let mut i: usize = 0;
        while i < self.apps.len()
            invariant
                i <= self.apps@.len(),
                forall|j: int| 0 <= j < i ==> self.apps@[j].spec_app_id() != app_id@,
            decreases self.apps@.len() - i,
        {
            if str_eq(self.apps[i].app_id(), app_id) {
                return Some(i);
            }
            i = i + 1;
        }
        proof {
            if self.app_ids().contains(app_id@) {
                let k = choose|k: int| 0 <= k < self.app_ids().len() && self.app_ids()[k] == app_id@;
            }
        }
        None
    }

    /// Register a game implementation, in the place of a game with the same id.
    pub fn register(&mut self, app: A)
        requires
            old(self).wf(),
            app.app_wf(),
        ensures
            final(self).wf(),
            old(self).app_ids().contains(app.spec_app_id()) ==> {
                &&& final(self).app_ids() == old(self).app_ids()
                &&& exists|i: int|
                    #[trigger] old(self).app_ids()[i] == app.spec_app_id() && 0 <= i < old(self).apps().len()
                        && final(self).apps() == old(self).apps().update(i, app)
            },
            !old(self).app_ids().contains(app.spec_app_id()) ==> {
                &&& final(self).app_ids() == old(self).app_ids().push(app.spec_app_id())
                &&& final(self).apps() == old(self).apps().push(app)
            },
    {
        let ghost id = app.spec_app_id();
        let found = self.find(app.app_id());
        match found {
            Some(i) => {
                self.apps.set(i, app);
                proof {
                    assert forall|a: int, b: int|
                        0 <= a < b < self.apps@.len() implies #[trigger] self.apps@[a].spec_app_id()
                            != #[trigger] self.apps@[b].spec_app_id() by {}
                }
            },
            None => {
                self.apps.push(app);
                proof {
                    assert forall|a: int, b: int|
                        0 <= a < b < self.apps@.len() implies #[trigger] self.apps@[a].spec_app_id()
                            != #[trigger] self.apps@[b].spec_app_id() by {
                        if b == self.apps@.len() - 1 {
                            assert(old(self).app_ids()[a] == old(self).apps@[a].spec_app_id());
                        }
                    }
                }
            },
        }
    }
}

/// The text stored under `key`, where the value there is a string.
pub open spec fn text_field(env: Map<Seq<char>, ValueModel>, key: Seq<char>) -> Option<Seq<char>> {
    if env.contains_key(key) {
        model_as_str(env[key])
    } else {
        None
    }
}

/// The payload of an envelope: the map under `p`, or an empty map where
/// there is none.
pub open spec fn payload_field(env: Map<Seq<char>, ValueModel>) -> Map<Seq<char>, ValueModel> {
    if env.contains_key(KEY_PAYLOAD@) && map_of_value(env[KEY_PAYLOAD@]) is Some {
        map_of_value(env[KEY_PAYLOAD@]).unwrap()
    } else {
        Map::empty()
    }
}

/// What the router reads from an incoming envelope: the game id, the
/// command, the session id and the payload; or the message of the error
/// it answers with.
pub open spec fn incoming_route(env: Map<Seq<char>, ValueModel>) -> Result<
    (Seq<char>, Seq<char>, Seq<char>, Map<Seq<char>, ValueModel>),
    Seq<char>,
> {
    match text_field(env, KEY_APP@) {
        None => Err("missing 'a' key"@),
        Some(app_ver) => match spec_parse_app_version(app_ver) {
            None => Err("invalid app.version format"@),
            Some((app_id, _version)) => match text_field(env, KEY_COMMAND@) {
                None => Err("missing 'c' key"@),
                Some(command) => match text_field(env, KEY_SESSION@) {
                    None => Err("missing 's' key"@),
                    Some(session_id) => Ok((app_id, command, session_id, payload_field(env))),
                },
            },
        },
    }
}

/// The text stored under `key`, where the value there is a string.
fn text_of<'a>(envelope: &'a Envelope, key: &str) -> (r: Option<&'a str>)
    ensures
        r is Some <==> text_field(envelope@, key@) is Some,
        r matches Some(t) ==> t@ == text_field(envelope@, key@).unwrap(),
{
    match envelope.get(key) {
        Some(v) => value_as_str(v),
        None => None,
    }
}

impl<A: GameApp> LrgpRouter<A> {
    /// Every registered game with this id handles the action the envelope carries.
    pub open spec fn incoming_accepted(
        &self,
        env: Map<Seq<char>, ValueModel>,
        sender_hash: Seq<char>,
        identity_id: Seq<char>,
    ) -> bool {
        match incoming_route(env) {
            Ok((app_id, command, session_id, payload)) => forall|i: int|
                0 <= i < self.apps().len() && #[trigger] self.apps()[i].spec_app_id() == app_id
                    ==> self.apps()[i].incoming_ok(session_id, command, payload, sender_hash, identity_id),
            Err(_) => true,
        }
    }

    /// The game at position `i` was replaced by what handling an action
    /// made of it; the others are unchanged.
    pub open spec fn changed_only_at(&self, after: &Self, i: int) -> bool {
        &&& 0 <= i < self.apps().len()
        &&& after.apps() == self.apps().update(i, after.apps()[i])
    }

    /// Dispatch an incoming LRGP envelope to the game it names.
    pub fn dispatch_incoming(&mut self, envelope: &Envelope, sender_hash: &str, identity_id: &str) -> (r:
        Result<IncomingResult, LrgpError>)
        requires
            old(self).wf(),
            old(self).incoming_accepted(envelope@, sender_hash@, identity_id@),
        ensures
            final(self).wf(),
            final(self).app_ids() == old(self).app_ids(),
            match incoming_route(envelope@) {
                Err(msg) => {
                    &&& final(self).apps() == old(self).apps()
                    &&& r matches Err(LrgpError::InvalidEnvelope(m)) && m@ == msg
                },
                Ok((app_id, command, session_id, payload)) => if old(self).app_ids().contains(app_id) {
                    exists|i: int|
                        {
                            &&& #[trigger] old(self).app_ids()[i] == app_id
                            &&& old(self).changed_only_at(final(self), i)
                            &&& r matches Ok(res) && old(self).apps()[i].handled_incoming(
                                &final(self).apps()[i],
                                session_id,
                                command,
                                payload,
                                sender_hash@,
                                identity_id@,
                                res,
                            )
                        }
                } else {
                    &&& final(self).apps() == old(self).apps()
                    &&& r matches Err(LrgpError::UnknownApp(m)) && m@ == app_id
                },
            },
    {
        let app_ver = match text_of(envelope, KEY_APP) {
            Some(t) => t,
            None => {
                return Err(LrgpError::InvalidEnvelope("missing 'a' key".to_owned()));
            },
        };
        let app_id = match parse_app_version(app_ver) {
            Some((a, _version)) => a,
            None => {
                return Err(LrgpError::InvalidEnvelope("invalid app.version format".to_owned()));
            },
        };
        let command = match text_of(envelope, KEY_COMMAND) {
            Some(t) => t,
            None => {
                return Err(LrgpError::InvalidEnvelope("missing 'c' key".to_owned()));
            },
        };
        let session_id = match text_of(envelope, KEY_SESSION) {
            Some(t) => t,
            None => {
                return Err(LrgpError::InvalidEnvelope("missing 's' key".to_owned()));
            },
        };
        let payload = match envelope.get(KEY_PAYLOAD) {
            Some(v) => match map_from_value(v) {
                Some(m) => m,
                None => StrMap::new(),
            },
            None => StrMap::new(),
        };
        let i = match self.find(app_id) {
            Some(i) => i,
            None => {
                return Err(LrgpError::UnknownApp(app_id.to_owned()));
            },
        };
        let ghost before = self.apps@;
        let mut app = self.apps.remove(i);
        let res = app.handle_incoming(session_id, command, &payload, sender_hash, identity_id);
        let ghost done = app;
        self.apps.insert(i, app);
        proof {
            assert(self.apps@ =~= before.update(i as int, done));
            self.lemma_replaced(*old(self), i as int);
        }
        Ok(res)
    }

    /// Replacing a game by one with the same id, still valid, keeps the
    /// router valid and its ids.
    proof fn lemma_replaced(&self, before: Self, i: int)
        requires
            before.wf(),
            0 <= i < before.apps().len(),
            self.apps() == before.apps().update(i, self.apps()[i]),
            self.apps()[i].app_wf(),
            self.apps()[i].spec_app_id() == before.apps()[i].spec_app_id(),
        ensures
            self.wf(),
            self.app_ids() == before.app_ids(),
            before.changed_only_at(self, i),
    {
        assert forall|a: int, b: int|
            0 <= a < b < self.apps().len() implies #[trigger] self.apps()[a].spec_app_id()
                != #[trigger] self.apps()[b].spec_app_id() by {}
    }
}

impl<A: GameApp> LrgpRouter<A> {
    /// Every registered game with this id handles the outgoing action.
    pub open spec fn outgoing_accepted(
        &self,
        app_id: Seq<char>,
        command: Seq<char>,
        session_id: Seq<char>,
        payload: Map<Seq<char>, ValueModel>,
        identity_id: Seq<char>,
    ) -> bool {
        forall|i: int|
            0 <= i < self.apps().len() && #[trigger] self.apps()[i].spec_app_id() == app_id
                ==> self.apps()[i].outgoing_ok(session_id, command, payload, identity_id)
    }

    /// Dispatch an outgoing action to the game it names: the envelope to
    /// send, with the session id and payload the game made of it (a new
    /// challenge may get a generated id), and the fallback text.
    pub fn dispatch_outgoing(
        &mut self,
        app_id: &str,
        version: u32,
        command: &str,
        session_id: &str,
        payload: &StrMap,
        identity_id: &str,
    ) -> (r: Result<(Envelope, String), LrgpError>)
        requires
            old(self).wf(),
            old(self).outgoing_accepted(app_id@, command@, session_id@, payload@, identity_id@),
        ensures
            final(self).wf(),
            final(self).app_ids() == old(self).app_ids(),
            !old(self).app_ids().contains(app_id@) ==> {
                &&& final(self).apps() == old(self).apps()
                &&& r matches Err(LrgpError::UnknownApp(m)) && m@ == app_id@
            },
            old(self).app_ids().contains(app_id@) ==> exists|i: int, o: OutgoingResult|
                {
                    &&& #[trigger] old(self).app_ids()[i] == app_id@
                    &&& old(self).changed_only_at(final(self), i)
                    &&& #[trigger] old(self).apps()[i].handled_outgoing(
                        &final(self).apps()[i],
                        session_id@,
                        command@,
                        payload@,
                        identity_id@,
                        o,
                    )
                    &&& r matches Ok((env, text)) && env.pairs() == envelope_pairs(
                        app_id@,
                        version,
                        command@,
                        o.session_id@,
                        dict_of(o.payload.pairs()),
                    ) && env@ == map_of_pairs(env.pairs()) && text@ == o.fallback_text@
                },
    {
        let i = match self.find(app_id) {
            Some(i) => i,
            None => {
                return Err(LrgpError::UnknownApp(app_id.to_owned()));
            },
        };
        let ghost before = self.apps@;
        let mut app = self.apps.remove(i);
        let result = app.handle_outgoing(session_id, command, payload, identity_id);
        let ghost done = app;
        let ghost o = result;
        self.apps.insert(i, app);
        proof {
            assert(self.apps@ =~= before.update(i as int, done));
            self.lemma_replaced(*old(self), i as int);
        }
        let fallback = result.fallback_text;
        let env = pack_envelope(app_id, version, command, result.session_id.as_str(), Some(result.payload));
        Ok((env, fallback))
    }

    /// The manifests of the registered games, in the order they were first
    /// registered.
    pub fn list_apps(&self) -> (r: Vec<GameManifest>)
        ensures
            r@.len() == self.apps().len(),
            forall|i: int| 0 <= i < r@.len() ==> self.apps()[i].manifest_ok(#[trigger] r@[i]),
    {
        let mut out: Vec<GameManifest> = Vec::new();
        let mut i: usize = 0;
        while i < self.apps.len()
            invariant
                i <= self.apps@.len(),
                out@.len() == i,
                forall|j: int| 0 <= j < i ==> self.apps@[j].manifest_ok(#[trigger] out@[j]),
            decreases self.apps@.len() - i,
        {
            out.push(self.apps[i].manifest());
            i = i + 1;
        }
        out
    }

    /// Run `f` on the registered game with this id, if there is one.
    pub fn with_app<F, R>(&self, app_id: &str, f: F) -> (r: Option<R>) where F: FnOnce(&A) -> R
        requires
            self.wf(),
            forall|i: int|
                0 <= i < self.apps().len() && #[trigger] self.apps()[i].spec_app_id() == app_id@
                    ==> f.requires((&self.apps()[i],)),
        ensures
            r is Some <==> self.app_ids().contains(app_id@),
            r matches Some(x) ==> exists|i: int|
                #[trigger] self.app_ids()[i] == app_id@ && 0 <= i < self.apps().len() && f.ensures(
                    (&self.apps()[i],),
                    x,
                ),
    {
        match self.find(app_id) {
            Some(i) => {
                let x = f(&self.apps[i]);
                Some(x)
            },
            None => None,
        }
    }
}

impl<A: GameApp> LrgpRouter<A> {
    /// Whether `dispatch_incoming` handles this envelope.
    pub fn can_dispatch_incoming(&self, envelope: &Envelope, sender_hash: &str, identity_id: &str) -> (r: bool)
        requires
            self.wf(),
        ensures
            r == self.incoming_accepted(envelope@, sender_hash@, identity_id@),
    {
        let app_id = match text_of(envelope, KEY_APP) {
            Some(t) => match parse_app_version(t) {
                Some((a, _version)) => a,
                None => {
                    return true;
                },
            },
            None => {
                return true;
            },
        };
        let command = match text_of(envelope, KEY_COMMAND) {
            Some(t) => t,
            None => {
                return true;
            },
        };
        let session_id = match text_of(envelope, KEY_SESSION) {
            Some(t) => t,
            None => {
                return true;
            },
        };
        let payload = match envelope.get(KEY_PAYLOAD) {
            Some(v) => match map_from_value(v) {
                Some(m) => m,
                None => StrMap::new(),
            },
            None => StrMap::new(),
        };
        match self.find(app_id) {
            Some(i) => {
                let ok = self.apps[i].can_handle_incoming(session_id, command, &payload, sender_hash, identity_id);
                proof {
                    self.lemma_only_one(i as int, app_id@);
                }
                ok
            },
            None => {
                proof {
                    self.lemma_none_has(app_id@);
                }
                true
            },
        }
    }

    /// Whether `dispatch_outgoing` handles this action.
    pub fn can_dispatch_outgoing(
        &self,
        app_id: &str,
        command: &str,
        session_id: &str,
        payload: &StrMap,
        identity_id: &str,
    ) -> (r: bool)
        requires
            self.wf(),
        ensures
            r == self.outgoing_accepted(app_id@, command@, session_id@, payload@, identity_id@),
    {
        match self.find(app_id) {
            Some(i) => {
                let ok = self.apps[i].can_handle_outgoing(session_id, command, payload, identity_id);
                proof {
                    self.lemma_only_one(i as int, app_id@);
                }
                ok
            },
            None => {
                proof {
                    self.lemma_none_has(app_id@);
                }
                true
            },
        }
    }

    /// In a valid router, the game at position `i` is the only one with its id.
    proof fn lemma_only_one(&self, i: int, app_id: Seq<char>)
        requires
            self.wf(),
            0 <= i < self.apps().len(),
            self.apps()[i].spec_app_id() == app_id,
        ensures
            forall|j: int|
                0 <= j < self.apps().len() && #[trigger] self.apps()[j].spec_app_id() == app_id ==> j == i,
    {
        assert forall|j: int|
            0 <= j < self.apps().len() && #[trigger] self.apps()[j].spec_app_id() == app_id implies j == i by {
            if j < i {
            } else if j > i {
            }
        }
    }

    /// No game has an id that is not among the ids.
    proof fn lemma_none_has(&self, app_id: Seq<char>)
        requires
            !self.app_ids().contains(app_id),
        ensures
            forall|j: int| 0 <= j < self.apps().len() ==> #[trigger] self.apps()[j].spec_app_id() != app_id,
    {
        assert forall|j: int| 0 <= j < self.apps().len() implies #[trigger] self.apps()[j].spec_app_id()
            != app_id by {
            assert(self.app_ids()[j] == self.apps()[j].spec_app_id());
        }
    }
}

impl<A: GameApp> Default for LrgpRouter<A> {
    fn default() -> (r: Self)
        ensures
            r.wf(),
            r.app_ids() == Seq::<Seq<char>>::empty(),
    {
        Self::new()
    }
}

/// An envelope as `pack_envelope` (and so `dispatch_outgoing`) builds it is
/// routed on the receiving side to the same game, command and session,
/// with the same payload.
pub proof fn law_packed_envelope_routes_back(
    app_id: Seq<char>,
    version: u32,
    command: Seq<char>,
    session_id: Seq<char>,
    payload: Seq<(Seq<char>, ValueModel)>,
)
    ensures
        incoming_route(map_of_pairs(envelope_pairs(app_id, version, command, session_id, dict_of(payload))))
            == Ok::<(Seq<char>, Seq<char>, Seq<char>, Map<Seq<char>, ValueModel>), Seq<char>>(
            (app_id, command, session_id, map_of_pairs(payload)),
        ),
{
    let pairs = envelope_pairs(app_id, version, command, session_id, dict_of(payload));
    let env = map_of_pairs(pairs);
    lemma_envelope_keys();
    law_app_version_roundtrip(app_id, version);
    lemma_map_of_dict(payload);
    assert(KEY_COMMAND@[0] != KEY_PAYLOAD@[0]);
    assert(KEY_SESSION@[0] != KEY_PAYLOAD@[0]);
    reveal_with_fuel(map_of_pairs, 5);
}

/// A valid router holds one game per id, so `list_apps` gives one manifest
/// per registered id (that of the game registered last under it, since
/// `register` replaces a game of the same id in place).
pub proof fn law_one_game_per_id<A: GameApp>(router: &LrgpRouter<A>)
    requires
        router.wf(),
    ensures
        router.app_ids().no_duplicates(),
{
    assert forall|i: int, j: int|
        0 <= i < router.app_ids().len() && 0 <= j < router.app_ids().len() && i != j implies router.app_ids()[i]
        != router.app_ids()[j] by {
        if i < j {
            assert(router.apps()[i].spec_app_id() != router.apps()[j].spec_app_id());
        } else {
            assert(router.apps()[j].spec_app_id() != router.apps()[i].spec_app_id());
        }
    }
}

} // verus!
