use vstd::prelude::*;

use crate::session::{Session, SessionTtl};
use crate::value::{StrMap, ValueModel};

verus! {

/// An event for the UI.
pub struct Event {
    pub event_type: String,
    pub session_id: String,
    pub app_id: String,
    pub from: String,
    /// The payload of the action, for moves.
    pub payload: Option<StrMap>,
}

/// Result returned by `handle_incoming`.
pub struct IncomingResult {
    /// Updated session, or None.
    pub session: Option<Session>,
    /// Event to emit to the UI, or None.
    pub emit: Option<Event>,
    /// Error info (`code`, `msg` and possibly `ref`), or None.
    pub error: Option<StrMap>,
}

/// Result returned by `handle_outgoing`.
pub struct OutgoingResult {
    /// Enriched payload to pack into the envelope.
    pub payload: StrMap,
    /// Human-readable fallback text for non-LRGP clients.
    pub fallback_text: String,
    /// The session the action belongs to: the one given, or the id the game
    /// generated for a new challenge.
    pub session_id: String,
}

/// Game manifest describing an LRGP game's capabilities. Times are in
/// milliseconds.
pub struct GameManifest {
    pub app_id: String,
    pub version: u32,
    pub display_name: String,
    pub icon: String,
    pub session_type: String,
    pub max_players: u32,
    pub min_players: u32,
    pub validation: String,
    pub actions: Vec<String>,
    /// Preferred delivery method per command.
    pub preferred_delivery: Vec<(String, String)>,
    pub ttl: SessionTtl,
    /// Optional genre tag for game categorization (e.g., "strategy", "puzzle", "card").
    pub genre: Option<String>,
    /// Optional per-turn time limit. `None` means no limit.
    pub turn_timeout: Option<i64>,
}

/// The event has this type, session, game and sender, and no payload.
pub open spec fn is_event(e: Event, event_type: Seq<char>, session_id: Seq<char>, app_id: Seq<char>, from: Seq<char>) -> bool {
    &&& e.event_type@ == event_type
    &&& e.session_id@ == session_id
    &&& e.app_id@ == app_id
    &&& e.from@ == from
    &&& e.payload is None
}

/// Build an event.
pub fn emit_event(event_type: &str, session_id: &str, app_id: &str, from: &str) -> (r: Event)
    ensures
        is_event(r, event_type@, session_id@, app_id@, from@),
{
    Event {
        event_type: event_type.to_owned(),
        session_id: session_id.to_owned(),
        app_id: app_id.to_owned(),
        from: from.to_owned(),
        payload: None,
    }
}

/// The trait all LRGP games implement.
pub trait GameApp {
    /// The game's own invariant over its state.
    open spec fn app_wf(&self) -> bool {
        true
    }

    /// The game's id, as a spec value.
    open spec fn spec_app_id(&self) -> Seq<char> {
        Seq::empty()
    }

    /// The incoming actions that the game handles (those on which it does
    /// not give up).
    open spec fn incoming_ok(
        &self,
        session_id: Seq<char>,
        command: Seq<char>,
        payload: Map<Seq<char>, ValueModel>,
        sender_hash: Seq<char>,
        identity_id: Seq<char>,
    ) -> bool {
        true
    }

    /// The outgoing actions that the game handles.
    open spec fn outgoing_ok(
        &self,
        session_id: Seq<char>,
        command: Seq<char>,
        payload: Map<Seq<char>, ValueModel>,
        identity_id: Seq<char>,
    ) -> bool {
        true
    }

    /// The actions that the game validates.
    open spec fn validate_ok(
        &self,
        session_id: Seq<char>,
        command: Seq<char>,
        payload: Map<Seq<char>, ValueModel>,
        sender_hash: Seq<char>,
    ) -> bool {
        true
    }

    /// The game's id.
    fn app_id(&self) -> (r: &str)
        ensures
            r@ == self.spec_app_id(),
    ;

    /// What the game's manifest says.
    open spec fn manifest_ok(&self, m: GameManifest) -> bool {
        true
    }

    /// What handling an incoming action does, from the game `self` to the
    /// game `after`, with result `r`.
    open spec fn handled_incoming(
        &self,
        after: &Self,
        session_id: Seq<char>,
        command: Seq<char>,
        payload: Map<Seq<char>, ValueModel>,
        sender_hash: Seq<char>,
        identity_id: Seq<char>,
        r: IncomingResult,
    ) -> bool {
        true
    }

    /// What preparing an outgoing action does, from the game `self` to the
    /// game `after`, with result `r`.
    open spec fn handled_outgoing(
        &self,
        after: &Self,
        session_id: Seq<char>,
        command: Seq<char>,
        payload: Map<Seq<char>, ValueModel>,
        identity_id: Seq<char>,
        r: OutgoingResult,
    ) -> bool {
        true
    }

    /// What validating an action does, from the game `self` to the game
    /// `after`, with result `r`.
    open spec fn validated(
        &self,
        after: &Self,
        session_id: Seq<char>,
        command: Seq<char>,
        payload: Map<Seq<char>, ValueModel>,
        sender_hash: Seq<char>,
        r: (bool, Option<String>),
    ) -> bool {
        true
    }

    /// The game's protocol version.
    fn version(&self) -> u32;

    /// The game's manifest.
    fn manifest(&self) -> (r: GameManifest)
        ensures
            self.manifest_ok(r),
    ;

    /// Whether `handle_incoming` handles this action.
    fn can_handle_incoming(
        &self,
        session_id: &str,
        command: &str,
        payload: &StrMap,
        sender_hash: &str,
        identity_id: &str,
    ) -> (r: bool)
        requires
            self.app_wf(),
        ensures
            r == self.incoming_ok(session_id@, command@, payload@, sender_hash@, identity_id@),
    ;

    /// Process an incoming LRGP game action.
    fn handle_incoming(
        &mut self,
        session_id: &str,
        command: &str,
        payload: &StrMap,
        sender_hash: &str,
        identity_id: &str,
    ) -> (r: IncomingResult)
        requires
            old(self).app_wf(),
            old(self).incoming_ok(session_id@, command@, payload@, sender_hash@, identity_id@),
        ensures
            final(self).app_wf(),
            final(self).spec_app_id() == old(self).spec_app_id(),
            old(self).handled_incoming(
                final(self),
                session_id@,
                command@,
                payload@,
                sender_hash@,
                identity_id@,
                r,
            ),
    ;

    /// Whether `handle_outgoing` handles this action.
    fn can_handle_outgoing(
        &self,
        session_id: &str,
        command: &str,
        payload: &StrMap,
        identity_id: &str,
    ) -> (r: bool)
        requires
            self.app_wf(),
        ensures
            r == self.outgoing_ok(session_id@, command@, payload@, identity_id@),
    ;

    /// Prepare an outgoing LRGP game action.
    fn handle_outgoing(
        &mut self,
        session_id: &str,
        command: &str,
        payload: &StrMap,
        identity_id: &str,
    ) -> (r: OutgoingResult)
        requires
            old(self).app_wf(),
            old(self).outgoing_ok(session_id@, command@, payload@, identity_id@),
        ensures
            final(self).app_wf(),
            final(self).spec_app_id() == old(self).spec_app_id(),
            old(self).handled_outgoing(final(self), session_id@, command@, payload@, identity_id@, r),
    ;

    /// Whether `validate_action` handles this action.
    fn can_validate_action(
        &self,
        session_id: &str,
        command: &str,
        payload: &StrMap,
        sender_hash: &str,
    ) -> (r: bool)
        requires
            self.app_wf(),
        ensures
            r == self.validate_ok(session_id@, command@, payload@, sender_hash@),
    ;

    /// Validate an action. Returns (valid, error_message).
    fn validate_action(
        &mut self,
        session_id: &str,
        command: &str,
        payload: &StrMap,
        sender_hash: &str,
    ) -> (r: (bool, Option<String>))
        requires
            old(self).app_wf(),
            old(self).validate_ok(session_id@, command@, payload@, sender_hash@),
        ensures
            final(self).app_wf(),
            final(self).spec_app_id() == old(self).spec_app_id(),
            old(self).validated(final(self), session_id@, command@, payload@, sender_hash@, r),
    ;

    /// Return current session state for rendering.
    fn get_session_state(&self, session_id: &str, identity_id: &str) -> Option<Session>;

    /// Generate human-readable fallback text for LXMF content field.
    fn render_fallback(&self, command: &str, payload: &StrMap) -> String;

    /// Return preferred delivery method for this command; `opportunistic`
    /// unless the game says otherwise.
    fn get_delivery_method(&self, command: &str) -> (r: String)
        default_ensures
            r@ == "opportunistic"@,
    {
        "opportunistic".to_owned()
    }
}

} // verus!
