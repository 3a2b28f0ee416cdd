use lrgp::app_base::{Event, GameApp, GameManifest, IncomingResult, OutgoingResult};
use lrgp::apps::tictactoe::TicTacToeApp;
use lrgp::constants::{CMD_CHALLENGE, CMD_MOVE, KEY_APP, KEY_COMMAND, KEY_PAYLOAD, KEY_SESSION, SESSION_TURN_BASED, VALIDATION_BOTH};
use lrgp::envelope::{pack_envelope, Envelope};
use lrgp::errors::LrgpError;
use lrgp::router::LrgpRouter;
use lrgp::session::{Session, SessionTtl};
use lrgp::value::{value_as_str, MsgValue, StrMap};

/// Minimal mock game for testing the router.
struct MockGame;

impl GameApp for MockGame {
    fn app_id(&self) -> &str {
        "mock"
    }

    fn version(&self) -> u32 {
        1
    }

    fn manifest(&self) -> GameManifest {
        GameManifest {
            app_id: "mock".into(),
            version: 1,
            display_name: "Mock Game".into(),
            icon: "mock".into(),
            session_type: SESSION_TURN_BASED.into(),
            max_players: 2,
            min_players: 2,
            validation: VALIDATION_BOTH.into(),
            actions: vec![CMD_CHALLENGE.into(), CMD_MOVE.into()],
            preferred_delivery: Vec::new(),
            ttl: SessionTtl { pending: None, active: None },
            genre: Some("test".into()),
            turn_timeout: None,
        }
    }

    fn can_handle_incoming(&self, _session_id: &str, _command: &str, _payload: &StrMap, _sender_hash: &str, _identity_id: &str) -> bool {
        true
    }

    fn handle_incoming(
        &mut self,
        _session_id: &str,
        command: &str,
        _payload: &StrMap,
        _sender_hash: &str,
        _identity_id: &str,
    ) -> IncomingResult {
        IncomingResult {
            session: None,
            emit: Some(Event {
                event_type: command.into(),
                session_id: String::new(),
                app_id: String::new(),
                from: String::new(),
                payload: None,
            }),
            error: None,
        }
    }

    fn can_handle_outgoing(&self, _session_id: &str, _command: &str, _payload: &StrMap, _identity_id: &str) -> bool {
        true
    }

    fn handle_outgoing(&mut self, session_id: &str, command: &str, _payload: &StrMap, _identity_id: &str) -> OutgoingResult {
        OutgoingResult {
            payload: StrMap::new(),
            fallback_text: format!("[LRGP Mock] {command}"),
            session_id: session_id.to_string(),
        }
    }

    fn can_validate_action(&self, _session_id: &str, _command: &str, _payload: &StrMap, _sender_hash: &str) -> bool {
        true
    }

    fn validate_action(&mut self, _session_id: &str, _command: &str, _payload: &StrMap, _sender_hash: &str) -> (bool, Option<String>) {
        (true, None)
    }

    fn get_session_state(&self, _session_id: &str, _identity_id: &str) -> Option<Session> {
        None
    }

    fn render_fallback(&self, command: &str, _payload: &StrMap) -> String {
        format!("[LRGP Mock] {command}")
    }
}

#[test]
fn test_register_and_list() {
    let mut router = LrgpRouter::new();
    router.register(MockGame);
    let apps = router.list_apps();
    assert_eq!(apps.len(), 1);
    assert_eq!(apps[0].app_id, "mock");
    assert_eq!(apps[0].genre, Some("test".into()));
}

#[test]
fn test_dispatch_incoming() {
    let mut router = LrgpRouter::new();
    router.register(MockGame);

    let env = pack_envelope("mock", 1, "challenge", "sess1", None);
    let result = router.dispatch_incoming(&env, "sender", "local").unwrap();
    assert!(result.error.is_none());
    assert!(result.emit.is_some());
}

#[test]
fn test_dispatch_incoming_unknown_app() {
    let mut router: LrgpRouter<MockGame> = LrgpRouter::new();
    let env = pack_envelope("unknown", 1, "challenge", "sess1", None);
    let result = router.dispatch_incoming(&env, "sender", "local");
    assert!(matches!(result, Err(LrgpError::UnknownApp(_))));
}

#[test]
fn test_dispatch_outgoing() {
    let mut router = LrgpRouter::new();
    router.register(MockGame);

    let (env, fallback) = router.dispatch_outgoing("mock", 1, "challenge", "sess1", &StrMap::new(), "local").unwrap();
    assert!(env.contains_key(KEY_APP));
    assert_eq!(fallback, "[LRGP Mock] challenge");
}

#[test]
fn test_with_app() {
    let mut router = LrgpRouter::new();
    router.register(MockGame);
    let result = router.with_app("mock", |app| app.manifest().display_name);
    assert_eq!(result, Some("Mock Game".to_string()));
}

fn envelope_without(key: &str) -> Envelope {
    let env = pack_envelope("mock", 1, "challenge", "sess1", None);
    let mut out = StrMap::new();
    for i in 0..env.len() {
        let (k, v) = env.entry(i);
        if k.as_str() != key {
            out.insert(k.clone(), v.deep_copy());
        }
    }
    out
}

fn invalid_message(r: Result<IncomingResult, LrgpError>) -> String {
    match r {
        Err(LrgpError::InvalidEnvelope(m)) => m,
        _ => panic!("expected an invalid envelope"),
    }
}

#[test]
fn test_dispatch_incoming_invalid_envelopes() {
    let mut router = LrgpRouter::new();
    router.register(MockGame);
    assert_eq!(invalid_message(router.dispatch_incoming(&envelope_without(KEY_APP), "s", "l")), "missing 'a' key");
    assert_eq!(invalid_message(router.dispatch_incoming(&envelope_without(KEY_COMMAND), "s", "l")), "missing 'c' key");
    assert_eq!(invalid_message(router.dispatch_incoming(&envelope_without(KEY_SESSION), "s", "l")), "missing 's' key");
    let mut env = envelope_without("");
    env.insert(KEY_APP.to_string(), MsgValue::String("mock".to_string()));
    assert_eq!(invalid_message(router.dispatch_incoming(&env, "s", "l")), "invalid app.version format");
    // A missing payload is an empty one.
    let env = envelope_without(KEY_PAYLOAD);
    assert!(router.dispatch_incoming(&env, "s", "l").unwrap().error.is_none());
}

#[test]
fn test_dispatch_outgoing_unknown_app() {
    let mut router = LrgpRouter::new();
    router.register(MockGame);
    match router.dispatch_outgoing("chess", 1, "move", "s", &StrMap::new(), "local") {
        Err(LrgpError::UnknownApp(m)) => assert_eq!(m, "chess"),
        _ => panic!("expected an unknown game"),
    }
    assert!(router.with_app("chess", |app| app.version()).is_none());
}

#[test]
fn test_register_replaces_same_id() {
    let mut router = LrgpRouter::new();
    router.register(MockGame);
    router.register(MockGame);
    assert_eq!(router.list_apps().len(), 1);
}

#[test]
fn test_tictactoe_through_router() {
    let mut router = LrgpRouter::default();
    router.register(TicTacToeApp::new());
    let (env, fallback) = router.dispatch_outgoing("ttt", 1, CMD_CHALLENGE, "g1", &StrMap::new(), "alice").unwrap();
    assert_eq!(fallback, "[LRGP TTT] Sent a challenge!");
    assert_eq!(value_as_str(env.get(KEY_APP).unwrap()), Some("ttt.1"));
    assert!(router.can_dispatch_incoming(&env, "alice", "bob"));
    let r = router.dispatch_incoming(&env, "alice", "bob").unwrap();
    assert!(r.error.is_none());
    let s = r.session.unwrap();
    assert_eq!(s.identity_id, "bob");
    assert_eq!(s.contact_hash, "alice");
    assert_eq!(r.emit.unwrap().event_type, "challenge");
    assert!(router.can_dispatch_outgoing("ttt", CMD_MOVE, "g1", &StrMap::new(), "bob"));
    let state = router.with_app("ttt", |app| app.get_session_state("g1", "bob")).unwrap().unwrap();
    assert_eq!(state.status, "pending");
}

#[test]
fn test_challenge_without_session_id_carries_generated_id() {
    let mut router = LrgpRouter::new();
    router.register(TicTacToeApp::new());
    let (env, _) = router.dispatch_outgoing("ttt", 1, CMD_CHALLENGE, "", &StrMap::new(), "aaaa1111bbbb2222").unwrap();
    let sid = value_as_str(env.get(KEY_SESSION).unwrap()).unwrap().to_string();
    assert_eq!(sid.len(), 16);
    assert!(sid.chars().all(|c| c.is_ascii_hexdigit() && !c.is_ascii_uppercase()));
    let state = router.with_app("ttt", |app| app.get_session_state(&sid, "aaaa1111bbbb2222")).unwrap().unwrap();
    assert_eq!(state.session_id, sid);
    assert_eq!(state.initiator, "aaaa1111bbbb2222");
}

#[test]
fn test_accept_with_short_board_on_unknown_session() {
    let mut router = LrgpRouter::new();
    router.register(TicTacToeApp::new());
    let mut p = StrMap::new();
    p.insert("b".to_string(), MsgValue::String("X".to_string()));
    let env = pack_envelope("ttt", 1, "accept", "nope", Some(p));
    assert!(router.can_dispatch_incoming(&env, "bob", "alice"));
    let r = router.dispatch_incoming(&env, "bob", "alice").unwrap();
    let err = r.error.unwrap();
    assert_eq!(value_as_str(err.get("msg").unwrap()), Some("Unknown session"));
}
