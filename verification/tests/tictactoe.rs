use lrgp::app_base::GameApp;
use lrgp::apps::tictactoe::{check_draw, check_winner, gen_session_id, marker_for_move, TicTacToeApp};
use lrgp::constants::{
    CMD_ACCEPT, CMD_CHALLENGE, CMD_DECLINE, CMD_DRAW_ACCEPT, CMD_DRAW_DECLINE, CMD_DRAW_OFFER, CMD_ERROR,
    CMD_MOVE, CMD_RESIGN, STATUS_ACTIVE, STATUS_COMPLETED, STATUS_DECLINED, STATUS_PENDING,
};
use lrgp::value::{value_as_bool, value_as_str, value_as_u64, MsgValue, StrMap};

fn text(m: &StrMap, key: &str) -> String {
    value_as_str(m.get(key).unwrap()).unwrap().to_string()
}

fn move_payload(i: u64) -> StrMap {
    let mut p = StrMap::new();
    p.insert("i".to_string(), MsgValue::PosInt(i));
    p
}

fn set_contact(app: &mut TicTacToeApp, session_id: &str, identity: &str, contact: &str) {
    let mut s = app.get_session(session_id, identity).unwrap();
    s.contact_hash = contact.to_string();
    app.save_session(s);
}

/// Challenge and accept between `x` (challenger) and `o`.
fn start_game(app: &mut TicTacToeApp, sid: &str, x: &str, o: &str) {
    app.handle_outgoing(sid, CMD_CHALLENGE, &StrMap::new(), x);
    set_contact(app, sid, x, o);
    app.handle_incoming(sid, CMD_CHALLENGE, &StrMap::new(), x, o);
    let accept_out = app.handle_outgoing(sid, CMD_ACCEPT, &StrMap::new(), o);
    app.handle_incoming(sid, CMD_ACCEPT, &accept_out.payload, o, x);
}

#[test]
fn test_check_winner() {
    assert_eq!(check_winner("XXX______"), Some('X'));
    assert_eq!(check_winner("___OOO___"), Some('O'));
    assert_eq!(check_winner("X___X___X"), Some('X'));
    assert_eq!(check_winner("__X_X_X__"), Some('X'));
    assert_eq!(check_winner("_________"), None);
    assert_eq!(check_winner("XOXOXOOXO"), None);
}

#[test]
fn test_check_draw() {
    assert!(check_draw("XOXOOXXXO"));
    assert!(!check_draw("XOXOOXX_O"));
    assert!(!check_draw("XXXOO____"));
}

#[test]
fn test_check_draw_short_board_with_blank() {
    assert!(!check_draw("X_"));
    assert!(!check_draw("_"));
    assert!(!check_draw("XOXOXOOXX"));
}

#[test]
fn test_session_times_after_moves() {
    let mut app = TicTacToeApp::new();
    start_game(&mut app, "g1", "x_player", "o_player");
    let m1 = app.handle_outgoing("g1", CMD_MOVE, &move_payload(4), "x_player");
    assert_eq!(m1.session_id, "g1");
    let s = app.get_session("g1", "x_player").unwrap();
    assert_eq!(s.updated_at, s.last_action_at);
    assert!(s.last_action_at >= s.created_at);
    app.handle_incoming("g1", CMD_MOVE, &m1.payload, "x_player", "o_player");
    let s = app.get_session("g1", "o_player").unwrap();
    assert_eq!(s.updated_at, s.last_action_at);
}

#[test]
fn test_marker_for_move() {
    assert_eq!(marker_for_move(1), 'X');
    assert_eq!(marker_for_move(2), 'O');
    assert_eq!(marker_for_move(3), 'X');
}

#[test]
fn test_challenge_flow() {
    let mut app = TicTacToeApp::new();

    let out = app.handle_outgoing("s1", CMD_CHALLENGE, &StrMap::new(), "alice");
    assert_eq!(out.fallback_text, "[LRGP TTT] Sent a challenge!");

    let sess = app.get_session("s1", "alice").unwrap();
    assert_eq!(sess.status, STATUS_PENDING);
    assert_eq!(text(&sess.metadata, "my_marker"), "X");

    let result = app.handle_incoming("s1", CMD_CHALLENGE, &StrMap::new(), "alice", "bob");
    assert!(result.error.is_none());

    let sess = app.get_session("s1", "bob").unwrap();
    assert_eq!(sess.status, STATUS_PENDING);
    assert_eq!(text(&sess.metadata, "my_marker"), "O");
}

#[test]
fn test_accept_flow() {
    let mut app = TicTacToeApp::new();

    app.handle_outgoing("s1", CMD_CHALLENGE, &StrMap::new(), "alice");
    app.handle_incoming("s1", CMD_CHALLENGE, &StrMap::new(), "alice", "bob");

    let out = app.handle_outgoing("s1", CMD_ACCEPT, &StrMap::new(), "bob");
    assert_eq!(out.fallback_text, "[LRGP TTT] Challenge accepted");

    let sess = app.get_session("s1", "bob").unwrap();
    assert_eq!(sess.status, STATUS_ACTIVE);

    let result = app.handle_incoming("s1", CMD_ACCEPT, &out.payload, "bob", "alice");
    assert!(result.error.is_none());

    let sess = app.get_session("s1", "alice").unwrap();
    assert_eq!(sess.status, STATUS_ACTIVE);
}

#[test]
fn test_decline_flow() {
    let mut app = TicTacToeApp::new();

    app.handle_outgoing("s1", CMD_CHALLENGE, &StrMap::new(), "alice");
    app.handle_incoming("s1", CMD_CHALLENGE, &StrMap::new(), "alice", "bob");

    let out = app.handle_outgoing("s1", CMD_DECLINE, &StrMap::new(), "bob");
    assert_eq!(out.fallback_text, "[LRGP TTT] Challenge declined");

    let sess = app.get_session("s1", "bob").unwrap();
    assert_eq!(sess.status, STATUS_DECLINED);
}

#[test]
fn test_full_game_x_wins() {
    let mut app = TicTacToeApp::new();
    let x = "x_player";
    let o = "o_player";
    start_game(&mut app, "g1", x, o);

    let m1 = app.handle_outgoing("g1", CMD_MOVE, &move_payload(4), x);
    assert!(text(&m1.payload, "x").is_empty());
    app.handle_incoming("g1", CMD_MOVE, &m1.payload, x, o);

    let m2 = app.handle_outgoing("g1", CMD_MOVE, &move_payload(0), o);
    app.handle_incoming("g1", CMD_MOVE, &m2.payload, o, x);

    let m3 = app.handle_outgoing("g1", CMD_MOVE, &move_payload(2), x);
    app.handle_incoming("g1", CMD_MOVE, &m3.payload, x, o);

    let m4 = app.handle_outgoing("g1", CMD_MOVE, &move_payload(6), o);
    app.handle_incoming("g1", CMD_MOVE, &m4.payload, o, x);

    let m5 = app.handle_outgoing("g1", CMD_MOVE, &move_payload(5), x);
    app.handle_incoming("g1", CMD_MOVE, &m5.payload, x, o);

    let m6 = app.handle_outgoing("g1", CMD_MOVE, &move_payload(1), o);
    app.handle_incoming("g1", CMD_MOVE, &m6.payload, o, x);

    let m7 = app.handle_outgoing("g1", CMD_MOVE, &move_payload(3), x);
    assert_eq!(text(&m7.payload, "x"), "win");
    assert!(m7.fallback_text.contains("wins"));

    let sess = app.get_session("g1", x).unwrap();
    assert_eq!(sess.status, STATUS_COMPLETED);
}

#[test]
fn test_resign() {
    let mut app = TicTacToeApp::new();
    start_game(&mut app, "g1", "alice", "bob");

    let out = app.handle_outgoing("g1", CMD_RESIGN, &StrMap::new(), "alice");
    assert_eq!(out.fallback_text, "[LRGP TTT] Resigned.");

    let sess = app.get_session("g1", "alice").unwrap();
    assert_eq!(sess.status, STATUS_COMPLETED);
    assert_eq!(text(&sess.metadata, "terminal"), "resign");
    assert_eq!(text(&sess.metadata, "winner"), "bob");
}

#[test]
fn test_draw_negotiation() {
    let mut app = TicTacToeApp::new();

    app.handle_outgoing("g1", CMD_CHALLENGE, &StrMap::new(), "alice");
    app.handle_incoming("g1", CMD_CHALLENGE, &StrMap::new(), "alice", "bob");
    let accept = app.handle_outgoing("g1", CMD_ACCEPT, &StrMap::new(), "bob");
    app.handle_incoming("g1", CMD_ACCEPT, &accept.payload, "bob", "alice");

    let result = app.handle_incoming("g1", CMD_DRAW_OFFER, &StrMap::new(), "bob", "alice");
    assert!(result.error.is_none());
    let sess = app.get_session("g1", "alice").unwrap();
    assert_eq!(value_as_bool(sess.metadata.get("draw_offered").unwrap()), Some(true));

    let out = app.handle_outgoing("g1", CMD_DRAW_ACCEPT, &StrMap::new(), "alice");
    assert_eq!(out.fallback_text, "[LRGP TTT] Draw accepted");
    let sess = app.get_session("g1", "alice").unwrap();
    assert_eq!(sess.status, STATUS_COMPLETED);
    assert_eq!(text(&sess.metadata, "terminal"), "draw");
}

#[test]
fn test_render_fallback() {
    let app = TicTacToeApp::new();

    assert_eq!(app.render_fallback(CMD_CHALLENGE, &StrMap::new()), "[LRGP TTT] Sent a challenge!");
    assert_eq!(app.render_fallback(CMD_RESIGN, &StrMap::new()), "[LRGP TTT] Resigned.");

    let mut p = StrMap::new();
    p.insert("n".to_string(), MsgValue::PosInt(3));
    p.insert("x".to_string(), MsgValue::String(String::new()));
    assert_eq!(app.render_fallback(CMD_MOVE, &p), "[LRGP TTT] Move 3");

    let mut p = StrMap::new();
    p.insert("n".to_string(), MsgValue::PosInt(5));
    p.insert("x".to_string(), MsgValue::String("win".to_string()));
    assert_eq!(app.render_fallback(CMD_MOVE, &p), "[LRGP TTT] X wins!");
}

#[test]
fn test_validate_action_no_session() {
    let mut app = TicTacToeApp::new();
    let (valid, _) = app.validate_action("nope", CMD_CHALLENGE, &StrMap::new(), "x");
    assert!(valid);

    let (valid, msg) = app.validate_action("nope", CMD_MOVE, &StrMap::new(), "x");
    assert!(!valid);
    assert!(msg.unwrap().contains("not found"));
}

#[test]
fn test_render_fallback_other_commands() {
    let app = TicTacToeApp::new();
    assert_eq!(app.render_fallback(CMD_ACCEPT, &StrMap::new()), "[LRGP TTT] Challenge accepted");
    assert_eq!(app.render_fallback(CMD_DECLINE, &StrMap::new()), "[LRGP TTT] Challenge declined");
    assert_eq!(app.render_fallback(CMD_DRAW_OFFER, &StrMap::new()), "[LRGP TTT] Offered a draw");
    assert_eq!(app.render_fallback(CMD_DRAW_ACCEPT, &StrMap::new()), "[LRGP TTT] Draw accepted");
    assert_eq!(app.render_fallback(CMD_DRAW_DECLINE, &StrMap::new()), "[LRGP TTT] Draw declined");
    assert_eq!(app.render_fallback(CMD_MOVE, &StrMap::new()), "[LRGP TTT] Move ?");
    let mut p = StrMap::new();
    p.insert("x".to_string(), MsgValue::String("draw".to_string()));
    assert_eq!(app.render_fallback(CMD_MOVE, &p), "[LRGP TTT] Game drawn!");
    let mut p = StrMap::new();
    p.insert("msg".to_string(), MsgValue::String("boom".to_string()));
    assert_eq!(app.render_fallback(CMD_ERROR, &p), "[LRGP TTT] Error: boom");
    assert_eq!(app.render_fallback(CMD_ERROR, &StrMap::new()), "[LRGP TTT] Error: Unknown");
    assert_eq!(app.render_fallback("ping", &StrMap::new()), "[LRGP TTT] ping");
}

#[test]
fn test_delivery_methods() {
    let app = TicTacToeApp::new();
    assert_eq!(app.get_delivery_method(CMD_RESIGN), "direct");
    assert_eq!(app.get_delivery_method(CMD_DRAW_ACCEPT), "direct");
    assert_eq!(app.get_delivery_method(CMD_DRAW_DECLINE), "direct");
    assert_eq!(app.get_delivery_method(CMD_MOVE), "opportunistic");
    assert_eq!(app.get_delivery_method(CMD_CHALLENGE), "opportunistic");
}

#[test]
fn test_manifest_matches_delivery_methods() {
    let app = TicTacToeApp::new();
    let m = app.manifest();
    assert_eq!(m.app_id, "ttt");
    assert_eq!(m.version, 1);
    assert_eq!(m.display_name, "Tic-Tac-Toe");
    assert_eq!(m.actions.len(), 8);
    assert_eq!(m.preferred_delivery.len(), 8);
    for (command, delivery) in &m.preferred_delivery {
        assert_eq!(delivery, &app.get_delivery_method(command));
    }
    assert_eq!(m.ttl.pending, Some(86_400_000));
    assert_eq!(m.ttl.active, Some(86_400_000));
    assert_eq!(m.genre, Some("strategy".to_string()));
    assert!(m.turn_timeout.is_none());
    assert_eq!(app.app_id(), "ttt");
    assert_eq!(app.version(), 1);
}

#[test]
fn test_unknown_and_error_commands() {
    let mut app = TicTacToeApp::new();
    let r = app.handle_incoming("s1", "ping", &StrMap::new(), "alice", "bob");
    let err = r.error.unwrap();
    assert_eq!(text(&err, "code"), "protocol_error");
    assert_eq!(text(&err, "msg"), "Unknown command: ping");
    assert!(r.session.is_none() && r.emit.is_none());

    let mut p = StrMap::new();
    p.insert("code".to_string(), MsgValue::String("invalid_move".to_string()));
    p.insert("msg".to_string(), MsgValue::String("bad".to_string()));
    let r = app.handle_incoming("s1", CMD_ERROR, &p, "alice", "bob");
    let err = r.error.unwrap();
    assert_eq!(text(&err, "code"), "invalid_move");
    assert_eq!(text(&err, "msg"), "bad");

    let mut p = StrMap::new();
    p.insert("k".to_string(), MsgValue::PosInt(7));
    let out = app.handle_outgoing("s1", "ping", &p, "alice");
    assert_eq!(out.fallback_text, "[LRGP TTT] ping");
    assert_eq!(value_as_u64(out.payload.get("k").unwrap()), Some(7));
    let out = app.handle_outgoing("s1", CMD_DRAW_OFFER, &p, "alice");
    assert_eq!(out.fallback_text, "[LRGP TTT] Offered a draw");
    assert_eq!(out.payload.len(), 0);
    let out = app.handle_outgoing("s1", CMD_DRAW_DECLINE, &p, "alice");
    assert_eq!(out.fallback_text, "[LRGP TTT] Declined draw offer");
}

#[test]
fn test_incoming_on_unknown_session() {
    let mut app = TicTacToeApp::new();
    let r = app.handle_incoming("zz", CMD_RESIGN, &StrMap::new(), "alice", "bob");
    let err = r.error.unwrap();
    assert_eq!(text(&err, "code"), "protocol_error");
    assert_eq!(text(&err, "msg"), "Unknown session");
}

#[test]
fn test_illegal_command_on_declined_session() {
    let mut app = TicTacToeApp::new();
    app.handle_outgoing("s1", CMD_CHALLENGE, &StrMap::new(), "alice");
    app.handle_incoming("s1", CMD_CHALLENGE, &StrMap::new(), "alice", "bob");
    app.handle_outgoing("s1", CMD_DECLINE, &StrMap::new(), "bob");
    let r = app.handle_incoming("s1", CMD_ACCEPT, &StrMap::new(), "alice", "bob");
    let err = r.error.unwrap();
    assert_eq!(text(&err, "code"), "protocol_error");
    assert_eq!(
        text(&err, "msg"),
        "illegal transition: cannot apply 'accept' to session in 'declined' state"
    );
}

#[test]
fn test_move_out_of_turn_is_refused() {
    let mut app = TicTacToeApp::new();
    start_game(&mut app, "g1", "x_player", "o_player");
    let m1 = app.handle_outgoing("g1", CMD_MOVE, &move_payload(4), "x_player");
    // o_player receives the move as if it came from o_player itself.
    let r = app.handle_incoming("g1", CMD_MOVE, &m1.payload, "o_player", "o_player");
    let err = r.error.unwrap();
    assert_eq!(text(&err, "code"), "not_your_turn");
    assert_eq!(text(&err, "msg"), "Not your turn");
    assert_eq!(text(&err, "ref"), "move");
    // A move by the right player with a wrong move number is an invalid move.
    let mut bad = m1.payload.duplicate();
    bad.insert("n".to_string(), MsgValue::PosInt(2));
    let r = app.handle_incoming("g1", CMD_MOVE, &bad, "x_player", "o_player");
    assert_eq!(text(&r.error.unwrap(), "code"), "invalid_move");
    // The real opponent's copy accepts it.
    let r = app.handle_incoming("g1", CMD_MOVE, &m1.payload, "x_player", "o_player");
    assert!(r.error.is_none());
    let sess = app.get_session("g1", "o_player").unwrap();
    assert_eq!(text(&sess.metadata, "board"), "____X____");
    assert_eq!(text(&sess.metadata, "turn"), "o_player");
    // Replaying the same move is refused: it is now o_player's turn.
    let r = app.handle_incoming("g1", CMD_MOVE, &m1.payload, "x_player", "o_player");
    let err = r.error.unwrap();
    assert_eq!(text(&err, "code"), "not_your_turn");
}

#[test]
fn test_validate_move_on_stored_session() {
    let mut app = TicTacToeApp::new();
    start_game(&mut app, "g1", "x_player", "o_player");
    let m1 = app.handle_outgoing("g1", CMD_MOVE, &move_payload(4), "x_player");
    let sess = app.get_session("g1", "o_player").unwrap();
    assert_eq!(app.validate_move(&sess, &m1.payload, "x_player"), (true, None));
    let (ok, msg) = app.validate_move(&sess, &m1.payload, "o_player");
    assert!(!ok);
    assert_eq!(msg.unwrap(), "Not your turn");
    let mut bad = m1.payload.duplicate();
    bad.insert("n".to_string(), MsgValue::PosInt(2));
    let (ok, msg) = app.validate_move(&sess, &bad, "x_player");
    assert!(!ok);
    assert_eq!(msg.unwrap(), "Board mismatch: expected ____O____, got ____X____");
    let mut bad = m1.payload.duplicate();
    bad.insert("i".to_string(), MsgValue::PosInt(9));
    let (ok, msg) = app.validate_move(&sess, &bad, "x_player");
    assert!(!ok);
    assert_eq!(msg.unwrap(), "Invalid cell index");
}

#[test]
fn test_session_state() {
    let mut app = TicTacToeApp::new();
    assert!(app.get_session_state("s1", "alice").is_none());
    app.handle_outgoing("s1", CMD_CHALLENGE, &StrMap::new(), "alice");
    let s = app.get_session_state("s1", "alice").unwrap();
    assert_eq!(s.session_id, "s1");
    assert_eq!(s.initiator, "alice");
    assert_eq!(text(&s.metadata, "board"), "_________");
    assert_eq!(text(&s.metadata, "first_turn"), "alice");
}

#[test]
fn test_generated_session_id() {
    let a = gen_session_id();
    assert_eq!(a.len(), 16);
    assert!(a.chars().all(|c| c.is_ascii_hexdigit() && !c.is_ascii_uppercase()));
    let mut app = TicTacToeApp::new();
    let out = app.handle_outgoing("", CMD_CHALLENGE, &StrMap::new(), "alice");
    assert_eq!(out.fallback_text, "[LRGP TTT] Sent a challenge!");
    assert_eq!(out.session_id.len(), 16);
    assert!(app.get_session(&out.session_id, "alice").is_some());
}

#[test]
fn test_short_board_accept_is_stored() {
    let mut app = TicTacToeApp::new();
    app.handle_outgoing("g1", CMD_CHALLENGE, &StrMap::new(), "x_player");
    let mut accept = StrMap::new();
    accept.insert("b".to_string(), MsgValue::String("___".to_string()));
    accept.insert("t".to_string(), MsgValue::String("o_player".to_string()));
    let r = app.handle_incoming("g1", CMD_ACCEPT, &accept, "o_player", "x_player");
    assert!(r.error.is_none());
    let sess = app.get_session("g1", "x_player").unwrap();
    assert_eq!(sess.status, STATUS_ACTIVE);
    assert_eq!(text(&sess.metadata, "board"), "___");
    assert_eq!(text(&sess.metadata, "turn"), "o_player");
}

#[test]
fn test_validate_move_short_board() {
    let mut app = TicTacToeApp::new();
    app.handle_outgoing("g1", CMD_CHALLENGE, &StrMap::new(), "x_player");
    let mut accept = StrMap::new();
    accept.insert("b".to_string(), MsgValue::String("___".to_string()));
    app.handle_incoming("g1", CMD_ACCEPT, &accept, "o_player", "x_player");
    let sess = app.get_session("g1", "x_player").unwrap();
    // A cell past the end of the stored board counts as occupied.
    let p = move_payload(5);
    assert!(TicTacToeApp::move_is_safe(&sess, &p, "x_player"));
    assert_eq!(TicTacToeApp::move_precheck(&sess, &p, "x_player"), Some("Cell 5 is already occupied".to_string()));
    assert_eq!(app.validate_move(&sess, &p, "x_player"), (false, Some("Cell 5 is already occupied".to_string())));
    // Inside the short board the board check refuses a wrong board.
    let mut p = move_payload(1);
    p.insert("n".to_string(), MsgValue::PosInt(1));
    p.insert("b".to_string(), MsgValue::String("_X_______".to_string()));
    assert!(TicTacToeApp::move_is_safe(&sess, &p, "x_player"));
    let (ok, msg) = app.validate_move(&sess, &p, "x_player");
    assert!(!ok);
    assert_eq!(msg.unwrap(), "Board mismatch: expected _X_, got _X_______");
    // A move that passes every check on a short board cannot be judged.
    let mut p = move_payload(1);
    p.insert("n".to_string(), MsgValue::PosInt(1));
    p.insert("b".to_string(), MsgValue::String("_X_".to_string()));
    assert_eq!(TicTacToeApp::move_precheck(&sess, &p, "x_player"), None);
    assert!(!TicTacToeApp::move_is_safe(&sess, &p, "x_player"));
    assert!(!app.can_handle_incoming("g1", CMD_MOVE, &p, "x_player", "x_player"));
}
