use vstd::prelude::*;

use rand::RngCore;

use crate::app_base::{emit_event, is_event, Event, GameApp, GameManifest, IncomingResult, OutgoingResult};
use crate::constants::{
    lemma_commands_distinct, CMD_ACCEPT, CMD_CHALLENGE, CMD_DECLINE, CMD_DRAW_ACCEPT, CMD_DRAW_DECLINE, CMD_DRAW_OFFER,
    CMD_ERROR, CMD_MOVE, CMD_RESIGN, ERR_INVALID_MOVE, ERR_NOT_YOUR_TURN, ERR_PROTOCOL_ERROR, KEY_ERR_CODE,
    KEY_ERR_MSG, KEY_ERR_REF, SESSION_TURN_BASED, STATUS_ACTIVE, STATUS_EXPIRED, STATUS_PENDING, VALIDATION_BOTH,
};
use crate::session::{now_millis, is_expired_at, SessionTtl, Session, SessionStateMachine, SessionTable, next_status, status_after};
use crate::text::{hex_encode, hex_text, char_vec, concat, decimal, hex_digit, str_eq, string_from_chars, u64_to_decimal};
use crate::value::{model_of_i64, model_as_bool, value_as_bool, model_as_i64, model_as_str, model_as_u64, value_as_i64, value_as_str, value_as_u64, MsgValue, StrMap, ValueModel};

verus! {

/// The empty board.
pub const EMPTY_BOARD: &'static str = "_________";

/// The eight lines of the board: rows, columns, diagonals.
pub open spec fn win_line(k: int) -> (int, int, int) {
    if k == 0 {
        (0, 1, 2)
    } else if k == 1 {
        (3, 4, 5)
    } else if k == 2 {
        (6, 7, 8)
    } else if k == 3 {
        (0, 3, 6)
    } else if k == 4 {
        (1, 4, 7)
    } else if k == 5 {
        (2, 5, 8)
    } else if k == 6 {
        (0, 4, 8)
    } else {
        (2, 4, 6)
    }
}

/// Line `k` holds three equal marks that are not blank.
pub open spec fn line_won(b: Seq<char>, k: int) -> bool {
    let (x, y, z) = win_line(k);
    b[x] != '_' && b[x] == b[y] && b[y] == b[z]
}

/// The mark of the first won line from line `k` on, in line order.
pub open spec fn winner_from(b: Seq<char>, k: int) -> Option<char>
    decreases 8 - k,
{
    if k >= 8 || k < 0 {
        None
    } else if line_won(b, k) {
        Some(b[win_line(k).0])
    } else {
        winner_from(b, k + 1)
    }
}

/// The winner of a board: the mark of the first won line, if any.
pub open spec fn spec_check_winner(b: Seq<char>) -> Option<char> {
    winner_from(b, 0)
}

/// A full board without a winner.
pub open spec fn spec_check_draw(b: Seq<char>) -> bool {
    !b.contains('_') && spec_check_winner(b) is None
}

/// The mark of move number `n`: X on odd moves, O on even ones.
pub open spec fn spec_marker_for_move(n: u64) -> char {
    if n % 2 == 1 {
        'X'
    } else {
        'O'
    }
}

/// A board has a winner exactly when one of its eight lines holds three
/// equal marks that are not blank, and the winner is the mark of such a line.
pub proof fn law_winner_is_a_won_line(b: Seq<char>)
    requires
        b.len() >= 9,
    ensures
        spec_check_winner(b) is Some <==> exists|k: int| 0 <= k < 8 && #[trigger] line_won(b, k),
        spec_check_winner(b) matches Some(c) ==> exists|k: int|
            0 <= k < 8 && #[trigger] line_won(b, k) && b[win_line(k).0] == c && c != '_',
{
    lemma_winner_from(b, 0);
}

/// `winner_from(b, k)` is the mark of the first won line from `k` on.
proof fn lemma_winner_from(b: Seq<char>, k: int)
    requires
        0 <= k <= 8,
    ensures
        winner_from(b, k) is Some <==> exists|j: int| k <= j < 8 && #[trigger] line_won(b, j),
        winner_from(b, k) matches Some(c) ==> exists|j: int|
            k <= j < 8 && #[trigger] line_won(b, j) && b[win_line(j).0] == c && c != '_',
    decreases 8 - k,
{
    if k < 8 {
        lemma_winner_from(b, k + 1);
        if line_won(b, k) {
        }
    }
}

/// A drawn board is full and no line of it is won.
pub proof fn law_draw_is_full_without_line(b: Seq<char>)
    requires
        b.len() >= 9,
        spec_check_draw(b),
    ensures
        forall|i: int| 0 <= i < b.len() ==> b[i] != '_',
        forall|k: int| 0 <= k < 8 ==> !#[trigger] line_won(b, k),
{
    law_winner_is_a_won_line(b);
    assert forall|i: int| 0 <= i < b.len() implies b[i] != '_' by {
        if b[i] == '_' {
        }
    }
}

/// The winner of a board of at least nine cells.
pub fn check_winner(board: &str) -> (r: Option<char>)
    requires
        board@.len() >= 9,
    ensures
        r == spec_check_winner(board@),
{
    let b = char_vec(board);
    let lines: [(usize, usize, usize); 8] = [
        (0, 1, 2),
        (3, 4, 5),
        (6, 7, 8),
        (0, 3, 6),
        (1, 4, 7),
        (2, 5, 8),
        (0, 4, 8),
        (2, 4, 6),
    ];
    let mut k: usize = 0;
    while k < 8
        invariant
            k <= 8,
            b@ == board@,
            b@.len() >= 9,
            lines@ == seq![(0usize, 1usize, 2usize), (3, 4, 5), (6, 7, 8), (0, 3, 6), (1, 4, 7), (2, 5, 8), (0, 4, 8), (2, 4, 6)],
            winner_from(b@, 0) == winner_from(b@, k as int),
        decreases 8 - k,
    {
        let (x, y, z) = lines[k];
        if b[x] != '_' && b[x] == b[y] && b[y] == b[z] {
            return Some(b[x]);
        }
        k = k + 1;
    }
    None
}

/// A full board without a winner (a board with a blank is no draw,
/// whatever its length).
pub fn check_draw(board: &str) -> (r: bool)
    requires
        board@.contains('_') || board@.len() >= 9,
    ensures
        r == spec_check_draw(board@),
{
    let b = char_vec(board);
    let mut i: usize = 0;
    while i < b.len()
        invariant
            i <= b@.len(),
            b@ == board@,
            forall|j: int| 0 <= j < i ==> b@[j] != '_',
        decreases b.len() - i,
    {
        if b[i] == '_' {
            return false;
        }
        i = i + 1;
    }
    check_winner(board).is_none()
}

/// The mark of move number `move_num`.
pub fn marker_for_move(move_num: u64) -> (r: char)
    ensures
        r == spec_marker_for_move(move_num),
{
    if move_num % 2 == 1 {
        'X'
    } else {
        'O'
    }
}

/// Metadata keys of a game session.
pub const META_BOARD: &'static str = "board";

pub const META_TURN: &'static str = "turn";

pub const META_FIRST_TURN: &'static str = "first_turn";

pub const META_MY_MARKER: &'static str = "my_marker";

pub const META_MOVE_COUNT: &'static str = "move_count";

pub const META_WINNER: &'static str = "winner";

pub const META_TERMINAL: &'static str = "terminal";

pub const META_DRAW_OFFERED: &'static str = "draw_offered";

/// Payload keys of the game's actions.
pub const PAYLOAD_INDEX: &'static str = "i";

pub const PAYLOAD_BOARD: &'static str = "b";

pub const PAYLOAD_MOVE_NUM: &'static str = "n";

pub const PAYLOAD_TURN: &'static str = "t";

pub const PAYLOAD_TERMINAL: &'static str = "x";

pub const PAYLOAD_WINNER: &'static str = "w";

/// The game's id.
pub const APP_ID: &'static str = "ttt";

/// The metadata keys and the payload keys are different words.
pub proof fn lemma_keys_distinct()
    ensures
        META_BOARD@.len() == 5,
        META_TURN@.len() == 4,
        META_FIRST_TURN@.len() == 10,
        META_MY_MARKER@.len() == 9,
        META_MOVE_COUNT@.len() == 10,
        META_WINNER@.len() == 6,
        META_TERMINAL@.len() == 8,
        META_DRAW_OFFERED@.len() == 12,
        META_FIRST_TURN@ != META_MOVE_COUNT@,
        PAYLOAD_INDEX@ == seq!['i'],
        PAYLOAD_BOARD@ == seq!['b'],
        PAYLOAD_MOVE_NUM@ == seq!['n'],
        PAYLOAD_TURN@ == seq!['t'],
        PAYLOAD_TERMINAL@ == seq!['x'],
        PAYLOAD_WINNER@ == seq!['w'],
        KEY_ERR_CODE@.len() == 4,
        KEY_ERR_MSG@.len() == 3,
        KEY_ERR_REF@.len() == 3,
        KEY_ERR_MSG@ != KEY_ERR_REF@,
{
    reveal_strlit("board");
    reveal_strlit("turn");
    reveal_strlit("first_turn");
    reveal_strlit("my_marker");
    reveal_strlit("move_count");
    reveal_strlit("winner");
    reveal_strlit("terminal");
    reveal_strlit("draw_offered");
    reveal_strlit("i");
    reveal_strlit("b");
    reveal_strlit("n");
    reveal_strlit("t");
    reveal_strlit("x");
    reveal_strlit("w");
    reveal_strlit("code");
    reveal_strlit("msg");
    reveal_strlit("ref");
    assert(META_FIRST_TURN@[0] != META_MOVE_COUNT@[0]);
    assert(KEY_ERR_MSG@[0] != KEY_ERR_REF@[0]);
}

/// The text under `key`, or the empty text where there is no string there.
pub open spec fn text_at(m: Map<Seq<char>, ValueModel>, key: Seq<char>) -> Seq<char> {
    if m.contains_key(key) && m[key] is Str {
        m[key]->Str_0
    } else {
        Seq::empty()
    }
}

/// The text under `key` if there is a string there.
pub open spec fn opt_text_at(m: Map<Seq<char>, ValueModel>, key: Seq<char>) -> Option<Seq<char>> {
    if m.contains_key(key) {
        model_as_str(m[key])
    } else {
        None
    }
}

/// The number under `key` as a signed integer, or 0.
pub open spec fn int_at(m: Map<Seq<char>, ValueModel>, key: Seq<char>) -> i64 {
    if m.contains_key(key) && model_as_i64(m[key]) is Some {
        model_as_i64(m[key]).unwrap()
    } else {
        0
    }
}

/// The number under `key` as an unsigned integer, if it is one.
pub open spec fn opt_u64_at(m: Map<Seq<char>, ValueModel>, key: Seq<char>) -> Option<u64> {
    if m.contains_key(key) {
        model_as_u64(m[key])
    } else {
        None
    }
}

/// Helper to get a string from metadata (empty where absent).
pub fn meta_str(meta: &StrMap, key: &str) -> (r: String)
    ensures
        r@ == text_at(meta@, key@),
{
    match meta.get(key) {
        Some(v) => match value_as_str(v) {
            Some(s) => s.to_owned(),
            None => String::new(),
        },
        None => String::new(),
    }
}

/// Helper to get a string from a map, if there is one.
pub fn opt_str<'a>(meta: &'a StrMap, key: &str) -> (r: Option<&'a str>)
    ensures
        r is Some <==> opt_text_at(meta@, key@) is Some,
        r matches Some(s) ==> s@ == opt_text_at(meta@, key@).unwrap(),
{
    match meta.get(key) {
        Some(v) => value_as_str(v),
        None => None,
    }
}

/// The string under `key`, or the empty string.
pub fn text_or_empty<'a>(m: &'a StrMap, key: &str) -> (r: &'a str)
    ensures
        r@ == text_at(m@, key@),
{
    proof {
        reveal_strlit("");
    }
    match opt_str(m, key) {
        Some(t) => t,
        None => "",
    }
}

/// Helper to get a signed integer from metadata (0 where absent).
pub fn meta_i64(meta: &StrMap, key: &str) -> (r: i64)
    ensures
        r == int_at(meta@, key@),
{
    match meta.get(key) {
        Some(v) => match value_as_i64(v) {
            Some(n) => n,
            None => 0,
        },
        None => 0,
    }
}

/// Helper to get a boolean from metadata (false where absent).
pub fn meta_bool(meta: &StrMap, key: &str) -> (r: bool)
    ensures
        r == (meta@.contains_key(key@) && model_as_bool(meta@[key@]) == Some(true)),
{
    match meta.get(key) {
        Some(v) => match value_as_bool(v) {
            Some(b) => b,
            None => false,
        },
        None => false,
    }
}

/// Helper to get an unsigned integer from a map, if there is one.
pub fn opt_u64(meta: &StrMap, key: &str) -> (r: Option<u64>)
    ensures
        r == opt_u64_at(meta@, key@),
{
    match meta.get(key) {
        Some(v) => value_as_u64(v),
        None => None,
    }
}

/// The metadata of a fresh session.
pub open spec fn default_meta(my_marker: Seq<char>, first_turn: Seq<char>) -> Map<Seq<char>, ValueModel> {
    Map::empty().insert(META_BOARD@, ValueModel::Str(EMPTY_BOARD@)).insert(
        META_TURN@,
        ValueModel::Str(Seq::empty()),
    ).insert(META_FIRST_TURN@, ValueModel::Str(first_turn)).insert(
        META_MY_MARKER@,
        ValueModel::Str(my_marker),
    ).insert(META_MOVE_COUNT@, ValueModel::PosInt(0)).insert(
        META_WINNER@,
        ValueModel::Str(Seq::empty()),
    ).insert(META_TERMINAL@, ValueModel::Str(Seq::empty())).insert(
        META_DRAW_OFFERED@,
        ValueModel::Boolean(false),
    )
}

/// The empty board has nine cells.
pub proof fn lemma_empty_board()
    ensures
        EMPTY_BOARD@.len() == 9,
        forall|i: int| 0 <= i < 9 ==> EMPTY_BOARD@[i] == '_',
{
    reveal_strlit("_________");
}

/// The metadata of a fresh session.
pub fn default_metadata(my_marker: &str, first_turn: &str) -> (r: StrMap)
    ensures
        r@ == default_meta(my_marker@, first_turn@),
{
    let mut m = StrMap::new();
    m.insert(META_BOARD.to_owned(), MsgValue::from_str(EMPTY_BOARD));
    m.insert(META_TURN.to_owned(), MsgValue::String(String::new()));
    m.insert(META_FIRST_TURN.to_owned(), MsgValue::from_str(first_turn));
    m.insert(META_MY_MARKER.to_owned(), MsgValue::from_str(my_marker));
    m.insert(META_MOVE_COUNT.to_owned(), MsgValue::PosInt(0));
    m.insert(META_WINNER.to_owned(), MsgValue::String(String::new()));
    m.insert(META_TERMINAL.to_owned(), MsgValue::String(String::new()));
    m.insert(META_DRAW_OFFERED.to_owned(), MsgValue::Boolean(false));
    m
}

/// The metadata holds a board of at least nine cells.
pub open spec fn board_ok(meta: Map<Seq<char>, ValueModel>) -> bool {
    meta.contains_key(META_BOARD@) && (meta[META_BOARD@] matches ValueModel::Str(b) && b.len()
        >= 9)
}

/// The error map of an error result.
pub open spec fn error_map(code: Seq<char>, msg: Seq<char>) -> Map<Seq<char>, ValueModel> {
    Map::empty().insert(KEY_ERR_CODE@, ValueModel::Str(code)).insert(
        KEY_ERR_MSG@,
        ValueModel::Str(msg),
    )
}

/// A result that carries only an error with this code and message.
pub open spec fn is_error_result(r: IncomingResult, code: Seq<char>, msg: Seq<char>) -> bool {
    &&& r.session is None
    &&& r.emit is None
    &&& r.error matches Some(e) && e@ == error_map(code, msg)
}

/// A result that carries only an error with this code and message.
pub fn error_result(code: &str, msg: &str) -> (r: IncomingResult)
    ensures
        is_error_result(r, code@, msg@),
{
    let mut err = StrMap::new();
    err.insert(KEY_ERR_CODE.to_owned(), MsgValue::from_str(code));
    err.insert(KEY_ERR_MSG.to_owned(), MsgValue::from_str(msg));
    IncomingResult { session: None, emit: None, error: Some(err) }
}

/// The fallback text of an action.
pub open spec fn fallback_text(command: Seq<char>, payload: Map<Seq<char>, ValueModel>) -> Seq<char> {
    if command == CMD_CHALLENGE@ {
        "[LRGP TTT] Sent a challenge!"@
    } else if command == CMD_ACCEPT@ {
        "[LRGP TTT] Challenge accepted"@
    } else if command == CMD_DECLINE@ {
        "[LRGP TTT] Challenge declined"@
    } else if command == CMD_MOVE@ {
        let terminal = text_at(payload, PAYLOAD_TERMINAL@);
        let n = opt_u64_at(payload, PAYLOAD_MOVE_NUM@);
        if terminal == "win"@ {
            if spec_marker_for_move(if n is Some { n.unwrap() } else { 0 }) == 'X' {
                "[LRGP TTT] X wins!"@
            } else {
                "[LRGP TTT] O wins!"@
            }
        } else if terminal == "draw"@ {
            "[LRGP TTT] Game drawn!"@
        } else {
            match n {
                Some(k) => "[LRGP TTT] Move "@ + decimal(k as nat),
                None => "[LRGP TTT] Move ?"@,
            }
        }
    } else if command == CMD_RESIGN@ {
        "[LRGP TTT] Resigned."@
    } else if command == CMD_DRAW_OFFER@ {
        "[LRGP TTT] Offered a draw"@
    } else if command == CMD_DRAW_ACCEPT@ {
        "[LRGP TTT] Draw accepted"@
    } else if command == CMD_DRAW_DECLINE@ {
        "[LRGP TTT] Draw declined"@
    } else if command == CMD_ERROR@ {
        "[LRGP TTT] Error: "@ + match opt_text_at(payload, KEY_ERR_MSG@) {
            Some(m) => m,
            None => "Unknown"@,
        }
    } else {
        "[LRGP TTT] "@ + command
    }
}

/// The fallback text of a winning move names the mark of the move that won:
/// X on an odd move number, O on an even one (a missing number counts as
/// move 0).
pub proof fn law_win_fallback_names_winning_mark(payload: Map<Seq<char>, ValueModel>)
    requires
        text_at(payload, PAYLOAD_TERMINAL@) == "win"@,
    ensures
        ({
            let n: u64 = match opt_u64_at(payload, PAYLOAD_MOVE_NUM@) {
                Some(k) => k,
                None => 0,
            };
            let mark = if n % 2 == 1 {
                'X'
            } else {
                'O'
            };
            fallback_text(CMD_MOVE@, payload) == "[LRGP TTT] "@ + seq![mark] + " wins!"@
        }),
{
    lemma_commands_distinct();
    reveal_strlit("[LRGP TTT] ");
    reveal_strlit(" wins!");
    reveal_strlit("[LRGP TTT] X wins!");
    reveal_strlit("[LRGP TTT] O wins!");
    let n: u64 = match opt_u64_at(payload, PAYLOAD_MOVE_NUM@) {
        Some(k) => k,
        None => 0,
    };
    if n % 2 == 1 {
        assert("[LRGP TTT] X wins!"@ =~= "[LRGP TTT] "@ + seq!['X'] + " wins!"@);
    } else {
        assert("[LRGP TTT] O wins!"@ =~= "[LRGP TTT] "@ + seq!['O'] + " wins!"@);
    }
}

/// The fallback text of an action, for clients without LRGP.
pub fn render_fallback_text(command: &str, payload: &StrMap) -> (r: String)
    ensures
        r@ == fallback_text(command@, payload@),
{
    if str_eq(command, CMD_CHALLENGE) {
        "[LRGP TTT] Sent a challenge!".to_owned()
    } else if str_eq(command, CMD_ACCEPT) {
        "[LRGP TTT] Challenge accepted".to_owned()
    } else if str_eq(command, CMD_DECLINE) {
        "[LRGP TTT] Challenge declined".to_owned()
    } else if str_eq(command, CMD_MOVE) {
        let terminal = text_or_empty(payload, PAYLOAD_TERMINAL);
        proof {
            reveal_strlit("");
        }
        if str_eq(terminal, "win") {
            let n = match opt_u64(payload, PAYLOAD_MOVE_NUM) {
                Some(n) => n,
                None => 0,
            };
            if marker_for_move(n) == 'X' {
                "[LRGP TTT] X wins!".to_owned()
            } else {
                "[LRGP TTT] O wins!".to_owned()
            }
        } else if str_eq(terminal, "draw") {
            "[LRGP TTT] Game drawn!".to_owned()
        } else {
            match opt_u64(payload, PAYLOAD_MOVE_NUM) {
                Some(n) => concat("[LRGP TTT] Move ", u64_to_decimal(n).as_str()),
                None => "[LRGP TTT] Move ?".to_owned(),
            }
        }
    } else if str_eq(command, CMD_RESIGN) {
        "[LRGP TTT] Resigned.".to_owned()
    } else if str_eq(command, CMD_DRAW_OFFER) {
        "[LRGP TTT] Offered a draw".to_owned()
    } else if str_eq(command, CMD_DRAW_ACCEPT) {
        "[LRGP TTT] Draw accepted".to_owned()
    } else if str_eq(command, CMD_DRAW_DECLINE) {
        "[LRGP TTT] Draw declined".to_owned()
    } else if str_eq(command, CMD_ERROR) {
        let msg = match opt_str(payload, KEY_ERR_MSG) {
            Some(m) => m,
            None => "Unknown",
        };
        let r = concat("[LRGP TTT] Error: ", msg);
        r
    } else {
        concat("[LRGP TTT] ", command)
    }
}

/// Why the checks before the result check refuse a move (session, turn,
/// cell index, empty cell, board, move number), or `None` if it passes them.
pub open spec fn pre_refusal(
    status: Seq<char>,
    meta: Map<Seq<char>, ValueModel>,
    payload: Map<Seq<char>, ValueModel>,
    sender: Seq<char>,
) -> Option<Seq<char>> {
    let turn = text_at(meta, META_TURN@);
    let oi = opt_u64_at(payload, PAYLOAD_INDEX@);
    if status != STATUS_ACTIVE@ {
        Some("Session is not active (status="@ + status + ")"@)
    } else if turn.len() > 0 && turn != sender {
        Some("Not your turn"@)
    } else if !(oi is Some && oi.unwrap() <= 8) {
        Some("Invalid cell index"@)
    } else {
        let index = oi.unwrap() as int;
        let board_str = text_at(payload, PAYLOAD_BOARD@);
        let move_num: u64 = match opt_u64_at(payload, PAYLOAD_MOVE_NUM@) {
            Some(n) => n,
            None => 0,
        };
        let old_board = text_at(meta, META_BOARD@);
        if index >= old_board.len() || old_board[index] != '_' {
            Some("Cell "@ + decimal(index as nat) + " is already occupied"@)
        } else {
            let expected = old_board.update(index, spec_marker_for_move(move_num));
            let expected_num = ((int_at(meta, META_MOVE_COUNT@) + 1) as i64) as u64;
            if board_str != expected {
                Some("Board mismatch: expected "@ + expected + ", got "@ + board_str)
            } else if move_num != expected_num {
                Some(
                    "Move number mismatch: expected "@ + decimal(expected_num as nat) + ", got "@
                        + decimal(move_num as nat),
                )
            } else {
                None
            }
        }
    }
}

/// Why the result that a move claims is refused: its result field must
/// match the win or draw on its board, and its next turn must fit.
pub open spec fn result_refusal(payload: Map<Seq<char>, ValueModel>, sender: Seq<char>) -> Option<
    Seq<char>,
> {
    let board_str = text_at(payload, PAYLOAD_BOARD@);
    let terminal = text_at(payload, PAYLOAD_TERMINAL@);
    let winner = spec_check_winner(board_str);
    let is_draw = spec_check_draw(board_str);
    let next_turn = text_at(payload, PAYLOAD_TURN@);
    if winner is Some && terminal != "win"@ {
        Some("Board shows a win but terminal='"@ + terminal + "'"@)
    } else if is_draw && terminal != "draw"@ {
        Some("Board is full (draw) but terminal='"@ + terminal + "'"@)
    } else if winner is None && !is_draw && terminal.len() > 0 {
        Some("No win/draw but terminal='"@ + terminal + "'"@)
    } else if terminal.len() > 0 {
        if next_turn.len() > 0 {
            Some("Turn should be empty on terminal move"@)
        } else {
            None
        }
    } else if next_turn == sender {
        Some("Turn cannot be the sender after their own move"@)
    } else {
        None
    }
}

/// Why a move is refused, or `None` if `validate_move` accepts it.
pub open spec fn move_refusal(
    status: Seq<char>,
    meta: Map<Seq<char>, ValueModel>,
    payload: Map<Seq<char>, ValueModel>,
    sender: Seq<char>,
) -> Option<Seq<char>> {
    match pre_refusal(status, meta, payload, sender) {
        Some(m) => Some(m),
        None => result_refusal(payload, sender),
    }
}

/// A move that reaches the result check has a board of at least nine
/// cells (the win check reads all nine).
pub open spec fn move_safe(
    status: Seq<char>,
    meta: Map<Seq<char>, ValueModel>,
    payload: Map<Seq<char>, ValueModel>,
    sender: Seq<char>,
) -> bool {
    pre_refusal(status, meta, payload, sender) is None ==> text_at(meta, META_BOARD@).len() >= 9
}

/// The move count of the metadata leaves room for one more move.
pub open spec fn move_count_ok(meta: Map<Seq<char>, ValueModel>) -> bool {
    int_at(meta, META_MOVE_COUNT@) < i64::MAX
}

/// `text` with `c` in place of its `i`-th character.
pub fn replace_char(text: &str, i: usize, c: char) -> (r: String)
    requires
        i < text@.len(),
    ensures
        r@ == text@.update(i as int, c),
{
    let mut chars = char_vec(text);
    chars.set(i, c);
    string_from_chars(&chars)
}

/// The Tic-Tac-Toe LRGP game.
pub struct TicTacToeApp {
    sessions: SessionTable,
}

impl TicTacToeApp {
    /// The sessions the game keeps, by session id and local identity.
    pub closed spec fn table(&self) -> Map<(Seq<char>, Seq<char>), Session> {
        self.sessions.table()
    }

    /// A game with no sessions.
    pub fn new() -> (r: TicTacToeApp)
        ensures
            r.table() == Map::<(Seq<char>, Seq<char>), Session>::empty(),
    {
        TicTacToeApp { sessions: SessionTable::new() }
    }

    /// A copy of the stored session with this key, if there is one.
    pub fn get_session(&self, session_id: &str, identity_id: &str) -> (r: Option<Session>)
        ensures
            r is Some <==> self.table().contains_key((session_id@, identity_id@)),
            r matches Some(s) ==> s.same_as(self.table()[(session_id@, identity_id@)]),
            r matches Some(s) ==> s.session_id@ == session_id@ && s.identity_id@ == identity_id@,
    {
        self.sessions.get(session_id, identity_id)
    }

    /// Store a session under its key.
    pub fn save_session(&mut self, session: Session)
        ensures
            final(self).table() == old(self).table().insert(
                crate::session::session_key(session),
                session,
            ),
    {
        self.sessions.save(session);
    }

    /// The checks of a move before its result is checked: the session is
    /// active, it is the sender's turn, the cell is on the board and empty,
    /// and the board and move number follow from the stored ones. The
    /// reason of the first that fails, if any.
    pub fn move_precheck(session: &Session, payload: &StrMap, sender_hash: &str) -> (r: Option<String>)
        requires
            move_count_ok(session.metadata@),
        ensures
            r is Some <==> pre_refusal(session.status@, session.metadata@, payload@, sender_hash@) is Some,
            r matches Some(m) ==> m@ == pre_refusal(
                session.status@,
                session.metadata@,
                payload@,
                sender_hash@,
            ).unwrap(),
    {
        let meta = &session.metadata;
        if !str_eq(session.status.as_str(), STATUS_ACTIVE) {
            let a = concat("Session is not active (status=", session.status.as_str());
            return Some(concat(a.as_str(), ")"));
        }
        let turn = meta_str(meta, META_TURN);
        if turn.unicode_len() > 0 && !str_eq(turn.as_str(), sender_hash) {
            return Some("Not your turn".to_owned());
        }
        let index: usize = match opt_u64(payload, PAYLOAD_INDEX) {
            Some(i) => if i <= 8 {
                i as usize
            } else {
                return Some("Invalid cell index".to_owned());
            },
            None => {
                return Some("Invalid cell index".to_owned());
            },
        };
        let board_str = text_or_empty(payload, PAYLOAD_BOARD);
        let move_num: u64 = match opt_u64(payload, PAYLOAD_MOVE_NUM) {
            Some(n) => n,
            None => 0,
        };
        let old_board = meta_str(meta, META_BOARD);
        let old_chars = char_vec(old_board.as_str());
        if index >= old_chars.len() || old_chars[index] != '_' {
            let a = concat("Cell ", u64_to_decimal(index as u64).as_str());
            return Some(concat(a.as_str(), " is already occupied"));
        }
        let marker = marker_for_move(move_num);
        let expected = replace_char(old_board.as_str(), index, marker);
        if !str_eq(board_str, expected.as_str()) {
            let a = concat("Board mismatch: expected ", expected.as_str());
            let b = concat(a.as_str(), ", got ");
            return Some(concat(b.as_str(), board_str));
        }
        let expected_num = (meta_i64(meta, META_MOVE_COUNT) + 1) as u64;
        if move_num != expected_num {
            let a = concat("Move number mismatch: expected ", u64_to_decimal(expected_num).as_str());
            let b = concat(a.as_str(), ", got ");
            return Some(concat(b.as_str(), u64_to_decimal(move_num).as_str()));
        }
        None
    }

    /// Whether a move on this session reaches the result check only with a
    /// board of at least nine cells.
    pub fn move_is_safe(session: &Session, payload: &StrMap, sender_hash: &str) -> (r: bool)
        requires
            move_count_ok(session.metadata@),
        ensures
            r == move_safe(session.status@, session.metadata@, payload@, sender_hash@),
    {
        Self::move_precheck(session, payload, sender_hash).is_some() || meta_str(
            &session.metadata,
            META_BOARD,
        ).unicode_len() >= 9
    }

    /// Check a move against the session, both sides' validation.
    /// Returns (valid, error_message).
    pub fn validate_move(&self, session: &Session, payload: &StrMap, sender_hash: &str) -> (r: (
        bool,
        Option<String>,
    ))
        requires
            move_count_ok(session.metadata@),
            move_safe(session.status@, session.metadata@, payload@, sender_hash@),
        ensures
            r.0 <==> move_refusal(
                session.status@,
                session.metadata@,
                payload@,
                sender_hash@,
            ) is None,
            r.0 ==> r.1 is None,
            !r.0 ==> (r.1 matches Some(m) && m@ == move_refusal(
                session.status@,
                session.metadata@,
                payload@,
                sender_hash@,
            ).unwrap()),
    {
        proof {
            reveal_strlit("");
        }
        if let Some(m) = Self::move_precheck(session, payload, sender_hash) {
            return (false, Some(m));
        }
        let board_str = text_or_empty(payload, PAYLOAD_BOARD);
        let terminal = text_or_empty(payload, PAYLOAD_TERMINAL);
        let winner = check_winner(board_str);
        let is_draw = check_draw(board_str);
        if winner.is_some() && !str_eq(terminal, "win") {
            let a = concat("Board shows a win but terminal='", terminal);
            return (false, Some(concat(a.as_str(), "'")));
        }
        if is_draw && !str_eq(terminal, "draw") {
            let a = concat("Board is full (draw) but terminal='", terminal);
            return (false, Some(concat(a.as_str(), "'")));
        }
        if winner.is_none() && !is_draw && terminal.unicode_len() > 0 {
            let a = concat("No win/draw but terminal='", terminal);
            return (false, Some(concat(a.as_str(), "'")));
        }
        let next_turn = text_or_empty(payload, PAYLOAD_TURN);
        if terminal.unicode_len() > 0 {
            if next_turn.unicode_len() > 0 {
                return (false, Some("Turn should be empty on terminal move".to_owned()));
            }
        } else if str_eq(next_turn, sender_hash) {
            return (false, Some("Turn cannot be the sender after their own move".to_owned()));
        }
        (true, None)
    }
}

/// What the local player's move comes to.
pub struct MoveOut {
    pub index: usize,
    pub move_num: u64,
    pub board: Seq<char>,
    pub terminal: Seq<char>,
    pub winner: Seq<char>,
    pub next_turn: Seq<char>,
}

/// The local player's move: the mark of the next move number put in the
/// cell `i` of the payload (if the board has that cell), and the game's
/// result on the new board.
pub open spec fn move_out(
    meta: Map<Seq<char>, ValueModel>,
    payload: Map<Seq<char>, ValueModel>,
    contact: Seq<char>,
    identity: Seq<char>,
) -> MoveOut {
    let old_board = text_at(meta, META_BOARD@);
    let index = (if opt_u64_at(payload, PAYLOAD_INDEX@) is Some {
        opt_u64_at(payload, PAYLOAD_INDEX@).unwrap()
    } else {
        0
    }) as usize;
    let move_num = ((int_at(meta, META_MOVE_COUNT@) + 1) as i64) as u64;
    let marker = spec_marker_for_move(move_num);
    let board = if index < old_board.len() {
        old_board.update(index as int, marker)
    } else {
        old_board
    };
    let won = spec_check_winner(board) is Some;
    let drawn = spec_check_draw(board);
    let first_turn = text_at(meta, META_FIRST_TURN@);
    let nt = if marker == 'O' {
        first_turn
    } else {
        contact
    };
    MoveOut {
        index,
        move_num,
        board,
        terminal: if won {
            "win"@
        } else if drawn {
            "draw"@
        } else {
            Seq::empty()
        },
        winner: if won {
            identity
        } else {
            Seq::empty()
        },
        next_turn: if won || drawn {
            Seq::empty()
        } else if nt == identity {
            contact
        } else {
            nt
        },
    }
}

/// The enriched payload of a move.
pub open spec fn move_out_payload(o: MoveOut) -> Map<Seq<char>, ValueModel> {
    let base = Map::empty().insert(PAYLOAD_INDEX@, model_of_i64(o.index as i64)).insert(
        PAYLOAD_BOARD@,
        ValueModel::Str(o.board),
    ).insert(PAYLOAD_MOVE_NUM@, model_of_i64(o.move_num as i64)).insert(
        PAYLOAD_TURN@,
        ValueModel::Str(o.next_turn),
    ).insert(PAYLOAD_TERMINAL@, ValueModel::Str(o.terminal));
    if o.terminal == "win"@ {
        base.insert(PAYLOAD_WINNER@, ValueModel::Str(o.winner))
    } else {
        base
    }
}

/// Both-side validation agrees: a move that `handle_move_out` makes on the
/// mover's copy of an active session is accepted by `validate_move` on the
/// opponent's copy, when the two copies agree on the board and the move
/// count, the opponent's copy expects the mover (or nobody) to play, the
/// chosen cell is empty, and the two players are different.
pub proof fn law_sent_move_is_valid_for_opponent(
    meta: Map<Seq<char>, ValueModel>,
    payload: Map<Seq<char>, ValueModel>,
    contact: Seq<char>,
    identity: Seq<char>,
    opponent_meta: Map<Seq<char>, ValueModel>,
)
    requires
        text_at(opponent_meta, META_BOARD@) == text_at(meta, META_BOARD@),
        int_at(opponent_meta, META_MOVE_COUNT@) == int_at(meta, META_MOVE_COUNT@),
        -1 <= int_at(meta, META_MOVE_COUNT@) < i64::MAX,
        text_at(opponent_meta, META_TURN@).len() == 0 || text_at(opponent_meta, META_TURN@) == identity,
        opt_u64_at(payload, PAYLOAD_INDEX@) matches Some(i) && i <= 8 && i < text_at(meta, META_BOARD@).len()
            && text_at(meta, META_BOARD@)[i as int] == '_',
        contact != identity,
    ensures
        move_refusal(
            STATUS_ACTIVE@,
            opponent_meta,
            move_out_payload(move_out(meta, payload, contact, identity)),
            identity,
        ) is None,
{
    lemma_keys_distinct();
    reveal_strlit("win");
    reveal_strlit("draw");
    let keys = seq![PAYLOAD_INDEX@, PAYLOAD_BOARD@, PAYLOAD_MOVE_NUM@, PAYLOAD_TURN@, PAYLOAD_TERMINAL@, PAYLOAD_WINNER@];
    assert forall|a: int, b: int| 0 <= a < b < 6 implies keys[a] != keys[b] by {
        assert(keys[a][0] != keys[b][0]);
    }
    assert("draw"@.len() == 4);
}

/// Both copies of a session record the same move: the board, move count,
/// turn, result and winner that `handle_move_in` reads from the payload
/// `handle_move_out` sent are those the sender recorded in its own copy
/// (`meta_after_move` in `move_out_post` and `move_in_post`).
pub proof fn law_received_move_matches_sent(
    meta: Map<Seq<char>, ValueModel>,
    payload: Map<Seq<char>, ValueModel>,
    contact: Seq<char>,
    identity: Seq<char>,
)
    requires
        -1 <= int_at(meta, META_MOVE_COUNT@) < i64::MAX,
    ensures
        ({
            let o = move_out(meta, payload, contact, identity);
            let p = move_out_payload(o);
            &&& text_at(p, PAYLOAD_BOARD@) == o.board
            &&& received_move_count(p) == model_of_i64(o.move_num as i64)
            &&& text_at(p, PAYLOAD_TURN@) == o.next_turn
            &&& text_at(p, PAYLOAD_TERMINAL@) == o.terminal
            &&& text_at(p, PAYLOAD_WINNER@) == o.winner
        }),
{
    lemma_keys_distinct();
    reveal_strlit("win");
    reveal_strlit("draw");
    let keys = seq![PAYLOAD_INDEX@, PAYLOAD_BOARD@, PAYLOAD_MOVE_NUM@, PAYLOAD_TURN@, PAYLOAD_TERMINAL@, PAYLOAD_WINNER@];
    assert forall|a: int, b: int| 0 <= a < b < 6 implies keys[a] != keys[b] by {
        assert(keys[a][0] != keys[b][0]);
    }
    assert("win"@.len() == 3);
}

/// The metadata after a move (sent or received) with this board, move
/// number, turn, result and winner.
pub open spec fn meta_after_move(
    meta: Map<Seq<char>, ValueModel>,
    board: Seq<char>,
    move_count: ValueModel,
    turn: Seq<char>,
    terminal: Seq<char>,
    winner: Seq<char>,
) -> Map<Seq<char>, ValueModel> {
    meta.insert(META_BOARD@, ValueModel::Str(board)).insert(META_MOVE_COUNT@, move_count).insert(
        META_TURN@,
        ValueModel::Str(turn),
    ).insert(META_TERMINAL@, ValueModel::Str(terminal)).insert(
        META_WINNER@,
        ValueModel::Str(winner),
    ).insert(META_DRAW_OFFERED@, ValueModel::Boolean(false))
}

/// The table changed at `key` at most.
pub open spec fn changed_at_most(
    before: Map<(Seq<char>, Seq<char>), Session>,
    after: Map<(Seq<char>, Seq<char>), Session>,
    key: (Seq<char>, Seq<char>),
) -> bool {
    &&& after.dom() == before.dom().insert(key)
    &&& forall|k: (Seq<char>, Seq<char>)|
        k != key && #[trigger] before.contains_key(k) ==> after[k] == before[k]
}

impl TicTacToeApp {
    /// The local player's move: computes the new board and the result, updates
    /// the local session, and returns the enriched payload with its fallback
    /// text.
    pub fn handle_move_out(&mut self, session_id: &str, payload: &StrMap, identity_id: &str) -> (r:
        OutgoingResult)
        requires
            move_out_ok(old(self).table(), session_id@, identity_id@),
        ensures
            move_out_post(
                old(self).table(),
                final(self).table(),
                r,
                session_id@,
                payload@,
                identity_id@,
            ),
    {
        let mut session = match self.get_session(session_id, identity_id) {
            Some(s) => s,
            None => {
                return OutgoingResult {
                    session_id: session_id.to_owned(),
                    payload: payload.duplicate(),
                    fallback_text: render_fallback_text(CMD_MOVE, payload),
                };
            },
        };
        let ghost key = (session_id@, identity_id@);
        let ghost s0 = old(self).table()[key];
        let ghost o = move_out(s0.metadata@, payload@, s0.contact_hash@, identity_id@);
        let ghost m0 = session.metadata@;
        proof {
            reveal_strlit("");
            reveal_strlit("win");
            reveal_strlit("draw");
            lemma_keys_distinct();
        }
        let old_board = meta_str(&session.metadata, META_BOARD);
        let index: usize = match opt_u64(payload, PAYLOAD_INDEX) {
            Some(i) => i as usize,
            None => 0,
        };
        let move_num: u64 = (meta_i64(&session.metadata, META_MOVE_COUNT) + 1) as u64;
        let marker = marker_for_move(move_num);
        let new_board = if index < old_board.unicode_len() {
            replace_char(old_board.as_str(), index, marker)
        } else {
            old_board.clone()
        };
        let winner = check_winner(new_board.as_str());
        let is_draw = check_draw(new_board.as_str());
        let terminal: String;
        let winner_hash: String;
        let next_turn: String;
        if winner.is_some() {
            terminal = "win".to_owned();
            winner_hash = identity_id.to_owned();
            next_turn = String::new();
        } else if is_draw {
            terminal = "draw".to_owned();
            winner_hash = String::new();
            next_turn = String::new();
        } else {
            let first_turn = meta_str(&session.metadata, META_FIRST_TURN);
            let mut nt = if marker == 'O' {
                first_turn
            } else {
                session.contact_hash.clone()
            };
            if str_eq(nt.as_str(), identity_id) {
                nt = session.contact_hash.clone();
            }
            terminal = String::new();
            winner_hash = String::new();
            next_turn = nt;
        }
        let is_win = str_eq(terminal.as_str(), "win");
        let mut enriched = StrMap::new();
        enriched.insert(PAYLOAD_INDEX.to_owned(), MsgValue::from_i64(index as i64));
        enriched.insert(PAYLOAD_BOARD.to_owned(), MsgValue::String(new_board.clone()));
        enriched.insert(PAYLOAD_MOVE_NUM.to_owned(), MsgValue::from_i64(move_num as i64));
        enriched.insert(PAYLOAD_TURN.to_owned(), MsgValue::String(next_turn.clone()));
        enriched.insert(PAYLOAD_TERMINAL.to_owned(), MsgValue::String(terminal.clone()));
        if is_win {
            enriched.insert(PAYLOAD_WINNER.to_owned(), MsgValue::String(winner_hash.clone()));
        }
        session.metadata.insert(META_BOARD.to_owned(), MsgValue::String(new_board));
        session.metadata.insert(META_MOVE_COUNT.to_owned(), MsgValue::from_i64(move_num as i64));
        session.metadata.insert(META_TURN.to_owned(), MsgValue::String(next_turn));
        session.metadata.insert(META_TERMINAL.to_owned(), MsgValue::String(terminal.clone()));
        session.metadata.insert(
            META_WINNER.to_owned(),
            MsgValue::String(
                if is_win {
                    winner_hash
                } else {
                    String::new()
                },
            ),
        );
        session.metadata.insert(META_DRAW_OFFERED.to_owned(), MsgValue::Boolean(false));
        assert(session.metadata@ == meta_after_move(
            m0,
            o.board,
            model_of_i64(o.move_num as i64),
            o.next_turn,
            o.terminal,
            o.winner,
        ));
        let is_terminal = terminal.unicode_len() > 0;
        let _ = SessionStateMachine::apply_command(&mut session, CMD_MOVE, is_terminal);
        self.save_session(session);
        let fallback = render_fallback_text(CMD_MOVE, &enriched);
        proof {
            let s2 = self.table()[key];
            assert(s2.metadata@ == meta_after_move(
                s0.metadata@,
                o.board,
                model_of_i64(o.move_num as i64),
                o.next_turn,
                o.terminal,
                o.winner,
            ));
        }
        OutgoingResult { payload: enriched, fallback_text: fallback, session_id: session_id.to_owned() }
    }
}

/// What `handle_challenge_in` does, from the table `before` to the table `after`.
pub open spec fn challenge_in_post(
    before: Map<(Seq<char>, Seq<char>), Session>,
    after: Map<(Seq<char>, Seq<char>), Session>,
    r: IncomingResult,
    session_id: Seq<char>,
    payload: Map<Seq<char>, ValueModel>,
    sender_hash: Seq<char>,
    identity_id: Seq<char>,
) -> bool {
    &&& (changed_at_most(before, after, (session_id, identity_id)))
    &&& (is_challenged_session(
        after[(session_id, identity_id)],
        session_id,
        sender_hash,
        identity_id,
    ))
    &&& (is_session_result(
        r,
        after[(session_id, identity_id)],
        CMD_CHALLENGE@,
        session_id,
        sender_hash,
    ))
}

/// What `handle_accept_in` does, from the table `before` to the table `after`.
pub open spec fn accept_in_post(
    before: Map<(Seq<char>, Seq<char>), Session>,
    after: Map<(Seq<char>, Seq<char>), Session>,
    r: IncomingResult,
    session_id: Seq<char>,
    payload: Map<Seq<char>, ValueModel>,
    sender_hash: Seq<char>,
    identity_id: Seq<char>,
) -> bool {
    &&& (!before.contains_key((session_id, identity_id)) ==> {
        &&& after == before
        &&& is_error_result(r, ERR_PROTOCOL_ERROR@, "Unknown session"@)
    })
    &&& (before.contains_key((session_id, identity_id)) ==> {
        let key = (session_id, identity_id);
        let s = before[key];
        match next_status(s.status@, CMD_ACCEPT@, false) {
            None => {
                &&& after == before
                &&& is_error_result(
                    r,
                    ERR_PROTOCOL_ERROR@,
                    illegal_message(CMD_ACCEPT@, s.status@),
                )
            },
            Some(st) => {
                let s2 = after[key];
                &&& changed_at_most(before, after, key)
                &&& s2.same_identity(s)
                &&& s2.status@ == st
                &&& s2.updated_at == s2.last_action_at
                &&& s2.unread == 1
                &&& s2.metadata@ == s.metadata@.insert(
                    META_BOARD@,
                    ValueModel::Str(accept_board(payload)),
                ).insert(META_TURN@, ValueModel::Str(accept_turn(payload, s.metadata@)))
                &&& is_session_result(r, s2, CMD_ACCEPT@, session_id, sender_hash)
            },
        }
    })
}

/// What `handle_decline_in` does, from the table `before` to the table `after`.
pub open spec fn decline_in_post(
    before: Map<(Seq<char>, Seq<char>), Session>,
    after: Map<(Seq<char>, Seq<char>), Session>,
    r: IncomingResult,
    session_id: Seq<char>,
    sender_hash: Seq<char>,
    identity_id: Seq<char>,
) -> bool {
    &&& (!before.contains_key((session_id, identity_id)) ==> {
        &&& after == before
        &&& is_error_result(r, ERR_PROTOCOL_ERROR@, "Unknown session"@)
    })
    &&& (before.contains_key((session_id, identity_id)) ==> {
        let key = (session_id, identity_id);
        let s = before[key];
        match next_status(s.status@, CMD_DECLINE@, false) {
            None => {
                &&& after == before
                &&& is_error_result(
                    r,
                    ERR_PROTOCOL_ERROR@,
                    illegal_message(CMD_DECLINE@, s.status@),
                )
            },
            Some(st) => {
                let s2 = after[key];
                &&& changed_at_most(before, after, key)
                &&& s2.same_identity(s)
                &&& s2.status@ == st
                &&& s2.updated_at == s2.last_action_at
                &&& s2.unread == 1
                &&& s2.metadata@ == s.metadata@
                &&& is_session_result(r, s2, CMD_DECLINE@, session_id, sender_hash)
            },
        }
    })
}

/// What `handle_move_in` does, from the table `before` to the table `after`.
pub open spec fn move_in_post(
    before: Map<(Seq<char>, Seq<char>), Session>,
    after: Map<(Seq<char>, Seq<char>), Session>,
    r: IncomingResult,
    session_id: Seq<char>,
    payload: Map<Seq<char>, ValueModel>,
    sender_hash: Seq<char>,
    identity_id: Seq<char>,
) -> bool {
    &&& (!before.contains_key((session_id, identity_id)) ==> {
        &&& after == before
        &&& is_error_result(r, ERR_PROTOCOL_ERROR@, "Unknown session"@)
    })
    &&& (before.contains_key((session_id, identity_id)) ==> {
        let key = (session_id, identity_id);
        let s = before[key];
        match move_refusal(s.status@, s.metadata@, payload, sender_hash) {
            Some(msg) => {
                &&& after == before
                &&& r.session matches Some(x) && x.same_as(s)
                &&& r.emit is None
                &&& r.error matches Some(e) && e@ == error_map(move_error_code(s.status@, s.metadata@, sender_hash), msg).insert(
                    KEY_ERR_REF@,
                    ValueModel::Str(CMD_MOVE@),
                )
            },
            None => {
                let s2 = after[key];
                let terminal = text_at(payload, PAYLOAD_TERMINAL@);
                &&& changed_at_most(before, after, key)
                &&& s2.same_identity(s)
                &&& s2.unread == 1
                &&& s2.status@ == status_after(s.status@, CMD_MOVE@, terminal.len() > 0)
                &&& times_after(s, s2, CMD_MOVE@, terminal.len() > 0)
                &&& s2.metadata@ == meta_after_move(
                    s.metadata@,
                    text_at(payload, PAYLOAD_BOARD@),
                    received_move_count(payload),
                    text_at(payload, PAYLOAD_TURN@),
                    terminal,
                    text_at(payload, PAYLOAD_WINNER@),
                )
                &&& r.session matches Some(x) && x.same_as(s2)
                &&& r.emit matches Some(e) && e.event_type@ == CMD_MOVE@ && e.session_id@
                    == session_id && e.app_id@ == APP_ID@ && e.from@ == sender_hash && (
                e.payload matches Some(p) && p@ == payload)
                &&& r.error is None
            },
        }
    })
}

/// What `handle_resign_in` does, from the table `before` to the table `after`.
pub open spec fn resign_in_post(
    before: Map<(Seq<char>, Seq<char>), Session>,
    after: Map<(Seq<char>, Seq<char>), Session>,
    r: IncomingResult,
    session_id: Seq<char>,
    sender_hash: Seq<char>,
    identity_id: Seq<char>,
) -> bool {
    &&& (!before.contains_key((session_id, identity_id)) ==> {
        &&& after == before
        &&& is_error_result(r, ERR_PROTOCOL_ERROR@, "Unknown session"@)
    })
    &&& (before.contains_key((session_id, identity_id)) ==> {
        let key = (session_id, identity_id);
        let s = before[key];
        let s2 = after[key];
        &&& changed_at_most(before, after, key)
        &&& s2.same_identity(s)
        &&& s2.status@ == status_after(s.status@, CMD_RESIGN@, false)
        &&& times_after(s, s2, CMD_RESIGN@, false)
        &&& s2.unread == 1
        &&& s2.metadata@ == s.metadata@.insert(META_TERMINAL@, ValueModel::Str("resign"@)).insert(
            META_WINNER@,
            ValueModel::Str(resign_winner(s.metadata@, sender_hash, identity_id)),
        )
        &&& is_session_result(r, s2, CMD_RESIGN@, session_id, sender_hash)
    })
}

/// What `handle_draw_offer_in` does, from the table `before` to the table `after`.
pub open spec fn draw_offer_in_post(
    before: Map<(Seq<char>, Seq<char>), Session>,
    after: Map<(Seq<char>, Seq<char>), Session>,
    r: IncomingResult,
    session_id: Seq<char>,
    sender_hash: Seq<char>,
    identity_id: Seq<char>,
) -> bool {
    &&& (!before.contains_key((session_id, identity_id)) ==> {
        &&& after == before
        &&& is_error_result(r, ERR_PROTOCOL_ERROR@, "Unknown session"@)
    })
    &&& (before.contains_key((session_id, identity_id)) ==> {
        let key = (session_id, identity_id);
        let s = before[key];
        let s2 = after[key];
        &&& changed_at_most(before, after, key)
        &&& s2.same_identity(s)
        &&& s2.status@ == s.status@
        &&& same_times(s, s2)
        &&& s2.unread == 1
        &&& s2.metadata@ == s.metadata@.insert(META_DRAW_OFFERED@, ValueModel::Boolean(true))
        &&& is_session_result(r, s2, CMD_DRAW_OFFER@, session_id, sender_hash)
    })
}

/// What `handle_draw_accept_in` does, from the table `before` to the table `after`.
pub open spec fn draw_accept_in_post(
    before: Map<(Seq<char>, Seq<char>), Session>,
    after: Map<(Seq<char>, Seq<char>), Session>,
    r: IncomingResult,
    session_id: Seq<char>,
    sender_hash: Seq<char>,
    identity_id: Seq<char>,
) -> bool {
    &&& (!before.contains_key((session_id, identity_id)) ==> {
        &&& after == before
        &&& is_error_result(r, ERR_PROTOCOL_ERROR@, "Unknown session"@)
    })
    &&& (before.contains_key((session_id, identity_id)) ==> {
        let key = (session_id, identity_id);
        let s = before[key];
        let s2 = after[key];
        &&& changed_at_most(before, after, key)
        &&& s2.same_identity(s)
        &&& s2.status@ == status_after(s.status@, CMD_DRAW_ACCEPT@, false)
        &&& times_after(s, s2, CMD_DRAW_ACCEPT@, false)
        &&& s2.unread == 1
        &&& s2.metadata@ == s.metadata@.insert(META_TERMINAL@, ValueModel::Str("draw"@)).insert(
            META_DRAW_OFFERED@,
            ValueModel::Boolean(false),
        )
        &&& is_session_result(r, s2, CMD_DRAW_ACCEPT@, session_id, sender_hash)
    })
}

/// What `handle_draw_decline_in` does, from the table `before` to the table `after`.
pub open spec fn draw_decline_in_post(
    before: Map<(Seq<char>, Seq<char>), Session>,
    after: Map<(Seq<char>, Seq<char>), Session>,
    r: IncomingResult,
    session_id: Seq<char>,
    sender_hash: Seq<char>,
    identity_id: Seq<char>,
) -> bool {
    &&& (!before.contains_key((session_id, identity_id)) ==> {
        &&& after == before
        &&& is_error_result(r, ERR_PROTOCOL_ERROR@, "Unknown session"@)
    })
    &&& (before.contains_key((session_id, identity_id)) ==> {
        let key = (session_id, identity_id);
        let s = before[key];
        let s2 = after[key];
        &&& changed_at_most(before, after, key)
        &&& s2.same_identity(s)
        &&& s2.status@ == s.status@
        &&& same_times(s, s2)
        &&& s2.unread == 1
        &&& s2.metadata@ == s.metadata@.insert(META_DRAW_OFFERED@, ValueModel::Boolean(false))
        &&& is_session_result(r, s2, CMD_DRAW_DECLINE@, session_id, sender_hash)
    })
}

/// What `handle_challenge_out` does, from the table `before` to the table `after`.
pub open spec fn challenge_out_post(
    before: Map<(Seq<char>, Seq<char>), Session>,
    after: Map<(Seq<char>, Seq<char>), Session>,
    r: OutgoingResult,
    session_id: Seq<char>,
    identity_id: Seq<char>,
) -> bool {
    &&& (is_plain_outgoing(r, "[LRGP TTT] Sent a challenge!"@))
    &&& (session_id.len() > 0 ==> r.session_id@ == session_id)
    &&& (session_id.len() == 0 ==> is_generated_session_id(r.session_id@))
    &&& changed_at_most(before, after, (r.session_id@, identity_id))
    &&& is_challenger_session(after[(r.session_id@, identity_id)], r.session_id@, identity_id)
}

/// What `handle_accept_out` does, from the table `before` to the table `after`.
pub open spec fn accept_out_post(
    before: Map<(Seq<char>, Seq<char>), Session>,
    after: Map<(Seq<char>, Seq<char>), Session>,
    r: OutgoingResult,
    session_id: Seq<char>,
    identity_id: Seq<char>,
) -> bool {
    &&& r.session_id@ == session_id
    &&& (r.fallback_text@ == "[LRGP TTT] Challenge accepted"@)
    &&& (!before.contains_key((session_id, identity_id)) ==> {
        &&& after == before
        &&& r.payload@ == Map::<Seq<char>, ValueModel>::empty()
    })
    &&& (before.contains_key((session_id, identity_id)) ==> {
        let key = (session_id, identity_id);
        let s = before[key];
        let s2 = after[key];
        &&& changed_at_most(before, after, key)
        &&& s2.same_identity(s)
        &&& s2.status@ == status_after(s.status@, CMD_ACCEPT@, false)
        &&& times_after(s, s2, CMD_ACCEPT@, false)
        &&& s2.unread == s.unread
        &&& s2.metadata@ == s.metadata@.insert(META_BOARD@, ValueModel::Str(EMPTY_BOARD@)).insert(
            META_TURN@,
            ValueModel::Str(accept_first(s)),
        )
        &&& r.payload@ == Map::<Seq<char>, ValueModel>::empty().insert(
            PAYLOAD_BOARD@,
            ValueModel::Str(EMPTY_BOARD@),
        ).insert(PAYLOAD_TURN@, ValueModel::Str(accept_first(s)))
    })
}

/// What `handle_decline_out` does, from the table `before` to the table `after`.
pub open spec fn decline_out_post(
    before: Map<(Seq<char>, Seq<char>), Session>,
    after: Map<(Seq<char>, Seq<char>), Session>,
    r: OutgoingResult,
    session_id: Seq<char>,
    identity_id: Seq<char>,
) -> bool {
    &&& r.session_id@ == session_id
    &&& (is_plain_outgoing(r, "[LRGP TTT] Challenge declined"@))
    &&& (!before.contains_key((session_id, identity_id)) ==> after
        == before)
    &&& (before.contains_key((session_id, identity_id)) ==> {
        let key = (session_id, identity_id);
        let s = before[key];
        let s2 = after[key];
        &&& changed_at_most(before, after, key)
        &&& s2.same_identity(s)
        &&& s2.status@ == status_after(s.status@, CMD_DECLINE@, false)
        &&& times_after(s, s2, CMD_DECLINE@, false)
        &&& s2.unread == s.unread
        &&& s2.metadata@ == s.metadata@
    })
}

/// What `handle_move_out` does, from the table `before` to the table `after`.
pub open spec fn move_out_post(
    before: Map<(Seq<char>, Seq<char>), Session>,
    after: Map<(Seq<char>, Seq<char>), Session>,
    r: OutgoingResult,
    session_id: Seq<char>,
    payload: Map<Seq<char>, ValueModel>,
    identity_id: Seq<char>,
) -> bool {
    &&& r.session_id@ == session_id
    &&& (!before.contains_key((session_id, identity_id)) ==> {
        &&& after == before
        &&& r.payload@ == payload
        &&& r.fallback_text@ == fallback_text(CMD_MOVE@, payload)
    })
    &&& (before.contains_key((session_id, identity_id)) ==> {
        let key = (session_id, identity_id);
        let s = before[key];
        let o = move_out(s.metadata@, payload, s.contact_hash@, identity_id);
        let s2 = after[key];
        &&& r.payload@ == move_out_payload(o)
        &&& r.fallback_text@ == fallback_text(CMD_MOVE@, move_out_payload(o))
        &&& changed_at_most(before, after, key)
        &&& s2.same_identity(s)
        &&& s2.unread == s.unread
        &&& s2.status@ == status_after(s.status@, CMD_MOVE@, o.terminal.len() > 0)
        &&& times_after(s, s2, CMD_MOVE@, o.terminal.len() > 0)
        &&& s2.metadata@ == meta_after_move(
            s.metadata@,
            o.board,
            model_of_i64(o.move_num as i64),
            o.next_turn,
            o.terminal,
            o.winner,
        )
    })
}

/// A local move that wins the game is won by the moving player: the sent
/// payload's winner and the winner the local session records are the
/// local identity, never the contact. When the board had no winner before,
/// the winning line is one that the cell just played completes, so the
/// winning mark is the mark placed there.
pub proof fn law_local_win_goes_to_mover(
    before: Map<(Seq<char>, Seq<char>), Session>,
    after: Map<(Seq<char>, Seq<char>), Session>,
    r: OutgoingResult,
    session_id: Seq<char>,
    payload: Map<Seq<char>, ValueModel>,
    identity_id: Seq<char>,
)
    requires
        move_out_post(before, after, r, session_id, payload, identity_id),
        before.contains_key((session_id, identity_id)),
        text_at(r.payload@, PAYLOAD_TERMINAL@) == "win"@,
    ensures
        ({
            let s = before[(session_id, identity_id)];
            let s2 = after[(session_id, identity_id)];
            let old_board = text_at(s.metadata@, META_BOARD@);
            let new_board = text_at(s2.metadata@, META_BOARD@);
            &&& text_at(r.payload@, PAYLOAD_WINNER@) == identity_id
            &&& text_at(s2.metadata@, META_WINNER@) == identity_id
            &&& s.contact_hash@ != identity_id ==> text_at(r.payload@, PAYLOAD_WINNER@) != s.contact_hash@
            &&& (old_board.len() >= 9 && spec_check_winner(old_board) is None && opt_u64_at(
                payload,
                PAYLOAD_INDEX@,
            ) is Some && opt_u64_at(payload, PAYLOAD_INDEX@).unwrap() < 9) ==> spec_check_winner(new_board) == Some(
                new_board[opt_u64_at(payload, PAYLOAD_INDEX@).unwrap() as int],
            )
        }),
{
    lemma_keys_distinct();
    reveal_strlit("win");
    reveal_strlit("draw");
    assert("win"@.len() == 3 && "draw"@.len() == 4);
    let key = (session_id, identity_id);
    let s = before[key];
    let o = move_out(s.metadata@, payload, s.contact_hash@, identity_id);
    let keys = seq![PAYLOAD_INDEX@, PAYLOAD_BOARD@, PAYLOAD_MOVE_NUM@, PAYLOAD_TURN@, PAYLOAD_TERMINAL@, PAYLOAD_WINNER@];
    assert forall|a: int, b: int| 0 <= a < b < 6 implies keys[a] != keys[b] by {
        assert(keys[a][0] != keys[b][0]);
    }
    assert(text_at(r.payload@, PAYLOAD_TERMINAL@) == o.terminal);
    assert(o.terminal == "win"@);
    assert(spec_check_winner(o.board) is Some);
    let old_board = text_at(s.metadata@, META_BOARD@);
    if old_board.len() >= 9 && spec_check_winner(old_board) is None && opt_u64_at(payload, PAYLOAD_INDEX@) is Some
        && opt_u64_at(payload, PAYLOAD_INDEX@).unwrap() < 9 {
        let i = opt_u64_at(payload, PAYLOAD_INDEX@).unwrap() as int;
        let b2 = o.board;
        assert(o.index == i);
        assert(b2 == old_board.update(i, spec_marker_for_move(o.move_num)));
        law_winner_is_a_won_line(old_board);
        law_winner_is_a_won_line(b2);
        let c = spec_check_winner(b2).unwrap();
        let k = choose|k: int| 0 <= k < 8 && #[trigger] line_won(b2, k) && b2[win_line(k).0] == c && c != '_';
        let (x, y, z) = win_line(k);
        if i != x && i != y && i != z {
            assert(line_won(old_board, k));
        }
        assert(b2[i] == c);
    }
}

/// A local move that does not win names no winner, and after a local move
/// the turn never stays with the mover: it passes to another player while
/// the game goes on, and to nobody once the game has ended.
pub proof fn law_local_move_passes_turn(
    before: Map<(Seq<char>, Seq<char>), Session>,
    after: Map<(Seq<char>, Seq<char>), Session>,
    r: OutgoingResult,
    session_id: Seq<char>,
    payload: Map<Seq<char>, ValueModel>,
    identity_id: Seq<char>,
)
    requires
        move_out_post(before, after, r, session_id, payload, identity_id),
        before.contains_key((session_id, identity_id)),
        before[(session_id, identity_id)].contact_hash@ != identity_id,
    ensures
        ({
            let s2 = after[(session_id, identity_id)];
            let terminal = text_at(r.payload@, PAYLOAD_TERMINAL@);
            &&& terminal != "win"@ ==> !r.payload@.contains_key(PAYLOAD_WINNER@) && text_at(
                s2.metadata@,
                META_WINNER@,
            ).len() == 0
            &&& terminal.len() == 0 ==> text_at(r.payload@, PAYLOAD_TURN@) != identity_id
            &&& terminal.len() > 0 ==> text_at(r.payload@, PAYLOAD_TURN@).len() == 0
            &&& text_at(s2.metadata@, META_TURN@) == text_at(r.payload@, PAYLOAD_TURN@)
        }),
{
    lemma_keys_distinct();
    reveal_strlit("win");
    reveal_strlit("draw");
    assert("win"@.len() == 3 && "draw"@.len() == 4);
    let keys = seq![PAYLOAD_INDEX@, PAYLOAD_BOARD@, PAYLOAD_MOVE_NUM@, PAYLOAD_TURN@, PAYLOAD_TERMINAL@, PAYLOAD_WINNER@];
    assert forall|a: int, b: int| 0 <= a < b < 6 implies keys[a] != keys[b] by {
        assert(keys[a][0] != keys[b][0]);
    }
}

/// What `handle_resign_out` does, from the table `before` to the table `after`.
pub open spec fn resign_out_post(
    before: Map<(Seq<char>, Seq<char>), Session>,
    after: Map<(Seq<char>, Seq<char>), Session>,
    r: OutgoingResult,
    session_id: Seq<char>,
    identity_id: Seq<char>,
) -> bool {
    &&& r.session_id@ == session_id
    &&& (is_plain_outgoing(r, "[LRGP TTT] Resigned."@))
    &&& (!before.contains_key((session_id, identity_id)) ==> after
        == before)
    &&& (before.contains_key((session_id, identity_id)) ==> {
        let key = (session_id, identity_id);
        let s = before[key];
        let s2 = after[key];
        &&& changed_at_most(before, after, key)
        &&& s2.same_identity(s)
        &&& s2.status@ == status_after(s.status@, CMD_RESIGN@, false)
        &&& times_after(s, s2, CMD_RESIGN@, false)
        &&& s2.unread == s.unread
        &&& s2.metadata@ == s.metadata@.insert(META_TERMINAL@, ValueModel::Str("resign"@)).insert(
            META_WINNER@,
            ValueModel::Str(s.contact_hash@),
        )
    })
}

/// What `handle_draw_accept_out` does, from the table `before` to the table `after`.
pub open spec fn draw_accept_out_post(
    before: Map<(Seq<char>, Seq<char>), Session>,
    after: Map<(Seq<char>, Seq<char>), Session>,
    r: OutgoingResult,
    session_id: Seq<char>,
    identity_id: Seq<char>,
) -> bool {
    &&& r.session_id@ == session_id
    &&& (is_plain_outgoing(r, "[LRGP TTT] Draw accepted"@))
    &&& (!before.contains_key((session_id, identity_id)) ==> after
        == before)
    &&& (before.contains_key((session_id, identity_id)) ==> {
        let key = (session_id, identity_id);
        let s = before[key];
        let s2 = after[key];
        &&& changed_at_most(before, after, key)
        &&& s2.same_identity(s)
        &&& s2.status@ == status_after(s.status@, CMD_DRAW_ACCEPT@, false)
        &&& times_after(s, s2, CMD_DRAW_ACCEPT@, false)
        &&& s2.unread == s.unread
        &&& s2.metadata@ == s.metadata@.insert(META_TERMINAL@, ValueModel::Str("draw"@)).insert(
            META_DRAW_OFFERED@,
            ValueModel::Boolean(false),
        )
    })
}

/// The times of a session after `command` is applied to it: a legal
/// command stamps the update and the last action with one moment; an
/// illegal one leaves both as they were.
pub open spec fn times_after(s: Session, s2: Session, command: Seq<char>, terminal: bool) -> bool {
    if next_status(s.status@, command, terminal) is Some {
        s2.updated_at == s2.last_action_at
    } else {
        same_times(s, s2)
    }
}

/// The two sessions have the same update and last-action times.
pub open spec fn same_times(s: Session, s2: Session) -> bool {
    s2.updated_at == s.updated_at && s2.last_action_at == s.last_action_at
}

/// A result that carries the updated session, an event of this type from
/// this sender, and no error.
pub open spec fn is_session_result(
    r: IncomingResult,
    s2: Session,
    event_type: Seq<char>,
    session_id: Seq<char>,
    from: Seq<char>,
) -> bool {
    &&& r.session matches Some(x) && x.same_as(s2)
    &&& r.emit matches Some(e) && is_event(e, event_type, session_id, APP_ID@, from)
    &&& r.error is None
}

/// The error code of a refused move: `not_your_turn` when the session is
/// active and waits for another player, `invalid_move` otherwise.
pub open spec fn move_error_code(status: Seq<char>, meta: Map<Seq<char>, ValueModel>, sender: Seq<char>) -> Seq<char> {
    let turn = text_at(meta, META_TURN@);
    if status == STATUS_ACTIVE@ && turn.len() > 0 && turn != sender {
        ERR_NOT_YOUR_TURN@
    } else {
        ERR_INVALID_MOVE@
    }
}

/// The move count a received move records: its number `n`, or 0.
pub open spec fn received_move_count(payload: Map<Seq<char>, ValueModel>) -> ValueModel {
    model_of_i64(
        (if opt_u64_at(payload, PAYLOAD_MOVE_NUM@) is Some {
            opt_u64_at(payload, PAYLOAD_MOVE_NUM@).unwrap()
        } else {
            0
        }) as i64,
    )
}

impl TicTacToeApp {
    /// The opponent's move: validated against the local session and, if
    /// valid, recorded in it.
    pub fn handle_move_in(
        &mut self,
        session_id: &str,
        payload: &StrMap,
        sender_hash: &str,
        identity_id: &str,
    ) -> (r: IncomingResult)
        requires
            move_in_ok(old(self).table(), session_id@, identity_id@, payload@, sender_hash@),
        ensures
            move_in_post(
                old(self).table(),
                final(self).table(),
                r,
                session_id@,
                payload@,
                sender_hash@,
                identity_id@,
            ),
    {
        let mut session = match self.get_session(session_id, identity_id) {
            Some(s) => s,
            None => {
                return error_result(ERR_PROTOCOL_ERROR, "Unknown session");
            },
        };
        let ghost key = (session_id@, identity_id@);
        let ghost s0 = old(self).table()[key];
        let ghost m0 = session.metadata@;
        proof {
            reveal_strlit("");
            lemma_keys_distinct();
        }
        let (valid, err_msg) = self.validate_move(&session, payload, sender_hash);
        if !valid {
            let turn = meta_str(&session.metadata, META_TURN);
            let code = if str_eq(session.status.as_str(), STATUS_ACTIVE) && turn.unicode_len() > 0 && !str_eq(
                turn.as_str(),
                sender_hash,
            ) {
                ERR_NOT_YOUR_TURN
            } else {
                ERR_INVALID_MOVE
            };
            let mut err = StrMap::new();
            err.insert(KEY_ERR_CODE.to_owned(), MsgValue::from_str(code));
            let msg = match err_msg {
                Some(m) => m,
                None => String::new(),
            };
            err.insert(KEY_ERR_MSG.to_owned(), MsgValue::String(msg));
            err.insert(KEY_ERR_REF.to_owned(), MsgValue::from_str(CMD_MOVE));
            return IncomingResult { session: Some(session), emit: None, error: Some(err) };
        }
        let board = text_or_empty(payload, PAYLOAD_BOARD);
        let move_num: u64 = match opt_u64(payload, PAYLOAD_MOVE_NUM) {
            Some(n) => n,
            None => 0,
        };
        let turn = text_or_empty(payload, PAYLOAD_TURN);
        let terminal = text_or_empty(payload, PAYLOAD_TERMINAL);
        let winner = text_or_empty(payload, PAYLOAD_WINNER);
        session.metadata.insert(META_BOARD.to_owned(), MsgValue::from_str(board));
        session.metadata.insert(META_MOVE_COUNT.to_owned(), MsgValue::from_i64(move_num as i64));
        session.metadata.insert(META_TURN.to_owned(), MsgValue::from_str(turn));
        session.metadata.insert(META_TERMINAL.to_owned(), MsgValue::from_str(terminal));
        session.metadata.insert(META_WINNER.to_owned(), MsgValue::from_str(winner));
        session.metadata.insert(META_DRAW_OFFERED.to_owned(), MsgValue::Boolean(false));
        assert(session.metadata@ == meta_after_move(
            m0,
            text_at(payload@, PAYLOAD_BOARD@),
            received_move_count(payload@),
            text_at(payload@, PAYLOAD_TURN@),
            text_at(payload@, PAYLOAD_TERMINAL@),
            text_at(payload@, PAYLOAD_WINNER@),
        ));
        let is_terminal = terminal.unicode_len() > 0;
        let _ = SessionStateMachine::apply_command(&mut session, CMD_MOVE, is_terminal);
        session.unread = 1;
        let result_session = session.duplicate();
        self.save_session(session);
        let mut emit = emit_event(CMD_MOVE, session_id, APP_ID, sender_hash);
        emit.payload = Some(payload.duplicate());
        IncomingResult { session: Some(result_session), emit: Some(emit), error: None }
    }
}

/// The text of the error that refusing `command` in `status` gives.
pub open spec fn illegal_message(command: Seq<char>, status: Seq<char>) -> Seq<char> {
    "illegal transition: cannot apply '"@ + command + "' to session in '"@ + status + "' state"@
}

/// A move on the stored session, if there is one, is one the game can
/// check: there is room for one more move, and the board has nine cells by
/// the time the move's result is checked.
pub open spec fn move_in_ok(
    table: Map<(Seq<char>, Seq<char>), Session>,
    session_id: Seq<char>,
    identity_id: Seq<char>,
    payload: Map<Seq<char>, ValueModel>,
    sender: Seq<char>,
) -> bool {
    let k = (session_id, identity_id);
    table.contains_key(k) ==> move_count_ok(table[k].metadata@) && move_safe(
        table[k].status@,
        table[k].metadata@,
        payload,
        sender,
    )
}

/// The stored session, if there is one, leaves room for one more move of
/// the local player, on a board of at least nine cells.
pub open spec fn move_out_ok(
    table: Map<(Seq<char>, Seq<char>), Session>,
    session_id: Seq<char>,
    identity_id: Seq<char>,
) -> bool {
    let k = (session_id, identity_id);
    table.contains_key(k) ==> move_count_ok(table[k].metadata@) && board_ok(table[k].metadata@)
}

/// The board an incoming accept sets: the payload's, or the empty board.
pub open spec fn accept_board(payload: Map<Seq<char>, ValueModel>) -> Seq<char> {
    match opt_text_at(payload, PAYLOAD_BOARD@) {
        Some(b) => b,
        None => EMPTY_BOARD@,
    }
}

/// The turn an incoming accept sets: the payload's, or the first player.
pub open spec fn accept_turn(payload: Map<Seq<char>, ValueModel>, meta: Map<Seq<char>, ValueModel>) -> Seq<char> {
    match opt_text_at(payload, PAYLOAD_TURN@) {
        Some(t) => t,
        None => text_at(meta, META_FIRST_TURN@),
    }
}

/// The winner that an incoming resignation records: the local player if
/// the sender moved first, the first player otherwise.
pub open spec fn resign_winner(meta: Map<Seq<char>, ValueModel>, sender: Seq<char>, identity: Seq<char>) -> Seq<char> {
    if sender == text_at(meta, META_FIRST_TURN@) {
        identity
    } else {
        text_at(meta, META_FIRST_TURN@)
    }
}

/// An incoming resignation never records the resigning player as the
/// winner; between the two players of the session (the sender and the local
/// player, one of whom moved first) the local player wins. The session
/// records the resignation as its result.
pub proof fn law_resignation_goes_to_the_other_player(
    before: Map<(Seq<char>, Seq<char>), Session>,
    after: Map<(Seq<char>, Seq<char>), Session>,
    r: IncomingResult,
    session_id: Seq<char>,
    sender_hash: Seq<char>,
    identity_id: Seq<char>,
)
    requires
        resign_in_post(before, after, r, session_id, sender_hash, identity_id),
        before.contains_key((session_id, identity_id)),
        sender_hash != identity_id,
    ensures
        ({
            let first = text_at(before[(session_id, identity_id)].metadata@, META_FIRST_TURN@);
            let meta = after[(session_id, identity_id)].metadata@;
            &&& text_at(meta, META_WINNER@) != sender_hash
            &&& (first == sender_hash || first == identity_id) ==> text_at(meta, META_WINNER@)
                == identity_id
            &&& text_at(meta, META_TERMINAL@) == "resign"@
        }),
{
    lemma_keys_distinct();
}

/// The fields of the session that an incoming challenge creates.
pub open spec fn is_challenged_session(s: Session, session_id: Seq<char>, sender: Seq<char>, identity: Seq<char>) -> bool {
    &&& s.session_id@ == session_id
    &&& s.identity_id@ == identity
    &&& s.app_id@ == APP_ID@
    &&& s.app_version == 1
    &&& s.contact_hash@ == sender
    &&& s.initiator@ == sender
    &&& s.status@ == STATUS_PENDING@
    &&& s.metadata@ == default_meta("O"@, sender)
    &&& s.unread == 1
    &&& s.created_at == s.updated_at
    &&& s.updated_at == s.last_action_at
}

impl TicTacToeApp {
    /// A challenge from `sender_hash`: creates the local pending session.
    pub fn handle_challenge_in(
        &mut self,
        session_id: &str,
        payload: &StrMap,
        sender_hash: &str,
        identity_id: &str,
    ) -> (r: IncomingResult)
        ensures
            challenge_in_post(
                old(self).table(),
                final(self).table(),
                r,
                session_id@,
                payload@,
                sender_hash@,
                identity_id@,
            ),
    {
        proof {
            lemma_keys_distinct();
            lemma_empty_board();
        }
        let mut session = Session::new(session_id);
        session.identity_id = identity_id.to_owned();
        session.app_id = APP_ID.to_owned();
        session.app_version = 1;
        session.contact_hash = sender_hash.to_owned();
        session.initiator = sender_hash.to_owned();
        session.status = STATUS_PENDING.to_owned();
        session.metadata = default_metadata("O", sender_hash);
        session.unread = 1;
        let result_session = session.duplicate();
        self.save_session(session);
        IncomingResult {
            session: Some(result_session),
            emit: Some(emit_event(CMD_CHALLENGE, session_id, APP_ID, sender_hash)),
            error: None,
        }
    }

    /// The opponent accepted: the session becomes active with the board and
    /// turn of the payload.
    pub fn handle_accept_in(
        &mut self,
        session_id: &str,
        payload: &StrMap,
        sender_hash: &str,
        identity_id: &str,
    ) -> (r: IncomingResult)
        ensures
            accept_in_post(
                old(self).table(),
                final(self).table(),
                r,
                session_id@,
                payload@,
                sender_hash@,
                identity_id@,
            ),
    {
        let mut session = match self.get_session(session_id, identity_id) {
            Some(s) => s,
            None => {
                return error_result(ERR_PROTOCOL_ERROR, "Unknown session");
            },
        };
        let ghost key = (session_id@, identity_id@);
        proof {
            lemma_keys_distinct();
            lemma_empty_board();
        }
        match SessionStateMachine::apply_command(&mut session, CMD_ACCEPT, false) {
            Ok(_) => {},
            Err(e) => {
                return error_result(ERR_PROTOCOL_ERROR, e.message().as_str());
            },
        }
        let board = match opt_str(payload, PAYLOAD_BOARD) {
            Some(b) => b,
            None => EMPTY_BOARD,
        };
        let first_turn = meta_str(&session.metadata, META_FIRST_TURN);
        let turn = match opt_str(payload, PAYLOAD_TURN) {
            Some(t) => t,
            None => first_turn.as_str(),
        };
        session.metadata.insert(META_BOARD.to_owned(), MsgValue::from_str(board));
        session.metadata.insert(META_TURN.to_owned(), MsgValue::from_str(turn));
        session.unread = 1;
        let result_session = session.duplicate();
        self.save_session(session);
        IncomingResult {
            session: Some(result_session),
            emit: Some(emit_event(CMD_ACCEPT, session_id, APP_ID, sender_hash)),
            error: None,
        }
    }

    /// The opponent declined: the session is declined.
    pub fn handle_decline_in(&mut self, session_id: &str, sender_hash: &str, identity_id: &str) -> (r:
        IncomingResult)
        ensures
            decline_in_post(
                old(self).table(),
                final(self).table(),
                r,
                session_id@,
                sender_hash@,
                identity_id@,
            ),
    {
        let mut session = match self.get_session(session_id, identity_id) {
            Some(s) => s,
            None => {
                return error_result(ERR_PROTOCOL_ERROR, "Unknown session");
            },
        };
        let ghost key = (session_id@, identity_id@);
        match SessionStateMachine::apply_command(&mut session, CMD_DECLINE, false) {
            Ok(_) => {},
            Err(e) => {
                return error_result(ERR_PROTOCOL_ERROR, e.message().as_str());
            },
        }
        session.unread = 1;
        let result_session = session.duplicate();
        self.save_session(session);
        IncomingResult {
            session: Some(result_session),
            emit: Some(emit_event(CMD_DECLINE, session_id, APP_ID, sender_hash)),
            error: None,
        }
    }

    /// The opponent resigned: the session completes with the resignation.
    pub fn handle_resign_in(&mut self, session_id: &str, sender_hash: &str, identity_id: &str) -> (r:
        IncomingResult)
        ensures
            resign_in_post(
                old(self).table(),
                final(self).table(),
                r,
                session_id@,
                sender_hash@,
                identity_id@,
            ),
    {
        let mut session = match self.get_session(session_id, identity_id) {
            Some(s) => s,
            None => {
                return error_result(ERR_PROTOCOL_ERROR, "Unknown session");
            },
        };
        let ghost key = (session_id@, identity_id@);
        proof {
            lemma_keys_distinct();
        }
        let _ = SessionStateMachine::apply_command(&mut session, CMD_RESIGN, false);
        session.metadata.insert(META_TERMINAL.to_owned(), MsgValue::from_str("resign"));
        let first_turn = meta_str(&session.metadata, META_FIRST_TURN);
        let winner = if str_eq(sender_hash, first_turn.as_str()) {
            identity_id.to_owned()
        } else {
            first_turn
        };
        session.metadata.insert(META_WINNER.to_owned(), MsgValue::String(winner));
        session.unread = 1;
        let result_session = session.duplicate();
        self.save_session(session);
        IncomingResult {
            session: Some(result_session),
            emit: Some(emit_event(CMD_RESIGN, session_id, APP_ID, sender_hash)),
            error: None,
        }
    }

    /// The opponent offers a draw: the offer is recorded.
    pub fn handle_draw_offer_in(&mut self, session_id: &str, sender_hash: &str, identity_id: &str) -> (r:
        IncomingResult)
        ensures
            draw_offer_in_post(
                old(self).table(),
                final(self).table(),
                r,
                session_id@,
                sender_hash@,
                identity_id@,
            ),
    {
        let mut session = match self.get_session(session_id, identity_id) {
            Some(s) => s,
            None => {
                return error_result(ERR_PROTOCOL_ERROR, "Unknown session");
            },
        };
        let ghost key = (session_id@, identity_id@);
        proof {
            lemma_keys_distinct();
        }
        session.metadata.insert(META_DRAW_OFFERED.to_owned(), MsgValue::Boolean(true));
        session.unread = 1;
        let result_session = session.duplicate();
        self.save_session(session);
        IncomingResult {
            session: Some(result_session),
            emit: Some(emit_event(CMD_DRAW_OFFER, session_id, APP_ID, sender_hash)),
            error: None,
        }
    }

    /// The opponent accepts a draw: the session completes drawn.
    pub fn handle_draw_accept_in(&mut self, session_id: &str, sender_hash: &str, identity_id: &str) -> (r:
        IncomingResult)
        ensures
            draw_accept_in_post(
                old(self).table(),
                final(self).table(),
                r,
                session_id@,
                sender_hash@,
                identity_id@,
            ),
    {
        let mut session = match self.get_session(session_id, identity_id) {
            Some(s) => s,
            None => {
                return error_result(ERR_PROTOCOL_ERROR, "Unknown session");
            },
        };
        let ghost key = (session_id@, identity_id@);
        proof {
            lemma_keys_distinct();
        }
        let _ = SessionStateMachine::apply_command(&mut session, CMD_DRAW_ACCEPT, false);
        session.metadata.insert(META_TERMINAL.to_owned(), MsgValue::from_str("draw"));
        session.metadata.insert(META_DRAW_OFFERED.to_owned(), MsgValue::Boolean(false));
        session.unread = 1;
        let result_session = session.duplicate();
        self.save_session(session);
        IncomingResult {
            session: Some(result_session),
            emit: Some(emit_event(CMD_DRAW_ACCEPT, session_id, APP_ID, sender_hash)),
            error: None,
        }
    }

    /// The opponent declines a draw: the offer is withdrawn.
    pub fn handle_draw_decline_in(&mut self, session_id: &str, sender_hash: &str, identity_id: &str) -> (r:
        IncomingResult)
        ensures
            draw_decline_in_post(
                old(self).table(),
                final(self).table(),
                r,
                session_id@,
                sender_hash@,
                identity_id@,
            ),
    {
        let mut session = match self.get_session(session_id, identity_id) {
            Some(s) => s,
            None => {
                return error_result(ERR_PROTOCOL_ERROR, "Unknown session");
            },
        };
        let ghost key = (session_id@, identity_id@);
        proof {
            lemma_keys_distinct();
        }
        session.metadata.insert(META_DRAW_OFFERED.to_owned(), MsgValue::Boolean(false));
        session.unread = 1;
        let result_session = session.duplicate();
        self.save_session(session);
        IncomingResult {
            session: Some(result_session),
            emit: Some(emit_event(CMD_DRAW_DECLINE, session_id, APP_ID, sender_hash)),
            error: None,
        }
    }
}

/// Fills the buffer with bytes from `rand::thread_rng()` (`RngCore::fill_bytes`).
/// Nothing is promised of the bytes.
#[verifier::external_body]
fn fill_random(buf: &mut Vec<u8>)
    ensures
        final(buf)@.len() == old(buf)@.len(),
{
    rand::thread_rng().fill_bytes(buf.as_mut_slice());
}

/// A session id made by `gen_session_id`: eight bytes in hexadecimal.
pub open spec fn is_generated_session_id(g: Seq<char>) -> bool {
    exists|b: Seq<u8>| b.len() == 8 && g == hex_text(b)
}

/// A lowercase hexadecimal digit.
pub open spec fn is_hex_digit(c: char) -> bool {
    ('0' <= c && c <= '9') || ('a' <= c && c <= 'f')
}

/// The hexadecimal text of bytes has two lowercase hex digits per byte.
proof fn lemma_hex_text(b: Seq<u8>)
    ensures
        hex_text(b).len() == 2 * b.len(),
        forall|i: int| 0 <= i < hex_text(b).len() ==> is_hex_digit(#[trigger] hex_text(b)[i]),
    decreases b.len(),
{
    if b.len() > 0 {
        lemma_hex_text(b.drop_last());
        let h = hex_text(b.drop_last());
        let x = b.last() as nat;
        assert(x / 16 < 16 && x % 16 < 16);
        let t = seq![hex_digit(x / 16), hex_digit(x % 16)];
        assert forall|i: int| 0 <= i < hex_text(b).len() implies is_hex_digit(#[trigger] hex_text(b)[i]) by {
            if i >= h.len() {
                assert(hex_text(b)[i] == t[i - h.len()]);
            } else {
                assert(hex_text(b)[i] == h[i]);
            }
        }
    }
}

/// A generated session id is 16 lowercase hexadecimal characters.
pub proof fn law_generated_session_id_is_hex(g: Seq<char>)
    requires
        is_generated_session_id(g),
    ensures
        g.len() == 16,
        forall|i: int| 0 <= i < g.len() ==> is_hex_digit(#[trigger] g[i]),
{
    let b = choose|b: Seq<u8>| b.len() == 8 && g == hex_text(b);
    lemma_hex_text(b);
}

/// A fresh session id: eight random bytes in hexadecimal.
pub fn gen_session_id() -> (r: String)
    ensures
        is_generated_session_id(r@),
{
    let mut buf: Vec<u8> = vec![0u8, 0, 0, 0, 0, 0, 0, 0];
    fill_random(&mut buf);
    let r = hex_encode(&buf);
    r
}

/// The fields of the session that an outgoing challenge creates.
pub open spec fn is_challenger_session(s: Session, session_id: Seq<char>, identity: Seq<char>) -> bool {
    &&& s.session_id@ == session_id
    &&& s.identity_id@ == identity
    &&& s.app_id@ == APP_ID@
    &&& s.app_version == 1
    &&& s.contact_hash@ == Seq::<char>::empty()
    &&& s.initiator@ == identity
    &&& s.status@ == STATUS_PENDING@
    &&& s.metadata@ == default_meta("X"@, identity)
    &&& s.unread == 0
    &&& s.created_at == s.updated_at
    &&& s.updated_at == s.last_action_at
}

/// An outgoing result with an empty payload and this fallback text.
pub open spec fn is_plain_outgoing(r: OutgoingResult, text: Seq<char>) -> bool {
    r.payload@ == Map::<Seq<char>, ValueModel>::empty() && r.fallback_text@ == text
}

/// The first player that an outgoing accept names: the recorded first
/// player, or the initiator where none is recorded.
pub open spec fn accept_first(s: Session) -> Seq<char> {
    if text_at(s.metadata@, META_FIRST_TURN@).len() == 0 {
        s.initiator@
    } else {
        text_at(s.metadata@, META_FIRST_TURN@)
    }
}

impl TicTacToeApp {
    /// The local player challenges: creates the local pending session, under
    /// a fresh id where none is given.
    pub fn handle_challenge_out(&mut self, session_id: &str, identity_id: &str) -> (r:
        OutgoingResult)
        ensures
            challenge_out_post(
                old(self).table(),
                final(self).table(),
                r,
                session_id@,
                identity_id@,
            ),
    {
        proof {
            lemma_keys_distinct();
            lemma_empty_board();
        }
        let sid = if session_id.unicode_len() == 0 {
            gen_session_id()
        } else {
            session_id.to_owned()
        };
        let mut session = Session::new(sid.as_str());
        session.identity_id = identity_id.to_owned();
        session.app_id = APP_ID.to_owned();
        session.app_version = 1;
        session.initiator = identity_id.to_owned();
        session.status = STATUS_PENDING.to_owned();
        session.metadata = default_metadata("X", identity_id);
        self.save_session(session);
        OutgoingResult {
            payload: StrMap::new(),
            fallback_text: "[LRGP TTT] Sent a challenge!".to_owned(),
            session_id: sid,
        }
    }

    /// The local player accepts: the session becomes active with an empty
    /// board and the first player's turn, which the payload carries.
    pub fn handle_accept_out(&mut self, session_id: &str, identity_id: &str) -> (r: OutgoingResult)
        ensures
            accept_out_post(
                old(self).table(),
                final(self).table(),
                r,
                session_id@,
                identity_id@,
            ),
    {
        let mut session = match self.get_session(session_id, identity_id) {
            Some(s) => s,
            None => {
                return OutgoingResult {
                    session_id: session_id.to_owned(),
                    payload: StrMap::new(),
                    fallback_text: "[LRGP TTT] Challenge accepted".to_owned(),
                };
            },
        };
        let ghost key = (session_id@, identity_id@);
        proof {
            lemma_keys_distinct();
            lemma_empty_board();
        }
        let _ = SessionStateMachine::apply_command(&mut session, CMD_ACCEPT, false);
        let first_turn = meta_str(&session.metadata, META_FIRST_TURN);
        let first = if first_turn.unicode_len() == 0 {
            session.initiator.clone()
        } else {
            first_turn
        };
        session.metadata.insert(META_BOARD.to_owned(), MsgValue::from_str(EMPTY_BOARD));
        session.metadata.insert(META_TURN.to_owned(), MsgValue::String(first.clone()));
        self.save_session(session);
        let mut payload = StrMap::new();
        payload.insert(PAYLOAD_BOARD.to_owned(), MsgValue::from_str(EMPTY_BOARD));
        payload.insert(PAYLOAD_TURN.to_owned(), MsgValue::String(first));
        OutgoingResult {
            payload,
            fallback_text: "[LRGP TTT] Challenge accepted".to_owned(),
            session_id: session_id.to_owned(),
        }
    }

    /// The local player declines the challenge.
    pub fn handle_decline_out(&mut self, session_id: &str, identity_id: &str) -> (r: OutgoingResult)
        ensures
            decline_out_post(
                old(self).table(),
                final(self).table(),
                r,
                session_id@,
                identity_id@,
            ),
    {
        if let Some(mut session) = self.get_session(session_id, identity_id) {
            let _ = SessionStateMachine::apply_command(&mut session, CMD_DECLINE, false);
            self.save_session(session);
            proof {
                assert(self.table().dom() =~= old(self).table().dom().insert(
                    (session_id@, identity_id@),
                ));
            }
        }
        OutgoingResult {
            payload: StrMap::new(),
            fallback_text: "[LRGP TTT] Challenge declined".to_owned(),
            session_id: session_id.to_owned(),
        }
    }

    /// The local player resigns: the opponent is recorded as the winner.
    pub fn handle_resign_out(&mut self, session_id: &str, identity_id: &str) -> (r: OutgoingResult)
        ensures
            resign_out_post(
                old(self).table(),
                final(self).table(),
                r,
                session_id@,
                identity_id@,
            ),
    {
        proof {
            lemma_keys_distinct();
        }
        if let Some(mut session) = self.get_session(session_id, identity_id) {
            let _ = SessionStateMachine::apply_command(&mut session, CMD_RESIGN, false);
            session.metadata.insert(META_TERMINAL.to_owned(), MsgValue::from_str("resign"));
            let contact = session.contact_hash.clone();
            session.metadata.insert(META_WINNER.to_owned(), MsgValue::String(contact));
            self.save_session(session);
            proof {
                assert(self.table().dom() =~= old(self).table().dom().insert(
                    (session_id@, identity_id@),
                ));
            }
        }
        OutgoingResult {
            payload: StrMap::new(),
            fallback_text: "[LRGP TTT] Resigned.".to_owned(),
            session_id: session_id.to_owned(),
        }
    }

    /// The local player accepts a draw: the session completes drawn.
    pub fn handle_draw_accept_out(&mut self, session_id: &str, identity_id: &str) -> (r:
        OutgoingResult)
        ensures
            draw_accept_out_post(
                old(self).table(),
                final(self).table(),
                r,
                session_id@,
                identity_id@,
            ),
    {
        proof {
            lemma_keys_distinct();
        }
        if let Some(mut session) = self.get_session(session_id, identity_id) {
            let _ = SessionStateMachine::apply_command(&mut session, CMD_DRAW_ACCEPT, false);
            session.metadata.insert(META_TERMINAL.to_owned(), MsgValue::from_str("draw"));
            session.metadata.insert(META_DRAW_OFFERED.to_owned(), MsgValue::Boolean(false));
            self.save_session(session);
            proof {
                assert(self.table().dom() =~= old(self).table().dom().insert(
                    (session_id@, identity_id@),
                ));
            }
        }
        OutgoingResult {
            payload: StrMap::new(),
            fallback_text: "[LRGP TTT] Draw accepted".to_owned(),
            session_id: session_id.to_owned(),
        }
    }
}

/// The time-to-live the game gives sessions: a day, pending or active.
pub open spec fn ttt_ttl() -> SessionTtl {
    SessionTtl { pending: Some(86_400_000), active: Some(86_400_000) }
}

/// What `validate_action_at` does at time `now`.
pub open spec fn validate_at_post(
    before: Map<(Seq<char>, Seq<char>), Session>,
    after: Map<(Seq<char>, Seq<char>), Session>,
    r: (bool, Option<String>),
    session_id: Seq<char>,
    command: Seq<char>,
    payload: Map<Seq<char>, ValueModel>,
    sender_hash: Seq<char>,
    now: i64,
) -> bool {
    let key = (session_id, Seq::<char>::empty());
    if !before.contains_key(key) {
        &&& after == before
        &&& command == CMD_CHALLENGE@ ==> r.0 && r.1 is None
        &&& command != CMD_CHALLENGE@ ==> !r.0 && (r.1 matches Some(m) && m@
            == "Session not found"@)
    } else {
        let s = before[key];
        if is_expired_at(s.status@, s.last_action_at as int, Some(ttt_ttl()), now as int) {
            let s2 = after[key];
            &&& changed_at_most(before, after, key)
            &&& s2.status@ == STATUS_EXPIRED@
            &&& s2.same_except_status_and_times(s)
            &&& s2.created_at == s.created_at
            &&& s2.last_action_at == s.last_action_at
            &&& s2.updated_at == now
            &&& !r.0
            &&& r.1 matches Some(m) && m@ == "Session expired"@
        } else {
            &&& after == before
            &&& command == CMD_MOVE@ ==> {
                &&& r.0 <==> move_refusal(s.status@, s.metadata@, payload, sender_hash) is None
                &&& r.0 ==> r.1 is None
                &&& !r.0 ==> (r.1 matches Some(m) && m@ == move_refusal(
                    s.status@,
                    s.metadata@,
                    payload,
                    sender_hash,
                ).unwrap())
            }
            &&& command != CMD_MOVE@ ==> r.0 && r.1 is None
        }
    }
}

impl TicTacToeApp {
    /// Validate an action at time `now`: the session (looked up for the empty
    /// identity) must exist unless the action is a challenge, must not have
    /// expired (it is then marked expired), and a move must be valid.
    pub fn validate_action_at(
        &mut self,
        session_id: &str,
        command: &str,
        payload: &StrMap,
        sender_hash: &str,
        now: i64,
    ) -> (r: (bool, Option<String>))
        requires
            command@ == CMD_MOVE@ && old(self).table().contains_key((session_id@, Seq::<char>::empty()))
                && !is_expired_at(
                old(self).table()[(session_id@, Seq::<char>::empty())].status@,
                old(self).table()[(session_id@, Seq::<char>::empty())].last_action_at as int,
                Some(ttt_ttl()),
                now as int,
            ) ==> move_in_ok(old(self).table(), session_id@, Seq::<char>::empty(), payload@, sender_hash@),
        ensures
            validate_at_post(
                old(self).table(),
                final(self).table(),
                r,
                session_id@,
                command@,
                payload@,
                sender_hash@,
                now,
            ),
    {
        proof {
            reveal_strlit("");
            assert(""@ =~= Seq::<char>::empty());
        }
        let mut session = match self.get_session(session_id, "") {
            Some(s) => s,
            None => {
                return if str_eq(command, CMD_CHALLENGE) {
                    (true, None)
                } else {
                    (false, Some("Session not found".to_owned()))
                };
            },
        };
        let ghost key = (session_id@, Seq::<char>::empty());
        let ttl = SessionTtl { pending: Some(86_400_000), active: Some(86_400_000) };
        if SessionStateMachine::check_expiry_at(&mut session, Some(&ttl), now) {
            self.save_session(session);
            return (false, Some("Session expired".to_owned()));
        }
        if str_eq(command, CMD_MOVE) {
            return self.validate_move(&session, payload, sender_hash);
        }
        (true, None)
    }

    /// The incoming actions the game handles: all but a move it cannot check.
    pub open spec fn ttt_incoming_ok(
        &self,
        session_id: Seq<char>,
        command: Seq<char>,
        payload: Map<Seq<char>, ValueModel>,
        sender_hash: Seq<char>,
        identity_id: Seq<char>,
    ) -> bool {
        command == CMD_MOVE@ ==> move_in_ok(self.table(), session_id, identity_id, payload, sender_hash)
    }

    /// The outgoing actions the game handles: all but a move it cannot make.
    pub open spec fn ttt_outgoing_ok(&self, session_id: Seq<char>, command: Seq<char>, identity_id: Seq<char>) -> bool {
        command == CMD_MOVE@ ==> move_out_ok(self.table(), session_id, identity_id)
    }

    /// Whether the stored session leaves room for one more move of the
    /// local player.
    fn room_for_move(&self, session_id: &str, identity_id: &str) -> (r: bool)
        ensures
            r == move_out_ok(self.table(), session_id@, identity_id@),
    {
        match self.get_session(session_id, identity_id) {
            Some(s) => meta_i64(&s.metadata, META_MOVE_COUNT) < 9223372036854775807i64 && meta_str(
                &s.metadata,
                META_BOARD,
            ).unicode_len() >= 9,
            None => true,
        }
    }

    /// Whether a move received on the stored session can be checked.
    fn move_checkable(&self, session_id: &str, identity_id: &str, payload: &StrMap, sender_hash: &str) -> (r:
        bool)
        ensures
            r == move_in_ok(self.table(), session_id@, identity_id@, payload@, sender_hash@),
    {
        match self.get_session(session_id, identity_id) {
            Some(s) => meta_i64(&s.metadata, META_MOVE_COUNT) < 9223372036854775807i64 && Self::move_is_safe(
                &s,
                payload,
                sender_hash,
            ),
            None => true,
        }
    }
}

/// What `handle_incoming` does with each command, from the table `before`
/// to the table `after`.
pub open spec fn incoming_post(
    before: Map<(Seq<char>, Seq<char>), Session>,
    after: Map<(Seq<char>, Seq<char>), Session>,
    r: IncomingResult,
    session_id: Seq<char>,
    command: Seq<char>,
    payload: Map<Seq<char>, ValueModel>,
    sender_hash: Seq<char>,
    identity_id: Seq<char>,
) -> bool {
    if command == CMD_CHALLENGE@ {
        challenge_in_post(before, after, r, session_id, payload, sender_hash, identity_id)
    } else if command == CMD_ACCEPT@ {
        accept_in_post(before, after, r, session_id, payload, sender_hash, identity_id)
    } else if command == CMD_DECLINE@ {
        decline_in_post(before, after, r, session_id, sender_hash, identity_id)
    } else if command == CMD_MOVE@ {
        move_in_post(before, after, r, session_id, payload, sender_hash, identity_id)
    } else if command == CMD_RESIGN@ {
        resign_in_post(before, after, r, session_id, sender_hash, identity_id)
    } else if command == CMD_DRAW_OFFER@ {
        draw_offer_in_post(before, after, r, session_id, sender_hash, identity_id)
    } else if command == CMD_DRAW_ACCEPT@ {
        draw_accept_in_post(before, after, r, session_id, sender_hash, identity_id)
    } else if command == CMD_DRAW_DECLINE@ {
        draw_decline_in_post(before, after, r, session_id, sender_hash, identity_id)
    } else if command == CMD_ERROR@ {
        &&& after == before
        &&& r.session is None
        &&& r.emit is None
        &&& r.error matches Some(e) && e@ == payload
    } else {
        &&& after == before
        &&& is_error_result(r, ERR_PROTOCOL_ERROR@, "Unknown command: "@ + command)
    }
}

/// What `handle_outgoing` does with each command, from the table `before`
/// to the table `after`.
pub open spec fn outgoing_post(
    before: Map<(Seq<char>, Seq<char>), Session>,
    after: Map<(Seq<char>, Seq<char>), Session>,
    r: OutgoingResult,
    session_id: Seq<char>,
    command: Seq<char>,
    payload: Map<Seq<char>, ValueModel>,
    identity_id: Seq<char>,
) -> bool {
    if command == CMD_CHALLENGE@ {
        challenge_out_post(before, after, r, session_id, identity_id)
    } else if command == CMD_ACCEPT@ {
        accept_out_post(before, after, r, session_id, identity_id)
    } else if command == CMD_DECLINE@ {
        decline_out_post(before, after, r, session_id, identity_id)
    } else if command == CMD_MOVE@ {
        move_out_post(before, after, r, session_id, payload, identity_id)
    } else if command == CMD_RESIGN@ {
        resign_out_post(before, after, r, session_id, identity_id)
    } else if command == CMD_DRAW_OFFER@ {
        &&& after == before
        &&& is_plain_outgoing(r, "[LRGP TTT] Offered a draw"@)
        &&& r.session_id@ == session_id
    } else if command == CMD_DRAW_ACCEPT@ {
        draw_accept_out_post(before, after, r, session_id, identity_id)
    } else if command == CMD_DRAW_DECLINE@ {
        &&& after == before
        &&& is_plain_outgoing(r, "[LRGP TTT] Declined draw offer"@)
        &&& r.session_id@ == session_id
    } else {
        &&& after == before
        &&& r.payload@ == payload
        &&& r.fallback_text@ == "[LRGP TTT] "@ + command
        &&& r.session_id@ == session_id
    }
}

/// The delivery a command prefers: `direct` for a resignation and for the
/// answers to a draw offer, `opportunistic` for the rest.
pub open spec fn delivery_of(command: Seq<char>) -> Seq<char> {
    if command == CMD_RESIGN@ || command == CMD_DRAW_ACCEPT@ || command == CMD_DRAW_DECLINE@ {
        "direct"@
    } else {
        "opportunistic"@
    }
}

/// The actions of the game, in the order of its manifest.
pub open spec fn ttt_actions() -> Seq<Seq<char>> {
    seq![
        CMD_CHALLENGE@,
        CMD_ACCEPT@,
        CMD_DECLINE@,
        CMD_MOVE@,
        CMD_RESIGN@,
        CMD_DRAW_OFFER@,
        CMD_DRAW_ACCEPT@,
        CMD_DRAW_DECLINE@,
    ]
}

/// The game's manifest.
pub open spec fn is_ttt_manifest(m: GameManifest) -> bool {
    &&& m.app_id@ == APP_ID@
    &&& m.version == 1
    &&& m.display_name@ == "Tic-Tac-Toe"@
    &&& m.icon@ == APP_ID@
    &&& m.session_type@ == SESSION_TURN_BASED@
    &&& m.max_players == 2
    &&& m.min_players == 2
    &&& m.validation@ == VALIDATION_BOTH@
    &&& m.actions@.map_values(|a: String| a@) == ttt_actions()
    &&& m.preferred_delivery@.map_values(|p: (String, String)| (p.0@, p.1@)) == ttt_actions().map_values(
        |c: Seq<char>| (c, delivery_of(c)),
    )
    &&& m.ttl == ttt_ttl()
    &&& m.genre matches Some(g) && g@ == "strategy"@
    &&& m.turn_timeout is None
}

/// The delivery a command prefers.
pub fn delivery_method(command: &str) -> (r: String)
    ensures
        r@ == delivery_of(command@),
{
    if str_eq(command, CMD_RESIGN) || str_eq(command, CMD_DRAW_ACCEPT) || str_eq(command, CMD_DRAW_DECLINE) {
        "direct".to_owned()
    } else {
        "opportunistic".to_owned()
    }
}

/// Push an action and the delivery it prefers.
fn push_action(actions: &mut Vec<String>, delivery: &mut Vec<(String, String)>, command: &str)
    ensures
        final(actions)@.map_values(|a: String| a@) == old(actions)@.map_values(|a: String| a@).push(
            command@,
        ),
        final(delivery)@.map_values(|p: (String, String)| (p.0@, p.1@)) == old(delivery)@.map_values(
            |p: (String, String)| (p.0@, p.1@),
        ).push((command@, delivery_of(command@))),
{
    let ghost d0 = delivery@;
    actions.push(command.to_owned());
    delivery.push((command.to_owned(), delivery_method(command)));
    proof {
        assert(delivery@.map_values(|p: (String, String)| (p.0@, p.1@)) =~= d0.map_values(
            |p: (String, String)| (p.0@, p.1@),
        ).push((command@, delivery_of(command@))));
    }
}

/// The game's manifest.
pub fn ttt_manifest() -> (r: GameManifest)
    ensures
        is_ttt_manifest(r),
{
    let mut actions: Vec<String> = Vec::new();
    let mut delivery: Vec<(String, String)> = Vec::new();
    proof {
        assert(delivery@.map_values(|p: (String, String)| (p.0@, p.1@)) =~= Seq::<
            (Seq<char>, Seq<char>),
        >::empty());
    }
    push_action(&mut actions, &mut delivery, CMD_CHALLENGE);
    push_action(&mut actions, &mut delivery, CMD_ACCEPT);
    push_action(&mut actions, &mut delivery, CMD_DECLINE);
    push_action(&mut actions, &mut delivery, CMD_MOVE);
    push_action(&mut actions, &mut delivery, CMD_RESIGN);
    push_action(&mut actions, &mut delivery, CMD_DRAW_OFFER);
    push_action(&mut actions, &mut delivery, CMD_DRAW_ACCEPT);
    push_action(&mut actions, &mut delivery, CMD_DRAW_DECLINE);
    proof {
        assert(actions@.map_values(|a: String| a@) =~= ttt_actions());
        assert(delivery@.map_values(|p: (String, String)| (p.0@, p.1@)) =~= ttt_actions().map_values(
            |c: Seq<char>| (c, delivery_of(c)),
        ));
    }
    GameManifest {
        app_id: APP_ID.to_owned(),
        version: 1,
        display_name: "Tic-Tac-Toe".to_owned(),
        icon: APP_ID.to_owned(),
        session_type: SESSION_TURN_BASED.to_owned(),
        max_players: 2,
        min_players: 2,
        validation: VALIDATION_BOTH.to_owned(),
        actions,
        preferred_delivery: delivery,
        ttl: SessionTtl { pending: Some(86_400_000), active: Some(86_400_000) },
        genre: Some("strategy".to_owned()),
        turn_timeout: None,
    }
}

impl Default for TicTacToeApp {
    fn default() -> (r: Self)
        ensures
            r.table() == Map::<(Seq<char>, Seq<char>), Session>::empty(),
    {
        Self::new()
    }
}

impl GameApp for TicTacToeApp {
    open spec fn app_wf(&self) -> bool {
        true
    }

    open spec fn spec_app_id(&self) -> Seq<char> {
        APP_ID@
    }

    open spec fn incoming_ok(
        &self,
        session_id: Seq<char>,
        command: Seq<char>,
        payload: Map<Seq<char>, ValueModel>,
        sender_hash: Seq<char>,
        identity_id: Seq<char>,
    ) -> bool {
        self.ttt_incoming_ok(session_id, command, payload, sender_hash, identity_id)
    }

    open spec fn outgoing_ok(
        &self,
        session_id: Seq<char>,
        command: Seq<char>,
        payload: Map<Seq<char>, ValueModel>,
        identity_id: Seq<char>,
    ) -> bool {
        self.ttt_outgoing_ok(session_id, command, identity_id)
    }

    open spec fn validate_ok(
        &self,
        session_id: Seq<char>,
        command: Seq<char>,
        payload: Map<Seq<char>, ValueModel>,
        sender_hash: Seq<char>,
    ) -> bool {
        command == CMD_MOVE@ ==> move_in_ok(self.table(), session_id, Seq::<char>::empty(), payload, sender_hash)
    }

    open spec fn manifest_ok(&self, m: GameManifest) -> bool {
        is_ttt_manifest(m)
    }

    open spec fn handled_incoming(
        &self,
        after: &Self,
        session_id: Seq<char>,
        command: Seq<char>,
        payload: Map<Seq<char>, ValueModel>,
        sender_hash: Seq<char>,
        identity_id: Seq<char>,
        r: IncomingResult,
    ) -> bool {
        incoming_post(self.table(), after.table(), r, session_id, command, payload, sender_hash, identity_id)
    }

    open spec fn handled_outgoing(
        &self,
        after: &Self,
        session_id: Seq<char>,
        command: Seq<char>,
        payload: Map<Seq<char>, ValueModel>,
        identity_id: Seq<char>,
        r: OutgoingResult,
    ) -> bool {
        outgoing_post(self.table(), after.table(), r, session_id, command, payload, identity_id)
    }

    open spec fn validated(
        &self,
        after: &Self,
        session_id: Seq<char>,
        command: Seq<char>,
        payload: Map<Seq<char>, ValueModel>,
        sender_hash: Seq<char>,
        r: (bool, Option<String>),
    ) -> bool {
        exists|now: i64|
            #[trigger] validate_at_post(
                self.table(),
                after.table(),
                r,
                session_id,
                command,
                payload,
                sender_hash,
                now,
            )
    }

    fn app_id(&self) -> (r: &str) {
        APP_ID
    }

    fn version(&self) -> (r: u32)
        ensures
            r == 1,
    {
        1
    }

    fn manifest(&self) -> (r: GameManifest) {
        ttt_manifest()
    }

    fn can_handle_incoming(
        &self,
        session_id: &str,
        command: &str,
        payload: &StrMap,
        sender_hash: &str,
        identity_id: &str,
    ) -> (r: bool) {
        !str_eq(command, CMD_MOVE) || self.move_checkable(session_id, identity_id, payload, sender_hash)
    }

    /// Process an incoming action: the handler of its command, the payload
    /// itself as the error of an `error`, and a protocol error for any other
    /// command.
    fn handle_incoming(
        &mut self,
        session_id: &str,
        command: &str,
        payload: &StrMap,
        sender_hash: &str,
        identity_id: &str,
    ) -> (r: IncomingResult) {
        if str_eq(command, CMD_CHALLENGE) {
            self.handle_challenge_in(session_id, payload, sender_hash, identity_id)
        } else if str_eq(command, CMD_ACCEPT) {
            self.handle_accept_in(session_id, payload, sender_hash, identity_id)
        } else if str_eq(command, CMD_DECLINE) {
            self.handle_decline_in(session_id, sender_hash, identity_id)
        } else if str_eq(command, CMD_MOVE) {
            self.handle_move_in(session_id, payload, sender_hash, identity_id)
        } else if str_eq(command, CMD_RESIGN) {
            self.handle_resign_in(session_id, sender_hash, identity_id)
        } else if str_eq(command, CMD_DRAW_OFFER) {
            self.handle_draw_offer_in(session_id, sender_hash, identity_id)
        } else if str_eq(command, CMD_DRAW_ACCEPT) {
            self.handle_draw_accept_in(session_id, sender_hash, identity_id)
        } else if str_eq(command, CMD_DRAW_DECLINE) {
            self.handle_draw_decline_in(session_id, sender_hash, identity_id)
        } else if str_eq(command, CMD_ERROR) {
            IncomingResult { session: None, emit: None, error: Some(payload.duplicate()) }
        } else {
            let msg = concat("Unknown command: ", command);
            error_result(ERR_PROTOCOL_ERROR, msg.as_str())
        }
    }

    fn can_handle_outgoing(&self, session_id: &str, command: &str, payload: &StrMap, identity_id: &str) -> (r: bool) {
        !str_eq(command, CMD_MOVE) || self.room_for_move(session_id, identity_id)
    }

    /// Prepare an outgoing action: the handler of its command; a draw offer
    /// or a declined offer sends an empty payload, any other command its
    /// payload as it is.
    fn handle_outgoing(
        &mut self,
        session_id: &str,
        command: &str,
        payload: &StrMap,
        identity_id: &str,
    ) -> (r: OutgoingResult) {
        if str_eq(command, CMD_CHALLENGE) {
            self.handle_challenge_out(session_id, identity_id)
        } else if str_eq(command, CMD_ACCEPT) {
            self.handle_accept_out(session_id, identity_id)
        } else if str_eq(command, CMD_DECLINE) {
            self.handle_decline_out(session_id, identity_id)
        } else if str_eq(command, CMD_MOVE) {
            self.handle_move_out(session_id, payload, identity_id)
        } else if str_eq(command, CMD_RESIGN) {
            self.handle_resign_out(session_id, identity_id)
        } else if str_eq(command, CMD_DRAW_OFFER) {
            OutgoingResult {
            payload: StrMap::new(),
            fallback_text: "[LRGP TTT] Offered a draw".to_owned(),
            session_id: session_id.to_owned(),
        }
        } else if str_eq(command, CMD_DRAW_ACCEPT) {
            self.handle_draw_accept_out(session_id, identity_id)
        } else if str_eq(command, CMD_DRAW_DECLINE) {
            OutgoingResult {
                payload: StrMap::new(),
                fallback_text: "[LRGP TTT] Declined draw offer".to_owned(),
                session_id: session_id.to_owned(),
            }
        } else {
            OutgoingResult {
                payload: payload.duplicate(),
                fallback_text: concat("[LRGP TTT] ", command),
                session_id: session_id.to_owned(),
            }
        }
    }

    fn can_validate_action(&self, session_id: &str, command: &str, payload: &StrMap, sender_hash: &str) -> (r: bool) {
        proof {
            reveal_strlit("");
            assert(""@ =~= Seq::<char>::empty());
        }
        !str_eq(command, CMD_MOVE) || self.move_checkable(session_id, "", payload, sender_hash)
    }

    /// Validate an action now, by the system clock.
    fn validate_action(
        &mut self,
        session_id: &str,
        command: &str,
        payload: &StrMap,
        sender_hash: &str,
    ) -> (r: (bool, Option<String>)) {
        let now = now_millis();
        self.validate_action_at(session_id, command, payload, sender_hash, now)
    }

    /// The session stored for this session id and local identity.
    fn get_session_state(&self, session_id: &str, identity_id: &str) -> (r: Option<Session>)
        ensures
            r is Some <==> self.table().contains_key((session_id@, identity_id@)),
            r matches Some(s) ==> s.same_as(self.table()[(session_id@, identity_id@)]),
    {
        self.get_session(session_id, identity_id)
    }

    fn render_fallback(&self, command: &str, payload: &StrMap) -> (r: String)
        ensures
            r@ == fallback_text(command@, payload@),
    {
        render_fallback_text(command, payload)
    }

    fn get_delivery_method(&self, command: &str) -> (r: String)
        ensures
            r@ == delivery_of(command@),
    {
        delivery_method(command)
    }
}

/// The text starts with the game's fallback prefix `[LRGP TTT] `.
pub open spec fn has_ttt_prefix(t: Seq<char>) -> bool {
    t.len() >= 11 && t.subrange(0, 11) == "[LRGP TTT] "@
}

/// Every fallback text the game sends with an outgoing action starts with
/// `[LRGP TTT] `.
pub proof fn law_outgoing_fallback_prefix(
    before: Map<(Seq<char>, Seq<char>), Session>,
    after: Map<(Seq<char>, Seq<char>), Session>,
    r: OutgoingResult,
    session_id: Seq<char>,
    command: Seq<char>,
    payload: Map<Seq<char>, ValueModel>,
    identity_id: Seq<char>,
)
    requires
        outgoing_post(before, after, r, session_id, command, payload, identity_id),
    ensures
        has_ttt_prefix(r.fallback_text@),
{
    reveal_strlit("[LRGP TTT] ");
    reveal_strlit("[LRGP TTT] Sent a challenge!");
    reveal_strlit("[LRGP TTT] Challenge accepted");
    reveal_strlit("[LRGP TTT] Challenge declined");
    reveal_strlit("[LRGP TTT] X wins!");
    reveal_strlit("[LRGP TTT] O wins!");
    reveal_strlit("[LRGP TTT] Game drawn!");
    reveal_strlit("[LRGP TTT] Move ");
    reveal_strlit("[LRGP TTT] Move ?");
    reveal_strlit("[LRGP TTT] Resigned.");
    reveal_strlit("[LRGP TTT] Offered a draw");
    reveal_strlit("[LRGP TTT] Declined draw offer");
    reveal_strlit("[LRGP TTT] Draw accepted");
    assert("[LRGP TTT] Sent a challenge!"@.subrange(0, 11) =~= "[LRGP TTT] "@);
    assert("[LRGP TTT] Challenge accepted"@.subrange(0, 11) =~= "[LRGP TTT] "@);
    assert("[LRGP TTT] Challenge declined"@.subrange(0, 11) =~= "[LRGP TTT] "@);
    assert("[LRGP TTT] X wins!"@.subrange(0, 11) =~= "[LRGP TTT] "@);
    assert("[LRGP TTT] O wins!"@.subrange(0, 11) =~= "[LRGP TTT] "@);
    assert("[LRGP TTT] Game drawn!"@.subrange(0, 11) =~= "[LRGP TTT] "@);
    assert("[LRGP TTT] Move "@.subrange(0, 11) =~= "[LRGP TTT] "@);
    assert("[LRGP TTT] Move ?"@.subrange(0, 11) =~= "[LRGP TTT] "@);
    assert("[LRGP TTT] Resigned."@.subrange(0, 11) =~= "[LRGP TTT] "@);
    assert("[LRGP TTT] Offered a draw"@.subrange(0, 11) =~= "[LRGP TTT] "@);
    assert("[LRGP TTT] Declined draw offer"@.subrange(0, 11) =~= "[LRGP TTT] "@);
    assert("[LRGP TTT] Draw accepted"@.subrange(0, 11) =~= "[LRGP TTT] "@);
    let t = r.fallback_text@;
    let prefix = "[LRGP TTT] "@;
    assert forall|x: Seq<char>| #[trigger] (prefix + x).subrange(0, 11) == prefix by {
        assert((prefix + x).subrange(0, 11) =~= prefix);
    }
    assert forall|x: Seq<char>| #[trigger] ("[LRGP TTT] Move "@ + x).subrange(0, 11) == prefix by {
        assert(("[LRGP TTT] Move "@ + x).subrange(0, 11) =~= prefix);
    }
}

} // verus!
