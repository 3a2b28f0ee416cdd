use vstd::prelude::*;

verus! {

/// LXMF field IDs.
pub const FIELD_CUSTOM_TYPE: u8 = 0xFB;

pub const FIELD_CUSTOM_META: u8 = 0xFD;

pub const FIELD_FILE_ATTACHMENTS: u8 = 0x05;

/// Protocol marker stored in FIELD_CUSTOM_TYPE.
pub const PROTOCOL_TYPE: &'static str = "lrgp.v1";

/// Legacy markers recognized on inbound messages.
pub const LEGACY_TYPE_RLAP: &'static str = "rlap.v1";

pub const LEGACY_TYPE_RATSPEAK: &'static str = "ratspeak.game";

pub const LEGACY_TYPES: [&'static str; 2] = [LEGACY_TYPE_RLAP, LEGACY_TYPE_RATSPEAK];

/// Size limits (bytes).
pub const ENVELOPE_MAX_PACKED: usize = 200;

pub const OPPORTUNISTIC_MAX_CONTENT: usize = 295;

pub const LINK_PACKET_MAX_CONTENT: usize = 319;

/// 16B dest + 16B src + 64B sig + 8B ts + 8B structure.
pub const LXMF_OVERHEAD: usize = 112;

/// Session statuses.
pub const STATUS_PENDING: &'static str = "pending";

pub const STATUS_ACTIVE: &'static str = "active";

pub const STATUS_COMPLETED: &'static str = "completed";

pub const STATUS_EXPIRED: &'static str = "expired";

pub const STATUS_DECLINED: &'static str = "declined";

/// Game session types.
pub const SESSION_TURN_BASED: &'static str = "turn_based";

pub const SESSION_REAL_TIME: &'static str = "real_time";

pub const SESSION_ROUND_BASED: &'static str = "round_based";

pub const SESSION_SINGLE_ROUND: &'static str = "single_round";

/// Validation models.
pub const VALIDATION_SENDER: &'static str = "sender";

pub const VALIDATION_RECEIVER: &'static str = "receiver";

pub const VALIDATION_BOTH: &'static str = "both";

/// Standard commands.
pub const CMD_CHALLENGE: &'static str = "challenge";

pub const CMD_ACCEPT: &'static str = "accept";

pub const CMD_DECLINE: &'static str = "decline";

pub const CMD_MOVE: &'static str = "move";

pub const CMD_RESIGN: &'static str = "resign";

pub const CMD_DRAW_OFFER: &'static str = "draw_offer";

pub const CMD_DRAW_ACCEPT: &'static str = "draw_accept";

pub const CMD_DRAW_DECLINE: &'static str = "draw_decline";

pub const CMD_ERROR: &'static str = "error";

/// Standard error codes.
pub const ERR_UNSUPPORTED_APP: &'static str = "unsupported_app";

pub const ERR_INVALID_MOVE: &'static str = "invalid_move";

pub const ERR_NOT_YOUR_TURN: &'static str = "not_your_turn";

pub const ERR_SESSION_EXPIRED: &'static str = "session_expired";

pub const ERR_PROTOCOL_ERROR: &'static str = "protocol_error";

/// Session TTL defaults, in milliseconds.
pub const TTL_PENDING: i64 = 86_400_000;

/// Seven days.
pub const TTL_ACTIVE: i64 = 604_800_000;

/// One hour of tolerance for clock skew between peers.
pub const TTL_GRACE_PERIOD: i64 = 3_600_000;

/// Envelope keys (single-char for wire efficiency).
pub const KEY_APP: &'static str = "a";

pub const KEY_COMMAND: &'static str = "c";

pub const KEY_SESSION: &'static str = "s";

pub const KEY_PAYLOAD: &'static str = "p";

/// Error payload keys.
pub const KEY_ERR_CODE: &'static str = "code";

pub const KEY_ERR_MSG: &'static str = "msg";

pub const KEY_ERR_REF: &'static str = "ref";

/// The four envelope keys are the single characters `a`, `c`, `s`, `p`.
pub proof fn lemma_envelope_keys()
    ensures
        KEY_APP@ == seq!['a'],
        KEY_COMMAND@ == seq!['c'],
        KEY_SESSION@ == seq!['s'],
        KEY_PAYLOAD@ == seq!['p'],
{
    reveal_strlit("a");
    reveal_strlit("c");
    reveal_strlit("s");
    reveal_strlit("p");
}

/// The five session statuses are different words.
pub proof fn lemma_statuses_distinct()
    ensures
        STATUS_PENDING@ != STATUS_ACTIVE@,
        STATUS_PENDING@ != STATUS_COMPLETED@,
        STATUS_PENDING@ != STATUS_EXPIRED@,
        STATUS_PENDING@ != STATUS_DECLINED@,
        STATUS_ACTIVE@ != STATUS_COMPLETED@,
        STATUS_ACTIVE@ != STATUS_EXPIRED@,
        STATUS_ACTIVE@ != STATUS_DECLINED@,
        STATUS_COMPLETED@ != STATUS_EXPIRED@,
        STATUS_COMPLETED@ != STATUS_DECLINED@,
        STATUS_EXPIRED@ != STATUS_DECLINED@,
{
    reveal_strlit("pending");
    reveal_strlit("active");
    reveal_strlit("completed");
    reveal_strlit("expired");
    reveal_strlit("declined");
    assert(STATUS_COMPLETED@.len() == 9);
    assert(STATUS_DECLINED@.len() == 8);
    assert(STATUS_PENDING@[0] != STATUS_EXPIRED@[0]);
}

/// The commands are different words: their lengths tell all of them apart
/// but `accept` and `resign`, which differ in their first letter.
pub proof fn lemma_commands_distinct()
    ensures
        CMD_CHALLENGE@.len() == 9,
        CMD_ACCEPT@.len() == 6,
        CMD_DECLINE@.len() == 7,
        CMD_MOVE@.len() == 4,
        CMD_RESIGN@.len() == 6,
        CMD_DRAW_OFFER@.len() == 10,
        CMD_DRAW_ACCEPT@.len() == 11,
        CMD_DRAW_DECLINE@.len() == 12,
        CMD_ERROR@.len() == 5,
        CMD_ACCEPT@ != CMD_RESIGN@,
{
    reveal_strlit("challenge");
    reveal_strlit("accept");
    reveal_strlit("decline");
    reveal_strlit("move");
    reveal_strlit("resign");
    reveal_strlit("draw_offer");
    reveal_strlit("draw_accept");
    reveal_strlit("draw_decline");
    reveal_strlit("error");
    assert(CMD_ACCEPT@[0] != CMD_RESIGN@[0]);
}

} // verus!
