use vstd::prelude::*;

use crate::errors::LrgpError;
use crate::text::{concat, decimal, str_eq, u64_to_decimal};

verus! {

/// Columns a session update may set (nothing else reaches the SQL text).
pub const ALLOWED_COLUMNS: [&'static str; 7] = [
    "status",
    "metadata",
    "unread",
    "updated_at",
    "last_action_at",
    "contact_hash",
    "initiator",
];

/// The columns a session update may set.
pub open spec fn allowed_column(c: Seq<char>) -> bool {
    ||| c == "status"@
    ||| c == "metadata"@
    ||| c == "unread"@
    ||| c == "updated_at"@
    ||| c == "last_action_at"@
    ||| c == "contact_hash"@
    ||| c == "initiator"@
}

/// Whether a session update may set this column.
pub fn is_allowed_column(column: &str) -> (r: bool)
    ensures
        r == allowed_column(column@),
{
    let mut i: usize = 0;
    while i < 7
        invariant
            i <= 7,
            forall|j: int| 0 <= j < i ==> column@ != (#[trigger] ALLOWED_COLUMNS@[j])@,
        decreases 7 - i,
    {
        if str_eq(column, ALLOWED_COLUMNS[i]) {
            return true;
        }
        i = i + 1;
    }
    false
}

/// The first key of the updates that is not an allowed column.
pub open spec fn first_disallowed(keys: Seq<Seq<char>>) -> Option<Seq<char>>
    decreases keys.len(),
{
    if keys.len() == 0 {
        None
    } else if !allowed_column(keys[0]) {
        Some(keys[0])
    } else {
        first_disallowed(keys.drop_first())
    }
}

/// An update that passes the allowlist check sets allowed columns only:
/// no other text reaches the SET clause.
pub proof fn law_validated_columns_allowed(keys: Seq<Seq<char>>)
    requires
        first_disallowed(keys) is None,
    ensures
        forall|i: int| 0 <= i < keys.len() ==> allowed_column(#[trigger] keys[i]),
    decreases keys.len(),
{
    if keys.len() > 0 {
        law_validated_columns_allowed(keys.drop_first());
        assert forall|i: int| 0 <= i < keys.len() implies allowed_column(#[trigger] keys[i]) by {
            if i > 0 {
                assert(keys[i] == keys.drop_first()[i - 1]);
            }
        }
    }
}

/// The column names of the updates, in order.
pub open spec fn update_keys(updates: Seq<(String, String)>) -> Seq<Seq<char>> {
    updates.map_values(|u: (String, String)| u.0@)
}

/// Check every column of a session update against the allowlist; the
/// first column that is not on it is refused.
pub fn validate_update_columns(updates: &Vec<(String, String)>) -> (r: Result<(), LrgpError>)
    ensures
        match first_disallowed(update_keys(updates@)) {
            None => r is Ok,
            Some(k) => r matches Err(LrgpError::Store(m)) && m@ == "invalid column: "@ + k,
        },
{
    let ghost keys = update_keys(updates@);
    let mut i: usize = 0;
    assert(keys.subrange(0, keys.len() as int) =~= keys);
    while i < updates.len()
        invariant
            i <= updates@.len(),
            keys == update_keys(updates@),
            first_disallowed(keys) == first_disallowed(keys.subrange(i as int, keys.len() as int)),
        decreases updates@.len() - i,
    {
        proof {
            let rest = keys.subrange(i as int, keys.len() as int);
            assert(rest.drop_first() =~= keys.subrange(i + 1, keys.len() as int));
        }
        if !is_allowed_column(updates[i].0.as_str()) {
            return Err(LrgpError::Store(concat("invalid column: ", updates[i].0.as_str())));
        }
        i = i + 1;
    }
    Ok(())
}

/// `column = ?n`.
pub open spec fn assignment(column: Seq<char>, n: nat) -> Seq<char> {
    column + " = ?"@ + decimal(n)
}

/// The SET clause of an update: each column bound to its parameter,
/// numbered from 3 (1 and 2 are the session id and identity), joined by `, `.
pub open spec fn set_clause(keys: Seq<Seq<char>>) -> Seq<char>
    decreases keys.len(),
{
    if keys.len() == 0 {
        Seq::empty()
    } else if keys.len() == 1 {
        assignment(keys[0], 3)
    } else {
        set_clause(keys.drop_last()) + ", "@ + assignment(keys.last(), keys.len() + 2)
    }
}

/// The statement that updates the given columns of one session.
pub open spec fn update_sql_text(keys: Seq<Seq<char>>) -> Seq<char> {
    "UPDATE game_sessions SET "@ + set_clause(keys) + " WHERE session_id = ?1 AND identity_id = ?2"@
}

/// The statement that updates the given columns of one session; its
/// parameters are the session id, the identity, then the new values in order.
pub fn update_session_sql(updates: &Vec<(String, String)>) -> (r: String)
    requires
        updates@.len() + 3 <= u64::MAX,
    ensures
        r@ == update_sql_text(update_keys(updates@)),
{
    let ghost keys = update_keys(updates@);
    let mut clause = String::new();
    let mut i: usize = 0;
    while i < updates.len()
        invariant
            i <= updates@.len(),
            updates@.len() + 3 <= u64::MAX,
            keys == update_keys(updates@),
            clause@ == set_clause(keys.subrange(0, i as int)),
        decreases updates@.len() - i,
    {
        let n = u64_to_decimal(i as u64 + 3);
        let a = concat(updates[i].0.as_str(), " = ?");
        let item = concat(a.as_str(), n.as_str());
        proof {
            assert(keys.subrange(0, i + 1).drop_last() =~= keys.subrange(0, i as int));
        }
        if i == 0 {
            clause = item;
        } else {
            let b = concat(clause.as_str(), ", ");
            clause = concat(b.as_str(), item.as_str());
        }
        i = i + 1;
    }
    proof {
        assert(keys.subrange(0, updates@.len() as int) =~= keys);
    }
    let head = concat("UPDATE game_sessions SET ", clause.as_str());
    concat(head.as_str(), " WHERE session_id = ?1 AND identity_id = ?2")
}

/// The filters of a session listing, as (column, value), in the order
/// identity, status, game.
pub open spec fn session_filters(
    identity_id: Option<Seq<char>>,
    status: Option<Seq<char>>,
    app_id: Option<Seq<char>>,
) -> Seq<(Seq<char>, Seq<char>)> {
    let a = match identity_id {
        Some(v) => seq![("identity_id"@, v)],
        None => Seq::empty(),
    };
    let b = match status {
        Some(v) => a.push(("status"@, v)),
        None => a,
    };
    match app_id {
        Some(v) => b.push(("app_id"@, v)),
        None => b,
    }
}

/// The WHERE conditions of the filters, numbered from 1, joined by ` AND `.
pub open spec fn conditions_text(filters: Seq<(Seq<char>, Seq<char>)>) -> Seq<char>
    decreases filters.len(),
{
    if filters.len() == 0 {
        Seq::empty()
    } else if filters.len() == 1 {
        assignment(filters[0].0, 1)
    } else {
        conditions_text(filters.drop_last()) + " AND "@ + assignment(filters.last().0, filters.len())
    }
}

/// The columns of a session row, in the order the store reads them.
pub const SESSION_COLUMNS: &'static str = "session_id, identity_id, app_id, app_version, contact_hash, initiator, status, metadata, unread, created_at, updated_at, last_action_at";

/// The query that lists sessions with these filters, most recently updated first.
pub open spec fn list_sql_text(filters: Seq<(Seq<char>, Seq<char>)>) -> Seq<char> {
    let where_clause = if filters.len() == 0 {
        Seq::empty()
    } else {
        " WHERE "@ + conditions_text(filters)
    };
    "SELECT "@ + SESSION_COLUMNS@ + " FROM game_sessions"@ + where_clause + " ORDER BY updated_at DESC"@
}

/// The query that lists sessions, optionally filtered by identity, status
/// and game, and its parameters in order.
pub fn list_sessions_query(identity_id: Option<&str>, status: Option<&str>, app_id: Option<&str>) -> (r: (
    String,
    Vec<String>,
))
    ensures
        ({
            let filters = session_filters(
                match identity_id {
                    Some(s) => Some(s@),
                    None => None,
                },
                match status {
                    Some(s) => Some(s@),
                    None => None,
                },
                match app_id {
                    Some(s) => Some(s@),
                    None => None,
                },
            );
            &&& r.0@ == list_sql_text(filters)
            &&& r.1@.map_values(|p: String| p@) == filters.map_values(|f: (Seq<char>, Seq<char>)| f.1)
        }),
{
    let ghost filters = session_filters(
        match identity_id {
            Some(s) => Some(s@),
            None => None,
        },
        match status {
            Some(s) => Some(s@),
            None => None,
        },
        match app_id {
            Some(s) => Some(s@),
            None => None,
        },
    );
    let mut columns: Vec<&str> = Vec::new();
    let mut params: Vec<String> = Vec::new();
    if let Some(v) = identity_id {
        columns.push("identity_id");
        params.push(v.to_owned());
    }
    if let Some(v) = status {
        columns.push("status");
        params.push(v.to_owned());
    }
    if let Some(v) = app_id {
        columns.push("app_id");
        params.push(v.to_owned());
    }
    proof {
        assert forall|j: int| 0 <= j < filters.len() implies (#[trigger] columns@[j])@ == filters[j].0
            && params@[j]@ == filters[j].1 by {}
        assert(params@.map_values(|p: String| p@) =~= filters.map_values(
            |f: (Seq<char>, Seq<char>)| f.1,
        ));
    }
    let mut conds = String::new();
    let mut i: usize = 0;
    while i < columns.len()
        invariant
            i <= columns@.len(),
            columns@.len() == filters.len(),
            columns@.len() <= 3,
            forall|j: int| 0 <= j < filters.len() ==> (#[trigger] columns@[j])@ == filters[j].0,
            conds@ == conditions_text(filters.subrange(0, i as int)),
        decreases columns@.len() - i,
    {
        let n = u64_to_decimal(i as u64 + 1);
        let a = concat(columns[i], " = ?");
        let item = concat(a.as_str(), n.as_str());
        proof {
            assert(filters.subrange(0, i + 1).drop_last() =~= filters.subrange(0, i as int));
        }
        if i == 0 {
            conds = item;
        } else {
            let b = concat(conds.as_str(), " AND ");
            conds = concat(b.as_str(), item.as_str());
        }
        i = i + 1;
    }
    proof {
        assert(filters.subrange(0, filters.len() as int) =~= filters);
    }
    let head = concat("SELECT ", SESSION_COLUMNS);
    let from = concat(head.as_str(), " FROM game_sessions");
    let with_where = if columns.len() == 0 {
        from
    } else {
        let w = concat(from.as_str(), " WHERE ");
        concat(w.as_str(), conds.as_str())
    };
    proof {
        reveal_strlit("");
    }
    let sql = concat(with_where.as_str(), " ORDER BY updated_at DESC");
    (sql, params)
}

/// The number of the next action of a session: one past the highest
/// recorded, or 1 for a session with none.
pub fn next_action_number(max: Option<i64>) -> (r: i64)
    requires
        max matches Some(m) ==> m < i64::MAX,
    ensures
        r == match max {
            Some(m) => m + 1,
            None => 1,
        },
{
    match max {
        Some(m) => m + 1,
        None => 1,
    }
}

} // verus!
