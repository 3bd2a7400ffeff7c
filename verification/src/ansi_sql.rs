//! The statements that open and close each nesting level of a transaction.
//!
//! Level 0 is the level outside every transaction. Opening from level 0 starts a transaction and
//! opening from a higher level establishes a savepoint, named after the level it was opened from.
use vstd::prelude::*;

use crate::decimal::push_decimal;
use crate::sql_str::SqlStr;

verus! {

/// The name of the savepoint that is opened from nesting level `depth`.
pub open spec fn savepoint_name(depth: nat) -> Seq<char> {
    "_sqlx_savepoint_"@ + crate::decimal::decimal(depth)
}

/// The statement that opens a level from nesting level `depth`.
pub open spec fn begin_sql(depth: nat) -> Seq<char> {
    if depth == 0 {
        "BEGIN"@
    } else {
        "SAVEPOINT "@ + savepoint_name(depth)
    }
}

/// The statement that makes the work of nesting level `depth` part of the level below it.
pub open spec fn commit_sql(depth: nat) -> Seq<char>
    recommends
        depth > 0,
{
    if depth == 1 {
        "COMMIT"@
    } else {
        "RELEASE SAVEPOINT "@ + savepoint_name((depth - 1) as nat)
    }
}

/// The statement that undoes the work of nesting level `depth`.
pub open spec fn rollback_sql(depth: nat) -> Seq<char>
    recommends
        depth > 0,
{
    if depth == 1 {
        "ROLLBACK"@
    } else {
        "ROLLBACK TO SAVEPOINT "@ + savepoint_name((depth - 1) as nat)
    }
}

/// Returns `prefix` followed by the name of the savepoint that is opened from `depth`.
fn savepoint_statement(prefix: &str, depth: usize) -> (sql: SqlStr)
    ensures
        sql@ == prefix@ + savepoint_name(depth as nat),
{
    let mut sql = String::new();
    sql.append(prefix);
    sql.append("_sqlx_savepoint_");
    push_decimal(&mut sql, depth);
    SqlStr::Owned(sql)
}

/// Returns the statement that opens a transaction (from level 0) or a savepoint.
pub fn begin_ansi_transaction_sql(depth: usize) -> (sql: SqlStr)
    ensures
        sql@ == begin_sql(depth as nat),
{
    if depth == 0 {
        SqlStr::Static("BEGIN")
    } else {
        savepoint_statement("SAVEPOINT ", depth)
    }
}

/// Why a transaction could not be opened.
#[derive(Clone, Copy, Debug, PartialEq, Eq, Structural)]
pub enum Error {
    /// A custom opening statement was given inside a transaction, where only a savepoint can be
    /// established.
    InvalidSavePoint,
}

/// What comes of the wish to open a level from nesting level `depth`: the custom `statement` or
/// the default one outside every transaction, a savepoint inside one, and a refusal if a custom
/// statement was given there.
pub open spec fn is_begin_decision(
    depth: nat,
    statement: Option<SqlStr>,
    decision: Result<SqlStr, Error>,
) -> bool {
    match statement {
        Some(custom) => if depth == 0 {
            decision == Ok::<SqlStr, Error>(custom)
        } else {
            decision == Err::<SqlStr, Error>(Error::InvalidSavePoint)
        },
        None => decision matches Ok(sql) && sql@ == begin_sql(depth),
    }
}

/// Chooses the statement that opens a level from nesting level `depth`.
///
/// From level 0, `statement` takes the place of the default statement if there is one. Inside a
/// transaction a custom statement is refused and nothing may be run.
pub fn begin_statement(depth: usize, statement: Option<SqlStr>) -> (result: Result<SqlStr, Error>)
    ensures
        is_begin_decision(depth as nat, statement, result),
{
    match statement {
        Some(custom) => if depth == 0 {
            Ok(custom)
        } else {
            Err(Error::InvalidSavePoint)
        },
        None => Ok(begin_ansi_transaction_sql(depth)),
    }
}

/// Returns the statement that commits the transaction (at level 1) or releases the savepoint
/// that led to nesting level `depth`.
pub fn commit_ansi_transaction_sql(depth: usize) -> (sql: SqlStr)
    requires
        depth > 0,
    ensures
        sql@ == commit_sql(depth as nat),
{
    if depth == 1 {
        SqlStr::Static("COMMIT")
    } else {
        savepoint_statement("RELEASE SAVEPOINT ", depth - 1)
    }
}

/// Returns the statement that rolls back the transaction (at level 1) or returns to the savepoint
/// that led to nesting level `depth`.
pub fn rollback_ansi_transaction_sql(depth: usize) -> (sql: SqlStr)
    requires
        depth > 0,
    ensures
        sql@ == rollback_sql(depth as nat),
{
    if depth == 1 {
        SqlStr::Static("ROLLBACK")
    } else {
        savepoint_statement("ROLLBACK TO SAVEPOINT ", depth - 1)
    }
}

/// What is opened from a level is what closing the level above it refers to: a transaction is
/// committed or rolled back as a whole, and a savepoint is released or returned to by the very
/// name under which it was established. That name is `_sqlx_savepoint_` and the number of the
/// level it was opened from.
pub proof fn law_closing_matches_opening(depth: nat)
    ensures
        depth == 0 ==> {
            &&& begin_sql(depth) == "BEGIN"@
            &&& commit_sql(depth + 1) == "COMMIT"@
            &&& rollback_sql(depth + 1) == "ROLLBACK"@
        },
        depth > 0 ==> {
            &&& begin_sql(depth) == "SAVEPOINT _sqlx_savepoint_"@ + crate::decimal::decimal(depth)
            &&& commit_sql(depth + 1) == "RELEASE SAVEPOINT _sqlx_savepoint_"@
                + crate::decimal::decimal(depth)
            &&& rollback_sql(depth + 1) == "ROLLBACK TO SAVEPOINT _sqlx_savepoint_"@
                + crate::decimal::decimal(depth)
        },
        savepoint_name(depth) == "_sqlx_savepoint_"@ + crate::decimal::decimal(depth),
{
    reveal_strlit("_sqlx_savepoint_");
    reveal_strlit("SAVEPOINT ");
    reveal_strlit("SAVEPOINT _sqlx_savepoint_");
    reveal_strlit("RELEASE SAVEPOINT ");
    reveal_strlit("RELEASE SAVEPOINT _sqlx_savepoint_");
    reveal_strlit("ROLLBACK TO SAVEPOINT ");
    reveal_strlit("ROLLBACK TO SAVEPOINT _sqlx_savepoint_");
    assert("SAVEPOINT "@ + "_sqlx_savepoint_"@ == "SAVEPOINT _sqlx_savepoint_"@);
    assert("RELEASE SAVEPOINT "@ + "_sqlx_savepoint_"@ == "RELEASE SAVEPOINT _sqlx_savepoint_"@);
    assert("ROLLBACK TO SAVEPOINT "@ + "_sqlx_savepoint_"@
        == "ROLLBACK TO SAVEPOINT _sqlx_savepoint_"@);
    let number = crate::decimal::decimal(depth);
    if depth > 0 {
        assert(begin_sql(depth) == "SAVEPOINT "@ + "_sqlx_savepoint_"@ + number);
        assert(commit_sql(depth + 1) == "RELEASE SAVEPOINT "@ + "_sqlx_savepoint_"@ + number);
        assert(rollback_sql(depth + 1) == "ROLLBACK TO SAVEPOINT "@ + "_sqlx_savepoint_"@ + number);
    }
}

/// A transaction is opened by `BEGIN` and closed by `COMMIT` or `ROLLBACK`.
pub proof fn law_transaction_statements(begin: SqlStr, commit: SqlStr, rollback: SqlStr)
    requires
        call_ensures(begin_ansi_transaction_sql, (0usize,), begin),
        call_ensures(commit_ansi_transaction_sql, (1usize,), commit),
        call_ensures(rollback_ansi_transaction_sql, (1usize,), rollback),
    ensures
        begin@ == "BEGIN"@,
        commit@ == "COMMIT"@,
        rollback@ == "ROLLBACK"@,
{
}

/// The statements for the savepoint that is opened from any level `depth` inside a transaction, as
/// they are returned: those that close the level above name the savepoint as the one that opens it
/// does, by `_sqlx_savepoint_` and the digits of `depth`. `digits` is a string to which `depth` was
/// appended in decimal notation.
pub proof fn law_savepoint_statements(
    depth: usize,
    digits: &mut String,
    begin: SqlStr,
    commit: SqlStr,
    rollback: SqlStr,
)
    requires
        0 < depth < usize::MAX,
        digits@.len() == 0,
        call_ensures(crate::decimal::push_decimal, (digits, depth), ()),
        call_ensures(begin_ansi_transaction_sql, (depth,), begin),
        call_ensures(commit_ansi_transaction_sql, ((depth + 1) as usize,), commit),
        call_ensures(rollback_ansi_transaction_sql, ((depth + 1) as usize,), rollback),
    ensures
        begin@ == "SAVEPOINT _sqlx_savepoint_"@ + final(digits)@,
        commit@ == "RELEASE SAVEPOINT _sqlx_savepoint_"@ + final(digits)@,
        rollback@ == "ROLLBACK TO SAVEPOINT _sqlx_savepoint_"@ + final(digits)@,
{
    law_closing_matches_opening(depth as nat);
    assert(final(digits)@ == crate::decimal::decimal(depth as nat));
}

/// Outside every transaction a custom statement is used as it is, whatever it is. Inside one it is
/// refused, whatever it is and however deep the transaction is.
pub proof fn law_custom_statement_is_used_or_refused(
    depth: usize,
    statement: SqlStr,
    result: Result<SqlStr, Error>,
)
    requires
        call_ensures(begin_statement, (depth, Some(statement)), result),
    ensures
        depth == 0 ==> result == Ok::<SqlStr, Error>(statement),
        depth > 0 ==> result == Err::<SqlStr, Error>(Error::InvalidSavePoint),
{
}

/// Without a custom statement opening is never refused, at any depth: the statement is `BEGIN`
/// outside every transaction and a `SAVEPOINT` inside one.
pub proof fn law_default_statement_is_never_refused(depth: usize, result: Result<SqlStr, Error>)
    requires
        call_ensures(begin_statement, (depth, None::<SqlStr>), result),
    ensures
        result matches Ok(sql) && sql@ == if depth == 0 {
            "BEGIN"@
        } else {
            "SAVEPOINT _sqlx_savepoint_"@ + crate::decimal::decimal(depth as nat)
        },
{
    law_closing_matches_opening(depth as nat);
}

/// A decision to open a level from `depth` is to use a custom statement outside every transaction,
/// to refuse it inside one, and otherwise to open a transaction or the next savepoint.
pub proof fn law_decision_follows_from_depth_and_statement(
    depth: nat,
    statement: Option<SqlStr>,
    decision: Result<SqlStr, Error>,
)
    requires
        is_begin_decision(depth, statement, decision),
    ensures
        depth == 0 ==> (statement matches Some(custom) ==> decision == Ok::<SqlStr, Error>(custom)),
        statement is Some && depth > 0 ==> decision == Err::<SqlStr, Error>(
            Error::InvalidSavePoint,
        ),
        statement is None && depth == 0 ==> (decision matches Ok(sql) && sql@ == "BEGIN"@),
        statement is None && depth > 0 ==> (decision matches Ok(sql) && sql@
            == "SAVEPOINT _sqlx_savepoint_"@ + crate::decimal::decimal(depth)),
{
    law_closing_matches_opening(depth);
}

/// Savepoints that are opened from different levels have different names, so an inner savepoint
/// never hides an outer one.
pub proof fn law_savepoint_names_are_distinct(a: nat, b: nat)
    requires
        a != b,
    ensures
        savepoint_name(a) != savepoint_name(b),
{
    if savepoint_name(a) == savepoint_name(b) {
        let prefix = "_sqlx_savepoint_"@;
        let n = prefix.len() as int;
        assert(crate::decimal::decimal(a) == savepoint_name(a).skip(n));
        assert(crate::decimal::decimal(b) == savepoint_name(b).skip(n));
        crate::decimal::law_decimal_is_injective(a, b);
    }
}

/// No two levels are opened by the same statement, and no two levels above the outermost one are
/// closed by the same statement.
pub proof fn law_statements_tell_levels_apart(a: nat, b: nat)
    requires
        a != b,
    ensures
        begin_sql(a) != begin_sql(b),
        commit_sql(a + 1) != commit_sql(b + 1),
        rollback_sql(a + 1) != rollback_sql(b + 1),
{
    reveal_strlit("BEGIN");
    reveal_strlit("SAVEPOINT ");
    reveal_strlit("COMMIT");
    reveal_strlit("RELEASE SAVEPOINT ");
    reveal_strlit("ROLLBACK");
    reveal_strlit("ROLLBACK TO SAVEPOINT ");
    law_savepoint_names_are_distinct(a, b);
    if a > 0 && b > 0 {
        lemma_same_prefix("SAVEPOINT "@, savepoint_name(a), savepoint_name(b));
        lemma_same_prefix("RELEASE SAVEPOINT "@, savepoint_name(a), savepoint_name(b));
        lemma_same_prefix("ROLLBACK TO SAVEPOINT "@, savepoint_name(a), savepoint_name(b));
    } else {
        // One of the two is the outermost level: its statements begin with another letter or,
        // for a rollback, are shorter.
        let inner = if a == 0 { b } else { a };
        assert(begin_sql(0)[0] == 'B' && begin_sql(inner)[0] == 'S');
        assert(commit_sql(1)[0] == 'C' && commit_sql(inner + 1)[0] == 'R');
        assert(rollback_sql(1).len() < rollback_sql(inner + 1).len());
    }
}

proof fn lemma_same_prefix(prefix: Seq<char>, a: Seq<char>, b: Seq<char>)
    requires
        a != b,
    ensures
        prefix + a != prefix + b,
{
    if prefix + a == prefix + b {
        assert(a == (prefix + a).skip(prefix.len() as int));
        assert(b == (prefix + b).skip(prefix.len() as int));
    }
}

} // verus!
