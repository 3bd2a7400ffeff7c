//! Transactions on SQLite connections.
//!
//! The statements of a connection are run by a worker that takes commands in order. A
//! [`SqliteConnection`] queues the commands; whoever owns the worker passes them on with
//! [`SqliteConnection::take_commands`] and keeps [`SqliteConnection::transaction_depth`] at the
//! depth that the worker has reached.
use tracing::{Id, Span};
use vstd::prelude::*;

use crate::ansi_sql::{begin_statement, Error};
use crate::sql_str::SqlStr;
use crate::telemetry::same_id;
use crate::transaction::{Database, TransactionManager};

verus! {

/// A command to the worker of a connection.
#[derive(Debug, PartialEq, Eq)]
pub enum Command {
    /// Open a transaction or savepoint with a statement, and reply; or run nothing and reply with
    /// the refusal.
    Begin(Result<SqlStr, Error>),
    /// Commit the transaction or release the latest savepoint, and reply.
    Commit,
    /// Abort the transaction or restore the latest savepoint, and reply.
    Rollback,
    /// Abort the transaction or restore the latest savepoint. Nobody waits for a reply.
    StartRollback,
}

/// A connection to an SQLite database.
#[derive(Debug)]
pub struct SqliteConnection {
    /// The depth of the transaction, as the worker last told it.
    pub transaction_depth: usize,
    /// The span of the outermost transaction, with the id of the span that was current when that
    /// transaction was opened.
    pub transaction_span: Option<(Span, Option<Id>)>,
    /// The commands that the worker has not been given yet, oldest first.
    pub commands: Vec<Command>,
}

/// What a connection holds.
pub struct SqliteState {
    /// The depth of the transaction.
    pub depth: nat,
    /// The installed span and the id of the span that was current when it was installed.
    pub transaction_span: Option<(Span, Option<Id>)>,
    /// The queued commands, oldest first.
    pub commands: Seq<Command>,
}

impl SqliteState {
    /// The state with `command` queued.
    pub open spec fn with_command(self, command: Command) -> SqliteState {
        SqliteState { commands: self.commands.push(command), ..self }
    }

    /// The state with `transaction_span` in place of the installed span.
    pub open spec fn with_span(self, transaction_span: Option<(Span, Option<Id>)>) -> SqliteState {
        SqliteState { transaction_span, ..self }
    }

    /// The span under which a query belongs while the span with the id `current` is the current
    /// one: that of the transaction as long as the caller has entered no other span since the
    /// transaction was opened.
    pub open spec fn parent_of_query(self, current: Option<Id>) -> Option<Span> {
        match self.transaction_span {
            Some((span, parent_at_begin)) => if parent_at_begin == current {
                Some(span)
            } else {
                None
            },
            None => None,
        }
    }
}

impl View for SqliteConnection {
    type V = SqliteState;

    open spec fn view(&self) -> SqliteState {
        SqliteState {
            depth: self.transaction_depth as nat,
            transaction_span: self.transaction_span,
            commands: self.commands@,
        }
    }
}

/// Whether `result` is a clone of the handle `span`, or both are absent.
pub open spec fn is_optional_clone(span: Option<Span>, result: Option<Span>) -> bool {
    match span {
        Some(span) => result matches Some(copy) && crate::telemetry::is_clone(span, copy),
        None => result is None,
    }
}

impl SqliteConnection {
    /// Returns a connection with no transaction and nothing queued.
    pub fn new() -> (conn: Self)
        ensures
            conn@.depth == 0,
            conn@.transaction_span is None,
            conn@.commands == Seq::<Command>::empty(),
            conn.transaction_depth == 0,
            conn.transaction_span is None,
            conn.commands@.len() == 0,
    {
        SqliteConnection { transaction_depth: 0, transaction_span: None, commands: Vec::new() }
    }

    /// Hands the queued commands out, oldest first.
    pub fn take_commands(&mut self) -> (commands: Vec<Command>)
        ensures
            commands@ == old(self)@.commands,
            final(self)@ == (SqliteState { commands: Seq::empty(), ..old(self)@ }),
            commands@ == old(self).commands@,
            final(self).commands@.len() == 0,
            final(self).transaction_depth == old(self).transaction_depth,
            final(self).transaction_span == old(self).transaction_span,
    {
        let mut commands: Vec<Command> = Vec::new();
        std::mem::swap(&mut commands, &mut self.commands);
        commands
    }

    /// Returns a handle to the span under which a query belongs while the span with the id
    /// `current` is the current one, or `None` if that is the current span itself.
    pub fn parent_for_query(&self, current: &Option<Id>) -> (result: Option<Span>)
        ensures
            is_optional_clone(self@.parent_of_query(*current), result),
            match self.transaction_span {
                Some((span, parent_at_begin)) => if parent_at_begin == *current {
                    result matches Some(copy) && call_ensures(Span::clone, (&span,), copy)
                } else {
                    result is None
                },
                None => result is None,
            },
    {
        match &self.transaction_span {
            Some((span, parent_at_begin)) => if same_id(parent_at_begin, current) {
                Some(span.clone())
            } else {
                None
            },
            None => None,
        }
    }
}

/// SQLite.
pub struct Sqlite;

impl Database for Sqlite {
    type Connection = SqliteConnection;

    const NAME: &'static str = "SQLite";
}

/// The part of the SQLite driver that manages transactions.
pub struct SqliteTransactionManager;

impl TransactionManager for SqliteTransactionManager {
    type Database = Sqlite;

    fn begin(conn: &mut SqliteConnection, statement: Option<SqlStr>)
        ensures
            exists|decision: Result<SqlStr, Error>|
                {
                    &&& #[trigger] crate::ansi_sql::is_begin_decision(
                        old(conn)@.depth,
                        statement,
                        decision,
                    )
                    &&& final(conn)@ == old(conn)@.with_command(Command::Begin(decision))
                    &&& final(conn).commands@ == old(conn).commands@.push(Command::Begin(decision))
                },
            final(conn).transaction_depth == old(conn).transaction_depth,
            final(conn).transaction_span == old(conn).transaction_span,
    {
        let decision = begin_statement(conn.transaction_depth, statement);
        assert(crate::ansi_sql::is_begin_decision(old(conn)@.depth, statement, decision));
        conn.commands.push(Command::Begin(decision));
        assert(conn@ == old(conn)@.with_command(Command::Begin(decision)));
    }

    fn commit(conn: &mut SqliteConnection)
        ensures
            final(conn)@ == old(conn)@.with_command(Command::Commit),
            final(conn).commands@ == old(conn).commands@.push(Command::Commit),
            final(conn).transaction_depth == old(conn).transaction_depth,
            final(conn).transaction_span == old(conn).transaction_span,
    {
        conn.commands.push(Command::Commit);
    }

    fn rollback(conn: &mut SqliteConnection)
        ensures
            final(conn)@ == old(conn)@.with_command(Command::Rollback),
            final(conn).commands@ == old(conn).commands@.push(Command::Rollback),
            final(conn).transaction_depth == old(conn).transaction_depth,
            final(conn).transaction_span == old(conn).transaction_span,
    {
        conn.commands.push(Command::Rollback);
    }

    fn start_rollback(conn: &mut SqliteConnection)
        ensures
            final(conn)@ == old(conn)@.with_command(Command::StartRollback),
            final(conn).commands@ == old(conn).commands@.push(Command::StartRollback),
            final(conn).transaction_depth == old(conn).transaction_depth,
            final(conn).transaction_span == old(conn).transaction_span,
    {
        conn.commands.push(Command::StartRollback);
    }

    fn get_transaction_depth(conn: &SqliteConnection) -> (depth: usize)
        ensures
            depth == conn@.depth,
            depth == conn.transaction_depth,
    {
        conn.transaction_depth
    }

    fn set_transaction_span(
        conn: &mut SqliteConnection,
        span: Span,
        parent_at_begin: Option<Id>,
    )
        ensures
            final(conn)@ == old(conn)@.with_span(Some((span, parent_at_begin))),
            final(conn).transaction_span == Some((span, parent_at_begin)),
            final(conn).transaction_depth == old(conn).transaction_depth,
            final(conn).commands@ == old(conn).commands@,
    {
        conn.transaction_span = Some((span, parent_at_begin));
    }

    fn clear_transaction_span(conn: &mut SqliteConnection)
        ensures
            final(conn)@ == old(conn)@.with_span(None),
            final(conn).transaction_span is None,
            final(conn).transaction_depth == old(conn).transaction_depth,
            final(conn).commands@ == old(conn).commands@,
    {
        conn.transaction_span = None;
    }

    fn current_transaction_span(conn: &SqliteConnection) -> (result: Option<Span>)
        ensures
            is_optional_clone(
                match conn@.transaction_span {
                    Some((span, _)) => Some(span),
                    None => None,
                },
                result,
            ),
            match conn.transaction_span {
                Some((span, _)) => result matches Some(copy) && call_ensures(
                    Span::clone,
                    (&span,),
                    copy,
                ),
                None => result is None,
            },
    {
        match &conn.transaction_span {
            Some((span, _)) => Some(span.clone()),
            None => None,
        }
    }

    fn query_parent_span(conn: &SqliteConnection) -> (result: Option<Span>)
        ensures
            conn@.transaction_span is None ==> result is None,
            conn@.transaction_span is Some ==> exists|current: Span| #[trigger]
                crate::telemetry::is_current(current) && is_optional_clone(
                    conn@.parent_of_query(crate::telemetry::span_id(current)),
                    result,
                ),
            match conn.transaction_span {
                Some((span, parent_at_begin)) => exists|current: Span|
                    {
                        &&& #[trigger] call_ensures(Span::current, (), current)
                        &&& if crate::telemetry::span_id(current) == parent_at_begin {
                            result matches Some(copy) && call_ensures(Span::clone, (&span,), copy)
                        } else {
                            result is None
                        }
                    },
                None => result is None,
            },
    {
        if conn.transaction_span.is_none() {
            return None;
        }
        let current = Span::current();
        assert(crate::telemetry::is_current(current));
        conn.parent_for_query(&current.id())
    }
}

/// Requesting a commit queues a commit behind whatever is queued, at any depth and with any span
/// installed, and changes nothing else.
pub proof fn law_commit_queues_a_commit(conn: &mut SqliteConnection)
    requires
        call_ensures(SqliteTransactionManager::commit, (conn,), ()),
    ensures
        final(conn).commands@ == old(conn).commands@.push(Command::Commit),
        final(conn).transaction_depth == old(conn).transaction_depth,
        final(conn).transaction_span == old(conn).transaction_span,
{
}

/// Requesting a rollback queues a rollback behind whatever is queued, at any depth and with any span
/// installed, and changes nothing else.
pub proof fn law_rollback_queues_a_rollback(conn: &mut SqliteConnection)
    requires
        call_ensures(SqliteTransactionManager::rollback, (conn,), ()),
    ensures
        final(conn).commands@ == old(conn).commands@.push(Command::Rollback),
        final(conn).transaction_depth == old(conn).transaction_depth,
        final(conn).transaction_span == old(conn).transaction_span,
{
}

/// Starting a rollback queues one that nobody waits for behind whatever is queued, at any depth and
/// with any span installed, and changes nothing else.
pub proof fn law_started_rollback_is_queued(conn: &mut SqliteConnection)
    requires
        call_ensures(SqliteTransactionManager::start_rollback, (conn,), ()),
    ensures
        final(conn).commands@ == old(conn).commands@.push(Command::StartRollback),
        final(conn).transaction_depth == old(conn).transaction_depth,
        final(conn).transaction_span == old(conn).transaction_span,
{
}

/// A custom statement for a new transaction is queued as it is, whatever it is, behind whatever is
/// queued. Inside a transaction the refusal is queued in its place. Nothing else changes.
pub proof fn law_begin_queues_a_custom_statement(conn: &mut SqliteConnection, statement: SqlStr)
    requires
        call_ensures(SqliteTransactionManager::begin, (conn, Some(statement)), ()),
    ensures
        old(conn).transaction_depth == 0 ==> final(conn).commands@ == old(conn).commands@.push(
            Command::Begin(Ok(statement)),
        ),
        old(conn).transaction_depth > 0 ==> final(conn).commands@ == old(conn).commands@.push(
            Command::Begin(Err(Error::InvalidSavePoint)),
        ),
        final(conn).transaction_depth == old(conn).transaction_depth,
        final(conn).transaction_span == old(conn).transaction_span,
{
}

/// Without a custom statement, `BEGIN` is queued for a new transaction and the statement for the
/// next savepoint inside one, behind whatever is queued. Nothing else changes.
pub proof fn law_begin_queues_the_default_statement(conn: &mut SqliteConnection)
    requires
        call_ensures(SqliteTransactionManager::begin, (conn, None::<SqlStr>), ()),
    ensures
        exists|sql: SqlStr|
            {
                &&& final(conn).commands@ == #[trigger] old(conn).commands@.push(
                    Command::Begin(Ok(sql)),
                )
                &&& sql@ == if old(conn).transaction_depth == 0 {
                    "BEGIN"@
                } else {
                    "SAVEPOINT _sqlx_savepoint_"@ + crate::decimal::decimal(
                        old(conn).transaction_depth as nat,
                    )
                }
            },
        final(conn).transaction_depth == old(conn).transaction_depth,
        final(conn).transaction_span == old(conn).transaction_span,
{
    crate::ansi_sql::law_closing_matches_opening(conn.transaction_depth as nat);
    let decision = choose|decision: Result<SqlStr, Error>|
        {
            &&& #[trigger] crate::ansi_sql::is_begin_decision(
                conn.transaction_depth as nat,
                None,
                decision,
            )
            &&& final(conn).commands@ == conn.commands@.push(Command::Begin(decision))
        };
    assert(final(conn).commands@ == conn.commands@.push(Command::Begin(Ok(decision->Ok_0))));
}

/// The span that is set is installed, together with the given id, in place of any that was, and
/// none is installed once it is cleared. Queue and depth stay as they are.
pub proof fn law_span_is_installed_and_taken_off(
    conn: &mut SqliteConnection,
    span: Span,
    parent_at_begin: Option<Id>,
    other: &mut SqliteConnection,
)
    requires
        call_ensures(
            SqliteTransactionManager::set_transaction_span,
            (conn, span, parent_at_begin),
            (),
        ),
        call_ensures(SqliteTransactionManager::clear_transaction_span, (other,), ()),
    ensures
        final(conn).transaction_span == Some((span, parent_at_begin)),
        final(conn).commands@ == old(conn).commands@,
        final(conn).transaction_depth == old(conn).transaction_depth,
        final(other).transaction_span is None,
        final(other).commands@ == old(other).commands@,
        final(other).transaction_depth == old(other).transaction_depth,
{
}

/// The span that is returned as that of the transaction is a clone of the installed one, at any
/// depth and with anything queued, and there is one exactly if one is installed. The depth that is
/// returned is that of the connection.
pub proof fn law_installed_span_is_returned(
    conn: SqliteConnection,
    result: Option<Span>,
    depth: usize,
)
    requires
        call_ensures(SqliteTransactionManager::current_transaction_span, (&conn,), result),
        call_ensures(SqliteTransactionManager::get_transaction_depth, (&conn,), depth),
    ensures
        conn.transaction_span matches Some((span, _)) ==> (result matches Some(copy)
            && call_ensures(Span::clone, (&span,), copy)),
        conn.transaction_span is None ==> result is None,
        depth == conn.transaction_depth,
{
}

/// At any depth and with anything queued, a query belongs under the installed span exactly if the
/// current span is the one that was current when the transaction was opened. Otherwise, and if no
/// span is installed, it belongs under the current span.
pub proof fn law_query_belongs_under_the_installed_span(
    conn: SqliteConnection,
    current: Option<Id>,
    result: Option<Span>,
)
    requires
        call_ensures(SqliteConnection::parent_for_query, (&conn, &current), result),
    ensures
        conn.transaction_span matches Some((span, parent_at_begin)) ==> {
            &&& result is Some <==> current == parent_at_begin
            &&& result matches Some(copy) ==> call_ensures(Span::clone, (&span,), copy)
        },
        conn.transaction_span is None ==> result is None,
{
}

/// The same of the driver's answer, which asks for the current span itself.
pub proof fn law_driver_puts_queries_under_the_installed_span(
    conn: SqliteConnection,
    result: Option<Span>,
)
    requires
        call_ensures(SqliteTransactionManager::query_parent_span, (&conn,), result),
    ensures
        conn.transaction_span matches Some((span, parent_at_begin)) ==> {
            &&& exists|current: Span| #[trigger]
                call_ensures(Span::current, (), current) && (result is Some
                    <==> crate::telemetry::span_id(current) == parent_at_begin)
            &&& result matches Some(copy) ==> call_ensures(Span::clone, (&span,), copy)
        },
        conn.transaction_span is None ==> result is None,
{
}

/// A state puts a query under the installed span exactly if the current span is the one that was
/// current when the transaction was opened, at any depth and with anything queued.
pub proof fn law_parent_of_query_depends_on_the_span_alone(
    state: SqliteState,
    current: Option<Id>,
)
    ensures
        state.transaction_span matches Some((span, parent_at_begin)) ==> {
            &&& current == parent_at_begin ==> state.parent_of_query(current) == Some(span)
            &&& current != parent_at_begin ==> state.parent_of_query(current) is None
        },
        state.transaction_span is None ==> state.parent_of_query(current) is None,
{
}

/// A new connection is outside every transaction, has no span and nothing queued. Taking the
/// commands of a connection gives all that is queued, in order, and leaves nothing queued; depth and
/// span stay as they are.
pub proof fn law_commands_are_taken_once_and_in_order(
    new: SqliteConnection,
    conn: &mut SqliteConnection,
    commands: Vec<Command>,
)
    requires
        call_ensures(SqliteConnection::new, (), new),
        call_ensures(SqliteConnection::take_commands, (conn,), commands),
    ensures
        new.transaction_depth == 0,
        new.transaction_span is None,
        new.commands@.len() == 0,
        commands@ == old(conn).commands@,
        final(conn).commands@.len() == 0,
        final(conn).transaction_depth == old(conn).transaction_depth,
        final(conn).transaction_span == old(conn).transaction_span,
{
}

/// What a connection is taken to hold is what its fields hold, and queueing a command or changing
/// the span changes that part alone.
pub proof fn law_state_is_what_the_connection_holds(
    conn: SqliteConnection,
    command: Command,
    transaction_span: Option<(Span, Option<Id>)>,
)
    ensures
        conn@.depth == conn.transaction_depth,
        conn@.transaction_span == conn.transaction_span,
        conn@.commands == conn.commands@,
        conn@.with_command(command).commands == conn.commands@.push(command),
        conn@.with_command(command).depth == conn.transaction_depth,
        conn@.with_command(command).transaction_span == conn.transaction_span,
        conn@.with_span(transaction_span).commands == conn.commands@,
        conn@.with_span(transaction_span).depth == conn.transaction_depth,
        conn@.with_span(transaction_span).transaction_span == transaction_span,
        <Sqlite as Database>::NAME@ == "SQLite"@,
{
}

} // verus!
