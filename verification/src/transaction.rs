//! The life of a transaction or savepoint on a connection.
//!
//! A [`Transaction`] is opened by [`Transaction::begin`] and closed by a commit, a rollback or by
//! being dropped. Opening, committing and rolling back are requested from the driver of the
//! database, a [`TransactionManager`]; whoever waits for the database hands its reply to
//! [`Transaction::on_begin`], [`Transaction::on_commit`] or [`Transaction::on_rollback`]. A
//! transaction that is abandoned at any point goes to [`Transaction::drop`].
//!
//! The outermost transaction on a connection owns a tracing span. It installs the span before
//! anything is requested and takes it off once the transaction has ended. Savepoints share the
//! span and leave it alone.
//!
//! What a driver does is its own affair, so contracts say which of its methods were run, on what
//! and in which order: `call_ensures(f, args, result)` says that a call of `f` with `args` returned
//! `result`, and for a connection `c` that is changed, `*c` is the connection before the call and
//! `*final(c)` the connection after it.
use tracing::{Id, Span};
use vstd::prelude::*;

use crate::sql_str::SqlStr;
use crate::transaction::recorded::{unopened, RecordedSpan};

pub mod recorded;

verus! {

/// The target of the span of a transaction.
pub const SPAN_TARGET: &'static str = "sqlx::transaction";

/// The name of the span of a transaction.
pub const SPAN_NAME: &'static str = "db.transaction";

/// The field of the span that tells how the transaction ended.
pub const OUTCOME_FIELD: &'static str = "db.transaction.outcome";

/// A kind of database.
pub trait Database {
    /// A connection to a database of this kind.
    type Connection;

    /// The name of this kind of database.
    const NAME: &'static str;
}

/// The part of a database driver that manages transactions.
///
/// A transaction has a depth: 0 where no transaction is active, 1 in a transaction, and one more
/// for each savepoint inside it. Where a method stands for an operation that takes time, it
/// requests the operation, and the reply comes later.
pub trait TransactionManager {
    /// The kind of database that is managed.
    type Database: Database;

    /// Requests that a transaction be opened, or a savepoint inside the active one. `statement`
    /// may take the place of the default statement for a new transaction. Inside a transaction a
    /// custom statement is refused: the reply is
    /// [`Error::InvalidSavePoint`](crate::ansi_sql::Error::InvalidSavePoint), and nothing is run.
    fn begin(conn: &mut <Self::Database as Database>::Connection, statement: Option<SqlStr>);

    /// Requests that the active transaction be committed or the latest savepoint released.
    fn commit(conn: &mut <Self::Database as Database>::Connection);

    /// Requests that the active transaction be aborted or the latest savepoint restored.
    fn rollback(conn: &mut <Self::Database as Database>::Connection);

    /// Starts to abort the active transaction or restore the latest savepoint, with nobody
    /// waiting for the reply.
    fn start_rollback(conn: &mut <Self::Database as Database>::Connection);

    /// Returns the depth of the transaction.
    fn get_transaction_depth(conn: &<Self::Database as Database>::Connection) -> usize;

    /// Installs the span of the outermost transaction, together with the id of the span that was
    /// current when the transaction was opened. A driver that does not trace ignores it.
    fn set_transaction_span(
        conn: &mut <Self::Database as Database>::Connection,
        _span: Span,
        _parent_at_begin: Option<Id>,
    )
        default_ensures
            *final(conn) == *old(conn),
    {
    }

    /// Takes the span of the outermost transaction off. A driver that does not trace has none.
    fn clear_transaction_span(conn: &mut <Self::Database as Database>::Connection)
        default_ensures
            *final(conn) == *old(conn),
    {
    }

    /// Returns the span of the outermost transaction, if one is installed.
    fn current_transaction_span(conn: &<Self::Database as Database>::Connection) -> (span: Option<
        Span,
    >)
        default_ensures
            span is None,
    {
        None
    }

    /// Returns the span that is to be the parent of the next query's span, or `None` if that is
    /// the current span.
    fn query_parent_span(conn: &<Self::Database as Database>::Connection) -> (span: Option<Span>)
        default_ensures
            span is None,
    {
        None
    }
}

/// How a transaction ended.
#[derive(Clone, Copy, Debug, PartialEq, Eq, Structural)]
pub enum Outcome {
    /// It was committed.
    Committed,
    /// It was rolled back on request.
    RolledBack,
    /// It was abandoned, or an operation on it failed.
    Dropped,
}

impl Outcome {
    /// The text that stands for the outcome.
    pub open spec fn text(self) -> Seq<char> {
        match self {
            Outcome::Committed => "committed"@,
            Outcome::RolledBack => "rolled_back"@,
            Outcome::Dropped => "dropped"@,
        }
    }

    /// Returns the text that stands for the outcome.
    pub fn as_str(self) -> (text: &'static str)
        ensures
            text@ == self.text(),
    {
        match self {
            Outcome::Committed => "committed",
            Outcome::RolledBack => "rolled_back",
            Outcome::Dropped => "dropped",
        }
    }
}

/// The values that a new span of a transaction is made with, besides its target and name. The
/// field for the outcome starts empty.
pub struct SpanRequest {
    /// The parent of the span.
    pub parent: Span,
    /// The value of `db.system.name`.
    pub system_name: String,
    /// The value of `db.operation.name`.
    pub operation_name: &'static str,
    /// The value of `otel.kind`.
    pub otel_kind: &'static str,
}

/// `c` with an upper-case ASCII letter replaced by the lower-case one.
pub open spec fn ascii_lowercase(c: char) -> char {
    if 'A' <= c <= 'Z' {
        (c as u8 + 32) as char
    } else {
        c
    }
}

/// Whether `request` asks for a span for a transaction on a database of kind `DB`.
pub open spec fn is_span_request<DB: Database>(request: SpanRequest) -> bool {
    &&& crate::telemetry::is_current(request.parent)
    &&& request.system_name@ == DB::NAME@.map_values(|c: char| ascii_lowercase(c))
    &&& request.operation_name@ == "BEGIN"@
    &&& request.otel_kind@ == "client"@
}

/// Returns `text` with upper-case ASCII letters replaced by lower-case ones.
fn to_ascii_lowercase(text: &str) -> (lower: String)
    ensures
        lower@ == text@.map_values(|c: char| ascii_lowercase(c)),
{
    let mut lower = String::new();
    for c in it: text.chars()
        invariant
            it.seq() == text@,
            lower@ == text@.take(it.index() as int).map_values(|c: char| ascii_lowercase(c)),
    {
        assert(text@.take(it.index() + 1) == text@.take(it.index() as int).push(c));
        if 'A' <= c && c <= 'Z' {
            lower.push((c as u8 + 32u8) as char);
        } else {
            lower.push(c);
        }
        assert(lower@ == text@.take(it.index() + 1).map_values(|c: char| ascii_lowercase(c)));
    }
    assert(text@.take(text@.len() as int) == text@);
    lower
}

/// What a transaction has requested from its driver.
#[derive(Clone, Copy, Debug, PartialEq, Eq, Structural)]
pub enum Request {
    /// To be opened.
    Begin,
    /// To be committed.
    Commit,
    /// To be rolled back.
    Rollback,
}

/// What is recorded on a span of which `outcome` is recorded: that outcome or nothing.
pub open spec fn outcome_log(outcome: Option<Outcome>) -> Seq<(Seq<char>, Seq<char>)> {
    match outcome {
        Some(outcome) => seq![(OUTCOME_FIELD@, outcome.text())],
        None => Seq::empty(),
    }
}

/// An open transaction or savepoint, or one that has ended.
pub struct Transaction<TM: TransactionManager> {
    connection: <TM::Database as Database>::Connection,
    open: bool,
    span: RecordedSpan,
    is_outermost: bool,
    awaited: Option<Request>,
    outcome: Option<Outcome>,
}

impl<TM: TransactionManager> Transaction<TM> {
    /// The connection that the transaction is on.
    pub closed spec fn connection(self) -> <TM::Database as Database>::Connection {
        self.connection
    }

    /// Whether the transaction has not ended yet.
    pub closed spec fn open(self) -> bool {
        self.open
    }

    /// The handle to the transaction's span.
    pub closed spec fn handle(self) -> Span {
        self.span.handle()
    }

    /// What the transaction has recorded on its span, oldest first.
    pub closed spec fn log(self) -> Seq<(Seq<char>, Seq<char>)> {
        self.span.log()
    }

    /// Whether the transaction is no savepoint inside another one.
    pub closed spec fn outermost(self) -> bool {
        self.is_outermost
    }

    /// The request whose reply has not come yet.
    pub closed spec fn awaiting(self) -> Option<Request> {
        self.awaited
    }

    /// The outcome of the transaction, as far as it is on the span.
    pub closed spec fn recorded(self) -> Option<Outcome> {
        self.outcome
    }

    /// While the transaction is open, it has recorded nothing. Once it has ended, an outermost one
    /// has recorded its outcome and nothing else, and a savepoint nothing.
    pub open spec fn well_formed(self) -> bool {
        &&& self.recorded() is Some <==> !self.open() && self.outermost()
        &&& self.log() == outcome_log(self.recorded())
        &&& !self.open() ==> self.awaiting() is None
    }

    /// Whether `self` and `other` have the same span and are at the same place.
    pub open spec fn same_transaction(self, other: Self) -> bool {
        &&& self.handle() == other.handle()
        &&& self.outermost() == other.outermost()
    }

    /// Opens a transaction on `connection`, or a savepoint if a transaction is active there, and
    /// requests that from the driver.
    ///
    /// For a transaction, `open_span` makes the span, and the span is installed on the connection
    /// before the driver is asked to open anything. A savepoint takes the span that is installed,
    /// or the current one if there is none; no span is made for it.
    pub fn begin<F: FnOnce(SpanRequest) -> Span>(
        connection: <TM::Database as Database>::Connection,
        statement: Option<SqlStr>,
        open_span: F,
    ) -> (tx: Self)
        requires
            forall|request: SpanRequest|
                is_span_request::<TM::Database>(request) && call_ensures(
                    TM::get_transaction_depth,
                    (&connection,),
                    0usize,
                ) ==> #[trigger] call_requires(open_span, (request,)),
        ensures
            tx.well_formed(),
            tx.open(),
            tx.awaiting() == Some(Request::Begin),
            tx.recorded() is None,
            tx.log() == outcome_log(None),
            exists|depth: usize| #[trigger]
                call_ensures(TM::get_transaction_depth, (&connection,), depth) && tx.outermost()
                    == (depth == 0),
            tx.outermost() ==> exists|
                request: SpanRequest,
                span: Span,
                at_begin: Span,
                c1: &mut <TM::Database as Database>::Connection,
                c2: &mut <TM::Database as Database>::Connection,
            |
                {
                    &&& is_span_request::<TM::Database>(request)
                    &&& #[trigger] call_ensures(open_span, (request,), span)
                    &&& crate::telemetry::is_clone(span, tx.handle())
                    &&& #[trigger] crate::telemetry::is_current(at_begin)
                    &&& *c1 == connection
                    &&& #[trigger] call_ensures(
                        TM::set_transaction_span,
                        (c1, span, crate::telemetry::span_id(at_begin)),
                        (),
                    )
                    &&& *c2 == *final(c1)
                    &&& #[trigger] call_ensures(TM::begin, (c2, statement), ())
                    &&& tx.connection() == *final(c2)
                },
            !tx.outermost() ==> exists|
                installed: Option<Span>,
                shared: Span,
                c1: &mut <TM::Database as Database>::Connection,
            |
                {
                    &&& #[trigger] call_ensures(
                        TM::current_transaction_span,
                        (&connection,),
                        installed,
                    )
                    &&& match installed {
                        Some(span) => shared == span,
                        None => crate::telemetry::is_current(shared),
                    }
                    &&& #[trigger] crate::telemetry::is_clone(shared, tx.handle())
                    &&& *c1 == connection
                    &&& #[trigger] call_ensures(TM::begin, (c1, statement), ())
                    &&& tx.connection() == *final(c1)
                },
    {
        let depth_before = TM::get_transaction_depth(&connection);
        let is_outermost = depth_before == 0;
        let span = if is_outermost {
            let request = SpanRequest {
                parent: Span::current(),
                system_name: to_ascii_lowercase(<TM::Database as Database>::NAME),
                operation_name: "BEGIN",
                otel_kind: "client",
            };
            open_span(request)
        } else {
            match TM::current_transaction_span(&connection) {
                Some(span) => span,
                None => Span::current(),
            }
        };
        // Open from the start: should the driver fail to open the transaction, a rollback is to
        // be attempted in case it was opened all the same.
        let ghost shared = span;
        let mut tx = unopened(connection, span.clone(), is_outermost);
        if is_outermost {
            let at_begin = Span::current();
            assert(crate::telemetry::is_current(at_begin));
            let parent_at_begin = at_begin.id();
            TM::set_transaction_span(&mut tx.connection, span, parent_at_begin);
        }
        TM::begin(&mut tx.connection, statement);
        assert(crate::telemetry::is_clone(shared, tx.handle()));
        tx
    }

    /// Takes the reply to the request to open the transaction. If that failed, the transaction is
    /// dropped.
    pub fn on_begin<E>(&mut self, reply: Result<(), E>) -> (result: Result<(), E>)
        requires
            old(self).well_formed(),
            old(self).open(),
            old(self).awaiting() == Some(Request::Begin),
        ensures
            result == reply,
            reply is Ok ==> {
                &&& final(self).well_formed()
                &&& final(self).open()
                &&& final(self).awaiting() is None
                &&& final(self).same_transaction(*old(self))
                &&& final(self).log() == old(self).log()
                &&& final(self).connection() == old(self).connection()
            },
            reply is Err ==> exists|tx: &mut Self|
                *tx == *old(self) && #[trigger] call_ensures(Self::drop, (tx,), ()) && *final(tx)
                    == *final(self),
    {
        if reply.is_ok() {
            self.awaited = None;
        } else {
            self.drop();
        }
        reply
    }

    /// Requests that the transaction be committed or the savepoint released.
    pub fn commit(&mut self)
        requires
            old(self).well_formed(),
            old(self).open(),
            old(self).awaiting() is None,
        ensures
            final(self).well_formed(),
            final(self).open(),
            final(self).awaiting() == Some(Request::Commit),
            final(self).same_transaction(*old(self)),
            final(self).log() == old(self).log(),
            exists|c1: &mut <TM::Database as Database>::Connection|
                *c1 == old(self).connection() && #[trigger] call_ensures(TM::commit, (c1,), ())
                    && *final(c1) == final(self).connection(),
    {
        self.awaited = Some(Request::Commit);
        TM::commit(&mut self.connection);
    }

    /// Takes the reply to the request to commit. If it succeeded, the transaction has ended, and
    /// an outermost one records that and takes its span off. If it failed, the transaction is
    /// dropped.
    pub fn on_commit<E>(&mut self, reply: Result<(), E>) -> (result: Result<(), E>)
        requires
            old(self).well_formed(),
            old(self).open(),
            old(self).awaiting() == Some(Request::Commit),
        ensures
            result == reply,
            reply is Ok ==> {
                &&& final(self).well_formed()
                &&& !final(self).open()
                &&& final(self).same_transaction(*old(self))
                &&& old(self).outermost() ==> {
                    &&& final(self).recorded() == Some(Outcome::Committed)
                    &&& final(self).log() == old(self).log().push(
                        (OUTCOME_FIELD@, Outcome::Committed.text()),
                    )
                    &&& exists|c1: &mut <TM::Database as Database>::Connection|
                        *c1 == old(self).connection() && #[trigger] call_ensures(
                            TM::clear_transaction_span,
                            (c1,),
                            (),
                        ) && *final(c1) == final(self).connection()
                }
                &&& !old(self).outermost() ==> {
                    &&& final(self).recorded() is None
                    &&& final(self).log() == old(self).log()
                    &&& final(self).connection() == old(self).connection()
                }
            },
            reply is Err ==> exists|tx: &mut Self|
                *tx == *old(self) && #[trigger] call_ensures(Self::drop, (tx,), ()) && *final(tx)
                    == *final(self),
    {
        if reply.is_ok() {
            self.end(Outcome::Committed);
        } else {
            self.drop();
        }
        reply
    }

    /// Requests that the transaction be aborted or the savepoint restored.
    pub fn rollback(&mut self)
        requires
            old(self).well_formed(),
            old(self).open(),
            old(self).awaiting() is None,
        ensures
            final(self).well_formed(),
            final(self).open(),
            final(self).awaiting() == Some(Request::Rollback),
            final(self).same_transaction(*old(self)),
            final(self).log() == old(self).log(),
            exists|c1: &mut <TM::Database as Database>::Connection|
                *c1 == old(self).connection() && #[trigger] call_ensures(TM::rollback, (c1,), ())
                    && *final(c1) == final(self).connection(),
    {
        self.awaited = Some(Request::Rollback);
        TM::rollback(&mut self.connection);
    }

    /// Takes the reply to the request to roll back. If it succeeded, the transaction has ended, and
    /// an outermost one records that and takes its span off. If it failed, the transaction is
    /// dropped.
    pub fn on_rollback<E>(&mut self, reply: Result<(), E>) -> (result: Result<(), E>)
        requires
            old(self).well_formed(),
            old(self).open(),
            old(self).awaiting() == Some(Request::Rollback),
        ensures
            result == reply,
            reply is Ok ==> {
                &&& final(self).well_formed()
                &&& !final(self).open()
                &&& final(self).same_transaction(*old(self))
                &&& old(self).outermost() ==> {
                    &&& final(self).recorded() == Some(Outcome::RolledBack)
                    &&& final(self).log() == old(self).log().push(
                        (OUTCOME_FIELD@, Outcome::RolledBack.text()),
                    )
                    &&& exists|c1: &mut <TM::Database as Database>::Connection|
                        *c1 == old(self).connection() && #[trigger] call_ensures(
                            TM::clear_transaction_span,
                            (c1,),
                            (),
                        ) && *final(c1) == final(self).connection()
                }
                &&& !old(self).outermost() ==> {
                    &&& final(self).recorded() is None
                    &&& final(self).log() == old(self).log()
                    &&& final(self).connection() == old(self).connection()
                }
            },
            reply is Err ==> exists|tx: &mut Self|
                *tx == *old(self) && #[trigger] call_ensures(Self::drop, (tx,), ()) && *final(tx)
                    == *final(self),
    {
        if reply.is_ok() {
            self.end(Outcome::RolledBack);
        } else {
            self.drop();
        }
        reply
    }

    /// Abandons the transaction. If it is still open, a rollback is started; an outermost
    /// transaction then records that it was dropped and takes its span off. If it has ended,
    /// nothing happens.
    pub fn drop(&mut self)
        requires
            old(self).well_formed(),
        ensures
            !old(self).open() ==> *final(self) == *old(self),
            old(self).open() ==> {
                &&& final(self).well_formed()
                &&& !final(self).open()
                &&& final(self).same_transaction(*old(self))
                &&& old(self).outermost() ==> {
                    &&& final(self).recorded() == Some(Outcome::Dropped)
                    &&& final(self).log() == old(self).log().push(
                        (OUTCOME_FIELD@, Outcome::Dropped.text()),
                    )
                    &&& exists|
                        c1: &mut <TM::Database as Database>::Connection,
                        c2: &mut <TM::Database as Database>::Connection,
                    |
                        {
                            &&& *c1 == old(self).connection()
                            &&& #[trigger] call_ensures(TM::start_rollback, (c1,), ())
                            &&& *c2 == *final(c1)
                            &&& #[trigger] call_ensures(TM::clear_transaction_span, (c2,), ())
                            &&& *final(c2) == final(self).connection()
                        }
                }
                &&& !old(self).outermost() ==> {
                    &&& final(self).recorded() is None
                    &&& final(self).log() == old(self).log()
                    &&& exists|c1: &mut <TM::Database as Database>::Connection|
                        *c1 == old(self).connection() && #[trigger] call_ensures(
                            TM::start_rollback,
                            (c1,),
                            (),
                        ) && *final(c1) == final(self).connection()
                }
            },
    {
        if self.open {
            TM::start_rollback(&mut self.connection);
            self.end(Outcome::Dropped);
        }
    }

    /// Marks the transaction as ended. An outermost one records `outcome` and takes its span off.
    fn end(&mut self, outcome: Outcome)
        requires
            old(self).well_formed(),
            old(self).open(),
        ensures
            final(self).well_formed(),
            !final(self).open(),
            final(self).same_transaction(*old(self)),
            old(self).outermost() ==> {
                &&& final(self).recorded() == Some(outcome)
                &&& final(self).log() == old(self).log().push((OUTCOME_FIELD@, outcome.text()))
                &&& exists|c1: &mut <TM::Database as Database>::Connection|
                    *c1 == old(self).connection() && #[trigger] call_ensures(
                        TM::clear_transaction_span,
                        (c1,),
                        (),
                    ) && *final(c1) == final(self).connection()
            },
            !old(self).outermost() ==> {
                &&& final(self).recorded() is None
                &&& final(self).log() == old(self).log()
                &&& final(self).connection() == old(self).connection()
            },
    {
        self.open = false;
        self.awaited = None;
        if self.is_outermost {
            self.span.record(OUTCOME_FIELD, outcome.as_str());
            self.outcome = Some(outcome);
            TM::clear_transaction_span(&mut self.connection);
        }
    }

    /// Returns a handle to the transaction's span, for spans that are to stand under it.
    pub fn span(&self) -> (span: Span)
        ensures
            crate::telemetry::is_clone(self.handle(), span),
    {
        self.span.span()
    }

    /// Tells whether the transaction has not ended yet.
    pub fn is_open(&self) -> (result: bool)
        ensures
            result == self.open(),
    {
        self.open
    }

    /// Returns the request whose reply has not come yet, if there is one.
    pub fn awaited(&self) -> (request: Option<Request>)
        ensures
            request == self.awaiting(),
    {
        self.awaited
    }

    /// Returns the outcome that was recorded on the span, if any was.
    pub fn outcome(&self) -> (outcome: Option<Outcome>)
        ensures
            outcome == self.recorded(),
    {
        self.outcome
    }

    /// Returns the connection, to look at.
    pub fn deref(&self) -> (connection: &<TM::Database as Database>::Connection)
        ensures
            *connection == self.connection(),
    {
        &self.connection
    }

    /// Returns the connection, to use in the transaction.
    pub fn deref_mut(&mut self) -> (connection: &mut <TM::Database as Database>::Connection)
        ensures
            *connection == old(self).connection(),
            *final(connection) == final(self).connection(),
            final(self).same_transaction(*old(self)),
            final(self).open() == old(self).open(),
            final(self).awaiting() == old(self).awaiting(),
            final(self).recorded() == old(self).recorded(),
            final(self).log() == old(self).log(),
    {
        &mut self.connection
    }

    /// Returns the connection, to use in the transaction.
    pub fn as_mut(&mut self) -> (connection: &mut <TM::Database as Database>::Connection)
        ensures
            *connection == old(self).connection(),
            *final(connection) == final(self).connection(),
            final(self).same_transaction(*old(self)),
            final(self).open() == old(self).open(),
            final(self).awaiting() == old(self).awaiting(),
            final(self).recorded() == old(self).recorded(),
            final(self).log() == old(self).log(),
    {
        self.deref_mut()
    }
}

/// The outcomes are written out as `committed`, `rolled_back` and `dropped`, and the span of a
/// transaction has the target, the name and the field for the outcome that tools look for.
pub proof fn law_names_on_the_span(outcome: Outcome, text: &'static str)
    requires
        call_ensures(Outcome::as_str, (outcome,), text),
    ensures
        outcome is Committed ==> text@ == "committed"@,
        outcome is RolledBack ==> text@ == "rolled_back"@,
        outcome is Dropped ==> text@ == "dropped"@,
        outcome.text() == text@,
        SPAN_TARGET@ == "sqlx::transaction"@,
        SPAN_NAME@ == "db.transaction"@,
        OUTCOME_FIELD@ == "db.transaction.outcome"@,
{
}

/// What a transaction is said to hold is what it holds.
proof fn law_transaction_is_what_it_holds<TM: TransactionManager>(tx: Transaction<TM>)
    ensures
        tx.connection() == tx.connection,
        tx.open() == tx.open,
        tx.handle() == tx.span.handle(),
        tx.log() == tx.span.log(),
        tx.outermost() == tx.is_outermost,
        tx.awaiting() == tx.awaited,
        tx.recorded() == tx.outcome,
{
}

/// A request for a span asks for one under the current span, with the name of the database in
/// lower case, whatever the name is: each upper-case ASCII letter is replaced by the lower-case one,
/// and every other character stays.
pub proof fn law_span_request_names_the_database<DB: Database>(request: SpanRequest)
    requires
        is_span_request::<DB>(request),
    ensures
        call_ensures(Span::current, (), request.parent),
        request.operation_name@ == "BEGIN"@,
        request.otel_kind@ == "client"@,
        request.system_name@.len() == DB::NAME@.len(),
        forall|i: int|
            0 <= i < DB::NAME@.len() ==> #[trigger] request.system_name@[i] == if 'A'
                <= DB::NAME@[i] <= 'Z' {
                "abcdefghijklmnopqrstuvwxyz"@[DB::NAME@[i] as int - 'A' as int]
            } else {
                DB::NAME@[i]
            },
{
    reveal_strlit("abcdefghijklmnopqrstuvwxyz");
}

} // verus!
