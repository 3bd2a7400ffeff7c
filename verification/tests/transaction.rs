use std::fmt::Debug;
use std::sync::atomic::{AtomicU64, Ordering};
use std::sync::{Arc, Mutex, OnceLock};

use sqlx_transaction::ansi_sql::Error;
use sqlx_transaction::sql_str::SqlStr;
use sqlx_transaction::sqlite::{Command, SqliteConnection, SqliteTransactionManager};
use sqlx_transaction::transaction::{
    Database, Outcome, Request, SpanRequest, Transaction, TransactionManager, OUTCOME_FIELD,
    SPAN_NAME, SPAN_TARGET,
};
use tracing::{Id, Metadata, Span, Subscriber};
use tracing_core::callsite::{Callsite, Identifier};
use tracing_core::field::{Field, FieldSet, Value, Visit};
use tracing_core::span::{Attributes, Current, Record};
use tracing_core::{Event, Interest, Kind, Level};

struct Site(OnceLock<Metadata<'static>>);

impl Callsite for Site {
    fn set_interest(&self, _interest: Interest) {}

    fn metadata(&self) -> &Metadata<'_> {
        self.0.get().unwrap()
    }
}

fn new_span() -> Span {
    let site: &'static Site = Box::leak(Box::new(Site(OnceLock::new())));
    let fields = FieldSet::new(&["db.transaction.outcome"], Identifier(site));
    let metadata = Metadata::new(
        SPAN_NAME,
        SPAN_TARGET,
        Level::INFO,
        None,
        None,
        None,
        fields,
        Kind::SPAN,
    );
    site.0.set(metadata).unwrap();
    let metadata: &'static Metadata<'static> = site.0.get().unwrap();
    let values: [(&Field, Option<&dyn Value>); 0] = [];
    Span::new(metadata, &metadata.fields().value_set(&values))
}

/// Numbers spans, keeps what is recorded on them, and takes the span last entered as current.
#[derive(Default)]
struct Recorder {
    spans: AtomicU64,
    entered: Mutex<Vec<u64>>,
    metadata: Mutex<Vec<&'static Metadata<'static>>>,
    recorded: Mutex<Vec<(u64, String, String)>>,
}

struct Collect<'a>(&'a Recorder, u64);

impl Visit for Collect<'_> {
    fn record_str(&mut self, field: &Field, value: &str) {
        let entry = (self.1, String::from(field.name()), String::from(value));
        self.0.recorded.lock().unwrap().push(entry);
    }

    fn record_debug(&mut self, field: &Field, value: &dyn Debug) {
        let entry = (self.1, String::from(field.name()), format!("{value:?}"));
        self.0.recorded.lock().unwrap().push(entry);
    }
}

impl Subscriber for Recorder {
    fn enabled(&self, _metadata: &Metadata<'_>) -> bool {
        true
    }

    fn new_span(&self, span: &Attributes<'_>) -> Id {
        self.metadata.lock().unwrap().push(span.metadata());
        Id::from_u64(self.spans.fetch_add(1, Ordering::SeqCst) + 1)
    }

    fn record(&self, span: &Id, values: &Record<'_>) {
        values.record(&mut Collect(self, span.into_u64()));
    }

    fn record_follows_from(&self, _span: &Id, _follows: &Id) {}

    fn event(&self, _event: &Event<'_>) {}

    fn enter(&self, span: &Id) {
        self.entered.lock().unwrap().push(span.into_u64());
    }

    fn exit(&self, _span: &Id) {
        self.entered.lock().unwrap().pop();
    }

    fn current_span(&self) -> Current {
        match self.entered.lock().unwrap().last() {
            Some(id) => {
                let metadata = self.metadata.lock().unwrap()[*id as usize - 1];
                Current::new(Id::from_u64(*id), metadata)
            }
            None => Current::none(),
        }
    }
}

/// Runs `f` with spans going to a fresh recorder.
fn recording(f: impl FnOnce(&Recorder)) {
    let recorder = Arc::new(Recorder::default());
    tracing::subscriber::with_default(recorder.clone(), || f(&recorder));
}

fn outcomes(recorder: &Recorder) -> Vec<(u64, String, String)> {
    recorder.recorded.lock().unwrap().clone()
}

fn outcome_on(id: &Option<Id>, value: &str) -> Vec<(u64, String, String)> {
    let number = id.as_ref().unwrap().into_u64();
    vec![(number, String::from(OUTCOME_FIELD), String::from(value))]
}

type Tx = Transaction<SqliteTransactionManager>;

fn fresh(_request: SpanRequest) -> Span {
    new_span()
}

fn not_asked(_request: SpanRequest) -> Span {
    panic!("a savepoint makes no span")
}

/// The command to open a transaction.
fn begin() -> Command {
    Command::Begin(Ok(SqlStr::Static("BEGIN")))
}

/// The command to open a savepoint right inside a transaction.
fn savepoint() -> Command {
    Command::Begin(Ok(SqlStr::Owned(String::from("SAVEPOINT _sqlx_savepoint_1"))))
}

fn inside() -> SqliteConnection {
    let mut conn = SqliteConnection::new();
    conn.transaction_depth = 1;
    conn
}

#[test]
fn names_of_the_span() {
    assert_eq!(SPAN_TARGET, "sqlx::transaction");
    assert_eq!(SPAN_NAME, "db.transaction");
    assert_eq!(OUTCOME_FIELD, "db.transaction.outcome");
}

#[test]
fn texts_of_the_outcomes() {
    assert_eq!(Outcome::Committed.as_str(), "committed");
    assert_eq!(Outcome::RolledBack.as_str(), "rolled_back");
    assert_eq!(Outcome::Dropped.as_str(), "dropped");
}

#[test]
fn transaction_asks_for_a_span() {
    recording(|_| {
        let caller = new_span();
        let entered = caller.enter();
        let mut asked = Vec::new();
        let tx = Tx::begin(SqliteConnection::new(), None, |request| {
            asked.push((
                request.parent.id(),
                request.system_name,
                request.operation_name,
                request.otel_kind,
            ));
            new_span()
        });
        drop(entered);
        assert_eq!(
            asked,
            vec![(caller.id(), String::from("sqlite"), "BEGIN", "client")]
        );
        assert!(tx.is_open());
    });
}

#[test]
fn transaction_installs_its_span() {
    recording(|_| {
        let caller = new_span();
        let entered = caller.enter();
        let tx = Tx::begin(SqliteConnection::new(), None, fresh);
        drop(entered);
        let (span, parent) = tx.deref().transaction_span.as_ref().unwrap();
        assert!(span.id().is_some());
        assert_ne!(span.id(), caller.id());
        assert_eq!(span.id(), tx.span().id());
        assert_eq!(*parent, caller.id());
        assert_eq!(tx.deref().commands, vec![begin()]);
        assert_eq!(tx.outcome(), None);
    });
}

#[test]
fn custom_statement_is_passed_on() {
    let statement = SqlStr::Static("BEGIN EXCLUSIVE");
    let mut tx = Tx::begin(SqliteConnection::new(), Some(statement), fresh);
    let commands = tx.deref_mut().take_commands();
    assert_eq!(
        commands,
        vec![Command::Begin(Ok(SqlStr::Static("BEGIN EXCLUSIVE")))]
    );
    assert_eq!(tx.as_mut().take_commands(), vec![]);
}

#[test]
fn refused_savepoint() {
    recording(|recorder| {
        let statement = SqlStr::Static("BEGIN EXCLUSIVE");
        let mut tx = Tx::begin(inside(), Some(statement), not_asked);
        let refusal = Command::Begin(Err(Error::InvalidSavePoint));
        assert_eq!(tx.deref_mut().take_commands(), vec![refusal]);
        let reply = Err(Error::InvalidSavePoint);
        assert_eq!(tx.on_begin(reply), Err(Error::InvalidSavePoint));
        assert!(!tx.is_open());
        assert_eq!(tx.deref_mut().take_commands(), vec![Command::StartRollback]);
        assert_eq!(outcomes(recorder), vec![]);
    });
}

#[test]
fn one_reply_is_awaited_at_a_time() {
    let mut tx = Tx::begin(SqliteConnection::new(), None, fresh);
    assert_eq!(tx.awaited(), Some(Request::Begin));
    assert_eq!(tx.on_begin::<&str>(Ok(())), Ok(()));
    assert_eq!(tx.awaited(), None);
    tx.commit();
    assert_eq!(tx.awaited(), Some(Request::Commit));
    assert_eq!(tx.on_commit::<&str>(Ok(())), Ok(()));
    assert_eq!(tx.awaited(), None);
    let mut tx = Tx::begin(SqliteConnection::new(), None, fresh);
    assert_eq!(tx.on_begin::<&str>(Ok(())), Ok(()));
    tx.rollback();
    assert_eq!(tx.awaited(), Some(Request::Rollback));
    tx.drop();
    assert_eq!(tx.awaited(), None);
}

#[test]
fn failed_commit_records_one_outcome() {
    recording(|recorder| {
        let mut tx = Tx::begin(SqliteConnection::new(), None, fresh);
        assert_eq!(tx.on_begin::<&str>(Ok(())), Ok(()));
        tx.commit();
        assert_eq!(tx.on_commit(Err("disk full")), Err("disk full"));
        tx.drop();
        assert_eq!(outcomes(recorder), outcome_on(&tx.span().id(), "dropped"));
    });
}

#[test]
fn savepoint_that_is_not_opened_records_nothing() {
    recording(|recorder| {
        let mut tx = Tx::begin(inside(), None, not_asked);
        assert_eq!(tx.on_begin(Err("busy")), Err("busy"));
        assert_eq!(tx.outcome(), None);
        assert_eq!(outcomes(recorder), vec![]);
        assert_eq!(
            tx.deref_mut().take_commands(),
            vec![savepoint(), Command::StartRollback]
        );
    });
}

#[test]
fn committed_transaction() {
    recording(|recorder| {
        let mut tx = Tx::begin(SqliteConnection::new(), None, fresh);
        assert_eq!(tx.on_begin::<&str>(Ok(())), Ok(()));
        tx.commit();
        // Until the reply comes, the span stays.
        assert!(tx.is_open());
        assert!(tx.deref().transaction_span.is_some());
        assert_eq!(outcomes(recorder), vec![]);
        assert_eq!(tx.on_commit::<&str>(Ok(())), Ok(()));
        assert!(!tx.is_open());
        assert!(tx.deref().transaction_span.is_none());
        assert_eq!(outcomes(recorder), outcome_on(&tx.span().id(), "committed"));
        tx.drop();
        assert_eq!(tx.outcome(), Some(Outcome::Committed));
        assert_eq!(outcomes(recorder), outcome_on(&tx.span().id(), "committed"));
        assert_eq!(
            tx.deref_mut().take_commands(),
            vec![begin(), Command::Commit]
        );
    });
}

#[test]
fn rolled_back_transaction() {
    recording(|recorder| {
        let mut tx = Tx::begin(SqliteConnection::new(), None, fresh);
        assert_eq!(tx.on_begin::<&str>(Ok(())), Ok(()));
        tx.rollback();
        assert!(tx.deref().transaction_span.is_some());
        assert_eq!(tx.on_rollback::<&str>(Ok(())), Ok(()));
        assert!(!tx.is_open());
        assert!(tx.deref().transaction_span.is_none());
        tx.drop();
        assert_eq!(tx.outcome(), Some(Outcome::RolledBack));
        assert_eq!(
            outcomes(recorder),
            outcome_on(&tx.span().id(), "rolled_back")
        );
        assert_eq!(
            tx.deref_mut().take_commands(),
            vec![begin(), Command::Rollback]
        );
    });
}

#[test]
fn dropped_transaction_is_rolled_back() {
    recording(|recorder| {
        let mut tx = Tx::begin(SqliteConnection::new(), None, fresh);
        assert_eq!(tx.on_begin::<&str>(Ok(())), Ok(()));
        tx.drop();
        assert!(!tx.is_open());
        assert!(tx.deref().transaction_span.is_none());
        tx.drop();
        assert_eq!(tx.outcome(), Some(Outcome::Dropped));
        assert_eq!(outcomes(recorder), outcome_on(&tx.span().id(), "dropped"));
        assert_eq!(
            tx.deref_mut().take_commands(),
            vec![begin(), Command::StartRollback]
        );
    });
}

#[test]
fn failed_begin_is_undone() {
    recording(|recorder| {
        let mut tx = Tx::begin(SqliteConnection::new(), None, fresh);
        assert_eq!(tx.on_begin(Err("busy")), Err("busy"));
        assert!(!tx.is_open());
        assert!(tx.deref().transaction_span.is_none());
        assert_eq!(outcomes(recorder), outcome_on(&tx.span().id(), "dropped"));
        assert_eq!(
            tx.deref().commands,
            vec![begin(), Command::StartRollback]
        );
    });
}

#[test]
fn failed_commit_is_rolled_back() {
    let mut tx = Tx::begin(SqliteConnection::new(), None, fresh);
    assert_eq!(tx.on_begin::<&str>(Ok(())), Ok(()));
    tx.commit();
    assert_eq!(tx.on_commit(Err("disk full")), Err("disk full"));
    assert_eq!(tx.outcome(), Some(Outcome::Dropped));
    assert!(tx.deref().transaction_span.is_none());
    assert_eq!(
        tx.deref().commands,
        vec![
            begin(),
            Command::Commit,
            Command::StartRollback
        ]
    );
}

#[test]
fn failed_rollback_is_started_again() {
    let mut tx = Tx::begin(SqliteConnection::new(), None, fresh);
    assert_eq!(tx.on_begin::<&str>(Ok(())), Ok(()));
    tx.rollback();
    assert_eq!(tx.on_rollback(Err("lost")), Err("lost"));
    assert_eq!(tx.outcome(), Some(Outcome::Dropped));
    assert!(tx.deref().transaction_span.is_none());
    assert_eq!(
        tx.deref().commands,
        vec![
            begin(),
            Command::Rollback,
            Command::StartRollback
        ]
    );
}

#[test]
fn savepoint_shares_the_span() {
    recording(|recorder| {
        let outer = new_span();
        let mut conn = inside();
        conn.transaction_span = Some((outer.clone(), None));
        let mut tx = Tx::begin(conn, None, not_asked);
        assert_eq!(tx.span().id(), outer.id());
        assert!(tx.span().id().is_some());
        assert_eq!(tx.on_begin::<&str>(Ok(())), Ok(()));
        tx.commit();
        assert_eq!(tx.on_commit::<&str>(Ok(())), Ok(()));
        assert!(!tx.is_open());
        assert_eq!(tx.outcome(), None);
        assert_eq!(outcomes(recorder), vec![]);
        let (span, parent) = tx.deref().transaction_span.as_ref().unwrap();
        assert_eq!(span.id(), outer.id());
        assert_eq!(*parent, None);
        assert_eq!(
            tx.deref().commands,
            vec![savepoint(), Command::Commit]
        );
    });
}

#[test]
fn dropped_savepoint_leaves_the_span() {
    recording(|recorder| {
        let outer = new_span();
        let mut conn = inside();
        conn.transaction_span = Some((outer.clone(), None));
        let mut tx = Tx::begin(conn, None, not_asked);
        tx.drop();
        assert_eq!(tx.outcome(), None);
        assert_eq!(outcomes(recorder), vec![]);
        assert!(tx.deref().transaction_span.is_some());
        assert_eq!(
            tx.deref().commands,
            vec![savepoint(), Command::StartRollback]
        );
    });
}

#[test]
fn savepoint_without_installed_span_takes_the_current_one() {
    recording(|_| {
        let caller = new_span();
        let entered = caller.enter();
        let tx = Tx::begin(inside(), None, not_asked);
        drop(entered);
        assert_eq!(tx.span().id(), caller.id());
        assert!(tx.deref().transaction_span.is_none());
    });
}

#[test]
fn queries_follow_the_transaction() {
    recording(|_| {
        let caller = new_span();
        let own = new_span();
        let entered = caller.enter();
        let mut tx = Tx::begin(SqliteConnection::new(), None, fresh);
        let parent = SqliteTransactionManager::query_parent_span(tx.deref());
        assert_eq!(parent.unwrap().id(), tx.span().id());
        let entered_own = own.enter();
        assert!(SqliteTransactionManager::query_parent_span(tx.deref()).is_none());
        drop(entered_own);
        assert!(SqliteTransactionManager::query_parent_span(tx.deref()).is_some());
        tx.drop();
        assert!(SqliteTransactionManager::query_parent_span(tx.deref()).is_none());
        drop(entered);
    });
}

#[test]
fn parent_for_query_compares_ids() {
    recording(|_| {
        let (a, b) = (new_span(), new_span());
        let mut conn = SqliteConnection::new();
        assert!(conn.parent_for_query(&None).is_none());
        conn.transaction_span = Some((a.clone(), b.id()));
        assert_eq!(conn.parent_for_query(&b.id()).unwrap().id(), a.id());
        assert!(conn.parent_for_query(&a.id()).is_none());
        assert!(conn.parent_for_query(&None).is_none());
        conn.transaction_span = Some((a.clone(), None));
        assert_eq!(conn.parent_for_query(&None).unwrap().id(), a.id());
        assert!(conn.parent_for_query(&b.id()).is_none());
    });
}

#[test]
fn sqlite_manager_keeps_the_span() {
    recording(|_| {
        let span = new_span();
        let mut conn = SqliteConnection::new();
        assert!(SqliteTransactionManager::current_transaction_span(&conn).is_none());
        SqliteTransactionManager::set_transaction_span(&mut conn, span.clone(), None);
        let installed = SqliteTransactionManager::current_transaction_span(&conn);
        assert_eq!(installed.unwrap().id(), span.id());
        SqliteTransactionManager::clear_transaction_span(&mut conn);
        assert!(SqliteTransactionManager::current_transaction_span(&conn).is_none());
        assert_eq!(SqliteTransactionManager::get_transaction_depth(&conn), 0);
        assert_eq!(SqliteTransactionManager::get_transaction_depth(&inside()), 1);
    });
}

/// A driver that counts requests and does not trace.
struct Plain;

impl Database for Plain {
    type Connection = Vec<&'static str>;

    const NAME: &'static str = "Plain DB \u{c9}";
}

impl TransactionManager for Plain {
    type Database = Plain;

    fn begin(conn: &mut Vec<&'static str>, _statement: Option<SqlStr>) {
        conn.push("begin");
    }

    fn commit(conn: &mut Vec<&'static str>) {
        conn.push("commit");
    }

    fn rollback(conn: &mut Vec<&'static str>) {
        conn.push("rollback");
    }

    fn start_rollback(conn: &mut Vec<&'static str>) {
        conn.push("start_rollback");
    }

    fn get_transaction_depth(conn: &Vec<&'static str>) -> usize {
        conn.len()
    }
}

#[test]
fn driver_that_does_not_trace() {
    recording(|recorder| {
        let mut name = String::new();
        let mut tx = Transaction::<Plain>::begin(Vec::new(), None, |request| {
            name = request.system_name;
            new_span()
        });
        assert_eq!(name, "plain db \u{c9}");
        assert!(Plain::current_transaction_span(tx.deref()).is_none());
        assert!(Plain::query_parent_span(tx.deref()).is_none());
        tx.drop();
        assert_eq!(outcomes(recorder), outcome_on(&tx.span().id(), "dropped"));
        assert_eq!(*tx.deref(), vec!["begin", "start_rollback"]);
    });
}

#[test]
fn disabled_spans_are_carried_along() {
    let mut tx = Tx::begin(SqliteConnection::new(), None, |_request| Span::none());
    assert_eq!(tx.span().id(), None);
    assert!(tx.deref().transaction_span.is_some());
    assert_eq!(tx.on_begin::<&str>(Ok(())), Ok(()));
    tx.commit();
    assert_eq!(tx.on_commit::<&str>(Ok(())), Ok(()));
    assert!(tx.deref().transaction_span.is_none());
    assert_eq!(tx.outcome(), Some(Outcome::Committed));
}

/// A driver that lists its calls, on a connection with a fixed depth.
struct Listing;

struct Listed {
    depth: usize,
    calls: Vec<&'static str>,
}

impl Database for Listing {
    type Connection = Listed;

    const NAME: &'static str = "Listing";
}

impl TransactionManager for Listing {
    type Database = Listing;

    fn begin(conn: &mut Listed, _statement: Option<SqlStr>) {
        conn.calls.push("begin");
    }

    fn commit(conn: &mut Listed) {
        conn.calls.push("commit");
    }

    fn rollback(conn: &mut Listed) {
        conn.calls.push("rollback");
    }

    fn start_rollback(conn: &mut Listed) {
        conn.calls.push("start_rollback");
    }

    fn get_transaction_depth(conn: &Listed) -> usize {
        conn.depth
    }

    fn set_transaction_span(conn: &mut Listed, _span: Span, _parent_at_begin: Option<Id>) {
        conn.calls.push("set");
    }

    fn clear_transaction_span(conn: &mut Listed) {
        conn.calls.push("clear");
    }
}

fn listed(depth: usize) -> Transaction<Listing> {
    let conn = Listed {
        depth,
        calls: Vec::new(),
    };
    Transaction::begin(conn, None, fresh)
}

#[test]
fn span_is_set_and_cleared_once() {
    let mut tx = listed(0);
    assert_eq!(tx.on_begin::<&str>(Ok(())), Ok(()));
    tx.commit();
    assert_eq!(tx.on_commit::<&str>(Ok(())), Ok(()));
    tx.deref_mut().calls.push("use");
    tx.drop();
    assert_eq!(tx.deref().calls, vec!["set", "begin", "commit", "clear", "use"]);

    let mut tx = listed(0);
    assert_eq!(tx.on_begin::<&str>(Ok(())), Ok(()));
    tx.as_mut().calls.push("use");
    tx.rollback();
    assert_eq!(tx.on_rollback(Err("broken")), Err("broken"));
    tx.drop();
    assert_eq!(
        tx.deref().calls,
        vec!["set", "begin", "use", "rollback", "start_rollback", "clear"]
    );

    let mut tx = listed(0);
    assert_eq!(tx.on_begin(Err("broken")), Err("broken"));
    tx.drop();
    assert_eq!(tx.deref().calls, vec!["set", "begin", "start_rollback", "clear"]);
}

#[test]
fn savepoint_neither_sets_nor_clears_the_span() {
    let mut tx = listed(1);
    assert_eq!(tx.on_begin::<&str>(Ok(())), Ok(()));
    tx.rollback();
    assert_eq!(tx.on_rollback::<&str>(Ok(())), Ok(()));
    tx.drop();
    assert_eq!(tx.deref().calls, vec!["begin", "rollback"]);

    let mut tx = listed(1);
    tx.drop();
    assert_eq!(tx.deref().calls, vec!["begin", "start_rollback"]);
}
