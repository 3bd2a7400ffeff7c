//! What holds over the life of a transaction, whichever way it goes.
//!
//! Each statement speaks of calls: `call_ensures(f, args, result)` says that a call of `f` with
//! `args` returned `result`. Where a call changes a transaction, `*tx` is the transaction before
//! the call and `*final(tx)` the transaction after it.
use tracing::{Id, Span};
use vstd::prelude::*;

use crate::ansi_sql::Error;
use crate::sql_str::SqlStr;
use crate::sqlite::{Command, SqliteConnection, SqliteTransactionManager};
use crate::transaction::{
    Database, Outcome, Request, SpanRequest, Transaction, TransactionManager, OUTCOME_FIELD,
};

verus! {

/// The reply to the request to open `tx` came in.
pub open spec fn begin_answered<TM: TransactionManager, E>(
    tx: &mut Transaction<TM>,
    reply: Result<(), E>,
) -> bool {
    &&& tx.open()
    &&& tx.awaiting() == Some(Request::Begin)
    &&& exists|result: Result<(), E>| #[trigger]
        call_ensures(Transaction::<TM>::on_begin::<E>, (tx, reply), result)
}

/// The reply to a requested commit of `tx` came in.
pub open spec fn commit_answered<TM: TransactionManager, E>(
    tx: &mut Transaction<TM>,
    reply: Result<(), E>,
) -> bool {
    &&& tx.open()
    &&& tx.awaiting() == Some(Request::Commit)
    &&& exists|result: Result<(), E>| #[trigger]
        call_ensures(Transaction::<TM>::on_commit::<E>, (tx, reply), result)
}

/// The reply to a requested rollback of `tx` came in.
pub open spec fn rollback_answered<TM: TransactionManager, E>(
    tx: &mut Transaction<TM>,
    reply: Result<(), E>,
) -> bool {
    &&& tx.open()
    &&& tx.awaiting() == Some(Request::Rollback)
    &&& exists|result: Result<(), E>| #[trigger]
        call_ensures(Transaction::<TM>::on_rollback::<E>, (tx, reply), result)
}

/// `tx` was dropped.
pub open spec fn dropped<TM: TransactionManager>(tx: &mut Transaction<TM>) -> bool {
    call_ensures(Transaction::<TM>::drop, (tx,), ())
}

/// A commit or a rollback of `tx` was requested, or its connection was used.
pub open spec fn used<TM: TransactionManager>(tx: &mut Transaction<TM>) -> bool {
    ||| tx.open() && tx.awaiting() is None && call_ensures(Transaction::<TM>::commit, (tx,), ())
    ||| tx.open() && tx.awaiting() is None && call_ensures(Transaction::<TM>::rollback, (tx,), ())
    ||| exists|connection: &mut <TM::Database as Database>::Connection| #[trigger]
        call_ensures(Transaction::<TM>::deref_mut, (tx,), connection)
    ||| exists|connection: &mut <TM::Database as Database>::Connection| #[trigger]
        call_ensures(Transaction::<TM>::as_mut, (tx,), connection)
}

/// A requested commit of `tx` succeeded.
#[verifier::opaque]
pub open spec fn commit_succeeds<TM: TransactionManager, E>(tx: &mut Transaction<TM>) -> bool {
    exists|reply: Result<(), E>| reply is Ok && #[trigger] commit_answered(tx, reply)
}

/// A requested rollback of `tx` succeeded.
#[verifier::opaque]
pub open spec fn rollback_succeeds<TM: TransactionManager, E>(tx: &mut Transaction<TM>) -> bool {
    exists|reply: Result<(), E>| reply is Ok && #[trigger] rollback_answered(tx, reply)
}

/// An open `tx` was brought to its end: the reply to a commit or a rollback came in, opening it
/// failed, or it was dropped.
pub open spec fn ends<TM: TransactionManager, E>(tx: &mut Transaction<TM>) -> bool {
    ||| exists|reply: Result<(), E>| #[trigger] commit_answered(tx, reply)
    ||| exists|reply: Result<(), E>| #[trigger] rollback_answered(tx, reply)
    ||| exists|reply: Result<(), E>| reply is Err && #[trigger] begin_answered(tx, reply)
    ||| dropped(tx)
}

/// One of the calls that can be made on `tx` was made.
#[verifier::opaque]
pub open spec fn is_called<TM: TransactionManager, E>(tx: &mut Transaction<TM>) -> bool {
    ||| ends::<TM, E>(tx)
    ||| exists|reply: Result<(), E>| reply is Ok && #[trigger] begin_answered(tx, reply)
    ||| used(tx)
}

/// Whichever way an open transaction ends, it is closed then. An outermost one has recorded one
/// outcome on its span and nothing else, and a savepoint nothing.
pub proof fn law_every_ending_closes<TM: TransactionManager, E>(tx: &mut Transaction<TM>)
    requires
        tx.well_formed(),
        tx.open(),
        ends::<TM, E>(tx),
    ensures
        !final(tx).open(),
        final(tx).well_formed(),
        final(tx).same_transaction(*old(tx)),
        old(tx).outermost() ==> (final(tx).recorded() matches Some(outcome) && final(tx).log()
            == seq![(OUTCOME_FIELD@, outcome.text())]),
        !old(tx).outermost() ==> final(tx).recorded() is None && final(tx).log().len() == 0,
{
}

/// A transaction that has ended is left alone when it is dropped after that: no rollback is
/// started and nothing more is recorded.
pub proof fn law_ended_transaction_is_not_rolled_back<TM: TransactionManager, E>(
    tx: &mut Transaction<TM>,
    later: &mut Transaction<TM>,
)
    requires
        tx.well_formed(),
        tx.open(),
        ends::<TM, E>(tx),
        *later == *final(tx),
        dropped(later),
    ensures
        *final(later) == *old(later),
        final(later).log() == old(later).log(),
{
    law_every_ending_closes::<TM, E>(tx);
}

/// The outcome that is recorded tells how an outermost transaction ended: a requested commit or
/// rollback that succeeded is recorded as such, and everything else as a drop.
pub proof fn law_outcome_tells_the_ending<TM: TransactionManager, E>(tx: &mut Transaction<TM>)
    requires
        tx.well_formed(),
        tx.open(),
        tx.outermost(),
        ends::<TM, E>(tx),
    ensures
        final(tx).recorded() == Some(Outcome::Committed) <==> commit_succeeds::<TM, E>(tx),
        final(tx).recorded() == Some(Outcome::RolledBack) <==> rollback_succeeds::<TM, E>(tx),
        final(tx).recorded() == Some(Outcome::Dropped) <==> !commit_succeeds::<TM, E>(tx)
            && !rollback_succeeds::<TM, E>(tx),
{
    reveal(commit_succeeds);
    reveal(rollback_succeeds);
}

/// Every call keeps a transaction well-formed and leaves it the span and place that it has. A
/// call that does not end an open transaction records nothing, and neither does any call on one
/// that has ended.
pub proof fn law_only_an_ending_records<TM: TransactionManager, E>(tx: &mut Transaction<TM>)
    requires
        tx.well_formed(),
        is_called::<TM, E>(tx),
    ensures
        final(tx).well_formed(),
        final(tx).same_transaction(*old(tx)),
        !(old(tx).open() && ends::<TM, E>(tx)) ==> {
            &&& final(tx).log() == old(tx).log()
            &&& final(tx).recorded() == old(tx).recorded()
            &&& final(tx).open() == old(tx).open()
        },
{
    reveal(is_called);
}

/// Over its whole life, from being opened through any sequence of calls, a transaction records at
/// most one thing: an outermost one that has ended has recorded exactly its outcome, once, and
/// one that is open and a savepoint have recorded nothing. The outcome is `committed` exactly if
/// one of the calls was the reply that a requested commit had succeeded, `rolled_back` exactly if
/// one was the same for a rollback, and otherwise `dropped`.
pub proof fn law_one_outcome_over_a_life<
    TM: TransactionManager,
    F: FnOnce(SpanRequest) -> Span,
    E,
>(
    connection: <TM::Database as Database>::Connection,
    statement: Option<SqlStr>,
    open_span: F,
    begun: Transaction<TM>,
    calls: Seq<&mut Transaction<TM>>,
)
    requires
        call_ensures(Transaction::<TM>::begin::<F>, (connection, statement, open_span), begun),
        calls.len() > 0,
        *calls[0] == begun,
        forall|i: int| 0 < i < calls.len() ==> *(#[trigger] calls[i]) == *final(calls[i - 1]),
        forall|i: int| 0 <= i < calls.len() ==> is_called::<TM, E>(#[trigger] calls[i]),
    ensures
        final(calls.last()).well_formed(),
        final(calls.last()).same_transaction(begun),
        final(calls.last()).recorded() is Some <==> {
            &&& begun.outermost()
            &&& !final(calls.last()).open()
        },
        match final(calls.last()).recorded() {
            Some(outcome) => final(calls.last()).log() == seq![(OUTCOME_FIELD@, outcome.text())],
            None => final(calls.last()).log().len() == 0,
        },
        final(calls.last()).recorded() == Some(Outcome::Committed) <==> {
            &&& begun.outermost()
            &&& exists|i: int|
                0 <= i < calls.len() && commit_succeeds::<TM, E>(#[trigger] calls[i])
        },
        final(calls.last()).recorded() == Some(Outcome::RolledBack) <==> {
            &&& begun.outermost()
            &&& exists|i: int|
                0 <= i < calls.len() && rollback_succeeds::<TM, E>(#[trigger] calls[i])
        },
    decreases calls.len(),
{
    let last = calls.last();
    if calls.len() > 1 {
        let earlier = calls.drop_last();
        assert forall|i: int| 0 < i < earlier.len() implies *(#[trigger] earlier[i]) == *final(
            earlier[i - 1]) by {
            assert(earlier[i] == calls[i]);
        }
        assert forall|i: int| 0 <= i < earlier.len() implies is_called::<TM, E>(
            #[trigger] earlier[i],
        ) by {
            assert(earlier[i] == calls[i]);
        }
        law_one_outcome_over_a_life::<TM, F, E>(connection, statement, open_span, begun, earlier);
        assert(earlier.last() == calls[calls.len() - 2]);
        assert(*last == *final(earlier.last()));
        lemma_some_call_of_a_longer_sequence::<TM, E>(calls);
        lemma_call_changes_the_outcome::<TM, E>(last);
    } else {
        lemma_call_changes_the_outcome::<TM, E>(last);
    }
}

/// Some call of a sequence was a success exactly if the last one or some earlier one was.
proof fn lemma_some_call_of_a_longer_sequence<TM: TransactionManager, E>(
    calls: Seq<&mut Transaction<TM>>,
)
    requires
        calls.len() > 0,
    ensures
        (exists|i: int| 0 <= i < calls.len() && commit_succeeds::<TM, E>(#[trigger] calls[i])) <==> {
            ||| commit_succeeds::<TM, E>(calls.last())
            ||| exists|i: int|
                0 <= i < calls.drop_last().len() && commit_succeeds::<TM, E>(
                    #[trigger] calls.drop_last()[i],
                )
        },
        (exists|i: int| 0 <= i < calls.len() && rollback_succeeds::<TM, E>(#[trigger] calls[i]))
            <==> {
            ||| rollback_succeeds::<TM, E>(calls.last())
            ||| exists|i: int|
                0 <= i < calls.drop_last().len() && rollback_succeeds::<TM, E>(
                    #[trigger] calls.drop_last()[i],
                )
        },
{
    let earlier = calls.drop_last();
    assert(forall|i: int| 0 <= i < earlier.len() ==> #[trigger] earlier[i] == calls[i]);
    if exists|i: int| 0 <= i < calls.len() && commit_succeeds::<TM, E>(#[trigger] calls[i]) {
        let i = choose|i: int|
            0 <= i < calls.len() && commit_succeeds::<TM, E>(#[trigger] calls[i]);
        assert(i < earlier.len() ==> commit_succeeds::<TM, E>(earlier[i]));
    }
    if exists|i: int| 0 <= i < calls.len() && rollback_succeeds::<TM, E>(#[trigger] calls[i]) {
        let i = choose|i: int|
            0 <= i < calls.len() && rollback_succeeds::<TM, E>(#[trigger] calls[i]);
        assert(i < earlier.len() ==> rollback_succeeds::<TM, E>(earlier[i]));
    }
}

proof fn lemma_call_changes_the_outcome<TM: TransactionManager, E>(tx: &mut Transaction<TM>)
    requires
        tx.well_formed(),
        is_called::<TM, E>(tx),
    ensures
        final(tx).well_formed(),
        final(tx).same_transaction(*old(tx)),
        final(tx).recorded() == Some(Outcome::Committed) <==> {
            ||| old(tx).recorded() == Some(Outcome::Committed)
            ||| old(tx).outermost() && commit_succeeds::<TM, E>(tx)
        },
        final(tx).recorded() == Some(Outcome::RolledBack) <==> {
            ||| old(tx).recorded() == Some(Outcome::RolledBack)
            ||| old(tx).outermost() && rollback_succeeds::<TM, E>(tx)
        },
{
    reveal(is_called);
    reveal(commit_succeeds);
    reveal(rollback_succeeds);
    law_only_an_ending_records::<TM, E>(tx);
    if tx.open() && ends::<TM, E>(tx) {
        if tx.outermost() {
            law_outcome_tells_the_ending::<TM, E>(tx);
        } else {
            law_every_ending_closes::<TM, E>(tx);
        }
    }
}

/// A call of a driver, or a use of the connection by somebody else.
pub enum Step {
    /// [`TransactionManager::set_transaction_span`] with a span and the id of the span that was
    /// current.
    SetSpan(Span, Option<Id>),
    /// [`TransactionManager::begin`] with a statement.
    Begin(Option<SqlStr>),
    /// [`TransactionManager::commit`].
    Commit,
    /// [`TransactionManager::rollback`].
    Rollback,
    /// [`TransactionManager::start_rollback`].
    StartRollback,
    /// [`TransactionManager::clear_transaction_span`].
    ClearSpan,
    /// The connection was handed out by its transaction.
    Use,
}

/// `step` was taken on `conn`.
#[verifier::opaque]
pub open spec fn is_taken<TM: TransactionManager>(
    step: Step,
    conn: &mut <TM::Database as Database>::Connection,
) -> bool {
    match step {
        Step::SetSpan(span, id) => call_ensures(TM::set_transaction_span, (conn, span, id), ()),
        Step::Begin(statement) => call_ensures(TM::begin, (conn, statement), ()),
        Step::Commit => call_ensures(TM::commit, (conn,), ()),
        Step::Rollback => call_ensures(TM::rollback, (conn,), ()),
        Step::StartRollback => call_ensures(TM::start_rollback, (conn,), ()),
        Step::ClearSpan => call_ensures(TM::clear_transaction_span, (conn,), ()),
        Step::Use => {
            ||| exists|tx: &mut Transaction<TM>| #[trigger]
                call_ensures(Transaction::<TM>::deref_mut, (tx,), conn)
            ||| exists|tx: &mut Transaction<TM>| #[trigger]
                call_ensures(Transaction::<TM>::as_mut, (tx,), conn)
        },
    }
}

/// Each of the `steps` was taken, on the connection at the same place of `conns`.
pub open spec fn are_taken<TM: TransactionManager>(
    steps: Seq<Step>,
    conns: Seq<&mut <TM::Database as Database>::Connection>,
) -> bool {
    &&& steps.len() == conns.len()
    &&& forall|i: int| 0 <= i < steps.len() ==> is_taken::<TM>(#[trigger] steps[i], conns[i])
}

/// The steps on the connection of a transaction that is opened by `statement`.
///
/// If it is an outermost one, the span is set once, before anything else. As long as it has not
/// `ended`, the span is not cleared. Once it has, the span was cleared once, and the driver was not
/// called after that. For a savepoint the span is neither set nor cleared.
pub open spec fn are_steps_of_a_life(
    steps: Seq<Step>,
    statement: Option<SqlStr>,
    outermost: bool,
    ended: bool,
) -> bool {
    if outermost {
        &&& steps.len() >= 2
        &&& steps[0] is SetSpan
        &&& steps[1] == Step::Begin(statement)
        &&& forall|i: int| 0 < i < steps.len() ==> !(#[trigger] steps[i] is SetSpan)
        &&& if ended {
            exists|cleared: int| #[trigger] is_cleared_at(steps, cleared)
        } else {
            forall|i: int| 0 <= i < steps.len() ==> !(#[trigger] steps[i] is ClearSpan)
        }
    } else {
        &&& steps.len() >= 1
        &&& steps[0] == Step::Begin(statement)
        &&& forall|i: int| 0 <= i < steps.len() ==> !(#[trigger] steps[i] is SetSpan)
        &&& forall|i: int| 0 <= i < steps.len() ==> !(#[trigger] steps[i] is ClearSpan)
    }
}

/// The step at `cleared` is the only one by which the span is cleared, and the last call of the
/// driver.
pub open spec fn is_cleared_at(steps: Seq<Step>, cleared: int) -> bool {
    &&& 0 <= cleared < steps.len()
    &&& steps[cleared] is ClearSpan
    &&& forall|i: int| 0 <= i < cleared ==> !(#[trigger] steps[i] is ClearSpan)
    &&& forall|i: int| cleared < i < steps.len() ==> #[trigger] steps[i] is Use
}

/// Over the life of an outermost transaction, from being opened through any sequence of calls, its
/// driver is called to set the span once, before it is called for anything else, and to clear the
/// span once, when the transaction ends; after that the driver is not called any more. The span
/// that is set is the one that the transaction has. Over the life of a savepoint the driver is
/// never called to set or clear a span.
pub proof fn law_span_is_set_and_cleared_once<
    TM: TransactionManager,
    F: FnOnce(SpanRequest) -> Span,
    E,
>(
    connection: <TM::Database as Database>::Connection,
    statement: Option<SqlStr>,
    open_span: F,
    begun: Transaction<TM>,
    calls: Seq<&mut Transaction<TM>>,
)
    requires
        call_ensures(Transaction::<TM>::begin::<F>, (connection, statement, open_span), begun),
        calls.len() > 0,
        *calls[0] == begun,
        forall|i: int| 0 < i < calls.len() ==> *(#[trigger] calls[i]) == *final(calls[i - 1]),
        forall|i: int| 0 <= i < calls.len() ==> is_called::<TM, E>(#[trigger] calls[i]),
    ensures
        exists|steps: Seq<Step>, conns: Seq<&mut <TM::Database as Database>::Connection>|
            {
                &&& #[trigger] are_taken::<TM>(steps, conns)
                &&& are_steps_of_a_life(
                    steps,
                    statement,
                    begun.outermost(),
                    !final(calls.last()).open(),
                )
                &&& steps[0] matches Step::SetSpan(span, _) ==> crate::telemetry::is_clone(
                    span,
                    begun.handle(),
                )
                &&& *conns[0] == connection
                &&& forall|i: int|
                    0 < i < conns.len() ==> *(#[trigger] conns[i]) == *final(conns[i - 1])
                &&& *final(conns.last()) == final(calls.last()).connection()
            },
    decreases calls.len(),
{
    let earlier = calls.drop_last();
    let last = calls.last();
    if earlier.len() == 0 {
        lemma_steps_of_begin(connection, statement, open_span, begun);
    } else {
        assert forall|i: int| 0 < i < earlier.len() implies *(#[trigger] earlier[i]) == *final(
            earlier[i - 1]) by {
            assert(earlier[i] == calls[i]);
        }
        assert forall|i: int| 0 <= i < earlier.len() implies is_called::<TM, E>(
            #[trigger] earlier[i],
        ) by {
            assert(earlier[i] == calls[i]);
        }
        law_span_is_set_and_cleared_once::<TM, F, E>(
            connection,
            statement,
            open_span,
            begun,
            earlier,
        );
        law_one_outcome_over_a_life::<TM, F, E>(connection, statement, open_span, begun, earlier);
        assert(earlier.last() == calls[calls.len() - 2]);
        assert(*last == *final(earlier.last()));
    }
    let (steps, conns) = choose|
        steps: Seq<Step>,
        conns: Seq<&mut <TM::Database as Database>::Connection>,
    |
        {
            &&& #[trigger] are_taken::<TM>(steps, conns)
            &&& are_steps_of_a_life(steps, statement, begun.outermost(), !last.open())
            &&& steps[0] matches Step::SetSpan(span, _) ==> crate::telemetry::is_clone(
                span,
                begun.handle(),
            )
            &&& *conns[0] == connection
            &&& forall|i: int|
                0 < i < conns.len() ==> *(#[trigger] conns[i]) == *final(conns[i - 1])
            &&& *final(conns.last()) == last.connection()
        };
    lemma_steps_of_a_call::<TM, E>(last);
    let (more, on) = choose|
        more: Seq<Step>,
        on: Seq<&mut <TM::Database as Database>::Connection>,
    |
        {
            &&& #[trigger] are_taken::<TM>(more, on)
            &&& are_steps_of_a_call(more, begun.outermost(), last.open(), final(last).open())
            &&& on.len() == 0 ==> last.connection() == final(last).connection()
            &&& on.len() > 0 ==> *on[0] == last.connection()
            &&& on.len() > 0 ==> *final(on.last()) == final(last).connection()
            &&& forall|i: int| 0 < i < on.len() ==> *(#[trigger] on[i]) == *final(on[i - 1])
        };
    let all_steps = steps + more;
    let all_conns = conns + on;
    assert(are_taken::<TM>(all_steps, all_conns));
    lemma_steps_go_on(
        steps,
        more,
        statement,
        begun.outermost(),
        last.open(),
        final(last).open(),
    );
    assert forall|i: int| 0 < i < all_conns.len() implies *(#[trigger] all_conns[i]) == *final(
        all_conns[i - 1]) by {
        if i < conns.len() {
            assert(all_conns[i] == conns[i] && all_conns[i - 1] == conns[i - 1]);
        } else if i > conns.len() {
            let j = i - conns.len();
            assert(all_conns[i] == on[j] && all_conns[i - 1] == on[j - 1]);
        }
    }
    assert(all_conns.last() == if on.len() > 0 {
        on.last()
    } else {
        conns.last()
    });
}

/// The steps of one call on a transaction that is open before and after the call as given.
spec fn are_steps_of_a_call(
    steps: Seq<Step>,
    outermost: bool,
    open_before: bool,
    open_after: bool,
) -> bool {
    &&& forall|i: int| 0 <= i < steps.len() ==> !(#[trigger] steps[i] is SetSpan)
    &&& if !open_before {
        !open_after && forall|i: int| 0 <= i < steps.len() ==> #[trigger] steps[i] is Use
    } else if outermost && !open_after {
        is_cleared_at(steps, steps.len() - 1)
    } else {
        forall|i: int| 0 <= i < steps.len() ==> !(#[trigger] steps[i] is ClearSpan)
    }
}

proof fn lemma_steps_go_on(
    steps: Seq<Step>,
    more: Seq<Step>,
    statement: Option<SqlStr>,
    outermost: bool,
    open_before: bool,
    open_after: bool,
)
    requires
        are_steps_of_a_life(steps, statement, outermost, !open_before),
        are_steps_of_a_call(more, outermost, open_before, open_after),
    ensures
        are_steps_of_a_life(steps + more, statement, outermost, !open_after),
{
    let all = steps + more;
    assert(forall|i: int| 0 <= i < steps.len() ==> #[trigger] all[i] == steps[i]);
    assert(forall|i: int|
        steps.len() <= i < all.len() ==> #[trigger] all[i] == more[i - steps.len()]);
    if outermost && !open_after {
        let cleared = if open_before {
            all.len() - 1
        } else {
            choose|cleared: int| #[trigger] is_cleared_at(steps, cleared)
        };
        assert(is_cleared_at(all, cleared));
    }
}

proof fn lemma_steps_of_begin<TM: TransactionManager, F: FnOnce(SpanRequest) -> Span>(
    connection: <TM::Database as Database>::Connection,
    statement: Option<SqlStr>,
    open_span: F,
    begun: Transaction<TM>,
)
    requires
        call_ensures(Transaction::<TM>::begin::<F>, (connection, statement, open_span), begun),
    ensures
        exists|steps: Seq<Step>, conns: Seq<&mut <TM::Database as Database>::Connection>|
            {
                &&& #[trigger] are_taken::<TM>(steps, conns)
                &&& are_steps_of_a_life(steps, statement, begun.outermost(), false)
                &&& steps[0] matches Step::SetSpan(span, _) ==> crate::telemetry::is_clone(
                    span,
                    begun.handle(),
                )
                &&& *conns[0] == connection
                &&& forall|i: int|
                    0 < i < conns.len() ==> *(#[trigger] conns[i]) == *final(conns[i - 1])
                &&& *final(conns.last()) == begun.connection()
            },
{
    reveal(is_taken);
    if begun.outermost() {
        let (request, span, at_begin, c1, c2) = choose|
            request: SpanRequest,
            span: Span,
            at_begin: Span,
            c1: &mut <TM::Database as Database>::Connection,
            c2: &mut <TM::Database as Database>::Connection,
        |
            {
                &&& #[trigger] call_ensures(open_span, (request,), span)
                &&& crate::telemetry::is_clone(span, begun.handle())
                &&& #[trigger] crate::telemetry::is_current(at_begin)
                &&& *c1 == connection
                &&& #[trigger] call_ensures(
                    TM::set_transaction_span,
                    (c1, span, crate::telemetry::span_id(at_begin)),
                    (),
                )
                &&& *c2 == *final(c1)
                &&& #[trigger] call_ensures(TM::begin, (c2, statement), ())
                &&& begun.connection() == *final(c2)
            };
        let steps = seq![
            Step::SetSpan(span, crate::telemetry::span_id(at_begin)),
            Step::Begin(statement),
        ];
        assert(are_taken::<TM>(steps, seq![c1, c2]));
    } else {
        let c1 = choose|c1: &mut <TM::Database as Database>::Connection|
            *c1 == connection && #[trigger] call_ensures(TM::begin, (c1, statement), ())
                && begun.connection() == *final(c1);
        assert(are_taken::<TM>(seq![Step::Begin(statement)], seq![c1]));
    }
}

proof fn lemma_steps_of_a_call<TM: TransactionManager, E>(tx: &mut Transaction<TM>)
    requires
        tx.well_formed(),
        is_called::<TM, E>(tx),
    ensures
        exists|steps: Seq<Step>, conns: Seq<&mut <TM::Database as Database>::Connection>|
            {
                &&& #[trigger] are_taken::<TM>(steps, conns)
                &&& are_steps_of_a_call(
                    steps,
                    old(tx).outermost(),
                    old(tx).open(),
                    final(tx).open(),
                )
                &&& conns.len() == 0 ==> old(tx).connection() == final(tx).connection()
                &&& conns.len() > 0 ==> *conns[0] == old(tx).connection() && *final(conns.last())
                    == final(tx).connection()
                &&& forall|i: int|
                    0 < i < conns.len() ==> *(#[trigger] conns[i]) == *final(conns[i - 1])
            },
{
    reveal(is_called);
    reveal(is_taken);
    if used(tx) {
        lemma_steps_of_a_use(tx);
    } else if tx.open() && tx.outermost() && ends::<TM, E>(tx) {
        lemma_steps_of_an_ending::<TM, E>(tx);
    } else if tx.open() && ends::<TM, E>(tx) && exists|
        c1: &mut <TM::Database as Database>::Connection,
    |
        *c1 == tx.connection() && #[trigger] call_ensures(TM::start_rollback, (c1,), ())
            && *final(c1) == final(tx).connection() {
        let c1 = choose|c1: &mut <TM::Database as Database>::Connection|
            *c1 == tx.connection() && #[trigger] call_ensures(TM::start_rollback, (c1,), ())
                && *final(c1) == final(tx).connection();
        assert(are_taken::<TM>(seq![Step::StartRollback], seq![c1]));
    } else {
        assert(are_taken::<TM>(Seq::empty(), Seq::empty()));
    }
}

proof fn lemma_steps_of_a_use<TM: TransactionManager>(tx: &mut Transaction<TM>)
    requires
        tx.well_formed(),
        used(tx),
    ensures
        exists|steps: Seq<Step>, conns: Seq<&mut <TM::Database as Database>::Connection>|
            {
                &&& #[trigger] are_taken::<TM>(steps, conns)
                &&& are_steps_of_a_call(
                    steps,
                    old(tx).outermost(),
                    old(tx).open(),
                    final(tx).open(),
                )
                &&& conns.len() == 1
                &&& *conns[0] == old(tx).connection()
                &&& *final(conns[0]) == final(tx).connection()
            },
{
    reveal(is_taken);
    if exists|conn: &mut <TM::Database as Database>::Connection| #[trigger]
        call_ensures(Transaction::<TM>::deref_mut, (tx,), conn) {
        let conn = choose|conn: &mut <TM::Database as Database>::Connection| #[trigger]
            call_ensures(Transaction::<TM>::deref_mut, (tx,), conn);
        assert(are_taken::<TM>(seq![Step::Use], seq![conn]));
    } else if exists|conn: &mut <TM::Database as Database>::Connection| #[trigger]
        call_ensures(Transaction::<TM>::as_mut, (tx,), conn) {
        let conn = choose|conn: &mut <TM::Database as Database>::Connection| #[trigger]
            call_ensures(Transaction::<TM>::as_mut, (tx,), conn);
        assert(are_taken::<TM>(seq![Step::Use], seq![conn]));
    } else if call_ensures(Transaction::<TM>::commit, (tx,), ()) {
        let conn = choose|conn: &mut <TM::Database as Database>::Connection|
            *conn == tx.connection() && #[trigger] call_ensures(TM::commit, (conn,), ())
                && *final(conn) == final(tx).connection();
        assert(are_taken::<TM>(seq![Step::Commit], seq![conn]));
    } else {
        let conn = choose|conn: &mut <TM::Database as Database>::Connection|
            *conn == tx.connection() && #[trigger] call_ensures(TM::rollback, (conn,), ())
                && *final(conn) == final(tx).connection();
        assert(are_taken::<TM>(seq![Step::Rollback], seq![conn]));
    }
}

proof fn lemma_steps_of_an_ending<TM: TransactionManager, E>(tx: &mut Transaction<TM>)
    requires
        tx.well_formed(),
        tx.open(),
        tx.outermost(),
        ends::<TM, E>(tx),
    ensures
        exists|steps: Seq<Step>, conns: Seq<&mut <TM::Database as Database>::Connection>|
            {
                &&& #[trigger] are_taken::<TM>(steps, conns)
                &&& are_steps_of_a_call(steps, true, true, final(tx).open())
                &&& conns.len() > 0
                &&& *conns[0] == old(tx).connection()
                &&& *final(conns.last()) == final(tx).connection()
                &&& forall|i: int|
                    0 < i < conns.len() ==> *(#[trigger] conns[i]) == *final(conns[i - 1])
            },
{
    reveal(is_taken);
    law_every_ending_closes::<TM, E>(tx);
    if exists|c1: &mut <TM::Database as Database>::Connection|
        *c1 == tx.connection() && #[trigger] call_ensures(TM::clear_transaction_span, (c1,), ())
            && *final(c1) == final(tx).connection() {
        let c1 = choose|c1: &mut <TM::Database as Database>::Connection|
            *c1 == tx.connection() && #[trigger] call_ensures(TM::clear_transaction_span, (c1,), ())
                && *final(c1) == final(tx).connection();
        assert(are_taken::<TM>(seq![Step::ClearSpan], seq![c1]));
    } else {
        let (c1, c2) = choose|
            c1: &mut <TM::Database as Database>::Connection,
            c2: &mut <TM::Database as Database>::Connection,
        |
            {
                &&& *c1 == tx.connection()
                &&& #[trigger] call_ensures(TM::start_rollback, (c1,), ())
                &&& *c2 == *final(c1)
                &&& #[trigger] call_ensures(TM::clear_transaction_span, (c2,), ())
                &&& *final(c2) == final(tx).connection()
            };
        assert(are_taken::<TM>(seq![Step::StartRollback, Step::ClearSpan], seq![c1, c2]));
    }
}

/// Opening a transaction on an SQLite connection installs its span, together with the id of the
/// span that is current then, and queues the request to open it.
pub proof fn law_sqlite_transaction_installs_its_span<F: FnOnce(SpanRequest) -> Span>(
    conn: SqliteConnection,
    statement: Option<SqlStr>,
    open_span: F,
    tx: Transaction<SqliteTransactionManager>,
)
    requires
        conn@.depth == 0,
        call_ensures(
            Transaction::<SqliteTransactionManager>::begin::<F>,
            (conn, statement, open_span),
            tx,
        ),
    ensures
        tx.outermost(),
        exists|span: Span, at_begin: Span, decision: Result<SqlStr, Error>|
            {
                &&& #[trigger] crate::telemetry::is_clone(span, tx.handle())
                &&& #[trigger] crate::telemetry::is_current(at_begin)
                &&& #[trigger] crate::ansi_sql::is_begin_decision(0, statement, decision)
                &&& tx.connection()@ == conn@.with_span(
                    Some((span, crate::telemetry::span_id(at_begin))),
                ).with_command(Command::Begin(decision))
            },
{
}

/// Opening a savepoint on an SQLite connection changes nothing but that the request is queued. The
/// savepoint has the span that is installed.
pub proof fn law_sqlite_savepoint_shares_the_span<F: FnOnce(SpanRequest) -> Span>(
    conn: SqliteConnection,
    statement: Option<SqlStr>,
    open_span: F,
    tx: Transaction<SqliteTransactionManager>,
)
    requires
        conn@.depth > 0,
        call_ensures(
            Transaction::<SqliteTransactionManager>::begin::<F>,
            (conn, statement, open_span),
            tx,
        ),
    ensures
        !tx.outermost(),
        exists|decision: Result<SqlStr, Error>|
            {
                &&& #[trigger] crate::ansi_sql::is_begin_decision(
                    conn@.depth,
                    statement,
                    decision,
                )
                &&& tx.connection()@ == conn@.with_command(Command::Begin(decision))
            },
        conn@.transaction_span matches Some((span, _)) ==> exists|copy: Span|
            crate::telemetry::is_clone(span, copy) && #[trigger] crate::telemetry::is_clone(
                copy,
                tx.handle(),
            ),
{
}

/// Whichever way an open transaction on an SQLite connection ends, no span is installed then if
/// it was the outermost one, and the installed span stays if it was a savepoint. The depth is not
/// touched.
pub proof fn law_sqlite_span_goes_with_the_outermost_transaction<E>(
    tx: &mut Transaction<SqliteTransactionManager>,
)
    requires
        tx.well_formed(),
        tx.open(),
        ends::<SqliteTransactionManager, E>(tx),
    ensures
        old(tx).outermost() ==> final(tx).connection()@.transaction_span is None,
        !old(tx).outermost() ==> final(tx).connection()@.transaction_span
            == old(tx).connection()@.transaction_span,
        final(tx).connection()@.depth == old(tx).connection()@.depth,
{
}

/// On an SQLite connection a rollback is started exactly if the transaction is dropped or an
/// operation on it fails; an ending that succeeds queues nothing.
pub proof fn law_sqlite_rollback_is_started_on_failure<E>(
    tx: &mut Transaction<SqliteTransactionManager>,
    reply: Result<(), E>,
)
    requires
        tx.well_formed(),
        tx.open(),
        ({
            ||| begin_answered(tx, reply)
            ||| commit_answered(tx, reply)
            ||| rollback_answered(tx, reply)
            ||| reply is Err && dropped(tx)
        }),
    ensures
        reply is Ok ==> final(tx).connection()@.commands == old(tx).connection()@.commands,
        reply is Err ==> final(tx).connection()@.commands == old(tx).connection()@.commands.push(
            Command::StartRollback,
        ),
{
}

/// While a transaction on an SQLite connection is open, a query belongs under the span of the
/// transaction if the span that was current when the transaction was opened is current, and under
/// the current span otherwise. Once the transaction has ended, it always belongs under the current
/// span.
pub proof fn law_sqlite_queries_follow_the_transaction<F: FnOnce(SpanRequest) -> Span, E>(
    conn: SqliteConnection,
    statement: Option<SqlStr>,
    open_span: F,
    tx: &mut Transaction<SqliteTransactionManager>,
)
    requires
        conn@.depth == 0,
        call_ensures(
            Transaction::<SqliteTransactionManager>::begin::<F>,
            (conn, statement, open_span),
            *tx,
        ),
        ends::<SqliteTransactionManager, E>(tx),
    ensures
        exists|span: Span, at_begin: Span|
            {
                &&& #[trigger] crate::telemetry::is_clone(span, old(tx).handle())
                &&& #[trigger] crate::telemetry::is_current(at_begin)
                &&& forall|current: Option<Id>| #[trigger]
                    old(tx).connection()@.parent_of_query(current) == (if current
                        == crate::telemetry::span_id(at_begin) {
                        Some(span)
                    } else {
                        None::<Span>
                    })
            },
        forall|current: Option<Id>| #[trigger]
            final(tx).connection()@.parent_of_query(current) is None,
{
    law_sqlite_transaction_installs_its_span(conn, statement, open_span, *tx);
    law_sqlite_span_goes_with_the_outermost_transaction::<E>(tx);
}

/// A transaction on an SQLite connection that is opened and then committed leaves the connection
/// as it was, but for the two requests that were queued.
pub proof fn law_sqlite_commit_leaves_the_connection_as_it_was<F: FnOnce(SpanRequest) -> Span, E>(
    conn: SqliteConnection,
    statement: Option<SqlStr>,
    open_span: F,
    opening: &mut Transaction<SqliteTransactionManager>,
    tx: &mut Transaction<SqliteTransactionManager>,
    closing: &mut Transaction<SqliteTransactionManager>,
    opened: Result<(), E>,
    closed: Result<(), E>,
)
    requires
        conn@.depth == 0 ==> conn@.transaction_span is None,
        call_ensures(
            Transaction::<SqliteTransactionManager>::begin::<F>,
            (conn, statement, open_span),
            *opening,
        ),
        opened is Ok,
        begin_answered(opening, opened),
        *tx == *final(opening),
        call_ensures(Transaction::<SqliteTransactionManager>::commit, (tx,), ()),
        *closing == *final(tx),
        closed is Ok,
        commit_answered(closing, closed),
    ensures
        exists|decision: Result<SqlStr, Error>|
            {
                &&& #[trigger] crate::ansi_sql::is_begin_decision(
                    conn@.depth,
                    statement,
                    decision,
                )
                &&& final(closing).connection()@ == conn@.with_command(
                    Command::Begin(decision),
                ).with_command(Command::Commit)
            },
{
    if conn@.depth == 0 {
        law_sqlite_transaction_installs_its_span(conn, statement, open_span, *opening);
    } else {
        law_sqlite_savepoint_shares_the_span(conn, statement, open_span, *opening);
    }
}

/// A transaction on an SQLite connection that is opened and then rolled back leaves the connection
/// as it was, but for the two requests that were queued.
pub proof fn law_sqlite_rollback_leaves_the_connection_as_it_was<F: FnOnce(SpanRequest) -> Span, E>(
    conn: SqliteConnection,
    statement: Option<SqlStr>,
    open_span: F,
    opening: &mut Transaction<SqliteTransactionManager>,
    tx: &mut Transaction<SqliteTransactionManager>,
    closing: &mut Transaction<SqliteTransactionManager>,
    opened: Result<(), E>,
    closed: Result<(), E>,
)
    requires
        conn@.depth == 0 ==> conn@.transaction_span is None,
        call_ensures(
            Transaction::<SqliteTransactionManager>::begin::<F>,
            (conn, statement, open_span),
            *opening,
        ),
        opened is Ok,
        begin_answered(opening, opened),
        *tx == *final(opening),
        call_ensures(Transaction::<SqliteTransactionManager>::rollback, (tx,), ()),
        *closing == *final(tx),
        closed is Ok,
        rollback_answered(closing, closed),
    ensures
        exists|decision: Result<SqlStr, Error>|
            {
                &&& #[trigger] crate::ansi_sql::is_begin_decision(
                    conn@.depth,
                    statement,
                    decision,
                )
                &&& final(closing).connection()@ == conn@.with_command(
                    Command::Begin(decision),
                ).with_command(Command::Rollback)
            },
{
    if conn@.depth == 0 {
        law_sqlite_transaction_installs_its_span(conn, statement, open_span, *opening);
    } else {
        law_sqlite_savepoint_shares_the_span(conn, statement, open_span, *opening);
    }
}

/// A transaction on an SQLite connection that could not be opened leaves the connection as it was,
/// but for the request to open it and the rollback that is started in case it was opened all the
/// same.
pub proof fn law_sqlite_failed_begin_is_undone<F: FnOnce(SpanRequest) -> Span, E>(
    conn: SqliteConnection,
    statement: Option<SqlStr>,
    open_span: F,
    tx: &mut Transaction<SqliteTransactionManager>,
    reply: Result<(), E>,
)
    requires
        conn@.depth == 0 ==> conn@.transaction_span is None,
        call_ensures(
            Transaction::<SqliteTransactionManager>::begin::<F>,
            (conn, statement, open_span),
            *tx,
        ),
        reply is Err,
        begin_answered(tx, reply),
    ensures
        exists|decision: Result<SqlStr, Error>|
            {
                &&& #[trigger] crate::ansi_sql::is_begin_decision(
                    conn@.depth,
                    statement,
                    decision,
                )
                &&& final(tx).connection()@ == conn@.with_command(
                    Command::Begin(decision),
                ).with_command(Command::StartRollback)
            },
{
    if conn@.depth == 0 {
        law_sqlite_transaction_installs_its_span(conn, statement, open_span, *tx);
    } else {
        law_sqlite_savepoint_shares_the_span(conn, statement, open_span, *tx);
    }
}

/// A custom statement that is given inside a transaction on an SQLite connection is refused: the
/// refusal is queued, and no statement.
pub proof fn law_sqlite_custom_statement_is_refused_inside<F: FnOnce(SpanRequest) -> Span>(
    conn: SqliteConnection,
    statement: SqlStr,
    open_span: F,
    tx: Transaction<SqliteTransactionManager>,
)
    requires
        conn@.depth > 0,
        call_ensures(
            Transaction::<SqliteTransactionManager>::begin::<F>,
            (conn, Some(statement), open_span),
            tx,
        ),
    ensures
        tx.connection()@ == conn@.with_command(Command::Begin(Err(Error::InvalidSavePoint))),
{
    law_sqlite_savepoint_shares_the_span(conn, Some(statement), open_span, tx);
}

/// What can be asked of a transaction is answered truly: whether it is open, which reply it waits
/// for, which outcome it has recorded, and its connection. Its span is handed out as a clone.
pub proof fn law_transaction_answers_truly<TM: TransactionManager>(
    tx: Transaction<TM>,
    open: bool,
    awaited: Option<Request>,
    outcome: Option<Outcome>,
    span: Span,
    connection: &<TM::Database as Database>::Connection,
)
    requires
        call_ensures(Transaction::<TM>::is_open, (&tx,), open),
        call_ensures(Transaction::<TM>::awaited, (&tx,), awaited),
        call_ensures(Transaction::<TM>::outcome, (&tx,), outcome),
        call_ensures(Transaction::<TM>::span, (&tx,), span),
        call_ensures(Transaction::<TM>::deref, (&tx,), connection),
    ensures
        open == tx.open(),
        awaited == tx.awaiting(),
        outcome == tx.recorded(),
        call_ensures(Span::clone, (&tx.handle(),), span),
        *connection == tx.connection(),
{
}

/// A connection that is handed out is that of the transaction, which has what becomes of it and is
/// otherwise as it was.
pub proof fn law_connection_is_handed_out<TM: TransactionManager>(
    tx: &mut Transaction<TM>,
    connection: &mut <TM::Database as Database>::Connection,
)
    requires
        ({
            ||| call_ensures(Transaction::<TM>::deref_mut, (tx,), connection)
            ||| call_ensures(Transaction::<TM>::as_mut, (tx,), connection)
        }),
    ensures
        *old(connection) == old(tx).connection(),
        final(tx).connection() == *final(connection),
        final(tx).handle() == old(tx).handle(),
        final(tx).outermost() == old(tx).outermost(),
        final(tx).open() == old(tx).open(),
        final(tx).awaiting() == old(tx).awaiting(),
        final(tx).recorded() == old(tx).recorded(),
        final(tx).log() == old(tx).log(),
{
}

/// Opening where the driver finds no transaction makes a span under the current one, sets it on the
/// connection with the id of the current span, and then asks the driver to open a transaction by the
/// given statement. Opening inside a transaction takes the installed span, or the current one if
/// there is none, and does nothing on the connection but ask the driver. Either way the transaction
/// is open then, waits for the reply, holds a clone of the span and has recorded nothing.
pub proof fn law_transaction_is_opened_by_its_driver<
    TM: TransactionManager,
    F: FnOnce(SpanRequest) -> Span,
>(
    connection: <TM::Database as Database>::Connection,
    statement: Option<SqlStr>,
    open_span: F,
    tx: Transaction<TM>,
)
    requires
        call_ensures(Transaction::<TM>::begin::<F>, (connection, statement, open_span), tx),
    ensures
        tx.open(),
        tx.awaiting() == Some(Request::Begin),
        tx.recorded() is None,
        tx.log().len() == 0,
        exists|depth: usize| #[trigger]
            call_ensures(TM::get_transaction_depth, (&connection,), depth) && (tx.outermost() <==> depth
                == 0),
        tx.outermost() ==> exists|
            request: SpanRequest,
            span: Span,
            at_begin: Span,
            c1: &mut <TM::Database as Database>::Connection,
            c2: &mut <TM::Database as Database>::Connection,
        |
            {
                &&& call_ensures(Span::current, (), request.parent)
                &&& request.system_name@ == <TM::Database as Database>::NAME@.map_values(
                    |c: char|
                        if 'A' <= c <= 'Z' {
                            "abcdefghijklmnopqrstuvwxyz"@[c as int - 'A' as int]
                        } else {
                            c
                        },
                )
                &&& request.operation_name@ == "BEGIN"@
                &&& request.otel_kind@ == "client"@
                &&& #[trigger] call_ensures(open_span, (request,), span)
                &&& call_ensures(Span::clone, (&span,), tx.handle())
                &&& #[trigger] call_ensures(Span::current, (), at_begin)
                &&& *c1 == connection
                &&& #[trigger] call_ensures(
                    TM::set_transaction_span,
                    (c1, span, crate::telemetry::span_id(at_begin)),
                    (),
                )
                &&& *c2 == *final(c1)
                &&& #[trigger] call_ensures(TM::begin, (c2, statement), ())
                &&& tx.connection() == *final(c2)
            },
        !tx.outermost() ==> exists|
            installed: Option<Span>,
            shared: Span,
            c1: &mut <TM::Database as Database>::Connection,
        |
            {
                &&& #[trigger] call_ensures(
                    TM::current_transaction_span,
                    (&connection,),
                    installed,
                )
                &&& installed matches Some(span) ==> shared == span
                &&& installed is None ==> call_ensures(Span::current, (), shared)
                &&& #[trigger] call_ensures(Span::clone, (&shared,), tx.handle())
                &&& *c1 == connection
                &&& #[trigger] call_ensures(TM::begin, (c1, statement), ())
                &&& tx.connection() == *final(c1)
            },
{
    if tx.outermost() {
        let (request, span, at_begin, c1, c2) = choose|
            request: SpanRequest,
            span: Span,
            at_begin: Span,
            c1: &mut <TM::Database as Database>::Connection,
            c2: &mut <TM::Database as Database>::Connection,
        |
            {
                &&& crate::transaction::is_span_request::<TM::Database>(request)
                &&& #[trigger] call_ensures(open_span, (request,), span)
                &&& crate::telemetry::is_clone(span, tx.handle())
                &&& #[trigger] crate::telemetry::is_current(at_begin)
                &&& *c1 == connection
                &&& #[trigger] call_ensures(
                    TM::set_transaction_span,
                    (c1, span, crate::telemetry::span_id(at_begin)),
                    (),
                )
                &&& *c2 == *final(c1)
                &&& #[trigger] call_ensures(TM::begin, (c2, statement), ())
                &&& tx.connection() == *final(c2)
            };
        crate::transaction::law_span_request_names_the_database::<TM::Database>(request);
        assert(request.system_name@ == <TM::Database as Database>::NAME@.map_values(
            |c: char|
                if 'A' <= c <= 'Z' {
                    "abcdefghijklmnopqrstuvwxyz"@[c as int - 'A' as int]
                } else {
                    c
                },
        ));
        assert(call_ensures(Span::current, (), at_begin));
        assert(call_ensures(open_span, (request,), span));
    } else {
        let (installed, shared, c1) = choose|
            installed: Option<Span>,
            shared: Span,
            c1: &mut <TM::Database as Database>::Connection,
        |
            {
                &&& #[trigger] call_ensures(
                    TM::current_transaction_span,
                    (&connection,),
                    installed,
                )
                &&& match installed {
                    Some(span) => shared == span,
                    None => crate::telemetry::is_current(shared),
                }
                &&& #[trigger] crate::telemetry::is_clone(shared, tx.handle())
                &&& *c1 == connection
                &&& #[trigger] call_ensures(TM::begin, (c1, statement), ())
                &&& tx.connection() == *final(c1)
            };
        assert(call_ensures(Span::clone, (&shared,), tx.handle()));
    }
}

/// To request a commit is to ask the driver to commit, once, and for nothing else. The transaction is
/// open as before, records nothing and waits for the reply to that request.
pub proof fn law_commit_is_requested_from_the_driver<TM: TransactionManager>(
    tx: &mut Transaction<TM>,
)
    requires
        call_ensures(Transaction::<TM>::commit, (tx,), ()),
    ensures
        final(tx).open(),
        final(tx).awaiting() == Some(Request::Commit),
        final(tx).recorded() is None,
        final(tx).log() == old(tx).log(),
        final(tx).handle() == old(tx).handle(),
        final(tx).outermost() == old(tx).outermost(),
        exists|c1: &mut <TM::Database as Database>::Connection|
            *c1 == old(tx).connection() && #[trigger] call_ensures(TM::commit, (c1,), ())
                && *final(c1) == final(tx).connection(),
{
}

/// To request a rollback is to ask the driver to roll back, once, and for nothing else. The transaction is
/// open as before, records nothing and waits for the reply to that request.
pub proof fn law_rollback_is_requested_from_the_driver<TM: TransactionManager>(
    tx: &mut Transaction<TM>,
)
    requires
        call_ensures(Transaction::<TM>::rollback, (tx,), ()),
    ensures
        final(tx).open(),
        final(tx).awaiting() == Some(Request::Rollback),
        final(tx).recorded() is None,
        final(tx).log() == old(tx).log(),
        final(tx).handle() == old(tx).handle(),
        final(tx).outermost() == old(tx).outermost(),
        exists|c1: &mut <TM::Database as Database>::Connection|
            *c1 == old(tx).connection() && #[trigger] call_ensures(TM::rollback, (c1,), ())
                && *final(c1) == final(tx).connection(),
{
}

/// The reply to a requested commit is passed on as it is, and the transaction has ended then. If it
/// succeeded, an outermost transaction records `committed` and has the driver clear the span, and a
/// savepoint does neither. If it failed, a rollback is started first, and `dropped` is recorded.
pub proof fn law_reply_to_commit_ends_the_transaction<TM: TransactionManager, E>(
    tx: &mut Transaction<TM>,
    reply: Result<(), E>,
    result: Result<(), E>,
)
    requires
        tx.open(),
        call_ensures(Transaction::<TM>::on_commit::<E>, (tx, reply), result),
    ensures
        result == reply,
        final(tx).awaiting() is None,
        final(tx).handle() == old(tx).handle(),
        final(tx).outermost() == old(tx).outermost(),
        reply is Ok ==> {
            &&& !final(tx).open()
            &&& old(tx).outermost() ==> {
                &&& final(tx).recorded() == Some(Outcome::Committed)
                &&& final(tx).log() == old(tx).log().push(
                    ("db.transaction.outcome"@, "committed"@),
                )
                &&& exists|c1: &mut <TM::Database as Database>::Connection|
                    *c1 == old(tx).connection() && #[trigger] call_ensures(
                        TM::clear_transaction_span,
                        (c1,),
                        (),
                    ) && *final(c1) == final(tx).connection()
            }
            &&& !old(tx).outermost() ==> {
                &&& final(tx).recorded() is None
                &&& final(tx).log() == old(tx).log()
                &&& final(tx).connection() == old(tx).connection()
            }
        },
        reply is Err ==> {
            &&& !final(tx).open()
            &&& old(tx).outermost() ==> {
                &&& final(tx).recorded() == Some(Outcome::Dropped)
                &&& final(tx).log() == old(tx).log().push(("db.transaction.outcome"@, "dropped"@))
                &&& exists|
                    c1: &mut <TM::Database as Database>::Connection,
                    c2: &mut <TM::Database as Database>::Connection,
                |
                    {
                        &&& *c1 == old(tx).connection()
                        &&& #[trigger] call_ensures(TM::start_rollback, (c1,), ())
                        &&& *c2 == *final(c1)
                        &&& #[trigger] call_ensures(TM::clear_transaction_span, (c2,), ())
                        &&& *final(c2) == final(tx).connection()
                    }
            }
            &&& !old(tx).outermost() ==> {
                &&& final(tx).recorded() is None
                &&& final(tx).log() == old(tx).log()
                &&& exists|c1: &mut <TM::Database as Database>::Connection|
                    *c1 == old(tx).connection() && #[trigger] call_ensures(TM::start_rollback, (c1,), ())
                        && *final(c1) == final(tx).connection()
            }
        },
{
}

/// The reply to a requested rollback is passed on as it is, and the transaction has ended then. If it
/// succeeded, an outermost transaction records `rolled_back` and has the driver clear the span, and a
/// savepoint does neither. If it failed, a rollback is started first, and `dropped` is recorded.
pub proof fn law_reply_to_rollback_ends_the_transaction<TM: TransactionManager, E>(
    tx: &mut Transaction<TM>,
    reply: Result<(), E>,
    result: Result<(), E>,
)
    requires
        tx.open(),
        call_ensures(Transaction::<TM>::on_rollback::<E>, (tx, reply), result),
    ensures
        result == reply,
        final(tx).awaiting() is None,
        final(tx).handle() == old(tx).handle(),
        final(tx).outermost() == old(tx).outermost(),
        reply is Ok ==> {
            &&& !final(tx).open()
            &&& old(tx).outermost() ==> {
                &&& final(tx).recorded() == Some(Outcome::RolledBack)
                &&& final(tx).log() == old(tx).log().push(
                    ("db.transaction.outcome"@, "rolled_back"@),
                )
                &&& exists|c1: &mut <TM::Database as Database>::Connection|
                    *c1 == old(tx).connection() && #[trigger] call_ensures(
                        TM::clear_transaction_span,
                        (c1,),
                        (),
                    ) && *final(c1) == final(tx).connection()
            }
            &&& !old(tx).outermost() ==> {
                &&& final(tx).recorded() is None
                &&& final(tx).log() == old(tx).log()
                &&& final(tx).connection() == old(tx).connection()
            }
        },
        reply is Err ==> {
            &&& !final(tx).open()
            &&& old(tx).outermost() ==> {
                &&& final(tx).recorded() == Some(Outcome::Dropped)
                &&& final(tx).log() == old(tx).log().push(("db.transaction.outcome"@, "dropped"@))
                &&& exists|
                    c1: &mut <TM::Database as Database>::Connection,
                    c2: &mut <TM::Database as Database>::Connection,
                |
                    {
                        &&& *c1 == old(tx).connection()
                        &&& #[trigger] call_ensures(TM::start_rollback, (c1,), ())
                        &&& *c2 == *final(c1)
                        &&& #[trigger] call_ensures(TM::clear_transaction_span, (c2,), ())
                        &&& *final(c2) == final(tx).connection()
                    }
            }
            &&& !old(tx).outermost() ==> {
                &&& final(tx).recorded() is None
                &&& final(tx).log() == old(tx).log()
                &&& exists|c1: &mut <TM::Database as Database>::Connection|
                    *c1 == old(tx).connection() && #[trigger] call_ensures(TM::start_rollback, (c1,), ())
                        && *final(c1) == final(tx).connection()
            }
        },
{
}

/// The reply to the request to open a transaction is passed on as it is. If it succeeded, the
/// transaction is open, has recorded nothing, waits for no reply, and its connection is as it was.
/// If it failed, the transaction has ended as if it had been dropped.
pub proof fn law_reply_to_begin_opens_or_ends_the_transaction<TM: TransactionManager, E>(
    tx: &mut Transaction<TM>,
    reply: Result<(), E>,
    result: Result<(), E>,
)
    requires
        tx.open(),
        call_ensures(Transaction::<TM>::on_begin::<E>, (tx, reply), result),
    ensures
        result == reply,
        final(tx).awaiting() is None,
        final(tx).handle() == old(tx).handle(),
        final(tx).outermost() == old(tx).outermost(),
        reply is Ok ==> {
            &&& final(tx).open()
            &&& final(tx).recorded() is None
            &&& final(tx).log() == old(tx).log()
            &&& final(tx).connection() == old(tx).connection()
        },
        reply is Err ==> {
            &&& !final(tx).open()
            &&& old(tx).outermost() ==> {
                &&& final(tx).recorded() == Some(Outcome::Dropped)
                &&& final(tx).log() == old(tx).log().push(("db.transaction.outcome"@, "dropped"@))
                &&& exists|
                    c1: &mut <TM::Database as Database>::Connection,
                    c2: &mut <TM::Database as Database>::Connection,
                |
                    {
                        &&& *c1 == old(tx).connection()
                        &&& #[trigger] call_ensures(TM::start_rollback, (c1,), ())
                        &&& *c2 == *final(c1)
                        &&& #[trigger] call_ensures(TM::clear_transaction_span, (c2,), ())
                        &&& *final(c2) == final(tx).connection()
                    }
            }
            &&& !old(tx).outermost() ==> {
                &&& final(tx).recorded() is None
                &&& final(tx).log() == old(tx).log()
                &&& exists|c1: &mut <TM::Database as Database>::Connection|
                    *c1 == old(tx).connection() && #[trigger] call_ensures(TM::start_rollback, (c1,), ())
                        && *final(c1) == final(tx).connection()
            }
        },
{
}

/// Dropping a transaction that has ended does nothing. Dropping an open one has the driver start a
/// rollback; an outermost one then records `dropped` and has the driver clear the span.
pub proof fn law_drop_starts_a_rollback<TM: TransactionManager>(tx: &mut Transaction<TM>)
    requires
        call_ensures(Transaction::<TM>::drop, (tx,), ()),
    ensures
        !old(tx).open() ==> *final(tx) == *old(tx),
        old(tx).open() ==> {
            &&& final(tx).awaiting() is None
            &&& final(tx).handle() == old(tx).handle()
            &&& final(tx).outermost() == old(tx).outermost()
            &&& !final(tx).open()
            &&& old(tx).outermost() ==> {
                &&& final(tx).recorded() == Some(Outcome::Dropped)
                &&& final(tx).log() == old(tx).log().push(("db.transaction.outcome"@, "dropped"@))
                &&& exists|
                    c1: &mut <TM::Database as Database>::Connection,
                    c2: &mut <TM::Database as Database>::Connection,
                |
                    {
                        &&& *c1 == old(tx).connection()
                        &&& #[trigger] call_ensures(TM::start_rollback, (c1,), ())
                        &&& *c2 == *final(c1)
                        &&& #[trigger] call_ensures(TM::clear_transaction_span, (c2,), ())
                        &&& *final(c2) == final(tx).connection()
                    }
            }
            &&& !old(tx).outermost() ==> {
                &&& final(tx).recorded() is None
                &&& final(tx).log() == old(tx).log()
                &&& exists|c1: &mut <TM::Database as Database>::Connection|
                    *c1 == old(tx).connection() && #[trigger] call_ensures(TM::start_rollback, (c1,), ())
                        && *final(c1) == final(tx).connection()
            }
        },
{
}

/// A commit that is requested for a transaction on an SQLite connection queues a commit behind
/// whatever is queued, and a rollback a rollback. Depth and span stay as they are.
pub proof fn law_sqlite_commit_and_rollback_are_queued(
    committed: &mut Transaction<SqliteTransactionManager>,
    rolled_back: &mut Transaction<SqliteTransactionManager>,
)
    requires
        call_ensures(Transaction::<SqliteTransactionManager>::commit, (committed,), ()),
        call_ensures(Transaction::<SqliteTransactionManager>::rollback, (rolled_back,), ()),
    ensures
        final(committed).connection().commands@ == old(committed).connection().commands@.push(
            Command::Commit,
        ),
        final(committed).connection().transaction_depth
            == old(committed).connection().transaction_depth,
        final(committed).connection().transaction_span
            == old(committed).connection().transaction_span,
        final(rolled_back).connection().commands@ == old(rolled_back).connection().commands@.push(
            Command::Rollback,
        ),
        final(rolled_back).connection().transaction_depth
            == old(rolled_back).connection().transaction_depth,
        final(rolled_back).connection().transaction_span
            == old(rolled_back).connection().transaction_span,
{
}

/// A transaction on an SQLite connection that is opened with a custom statement outside every other
/// queues that very statement, whatever it is, behind whatever is queued.
pub proof fn law_sqlite_custom_statement_is_queued<F: FnOnce(SpanRequest) -> Span>(
    conn: SqliteConnection,
    statement: SqlStr,
    open_span: F,
    tx: Transaction<SqliteTransactionManager>,
)
    requires
        conn.transaction_depth == 0,
        call_ensures(
            Transaction::<SqliteTransactionManager>::begin::<F>,
            (conn, Some(statement), open_span),
            tx,
        ),
    ensures
        tx.connection().commands@ == conn.commands@.push(Command::Begin(Ok(statement))),
        tx.connection().transaction_depth == conn.transaction_depth,
{
}

/// What the worker of an SQLite connection takes once a commit or a rollback was requested is what it
/// had not taken before, followed by that very request. Nothing is left for it to take then.
pub proof fn law_sqlite_worker_gets_what_was_requested(
    tx: &mut Transaction<SqliteTransactionManager>,
    command: Command,
    conn: &mut SqliteConnection,
    commands: Vec<Command>,
)
    requires
        ({
            ||| command is Commit && call_ensures(
                Transaction::<SqliteTransactionManager>::commit,
                (tx,),
                (),
            )
            ||| command is Rollback && call_ensures(
                Transaction::<SqliteTransactionManager>::rollback,
                (tx,),
                (),
            )
        }),
        *conn == final(tx).connection(),
        call_ensures(SqliteConnection::take_commands, (conn,), commands),
    ensures
        commands@ == old(tx).connection().commands@.push(command),
        final(conn).commands@.len() == 0,
{
}

} // verus!
