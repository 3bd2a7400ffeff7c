//! The span of a transaction and what the transaction records on it.
use tracing::Span;
use vstd::prelude::*;

use super::{Database, Request, Transaction, TransactionManager};

verus! {

/// A handle to a span together with what was recorded through it, which [`Self::record`] alone
/// adds to. A value of this type comes only with a new transaction.
pub struct RecordedSpan {
    span: Span,
    log: Ghost<Seq<(Seq<char>, Seq<char>)>>,
}

impl RecordedSpan {
    /// The handle.
    pub closed spec fn handle(self) -> Span {
        self.span
    }

    /// The fields and values that were recorded, oldest first.
    pub closed spec fn log(self) -> Seq<(Seq<char>, Seq<char>)> {
        self.log@
    }

    /// Takes a handle through which nothing has been recorded.
    fn new(span: Span) -> (recorded: Self)
        ensures
            recorded.handle() == span,
            recorded.log() == Seq::<(Seq<char>, Seq<char>)>::empty(),
    {
        RecordedSpan { span, log: Ghost(Seq::empty()) }
    }

    /// Trusted: hands `value` for `field` of the span to the subscriber that the span belongs to,
    /// by one call of `tracing::Span::record`. The contract claims that this call and no other was
    /// made and that the handle stays the same. What becomes of the value at the subscriber is not
    /// visible to the library, so nothing is claimed of that.
    #[verifier::external_body]
    pub(super) fn record(&mut self, field: &str, value: &str)
        ensures
            final(self).handle() == old(self).handle(),
            final(self).log() == old(self).log().push((field@, value@)),
    {
        self.span.record(field, value);
    }

    /// Returns another handle to the span.
    pub fn span(&self) -> (span: Span)
        ensures
            crate::telemetry::is_clone(self.handle(), span),
    {
        self.span.clone()
    }
}

/// Returns a transaction that is to be opened on `connection`, with nothing recorded yet.
pub(super) fn unopened<TM: TransactionManager>(
    connection: <TM::Database as Database>::Connection,
    span: Span,
    is_outermost: bool,
) -> (tx: Transaction<TM>)
    ensures
        tx.well_formed(),
        tx.open(),
        tx.awaiting() == Some(Request::Begin),
        tx.recorded() is None,
        tx.log() == super::outcome_log(None),
        tx.outermost() == is_outermost,
        tx.handle() == span,
        tx.connection() == connection,
{
    Transaction {
        connection,
        open: true,
        span: RecordedSpan::new(span),
        is_outermost,
        awaited: Some(Request::Begin),
        outcome: None,
    }
}

/// The handle and what was recorded are those that are kept.
proof fn law_recorded_span_is_what_is_kept(recorded: RecordedSpan)
    ensures
        recorded.handle() == recorded.span,
        recorded.log() == recorded.log@,
{
}

} // verus!
