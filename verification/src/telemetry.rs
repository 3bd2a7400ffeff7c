//! What the library relies on of tracing spans.
use tracing::{Id, Span};
use vstd::prelude::*;

verus! {

/// A handle to a span, which the library carries along without looking inside.
#[verifier::external_type_specification]
#[verifier::external_body]
pub struct ExSpan(tracing::Span);

/// The number by which a subscriber knows a span.
#[verifier::external_type_specification]
#[verifier::external_body]
pub struct ExId(tracing::Id);

/// What `tracing::Span::id` returns for a handle: the id that the handle was made with, or `None`
/// if the span is disabled.
pub uninterp spec fn span_id(span: Span) -> Option<Id>;

/// Trusted: `tracing::Span::id` returns the id that the handle holds.
pub assume_specification[ Span::id ](span: &Span) -> (id: Option<Id>)
    ensures
        id == span_id(*span),
;

/// Trusted: two values of `tracing::Id` compare as equal exactly if they are the same number,
/// which is all that they hold.
pub assume_specification[ <Id as PartialEq>::eq ](a: &Id, b: &Id) -> (result: bool)
    ensures
        result == (*a == *b),
;

/// Trusted: `tracing::Span::current` returns the span that the subscriber of the calling thread
/// considers to be the current one. Which one that is changes as spans are entered and left, so
/// nothing is claimed of it.
pub assume_specification[ Span::current ]() -> (span: Span)
;

/// Trusted: a clone of a handle is enabled exactly if the handle is. Its id is whatever the
/// subscriber answers when it is told of the clone, so nothing is claimed of the number.
pub assume_specification[ <Span as Clone>::clone ](span: &Span) -> (copy: Span)
    ensures
        span_id(copy) is Some <==> span_id(*span) is Some,
;

/// `span` came from asking for the current span.
pub open spec fn is_current(span: Span) -> bool {
    call_ensures(Span::current, (), span)
}

/// `copy` came from cloning the handle `span`.
pub open spec fn is_clone(span: Span, copy: Span) -> bool {
    call_ensures(Span::clone, (&span,), copy)
}

/// Tells whether two ids are the same, or both absent.
pub(crate) fn same_id(a: &Option<Id>, b: &Option<Id>) -> (result: bool)
    ensures
        result == (*a == *b),
{
    match (a, b) {
        (Some(a), Some(b)) => *a == *b,
        (None, None) => true,
        _ => false,
    }
}

/// A clone of a handle is what cloning it returned, and a current span what asking for it returned.
pub proof fn law_clones_and_current_spans_come_from_calls(span: Span, copy: Span)
    ensures
        is_clone(span, copy) <==> call_ensures(Span::clone, (&span,), copy),
        is_current(span) <==> call_ensures(Span::current, (), span),
{
}

} // verus!
