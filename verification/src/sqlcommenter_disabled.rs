//! The functions of [`sqlcommenter`](crate::sqlcommenter) for programs that want no comments.
use std::borrow::Cow;

use tracing::Span;
use vstd::prelude::*;

use crate::sqlcommenter::append_comment;

verus! {

/// Returns no comment, whatever the span.
pub fn comment_for_span(_span: &Span) -> (result: Option<String>)
    ensures
        result is None,
{
    None
}

/// Returns `sql` itself.
pub fn maybe_append_comment<'a>(sql: &'a str, span: &Span) -> (result: Cow<'a, str>)
    ensures
        result == Cow::<'a, str>::Borrowed(sql),
{
    append_comment(sql, comment_for_span(span))
}

/// Without comments there is none for any span, and every query goes out as it is.
pub proof fn law_queries_go_out_as_they_are<'a>(
    sql: &'a str,
    span: Span,
    comment: Option<String>,
    result: Cow<'a, str>,
)
    requires
        call_ensures(comment_for_span, (&span,), comment),
        call_ensures(maybe_append_comment, (sql, &span), result),
    ensures
        comment is None,
        result == Cow::<'a, str>::Borrowed(sql),
{
}

} // verus!
