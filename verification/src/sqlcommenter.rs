//! Trailing SQL comments that carry trace context.
//!
//! A comment has the form `/*key1='value1',key2='value2'*/`. It means nothing to the database but
//! lets tools that keep comments correlate a query with the trace it belongs to. Which keys and
//! values go into it is up to the globally installed OpenTelemetry propagator; this module fixes
//! how they are written down, so that no key or value can end the comment or leave its quotes.
use std::borrow::Cow;

use opentelemetry::propagation::Injector;
use opentelemetry::Context;
use tracing::Span;
use tracing_opentelemetry::OpenTelemetrySpanExt;
use vstd::prelude::*;

use crate::percent::push_percent_encoded;

verus! {

/// A key and its value.
pub type Entry = (Seq<char>, Seq<char>);

/// An OpenTelemetry context, which is only handed from a span to the propagator.
#[verifier::external_type_specification]
#[verifier::external_body]
pub struct ExContext(opentelemetry::Context);

/// `key='value'`, both percent-encoded.
pub open spec fn entry_text(entry: Entry) -> Seq<char> {
    crate::percent::percent_encoded(entry.0) + "='"@ + crate::percent::percent_encoded(entry.1)
        + "'"@
}

/// What stands before the next entry when `written` was written so far.
pub open spec fn lead_in(written: Seq<char>) -> Seq<char> {
    if written.len() == 0 {
        "/*"@
    } else {
        written + ","@
    }
}

/// What is written once `entries` have been added to `written`, in order.
pub open spec fn after_entries(written: Seq<char>, entries: Seq<Entry>) -> Seq<char>
    decreases entries.len(),
{
    if entries.len() == 0 {
        written
    } else {
        lead_in(after_entries(written, entries.drop_last())) + entry_text(entries.last())
    }
}

/// The comment for `entries`, or `None` if there are none.
pub open spec fn comment(entries: Seq<Entry>) -> Option<Seq<char>> {
    if entries.len() == 0 {
        None
    } else {
        Some(after_entries(Seq::empty(), entries) + "*/"@)
    }
}

/// Writes entries down as they come. Nothing is written before the first entry, so that empty
/// text means that there was none.
#[derive(Debug)]
pub struct SqlcommenterCarrier {
    out: String,
}

impl View for SqlcommenterCarrier {
    type V = Seq<char>;

    closed spec fn view(&self) -> Seq<char> {
        self.out@
    }
}

impl Default for SqlcommenterCarrier {
    /// Returns a carrier that has written nothing.
    fn default() -> (carrier: Self)
        ensures
            carrier@ == Seq::<char>::empty(),
    {
        SqlcommenterCarrier { out: String::new() }
    }
}

impl SqlcommenterCarrier {
    /// Adds an entry.
    pub fn set(&mut self, key: &str, value: String)
        ensures
            final(self)@ == after_entries(old(self)@, seq![(key@, value@)]),
            final(self)@ == (if old(self)@.len() == 0 {
                "/*"@
            } else {
                old(self)@ + ","@
            }) + crate::percent::percent_encoded(key@) + "='"@ + crate::percent::percent_encoded(
                value@,
            ) + "'"@,
    {
        reveal_with_fuel(after_entries, 2);
        assert(seq![(key@, value@)].drop_last() == Seq::<Entry>::empty());
        if self.out.as_str().is_empty() {
            self.out.append("/*");
        } else {
            self.out.append(",");
        }
        assert(self.out@ == lead_in(old(self)@));
        push_percent_encoded(&mut self.out, key);
        self.out.append("='");
        push_percent_encoded(&mut self.out, value.as_str());
        self.out.append("'");
    }

    /// Closes the comment, or returns `None` if no entry was added.
    pub fn into_comment(self) -> (result: Option<String>)
        ensures
            self@.len() == 0 ==> result is None,
            self@.len() > 0 ==> (result matches Some(text) && text@ == self@ + "*/"@),
    {
        let mut out = self.out;
        if out.as_str().is_empty() {
            return None;
        }
        out.append("*/");
        Some(out)
    }
}

impl Injector for SqlcommenterCarrier {
    /// Adds an entry.
    fn set(&mut self, key: &str, value: String)
        ensures
            final(self)@ == after_entries(old(self)@, seq![(key@, value@)]),
            final(self)@ == (if old(self)@.len() == 0 {
                "/*"@
            } else {
                old(self)@ + ","@
            }) + crate::percent::percent_encoded(key@) + "='"@ + crate::percent::percent_encoded(
                value@,
            ) + "'"@,
            exists|carrier: &mut SqlcommenterCarrier|
                *carrier == *old(self) && #[trigger] call_ensures(
                    SqlcommenterCarrier::set,
                    (carrier, key, value),
                    (),
                ) && *final(carrier) == *final(self),
    {
        SqlcommenterCarrier::set(self, key, value)
    }
}

/// Trusted: reads the OpenTelemetry context off a span, by
/// `tracing_opentelemetry::OpenTelemetrySpanExt::context`. Which context that is rests with the
/// subscriber that the span belongs to, so nothing is claimed of it.
#[verifier::external_body]
fn context_for_span(span: &Span) -> (cx: Context) {
    span.context()
}

/// Trusted: lets the propagator that is installed globally write the entries for `cx`, by
/// `opentelemetry::global::get_text_map_propagator` and `TextMapPropagator::inject_context`.
/// The propagator sees the carrier only as an `Injector` and has no way to change it but
/// `Injector::set`, so the carrier holds what it held before and then some sequence of entries,
/// perhaps none. Which entries they are rests with the propagator.
#[verifier::external_body]
fn inject_context(cx: &Context, carrier: SqlcommenterCarrier) -> (filled: SqlcommenterCarrier)
    ensures
        exists|entries: Seq<Entry>| filled@ == #[trigger] after_entries(carrier@, entries),
{
    let mut carrier = carrier;
    opentelemetry::global::get_text_map_propagator(|propagator| {
        propagator.inject_context(cx, &mut carrier);
    });
    carrier
}

/// `cx` was read off `span`.
pub closed spec fn is_context_of(cx: Context, span: Span) -> bool {
    call_ensures(context_for_span, (&span,), cx)
}

/// The propagator wrote `entries` when it was handed `cx` and an empty carrier.
pub closed spec fn are_entries_for(entries: Seq<Entry>, cx: Context) -> bool {
    exists|empty: SqlcommenterCarrier, filled: SqlcommenterCarrier|
        {
            &&& empty@.len() == 0
            &&& filled@ == after_entries(Seq::empty(), entries)
            &&& #[trigger] call_ensures(inject_context, (&cx, empty), filled)
        }
}

/// `result` was had by filling an empty carrier with what the propagator writes for the context of
/// `span` and closing the comment.
pub closed spec fn is_comment_of(result: Option<String>, span: Span) -> bool {
    exists|cx: Context, empty: SqlcommenterCarrier, filled: SqlcommenterCarrier|
        {
            &&& call_ensures(context_for_span, (&span,), cx)
            &&& call_ensures(SqlcommenterCarrier::default, (), empty)
            &&& #[trigger] call_ensures(inject_context, (&cx, empty), filled)
            &&& call_ensures(SqlcommenterCarrier::into_comment, (filled,), result)
        }
}

/// Whether `result` holds `text`, or both are absent.
pub open spec fn holds(result: Option<String>, text: Option<Seq<char>>) -> bool {
    match text {
        Some(text) => result matches Some(string) && string@ == text,
        None => result is None,
    }
}

/// Returns the comment for a query whose span is `span`: that of the entries that the propagator
/// writes for the span's context, or `None` if it writes none.
pub fn comment_for_span(span: &Span) -> (result: Option<String>)
    ensures
        is_comment_of(result, *span),
        exists|cx: Context, entries: Seq<Entry>|
            {
                &&& is_context_of(cx, *span)
                &&& #[trigger] are_entries_for(entries, cx)
                &&& holds(result, comment(entries))
            },
{
    let cx = context_for_span(span);
    let carrier = SqlcommenterCarrier::default();
    let filled = inject_context(&cx, carrier);
    proof {
        let entries = choose|entries: Seq<Entry>| filled@ == after_entries(carrier@, entries);
        assert(carrier@ == Seq::<char>::empty());
        lemma_written_is_empty_only_without_entries(entries);
        assert(are_entries_for(entries, cx));
    }
    let ghost written = filled;
    let result = filled.into_comment();
    assert(call_ensures(inject_context, (&cx, carrier), written));
    result
}

/// Returns `sql`, followed by a space and `comment` if there is one.
pub fn append_comment<'a>(sql: &'a str, comment: Option<String>) -> (result: Cow<'a, str>)
    ensures
        match comment {
            Some(comment) => result matches Cow::Owned(text) && text@ == sql@ + " "@ + comment@,
            None => result == Cow::<'a, str>::Borrowed(sql),
        },
{
    match comment {
        Some(comment) => {
            let mut text = String::new();
            text.append(sql);
            text.append(" ");
            text.append(comment.as_str());
            Cow::Owned(text)
        },
        None => Cow::Borrowed(sql),
    }
}

/// Appends the comment for `span` to `sql`, or returns `sql` itself if there is none. Either way
/// the result begins with `sql`.
pub fn maybe_append_comment<'a>(sql: &'a str, span: &Span) -> (result: Cow<'a, str>)
    ensures
        sql@.is_prefix_of(result@),
        exists|comment: Option<String>|
            {
                &&& #[trigger] call_ensures(comment_for_span, (span,), comment)
                &&& match comment {
                    Some(text) => result matches Cow::Owned(all) && all@ == sql@ + " "@ + text@,
                    None => result == Cow::<'a, str>::Borrowed(sql),
                }
            },
        exists|cx: Context, entries: Seq<Entry>|
            {
                &&& is_context_of(cx, *span)
                &&& #[trigger] are_entries_for(entries, cx)
                &&& match comment(entries) {
                    Some(text) => result matches Cow::Owned(all) && all@ == sql@ + " "@ + text,
                    None => result == Cow::<'a, str>::Borrowed(sql),
                }
            },
{
    append_comment(sql, comment_for_span(span))
}

/// Adding entries one after the other is adding them all.
pub proof fn law_entries_can_be_added_in_turn(
    written: Seq<char>,
    first: Seq<Entry>,
    second: Seq<Entry>,
)
    ensures
        after_entries(after_entries(written, first), second) == after_entries(
            written,
            first + second,
        ),
    decreases second.len(),
{
    if second.len() == 0 {
        assert(first + second == first);
    } else {
        law_entries_can_be_added_in_turn(written, first, second.drop_last());
        assert((first + second).drop_last() == first + second.drop_last());
    }
}

/// `texts` with a comma between each and the next.
pub open spec fn joined_by_commas(texts: Seq<Seq<char>>) -> Seq<char>
    decreases texts.len(),
{
    if texts.len() == 0 {
        Seq::empty()
    } else if texts.len() == 1 {
        texts[0]
    } else {
        joined_by_commas(texts.drop_last()) + ","@ + texts.last()
    }
}

/// A comment is `/*`, the entries in order, joined by commas, and `*/`.
pub proof fn law_comment_is_the_entries_joined_by_commas(entries: Seq<Entry>)
    requires
        entries.len() > 0,
    ensures
        comment(entries) == Some(
            "/*"@ + joined_by_commas(entries.map_values(|entry: Entry| entry_text(entry)))
                + "*/"@,
        ),
{
    lemma_written_is_the_entries_joined_by_commas(entries);
}

proof fn lemma_written_is_the_entries_joined_by_commas(entries: Seq<Entry>)
    requires
        entries.len() > 0,
    ensures
        after_entries(Seq::empty(), entries) == "/*"@ + joined_by_commas(
            entries.map_values(|entry: Entry| entry_text(entry)),
        ),
    decreases entries.len(),
{
    let texts = entries.map_values(|entry: Entry| entry_text(entry));
    let earlier = entries.drop_last();
    lemma_written_is_empty_only_without_entries(earlier);
    if entries.len() > 1 {
        lemma_written_is_the_entries_joined_by_commas(earlier);
        assert(texts.drop_last() == earlier.map_values(|entry: Entry| entry_text(entry)));
    }
    assert(texts.last() == entry_text(entries.last()));
}

/// Whether `c` can stand between the opening and the closing of a comment.
pub open spec fn is_comment_char(c: char) -> bool {
    crate::percent::is_encoding_char(c) || c == '=' || c == '\'' || c == ','
}

/// Between its opening and its closing, a comment holds only unreserved characters, percent signs,
/// equals signs, quotes and commas.
pub proof fn law_comment_holds_only_plain_characters(entries: Seq<Entry>)
    ensures
        comment(entries) matches Some(text) ==> forall|i: int|
            2 <= i < text.len() - 2 ==> is_comment_char(#[trigger] text[i]),
{
    if entries.len() > 0 {
        reveal_strlit("*/");
        lemma_written_is_framed(entries);
        let written = after_entries(Seq::empty(), entries);
        let text = written + "*/"@;
        assert forall|i: int| 2 <= i < text.len() - 2 implies is_comment_char(
            #[trigger] text[i],
        ) by {
            assert(text[i] == written[i]);
        }
    }
}

/// Whatever the entries are, a comment begins with `/*` and ends with `*/`, and neither occurs
/// anywhere else in it: no entry can end the comment early or open another one inside it.
pub proof fn law_comment_ends_only_at_its_end(entries: Seq<Entry>)
    ensures
        comment(entries) matches Some(text) ==> {
            &&& text.len() > 4
            &&& text[0] == '/' && text[1] == '*'
            &&& text[text.len() - 2] == '*' && text[text.len() - 1] == '/'
            &&& forall|i: int|
                0 <= i < text.len() - 1 && #[trigger] text[i] == '*' && text[i + 1] == '/' ==> i
                    == text.len() - 2
            &&& forall|i: int|
                0 <= i < text.len() - 1 && #[trigger] text[i] == '/' && text[i + 1] == '*' ==> i
                    == 0
        },
{
    if entries.len() > 0 {
        reveal_strlit("*/");
        lemma_written_is_framed(entries);
        law_comment_holds_only_plain_characters(entries);
        crate::percent::law_encoded_text_is_plain(Seq::empty());
        let text = after_entries(Seq::empty(), entries) + "*/"@;
        assert forall|i: int| 2 <= i < text.len() - 2 implies #[trigger] text[i] != '*' && text[i]
            != '/' by {
            assert(is_comment_char(text[i]));
        }
    }
}

/// The pieces of `text` between the places where `mark` stands.
pub open spec fn split_at(text: Seq<char>, mark: char) -> Seq<Seq<char>>
    decreases text.len(),
{
    if text.len() == 0 {
        seq![Seq::empty()]
    } else {
        let pieces = split_at(text.drop_last(), mark);
        if text.last() == mark {
            pieces.push(Seq::empty())
        } else {
            pieces.drop_last().push(pieces.last().push(text.last()))
        }
    }
}

/// The entry that `key='value'` stands for: what is on the two sides of the equals sign, the right
/// one without its quotes, both decoded.
pub open spec fn read_entry(text: Seq<char>) -> Entry {
    let sides = split_at(text, '=');
    let value = sides[1].subrange(1, sides[1].len() - 1);
    (crate::percent::percent_decoded(sides[0]), crate::percent::percent_decoded(value))
}

/// The entries that a comment stands for: the pieces between the commas, without the opening and
/// the closing of the comment.
pub open spec fn read_comment(text: Seq<char>) -> Seq<Entry> {
    split_at(text.subrange(2, text.len() - 2), ',').map_values(
        |piece: Seq<char>| read_entry(piece),
    )
}

/// A tool can read back what was propagated: reading a comment gives the entries it was made
/// from, in order.
pub proof fn law_comment_can_be_read_back(entries: Seq<Entry>)
    ensures
        comment(entries) matches Some(text) ==> read_comment(text) == entries,
{
    if entries.len() > 0 {
        let texts = entries.map_values(|entry: Entry| entry_text(entry));
        let inside = joined_by_commas(texts);
        let text = "/*"@ + inside + "*/"@;
        reveal_strlit("/*");
        reveal_strlit("*/");
        law_comment_is_the_entries_joined_by_commas(entries);
        assert(text.subrange(2, text.len() - 2) == inside);
        assert forall|i: int| 0 <= i < texts.len() implies is_free_of(#[trigger] texts[i], ',') by {
            lemma_entry_can_be_read_back(entries[i]);
        }
        lemma_joined_texts_split_at_commas(texts);
        assert forall|i: int| 0 <= i < entries.len() implies #[trigger] read_comment(text)[i]
            == entries[i] by {
            lemma_entry_can_be_read_back(entries[i]);
        }
        assert(read_comment(text) == entries);
    }
}

/// Different entries make different comments.
pub proof fn law_comment_determines_entries(a: Seq<Entry>, b: Seq<Entry>)
    requires
        comment(a) == comment(b),
    ensures
        a == b,
{
    law_comment_can_be_read_back(a);
    law_comment_can_be_read_back(b);
    if a.len() == 0 {
        assert(a == b);
    }
}

/// Whether `mark` does not stand in `text`.
spec fn is_free_of(text: Seq<char>, mark: char) -> bool {
    forall|i: int| 0 <= i < text.len() ==> #[trigger] text[i] != mark
}

proof fn lemma_text_without_mark_is_one_piece(text: Seq<char>, mark: char)
    requires
        is_free_of(text, mark),
    ensures
        split_at(text, mark) == seq![text],
    decreases text.len(),
{
    if text.len() == 0 {
        assert(text == Seq::<char>::empty());
    } else {
        lemma_text_without_mark_is_one_piece(text.drop_last(), mark);
        assert(text == text.drop_last().push(text.last()));
        assert(split_at(text, mark) == seq![text]);
    }
}

proof fn lemma_piece_after_the_last_mark(before: Seq<char>, mark: char, after: Seq<char>)
    requires
        is_free_of(after, mark),
    ensures
        split_at(before.push(mark) + after, mark) == split_at(before, mark).push(after),
    decreases after.len(),
{
    let text = before.push(mark) + after;
    if after.len() == 0 {
        assert(text.drop_last() == before);
        assert(after == Seq::<char>::empty());
    } else {
        lemma_piece_after_the_last_mark(before, mark, after.drop_last());
        assert(text.drop_last() == before.push(mark) + after.drop_last());
        assert(text.last() == after.last());
        assert(after == after.drop_last().push(after.last()));
        let pieces = split_at(text.drop_last(), mark);
        assert(pieces.drop_last() == split_at(before, mark));
        assert(pieces.last() == after.drop_last());
    }
}

proof fn lemma_joined_texts_split_at_commas(texts: Seq<Seq<char>>)
    requires
        texts.len() > 0,
        forall|i: int| 0 <= i < texts.len() ==> is_free_of(#[trigger] texts[i], ','),
    ensures
        split_at(joined_by_commas(texts), ',') == texts,
    decreases texts.len(),
{
    if texts.len() == 1 {
        lemma_text_without_mark_is_one_piece(texts[0], ',');
        assert(texts == seq![texts[0]]);
    } else {
        let earlier = texts.drop_last();
        lemma_joined_texts_split_at_commas(earlier);
        reveal_strlit(",");
        assert(joined_by_commas(texts) == joined_by_commas(earlier).push(',') + texts.last());
        lemma_piece_after_the_last_mark(joined_by_commas(earlier), ',', texts.last());
        assert(texts == earlier.push(texts.last()));
    }
}

proof fn lemma_entry_can_be_read_back(entry: Entry)
    ensures
        is_free_of(entry_text(entry), ','),
        read_entry(entry_text(entry)) == entry,
{
    let key = crate::percent::percent_encoded(entry.0);
    let value = crate::percent::percent_encoded(entry.1);
    let text = entry_text(entry);
    let quoted = seq!['\''] + value + seq!['\''];
    reveal_strlit("='");
    reveal_strlit("'");
    crate::percent::law_encoded_text_is_plain(entry.0);
    crate::percent::law_encoded_text_is_plain(entry.1);
    assert(text == key.push('=') + quoted);
    assert forall|i: int| 0 <= i < quoted.len() implies #[trigger] quoted[i] != '=' && quoted[i]
        != ',' by {
        if 0 < i < quoted.len() - 1 {
            assert(quoted[i] == value[i - 1]);
        }
    }
    assert forall|i: int| 0 <= i < text.len() implies #[trigger] text[i] != ',' by {
        if i < key.len() {
            assert(text[i] == key[i]);
        } else if i > key.len() {
            assert(text[i] == quoted[i - key.len() - 1]);
        }
    }
    lemma_text_without_mark_is_one_piece(key, '=');
    lemma_piece_after_the_last_mark(key, '=', quoted);
    assert(split_at(text, '=')[0] == key && split_at(text, '=')[1] == quoted);
    assert(quoted.subrange(1, quoted.len() - 1) == value);
    crate::percent::law_decoding_undoes_encoding(entry.0);
    crate::percent::law_decoding_undoes_encoding(entry.1);
}

proof fn lemma_written_is_empty_only_without_entries(entries: Seq<Entry>)
    ensures
        after_entries(Seq::empty(), entries).len() == 0 <==> entries.len() == 0,
{
    reveal_strlit("'");
}

/// What is written begins with `/*`, and only characters for entries follow.
proof fn lemma_written_is_framed(entries: Seq<Entry>)
    requires
        entries.len() > 0,
    ensures
        ({
            let written = after_entries(Seq::empty(), entries);
            &&& written.len() > 2
            &&& written[0] == '/' && written[1] == '*'
            &&& forall|i: int| 2 <= i < written.len() ==> is_comment_char(#[trigger] written[i])
        }),
    decreases entries.len(),
{
    let before = after_entries(Seq::empty(), entries.drop_last());
    let lead = lead_in(before);
    let text = entry_text(entries.last());
    let written = after_entries(Seq::empty(), entries);
    reveal_strlit("/*");
    reveal_strlit(",");
    lemma_written_is_empty_only_without_entries(entries.drop_last());
    if entries.len() > 1 {
        lemma_written_is_framed(entries.drop_last());
    }
    lemma_entry_text_is_plain(entries.last());
    assert forall|i: int| 2 <= i < written.len() implies is_comment_char(
        #[trigger] written[i],
    ) by {
        if i < lead.len() {
            assert(written[i] == lead[i]);
            if i < before.len() {
                assert(lead[i] == before[i]);
            }
        } else {
            assert(written[i] == text[i - lead.len()]);
        }
    }
}

proof fn lemma_entry_text_is_plain(entry: Entry)
    ensures
        entry_text(entry).len() > 0,
        forall|i: int|
            0 <= i < entry_text(entry).len() ==> is_comment_char(#[trigger] entry_text(entry)[i]),
{
    let key = crate::percent::percent_encoded(entry.0);
    let value = crate::percent::percent_encoded(entry.1);
    let text = entry_text(entry);
    crate::percent::law_encoded_text_is_plain(entry.0);
    crate::percent::law_encoded_text_is_plain(entry.1);
    reveal_strlit("='");
    reveal_strlit("'");
    assert forall|i: int| 0 <= i < text.len() implies is_comment_char(#[trigger] text[i]) by {
        if i < key.len() {
            assert(text[i] == key[i]);
        } else if key.len() + 2 <= i < key.len() + 2 + value.len() {
            assert(text[i] == value[i - key.len() - 2]);
        }
    }
}

/// What adding entries leaves behind: nothing is added for no entry, and an entry is added as
/// `key='value'`, both percent-encoded, after the opening of the comment if it is the first one and
/// after a comma otherwise.
pub proof fn law_entry_is_written_in_quotes(
    written: Seq<char>,
    key: Seq<char>,
    value: Seq<char>,
)
    ensures
        after_entries(written, Seq::empty()) == written,
        after_entries(written, seq![(key, value)]) == (if written.len() == 0 {
            "/*"@
        } else {
            written + ","@
        }) + crate::percent::percent_encoded(key) + "='"@ + crate::percent::percent_encoded(value)
            + "'"@,
{
    reveal_with_fuel(after_entries, 2);
    assert(seq![(key, value)].drop_last() == Seq::<Entry>::empty());
    assert(seq![(key, value)].last() == (key, value));
}

/// There is a comment exactly if there are entries. With one entry it is `/*key='value'*/`, and each
/// further one is added before the closing, after a comma.
pub proof fn law_comment_grows_entry_by_entry(
    entries: Seq<Entry>,
    key: Seq<char>,
    value: Seq<char>,
)
    ensures
        comment(entries) is Some <==> entries.len() > 0,
        comment(seq![(key, value)]) == Some(
            "/*"@ + crate::percent::percent_encoded(key) + "='"@ + crate::percent::percent_encoded(
                value,
            ) + "'*/"@,
        ),
        comment(entries) matches Some(text) ==> comment(entries.push((key, value))) == Some(
            text.take(text.len() - 2) + ","@ + crate::percent::percent_encoded(key) + "='"@
                + crate::percent::percent_encoded(value) + "'*/"@,
        ),
{
    lemma_end_of_a_comment();
    law_entry_is_written_in_quotes(Seq::empty(), key, value);
    lemma_written_is_empty_only_without_entries(entries);
    let written = after_entries(Seq::empty(), entries);
    assert(entries.push((key, value)).drop_last() == entries);
    assert((written + "*/"@).take(written.len() as int) == written);
    let enc_key = crate::percent::percent_encoded(key);
    let enc_value = crate::percent::percent_encoded(value);
    assert("/*"@ + enc_key + "='"@ + enc_value + "'"@ + "*/"@ == "/*"@ + enc_key + "='"@ + enc_value
        + "'*/"@);
    if entries.len() > 0 {
        assert(after_entries(Seq::empty(), entries.push((key, value))) == written + ","@ + enc_key
            + "='"@ + enc_value + "'"@);
        assert(written + ","@ + enc_key + "='"@ + enc_value + "'"@ + "*/"@ == written + ","@
            + enc_key + "='"@ + enc_value + "'*/"@);
    }
}

proof fn lemma_end_of_a_comment()
    ensures
        "'"@ + "*/"@ == "'*/"@,
        "*/"@.len() == 2,
{
    reveal_strlit("'");
    reveal_strlit("*/");
    reveal_strlit("'*/");
}

/// A carrier to which nothing was added makes no comment.
pub proof fn law_empty_carrier_makes_no_comment(
    empty: SqlcommenterCarrier,
    result: Option<String>,
)
    requires
        call_ensures(SqlcommenterCarrier::default, (), empty),
        call_ensures(SqlcommenterCarrier::into_comment, (empty,), result),
    ensures
        result is None,
{
}

/// A carrier to which one entry was added makes the comment `/*key='value'*/`, with key and value
/// percent-encoded, whatever they are.
pub proof fn law_carrier_writes_the_first_entry(
    carrier: &mut SqlcommenterCarrier,
    key: &str,
    value: String,
    result: Option<String>,
)
    requires
        call_ensures(SqlcommenterCarrier::default, (), *carrier),
        call_ensures(SqlcommenterCarrier::set, (carrier, key, value), ()),
        call_ensures(SqlcommenterCarrier::into_comment, (*final(carrier),), result),
    ensures
        result matches Some(text) && text@ == "/*"@ + crate::percent::percent_encoded(key@) + "='"@
            + crate::percent::percent_encoded(value@) + "'*/"@,
{
    lemma_end_of_a_comment();
    law_entry_is_written_in_quotes(carrier@, key@, value@);
    law_comment_grows_entry_by_entry(Seq::empty(), key@, value@);
    reveal_strlit("/*");
    assert(final(carrier)@.len() > 0);
}

/// Adding an entry to a carrier that makes the comment `text` leads to the comment that differs from
/// it only in that `,key='value'` stands before the closing, with key and value percent-encoded,
/// whatever they are.
pub proof fn law_carrier_writes_a_further_entry(
    carrier: &mut SqlcommenterCarrier,
    key: &str,
    value: String,
    text: String,
    result: Option<String>,
)
    requires
        call_ensures(SqlcommenterCarrier::into_comment, (*carrier,), Some(text)),
        call_ensures(SqlcommenterCarrier::set, (carrier, key, value), ()),
        call_ensures(SqlcommenterCarrier::into_comment, (*final(carrier),), result),
    ensures
        result matches Some(longer) && longer@ == text@.take(text@.len() - 2) + ","@
            + crate::percent::percent_encoded(key@) + "='"@ + crate::percent::percent_encoded(
            value@,
        ) + "'*/"@,
{
    lemma_end_of_a_comment();
    law_entry_is_written_in_quotes(carrier@, key@, value@);
    let written = carrier@;
    assert(text@ == written + "*/"@);
    assert(text@.take(text@.len() - 2) == written);
    assert(final(carrier)@.len() > 0);
    let enc_key = crate::percent::percent_encoded(key@);
    let enc_value = crate::percent::percent_encoded(value@);
    assert(written + ","@ + enc_key + "='"@ + enc_value + "'"@ + "*/"@ == written + ","@ + enc_key
        + "='"@ + enc_value + "'*/"@);
}

/// The comment for a span is what an empty carrier makes once the propagator that is installed has
/// filled it with what it writes for the context of that span, and nothing else.
proof fn law_comment_is_what_the_propagator_writes(span: Span, result: Option<String>)
    requires
        call_ensures(comment_for_span, (&span,), result),
    ensures
        exists|cx: Context, empty: SqlcommenterCarrier, filled: SqlcommenterCarrier|
            {
                &&& call_ensures(context_for_span, (&span,), cx)
                &&& call_ensures(SqlcommenterCarrier::default, (), empty)
                &&& #[trigger] call_ensures(inject_context, (&cx, empty), filled)
                &&& call_ensures(SqlcommenterCarrier::into_comment, (filled,), result)
            },
{
}

/// A query is followed by a space and its comment, and stays as it is if there is no comment,
/// whatever the two are.
pub proof fn law_comment_follows_the_query<'a>(
    sql: &'a str,
    comment: Option<String>,
    result: Cow<'a, str>,
)
    requires
        call_ensures(append_comment, (sql, comment), result),
    ensures
        comment matches Some(text) ==> (result matches Cow::Owned(all) && all@ == sql@.push(' ')
            + text@),
        comment is None ==> result == Cow::<'a, str>::Borrowed(sql),
{
    reveal_strlit(" ");
    assert(sql@ + " "@ == sql@.push(' '));
}

/// A query that goes out with a comment is the query, a space and the comment for the span. A query
/// for whose span there is no comment goes out as it is.
pub proof fn law_query_goes_out_with_its_comment<'a>(
    sql: &'a str,
    span: Span,
    result: Cow<'a, str>,
)
    requires
        call_ensures(maybe_append_comment, (sql, &span), result),
    ensures
        exists|comment: Option<String>|
            {
                &&& #[trigger] call_ensures(comment_for_span, (&span,), comment)
                &&& comment matches Some(text) ==> (result matches Cow::Owned(all) && all@
                    == sql@.push(' ') + text@)
                &&& comment is None ==> result == Cow::<'a, str>::Borrowed(sql)
            },
{
    reveal_strlit(" ");
    assert(sql@ + " "@ == sql@.push(' '));
}

/// The comment for a span is that of some entries, with nothing added or left out, and there is none
/// exactly if there are no entries.
pub proof fn law_comment_for_span_holds_the_entries(span: Span, result: Option<String>)
    requires
        call_ensures(comment_for_span, (&span,), result),
    ensures
        exists|entries: Seq<Entry>|
            {
                &&& result is Some <==> entries.len() > 0
                &&& result matches Some(text) ==> Some(text@) == #[trigger] comment(entries)
            },
{
    let (cx, entries) = choose|cx: Context, entries: Seq<Entry>|
        {
            &&& is_context_of(cx, span)
            &&& #[trigger] are_entries_for(entries, cx)
            &&& holds(result, comment(entries))
        };
    law_comment_grows_entry_by_entry(entries, Seq::empty(), Seq::empty());
    assert(result matches Some(text) ==> Some(text@) == comment(entries));
}

/// What a carrier has written is the text that it keeps.
proof fn law_carrier_has_written_what_it_keeps(carrier: SqlcommenterCarrier)
    ensures
        carrier@ == carrier.out@,
{
}

} // verus!
