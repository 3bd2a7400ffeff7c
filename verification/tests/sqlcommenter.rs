use std::borrow::Cow;
use std::sync::OnceLock;

use opentelemetry::propagation::text_map_propagator::FieldIter;
use opentelemetry::propagation::{Extractor, Injector, TextMapPropagator};
use opentelemetry::trace::{TraceContextExt, TracerProvider};
use opentelemetry::Context;
use opentelemetry_sdk::propagation::TraceContextPropagator;
use opentelemetry_sdk::trace::SdkTracerProvider;
use sqlx_transaction::percent::push_percent_encoded;
use sqlx_transaction::sqlcommenter::{
    append_comment, comment_for_span, maybe_append_comment, SqlcommenterCarrier,
};
use sqlx_transaction::sqlcommenter_disabled;
use tracing::{Metadata, Span};
use tracing_core::callsite::{Callsite, Identifier};
use tracing_core::field::{Field, FieldSet, Value};
use tracing_core::{Interest, Kind, Level};
use tracing_opentelemetry::OpenTelemetrySpanExt;
use tracing_subscriber::layer::SubscriberExt;
use tracing_subscriber::Registry;

/// Writes the same entries for every context.
#[derive(Debug)]
struct Fixed(Vec<(&'static str, &'static str)>);

impl TextMapPropagator for Fixed {
    fn inject_context(&self, _cx: &Context, injector: &mut dyn Injector) {
        injector.reserve(self.0.len());
        for (key, value) in &self.0 {
            injector.set(key, String::from(*value));
        }
    }

    fn extract_with_context(&self, cx: &Context, _extractor: &dyn Extractor) -> Context {
        cx.clone()
    }

    fn fields(&self) -> FieldIter<'_> {
        FieldIter::new(&[])
    }
}

struct Site(OnceLock<Metadata<'static>>);

impl Callsite for Site {
    fn set_interest(&self, _interest: Interest) {}

    fn metadata(&self) -> &Metadata<'_> {
        self.0.get().unwrap()
    }
}

fn new_span(name: &'static str) -> Span {
    let site: &'static Site = Box::leak(Box::new(Site(OnceLock::new())));
    let fields = FieldSet::new(&[], Identifier(site));
    let metadata = Metadata::new(
        name,
        "test",
        Level::INFO,
        None,
        None,
        None,
        fields,
        Kind::SPAN,
    );
    site.0.set(metadata).unwrap();
    let metadata: &'static Metadata<'static> = site.0.get().unwrap();
    let values: [(&Field, Option<&dyn Value>); 0] = [];
    Span::new(metadata, &metadata.fields().value_set(&values))
}

fn encoded(text: &str) -> String {
    let mut out = String::new();
    push_percent_encoded(&mut out, text);
    out
}

#[test]
fn unreserved_characters_are_kept() {
    let text = "ABCXYZabcxyz0189-_.~";
    assert_eq!(encoded(text), text);
    assert_eq!(encoded(""), "");
}

#[test]
fn other_characters_are_escaped() {
    assert_eq!(encoded("*/"), "%2A%2F");
    assert_eq!(encoded("',="), "%27%2C%3D");
    assert_eq!(encoded("a b%"), "a%20b%25");
    assert_eq!(encoded("\u{0}\u{7f}"), "%00%7F");
    assert_eq!(encoded("\u{e9}\u{20ac}"), "%C3%A9%E2%82%AC");
    assert_eq!(encoded("@[`{/:"), "%40%5B%60%7B%2F%3A");
}

#[test]
fn every_ascii_character_is_kept_or_escaped() {
    for code in 0u8..128 {
        let c = char::from(code);
        let text = c.to_string();
        let expected = if c.is_ascii_alphanumeric() || "-_.~".contains(c) {
            text.clone()
        } else {
            format!("%{code:02X}")
        };
        assert_eq!(encoded(&text), expected);
    }
}

#[test]
fn encodings_differ() {
    let texts = ["", "a", "%", "%25", "%2", "a%", "%41", "A", "\u{e9}", "%C3%A9"];
    for (i, a) in texts.iter().enumerate() {
        for (j, b) in texts.iter().enumerate() {
            assert_eq!(encoded(a) == encoded(b), i == j);
        }
    }
}

#[test]
fn carrier_without_entries_makes_no_comment() {
    assert_eq!(SqlcommenterCarrier::default().into_comment(), None);
}

#[test]
fn carrier_writes_entries_in_order() {
    let mut carrier = SqlcommenterCarrier::default();
    carrier.set("key1", String::from("value1"));
    carrier.set("key2", String::from("value2"));
    assert_eq!(
        carrier.into_comment(),
        Some(String::from("/*key1='value1',key2='value2'*/"))
    );
}

#[test]
fn carrier_writes_empty_entries() {
    let mut carrier = SqlcommenterCarrier::default();
    carrier.set("", String::new());
    assert_eq!(carrier.into_comment(), Some(String::from("/*=''*/")));
}

#[test]
fn entries_cannot_end_the_comment() {
    let mut carrier = SqlcommenterCarrier::default();
    carrier.set("*/ DROP", String::from("x'*/; /*"));
    let comment = carrier.into_comment().unwrap();
    assert_eq!(comment, "/*%2A%2F%20DROP='x%27%2A%2F%3B%20%2F%2A'*/");
    assert_eq!(comment.find("*/"), Some(comment.len() - 2));
    assert_eq!(comment.rfind("/*"), Some(0));
}

#[test]
fn entries_that_look_alike_make_different_comments() {
    let mut one = SqlcommenterCarrier::default();
    one.set("a", String::from("b',c='d"));
    let mut two = SqlcommenterCarrier::default();
    two.set("a", String::from("b"));
    two.set("c", String::from("d"));
    assert_ne!(one.into_comment(), two.into_comment());
}

#[test]
fn comment_is_appended_after_a_space() {
    let text = append_comment("SELECT 1", Some(String::from("/*k='v'*/")));
    assert!(matches!(text, Cow::Owned(_)));
    assert_eq!(text, "SELECT 1 /*k='v'*/");
}

#[test]
fn query_without_comment_is_borrowed() {
    let text = append_comment("SELECT 1", None);
    assert!(matches!(text, Cow::Borrowed("SELECT 1")));
}

fn no_propagator_means_no_comment() {
    assert_eq!(comment_for_span(&Span::none()), None);
    let text = maybe_append_comment("SELECT 1", &Span::none());
    assert!(matches!(text, Cow::Borrowed("SELECT 1")));
}

fn comment_holds_what_the_propagator_writes() {
    opentelemetry::global::set_text_map_propagator(Fixed(vec![
        ("b3", "80f1-e457-1"),
        ("X B3", "a/b"),
    ]));
    assert_eq!(
        comment_for_span(&Span::none()),
        Some(String::from("/*b3='80f1-e457-1',X%20B3='a%2Fb'*/"))
    );
    assert_eq!(
        maybe_append_comment("SELECT 1", &Span::none()),
        "SELECT 1 /*b3='80f1-e457-1',X%20B3='a%2Fb'*/"
    );
    let text = sqlcommenter_disabled::maybe_append_comment("SELECT 1", &Span::none());
    assert!(matches!(text, Cow::Borrowed("SELECT 1")));
}

fn propagator_that_writes_nothing_means_no_comment() {
    opentelemetry::global::set_text_map_propagator(Fixed(vec![]));
    assert_eq!(comment_for_span(&Span::none()), None);
    let text = maybe_append_comment("SELECT 1", &Span::none());
    assert!(matches!(text, Cow::Borrowed("SELECT 1")));
}

fn comment_holds_the_trace_context_of_the_span() {
    opentelemetry::global::set_text_map_propagator(TraceContextPropagator::new());
    let tracer = SdkTracerProvider::builder().build().tracer("test");
    let subscriber = Registry::default().with(tracing_opentelemetry::layer().with_tracer(tracer));
    tracing::subscriber::with_default(subscriber, || {
        let span = new_span("query");
        let other = new_span("other");
        let cx = span.context();
        let trace = cx.span().span_context().clone();
        assert!(trace.is_valid());
        let expected = format!(
            "/*traceparent='00-{}-{}-01',tracestate=''*/",
            trace.trace_id(),
            trace.span_id()
        );
        assert_eq!(comment_for_span(&span), Some(expected.clone()));
        assert_eq!(
            maybe_append_comment("SELECT 1", &span),
            format!("SELECT 1 {expected}")
        );
        assert_ne!(comment_for_span(&other), Some(expected));
        assert_eq!(comment_for_span(&Span::none()), None);
    });
}

/// The propagator is global, so what depends on it is tried in turn.
#[test]
fn comments_follow_the_global_propagator() {
    no_propagator_means_no_comment();
    comment_holds_what_the_propagator_writes();
    propagator_that_writes_nothing_means_no_comment();
    comment_holds_the_trace_context_of_the_span();
}

#[test]
fn disabled_comments_leave_queries_alone() {
    assert_eq!(sqlcommenter_disabled::comment_for_span(&Span::none()), None);
    let text = sqlcommenter_disabled::maybe_append_comment("SELECT 1", &Span::none());
    assert!(matches!(text, Cow::Borrowed("SELECT 1")));
}

#[test]
fn comment_is_the_entries_joined_by_commas() {
    let entries = [("a", "1"), ("b c", "2/3"), ("", "~")];
    let mut carrier = SqlcommenterCarrier::default();
    for (key, value) in entries {
        carrier.set(key, String::from(value));
    }
    let texts: Vec<String> = entries
        .iter()
        .map(|(key, value)| format!("{}='{}'", encoded(key), encoded(value)))
        .collect();
    let comment = carrier.into_comment().unwrap();
    assert_eq!(comment, format!("/*{}*/", texts.join(",")));
    let inside = &comment[2..comment.len() - 2];
    assert!(inside
        .chars()
        .all(|c| c.is_ascii_alphanumeric() || "-_.~%=',".contains(c)));
}

/// The text that percent-encoded text stands for.
fn decoded(text: &str) -> String {
    let mut bytes = Vec::new();
    let mut rest = text.as_bytes();
    while let Some((first, tail)) = rest.split_first() {
        if *first == b'%' {
            let digits = std::str::from_utf8(&tail[..2]).unwrap();
            bytes.push(u8::from_str_radix(digits, 16).unwrap());
            rest = &tail[2..];
        } else {
            bytes.push(*first);
            rest = tail;
        }
    }
    String::from_utf8(bytes).unwrap()
}

#[test]
fn decoding_undoes_encoding() {
    for text in ["", "plain", "a b", "%", "%25", "100%", "',=/*", "\u{e9}\u{20ac}\u{1f600}"] {
        assert_eq!(decoded(&encoded(text)), text);
    }
}

#[test]
fn comment_can_be_read_back() {
    let entries = [
        ("traceparent", "00-80f1-e457-01"),
        ("a,b", "x='y',z='*/'"),
        ("", ""),
        ("caf\u{e9}", "100%"),
        ("traceparent", "again"),
    ];
    let mut carrier = SqlcommenterCarrier::default();
    for (key, value) in entries {
        carrier.set(key, String::from(value));
    }
    let comment = carrier.into_comment().unwrap();
    let read: Vec<(String, String)> = comment[2..comment.len() - 2]
        .split(',')
        .map(|entry| {
            let sides: Vec<&str> = entry.split('=').collect();
            assert_eq!(sides.len(), 2);
            let value = &sides[1][1..sides[1].len() - 1];
            (decoded(sides[0]), decoded(value))
        })
        .collect();
    let expected: Vec<(String, String)> = entries
        .iter()
        .map(|(key, value)| (String::from(*key), String::from(*value)))
        .collect();
    assert_eq!(read, expected);
}
