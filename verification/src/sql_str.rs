//! SQL text that is ready to be sent to a database.
use vstd::prelude::*;

verus! {

/// SQL text, either fixed in the program or put together while it runs.
#[derive(Debug, PartialEq, Eq)]
pub enum SqlStr {
    /// Text that is a literal of the program.
    Static(&'static str),
    /// Text that was composed at run time.
    Owned(String),
}

impl View for SqlStr {
    type V = Seq<char>;

    open spec fn view(&self) -> Seq<char> {
        match self {
            SqlStr::Static(text) => text@,
            SqlStr::Owned(text) => text@,
        }
    }
}

impl SqlStr {
    /// Returns the text.
    pub fn as_str(&self) -> (text: &str)
        ensures
            text@ == self@,
    {
        match self {
            SqlStr::Static(text) => text,
            SqlStr::Owned(text) => text.as_str(),
        }
    }
}

/// SQL text is what it was made of, letter for letter, whether that was a literal or a string, and
/// that is what is read from it.
pub proof fn law_text_is_what_it_was_made_of(sql: SqlStr, text: &str)
    requires
        call_ensures(SqlStr::as_str, (&sql,), text),
    ensures
        sql matches SqlStr::Static(literal) ==> text@ == literal@ && sql@ == literal@,
        sql matches SqlStr::Owned(string) ==> text@ == string@ && sql@ == string@,
{
}

} // verus!
