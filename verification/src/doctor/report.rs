//! What both walks share: a call, and the lines of the report.

use vstd::prelude::*;
use vstd::string::*;

use crate::json;
use crate::json::{json_read, Json, JsonView};
use crate::text;
use crate::text::{decimal, lines, pad, texts, trim};

verus! {

/// The bound on every call either walk makes, in nanoseconds. `az aks list`
/// over a slow tenant is the one that comes close.
pub const CALL_CAP: u128 = 60_000_000_000;

/// One program to run, with its arguments.
#[derive(Debug, PartialEq, Eq)]
pub struct Call {
    pub program: String,
    pub arguments: Vec<String>,
}

pub struct CallView {
    pub program: Seq<char>,
    pub arguments: Seq<Seq<char>>,
}

impl View for Call {
    type V = CallView;

    open spec fn view(&self) -> CallView {
        CallView { program: self.program@, arguments: texts(self.arguments@) }
    }
}

/// How a call ended: what it wrote, or what went wrong.
pub open spec fn answer_view(answer: Result<String, String>) -> Result<Seq<char>, Seq<char>> {
    match answer {
        Ok(out) => Ok(out@),
        Err(said) => Err(said@),
    }
}

/// The texts of a list of arguments.
pub open spec fn arguments_of(arguments: Seq<&str>) -> Seq<Seq<char>> {
    arguments.map_values(|argument: &str| argument@)
}

/// A call of `program` with these arguments.
pub fn call(program: &str, arguments: &[&str]) -> (call: Call)
    ensures
        call@ == (CallView { program: program@, arguments: arguments_of(arguments@) }),
{
    let mut held: Vec<String> = Vec::new();
    let ghost all = arguments_of(arguments@);
    let mut at: usize = 0;
    assert(texts(held@) =~= all.take(0));
    while at < arguments.len()
        invariant
            at <= arguments@.len(),
            all == arguments_of(arguments@),
            texts(held@) == all.take(at as int),
        decreases arguments@.len() - at,
    {
        let ghost before = held@;
        held.push(arguments[at].to_owned());
        assert(texts(held@) =~= texts(before).push(all[at as int]));
        assert(all.take(at as int + 1) =~= all.take(at as int).push(all[at as int]));
        at += 1;
    }
    assert(all.take(at as int) =~= all);
    Call { program: program.to_owned(), arguments: held }
}

/// One line of the report: what it is about, and what there is to say.
pub open spec fn row(label: Seq<char>, said: Seq<char>) -> Seq<char> {
    pad(label, 14) + said + "\n"@
}

/// One line of the report: what it is about, and what there is to say.
pub fn line(label: &str, said: &str) -> (line: String)
    ensures
        line@ == row(label@, said@),
{
    text::padded(label, 14).concat(said).concat("\n")
}

/// How long a call took: in milliseconds under a second, else in the seconds
/// given.
pub open spec fn took_text(millis: nat, seconds: Seq<char>) -> Seq<char> {
    if millis < 1000 {
        decimal(millis) + " ms"@
    } else {
        seconds + " s"@
    }
}

/// How long a call took: in milliseconds under a second, else in seconds, to
/// one digit after the point as `seconds` gives them.
pub fn took(millis: u128, seconds: &str) -> (said: String)
    ensures
        said@ == took_text(millis as nat, seconds@),
{
    if millis < 1000 {
        text::print(millis).concat(" ms")
    } else {
        seconds.to_owned().concat(" s")
    }
}

/// The first line of what a tool wrote, trimmed, or nothing.
pub open spec fn first_line(raw: Seq<char>) -> Seq<char> {
    if lines(raw).len() > 0 {
        trim(lines(raw)[0])
    } else {
        ""@
    }
}

/// The tool's own version line.
pub fn version(raw: &str) -> (said: String)
    ensures
        said@ == first_line(raw@),
{
    let found = text::lines_of(raw);
    if found.len() > 0 {
        assert(lines(raw@)[0] == found@[0]@);
        text::trimmed(found[0].as_str())
    } else {
        "".to_owned()
    }
}

/// The document that was read, or null where it was none.
pub open spec fn document_or_null(read: Result<JsonView, Seq<char>>) -> JsonView {
    match read {
        Ok(held) => held,
        Err(_) => JsonView::Null,
    }
}

/// The document a tool wrote, or null where it wrote something else.
pub fn document(raw: &str) -> (held: Json)
    ensures
        held@ == document_or_null(json_read(raw@)),
{
    match json::parse(raw) {
        Ok(held) => held,
        Err(_) => Json::Null,
    }
}

/// A text, or `otherwise` where there is none.
pub open spec fn text_or(held: JsonView, otherwise: Seq<char>) -> Seq<char> {
    match held.text() {
        Some(held) => held,
        None => otherwise,
    }
}

/// A text, or `otherwise` where there is none.
pub fn said_or(held: &Json, otherwise: &str) -> (said: String)
    ensures
        said@ == text_or(held@, otherwise@),
{
    match held.text() {
        Some(held) => held.to_owned(),
        None => otherwise.to_owned(),
    }
}

/// A row of the report is what it is about, in a column of its own, and what
/// is said of it.
pub proof fn law_a_row_says_what_it_is_about(label: Seq<char>, said: Seq<char>)
    ensures
        row(label, said).take(label.len() as int) == label,
        label.len() < 14 ==> row(label, said).skip(14) == said + "\n"@,
        row(label, said).last() == '\n',
{
    reveal_strlit("\n");
    assert(row(label, said).take(label.len() as int) =~= label);
    if label.len() < 14 {
        assert(row(label, said).skip(14) =~= said + "\n"@);
    }
}

/// How long a call took is said in milliseconds under a second, and in
/// seconds from there.
pub proof fn law_a_short_call_is_timed_in_milliseconds(millis: nat, seconds: Seq<char>)
    ensures
        millis < 1000 ==> took_text(millis, seconds) == decimal(millis) + " ms"@,
        millis >= 1000 ==> took_text(millis, seconds) == seconds + " s"@,
{
}

/// The first line of an answer is the one before its first end of a line,
/// trimmed.
pub proof fn law_the_first_line_is_the_first(line: Seq<char>, rest: Seq<char>)
    requires
        !line.contains('\n'),
        line.len() > 0,
        line.last() != '\r',
    ensures
        first_line(line + seq!['\n'] + rest) == trim(line),
        first_line(line) == trim(line),
{
    text::law_a_line_ends_where_it_ends(line, rest);
}

/// A text is said as it is, and what is no text by another word; a document
/// that is none is as one with nothing in it.
pub proof fn law_what_is_no_text_has_another_word(
    held: JsonView,
    said: Seq<char>,
    otherwise: Seq<char>,
)
    ensures
        text_or(JsonView::Text(said), otherwise) == said,
        !(held is Text) ==> text_or(held, otherwise) == otherwise,
        document_or_null(Ok(held)) == held,
        document_or_null(Err(said)) is Null,
{
}

} // verus!
