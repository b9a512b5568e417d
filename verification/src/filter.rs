//! `key:value` in the search box.
//!
//! A token is a field filter when its key is one the list knows; anything
//! else is a word and is matched literally. That is deliberate:
//! `orders-api:1.2` should search for itself, not fail because `orders-api`
//! is not a field.
//!
//! Every filter and every word is ANDed. There is no `or`, no negation and
//! no grouping.

use vstd::prelude::*;
use vstd::string::*;

use crate::text;
use crate::text::{first_index, has, lower, pairs, texts, words};

verus! {

/// What a query asks for.
pub struct QueryView {
    pub words: Seq<Seq<char>>,
    pub fields: Seq<(Seq<char>, Seq<char>)>,
}

/// The list knows this key, in whatever case it is typed.
pub open spec fn knows(known: Seq<Seq<char>>, key: Seq<char>) -> bool {
    exists|at: int| 0 <= at < known.len() && lower(#[trigger] known[at]) == lower(key)
}

/// The part of a token before its first colon.
pub open spec fn key_of(token: Seq<char>) -> Seq<char> {
    token.take(first_index(token, ':') as int)
}

/// The part of a token after its first colon.
pub open spec fn value_in(token: Seq<char>) -> Seq<char> {
    token.skip(first_index(token, ':') as int + 1)
}

/// A token that names a field the list knows.
pub open spec fn is_field(token: Seq<char>, known: Seq<Seq<char>>) -> bool {
    first_index(token, ':') < token.len() && knows(known, key_of(token))
}

impl QueryView {
    pub open spec fn empty() -> QueryView {
        QueryView { words: seq![], fields: seq![] }
    }

    /// With one more token: a field, a word, or nothing yet where a field
    /// has no value.
    pub open spec fn with(self, token: Seq<char>, known: Seq<Seq<char>>) -> QueryView {
        if !is_field(token, known) {
            QueryView { words: self.words.push(token), ..self }
        } else if value_in(token).len() == 0 {
            self
        } else {
            QueryView {
                fields: self.fields.push((lower(key_of(token)), value_in(token))),
                ..self
            }
        }
    }

    /// What these tokens ask for together.
    pub open spec fn of(tokens: Seq<Seq<char>>, known: Seq<Seq<char>>) -> QueryView
        decreases tokens.len(),
    {
        if tokens.len() == 0 {
            QueryView::empty()
        } else {
            QueryView::of(tokens.drop_last(), known).with(tokens.last(), known)
        }
    }
}

/// A parsed query: the words to match literally, and the fields to test.
#[derive(Debug, PartialEq, Eq)]
pub struct Query {
    pub words: Vec<String>,
    pub fields: Vec<(String, String)>,
}

impl View for Query {
    type V = QueryView;

    open spec fn view(&self) -> QueryView {
        QueryView { words: texts(self.words@), fields: pairs(self.fields@) }
    }
}

impl Clone for Query {
    fn clone(&self) -> (copy: Self)
        ensures
            copy@ == self@,
    {
        Query { words: text::copy_texts(&self.words), fields: text::copy_pairs(&self.fields) }
    }
}

impl Default for Query {
    fn default() -> (query: Self)
        ensures
            query@ == QueryView::empty(),
    {
        let query = Query { words: Vec::new(), fields: Vec::new() };
        assert(query@.words =~= seq![]);
        assert(query@.fields =~= seq![]);
        query
    }
}

/// The texts of a list of keys.
pub open spec fn keys(known: Seq<&str>) -> Seq<Seq<char>> {
    known.map_values(|key: &str| key@)
}

fn is_known(key: &str, known: &[&str]) -> (answer: bool)
    ensures
        answer == knows(keys(known@), key@),
{
    let mut at: usize = 0;
    while at < known.len()
        invariant
            at <= known@.len(),
            forall|k: int| 0 <= k < at ==> lower(#[trigger] keys(known@)[k]) != lower(key@),
        decreases known@.len() - at,
    {
        if text::same_ignoring_case(known[at], key) {
            assert(lower(keys(known@)[at as int]) == lower(key@));
            return true;
        }
        at += 1;
    }
    false
}

impl Query {
    /// Splits a raw query into words and `key:value` pairs. `known` says
    /// which keys this list understands; a token with any other key is a
    /// word. A key the list knows with nothing after the colon is nothing
    /// yet: half-typing a filter must not empty the table on the way to
    /// typing it.
    pub fn parse(raw: &str, known: &[&str]) -> (query: Self)
        ensures
            query@ == QueryView::of(words(raw@), keys(known@)),
    {
        let mut query = Query::default();
        let tokens = text::words_of(raw);
        let ghost all = texts(tokens@);
        let mut at: usize = 0;
        while at < tokens.len()
            invariant
                at <= tokens@.len(),
                all == texts(tokens@),
                query@ == QueryView::of(all.take(at as int), keys(known@)),
            decreases tokens@.len() - at,
        {
            assert(all.take(at as int + 1).drop_last() =~= all.take(at as int));
            assert(all.take(at as int + 1).last() == tokens@[at as int]@);
            let ghost before = query@;
            let token = tokens[at].as_str();
            match text::split_at_first(token, ':') {
                Some(halves) => {
                    if !is_known(halves.0.as_str(), known) {
                        query.words.push(token.to_owned());
                        assert(query@.words =~= before.words.push(token@));
                    } else if !halves.1.as_str().is_empty() {
                        let key = text::lowered(halves.0.as_str());
                        let ghost pair = (key@, halves.1@);
                        query.fields.push((key, halves.1));
                        assert(query@.fields =~= before.fields.push(pair));
                    }
                },
                None => {
                    query.words.push(token.to_owned());
                    assert(query@.words =~= before.words.push(token@));
                },
            }
            at += 1;
        }
        assert(all.take(at as int) =~= all);
        query
    }
}

/// Whether a cell contains what was asked for, ignoring case. The shape
/// every plain `key:` filter takes.
pub fn contains(haystack: &str, needle: &str) -> (answer: bool)
    ensures
        answer == has(lower(haystack@), lower(needle@)),
{
    let haystack = text::lowered(haystack);
    let needle = text::lowered(needle);
    text::holds(haystack.as_str(), needle.as_str())
}

/// A token whose key the list does not know is a word, just as it was typed.
pub proof fn law_an_unknown_key_stays_a_word(
    query: QueryView,
    token: Seq<char>,
    known: Seq<Seq<char>>,
)
    requires
        !knows(known, key_of(token)),
    ensures
        query.with(token, known).words == query.words.push(token),
        query.with(token, known).fields == query.fields,
{
}

/// A key the list knows with nothing after the colon asks for nothing.
pub proof fn law_half_a_filter_asks_for_nothing(
    query: QueryView,
    key: Seq<char>,
    known: Seq<Seq<char>>,
)
    requires
        knows(known, key),
        !key.contains(':'),
    ensures
        query.with(key.push(':'), known) == query,
{
    let token = key.push(':');
    lemma_first_colon(key, seq![':']);
    assert(key + seq![':'] =~= token);
    assert(key_of(token) =~= key);
}

proof fn lemma_first_colon(key: Seq<char>, rest: Seq<char>)
    requires
        !key.contains(':'),
        rest.len() > 0,
        rest[0] == ':',
    ensures
        first_index(key + rest, ':') == key.len(),
    decreases key.len(),
{
    let whole = key + rest;
    if key.len() > 0 {
        assert(key.contains(key[0]));
        assert(whole[0] == key[0]);
        assert(whole.skip(1) =~= key.skip(1) + rest);
        assert(!key.skip(1).contains(':')) by {
            if key.skip(1).contains(':') {
                let at = choose|at: int| 0 <= at < key.skip(1).len() && key.skip(1)[at] == ':';
                assert(key[at + 1] == ':');
            }
        }
        lemma_first_colon(key.skip(1), rest);
    }
}

/// A key the list knows, a colon and a value ask for that value in that
/// field, whatever the value holds and in whatever case the key is typed.
pub proof fn law_a_key_and_a_value_ask_for_a_field(
    query: QueryView,
    key: Seq<char>,
    value: Seq<char>,
    known: Seq<Seq<char>>,
)
    requires
        knows(known, key),
        !key.contains(':'),
        value.len() > 0,
    ensures
        query.with(key + seq![':'] + value, known).fields == query.fields.push((lower(key), value)),
        query.with(key + seq![':'] + value, known).words == query.words,
{
    let token = key + seq![':'] + value;
    lemma_first_colon(key, seq![':'] + value);
    assert(key + (seq![':'] + value) =~= token);
    assert(key_of(token) =~= key);
    assert(value_in(token) =~= value);
}

/// A token without a colon is a word, just as it was typed.
pub proof fn law_a_token_without_a_colon_is_a_word(
    query: QueryView,
    token: Seq<char>,
    known: Seq<Seq<char>>,
)
    requires
        !token.contains(':'),
    ensures
        query.with(token, known).words == query.words.push(token),
        query.with(token, known).fields == query.fields,
{
    text::law_the_first_place_is_found(token, ':', seq![]);
}

/// Tokens are taken one by one and each asks for the same wherever it
/// stands.
pub proof fn law_a_query_is_the_sum_of_its_tokens(
    a: Seq<Seq<char>>,
    b: Seq<Seq<char>>,
    known: Seq<Seq<char>>,
)
    ensures
        QueryView::of(a + b, known).words == QueryView::of(a, known).words + QueryView::of(
            b,
            known,
        ).words,
        QueryView::of(a + b, known).fields == QueryView::of(a, known).fields + QueryView::of(
            b,
            known,
        ).fields,
    decreases b.len(),
{
    let first = QueryView::of(a, known);
    let second = QueryView::of(b, known);
    if b.len() == 0 {
        assert(a + b =~= a);
        assert(first.words + second.words =~= first.words);
        assert(first.fields + second.fields =~= first.fields);
    } else {
        law_a_query_is_the_sum_of_its_tokens(a, b.drop_last(), known);
        assert((a + b).drop_last() =~= a + b.drop_last());
        assert((a + b).last() == b.last());
        assert(QueryView::of(a + b, known).words =~= first.words + second.words);
        assert(QueryView::of(a + b, known).fields =~= first.fields + second.fields);
    }
}

/// A key is known where it is one of those there are, in capitals or not, and
/// nowhere else.
pub proof fn law_a_key_is_known_by_its_letters(
    known: Seq<Seq<char>>,
    key: Seq<char>,
    at: int,
)
    ensures
        0 <= at < known.len() && lower(known[at]) == lower(key) ==> knows(known, key),
        0 <= at < known.len() ==> knows(known, known[at]),
        (forall|k: int| 0 <= k < known.len() ==> lower(#[trigger] known[k]) != lower(key))
            ==> !knows(known, key),
{
}

} // verus!
