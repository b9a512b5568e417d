//! The words of a query: what they match, and which characters of a cell
//! they light up. A word is matched literally, in whatever case.

use vstd::prelude::*;
use vstd::string::*;

use crate::text;
use crate::text::{lower, occurs_at, texts};

verus! {

/// The word stands over this character of the text.
pub open spec fn covers(word: Seq<char>, held: Seq<char>, at: int) -> bool {
    exists|start: int|
        start <= at < start + word.len() && 0 <= start && #[trigger] occurs_at(
            lower(held),
            lower(word),
            start,
        )
}

/// One of the words stands over this character of the text.
pub open spec fn is_lit(words: Seq<Seq<char>>, held: Seq<char>, at: int) -> bool {
    exists|k: int| 0 <= k < words.len() && covers(#[trigger] words[k], held, at)
}

/// The first so many characters of a text that the words stand over.
pub open spec fn lit_among(words: Seq<Seq<char>>, held: Seq<char>, count: nat) -> Seq<usize>
    decreases count,
{
    if count == 0 {
        seq![]
    } else if is_lit(words, held, count - 1) {
        lit_among(words, held, (count - 1) as nat).push((count - 1) as usize)
    } else {
        lit_among(words, held, (count - 1) as nat)
    }
}

/// The words to light up.
#[derive(Debug)]
pub struct Query {
    pub words: Vec<String>,
}

/// Whether a word, in lower case, stands over a character of a text that is
/// in lower case too.
fn stands_over(held: &Vec<char>, word: &Vec<char>, at: usize) -> (answer: bool)
    requires
        at < held@.len(),
    ensures
        answer == exists|start: int|
            start <= at < start + word@.len() && 0 <= start && #[trigger] occurs_at(
                held@,
                word@,
                start,
            ),
{
    let len = held.len();
    let mut start: usize = 0;
    while start <= at
        invariant
            at < len,
            len == held@.len(),
            start <= at + 1,
            forall|k: int|
                0 <= k < start && k <= at < k + word@.len() ==> !#[trigger] occurs_at(
                    held@,
                    word@,
                    k,
                ),
        decreases at + 1 - start,
    {
        if at - start < word.len() && text::stands_at(held, word, start) {
            assert(occurs_at(held@, word@, start as int));
            return true;
        }
        start += 1;
    }
    false
}

impl Query {
    pub fn new(words: &Vec<String>) -> (query: Self)
        ensures
            texts(query.words@) == texts(words@),
    {
        Query { words: text::copy_texts(words) }
    }

    /// The characters of a cell that the words stand over, in order.
    pub fn indices(&self, held: &str) -> (lit: Vec<usize>)
        ensures
            lit@ == lit_among(texts(self.words@), held@, held@.len()),
    {
        let small = text::chars_of(text::lowered(held).as_str());
        let mut lit: Vec<usize> = Vec::new();
        let mut at: usize = 0;
        while at < small.len()
            invariant
                at <= small@.len(),
                small@ == lower(held@),
                lit@ == lit_among(texts(self.words@), held@, at as nat),
            decreases small@.len() - at,
        {
            if self.lights(&small, at, held) {
                lit.push(at);
            }
            at += 1;
        }
        lit
    }

    fn lights(&self, small: &Vec<char>, at: usize, held: &str) -> (answer: bool)
        requires
            small@ == lower(held@),
            at < small@.len(),
        ensures
            answer == is_lit(texts(self.words@), held@, at as int),
    {
        let mut k: usize = 0;
        while k < self.words.len()
            invariant
                k <= self.words@.len(),
                small@ == lower(held@),
                at < small@.len(),
                forall|j: int|
                    0 <= j < k ==> !covers(#[trigger] texts(self.words@)[j], held@, at as int),
            decreases self.words@.len() - k,
        {
            let word = text::chars_of(text::lowered(self.words[k].as_str()).as_str());
            let ghost wanted = texts(self.words@)[k as int];
            assert(word@ == lower(wanted));
            if stands_over(small, &word, at) {
                let ghost start = choose|start: int|
                    start <= at < start + word@.len() && 0 <= start && #[trigger] occurs_at(
                        small@,
                        word@,
                        start,
                    );
                assert(occurs_at(lower(held@), lower(wanted), start));
                assert(covers(wanted, held@, at as int));
                return true;
            }
            k += 1;
        }
        false
    }
}

/// The search lights up the characters that are part of a word, wherever in
/// the text and in whatever case it stands, and no others, in their order.
pub proof fn law_what_is_found_is_lit(words: Seq<Seq<char>>, held: Seq<char>, count: nat, at: usize)
    requires
        count <= usize::MAX,
    ensures
        lit_among(words, held, count).contains(at) <==> at < count && exists|k: int, start: int|
            0 <= k < words.len() && 0 <= start <= at && at < start + words[k].len() && start
                + words[k].len() <= held.len() && lower(held).subrange(
                start,
                start + (#[trigger] words[k]).len(),
            ) == #[trigger] lit_word(words[k], start),
        forall|i: int, j: int|
            0 <= i < j < lit_among(words, held, count).len() ==> (#[trigger] lit_among(
                words,
                held,
                count,
            )[i]) < (#[trigger] lit_among(words, held, count)[j]),
        forall|i: int|
            0 <= i < lit_among(words, held, count).len() ==> (#[trigger] lit_among(
                words,
                held,
                count,
            )[i]) < count,
    decreases count,
{
    if count > 0 {
        let before = lit_among(words, held, (count - 1) as nat);
        let all = lit_among(words, held, count);
        law_what_is_found_is_lit(words, held, (count - 1) as nat, at);
        if all.contains(at) {
            let i = choose|i: int| 0 <= i < all.len() && all[i] == at;
            if i < before.len() {
                assert(before[i] == at);
            } else {
                assert(is_lit(words, held, at as int));
            }
        }
        if is_lit(words, held, count - 1) {
            assert(all[all.len() - 1] == (count - 1) as usize);
            if before.contains(at) {
                let i = choose|i: int| 0 <= i < before.len() && before[i] == at;
                assert(all[i] == at);
            }
        }
        if is_lit(words, held, at as int) {
            let k = choose|k: int|
                0 <= k < words.len() && covers(#[trigger] words[k], held, at as int);
            let start = choose|start: int|
                start <= at < start + words[k].len() && 0 <= start && #[trigger] occurs_at(
                    lower(held),
                    lower(words[k]),
                    start,
                );
            assert(lit_word(words[k], start) == lower(words[k]));
            assert(lower(words[k]).len() == words[k].len());
        }
        if exists|k: int, start: int|
            0 <= k < words.len() && 0 <= start <= at && at < start + words[k].len() && start
                + words[k].len() <= held.len() && lower(held).subrange(
                start,
                start + (#[trigger] words[k]).len(),
            ) == #[trigger] lit_word(words[k], start) {
            let (k, start) = choose|k: int, start: int|
                0 <= k < words.len() && 0 <= start <= at && at < start + words[k].len() && start
                    + words[k].len() <= held.len() && lower(held).subrange(
                    start,
                    start + (#[trigger] words[k]).len(),
                ) == #[trigger] lit_word(words[k], start);
            assert(lower(words[k]).len() == words[k].len());
            assert(lower(held).len() == held.len());
            assert(occurs_at(lower(held), lower(words[k]), start));
            assert(covers(words[k], held, at as int));
            assert(is_lit(words, held, at as int));
        }
    }
}

/// What a word is found as, from wherever it starts.
pub open spec fn lit_word(word: Seq<char>, start: int) -> Seq<char> {
    lower(word)
}

} // verus!
