//! Text as a sequence of characters: what it means to trim, split, search
//! and print it, and functions that do exactly that.

use vstd::prelude::*;
use vstd::string::*;

verus! {

/// `String::push`: the character goes on the end.
pub assume_specification[ String::push ](string: &mut String, ch: char)
    ensures
        final(string)@ == old(string)@.push(ch),
;

/// The characters of each text.
pub open spec fn texts(held: Seq<String>) -> Seq<Seq<char>> {
    held.map_values(|text: String| text@)
}

/// The characters of the text, where there is one.
pub open spec fn maybe(held: Option<String>) -> Option<Seq<char>> {
    match held {
        Some(text) => Some(text@),
        None => None,
    }
}

/// The characters of each pair of texts.
pub open spec fn pairs(held: Seq<(String, String)>) -> Seq<(Seq<char>, Seq<char>)> {
    held.map_values(|pair: (String, String)| (pair.0@, pair.1@))
}

/// Unicode's `White_Space` property.
pub open spec fn is_space(c: char) -> bool {
    let n = c as int;
    ||| 0x09 <= n <= 0x0d
    ||| n == 0x20 || n == 0x85 || n == 0xa0 || n == 0x1680
    ||| 0x2000 <= n <= 0x200a
    ||| n == 0x2028 || n == 0x2029 || n == 0x202f || n == 0x205f || n == 0x3000
}

/// `c`, in lower case when it is an ASCII capital.
pub open spec fn lower_char(c: char) -> char {
    if 0x41 <= c as int <= 0x5a {
        (c as int + 32) as char
    } else {
        c
    }
}

/// Every ASCII capital in lower case, and nothing else changed.
pub open spec fn lower(s: Seq<char>) -> Seq<char> {
    s.map_values(|c: char| lower_char(c))
}

pub open spec fn is_digit(c: char) -> bool {
    0x30 <= c as int <= 0x39
}

/// The digit that stands for `n`.
pub open spec fn digit(n: int) -> char {
    (0x30 + n) as char
}

/// `n` in decimal, with no leading zero.
pub open spec fn decimal(n: nat) -> Seq<char>
    decreases n,
{
    if n < 10 {
        seq![digit(n as int)]
    } else {
        decimal(n / 10).push(digit((n % 10) as int))
    }
}

/// `n` in decimal, with a minus sign when it is negative.
pub open spec fn signed_decimal(n: int) -> Seq<char> {
    if n < 0 {
        seq!['-'] + decimal((-n) as nat)
    } else {
        decimal(n as nat)
    }
}

pub open spec fn starts_with(s: Seq<char>, prefix: Seq<char>) -> bool {
    prefix.len() <= s.len() && s.take(prefix.len() as int) == prefix
}

pub open spec fn ends_with(s: Seq<char>, suffix: Seq<char>) -> bool {
    suffix.len() <= s.len() && s.skip(s.len() - suffix.len()) == suffix
}

/// `needle` stands in `s` at `at`.
pub open spec fn occurs_at(s: Seq<char>, needle: Seq<char>, at: int) -> bool {
    0 <= at && at + needle.len() <= s.len() && s.subrange(at, at + needle.len()) == needle
}

pub open spec fn has(s: Seq<char>, needle: Seq<char>) -> bool {
    exists|at: int| occurs_at(s, needle, at)
}

/// Where `c` first stands in `s`, or the length of `s`.
pub open spec fn first_index(s: Seq<char>, c: char) -> nat
    decreases s.len(),
{
    if s.len() == 0 || s[0] == c {
        0
    } else {
        1 + first_index(s.skip(1), c)
    }
}

pub open spec fn trim_start(s: Seq<char>) -> Seq<char>
    decreases s.len(),
{
    if s.len() > 0 && is_space(s[0]) {
        trim_start(s.skip(1))
    } else {
        s
    }
}

pub open spec fn trim_end(s: Seq<char>) -> Seq<char>
    decreases s.len(),
{
    if s.len() > 0 && is_space(s.last()) {
        trim_end(s.drop_last())
    } else {
        s
    }
}

/// `s` without the white space at either end.
pub open spec fn trim(s: Seq<char>) -> Seq<char> {
    trim_end(trim_start(s))
}

/// How many characters stand before the first white space.
pub open spec fn word_len(s: Seq<char>) -> nat
    decreases s.len(),
{
    if s.len() == 0 || is_space(s[0]) {
        0
    } else {
        1 + word_len(s.skip(1))
    }
}

/// The words of `s`: what stands between its runs of white space.
pub open spec fn words(s: Seq<char>) -> Seq<Seq<char>>
    decreases s.len(),
{
    let rest = trim_start(s);
    if rest.len() == 0 {
        seq![]
    } else {
        proof {
            lemma_trim_start(s);
            lemma_word_len(rest);
        }
        seq![rest.take(word_len(rest) as int)] + words(rest.skip(word_len(rest) as int))
    }
}

/// A line without the carriage return before its line feed.
pub open spec fn without_return(line: Seq<char>) -> Seq<char> {
    if line.len() > 0 && line.last() == '\r' {
        line.drop_last()
    } else {
        line
    }
}

/// The lines of `s`: each ends with a line feed, which a carriage return may
/// stand before, and the last one need not.
pub open spec fn lines(s: Seq<char>) -> Seq<Seq<char>>
    decreases s.len(),
{
    if s.len() == 0 {
        seq![]
    } else {
        let at = first_index(s, '\n');
        if at >= s.len() {
            seq![s]
        } else {
            seq![without_return(s.take(at as int))] + lines(s.skip(at as int + 1))
        }
    }
}

/// Spaces on the right until `s` is `width` characters.
pub open spec fn pad(s: Seq<char>, width: nat) -> Seq<char> {
    if s.len() < width {
        s + Seq::new((width - s.len()) as nat, |at: int| ' ')
    } else {
        s
    }
}

/// Every part, with `gap` between each two.
pub open spec fn join(parts: Seq<Seq<char>>, gap: Seq<char>) -> Seq<char>
    decreases parts.len(),
{
    if parts.len() == 0 {
        seq![]
    } else if parts.len() == 1 {
        parts[0]
    } else {
        join(parts.drop_last(), gap) + gap + parts.last()
    }
}

/// `a` sorts before `b`, or is `b`: by the first character they differ in,
/// and a text that another one starts with comes before it.
pub open spec fn at_most(a: Seq<char>, b: Seq<char>) -> bool
    decreases a.len(),
{
    if a.len() == 0 {
        true
    } else if b.len() == 0 {
        false
    } else if a[0] != b[0] {
        (a[0] as int) < (b[0] as int)
    } else {
        at_most(a.skip(1), b.skip(1))
    }
}

/// `a` sorts before `b`, or is `b`: by their first texts, then by their
/// second.
pub open spec fn pair_at_most(a: (Seq<char>, Seq<char>), b: (Seq<char>, Seq<char>)) -> bool {
    if a.0 == b.0 {
        at_most(a.1, b.1)
    } else {
        at_most(a.0, b.0)
    }
}

/// The pairs with one more, put before the first of those that sort after
/// it.
pub open spec fn with_pair(
    held: Seq<(Seq<char>, Seq<char>)>,
    pair: (Seq<char>, Seq<char>),
) -> Seq<(Seq<char>, Seq<char>)>
    decreases held.len(),
{
    if held.len() == 0 || pair_at_most(held.last(), pair) {
        held.push(pair)
    } else {
        with_pair(held.drop_last(), pair).push(held.last())
    }
}

/// The pairs, sorted.
pub open spec fn sorted(held: Seq<(Seq<char>, Seq<char>)>) -> Seq<(Seq<char>, Seq<char>)>
    decreases held.len(),
{
    if held.len() == 0 {
        seq![]
    } else {
        with_pair(sorted(held.drop_last()), held.last())
    }
}

/// Of two texts one sorts before the other, and both ways only where they
/// are one text.
pub proof fn law_texts_have_one_order(a: Seq<char>, b: Seq<char>)
    ensures
        at_most(a, b) || at_most(b, a),
        at_most(a, b) && at_most(b, a) ==> a == b,
        at_most(a, a),
    decreases a.len(),
{
    if a.len() > 0 {
        law_texts_have_one_order(a.skip(1), a.skip(1));
        if b.len() > 0 && a[0] == b[0] {
            law_texts_have_one_order(a.skip(1), b.skip(1));
            if a.skip(1) == b.skip(1) {
                assert(a =~= seq![a[0]] + a.skip(1));
                assert(b =~= seq![b[0]] + b.skip(1));
            }
        }
    } else {
        assert(b.len() == 0 ==> a =~= b);
    }
}

/// A text that sorts before one that sorts before a third sorts before that
/// third.
pub proof fn law_order_carries_over(a: Seq<char>, b: Seq<char>, c: Seq<char>)
    requires
        at_most(a, b),
        at_most(b, c),
    ensures
        at_most(a, c),
    decreases a.len(),
{
    if a.len() > 0 && a[0] == b[0] && b[0] == c[0] {
        law_order_carries_over(a.skip(1), b.skip(1), c.skip(1));
    }
}

proof fn lemma_pair_order(
    a: (Seq<char>, Seq<char>),
    b: (Seq<char>, Seq<char>),
    c: (Seq<char>, Seq<char>),
)
    ensures
        pair_at_most(a, b) || pair_at_most(b, a),
        pair_at_most(a, b) && pair_at_most(b, c) ==> pair_at_most(a, c),
{
    law_texts_have_one_order(a.0, b.0);
    law_texts_have_one_order(a.1, b.1);
    if pair_at_most(a, b) && pair_at_most(b, c) {
        if a.0 == b.0 && b.0 == c.0 {
            law_order_carries_over(a.1, b.1, c.1);
        } else if a.0 != b.0 && b.0 != c.0 {
            law_order_carries_over(a.0, b.0, c.0);
            if a.0 == c.0 {
                law_texts_have_one_order(a.0, b.0);
            }
        }
    }
}

proof fn lemma_with_pair(held: Seq<(Seq<char>, Seq<char>)>, pair: (Seq<char>, Seq<char>))
    ensures
        with_pair(held, pair).to_multiset() == held.to_multiset().insert(pair),
        is_sorted(held) ==> is_sorted(with_pair(held, pair)),
    decreases held.len(),
{
    broadcast use vstd::seq_lib::group_to_multiset_ensures;

    if held.len() == 0 || pair_at_most(held.last(), pair) {
        if is_sorted(held) {
            assert forall|i: int, j: int| 0 <= i <= j < held.push(pair).len() implies pair_at_most(
                #[trigger] held.push(pair)[i],
                #[trigger] held.push(pair)[j],
            ) by {
                lemma_pair_order(pair, pair, pair);
                if j == held.len() && i < j {
                    lemma_pair_order(held[i], held.last(), pair);
                }
            }
        }
    } else {
        let before = held.drop_last();
        let last = held.last();
        lemma_with_pair(before, pair);
        assert(held =~= before.push(last));
        assert(with_pair(held, pair).to_multiset() =~= held.to_multiset().insert(pair));
        if is_sorted(held) {
            let with = with_pair(before, pair);
            assert(is_sorted(before)) by {
                assert forall|i: int, j: int| 0 <= i <= j < before.len() implies pair_at_most(
                    #[trigger] before[i],
                    #[trigger] before[j],
                ) by {
                    assert(before[i] == held[i] && before[j] == held[j]);
                }
            }
            assert forall|i: int, j: int| 0 <= i <= j < with.push(last).len() implies pair_at_most(
                #[trigger] with.push(last)[i],
                #[trigger] with.push(last)[j],
            ) by {
                lemma_pair_order(last, last, last);
                lemma_pair_order(last, pair, pair);
                if j == with.len() && i < j {
                    assert(with.to_multiset().count(with[i]) > 0) by {
                        assert(with.contains(with[i]));
                    }
                    if with[i] != pair {
                        assert(before.to_multiset().count(with[i]) > 0);
                        assert(before.contains(with[i]));
                        let k = choose|k: int| 0 <= k < before.len() && before[k] == with[i];
                        assert(held[k] == with[i]);
                        assert(held[held.len() - 1] == last);
                    }
                }
            }
        }
    }
}

/// Every pair sorts before those that follow it.
pub open spec fn is_sorted(held: Seq<(Seq<char>, Seq<char>)>) -> bool {
    forall|i: int, j: int|
        0 <= i <= j < held.len() ==> pair_at_most(#[trigger] held[i], #[trigger] held[j])
}

/// Sorting keeps every pair as often as it was there, and puts them in
/// order.
pub proof fn law_sorting_keeps_every_pair(held: Seq<(Seq<char>, Seq<char>)>)
    ensures
        is_sorted(sorted(held)),
        sorted(held).to_multiset() == held.to_multiset(),
    decreases held.len(),
{
    broadcast use vstd::seq_lib::group_to_multiset_ensures;

    if held.len() == 0 {
        assert(sorted(held) =~= held);
    } else {
        law_sorting_keeps_every_pair(held.drop_last());
        lemma_with_pair(sorted(held.drop_last()), held.last());
        assert(held =~= held.drop_last().push(held.last()));
    }
}

pub proof fn lemma_trim_start(s: Seq<char>)
    ensures
        trim_start(s).len() <= s.len(),
        trim_start(s).len() > 0 ==> !is_space(trim_start(s)[0]),
    decreases s.len(),
{
    if s.len() > 0 && is_space(s[0]) {
        lemma_trim_start(s.skip(1));
    }
}

pub proof fn lemma_word_len(s: Seq<char>)
    ensures
        word_len(s) <= s.len(),
        s.len() > 0 && !is_space(s[0]) ==> word_len(s) > 0,
    decreases s.len(),
{
    if s.len() > 0 && !is_space(s[0]) {
        lemma_word_len(s.skip(1));
    }
}

/// The characters of `text`, in order.
pub fn chars_of(text: &str) -> (chars: Vec<char>)
    ensures
        chars@ == text@,
{
    let mut chars: Vec<char> = Vec::new();
    for c in it: text.chars()
        invariant
            it.seq() == text@,
            chars@ == text@.take(it.index() as int),
    {
        chars.push(c);
        assert(text@.take(it.index() as int + 1) =~= text@.take(it.index() as int).push(c));
    }
    assert(text@.take(text@.len() as int) =~= text@);
    chars
}

/// The characters from `from` up to `to`, as a text.
pub fn text_of(chars: &Vec<char>, from: usize, to: usize) -> (text: String)
    requires
        from <= to <= chars@.len(),
    ensures
        text@ == chars@.subrange(from as int, to as int),
{
    let mut text = String::new();
    let mut at: usize = from;
    while at < to
        invariant
            from <= at <= to <= chars@.len(),
            text@ == chars@.subrange(from as int, at as int),
        decreases to - at,
    {
        text.push(chars[at]);
        assert(chars@.subrange(from as int, at as int + 1) =~= chars@.subrange(
            from as int,
            at as int,
        ).push(chars@[at as int]));
        at += 1;
    }
    text
}

/// Whether the two texts are the same characters.
pub fn same(a: &str, b: &str) -> (answer: bool)
    ensures
        answer == (a@ == b@),
{
    a.to_owned() == b.to_owned()
}

/// Whether `text` starts with `prefix`.
pub fn begins(text: &str, prefix: &str) -> (answer: bool)
    ensures
        answer == starts_with(text@, prefix@),
{
    let chars = chars_of(text);
    let wanted = chars_of(prefix);
    stands_at(&chars, &wanted, 0)
}

/// Whether `wanted` stands in `chars` at `at`.
pub fn stands_at(chars: &Vec<char>, wanted: &Vec<char>, at: usize) -> (answer: bool)
    requires
        at <= chars@.len(),
    ensures
        answer == occurs_at(chars@, wanted@, at as int),
        at == 0 ==> answer == starts_with(chars@, wanted@),
{
    if chars.len() - at < wanted.len() {
        return false;
    }
    let ghost slice = chars@.subrange(at as int, at + wanted@.len());
    let mut i: usize = 0;
    while i < wanted.len()
        invariant
            i <= wanted@.len(),
            at + wanted@.len() <= chars@.len() <= usize::MAX,
            slice == chars@.subrange(at as int, at + wanted@.len()),
            slice.take(i as int) == wanted@.take(i as int),
            at == 0 ==> chars@.take(wanted@.len() as int) == slice,
        decreases wanted@.len() - i,
    {
        if chars[at + i] != wanted[i] {
            assert(slice[i as int] != wanted@[i as int]);
            return false;
        }
        assert(slice.take(i as int + 1) =~= slice.take(i as int).push(slice[i as int]));
        assert(wanted@.take(i as int + 1) =~= wanted@.take(i as int).push(wanted@[i as int]));
        i += 1;
    }
    assert(slice.take(wanted@.len() as int) =~= slice);
    assert(wanted@.take(wanted@.len() as int) =~= wanted@);
    true
}

/// What follows `prefix`, when `text` starts with it.
pub fn after(text: &str, prefix: &str) -> (rest: Option<String>)
    ensures
        rest is Some <==> starts_with(text@, prefix@),
        rest matches Some(rest) ==> rest@ == text@.skip(prefix@.len() as int),
{
    let chars = chars_of(text);
    let wanted = chars_of(prefix);
    if stands_at(&chars, &wanted, 0) {
        Some(text_of(&chars, wanted.len(), chars.len()))
    } else {
        None
    }
}

/// What stands before `suffix`, when `text` ends with it.
pub fn before(text: &str, suffix: &str) -> (rest: Option<String>)
    ensures
        rest is Some <==> ends_with(text@, suffix@),
        rest matches Some(rest) ==> rest@ == text@.take(text@.len() - suffix@.len()),
{
    let chars = chars_of(text);
    let wanted = chars_of(suffix);
    if wanted.len() <= chars.len() {
        let at = chars.len() - wanted.len();
        assert(text@.subrange(at as int, text@.len() as int) =~= text@.skip(at as int));
        if stands_at(&chars, &wanted, at) {
            return Some(text_of(&chars, 0, at));
        }
    }
    None
}

/// Whether `needle` stands anywhere in `text`.
pub fn holds(text: &str, needle: &str) -> (answer: bool)
    ensures
        answer == has(text@, needle@),
{
    let chars = chars_of(text);
    let wanted = chars_of(needle);
    let mut at: usize = 0;
    while at < chars.len()
        invariant
            at <= chars@.len(),
            chars@ == text@,
            wanted@ == needle@,
            forall|k: int| 0 <= k < at ==> !occurs_at(text@, needle@, k),
        decreases chars@.len() - at,
    {
        if stands_at(&chars, &wanted, at) {
            return true;
        }
        at += 1;
    }
    stands_at(&chars, &wanted, at)
}

pub fn is_blank(c: char) -> (answer: bool)
    ensures
        answer == is_space(c),
{
    let n = c as u32;
    (0x09 <= n && n <= 0x0d) || n == 0x20 || n == 0x85 || n == 0xa0 || n == 0x1680 || (0x2000 <= n
        && n <= 0x200a) || n == 0x2028 || n == 0x2029 || n == 0x202f || n == 0x205f || n == 0x3000
}

/// `text` without the white space at either end.
pub fn trimmed(text: &str) -> (trimmed: String)
    ensures
        trimmed@ == trim(text@),
{
    let chars = chars_of(text);
    let mut from: usize = 0;
    assert(text@.skip(0) =~= text@);
    while from < chars.len() && is_blank(chars[from])
        invariant
            from <= chars@.len(),
            chars@ == text@,
            trim_start(text@) == trim_start(text@.skip(from as int)),
        decreases chars@.len() - from,
    {
        assert(text@.skip(from as int).skip(1) =~= text@.skip(from as int + 1));
        from += 1;
    }
    let ghost rest = text@.skip(from as int);
    let mut to: usize = chars.len();
    assert(text@.subrange(from as int, to as int) =~= rest);
    while to > from && is_blank(chars[to - 1])
        invariant
            from <= to <= chars@.len(),
            chars@ == text@,
            trim_end(rest) == trim_end(text@.subrange(from as int, to as int)),
        decreases to,
    {
        assert(text@.subrange(from as int, to as int).drop_last() =~= text@.subrange(
            from as int,
            to as int - 1,
        ));
        to -= 1;
    }
    text_of(&chars, from, to)
}

/// Where `c` first stands in `chars` from `from` on, or their count.
pub fn find_from(chars: &Vec<char>, from: usize, c: char) -> (at: usize)
    requires
        from <= chars@.len(),
    ensures
        from <= at <= chars@.len(),
        at - from == first_index(chars@.skip(from as int), c),
        at < chars@.len() ==> chars@[at as int] == c,
{
    let ghost whole = chars@.skip(from as int);
    let mut at: usize = from;
    while at < chars.len() && chars[at] != c
        invariant
            from <= at <= chars@.len(),
            whole == chars@.skip(from as int),
            first_index(whole, c) == (at - from) + first_index(chars@.skip(at as int), c),
        decreases chars@.len() - at,
    {
        assert(chars@.skip(at as int).skip(1) =~= chars@.skip(at as int + 1));
        at += 1;
    }
    at
}

/// What stands on either side of the first `c`.
pub fn split_at_first(text: &str, c: char) -> (halves: Option<(String, String)>)
    ensures
        halves is Some <==> first_index(text@, c) < text@.len(),
        halves matches Some(halves) ==> halves.0@ == text@.take(first_index(text@, c) as int)
            && halves.1@ == text@.skip(first_index(text@, c) as int + 1),
{
    let chars = chars_of(text);
    assert(text@.skip(0) =~= text@);
    let at = find_from(&chars, 0, c);
    if at < chars.len() {
        Some((text_of(&chars, 0, at), text_of(&chars, at + 1, chars.len())))
    } else {
        None
    }
}

/// The lines of `text`, without their ends.
pub fn lines_of(text: &str) -> (found: Vec<String>)
    ensures
        texts(found@) == lines(text@),
{
    let chars = chars_of(text);
    let mut found: Vec<String> = Vec::new();
    let mut from: usize = 0;
    assert(text@.skip(0) =~= text@);
    assert(texts(found@) + lines(text@) =~= lines(text@));
    while from < chars.len()
        invariant
            from <= chars@.len(),
            chars@ == text@,
            texts(found@) + lines(text@.skip(from as int)) == lines(text@),
        decreases chars@.len() - from,
    {
        let at = find_from(&chars, from, '\n');
        let ghost rest = text@.skip(from as int);
        let ghost before = found@;
        if at == chars.len() {
            found.push(text_of(&chars, from, at));
            assert(text@.subrange(from as int, at as int) =~= rest);
            assert(texts(found@) =~= texts(before).push(rest));
            assert(texts(found@) =~= texts(before) + seq![rest]);
            return found;
        }
        assert(rest.take(at - from) =~= text@.subrange(from as int, at as int));
        assert(rest.skip(at - from + 1) =~= text@.skip(at as int + 1));
        let to = if at > from && chars[at - 1] == '\r' {
            assert(rest.take(at - from).drop_last() =~= text@.subrange(from as int, at as int - 1));
            at - 1
        } else {
            at
        };
        let ghost line = without_return(rest.take(at - from));
        found.push(text_of(&chars, from, to));
        assert(texts(found@) =~= texts(before) + seq![line]);
        assert(texts(before) + (seq![line] + lines(text@.skip(at as int + 1))) =~= texts(found@)
            + lines(text@.skip(at as int + 1)));
        from = at + 1;
    }
    assert(texts(found@) + lines(text@.skip(from as int)) =~= texts(found@));
    found
}

/// The words of `text`: what stands between its runs of white space.
pub fn words_of(text: &str) -> (found: Vec<String>)
    ensures
        texts(found@) == words(text@),
{
    let chars = chars_of(text);
    let mut found: Vec<String> = Vec::new();
    let mut from: usize = 0;
    assert(text@.skip(0) =~= text@);
    assert(texts(found@) + words(text@) =~= words(text@));
    while from < chars.len()
        invariant
            from <= chars@.len(),
            chars@ == text@,
            texts(found@) + words(text@.skip(from as int)) == words(text@),
        decreases chars@.len() - from,
    {
        let ghost rest = text@.skip(from as int);
        let ghost before = found@;
        if is_blank(chars[from]) {
            assert(rest.skip(1) =~= text@.skip(from as int + 1));
            assert(words(rest) == words(rest.skip(1)));
            from += 1;
        } else {
            let mut to: usize = from;
            while to < chars.len() && !is_blank(chars[to])
                invariant
                    from <= to <= chars@.len(),
                    chars@ == text@,
                    rest == text@.skip(from as int),
                    word_len(rest) == (to - from) + word_len(text@.skip(to as int)),
                decreases chars@.len() - to,
            {
                assert(text@.skip(to as int).skip(1) =~= text@.skip(to as int + 1));
                to += 1;
            }
            let ghost word = rest.take(to - from);
            assert(word =~= text@.subrange(from as int, to as int));
            assert(rest.skip(to - from) =~= text@.skip(to as int));
            found.push(text_of(&chars, from, to));
            assert(texts(found@) =~= texts(before) + seq![word]);
            assert(words(rest) == seq![word] + words(text@.skip(to as int)));
            assert(texts(before) + (seq![word] + words(text@.skip(to as int))) =~= texts(found@)
                + words(text@.skip(to as int)));
            proof {
                lemma_word_len(rest);
            }
            from = to;
        }
    }
    assert(texts(found@) + words(text@.skip(from as int)) =~= texts(found@));
    found
}

pub fn lowered_char(c: char) -> (lowered: char)
    ensures
        lowered == lower_char(c),
{
    let n = c as u32;
    if 0x41 <= n && n <= 0x5a {
        (n as u8 + 32) as char
    } else {
        c
    }
}

/// Every ASCII capital of `text` in lower case.
pub fn lowered(text: &str) -> (lowered: String)
    ensures
        lowered@ == lower(text@),
{
    let chars = chars_of(text);
    let mut lowered = String::new();
    let mut at: usize = 0;
    while at < chars.len()
        invariant
            at <= chars@.len(),
            chars@ == text@,
            lowered@ == lower(text@.take(at as int)),
        decreases chars@.len() - at,
    {
        lowered.push(lowered_char(chars[at]));
        assert(lower(text@.take(at as int + 1)) =~= lower(text@.take(at as int)).push(
            lower_char(text@[at as int]),
        ));
        at += 1;
    }
    assert(text@.take(at as int) =~= text@);
    lowered
}

/// Whether the two texts are the same but for the case of ASCII letters.
pub fn same_ignoring_case(a: &str, b: &str) -> (answer: bool)
    ensures
        answer == (lower(a@) == lower(b@)),
{
    lowered(a) == lowered(b)
}

/// `n` in decimal.
pub fn print(n: u128) -> (text: String)
    ensures
        text@ == decimal(n as nat),
{
    let mut digits: Vec<char> = Vec::new();
    let mut left: u128 = n;
    while left >= 10
        invariant
            decimal(n as nat) == decimal(left as nat) + digits@.reverse(),
        decreases left,
    {
        let ghost before = digits@;
        let c = (0x30 + (left % 10) as u8) as char;
        digits.push(c);
        assert(digits@.reverse() =~= seq![c] + before.reverse());
        assert(decimal(left as nat) =~= decimal(left as nat / 10).push(c));
        assert(decimal(left as nat) + before.reverse() =~= decimal(left as nat / 10)
            + digits@.reverse());
        left = left / 10;
    }
    let mut text = String::new();
    text.push((0x30 + left as u8) as char);
    assert(text@ =~= decimal(left as nat));
    let mut at: usize = digits.len();
    assert(digits@.skip(at as int).reverse() =~= seq![]);
    while at > 0
        invariant
            at <= digits@.len(),
            text@ == decimal(left as nat) + digits@.skip(at as int).reverse(),
        decreases at,
    {
        text.push(digits[at - 1]);
        assert(digits@.skip(at as int - 1).reverse() =~= digits@.skip(at as int).reverse().push(
            digits@[at as int - 1],
        ));
        at -= 1;
    }
    assert(digits@.skip(0) =~= digits@);
    text
}

/// `n` in decimal, with its sign when it is negative.
pub fn print_signed(n: i64) -> (text: String)
    ensures
        text@ == signed_decimal(n as int),
{
    if n < 0 {
        let mut text = String::new();
        text.push('-');
        let size = (-(n as i128)) as u128;
        text.append(print(size).as_str());
        assert(text@ =~= signed_decimal(n as int));
        text
    } else {
        print(n as u128)
    }
}

/// `text` with spaces on the right until it is `width` characters.
pub fn padded(text: &str, width: usize) -> (padded: String)
    ensures
        padded@ == pad(text@, width as nat),
{
    let chars = chars_of(text);
    let mut padded = text.to_owned();
    let mut at: usize = chars.len();
    assert(padded@ =~= text@ + Seq::new(0nat, |k: int| ' '));
    while at < width
        invariant
            chars@ == text@,
            chars@.len() <= at,
            at <= width || at == chars@.len(),
            padded@ == text@ + Seq::new((at - text@.len()) as nat, |k: int| ' '),
        decreases width - at,
    {
        padded.push(' ');
        assert(padded@ =~= text@ + Seq::new((at + 1 - text@.len()) as nat, |k: int| ' '));
        at += 1;
    }
    assert(padded@ =~= pad(text@, width as nat));
    padded
}

/// Every part, with `gap` between each two.
pub fn joined(parts: &Vec<String>, gap: &str) -> (whole: String)
    ensures
        whole@ == join(texts(parts@), gap@),
{
    let mut whole = String::new();
    let mut at: usize = 0;
    while at < parts.len()
        invariant
            at <= parts@.len(),
            whole@ == join(texts(parts@).take(at as int), gap@),
        decreases parts@.len() - at,
    {
        let ghost so_far = texts(parts@).take(at as int);
        let ghost next = texts(parts@).take(at as int + 1);
        assert(next.drop_last() =~= so_far);
        assert(next.last() == parts@[at as int]@);
        if at > 0 {
            whole.append(gap);
        }
        whole.append(parts[at].as_str());
        assert(whole@ =~= join(next, gap@));
        at += 1;
    }
    assert(texts(parts@).take(at as int) =~= texts(parts@));
    whole
}

fn earlier(a: char, b: char) -> (answer: bool)
    ensures
        answer == ((a as int) < (b as int)),
{
    (a as u32) < (b as u32)
}

/// Whether `a` sorts before `b`, or is `b`.
pub fn in_order(a: &str, b: &str) -> (answer: bool)
    ensures
        answer == at_most(a@, b@),
{
    let left = chars_of(a);
    let right = chars_of(b);
    let mut at: usize = 0;
    assert(a@.skip(0) =~= a@);
    assert(b@.skip(0) =~= b@);
    while at < left.len()
        invariant
            at <= left@.len(),
            at <= right@.len(),
            left@ == a@,
            right@ == b@,
            at_most(a@, b@) == at_most(a@.skip(at as int), b@.skip(at as int)),
        decreases left@.len() - at,
    {
        if at == right.len() {
            return false;
        }
        let l = left[at];
        let r = right[at];
        assert(a@.skip(at as int)[0] == l && b@.skip(at as int)[0] == r);
        if l != r {
            return earlier(l, r);
        }
        assert(a@.skip(at as int).skip(1) =~= a@.skip(at as int + 1));
        assert(b@.skip(at as int).skip(1) =~= b@.skip(at as int + 1));
        at += 1;
    }
    true
}

/// Whether both are the same text, or neither is there.
pub fn same_maybe(a: &Option<String>, b: &Option<String>) -> (answer: bool)
    ensures
        answer == (maybe(*a) == maybe(*b)),
{
    match (a, b) {
        (Some(a), Some(b)) => same(a.as_str(), b.as_str()),
        (None, None) => true,
        _ => false,
    }
}

/// The text, copied, where there is one.
pub fn copy_maybe(held: &Option<String>) -> (copy: Option<String>)
    ensures
        maybe(copy) == maybe(*held),
{
    match held {
        Some(held) => Some(held.clone()),
        None => None,
    }
}

/// Every text, copied.
pub fn copy_texts(held: &Vec<String>) -> (copy: Vec<String>)
    ensures
        texts(copy@) == texts(held@),
{
    let mut copy: Vec<String> = Vec::new();
    let mut at: usize = 0;
    while at < held.len()
        invariant
            at <= held@.len(),
            texts(copy@) == texts(held@).take(at as int),
        decreases held@.len() - at,
    {
        let ghost before = copy@;
        copy.push(held[at].clone());
        assert(texts(copy@) =~= texts(before).push(held@[at as int]@));
        assert(texts(held@).take(at as int + 1) =~= texts(held@).take(at as int).push(
            held@[at as int]@,
        ));
        at += 1;
    }
    assert(texts(held@).take(at as int) =~= texts(held@));
    copy
}

/// Every pair of texts, copied.
pub fn copy_pairs(held: &Vec<(String, String)>) -> (copy: Vec<(String, String)>)
    ensures
        pairs(copy@) == pairs(held@),
{
    let mut copy: Vec<(String, String)> = Vec::new();
    let mut at: usize = 0;
    while at < held.len()
        invariant
            at <= held@.len(),
            pairs(copy@) == pairs(held@).take(at as int),
        decreases held@.len() - at,
    {
        let ghost before = copy@;
        let ghost next = (held@[at as int].0@, held@[at as int].1@);
        copy.push((held[at].0.clone(), held[at].1.clone()));
        assert(pairs(copy@) =~= pairs(before).push(next));
        assert(pairs(held@).take(at as int + 1) =~= pairs(held@).take(at as int).push(next));
        at += 1;
    }
    assert(pairs(held@).take(at as int) =~= pairs(held@));
    copy
}

fn pair_in_order(a: &(String, String), b: &(String, String)) -> (answer: bool)
    ensures
        answer == pair_at_most((a.0@, a.1@), (b.0@, b.1@)),
{
    if same(a.0.as_str(), b.0.as_str()) {
        in_order(a.1.as_str(), b.1.as_str())
    } else {
        in_order(a.0.as_str(), b.0.as_str())
    }
}

/// Puts one more pair where it sorts.
fn put_pair(held: &mut Vec<(String, String)>, pair: (String, String))
    ensures
        pairs(final(held)@) == with_pair(pairs(old(held)@), (pair.0@, pair.1@)),
{
    let ghost all = pairs(held@);
    let ghost one = (pair.0@, pair.1@);
    let mut at: usize = held.len();
    assert(all.take(at as int) =~= all);
    assert(with_pair(all, one) =~= with_pair(all, one) + all.skip(at as int));
    while at > 0 && !pair_in_order(&held[at - 1], &pair)
        invariant
            at <= held@.len(),
            all == pairs(held@),
            one == (pair.0@, pair.1@),
            with_pair(all, one) == with_pair(all.take(at as int), one) + all.skip(at as int),
        decreases at,
    {
        let ghost before = all.take(at as int);
        assert(before.last() == (held@[at - 1].0@, held@[at - 1].1@));
        assert(before.drop_last() =~= all.take(at - 1));
        assert(with_pair(before, one) == with_pair(before.drop_last(), one).push(before.last()));
        assert(with_pair(before.drop_last(), one).push(before.last()) + all.skip(at as int)
            =~= with_pair(before.drop_last(), one) + all.skip(at - 1));
        at -= 1;
    }
    assert(at > 0 ==> all.take(at as int).last() == (held@[at - 1].0@, held@[at - 1].1@));
    held.insert(at, pair);
    assert(pairs(held@) =~= all.take(at as int).push(one) + all.skip(at as int));
}

/// The pairs, sorted.
pub fn in_sorted_order(held: Vec<(String, String)>) -> (ordered: Vec<(String, String)>)
    ensures
        pairs(ordered@) == sorted(pairs(held@)),
{
    let ghost all = pairs(held@);
    let ghost parts = held@;
    let mut ordered: Vec<(String, String)> = Vec::new();
    assert(pairs(ordered@) =~= sorted(all.take(0)));
    for pair in it: held
        invariant
            it.seq() == parts,
            all == pairs(parts),
            pairs(ordered@) == sorted(all.take(it.index() as int)),
    {
        let ghost at = it.index() as int;
        assert(all[at] == (pair.0@, pair.1@));
        assert(all.take(at + 1).drop_last() =~= all.take(at));
        put_pair(&mut ordered, pair);
    }
    assert(all.take(all.len() as int) =~= all);
    ordered
}

/// What a text of digits stands for.
pub open spec fn number_in(digits: Seq<char>) -> int
    decreases digits.len(),
{
    if digits.len() == 0 {
        0
    } else {
        number_in(digits.drop_last()) * 10 + (digits.last() as int - '0' as int)
    }
}

/// A number is written in digits alone, with no zero before the first of
/// them, and reads back as itself.
pub proof fn law_a_number_is_written_in_digits(n: nat)
    ensures
        decimal(n).len() > 0,
        forall|at: int| 0 <= at < decimal(n).len() ==> '0' <= #[trigger] decimal(n)[at] <= '9',
        decimal(n).len() > 1 ==> decimal(n)[0] != '0',
        number_in(decimal(n)) == n,
    decreases n,
{
    reveal_with_fuel(number_in, 2);
    let all = decimal(n);
    if n < 10 {
        assert(all.drop_last() =~= seq![]);
    } else {
        let front = decimal(n / 10);
        law_a_number_is_written_in_digits(n / 10);
        assert(all.drop_last() =~= front);
        assert forall|at: int| 0 <= at < all.len() implies '0' <= #[trigger] all[at] <= '9' by {
            if at < front.len() {
                assert(front[at] == all[at]);
            }
        }
        assert(all[0] == front[0]);
        if front.len() == 1 {
            assert(front.drop_last() =~= seq![]);
            assert(number_in(front) == front[0] as int - '0' as int);
        }
    }
}

/// A minus sign stands before the digits of a number under zero, and before
/// no other.
pub proof fn law_a_sign_stands_before_the_digits(n: int)
    ensures
        n >= 0 ==> signed_decimal(n) == decimal(n as nat),
        n < 0 ==> signed_decimal(n)[0] == '-' && signed_decimal(n).skip(1) == decimal((-n) as nat),
{
    if n < 0 {
        assert(signed_decimal(n).skip(1) =~= decimal((-n) as nat));
    }
}

/// Blanks, tabs and the ends of lines are space, and nothing else that ASCII
/// prints is.
pub proof fn law_what_prints_is_no_space(c: char)
    ensures
        c == ' ' || c == '\t' || c == '\n' || c == '\r' ==> is_space(c),
        '!' <= c <= '~' ==> !is_space(c),
{
}

/// Lower case is taken character by character: a capital of the alphabet
/// becomes the small letter of its place, and everything else stays.
pub proof fn law_only_capitals_are_lowered(a: Seq<char>, b: Seq<char>, c: char)
    ensures
        lower(a + b) == lower(a) + lower(b),
        lower(a).len() == a.len(),
        lower(lower(a)) == lower(a),
        lower(seq![c]).len() == 1,
        'A' <= c <= 'Z' ==> lower(seq![c])[0] as int - 'a' as int == c as int - 'A' as int,
        !('A' <= c <= 'Z') ==> lower(seq![c])[0] == c,
{
    assert(lower(a + b) =~= lower(a) + lower(b));
    assert(lower(lower(a)) =~= lower(a));
}

/// A text starts with what stands at its front and ends with what stands at
/// its back, and holds what stands between.
pub proof fn law_a_part_is_found_where_it_stands(
    front: Seq<char>,
    part: Seq<char>,
    back: Seq<char>,
    whole: Seq<char>,
)
    ensures
        starts_with(part + back, part),
        ends_with(front + part, part),
        has(front + part + back, part),
        starts_with(whole, part) ==> whole == part + whole.skip(part.len() as int),
        ends_with(whole, part) ==> whole == whole.take(whole.len() - part.len()) + part,
        has(whole, part) ==> exists|at: int|
            0 <= at <= whole.len() - part.len() && #[trigger] whole.subrange(at, at + part.len())
                == part,
{
    assert((part + back).take(part.len() as int) =~= part);
    assert((front + part).skip((front + part).len() - part.len()) =~= part);
    let all = front + part + back;
    assert(all.subrange(front.len() as int, (front.len() + part.len()) as int) =~= part);
    assert(occurs_at(all, part, front.len() as int));
    if starts_with(whole, part) {
        assert(whole =~= whole.take(part.len() as int) + whole.skip(part.len() as int));
    }
    if ends_with(whole, part) {
        let cut = whole.len() - part.len();
        assert(whole =~= whole.take(cut) + whole.skip(cut));
    }
    if has(whole, part) {
        let at = choose|at: int| occurs_at(whole, part, at);
        assert(whole.subrange(at, at + part.len()) == part);
    }
}

/// The first place of a character is where it stands with none of it before,
/// and past the end where there is none.
pub proof fn law_the_first_place_is_found(front: Seq<char>, c: char, back: Seq<char>)
    requires
        !front.contains(c),
    ensures
        first_index(front + seq![c] + back, c) == front.len(),
        first_index(front, c) == front.len(),
    decreases front.len(),
{
    let whole = front + seq![c] + back;
    if front.len() > 0 {
        assert(front.contains(front[0]));
        assert(whole[0] == front[0]);
        assert(whole.skip(1) =~= front.skip(1) + seq![c] + back);
        lemma_rest_lacks(front, c);
        law_the_first_place_is_found(front.skip(1), c, back);
    }
}

proof fn lemma_rest_lacks(held: Seq<char>, c: char)
    requires
        held.len() > 0,
        !held.contains(c),
    ensures
        !held.skip(1).contains(c),
{
    if held.skip(1).contains(c) {
        let at = choose|at: int| 0 <= at < held.skip(1).len() && held.skip(1)[at] == c;
        assert(held[at + 1] == c);
    }
}

/// A line ends at the first end of a line, without the return before it; the
/// rest is split the same way, and what stands after the last is a line of
/// its own.
pub proof fn law_a_line_ends_where_it_ends(line: Seq<char>, rest: Seq<char>)
    requires
        !line.contains('\n'),
    ensures
        lines(line + seq!['\n'] + rest).len() == 1 + lines(rest).len(),
        lines(line + seq!['\n'] + rest).skip(1) == lines(rest),
        line.len() == 0 || line.last() != '\r' ==> lines(line + seq!['\n'] + rest)[0] == line,
        lines(line.push('\r') + seq!['\n'] + rest).len() == 1 + lines(rest).len(),
        lines(line.push('\r') + seq!['\n'] + rest)[0] == line,
        line.len() > 0 ==> lines(line) == seq![line],
        lines(Seq::empty()).len() == 0,
{
    law_the_first_place_is_found(line, '\n', rest);
    let whole = line + seq!['\n'] + rest;
    assert(whole.take(line.len() as int) =~= line);
    assert(whole.skip(line.len() as int + 1) =~= rest);
    assert(lines(whole).skip(1) =~= lines(rest));
    let returned = line.push('\r');
    assert(!returned.contains('\n')) by {
        if returned.contains('\n') {
            let at = choose|at: int| 0 <= at < returned.len() && returned[at] == '\n';
            assert(line[at] == '\n');
        }
    }
    law_the_first_place_is_found(returned, '\n', rest);
    let other = returned + seq!['\n'] + rest;
    assert(other.take(returned.len() as int) =~= returned);
    assert(other.skip(returned.len() as int + 1) =~= rest);
    assert(returned.drop_last() =~= line);
}

proof fn lemma_words_of_trimmed(a: Seq<char>, b: Seq<char>)
    requires
        trim_start(a) == trim_start(b),
    ensures
        words(a) == words(b),
{
}

proof fn lemma_word_ends(word: Seq<char>, rest: Seq<char>)
    requires
        forall|at: int| 0 <= at < word.len() ==> !is_space(#[trigger] word[at]),
        rest.len() == 0 || is_space(rest[0]),
    ensures
        word_len(word + rest) == word.len(),
    decreases word.len(),
{
    let whole = word + rest;
    if word.len() > 0 {
        assert(whole[0] == word[0]);
        assert(whole.skip(1) =~= word.skip(1) + rest);
        assert forall|at: int| 0 <= at < word.skip(1).len() implies !is_space(
            #[trigger] word.skip(1)[at],
        ) by {
            assert(word.skip(1)[at] == word[at + 1]);
        }
        lemma_word_ends(word.skip(1), rest);
    } else if rest.len() > 0 {
        assert(whole[0] == rest[0]);
    }
}

/// A text without space is one word, and a space parts the words before it
/// from those behind it.
pub proof fn law_a_space_parts_the_words(word: Seq<char>, a: Seq<char>, c: char, b: Seq<char>)
    requires
        is_space(c),
        forall|at: int| 0 <= at < word.len() ==> !is_space(#[trigger] word[at]),
    ensures
        word.len() > 0 ==> words(word) == seq![word],
        words(Seq::empty()).len() == 0,
        words(a + seq![c] + b) == words(a) + words(b),
    decreases a.len(),
{
    assert(words(Seq::empty()) =~= seq![]);
    if word.len() > 0 {
        assert(trim_start(word) == word);
        lemma_word_ends(word, seq![]);
        assert(word + seq![] =~= word);
        assert(word.take(word.len() as int) =~= word);
        assert(word.skip(word.len() as int) =~= seq![]);
        assert(words(word) =~= seq![word]);
    }
    let whole = a + seq![c] + b;
    if a.len() == 0 {
        assert(whole.skip(1) =~= b);
        assert(trim_start(whole) == trim_start(b));
        lemma_words_of_trimmed(whole, b);
        assert(words(a) =~= seq![]);
        assert(words(a) + words(b) =~= words(b));
    } else if is_space(a[0]) {
        assert(whole[0] == a[0]);
        assert(whole.skip(1) =~= a.skip(1) + seq![c] + b);
        lemma_words_of_trimmed(whole, whole.skip(1));
        lemma_words_of_trimmed(a, a.skip(1));
        law_a_space_parts_the_words(word, a.skip(1), c, b);
    } else {
        let n = word_len(a);
        lemma_word_len(a);
        lemma_first_word(a);
        let first = a.take(n as int);
        let rest = a.skip(n as int);
        assert(whole =~= first + (rest + seq![c] + b));
        lemma_word_ends(first, rest + seq![c] + b);
        assert(whole[0] == a[0]);
        assert(whole.take(n as int) =~= first);
        assert(whole.skip(n as int) =~= rest + seq![c] + b);
        law_a_space_parts_the_words(word, rest, c, b);
        assert(words(whole) =~= seq![first] + words(rest + seq![c] + b));
        assert(words(a) =~= seq![first] + words(rest));
        assert(words(whole) =~= words(a) + words(b));
    }
}

proof fn lemma_first_word(s: Seq<char>)
    ensures
        word_len(s) <= s.len(),
        forall|at: int| 0 <= at < word_len(s) ==> !is_space(#[trigger] s.take(word_len(s) as int)[at]),
        word_len(s) < s.len() ==> is_space(s[word_len(s) as int]),
        s.len() > 0 && !is_space(s[0]) ==> word_len(s) > 0,
    decreases s.len(),
{
    if s.len() > 0 && !is_space(s[0]) {
        let rest = s.skip(1);
        lemma_first_word(rest);
        let n = word_len(rest) as int;
        assert(n < rest.len() ==> rest[n] == s[n + 1]);
        assert forall|at: int| 0 <= at < n + 1 implies !is_space(#[trigger] s.take(n + 1)[at]) by {
            if at > 0 {
                assert(rest.take(n)[at - 1] == s[at]);
            }
        }
    }
}

proof fn lemma_trimmed_start(s: Seq<char>)
    ensures
        trim_start(s).len() <= s.len(),
        s.skip(s.len() - trim_start(s).len()) == trim_start(s),
        forall|at: int| 0 <= at < s.len() - trim_start(s).len() ==> is_space(#[trigger] s[at]),
        trim_start(s).len() > 0 ==> !is_space(trim_start(s)[0]),
    decreases s.len(),
{
    if s.len() > 0 && is_space(s[0]) {
        let rest = s.skip(1);
        lemma_trimmed_start(rest);
        let cut = rest.len() - trim_start(rest).len();
        assert(s.skip(cut + 1) =~= rest.skip(cut));
        assert forall|at: int| 0 <= at < cut + 1 implies is_space(#[trigger] s[at]) by {
            if at > 0 {
                assert(rest[at - 1] == s[at]);
            }
        }
    } else {
        assert(s.skip(0) =~= s);
    }
}

proof fn lemma_trimmed_end(s: Seq<char>)
    ensures
        trim_end(s).len() <= s.len(),
        s.take(trim_end(s).len() as int) == trim_end(s),
        forall|at: int| trim_end(s).len() <= at < s.len() ==> is_space(#[trigger] s[at]),
        trim_end(s).len() > 0 ==> !is_space(trim_end(s).last()),
    decreases s.len(),
{
    if s.len() > 0 && is_space(s.last()) {
        let rest = s.drop_last();
        lemma_trimmed_end(rest);
        assert(s.take(trim_end(rest).len() as int) =~= rest.take(trim_end(rest).len() as int));
        assert forall|at: int| trim_end(rest).len() <= at < s.len() implies is_space(
            #[trigger] s[at],
        ) by {
            if at < rest.len() {
                assert(rest[at] == s[at]);
            }
        }
    } else {
        assert(s.take(s.len() as int) =~= s);
    }
}

/// Trimming takes the space off both ends and nothing else.
pub proof fn law_only_the_space_at_the_ends_is_trimmed(s: Seq<char>) -> (from: int)
    ensures
        0 <= from <= from + trim(s).len() <= s.len(),
        s.subrange(from, from + trim(s).len()) == trim(s),
        forall|at: int|
            0 <= at < s.len() && (at < from || at >= from + trim(s).len()) ==> is_space(
                #[trigger] s[at],
            ),
        trim(s).len() > 0 ==> !is_space(trim(s)[0]) && !is_space(trim(s).last()),
{
    let rest = trim_start(s);
    lemma_trimmed_start(s);
    lemma_trimmed_end(rest);
    let from = s.len() - rest.len();
    let kept = trim(s);
    assert(s.subrange(from, from + kept.len()) =~= rest.take(kept.len() as int));
    assert forall|at: int|
        0 <= at < s.len() && (at < from || at >= from + kept.len()) implies is_space(
        #[trigger] s[at],
    ) by {
        if at >= from {
            assert(rest[at - from] == s[at]);
        }
    }
    assert(kept.len() > 0 ==> kept[0] == rest[0]);
    from
}

/// Padding adds blanks behind a text until it is as wide as asked, and takes
/// nothing off a wider one.
pub proof fn law_padding_adds_only_blanks(s: Seq<char>, width: nat)
    ensures
        s.len() >= width ==> pad(s, width) == s,
        s.len() < width ==> pad(s, width).len() == width,
        pad(s, width).take(s.len() as int) == s,
        forall|at: int| s.len() <= at < pad(s, width).len() ==> #[trigger] pad(s, width)[at] == ' ',
{
    assert(pad(s, width).take(s.len() as int) =~= s);
}

/// Parts are joined with the gap between two of them and nowhere else.
pub proof fn law_a_gap_stands_between_two_parts(
    a: Seq<Seq<char>>,
    b: Seq<Seq<char>>,
    one: Seq<char>,
    gap: Seq<char>,
)
    requires
        a.len() > 0,
        b.len() > 0,
    ensures
        join(Seq::empty(), gap).len() == 0,
        join(seq![one], gap) == one,
        join(a + b, gap) == join(a, gap) + gap + join(b, gap),
    decreases b.len(),
{
    assert((a + b).last() == b.last());
    if b.len() == 1 {
        assert((a + b).drop_last() =~= a);
    } else {
        law_a_gap_stands_between_two_parts(a, b.drop_last(), one, gap);
        assert((a + b).drop_last() =~= a + b.drop_last());
        assert(join(a + b, gap) =~= join(a, gap) + gap + join(b, gap));
    }
}

/// The first difference decides the order of two texts, by the code of the
/// character, and the front of a text comes before the whole.
pub proof fn law_the_first_difference_decides(
    front: Seq<char>,
    a: char,
    b: char,
    x: Seq<char>,
    y: Seq<char>,
)
    requires
        (a as int) < (b as int),
    ensures
        at_most(front + seq![a] + x, front + seq![b] + y),
        !at_most(front + seq![b] + y, front + seq![a] + x),
        at_most(front, front + x),
    decreases front.len(),
{
    let less = front + seq![a] + x;
    let more = front + seq![b] + y;
    if front.len() > 0 {
        law_the_first_difference_decides(front.skip(1), a, b, x, y);
        assert(less.skip(1) =~= front.skip(1) + seq![a] + x);
        assert(more.skip(1) =~= front.skip(1) + seq![b] + y);
        assert((front + x).skip(1) =~= front.skip(1) + x);
    }
}

} // verus!
