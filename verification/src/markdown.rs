//! Text for display: break opportunities for long runs of text, and words.

use crate::text::chars_of;
use crate::text::is_whitespace;
use crate::text::spec_is_whitespace;
use crate::text::spec_texts;
use vstd::prelude::*;
use vstd::string::StringExecFns;

verus! {

/// The zero-width space, a break opportunity that shows nothing.
pub const ZERO_WIDTH_SPACE: char = '\u{200B}';

/// The soft hyphen, a break opportunity that shows a hyphen where the line
/// breaks.
pub const SOFT_HYPHEN: char = '\u{00AD}';

/// The text with break opportunities, where `run` characters that are not
/// white space stand directly before it: every character is kept, and a
/// zero-width space and a soft hyphen follow each character that completes
/// a run of `max_run` characters without white space.
pub open spec fn spec_soft_wrap_from(text: Seq<char>, max_run: nat, run: nat) -> Seq<char>
    decreases text.len(),
{
    if text.len() == 0 {
        text
    } else if spec_is_whitespace(text[0]) {
        seq![text[0]] + spec_soft_wrap_from(text.drop_first(), max_run, 0)
    } else if run + 1 >= max_run {
        seq![text[0], ZERO_WIDTH_SPACE, SOFT_HYPHEN] + spec_soft_wrap_from(
            text.drop_first(),
            max_run,
            0,
        )
    } else {
        seq![text[0]] + spec_soft_wrap_from(text.drop_first(), max_run, run + 1)
    }
}

/// The text with break opportunities after every `max_run` characters
/// without white space; the text as it is for a `max_run` of 0.
pub open spec fn spec_soft_wrap(text: Seq<char>, max_run: nat) -> Seq<char> {
    if max_run == 0 {
        text
    } else {
        spec_soft_wrap_from(text, max_run, 0)
    }
}

/// Inserts a zero-width space and a soft hyphen after every `max_run`
/// characters that follow each other without white space, so that long
/// words and URLs can wrap. A `max_run` of 0 turns this off.
pub fn soft_wrap(s: &str, max_run: usize) -> (wrapped: String)
    ensures
        wrapped@ == spec_soft_wrap(s@, max_run as nat),
{
    if max_run == 0 {
        return String::from_str(s);
    }
    let chars = chars_of(s);
    let n = chars.len();
    let mut wrapped = String::new();
    let mut run: usize = 0;
    let mut i: usize = 0;
    assert(chars@.subrange(0, n as int) =~= chars@);
    while i < n
        invariant
            i <= n,
            n == chars@.len(),
            max_run > 0,
            run < max_run,
            wrapped@ + spec_soft_wrap_from(
                chars@.subrange(i as int, n as int),
                max_run as nat,
                run as nat,
            ) == spec_soft_wrap_from(chars@, max_run as nat, 0),
        decreases n - i,
    {
        let ghost rest = chars@.subrange(i as int, n as int);
        let ghost done = wrapped@;
        let ghost old_run = run;
        assert(rest.drop_first() =~= chars@.subrange(i + 1, n as int));
        assert(rest[0] == chars@[i as int]);
        let ch = chars[i];
        wrapped.push(ch);
        if is_whitespace(ch) {
            run = 0;
        } else {
            run += 1;
            if run >= max_run {
                wrapped.push(ZERO_WIDTH_SPACE);
                wrapped.push(SOFT_HYPHEN);
                run = 0;
            }
        }
        i += 1;
        assert(wrapped@ + spec_soft_wrap_from(
            chars@.subrange(i as int, n as int),
            max_run as nat,
            run as nat,
        ) =~= done + spec_soft_wrap_from(rest, max_run as nat, old_run as nat));
    }
    assert(wrapped@ + Seq::<char>::empty() =~= wrapped@);
    wrapped
}

/// Wrapping keeps the characters of the text in their order: what is left
/// when the inserted break opportunities are taken out again is the text,
/// provided that the text holds none of its own.
pub proof fn law_soft_wrap_keeps_text(text: Seq<char>, max_run: nat, run: nat)
    requires
        forall|i: int| 0 <= i < text.len() ==> text[i] != ZERO_WIDTH_SPACE && text[i] != SOFT_HYPHEN,
    ensures
        spec_soft_wrap_from(text, max_run, run).filter(
            |c: char| c != ZERO_WIDTH_SPACE && c != SOFT_HYPHEN,
        ) == text,
    decreases text.len(),
{
    let keep = |c: char| c != ZERO_WIDTH_SPACE && c != SOFT_HYPHEN;
    if text.len() > 0 {
        let rest = text.drop_first();
        let next_run = if spec_is_whitespace(text[0]) || run + 1 >= max_run {
            0nat
        } else {
            run + 1
        };
        law_soft_wrap_keeps_text(rest, max_run, next_run);
        let head = if !spec_is_whitespace(text[0]) && run + 1 >= max_run {
            seq![text[0], ZERO_WIDTH_SPACE, SOFT_HYPHEN]
        } else {
            seq![text[0]]
        };
        let tail = spec_soft_wrap_from(rest, max_run, next_run);
        assert(spec_soft_wrap_from(text, max_run, run) == head + tail);
        Seq::filter_distributes_over_add(head, tail, keep);
        assert(head.filter(keep) =~= seq![text[0]]) by {
            reveal_with_fuel(Seq::filter, 4);
            assert(seq![text[0]].drop_last() =~= Seq::<char>::empty());
            if head.len() == 3 {
                assert(head.drop_last() =~= seq![text[0], ZERO_WIDTH_SPACE]);
                assert(head.drop_last().drop_last() =~= seq![text[0]]);
            }
        }
        assert(seq![text[0]] + rest =~= text);
    } else {
        reveal_with_fuel(Seq::filter, 1);
    }
}

/// The words of `text`, where the characters of `current` stand before it
/// in a word that has begun: a word ends behind each white-space character,
/// which belongs to it, and what is left at the end is a word if it is not
/// empty.
pub open spec fn spec_split_from(text: Seq<char>, current: Seq<char>) -> Seq<Seq<char>>
    decreases text.len(),
{
    if text.len() == 0 {
        if current.len() == 0 {
            Seq::empty()
        } else {
            seq![current]
        }
    } else if spec_is_whitespace(text[0]) {
        seq![current.push(text[0])] + spec_split_from(text.drop_first(), Seq::empty())
    } else {
        spec_split_from(text.drop_first(), current.push(text[0]))
    }
}

/// Cuts a text into words, each with the white-space character that ends
/// it.
pub fn split_into_words(s: &str) -> (words: Vec<String>)
    ensures
        spec_texts(words@) == spec_split_from(s@, Seq::empty()),
{
    let chars = chars_of(s);
    let n = chars.len();
    let mut words: Vec<String> = Vec::new();
    let mut current = String::new();
    let mut i: usize = 0;
    assert(chars@.subrange(0, n as int) =~= chars@);
    assert(spec_texts(words@) =~= Seq::<Seq<char>>::empty());
    while i < n
        invariant
            i <= n,
            n == chars@.len(),
            spec_texts(words@) + spec_split_from(chars@.subrange(i as int, n as int), current@)
                == spec_split_from(chars@, Seq::empty()),
        decreases n - i,
    {
        let ghost rest = chars@.subrange(i as int, n as int);
        let ghost done = spec_texts(words@);
        let ghost word = current@;
        assert(rest[0] == chars@[i as int]);
        assert(rest.drop_first() =~= chars@.subrange(i + 1, n as int));
        let c = chars[i];
        current.push(c);
        if is_whitespace(c) {
            words.push(current);
            current = String::new();
            assert(spec_texts(words@) =~= done + seq![word.push(c)]);
            assert(spec_texts(words@) + spec_split_from(
                chars@.subrange(i + 1, n as int),
                current@,
            ) =~= done + spec_split_from(rest, word));
        }
        i += 1;
    }
    if !current.as_str().is_empty() {
        let ghost done = spec_texts(words@);
        let ghost word = current@;
        words.push(current);
        assert(spec_texts(words@) =~= done + seq![word]);
    } else {
        assert(spec_texts(words@) + Seq::<Seq<char>>::empty() =~= spec_texts(words@));
    }
    words
}

/// The words of a text, put together again, are the text; no word is
/// empty, and white space stands only at the end of a word.
pub proof fn law_words_make_the_text(text: Seq<char>, current: Seq<char>)
    requires
        forall|i: int| 0 <= i < current.len() ==> !spec_is_whitespace(current[i]),
    ensures
        spec_split_from(text, current).flatten() == current + text,
        forall|w: int|
            0 <= w < spec_split_from(text, current).len() ==> (#[trigger] spec_split_from(
                text,
                current,
            )[w]).len() > 0,
        forall|w: int, i: int|
            0 <= w < spec_split_from(text, current).len() && 0 <= i < spec_split_from(
                text,
                current,
            )[w].len() - 1 ==> !spec_is_whitespace(#[trigger] spec_split_from(text, current)[w][i]),
    decreases text.len(),
{
    broadcast use vstd::seq_lib::group_seq_properties;

    let words = spec_split_from(text, current);
    if text.len() == 0 {
        if current.len() == 0 {
            assert(words.flatten() =~= current + text);
        } else {
            words.lemma_flatten_one_element();
            assert(words.flatten() =~= current + text);
        }
    } else if spec_is_whitespace(text[0]) {
        let rest = spec_split_from(text.drop_first(), Seq::empty());
        law_words_make_the_text(text.drop_first(), Seq::empty());
        let head = seq![current.push(text[0])];
        assert(words == head + rest);
        assert(words.drop_first() =~= rest);
        assert(words.flatten() =~= current.push(text[0]) + rest.flatten());
        assert(words.flatten() =~= current + text);
        assert forall|w: int| 0 <= w < words.len() implies (#[trigger] words[w]).len() > 0 by {
            if w > 0 {
                assert(words[w] == rest[w - 1]);
            }
        }
        assert forall|w: int, i: int|
            0 <= w < words.len() && 0 <= i < words[w].len() - 1 implies !spec_is_whitespace(
            #[trigger] words[w][i],
        ) by {
            if w > 0 {
                assert(words[w] == rest[w - 1]);
            }
        }
    } else {
        let longer = current.push(text[0]);
        law_words_make_the_text(text.drop_first(), longer);
        assert(longer + text.drop_first() =~= current + text);
    }
}

} // verus!
