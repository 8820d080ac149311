//! The name of a theme and of its counterpart: `Dark` for `Light` and
//! `Light` for `Dark`.

use crate::text::chars_of;
use crate::text::join2;
use crate::text::string_of;
use vstd::prelude::*;
use vstd::string::StringExecFns;

verus! {

/// Whether `char::is_alphabetic` holds of a character: whether it has the
/// Unicode property `Alphabetic`.
pub uninterp spec fn unicode_alphabetic(c: char) -> bool;

/// `char::is_alphabetic`: whether the character has the Unicode property
/// `Alphabetic`, which depends on the character alone.
#[verifier::external_body]
fn is_alphabetic(c: char) -> (alphabetic: bool)
    ensures
        alphabetic == unicode_alphabetic(c),
{
    c.is_alphabetic()
}

/// Whether a character is an upper-case letter of ASCII.
pub open spec fn spec_is_upper(c: char) -> bool {
    'A' <= c <= 'Z'
}

/// Whether a character is a lower-case letter of ASCII.
pub open spec fn spec_is_lower(c: char) -> bool {
    'a' <= c <= 'z'
}

/// The character with an upper-case letter of ASCII turned to lower case.
pub open spec fn spec_to_lower(c: char) -> char {
    if spec_is_upper(c) {
        ((c as u32) + 32) as char
    } else {
        c
    }
}

/// The character with a lower-case letter of ASCII turned to upper case.
pub open spec fn spec_to_upper(c: char) -> char {
    if spec_is_lower(c) {
        ((c as u32) - 32) as char
    } else {
        c
    }
}

/// Whether `text` holds at the position `at` the lower-case word `word`, in
/// letters of either case.
pub open spec fn spec_word_at(text: Seq<char>, at: int, word: Seq<char>) -> bool {
    &&& 0 <= at
    &&& at + word.len() <= text.len()
    &&& forall|j: int| 0 <= j < word.len() ==> spec_to_lower(#[trigger] text[at + j]) == word[j]
}

/// Whether the `len` characters of `text` at the position `at` stand alone:
/// no alphabetic character stands directly before or behind them.
pub open spec fn spec_stands_alone(text: Seq<char>, at: int, len: int) -> bool {
    &&& at == 0 || !unicode_alphabetic(text[at - 1])
    &&& at + len == text.len() || !unicode_alphabetic(text[at + len])
}

/// The position of the first occurrence of the lower-case word `word` in
/// `text`, from the position `from` on, that stands alone. The search goes
/// from left to right and goes on behind an occurrence that does not stand
/// alone.
pub open spec fn spec_find_word(text: Seq<char>, from: int, word: Seq<char>) -> Option<int>
    decreases text.len() - from,
{
    if from < 0 || word.len() == 0 || from + word.len() > text.len() {
        None
    } else if spec_word_at(text, from, word) {
        if spec_stands_alone(text, from, word.len() as int) {
            Some(from)
        } else {
            spec_find_word(text, from + word.len(), word)
        }
    } else {
        spec_find_word(text, from + 1, word)
    }
}

/// `replacement` in the casing of `occurrence`, a word of letters: in upper
/// case if `occurrence` is all upper case, in lower case if it is all lower
/// case, capitalized if it is capitalized, and as it is otherwise.
pub open spec fn spec_preserve_casing(occurrence: Seq<char>, replacement: Seq<char>) -> Seq<char> {
    if occurrence.len() == 0 {
        replacement
    } else if forall|i: int| 0 <= i < occurrence.len() ==> spec_is_upper(#[trigger] occurrence[i]) {
        replacement.map_values(|c: char| spec_to_upper(c))
    } else if forall|i: int| 0 <= i < occurrence.len() ==> spec_is_lower(#[trigger] occurrence[i]) {
        replacement.map_values(|c: char| spec_to_lower(c))
    } else if spec_is_upper(occurrence[0]) && forall|i: int|
        1 <= i < occurrence.len() ==> spec_is_lower(#[trigger] occurrence[i]) {
        spec_capitalize(replacement)
    } else {
        replacement
    }
}

/// The text with its first character in upper case and the others in lower
/// case.
pub open spec fn spec_capitalize(text: Seq<char>) -> Seq<char> {
    Seq::new(
        text.len(),
        |i: int|
            if i == 0 {
                spec_to_upper(text[i])
            } else {
                spec_to_lower(text[i])
            },
    )
}

/// The text with the first occurrence of the lower-case word `word` that
/// stands alone replaced by `replacement` in the casing of the occurrence,
/// or `None` where no occurrence stands alone.
pub open spec fn spec_replace_word(text: Seq<char>, word: Seq<char>, replacement: Seq<char>) -> Option<
    Seq<char>,
> {
    match spec_find_word(text, 0, word) {
        Some(at) => Some(
            text.subrange(0, at) + spec_preserve_casing(
                text.subrange(at, at + word.len()),
                replacement,
            ) + text.subrange(at + word.len(), text.len() as int),
        ),
        None => None,
    }
}

/// The name of the counterpart of a theme.
///
/// The first `Dark` that stands alone in the name, in letters of either
/// case, becomes `Light` in the same casing. In a name without it, the
/// first `Light` that stands alone becomes `Dark`. A name with neither gets
/// ` Light` appended if the theme in use is known to be dark, else ` Dark`.
pub open spec fn spec_toggle_dark_light(name: Seq<char>, runtime_is_dark: Option<bool>) -> Seq<
    char,
> {
    match spec_replace_word(name, "dark"@, "Light"@) {
        Some(toggled) => toggled,
        None => match spec_replace_word(name, "light"@, "Dark"@) {
            Some(toggled) => toggled,
            None => if runtime_is_dark == Some(true) {
                name + " Light"@
            } else {
                name + " Dark"@
            },
        },
    }
}

fn to_lower(c: char) -> (lower: char)
    ensures
        lower == spec_to_lower(c),
{
    if 'A' <= c && c <= 'Z' {
        (((c as u32) + 32) as u8) as char
    } else {
        c
    }
}

fn to_upper(c: char) -> (upper: char)
    ensures
        upper == spec_to_upper(c),
{
    if 'a' <= c && c <= 'z' {
        (((c as u32) - 32) as u8) as char
    } else {
        c
    }
}

fn word_at(text: &Vec<char>, at: usize, word: &Vec<char>) -> (found: bool)
    requires
        at + word@.len() <= text@.len(),
    ensures
        found == spec_word_at(text@, at as int, word@),
{
    let n = text.len();
    let m = word.len();
    let mut j: usize = 0;
    while j < m
        invariant
            j <= m,
            m == word@.len(),
            n == text@.len(),
            at + m <= n,
            forall|k: int| 0 <= k < j ==> spec_to_lower(#[trigger] text@[at + k]) == word@[k],
        decreases m - j,
    {
        if to_lower(text[at + j]) != word[j] {
            return false;
        }
        j += 1;
    }
    true
}

fn stands_alone(text: &Vec<char>, at: usize, len: usize) -> (alone: bool)
    requires
        at + len <= text@.len(),
    ensures
        alone == spec_stands_alone(text@, at as int, len as int),
{
    let n = text.len();
    let before_ok = at == 0 || !is_alphabetic(text[at - 1]);
    let after_ok = at + len == n || !is_alphabetic(text[at + len]);
    before_ok && after_ok
}

fn find_word(text: &Vec<char>, word: &Vec<char>) -> (found: Option<usize>)
    ensures
        match found {
            Some(at) => spec_find_word(text@, 0, word@) == Some(at as int) && at + word@.len()
                <= text@.len(),
            None => spec_find_word(text@, 0, word@) is None,
        },
{
    let n = text.len();
    let m = word.len();
    if m == 0 || m > n {
        return None;
    }
    let mut from: usize = 0;
    while from <= n - m
        invariant
            0 < m <= n,
            n == text@.len(),
            m == word@.len(),
            spec_find_word(text@, 0, word@) == spec_find_word(text@, from as int, word@),
        decreases n - from,
    {
        if word_at(text, from, word) {
            if stands_alone(text, from, m) {
                return Some(from);
            }
            from += m;
        } else {
            from += 1;
        }
    }
    None
}

fn all_upper(word: &Vec<char>, from: usize) -> (all: bool)
    requires
        from <= word@.len(),
    ensures
        all == forall|i: int| from <= i < word@.len() ==> spec_is_upper(#[trigger] word@[i]),
{
    let mut i = from;
    while i < word.len()
        invariant
            from <= i <= word@.len(),
            forall|k: int| from <= k < i ==> spec_is_upper(#[trigger] word@[k]),
        decreases word@.len() - i,
    {
        if !('A' <= word[i] && word[i] <= 'Z') {
            return false;
        }
        i += 1;
    }
    true
}

fn all_lower(word: &Vec<char>, from: usize) -> (all: bool)
    requires
        from <= word@.len(),
    ensures
        all == forall|i: int| from <= i < word@.len() ==> spec_is_lower(#[trigger] word@[i]),
{
    let mut i = from;
    while i < word.len()
        invariant
            from <= i <= word@.len(),
            forall|k: int| from <= k < i ==> spec_is_lower(#[trigger] word@[k]),
        decreases word@.len() - i,
    {
        if !('a' <= word[i] && word[i] <= 'z') {
            return false;
        }
        i += 1;
    }
    true
}

/// The mapping of letters that [`recase`] applies.
#[derive(Clone, Copy, PartialEq, Eq, Structural)]
enum Casing {
    Upper,
    Lower,
    Capitalized,
    AsItIs,
}

spec fn spec_recase(text: Seq<char>, casing: Casing) -> Seq<char> {
    match casing {
        Casing::Upper => text.map_values(|c: char| spec_to_upper(c)),
        Casing::Lower => text.map_values(|c: char| spec_to_lower(c)),
        Casing::Capitalized => spec_capitalize(text),
        Casing::AsItIs => text,
    }
}

fn recase(text: &Vec<char>, casing: Casing) -> (recased: Vec<char>)
    ensures
        recased@ == spec_recase(text@, casing),
{
    let mut recased: Vec<char> = Vec::new();
    let mut i: usize = 0;
    while i < text.len()
        invariant
            i <= text@.len(),
            recased@.len() == i,
            forall|k: int| 0 <= k < i ==> recased@[k] == spec_recase(text@, casing)[k],
        decreases text@.len() - i,
    {
        let c = text[i];
        let mapped = match casing {
            Casing::Upper => to_upper(c),
            Casing::Lower => to_lower(c),
            Casing::Capitalized => if i == 0 {
                to_upper(c)
            } else {
                to_lower(c)
            },
            Casing::AsItIs => c,
        };
        recased.push(mapped);
        i += 1;
    }
    assert(recased@ =~= spec_recase(text@, casing));
    recased
}

/// Puts `replacement` into the casing of `occurrence`.
fn preserve_casing(occurrence: &Vec<char>, replacement: &Vec<char>) -> (cased: Vec<char>)
    ensures
        cased@ == spec_preserve_casing(occurrence@, replacement@),
{
    let casing = if occurrence.len() == 0 {
        Casing::AsItIs
    } else if all_upper(occurrence, 0) {
        Casing::Upper
    } else if all_lower(occurrence, 0) {
        Casing::Lower
    } else if 'A' <= occurrence[0] && occurrence[0] <= 'Z' && all_lower(occurrence, 1) {
        Casing::Capitalized
    } else {
        Casing::AsItIs
    };
    recase(replacement, casing)
}

/// Writes a text with its first character in upper case and the others in
/// lower case.
pub fn capitalize_ascii_like(text: &str) -> (capitalized: String)
    ensures
        capitalized@ == spec_capitalize(text@),
{
    let chars = chars_of(text);
    let recased = recase(&chars, Casing::Capitalized);
    string_of(&recased, 0, recased.len())
}

/// Replaces the first occurrence of the lower-case word `word` that stands
/// alone in `text` by `replacement` in the casing of the occurrence.
fn replace_first_standalone_token(text: &Vec<char>, word: &Vec<char>, replacement: &Vec<char>) -> (replaced:
    Option<String>)
    ensures
        match replaced {
            Some(toggled) => spec_replace_word(text@, word@, replacement@) == Some(toggled@),
            None => spec_replace_word(text@, word@, replacement@) is None,
        },
{
    match find_word(text, word) {
        Some(at) => {
            let n = text.len();
            let end = at + word.len();
            let occurrence = {
                let mut occurrence: Vec<char> = Vec::new();
                let mut i = at;
                while i < end
                    invariant
                        at <= i <= end <= text@.len(),
                        occurrence@ == text@.subrange(at as int, i as int),
                    decreases end - i,
                {
                    occurrence.push(text[i]);
                    assert(occurrence@ =~= text@.subrange(at as int, i + 1));
                    i += 1;
                }
                occurrence
            };
            let cased = preserve_casing(&occurrence, replacement);
            let mut out = string_of(text, 0, at);
            let middle = string_of(&cased, 0, cased.len());
            assert(middle@ =~= cased@);
            out.append(middle.as_str());
            let tail = string_of(text, end, n);
            out.append(tail.as_str());
            Some(out)
        },
        None => None,
    }
}

/// Writes the name of the counterpart of a theme: `Dark` for `Light` and
/// `Light` for `Dark`. `runtime_is_dark` says whether the theme in use is
/// dark, where that is known; it decides what a name with neither word gets
/// appended.
pub fn toggle_dark_light(theme_name: &str, runtime_is_dark: Option<bool>) -> (toggled: String)
    ensures
        toggled@ == spec_toggle_dark_light(theme_name@, runtime_is_dark),
{
    let name = chars_of(theme_name);
    let dark = chars_of("dark");
    let light = chars_of("light");
    let dark_word = chars_of("Dark");
    let light_word = chars_of("Light");
    match replace_first_standalone_token(&name, &dark, &light_word) {
        Some(toggled) => toggled,
        None => match replace_first_standalone_token(&name, &light, &dark_word) {
            Some(toggled) => toggled,
            None => match runtime_is_dark {
                Some(true) => join2(theme_name, " Light"),
                _ => join2(theme_name, " Dark"),
            },
        },
    }
}

} // verus!
