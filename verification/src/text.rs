//! Texts as sequences of characters: white space, decimal numerals,
//! joining, searching and replacing.

use vstd::prelude::*;
use vstd::string::StringExecFns;

verus! {

/// `str::eq`, the `==` of two texts: whether they hold the same characters.
pub assume_specification[ <str as PartialEq>::eq ](a: &str, b: &str) -> (same: bool)
    ensures
        same == (a@ == b@),
;

/// `String::push` appends one character to the end of the string.
pub assume_specification[ String::push ](text: &mut String, c: char)
    ensures
        final(text)@ == old(text)@.push(c),
;

/// The text that `str::to_lowercase` makes of a text: its lower-case
/// equivalent by the rules of Unicode.
pub uninterp spec fn unicode_lowercase(text: Seq<char>) -> Seq<char>;

/// `str::to_lowercase`: the lower-case equivalent of the text, which depends
/// on the text alone.
#[verifier::external_body]
pub(crate) fn lowercase(text: &str) -> (lower: String)
    ensures
        lower@ == unicode_lowercase(text@),
{
    text.to_lowercase()
}

/// Whether a character is white space: a character with the Unicode property
/// `White_Space`.
pub open spec fn spec_is_whitespace(c: char) -> bool {
    let u = c as u32;
    ||| 0x09 <= u <= 0x0D
    ||| u == 0x20
    ||| u == 0x85
    ||| u == 0xA0
    ||| u == 0x1680
    ||| 0x2000 <= u <= 0x200A
    ||| u == 0x2028
    ||| u == 0x2029
    ||| u == 0x202F
    ||| u == 0x205F
    ||| u == 0x3000
}

/// Whether a text is blank: empty, or white space only.
pub open spec fn spec_is_blank(text: Seq<char>) -> bool {
    forall|i: int| 0 <= i < text.len() ==> spec_is_whitespace(#[trigger] text[i])
}

/// Whether a character is white space.
pub fn is_whitespace(c: char) -> (white: bool)
    ensures
        white == spec_is_whitespace(c),
{
    let u = c as u32;
    (0x09 <= u && u <= 0x0D) || u == 0x20 || u == 0x85 || u == 0xA0 || u == 0x1680 || (0x2000 <= u
        && u <= 0x200A) || u == 0x2028 || u == 0x2029 || u == 0x202F || u == 0x205F || u == 0x3000
}

/// Whether a text is blank: empty, or white space only.
pub fn is_blank(text: &str) -> (blank: bool)
    ensures
        blank == spec_is_blank(text@),
{
    let chars = chars_of(text);
    let n = chars.len();
    let mut i: usize = 0;
    while i < n
        invariant
            n == chars@.len(),
            chars@ == text@,
            i <= n,
            forall|j: int| 0 <= j < i ==> spec_is_whitespace(#[trigger] text@[j]),
        decreases n - i,
    {
        if !is_whitespace(chars[i]) {
            return false;
        }
        i += 1;
    }
    true
}

/// The texts of a sequence of strings.
pub open spec fn spec_texts(strings: Seq<String>) -> Seq<Seq<char>> {
    strings.map_values(|s: String| s@)
}

/// The character of a decimal digit.
pub open spec fn spec_digit_char(d: nat) -> char {
    (0x30 + d) as char
}

/// The decimal numeral of `n`: its digits from the most significant one,
/// without sign or leading zeros.
pub open spec fn spec_decimal(n: nat) -> Seq<char>
    decreases n,
{
    if n < 10 {
        seq![spec_digit_char(n)]
    } else {
        spec_decimal(n / 10).push(spec_digit_char(n % 10))
    }
}

fn digit_char(d: u64) -> (c: char)
    requires
        d < 10,
    ensures
        c == spec_digit_char(d as nat),
{
    (0x30 + d as u8) as char
}

/// Writes `n` as a decimal numeral.
pub fn decimal_string(n: u64) -> (text: String)
    ensures
        text@ == spec_decimal(n as nat),
    decreases n,
{
    if n < 10 {
        let mut text = String::new();
        text.push(digit_char(n));
        assert(text@ =~= spec_decimal(n as nat));
        text
    } else {
        let mut text = decimal_string(n / 10);
        text.push(digit_char(n % 10));
        text
    }
}

/// The characters of a text.
pub fn chars_of(text: &str) -> (chars: Vec<char>)
    ensures
        chars@ == text@,
{
    let mut chars: Vec<char> = Vec::new();
    for c in it: text.chars()
        invariant
            it.seq() == text@,
            chars@ == text@.take(it.index() as int),
    {
        chars.push(c);
        assert(chars@ =~= text@.take(it.index() + 1));
    }
    assert(text@.take(text@.len() as int) =~= text@);
    chars
}

/// The text made of the characters `chars[from..to]`.
pub fn string_of(chars: &Vec<char>, from: usize, to: usize) -> (text: String)
    requires
        from <= to <= chars@.len(),
    ensures
        text@ == chars@.subrange(from as int, to as int),
{
    let mut text = String::new();
    let mut i = from;
    while i < to
        invariant
            from <= i <= to <= chars@.len(),
            text@ == chars@.subrange(from as int, i as int),
        decreases to - i,
    {
        text.push(chars[i]);
        assert(text@ =~= chars@.subrange(from as int, i + 1));
        i += 1;
    }
    text
}

/// Whether `text` holds `pattern` at the position `at`.
pub open spec fn spec_matches_at(text: Seq<char>, at: int, pattern: Seq<char>) -> bool {
    0 <= at && at + pattern.len() <= text.len() && text.subrange(at, at + pattern.len())
        == pattern
}

/// Whether `text` ends with `suffix`.
pub open spec fn spec_ends_with(text: Seq<char>, suffix: Seq<char>) -> bool {
    spec_matches_at(text, text.len() - suffix.len(), suffix)
}

/// The text with every occurrence of `from` replaced by `to`, the
/// occurrences taken from the left and not overlapping. `from` is not empty.
pub open spec fn spec_replace_all(text: Seq<char>, from: Seq<char>, to: Seq<char>) -> Seq<char>
    decreases text.len(),
{
    if from.len() == 0 || text.len() < from.len() {
        text
    } else if spec_matches_at(text, 0, from) {
        to + spec_replace_all(text.subrange(from.len() as int, text.len() as int), from, to)
    } else {
        seq![text[0]] + spec_replace_all(text.drop_first(), from, to)
    }
}

/// Whether `text` holds `pattern` at the position `at`.
pub fn matches_at(text: &Vec<char>, at: usize, pattern: &Vec<char>) -> (found: bool)
    ensures
        found == spec_matches_at(text@, at as int, pattern@),
{
    let n = text.len();
    let m = pattern.len();
    if at > n || m > n - at {
        return false;
    }
    let mut j: usize = 0;
    while j < m
        invariant
            j <= m,
            m == pattern@.len(),
            n == text@.len(),
            at + m <= n,
            forall|k: int| 0 <= k < j ==> text@[at + k] == pattern@[k],
        decreases m - j,
    {
        if text[at + j] != pattern[j] {
            assert(text@.subrange(at as int, at + m)[j as int] != pattern@[j as int]);
            return false;
        }
        j += 1;
    }
    assert(text@.subrange(at as int, at + m) =~= pattern@);
    true
}

/// Whether `text` ends with `suffix`.
pub fn ends_with(text: &Vec<char>, suffix: &Vec<char>) -> (found: bool)
    ensures
        found == spec_ends_with(text@, suffix@),
{
    if suffix.len() > text.len() {
        false
    } else {
        matches_at(text, text.len() - suffix.len(), suffix)
    }
}

/// Replaces every occurrence of `from` in `text` by `to`, the occurrences
/// taken from the left and not overlapping.
pub fn replace_all(text: &Vec<char>, from: &Vec<char>, to: &Vec<char>) -> (replaced: String)
    requires
        from@.len() > 0,
    ensures
        replaced@ == spec_replace_all(text@, from@, to@),
{
    let n = text.len();
    let m = from.len();
    let mut replaced = String::new();
    let mut i: usize = 0;
    assert(text@.subrange(0, n as int) =~= text@);
    while i < n
        invariant
            i <= n,
            n == text@.len(),
            m == from@.len(),
            m > 0,
            replaced@ + spec_replace_all(text@.subrange(i as int, n as int), from@, to@)
                == spec_replace_all(text@, from@, to@),
        decreases n - i,
    {
        let ghost rest = text@.subrange(i as int, n as int);
        let ghost done = replaced@;
        if matches_at(text, i, from) {
            assert(rest.subrange(0, m as int) =~= text@.subrange(i as int, i + m));
            assert(rest.subrange(m as int, rest.len() as int) =~= text@.subrange(i + m, n as int));
            let piece = string_of(to, 0, to.len());
            assert(piece@ =~= to@);
            replaced.append(piece.as_str());
            i += m;
            assert(replaced@ + spec_replace_all(text@.subrange(i as int, n as int), from@, to@)
                =~= done + spec_replace_all(rest, from@, to@));
        } else {
            proof {
                if rest.len() >= m {
                    assert(rest.subrange(0, m as int) =~= text@.subrange(i as int, i + m));
                }
                assert(rest.drop_first() =~= text@.subrange(i + 1, n as int));
                lemma_replace_all_step(rest, from@, to@);
            }
            replaced.push(text[i]);
            i += 1;
            assert(replaced@ + spec_replace_all(text@.subrange(i as int, n as int), from@, to@)
                =~= done + spec_replace_all(rest, from@, to@));
        }
    }
    assert(replaced@ + Seq::<char>::empty() =~= replaced@);
    replaced
}

/// A text that does not start with `from` keeps its first character.
proof fn lemma_replace_all_step(text: Seq<char>, from: Seq<char>, to: Seq<char>)
    requires
        text.len() > 0,
        from.len() > 0,
        !spec_matches_at(text, 0, from),
    ensures
        spec_replace_all(text, from, to) == seq![text[0]] + spec_replace_all(
            text.drop_first(),
            from,
            to,
        ),
{
    if text.len() < from.len() {
        assert(text =~= seq![text[0]] + text.drop_first());
    }
}

/// Joins two pieces of text.
pub fn join2(a: &str, b: &str) -> (text: String)
    ensures
        text@ == a@ + b@,
{
    let mut text = String::from_str(a);
    text.append(b);
    text
}

/// Joins three pieces of text.
pub fn join3(a: &str, b: &str, c: &str) -> (text: String)
    ensures
        text@ == a@ + b@ + c@,
{
    let mut text = String::from_str(a);
    text.append(b);
    text.append(c);
    text
}

/// A decimal numeral has at least one digit.
pub proof fn lemma_decimal_len(n: nat)
    ensures
        spec_decimal(n).len() >= 1,
        n >= 10 ==> spec_decimal(n).len() >= 2,
    decreases n,
{
    if n >= 10 {
        lemma_decimal_len(n / 10);
    }
}

/// Different numbers have different decimal numerals.
pub proof fn lemma_decimal_injective(a: nat, b: nat)
    ensures
        spec_decimal(a) == spec_decimal(b) ==> a == b,
    decreases a,
{
    lemma_decimal_len(a);
    lemma_decimal_len(b);
    if spec_decimal(a) == spec_decimal(b) {
        if a < 10 {
            assert(spec_decimal(a)[0] == spec_digit_char(a));
            if b < 10 {
                assert(spec_decimal(b)[0] == spec_digit_char(b));
            }
        } else {
            let da = spec_decimal(a / 10).push(spec_digit_char(a % 10));
            let db = spec_decimal(b / 10).push(spec_digit_char(b % 10));
            assert(da.last() == db.last());
            assert(da.drop_last() =~= spec_decimal(a / 10));
            assert(db.drop_last() =~= spec_decimal(b / 10));
            lemma_decimal_injective(a / 10, b / 10);
        }
    }
}

/// Texts that differ still differ behind a common prefix.
pub proof fn lemma_prefix_cancels(prefix: Seq<char>, a: Seq<char>, b: Seq<char>)
    ensures
        prefix + a == prefix + b ==> a == b,
{
    if prefix + a == prefix + b {
        assert((prefix + a).subrange(prefix.len() as int, (prefix + a).len() as int) =~= a);
        assert((prefix + b).subrange(prefix.len() as int, (prefix + b).len() as int) =~= b);
    }
}

} // verus!
