//! Text primitives: the substring search the deny lists rest on, and the few
//! functions on text that the rest of the library needs.

use vstd::prelude::*;
use vstd::string::StringExecFns;

verus! {

/// `needle` occurs in `haystack` as a contiguous run of characters.
/// The empty text occurs in every text.
pub open spec fn occurs_in(needle: Seq<char>, haystack: Seq<char>) -> bool {
    exists|i: int|
        0 <= i && i + needle.len() <= haystack.len()
            && #[trigger] haystack.subrange(i, i + needle.len()) == needle
}

/// Some text of `needles` occurs in `haystack`.
pub open spec fn any_occurs_in(needles: Seq<Seq<char>>, haystack: Seq<char>) -> bool {
    exists|k: int| 0 <= k < needles.len() && occurs_in(#[trigger] needles[k], haystack)
}

/// Trusted: `str::contains` with a string pattern. Its documentation says that
/// it returns true exactly when the pattern matches a sub-slice of the string;
/// on valid UTF-8 a match of the bytes is a match of the characters.
#[verifier::external_body]
pub(crate) fn contains_text(haystack: &str, needle: &str) -> (found: bool)
    ensures
        found == occurs_in(needle@, haystack@),
{
    haystack.contains(needle)
}

/// Whether any text of `needles` occurs in `haystack`.
pub fn contains_any(haystack: &str, needles: &Vec<String>) -> (found: bool)
    ensures
        found == any_occurs_in(needles.deep_view(), haystack@),
{
    let mut k: usize = 0;
    while k < needles.len()
        invariant
            k <= needles.len(),
            forall|j: int| 0 <= j < k ==> !occurs_in(#[trigger] needles.deep_view()[j], haystack@),
        decreases needles.len() - k,
    {
        assert(needles.deep_view()[k as int] == needles@[k as int]@);
        if contains_text(haystack, needles[k].as_str()) {
            return true;
        }
        k += 1;
    }
    false
}

/// Whether two lists hold the same texts in the same order.
pub fn same_texts(a: &Vec<String>, b: &Vec<String>) -> (same: bool)
    ensures
        same == (a.deep_view() == b.deep_view()),
{
    assert(a.deep_view().len() == a.len() && b.deep_view().len() == b.len());
    if a.len() != b.len() {
        return false;
    }
    let mut k: usize = 0;
    while k < a.len()
        invariant
            k <= a.len(),
            a.len() == b.len(),
            forall|j: int| 0 <= j < k ==> a.deep_view()[j] == b.deep_view()[j],
        decreases a.len() - k,
    {
        assert(a.deep_view()[k as int] == a@[k as int]@);
        assert(b.deep_view()[k as int] == b@[k as int]@);
        if !(a[k] == b[k]) {
            return false;
        }
        k += 1;
    }
    assert(a.deep_view() =~= b.deep_view());
    true
}

/// A copy of a list of texts.
pub fn copy_texts(texts: &Vec<String>) -> (copy: Vec<String>)
    ensures
        copy.deep_view() == texts.deep_view(),
{
    let mut copy: Vec<String> = Vec::new();
    let mut k: usize = 0;
    while k < texts.len()
        invariant
            k <= texts.len(),
            copy.len() == k,
            forall|j: int| 0 <= j < k ==> copy@[j]@ == texts@[j]@,
        decreases texts.len() - k,
    {
        copy.push(texts[k].clone());
        k += 1;
    }
    assert(copy.deep_view() =~= texts.deep_view());
    copy
}

/// The text without its leading and trailing white space, as `str::trim`
/// gives it.
pub uninterp spec fn trimmed(text: Seq<char>) -> Seq<char>;

/// Trusted: `str::trim`. What counts as white space is Unicode's business;
/// the result is a function of the text alone.
#[verifier::external_body]
pub(crate) fn trim(text: &str) -> (inner: &str)
    ensures
        inner@ == trimmed(text@),
{
    text.trim()
}

/// The lower-case form of the text, as `str::to_lowercase` gives it.
pub uninterp spec fn lowercase(text: Seq<char>) -> Seq<char>;

/// Trusted: `str::to_lowercase`. The mapping is Unicode's; the result is a
/// function of the text alone.
#[verifier::external_body]
pub(crate) fn to_lowercase(text: &str) -> (lowered: String)
    ensures
        lowered@ == lowercase(text@),
{
    text.to_lowercase()
}

/// One of the ten decimal digits.
pub open spec fn is_decimal_digit(c: char) -> bool {
    '0' <= c <= '9'
}

/// Some character of the text is a decimal digit.
pub open spec fn has_decimal_digit(text: Seq<char>) -> bool {
    exists|i: int| 0 <= i < text.len() && is_decimal_digit(#[trigger] text[i])
}

/// Whether some character of `text` is a decimal digit.
pub fn contains_digit(text: &str) -> (found: bool)
    ensures
        found == has_decimal_digit(text@),
{
    let mut found = false;
    for c in it: text.chars()
        invariant
            it.seq() == text@,
            found == exists|i: int| 0 <= i < it.index() && is_decimal_digit(#[trigger] text@[i]),
    {
        if '0' <= c && c <= '9' {
            found = true;
        }
    }
    found
}

/// The decimal digit of value `d`.
pub open spec fn digit_char(d: nat) -> char {
    if d == 0 {
        '0'
    } else if d == 1 {
        '1'
    } else if d == 2 {
        '2'
    } else if d == 3 {
        '3'
    } else if d == 4 {
        '4'
    } else if d == 5 {
        '5'
    } else if d == 6 {
        '6'
    } else if d == 7 {
        '7'
    } else if d == 8 {
        '8'
    } else {
        '9'
    }
}

/// The number in decimal, without leading zeros.
pub open spec fn decimal_text(n: nat) -> Seq<char>
    decreases n,
{
    if n < 10 {
        seq![digit_char(n)]
    } else {
        decimal_text(n / 10).push(digit_char(n % 10))
    }
}

fn digit_str(d: usize) -> (digit: &'static str)
    requires
        d < 10,
    ensures
        digit@ == seq![digit_char(d as nat)],
{
    proof {
        reveal_strlit("0");
        reveal_strlit("1");
        reveal_strlit("2");
        reveal_strlit("3");
        reveal_strlit("4");
        reveal_strlit("5");
        reveal_strlit("6");
        reveal_strlit("7");
        reveal_strlit("8");
        reveal_strlit("9");
    }
    let digit = if d == 0 {
        "0"
    } else if d == 1 {
        "1"
    } else if d == 2 {
        "2"
    } else if d == 3 {
        "3"
    } else if d == 4 {
        "4"
    } else if d == 5 {
        "5"
    } else if d == 6 {
        "6"
    } else if d == 7 {
        "7"
    } else if d == 8 {
        "8"
    } else {
        "9"
    };
    assert(digit@ =~= seq![digit_char(d as nat)]);
    digit
}

/// The number in decimal, without leading zeros.
pub fn decimal(n: usize) -> (text: String)
    ensures
        text@ == decimal_text(n as nat),
    decreases n,
{
    if n < 10 {
        String::from_str(digit_str(n))
    } else {
        let mut text = decimal(n / 10);
        text.append(digit_str(n % 10));
        assert(text@ =~= decimal_text(n as nat));
        text
    }
}

} // verus!
