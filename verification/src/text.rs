//! Strings as sequences of characters, and the functions of the standard
//! library on strings that Verus has no account of.

use vstd::prelude::*;
use vstd::string::StringExecFns;

verus! {

/// The text of a string that may be absent.
pub open spec fn text(s: Option<String>) -> Option<Seq<char>> {
    match s {
        Some(t) => Some(t@),
        None => None,
    }
}

/// The texts of a list of strings.
pub open spec fn texts(list: Seq<String>) -> Seq<Seq<char>> {
    Seq::new(list.len(), |i: int| list[i]@)
}

/// `text` with every occurrence of `pattern` replaced by `with`. Occurrences
/// are taken from the left, and none overlaps the one before it. An empty
/// pattern occurs nowhere.
pub open spec fn replaced(text: Seq<char>, pattern: Seq<char>, with: Seq<char>) -> Seq<char>
    decreases text.len(),
{
    if pattern.len() == 0 || text.len() < pattern.len() {
        text
    } else if text.take(pattern.len() as int) == pattern {
        with + replaced(text.skip(pattern.len() as int), pattern, with)
    } else {
        seq![text[0]] + replaced(text.skip(1), pattern, with)
    }
}

/// What `str::to_lowercase` makes of `text`.
pub uninterp spec fn lowercased(text: Seq<char>) -> Seq<char>;

/// Whether `char::is_alphanumeric` holds of `c`.
pub uninterp spec fn alphanumeric(c: char) -> bool;

/// What the `Debug` form of a string that may be absent reads.
pub uninterp spec fn debug_form(s: Option<Seq<char>>) -> Seq<char>;

/// `str::to_lowercase` of the standard library.
///
/// Trusted: the result is the named function of the text.
#[verifier::external_body]
pub(crate) fn to_lowercase(text: &str) -> (lower: String)
    ensures
        lower@ == lowercased(text@),
{
    text.to_lowercase()
}

/// `char::is_alphanumeric` of the standard library.
///
/// Trusted: the result is the named predicate of the character.
#[verifier::external_body]
pub(crate) fn is_alphanumeric(c: char) -> (r: bool)
    ensures
        r == alphanumeric(c),
{
    c.is_alphanumeric()
}

/// `String::push` of the standard library.
///
/// Trusted: the character is appended to the end of the string.
#[verifier::external_body]
pub(crate) fn push_char(text: &mut String, c: char)
    ensures
        final(text)@ == old(text)@.push(c),
{
    text.push(c);
}

/// The `Debug` form of `Option<String>`, as `format!` writes it.
///
/// Trusted: the result is the named function of the text.
#[verifier::external_body]
pub(crate) fn debug_text(s: &Option<String>) -> (r: String)
    ensures
        r@ == debug_form(text(*s)),
{
    format!("{:?}", s)
}

/// The characters of a string.
pub fn chars_of(text: &str) -> (chars: Vec<char>)
    ensures
        chars@ == text@,
{
    broadcast use vstd::string::group_string_axioms;

    let mut chars: Vec<char> = Vec::new();
    for c in it: text.chars()
        invariant
            it.seq() == text@,
            chars@ == text@.take(it.index()),
    {
        assert(text@.take(it.index() + 1) == text@.take(it.index()).push(c));
        chars.push(c);
    }
    assert(text@.take(text@.len() as int) == text@);
    chars
}

/// Whether `pattern` stands in `text` at position `at`.
fn occurs_at(text: &Vec<char>, pattern: &Vec<char>, at: usize) -> (occurs: bool)
    requires
        at + pattern@.len() <= text@.len(),
    ensures
        occurs == (text@.skip(at as int).take(pattern@.len() as int) == pattern@),
{
    let ghost window = text@.skip(at as int).take(pattern@.len() as int);
    let length = text.len();
    let mut j: usize = 0;
    while j < pattern.len()
        invariant
            j <= pattern@.len(),
            at + pattern@.len() <= text@.len(),
            length == text@.len(),
            window == text@.skip(at as int).take(pattern@.len() as int),
            forall|k: int| 0 <= k < j ==> window[k] == pattern@[k],
        decreases pattern@.len() - j,
    {
        assert(window[j as int] == text@[at + j]);
        if text[at + j] != pattern[j] {
            return false;
        }
        j = j + 1;
    }
    assert(window =~= pattern@);
    true
}

/// `text` with every occurrence of `pattern` replaced by `with`.
pub fn replace_text(text: &str, pattern: &str, with: &str) -> (r: String)
    ensures
        r@ == replaced(text@, pattern@, with@),
{
    let source = chars_of(text);
    let wanted = chars_of(pattern);
    let mut r = String::new();
    let mut i: usize = 0;
    assert(text@.skip(0) == text@);
    assert(r@ + replaced(text@, pattern@, with@) == replaced(text@, pattern@, with@));
    while i < source.len()
        invariant
            i <= source@.len(),
            source@ == text@,
            wanted@ == pattern@,
            replaced(text@, pattern@, with@) == r@ + replaced(
                text@.skip(i as int),
                pattern@,
                with@,
            ),
        decreases source@.len() - i,
    {
        let ghost rest = text@.skip(i as int);
        let ghost before = r@;
        if wanted.len() > 0 && wanted.len() <= source.len() - i && occurs_at(&source, &wanted, i) {
            r.append(with);
            i = i + wanted.len();
            proof {
                let after = replaced(text@.skip(i as int), pattern@, with@);
                assert(rest.skip(pattern@.len() as int) == text@.skip(i as int));
                assert(before + (with@ + after) == (before + with@) + after);
            }
        } else {
            push_char(&mut r, source[i]);
            i = i + 1;
            proof {
                let after = replaced(text@.skip(i as int), pattern@, with@);
                assert(rest.skip(1) == text@.skip(i as int));
                if pattern@.len() == 0 || rest.len() < pattern@.len() {
                    lemma_replaced_leaves(rest, pattern@, with@);
                    lemma_replaced_leaves(rest.skip(1), pattern@, with@);
                    assert(rest == seq![rest[0]] + rest.skip(1));
                }
                assert(before + (seq![rest[0]] + after) == before.push(rest[0]) + after);
            }
        }
    }
    assert(text@.skip(text@.len() as int) == Seq::<char>::empty());
    assert(r@ + Seq::<char>::empty() == r@);
    r
}

/// A text too short to hold the pattern, or any text under an empty
/// pattern, is left as it is.
pub proof fn lemma_replaced_leaves(text: Seq<char>, pattern: Seq<char>, with: Seq<char>)
    requires
        pattern.len() == 0 || text.len() < pattern.len(),
    ensures
        replaced(text, pattern, with) == text,
{
}

/// A text that is the pattern gives way to the replacement.
pub proof fn lemma_replaced_whole(pattern: Seq<char>, with: Seq<char>)
    requires
        pattern.len() > 0,
    ensures
        replaced(pattern, pattern, with) == with,
{
    assert(pattern.take(pattern.len() as int) == pattern);
    assert(pattern.skip(pattern.len() as int) == Seq::<char>::empty());
    lemma_replaced_leaves(Seq::empty(), pattern, with);
    assert(with + Seq::<char>::empty() == with);
}

/// A copy of a string that may be absent.
pub fn copy_text(s: &Option<String>) -> (r: Option<String>)
    ensures
        r == *s,
{
    match s {
        Some(t) => Some(t.clone()),
        None => None,
    }
}

/// Whether the two strings read the same.
pub fn same_text(a: &str, b: &str) -> (same: bool)
    ensures
        same == (a@ == b@),
{
    a.to_owned() == b.to_owned()
}

/// Whether `list` holds a string that reads `wanted`.
pub fn lists_text(list: &[String], wanted: &String) -> (found: bool)
    ensures
        found == texts(list@).contains(wanted@),
{
    let mut i: usize = 0;
    while i < list.len()
        invariant
            i <= list@.len(),
            forall|j: int| 0 <= j < i ==> texts(list@)[j] != wanted@,
        decreases list@.len() - i,
    {
        if list[i] == *wanted {
            assert(texts(list@)[i as int] == wanted@);
            return true;
        }
        i = i + 1;
    }
    false
}

} // verus!
