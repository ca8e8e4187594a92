//! SQL-style wildcard patterns: `%` for any run of characters, `_` for
//! exactly one, everything else for itself. A pattern is translated to a
//! regular expression anchored at both ends, and the regex engine matches it.

use std::str::Chars;
use vstd::prelude::*;
use vstd::std_specs::iter::IteratorSpec;

verus! {

/// `String::push` appends one character.
pub assume_specification[ String::push ](s: &mut String, c: char)
    ensures
        final(s)@ == old(s)@.push(c),
;

/// Whether `c` has a meaning of its own in a regular expression.
pub open spec fn is_regex_meta(c: char) -> bool {
    c == '\\' || c == '.' || c == '+' || c == '*' || c == '?' || c == '(' || c == ')' || c == '|'
        || c == '[' || c == ']' || c == '{' || c == '}' || c == '^' || c == '$' || c == '#' || c
        == '&' || c == '-' || c == '~'
}

/// The regular expression for one character of a pattern.
pub open spec fn translate_char(c: char) -> Seq<char> {
    if c == '%' {
        seq!['.', '*']
    } else if c == '_' {
        seq!['.']
    } else if is_regex_meta(c) {
        seq!['\\', c]
    } else {
        seq![c]
    }
}

/// The regular expression for a run of pattern characters.
pub open spec fn translate(pattern: Seq<char>) -> Seq<char>
    decreases pattern.len(),
{
    if pattern.len() == 0 {
        Seq::empty()
    } else {
        translate(pattern.drop_last()) + translate_char(pattern.last())
    }
}

/// The regular expression that a pattern stands for: what its characters
/// stand for, between the two anchors, in the mode where `.` matches every
/// character, a line break too.
pub open spec fn like_regex(pattern: Seq<char>) -> Seq<char> {
    seq!['(', '?', 's', ')', '^'] + translate(pattern) + seq!['$']
}

/// Whether `c` has a meaning of its own in a regular expression.
pub fn needs_escape(c: char) -> (meta: bool)
    ensures
        meta == is_regex_meta(c),
{
    c == '\\' || c == '.' || c == '+' || c == '*' || c == '?' || c == '(' || c == ')' || c == '|'
        || c == '[' || c == ']' || c == '{' || c == '}' || c == '^' || c == '$' || c == '#' || c
        == '&' || c == '-' || c == '~'
}

/// Translates a wildcard pattern to an anchored regular expression.
pub fn like_pattern_to_regex(like: &str) -> (regex: String)
    ensures
        regex@ == like_regex(like@),
{
    let mut regex = String::new();
    regex.push('(');
    regex.push('?');
    regex.push('s');
    regex.push(')');
    regex.push('^');
    let ghost head = regex@;
    assert(head =~= seq!['(', '?', 's', ')', '^']);
    let mut chars: Chars<'_> = like.chars();
    let ghost mut read: int = 0;
    proof {
        assert(like@.skip(0) =~= like@);
        assert(like@.take(0) =~= Seq::<char>::empty());
        assert(head + translate(Seq::<char>::empty()) =~= head);
    }
    loop
        invariant
            0 <= read <= like@.len(),
            chars.remaining() == like@.skip(read),
            regex@ == head + translate(like@.take(read)),
        ensures
            regex@ == head + translate(like@),
        decreases like@.len() - read,
    {
        let c: char = match chars.next() {
            Some(c) => c,
            None => {
                proof {
                    assert(like@.take(read) =~= like@);
                }
                break ;
            },
        };
        proof {
            assert(like@.skip(read).drop_first() =~= like@.skip(read + 1));
            assert(like@.take(read + 1).drop_last() =~= like@.take(read));
            assert(like@.take(read + 1).last() == c);
        }
        let ghost before = regex@;
        if c == '%' {
            regex.push('.');
            regex.push('*');
        } else if c == '_' {
            regex.push('.');
        } else if needs_escape(c) {
            regex.push('\\');
            regex.push(c);
        } else {
            regex.push(c);
        }
        proof {
            assert(regex@ =~= before + translate_char(c));
            assert(regex@ =~= head + translate(like@.take(read + 1)));
            read = read + 1;
        }
    }
    regex.push('$');
    assert(regex@ =~= like_regex(like@));
    regex
}

/// What the regex engine finds for a regular expression and a text: nothing
/// where the expression does not compile, else whether it matches somewhere
/// in the text.
pub uninterp spec fn regex_search(expression: Seq<char>, text: Seq<char>) -> Option<bool>;

/// Compiles `expression` with `regex::Regex::new` and asks
/// `regex::Regex::is_match` whether it matches in `text`. Both depend on
/// their arguments alone; the outcome is known here only by the name
/// [`regex_search`].
#[verifier::external_body]
fn search(expression: &str, text: &str) -> (found: Option<bool>)
    ensures
        found == regex_search(expression@, text@),
{
    match regex::Regex::new(expression) {
        Ok(compiled) => Some(compiled.is_match(text)),
        Err(_) => None,
    }
}

/// Whether `text` matches the wildcard `pattern` from end to end.
pub open spec fn like_matches(pattern: Seq<char>, text: Seq<char>) -> bool {
    regex_search(like_regex(pattern), text) == Some(true)
}

/// Whether `text` fails to match a `pattern` that could be matched at all.
pub open spec fn like_fails(pattern: Seq<char>, text: Seq<char>) -> bool {
    regex_search(like_regex(pattern), text) == Some(false)
}

/// The verdict of a pattern predicate from what the regex engine found:
/// a match for `Like`, no match for `NotLike` (`negated`), and false either
/// way where the expression did not compile.
pub fn like_verdict(found: Option<bool>, negated: bool) -> (verdict: bool)
    ensures
        verdict == match found {
            Some(matched) => matched != negated,
            None => false,
        },
{
    match found {
        Some(matched) => matched != negated,
        None => false,
    }
}

/// Whether `text` matches the wildcard `pattern` from end to end.
pub fn like(pattern: &str, text: &str) -> (matched: bool)
    ensures
        matched == like_matches(pattern@, text@),
{
    let regex = like_pattern_to_regex(pattern);
    like_verdict(search(regex.as_str(), text), false)
}

/// Whether `text` fails to match the wildcard `pattern`.
pub fn not_like(pattern: &str, text: &str) -> (failed: bool)
    ensures
        failed == like_fails(pattern@, text@),
{
    let regex = like_pattern_to_regex(pattern);
    like_verdict(search(regex.as_str(), text), true)
}

} // verus!
