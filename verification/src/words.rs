//! Small helpers on English words: plurals and the like.
//!
//! The tests on text are made by `str`'s own methods, behind trusted items
//! that say what the standard library documents of them.

use vstd::prelude::*;

verus! {

/// Whether `pattern` occurs in `text` as a run of neighbouring characters.
pub open spec fn occurs_in(pattern: Seq<char>, text: Seq<char>) -> bool {
    exists|i: int|
        0 <= i && i + pattern.len() <= text.len() && #[trigger] text.subrange(i, i + pattern.len())
            == pattern
}

/// Whether a word ends in the letter s.
pub open spec fn ends_in_s(word: Seq<char>) -> bool {
    word.len() > 0 && word.last() == 's'
}

/// Whether a word begins with the letter b and has the letter a in it.
pub open spec fn edible(word: Seq<char>) -> bool {
    word.len() > 0 && word[0] == 'b' && word.contains('a')
}

/// `str::ends_with`, for a string pattern: whether `suffix` is a suffix of
/// `word`.
#[verifier::external_body]
fn ends_with(word: &str, suffix: &str) -> (found: bool)
    ensures
        found == suffix@.is_suffix_of(word@),
{
    word.ends_with(suffix)
}

/// `str::starts_with`, for a string pattern: whether `prefix` is a prefix of
/// `word`.
#[verifier::external_body]
fn starts_with(word: &str, prefix: &str) -> (found: bool)
    ensures
        found == prefix@.is_prefix_of(word@),
{
    word.starts_with(prefix)
}

/// `str::contains`, for a string pattern: whether `pattern` occurs in `word`.
#[verifier::external_body]
fn contains(word: &str, pattern: &str) -> (found: bool)
    ensures
        found == occurs_in(pattern@, word@),
{
    word.contains(pattern)
}

/// `String::push_str`: appends `tail` to `word`.
#[verifier::external_body]
fn push_str(word: &mut String, tail: &str)
    ensures
        final(word)@ == old(word)@ + tail@,
{
    word.push_str(tail);
}

/// Whether `arg` is a plural: whether it ends in s.
pub fn is_plural(arg: &String) -> (plural: bool)
    ensures
        plural == ends_in_s(arg@),
{
    proof {
        reveal_strlit("s");
        if ends_in_s(arg@) {
            assert("s"@ =~= arg@.subrange(arg@.len() - 1, arg@.len() as int));
        }
        if "s"@.is_suffix_of(arg@) {
            assert(arg@.subrange(arg@.len() - 1, arg@.len() as int)[0] == 's');
        }
    }
    ends_with(arg.as_str(), "s")
}

/// Makes `arg` a plural: appends an s unless it ends in one.
pub fn change(arg: &mut String)
    ensures
        final(arg)@ == if ends_in_s(old(arg)@) {
            old(arg)@
        } else {
            old(arg)@.push('s')
        },
        ends_in_s(final(arg)@),
{
    if !is_plural(arg) {
        proof {
            reveal_strlit("s");
            assert(arg@ + "s"@ =~= arg@.push('s'));
        }
        push_str(arg, "s");
    }
}

/// Whether `arg` begins with b and has an a in it.
pub fn eat(arg: String) -> (eaten: bool)
    ensures
        eaten == edible(arg@),
{
    proof {
        reveal_strlit("b");
        reveal_strlit("a");
        let word = arg@;
        if word.len() > 0 && word[0] == 'b' {
            assert("b"@ =~= word.subrange(0, 1));
        }
        if "b"@.is_prefix_of(word) {
            assert(word.subrange(0, 1)[0] == 'b');
        }
        if word.contains('a') {
            let i = choose|i: int| 0 <= i < word.len() && word[i] == 'a';
            assert(word.subrange(i, i + 1) =~= "a"@);
        }
        if occurs_in("a"@, word) {
            let i = choose|i: int|
                0 <= i && i + "a"@.len() <= word.len() && #[trigger] word.subrange(i, i + "a"@.len())
                    == "a"@;
            assert(word.subrange(i, i + 1)[0] == 'a');
            assert(word[i] == 'a');
        }
    }
    if starts_with(arg.as_str(), "b") && contains(arg.as_str(), "a") {
        true
    } else {
        false
    }
}

/// Replaces the word by "sparkly".
pub fn bedazzle(s: &mut String)
    ensures
        final(s)@ == "sparkly"@,
{
    *s = "sparkly".to_owned();
}

} // verus!
