//! Contracts for the few standard-library string operations the library
//! relies on and that come without one, and small verified helpers on text.

use vstd::prelude::*;

verus! {

/// `String::push` appends one character to the end of the string.
pub assume_specification[ std::string::String::push ](s: &mut std::string::String, c: char)
    ensures
        final(s)@ == old(s)@.push(c),
;

/// `str == str` holds exactly when both slices hold the same characters.
pub assume_specification[ <str as PartialEq>::eq ](a: &str, b: &str) -> (r: bool)
    ensures
        r == (a@ == b@),
;

/// Copies the characters `chars[from..to]` into a new string.
pub fn string_from_chars(chars: &Vec<char>, from: usize, to: usize) -> (s: String)
    requires
        from <= to <= chars.len(),
    ensures
        s@ == chars@.subrange(from as int, to as int),
{
    let mut s = String::new();
    let mut i: usize = from;
    while i < to
        invariant
            from <= i <= to <= chars.len(),
            s@ == chars@.subrange(from as int, i as int),
        decreases to - i,
    {
        s.push(chars[i]);
        i += 1;
    }
    s
}

/// Appends all of `chars` to `s`.
pub fn push_chars(s: &mut String, chars: &Vec<char>)
    ensures
        final(s)@ == old(s)@ + chars@,
{
    let mut i: usize = 0;
    while i < chars.len()
        invariant
            i <= chars.len(),
            s@ == old(s)@ + chars@.take(i as int),
        decreases chars.len() - i,
    {
        s.push(chars[i]);
        i += 1;
    }
}

/// Collects the characters of `s` into a vector.
pub fn chars_of(s: &str) -> (v: Vec<char>)
    ensures
        v@ == s@,
{
    let mut v: Vec<char> = Vec::new();
    for c in it: s.chars()
        invariant
            it.seq() == s@,
            v@ == it.seq().take(it.index() as int),
    {
        v.push(c);
    }
    v
}

/// Whether `c` occurs in `s`.
pub fn contains_char(s: &str, c: char) -> (found: bool)
    ensures
        found == s@.contains(c),
{
    let chars = chars_of(s);
    let mut i: usize = 0;
    while i < chars.len()
        invariant
            i <= chars.len(),
            chars@ == s@,
            forall|j: int| 0 <= j < i ==> chars@[j] != c,
        decreases chars.len() - i,
    {
        if chars[i] == c {
            return true;
        }
        i += 1;
    }
    false
}

/// Whether `pattern` stands in `s` at position `at`.
pub open spec fn occurs_at(s: Seq<char>, at: int, pattern: Seq<char>) -> bool {
    0 <= at && at + pattern.len() <= s.len() && s.subrange(at, at + pattern.len()) == pattern
}

/// The rest of `s` from position `from` on, with every occurrence of
/// `pattern` replaced by `with`.  Occurrences are found from left to right
/// and do not overlap.  The empty pattern occurs before every character and
/// at the end.
pub open spec fn replace_from(s: Seq<char>, from: int, pattern: Seq<char>, with: Seq<char>) -> Seq<
    char,
>
    decreases s.len() - from,
{
    if from < 0 || from >= s.len() {
        if pattern.len() == 0 {
            with
        } else {
            Seq::empty()
        }
    } else if pattern.len() == 0 {
        with + seq![s[from]] + replace_from(s, from + 1, pattern, with)
    } else if occurs_at(s, from, pattern) {
        with + replace_from(s, from + pattern.len(), pattern, with)
    } else {
        seq![s[from]] + replace_from(s, from + 1, pattern, with)
    }
}

/// `s` with every occurrence of `pattern` replaced by `with`.
pub open spec fn replace_all(s: Seq<char>, pattern: Seq<char>, with: Seq<char>) -> Seq<char> {
    replace_from(s, 0, pattern, with)
}

/// Replacing a pattern by itself changes nothing.
pub proof fn lemma_replace_by_itself(s: Seq<char>, pattern: Seq<char>)
    ensures
        replace_all(s, pattern, pattern) == s,
{
    lemma_replace_from_by_itself(s, 0, pattern);
}

proof fn lemma_replace_from_by_itself(s: Seq<char>, from: int, pattern: Seq<char>)
    requires
        0 <= from <= s.len(),
    ensures
        replace_from(s, from, pattern, pattern) == s.subrange(from, s.len() as int),
    decreases s.len() - from,
{
    if from < s.len() {
        if pattern.len() > 0 && occurs_at(s, from, pattern) {
            lemma_replace_from_by_itself(s, from + pattern.len(), pattern);
        } else {
            lemma_replace_from_by_itself(s, from + 1, pattern);
        }
    }
}

/// A text in which the pattern, not empty, occurs nowhere stays as it is.
pub proof fn lemma_replace_without_occurrence(s: Seq<char>, pattern: Seq<char>, with: Seq<char>)
    requires
        pattern.len() > 0,
        forall|at: int| 0 <= at < s.len() ==> !occurs_at(s, at, pattern),
    ensures
        replace_all(s, pattern, with) == s,
{
    lemma_replace_from_without_occurrence(s, 0, pattern, with);
}

proof fn lemma_replace_from_without_occurrence(
    s: Seq<char>,
    from: int,
    pattern: Seq<char>,
    with: Seq<char>,
)
    requires
        0 <= from <= s.len(),
        pattern.len() > 0,
        forall|at: int| 0 <= at < s.len() ==> !occurs_at(s, at, pattern),
    ensures
        replace_from(s, from, pattern, with) == s.subrange(from, s.len() as int),
    decreases s.len() - from,
{
    if from < s.len() {
        lemma_replace_from_without_occurrence(s, from + 1, pattern, with);
    }
}

fn occurs(text: &Vec<char>, at: usize, pattern: &Vec<char>) -> (found: bool)
    requires
        at <= text.len(),
    ensures
        found == occurs_at(text@, at as int, pattern@),
{
    if pattern.len() > text.len() - at {
        return false;
    }
    let mut j: usize = 0;
    while j < pattern.len()
        invariant
            j <= pattern.len(),
            at + pattern.len() <= text.len(),
            forall|k: int| 0 <= k < j ==> text@[at + k] == pattern@[k],
        decreases pattern.len() - j,
    {
        if text[at + j] != pattern[j] {
            return false;
        }
        j += 1;
    }
    assert(text@.subrange(at as int, at + pattern.len()) =~= pattern@);
    true
}

/// Replaces every occurrence of `pattern` in `s` by `with`.
pub fn replace(s: &str, pattern: &str, with: &str) -> (replaced: String)
    ensures
        replaced@ == replace_all(s@, pattern@, with@),
{
    let text = chars_of(s);
    let pattern = chars_of(pattern);
    let with = chars_of(with);
    let mut replaced = String::new();
    let mut i: usize = 0;
    while i < text.len()
        invariant
            i <= text.len(),
            replace_from(text@, 0, pattern@, with@) == replaced@ + replace_from(
                text@,
                i as int,
                pattern@,
                with@,
            ),
        decreases text.len() - i,
    {
        if pattern.len() == 0 {
            push_chars(&mut replaced, &with);
            replaced.push(text[i]);
            i += 1;
        } else if occurs(&text, i, &pattern) {
            push_chars(&mut replaced, &with);
            i += pattern.len();
        } else {
            replaced.push(text[i]);
            i += 1;
        }
    }
    if pattern.len() == 0 {
        push_chars(&mut replaced, &with);
    }
    replaced
}

} // verus!
