//! The notations for syllables and for the environments of sound changes:
//! what both have in common. A grammar reads a text from a position on and
//! gives, where it applies, what it read and the position behind it.

use vstd::prelude::*;

pub mod environment;
pub mod syllable;

verus! {

/// The characters that name no phoneme class: the referent and the word
/// boundary.
pub open spec fn is_class(c: char) -> bool {
    c != '_' && c != '#'
}

/// Reads the character `c` at position `at`.
pub open spec fn spec_char(s: Seq<char>, at: int, c: char) -> Option<int> {
    if 0 <= at < s.len() && s[at] == c {
        Some(at + 1)
    } else {
        None
    }
}

/// Reads a phoneme class: any one character but the referent and the word
/// boundary.
pub open spec fn spec_phoneme_class(s: Seq<char>, at: int) -> Option<(char, int)> {
    if 0 <= at < s.len() && is_class(s[at]) {
        Some((s[at], at + 1))
    } else {
        None
    }
}

/// Reads an optional phoneme class: a phoneme class in round brackets.
pub open spec fn spec_optional_phoneme_class(s: Seq<char>, at: int) -> Option<(char, int)> {
    match spec_char(s, at, '(') {
        Some(inside) => match spec_phoneme_class(s, inside) {
            Some((class, behind)) => match spec_char(s, behind, ')') {
                Some(end) => Some((class, end)),
                None => None,
            },
            None => None,
        },
        None => None,
    }
}

/// Where the longest run of characters that `keep` accepts ends, from
/// position `from` on.
pub open spec fn run_end(s: Seq<char>, from: int, keep: spec_fn(char) -> bool) -> int
    decreases s.len() - from,
{
    if 0 <= from < s.len() && keep(s[from]) {
        run_end(s, from + 1, keep)
    } else {
        from
    }
}

/// The characters of which a literal orthography is made: all but the
/// closing brace.
pub open spec fn in_orthography() -> spec_fn(char) -> bool {
    |c: char| c != '}'
}

/// Reads a literal orthography: one character or more in braces.
pub open spec fn spec_literal_orthography(s: Seq<char>, at: int) -> Option<(Seq<char>, int)> {
    match spec_char(s, at, '{') {
        Some(inside) => {
            let behind = run_end(s, inside, in_orthography());
            if behind > inside {
                match spec_char(s, behind, '}') {
                    Some(end) => Some((s.subrange(inside, behind), end)),
                    None => None,
                }
            } else {
                None
            }
        },
        None => None,
    }
}

/// A run ends inside the text, at or behind its start; all of it is
/// accepted, and what follows it is not.
pub proof fn law_run_is_longest(s: Seq<char>, from: int, keep: spec_fn(char) -> bool)
    requires
        0 <= from <= s.len(),
    ensures
        from <= run_end(s, from, keep) <= s.len(),
        forall|i: int| from <= i < run_end(s, from, keep) ==> keep(#[trigger] s[i]),
        run_end(s, from, keep) < s.len() ==> !keep(s[run_end(s, from, keep)]),
    decreases s.len() - from,
{
    if from < s.len() && keep(s[from]) {
        law_run_is_longest(s, from + 1, keep);
    }
}

/// A run that is accepted up to `upto` ends where the run from `upto` ends.
pub proof fn lemma_run_continues(s: Seq<char>, from: int, upto: int, keep: spec_fn(char) -> bool)
    requires
        0 <= from <= upto <= s.len(),
        forall|i: int| from <= i < upto ==> keep(#[trigger] s[i]),
    ensures
        run_end(s, from, keep) == run_end(s, upto, keep),
    decreases upto - from,
{
    if from < upto {
        assert(keep(s[from]));
        lemma_run_continues(s, from + 1, upto, keep);
    }
}

/// Hands a character back. A character that was taken out of a list or a
/// pair is known as a character, with the range of one, only once it has
/// passed through a function.
pub fn known(c: char) -> (same: char)
    ensures
        same == c,
{
    c
}

/// Reads the character `c` at position `at`.
pub fn read_char(input: &Vec<char>, at: usize, c: char) -> (read: Option<usize>)
    ensures
        match read {
            Some(next) => spec_char(input@, at as int, c) == Some(next as int),
            None => spec_char(input@, at as int, c) is None,
        },
{
    if at < input.len() && input[at] == c {
        Some(at + 1)
    } else {
        None
    }
}

/// Reads a phoneme class: any one character but the referent and the word
/// boundary.
pub fn phoneme_class(input: &Vec<char>, at: usize) -> (read: Option<(char, usize)>)
    ensures
        match read {
            Some((class, next)) => spec_phoneme_class(input@, at as int) == Some(
                (class, next as int),
            ),
            None => spec_phoneme_class(input@, at as int) is None,
        },
{
    if at < input.len() && input[at] != '_' && input[at] != '#' {
        Some((input[at], at + 1))
    } else {
        None
    }
}

/// Reads an optional phoneme class: a phoneme class in round brackets.
pub fn optional_phoneme_class(input: &Vec<char>, at: usize) -> (read: Option<(char, usize)>)
    ensures
        match read {
            Some((class, next)) => spec_optional_phoneme_class(input@, at as int) == Some(
                (class, next as int),
            ),
            None => spec_optional_phoneme_class(input@, at as int) is None,
        },
{
    match read_char(input, at, '(') {
        Some(inside) => match phoneme_class(input, inside) {
            Some((class, behind)) => match read_char(input, behind, ')') {
                Some(end) => Some((class, end)),
                None => None,
            },
            None => None,
        },
        None => None,
    }
}

/// The text between two positions.
pub fn text_between(input: &Vec<char>, from: usize, to: usize) -> (text: String)
    requires
        from <= to <= input.len(),
    ensures
        text@ == input@.subrange(from as int, to as int),
{
    let mut text = String::new();
    let mut i: usize = from;
    while i < to
        invariant
            from <= i <= to <= input.len(),
            text@ == input@.subrange(from as int, i as int),
        decreases to - i,
    {
        text.push(input[i]);
        assert(text@ =~= input@.subrange(from as int, i as int + 1));
        i += 1;
    }
    text
}

/// Reads a literal orthography: one character or more in braces.
pub fn literal_orthography(input: &Vec<char>, at: usize) -> (read: Option<(String, usize)>)
    ensures
        match read {
            Some((text, next)) => spec_literal_orthography(input@, at as int) == Some(
                (text@, next as int),
            ),
            None => spec_literal_orthography(input@, at as int) is None,
        },
{
    match read_char(input, at, '{') {
        Some(inside) => {
            let mut behind: usize = inside;
            while behind < input.len() && input[behind] != '}'
                invariant
                    inside <= behind <= input.len(),
                    forall|i: int| inside <= i < behind ==> in_orthography()(#[trigger] input@[i]),
                decreases input.len() - behind,
            {
                behind += 1;
            }
            proof {
                lemma_run_continues(input@, inside as int, behind as int, in_orthography());
            }
            if behind > inside {
                match read_char(input, behind, '}') {
                    Some(end) => Some((text_between(input, inside, behind), end)),
                    None => None,
                }
            } else {
                None
            }
        },
        None => None,
    }
}

} // verus!
