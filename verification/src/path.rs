//! Paths and the names in them: a path is split at its slashes, and a name
//! matches an entry without regard to the case of ASCII letters.

use vstd::prelude::*;

verus! {

/// The character `c` with an ASCII capital replaced by its small letter.
pub open spec fn spec_fold_case(c: char) -> char {
    if 'A' <= c <= 'Z' {
        ((c as u32) + 32) as char
    } else {
        c
    }
}

/// Whether `a` and `b` are the same name but for the case of ASCII letters.
#[verifier::opaque]
pub open spec fn names_match(a: Seq<char>, b: Seq<char>) -> bool {
    a.len() == b.len() && forall|i: int| 0 <= i < a.len() ==> spec_fold_case(a[i]) == spec_fold_case(
        b[i],
    )
}

/// The words of the part of `text` from character `i` on, where `current`
/// holds the characters of the word that character `i` continues. Words are
/// the runs of characters between separators.
pub open spec fn spec_split(text: Seq<char>, separator: char, i: nat, current: Seq<char>) -> Seq<
    Seq<char>,
>
    decreases text.len() - i,
{
    if i >= text.len() {
        if current.len() > 0 {
            seq![current]
        } else {
            Seq::empty()
        }
    } else if text[i as int] == separator {
        if current.len() > 0 {
            seq![current] + spec_split(text, separator, i + 1, Seq::empty())
        } else {
            spec_split(text, separator, i + 1, Seq::empty())
        }
    } else {
        spec_split(text, separator, i + 1, current.push(text[i as int]))
    }
}

/// The words of `text`: the runs of characters between its separators, in
/// order, without the empty ones. A separator at the start or the end of the
/// text, or one that follows another, makes no word.
pub open spec fn spec_words(text: Seq<char>, separator: char) -> Seq<Seq<char>> {
    spec_split(text, separator, 0, Seq::empty())
}

/// The components of `path`: its words between slashes.
pub open spec fn spec_components(path: Seq<char>) -> Seq<Seq<char>> {
    spec_words(path, '/')
}

/// The sequences that the vectors of `v` hold.
pub open spec fn deep(v: Seq<Vec<char>>) -> Seq<Seq<char>> {
    Seq::new(v.len(), |i: int| v[i]@)
}

/// The character `c` with an ASCII capital replaced by its small letter.
pub fn fold_case(c: char) -> (r: char)
    ensures
        r == spec_fold_case(c),
{
    if 'A' <= c && c <= 'Z' {
        ((c as u8) + 32) as char
    } else {
        c
    }
}

/// Whether `a` and `b` are the same name but for the case of ASCII letters.
pub fn same_name(a: &Vec<char>, b: &Vec<char>) -> (r: bool)
    ensures
        r == names_match(a@, b@),
{
    if a.len() != b.len() {
        proof {
            reveal(names_match);
        }
        return false;
    }
    let mut i: usize = 0;
    while i < a.len()
        invariant
            i <= a.len() == b.len(),
            forall|j: int| 0 <= j < i ==> spec_fold_case(a@[j]) == spec_fold_case(b@[j]),
        decreases a.len() - i,
    {
        if fold_case(a[i]) != fold_case(b[i]) {
            proof {
                reveal(names_match);
            }
            return false;
        }
        i += 1;
    }
    proof {
        reveal(names_match);
    }
    true
}

/// The characters of `s`.
pub fn chars_of(s: &str) -> (v: Vec<char>)
    ensures
        v@ == s@,
{
    let mut v: Vec<char> = Vec::new();
    for c in it: s.chars()
        invariant
            it.seq() == s@,
            v@ == it.seq().take(it.index()),
    {
        v.push(c);
    }
    v
}

/// The words of `text` between the characters `separator`, in order.
pub fn split(text: &str, separator: char) -> (parts: Vec<Vec<char>>)
    ensures
        deep(parts@) == spec_words(text@, separator),
        forall|i: int| 0 <= i < parts.len() ==> parts@[i]@.len() > 0,
{
    let chars = chars_of(text);
    split_chars(&chars, separator)
}

/// The words of `chars` between the characters `separator`, in order.
pub fn split_chars(chars: &Vec<char>, separator: char) -> (parts: Vec<Vec<char>>)
    ensures
        deep(parts@) == spec_words(chars@, separator),
        forall|i: int| 0 <= i < parts.len() ==> parts@[i]@.len() > 0,
{
    let mut parts: Vec<Vec<char>> = Vec::new();
    let mut current: Vec<char> = Vec::new();
    let mut i: usize = 0;
    proof {
        assert(deep(parts@) + spec_split(chars@, separator, 0, current@) =~= spec_split(
            chars@,
            separator,
            0,
            current@,
        ));
        assert(current@ =~= Seq::<char>::empty());
    }
    while i < chars.len()
        invariant
            i <= chars.len(),
            forall|j: int| 0 <= j < parts.len() ==> parts@[j]@.len() > 0,
            spec_words(chars@, separator) == deep(parts@) + spec_split(
                chars@,
                separator,
                i as nat,
                current@,
            ),
        decreases chars.len() - i,
    {
        let c = chars[i];
        if c == separator {
            if current.len() > 0 {
                proof {
                    let rest = spec_split(chars@, separator, (i + 1) as nat, Seq::empty());
                    assert(deep(parts@.push(current)) =~= deep(parts@).push(current@));
                    assert(deep(parts@) + (seq![current@] + rest) =~= deep(parts@).push(current@)
                        + rest);
                }
                parts.push(current);
                current = Vec::new();
            }
            assert(current@ =~= Seq::<char>::empty());
        } else {
            current.push(c);
        }
        i += 1;
    }
    if current.len() > 0 {
        proof {
            assert(deep(parts@.push(current)) =~= deep(parts@).push(current@));
            assert(deep(parts@) + seq![current@] =~= deep(parts@).push(current@));
        }
        parts.push(current);
    } else {
        assert(deep(parts@) + Seq::<Seq<char>>::empty() =~= deep(parts@));
    }
    parts
}

/// The components of `path`, in order.
pub fn components(path: &str) -> (parts: Vec<Vec<char>>)
    ensures
        deep(parts@) == spec_components(path@),
        forall|i: int| 0 <= i < parts.len() ==> parts@[i]@.len() > 0,
{
    split(path, '/')
}

} // verus!
