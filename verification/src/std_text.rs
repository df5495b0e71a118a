//! What the standard library's text functions do.

use vstd::prelude::*;

verus! {

/// The character has the Unicode property White_Space.
pub open spec fn white_space(c: char) -> bool {
    let n = c as u32;
    ||| 0x09 <= n <= 0x0d
    ||| n == 0x20
    ||| n == 0x85
    ||| n == 0xa0
    ||| n == 0x1680
    ||| 0x2000 <= n <= 0x200a
    ||| n == 0x2028
    ||| n == 0x2029
    ||| n == 0x202f
    ||| n == 0x205f
    ||| n == 0x3000
}

/// `s` without white space at its end.
pub open spec fn without_trailing_space(s: Seq<char>) -> Seq<char>
    decreases s.len(),
{
    if s.len() > 0 && white_space(s.last()) {
        without_trailing_space(s.drop_last())
    } else {
        s
    }
}

/// `s` without white space at its start.
pub open spec fn without_leading_space(s: Seq<char>) -> Seq<char>
    decreases s.len(),
{
    if s.len() > 0 && white_space(s[0]) {
        without_leading_space(s.skip(1))
    } else {
        s
    }
}

/// `s` without white space at either end.
pub open spec fn trimmed(s: Seq<char>) -> Seq<char> {
    without_trailing_space(without_leading_space(s))
}

/// `s` in lower case.
pub uninterp spec fn lowercase(s: Seq<char>) -> Seq<char>;

/// `s` in upper case.
pub uninterp spec fn uppercase(s: Seq<char>) -> Seq<char>;

pub open spec fn is_ascii_char(c: char) -> bool {
    (c as u32) < 128
}

/// All characters are ASCII.
pub open spec fn all_ascii(s: Seq<char>) -> bool {
    forall|i: int| 0 <= i < s.len() ==> is_ascii_char(#[trigger] s[i])
}

/// An ASCII character in lower case.
pub open spec fn ascii_lower(c: char) -> char {
    if 'A' <= c <= 'Z' {
        (c as u32 + 32) as char
    } else {
        c
    }
}

/// An ASCII character in upper case.
pub open spec fn ascii_upper(c: char) -> char {
    if 'a' <= c <= 'z' {
        (c as u32 - 32) as char
    } else {
        c
    }
}

/// `String::push` appends one character.
pub assume_specification[ String::push ](s: &mut String, c: char)
    ensures
        final(s)@ == old(s)@.push(c),
;

/// `String::pop` removes the last character and hands it out, if there is one.
pub assume_specification[ String::pop ](s: &mut String) -> (r: Option<char>)
    ensures
        old(s)@.len() == 0 ==> r is None && final(s)@ == old(s)@,
        old(s)@.len() > 0 ==> r == Some(old(s)@.last()) && final(s)@ == old(s)@.drop_last(),
;

/// `String::clear` removes all characters.
pub assume_specification[ String::clear ](s: &mut String)
    ensures
        final(s)@ == Seq::<char>::empty(),
;

/// `char::is_whitespace` tells whether the character has the property
/// White_Space.
pub assume_specification[ char::is_whitespace ](c: char) -> (r: bool)
    ensures
        r == white_space(c),
;

/// A visible ASCII character.
pub open spec fn is_graphic(c: char) -> bool {
    '!' <= c <= '~'
}

/// `str::trim` leaves out characters with the property White_Space at both
/// ends.
pub assume_specification[ str::trim ](s: &str) -> (r: &str)
    ensures
        r@ == trimmed(s@),
;

/// `str::to_lowercase` maps each character to lower case. ASCII text is mapped
/// character by character; for other text the result is left unsaid.
pub assume_specification[ str::to_lowercase ](s: &str) -> (r: String)
    ensures
        r@ == lowercase(s@),
        all_ascii(s@) ==> r@ == s@.map_values(|c: char| ascii_lower(c)),
;

/// `str::to_uppercase` maps each character to upper case. ASCII text is mapped
/// character by character; for other text the result is left unsaid.
pub assume_specification[ str::to_uppercase ](s: &str) -> (r: String)
    ensures
        r@ == uppercase(s@),
        all_ascii(s@) ==> r@ == s@.map_values(|c: char| ascii_upper(c)),
;

/// Text that starts and ends with a visible ASCII character is trimmed already.
pub proof fn lemma_graphic_ends_stay(s: Seq<char>)
    requires
        s.len() > 0,
        is_graphic(s[0]),
        is_graphic(s.last()),
    ensures
        trimmed(s) == s,
{
}

/// `trimmed` takes away white space at both ends and nothing else: what is left
/// is a piece of the text with only white space around it, and it neither starts
/// nor ends with white space.
pub proof fn law_trimming_takes_only_space(s: Seq<char>)
    ensures
        ({
            let t = trimmed(s);
            &&& exists|i: int|
                0 <= i && i + t.len() <= s.len() && t == #[trigger] s.subrange(i, i + t.len()) && (
                forall|j: int| 0 <= j < i ==> white_space(#[trigger] s[j])) && (forall|j: int|
                    i + t.len() <= j < s.len() ==> white_space(#[trigger] s[j]))
            &&& t.len() > 0 ==> !white_space(t[0]) && !white_space(t.last())
        }),
{
    let u = without_leading_space(s);
    let t = trimmed(s);
    lemma_leading(s);
    lemma_trailing(u);
    let i = s.len() - u.len();
    assert(t =~= s.subrange(i, i + t.len()));
    assert forall|j: int| i + t.len() <= j < s.len() implies white_space(#[trigger] s[j]) by {
        assert(u[j - i] == s[j]);
    }
    if t.len() > 0 {
        assert(t[0] == u[0]);
    }
}

proof fn lemma_leading(s: Seq<char>)
    ensures
        ({
            let u = without_leading_space(s);
            &&& u.len() <= s.len()
            &&& u == s.skip(s.len() - u.len())
            &&& forall|j: int| 0 <= j < s.len() - u.len() ==> white_space(#[trigger] s[j])
            &&& u.len() > 0 ==> !white_space(u[0])
        }),
    decreases s.len(),
{
    let u = without_leading_space(s);
    if s.len() > 0 && white_space(s[0]) {
        let rest = s.skip(1);
        lemma_leading(rest);
        assert(u =~= s.skip(s.len() - u.len()));
        assert forall|j: int| 0 <= j < s.len() - u.len() implies white_space(#[trigger] s[j]) by {
            if j > 0 {
                assert(rest[j - 1] == s[j]);
            }
        }
    } else {
        assert(s.skip(0) =~= s);
    }
}

pub proof fn lemma_trailing(s: Seq<char>)
    ensures
        ({
            let u = without_trailing_space(s);
            &&& u.len() <= s.len()
            &&& u == s.take(u.len() as int)
            &&& forall|j: int| u.len() <= j < s.len() ==> white_space(#[trigger] s[j])
            &&& u.len() > 0 ==> !white_space(u.last())
        }),
    decreases s.len(),
{
    let u = without_trailing_space(s);
    if s.len() > 0 && white_space(s.last()) {
        let rest = s.drop_last();
        lemma_trailing(rest);
        assert(u =~= s.take(u.len() as int));
        assert forall|j: int| u.len() <= j < s.len() implies white_space(#[trigger] s[j]) by {
            if j < rest.len() {
                assert(rest[j] == s[j]);
            }
        }
    } else {
        assert(s.take(s.len() as int) =~= s);
    }
}

} // verus!
