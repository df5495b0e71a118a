//! Chat input: one line, edited at its end.

use vstd::prelude::*;

use crate::std_text::{lemma_trailing, trimmed, white_space, without_trailing_space};

verus! {

#[derive(Debug, Clone)]
pub struct ChatInput {
    buffer: String,
}

impl View for ChatInput {
    type V = Seq<char>;

    closed spec fn view(&self) -> Seq<char> {
        self.buffer@
    }
}

/// `s` without its final run of characters that are not white space.
pub open spec fn without_trailing_word(s: Seq<char>) -> Seq<char>
    decreases s.len(),
{
    if s.len() > 0 && !white_space(s.last()) {
        without_trailing_word(s.drop_last())
    } else {
        s
    }
}

impl ChatInput {
    pub fn new() -> (r: Self)
        ensures
            r@ == Seq::<char>::empty(),
    {
        ChatInput { buffer: String::new() }
    }

    pub fn append(&mut self, c: char)
        ensures
            final(self)@ == old(self)@.push(c),
    {
        self.buffer.push(c);
    }

    /// Remove the last character. Does nothing on an empty line.
    pub fn backspace(&mut self)
        ensures
            final(self)@ == if old(self)@.len() == 0 {
                old(self)@
            } else {
                old(self)@.drop_last()
            },
    {
        self.buffer.pop();
    }

    /// Delete the trailing word: trailing white space, then the final run of
    /// other characters.
    pub fn word_delete(&mut self)
        ensures
            final(self)@ == word_deleted(old(self)@),
    {
        self.pop_while(true);
        self.pop_while(false);
    }

    /// Remove characters from the end as long as they are white space, or as
    /// long as they are not.
    fn pop_while(&mut self, space: bool)
        ensures
            final(self)@ == if space {
                without_trailing_space(old(self)@)
            } else {
                without_trailing_word(old(self)@)
            },
    {
        let mut done = false;
        while !done
            invariant
                !done ==> (if space {
                    without_trailing_space(self@)
                } else {
                    without_trailing_word(self@)
                }) == (if space {
                    without_trailing_space(old(self)@)
                } else {
                    without_trailing_word(old(self)@)
                }),
                done ==> self@ == if space {
                    without_trailing_space(old(self)@)
                } else {
                    without_trailing_word(old(self)@)
                },
            decreases self@.len() + if done {
                0int
            } else {
                1int
            },
        {
            let ghost before = self@;
            match self.buffer.pop() {
                Some(c) => {
                    if c.is_whitespace() != space {
                        self.buffer.push(c);
                        assert(self@ =~= before);
                        done = true;
                    }
                }
                None => {
                    done = true;
                }
            }
        }
    }

    /// Take the text without white space around it, leaving the line empty.
    /// `None` if nothing but white space was there.
    pub fn take(&mut self) -> (r: Option<String>)
        ensures
            final(self)@ == Seq::<char>::empty(),
            match r {
                Some(text) => text@ == trimmed(old(self)@) && text@.len() > 0,
                None => trimmed(old(self)@).len() == 0,
            },
    {
        let trimmed = self.buffer.trim().to_owned();
        self.buffer.clear();
        if trimmed.as_str().is_empty() {
            None
        } else {
            Some(trimmed)
        }
    }

    /// Drop the whole line.
    pub fn clear(&mut self)
        ensures
            final(self)@ == Seq::<char>::empty(),
    {
        self.buffer.clear();
    }

    pub fn as_str(&self) -> (r: &str)
        ensures
            r@ == self@,
    {
        self.buffer.as_str()
    }

    pub fn is_empty(&self) -> (r: bool)
        ensures
            r == (self@.len() == 0),
    {
        self.buffer.as_str().is_empty()
    }
}

impl Default for ChatInput {
    fn default() -> (r: Self)
        ensures
            r@ == Seq::<char>::empty(),
    {
        ChatInput::new()
    }
}

/// A typed character is undone by a backspace.
pub proof fn law_backspace_undoes_append(s: Seq<char>, c: char)
    ensures
        s.push(c).drop_last() == s,
{
    assert(s.push(c).drop_last() =~= s);
}

/// Deleting the last word takes away white space at the end and the run of other
/// characters before it, and nothing else: what is left is the start of the line,
/// and is empty or ends with white space.
pub proof fn law_last_word_is_deleted(s: Seq<char>)
    ensures
        ({
            let left = word_deleted(s);
            let mid = without_trailing_space(s);
            &&& left.len() <= mid.len() <= s.len()
            &&& left == s.take(left.len() as int)
            &&& forall|j: int| left.len() <= j < mid.len() ==> !white_space(#[trigger] s[j])
            &&& forall|j: int| mid.len() <= j < s.len() ==> white_space(#[trigger] s[j])
            &&& left.len() > 0 ==> white_space(left.last())
            &&& mid.len() > 0 ==> left.len() < mid.len()
        }),
{
    let mid = without_trailing_space(s);
    let left = without_trailing_word(mid);
    lemma_trailing(s);
    lemma_trailing_word(mid);
    assert(left =~= s.take(left.len() as int));
    assert forall|j: int| left.len() <= j < mid.len() implies !white_space(#[trigger] s[j]) by {
        assert(mid[j] == s[j]);
    }
}

proof fn lemma_trailing_word(s: Seq<char>)
    ensures
        ({
            let u = without_trailing_word(s);
            &&& u.len() <= s.len()
            &&& u == s.take(u.len() as int)
            &&& forall|j: int| u.len() <= j < s.len() ==> !white_space(#[trigger] s[j])
            &&& u.len() > 0 ==> white_space(u.last())
            &&& s.len() > 0 && !white_space(s.last()) ==> u.len() < s.len()
        }),
    decreases s.len(),
{
    let u = without_trailing_word(s);
    if s.len() > 0 && !white_space(s.last()) {
        let rest = s.drop_last();
        lemma_trailing_word(rest);
        assert(u =~= s.take(u.len() as int));
        assert forall|j: int| u.len() <= j < s.len() implies !white_space(#[trigger] s[j]) by {
            if j < rest.len() {
                assert(rest[j] == s[j]);
            }
        }
    } else {
        assert(s.take(s.len() as int) =~= s);
    }
}

/// The line after the last word was deleted.
pub open spec fn word_deleted(s: Seq<char>) -> Seq<char> {
    without_trailing_word(without_trailing_space(s))
}

} // verus!
