//! Text: the characters that bytes stand for, and text on one line.

use vstd::prelude::*;
use vstd::std_specs::iter::IteratorSpec;

verus! {

/// The characters that stand for the bytes of `s`, each byte taken as the scalar of the
/// same number.
pub open spec fn chars_of(s: Seq<u8>) -> Seq<char> {
    Seq::new(s.len(), |i: int| s[i] as char)
}

/// `String::push`: appends the character `c` to `s` and leaves the rest of `s` as it was.
#[verifier::external_body]
pub(crate) fn push_char(s: &mut String, c: char)
    ensures
        final(s)@ == old(s)@.push(c),
{
    s.push(c)
}

/// What stands for a character in text on one line: a backslash and `n` for a newline,
/// and the character itself otherwise.
pub open spec fn on_one_line(c: char) -> Seq<char> {
    if c == '\n' {
        seq!['\\', 'n']
    } else {
        seq![c]
    }
}

/// The text `text` on one line: each newline is written as a backslash and `n`.
pub open spec fn one_line(text: Seq<char>) -> Seq<char>
    decreases text.len(),
{
    if text.len() == 0 {
        Seq::empty()
    } else {
        on_one_line(text[0]) + one_line(text.drop_first())
    }
}

/// Text on one line holds no newline.
pub proof fn lemma_one_line(text: Seq<char>)
    ensures
        !one_line(text).contains('\n'),
    decreases text.len(),
{
    if text.len() > 0 {
        lemma_one_line(text.drop_first());
        let head = on_one_line(text[0]);
        let tail = one_line(text.drop_first());
        if (head + tail).contains('\n') {
            let i = choose|i: int| 0 <= i < (head + tail).len() && (head + tail)[i] == '\n';
            if i >= head.len() {
                assert(tail[i - head.len()] == '\n');
            }
        }
    }
}

/// The text of `s` on one line.
pub fn to_one_line(s: &String) -> (line: String)
    ensures
        line@ == one_line(s@),
{
    broadcast use vstd::string::group_string_axioms;

    let mut line = String::new();
    let mut rest = s.as_str().chars();
    loop
        invariant
            rest.obeys_prophetic_iter_laws(),
            rest.decrease() is Some,
            line@ + one_line(rest.remaining()) == one_line(s@),
        decreases rest.decrease()->0,
    {
        match rest.next() {
            None => {
                return line;
            },
            Some(c) => {
                if c == '\n' {
                    push_char(&mut line, '\\');
                    push_char(&mut line, 'n');
                } else {
                    push_char(&mut line, c);
                }
            },
        }
    }
}

} // verus!
