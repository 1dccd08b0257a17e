//! Questions to the user that are answered with yes or no.

use crate::text::{to_chars, trim, trim_spec};
use vstd::prelude::*;

verus! {

/// The answer that is fixed beforehand: yes where everything is
/// confirmed, else no where everything is refused, else none.
pub fn predicate(yes: bool, no: bool) -> (answer: Option<bool>)
    ensures
        answer == (if yes {
            Some(true)
        } else if no {
            Some(false)
        } else {
            None
        }),
{
    if yes {
        Some(true)
    } else if no {
        Some(false)
    } else {
        None
    }
}

/// The letter that is shown for an answer that was fixed beforehand.
pub fn get_text(value: bool) -> (letter: u8)
    ensures
        letter == (if value {
            'Y' as u8
        } else {
            'N' as u8
        }),
{
    if value {
        'Y' as u8
    } else {
        'N' as u8
    }
}

/// What follows the question: the two answers, the default in upper case.
pub fn choices(default: bool) -> (text: &'static str)
    ensures
        text@ == (if default {
            "(Y/n) "@
        } else {
            "(y/N) "@
        }),
{
    if default {
        "(Y/n) "
    } else {
        "(y/N) "
    }
}

/// What a line of input answers: `y` or `Y` is yes, `n` or `N` is no, an
/// empty line is the default; white space around the answer does not
/// count. Anything else is no answer.
pub open spec fn answer_of(line: Seq<char>, default: bool) -> Option<bool> {
    let t = trim_spec(line);
    if t == seq!['y'] || t == seq!['Y'] {
        Some(true)
    } else if t == seq!['n'] || t == seq!['N'] {
        Some(false)
    } else if t.len() == 0 {
        Some(default)
    } else {
        None
    }
}

/// What the line `line` answers; `None` if the question has to be asked
/// again.
pub fn read_answer(line: &str, default: bool) -> (answer: Option<bool>)
    ensures
        answer == answer_of(line@, default),
{
    let chars = to_chars(line);
    let t = trim(&chars);
    if t.len() == 0 {
        Some(default)
    } else if t.len() == 1 {
        let c = t[0];
        assert(t@ =~= seq![c]);
        if c == 'y' || c == 'Y' {
            Some(true)
        } else if c == 'n' || c == 'N' {
            assert(seq![c] != seq!['y'] && seq![c] != seq!['Y']) by {
                assert(seq![c][0] == c);
                assert(seq!['y'][0] == 'y');
                assert(seq!['Y'][0] == 'Y');
            }
            Some(false)
        } else {
            assert(answer_of(line@, default) is None) by {
                assert(seq![c][0] == c);
                assert(seq!['y'][0] == 'y');
                assert(seq!['Y'][0] == 'Y');
                assert(seq!['n'][0] == 'n');
                assert(seq!['N'][0] == 'N');
            }
            None
        }
    } else {
        assert(seq!['y'].len() == 1 && seq!['Y'].len() == 1 && seq!['n'].len() == 1 && seq![
            'N',
        ].len() == 1);
        None
    }
}

/// The answer to a question: the one that was fixed beforehand, if there
/// is one, else what the line `line` answers. `None` means that the
/// question has to be asked again.
pub fn confirm(decided: Option<bool>, line: &str, default: bool) -> (answer: Option<bool>)
    ensures
        answer == (match decided {
            Some(value) => Some(value),
            None => answer_of(line@, default),
        }),
{
    match decided {
        Some(value) => Some(value),
        None => read_answer(line, default),
    }
}

} // verus!
