//! The user's answer to whether an output file may be overwritten.

use vstd::prelude::*;

verus! {

/// Whether the character is white space, as Unicode lists it.
pub open spec fn is_space(c: char) -> bool {
    ||| '\u{9}' <= c <= '\u{d}'
    ||| c == ' '
    ||| c == '\u{85}'
    ||| c == '\u{a0}'
    ||| c == '\u{1680}'
    ||| '\u{2000}' <= c <= '\u{200a}'
    ||| c == '\u{2028}'
    ||| c == '\u{2029}'
    ||| c == '\u{202f}'
    ||| c == '\u{205f}'
    ||| c == '\u{3000}'
}

/// Whether the character is the letter y, small or capital.
pub open spec fn is_yes(c: char) -> bool {
    c == 'y' || c == 'Y'
}

/// Whether the first `upto` characters are all white space.
pub open spec fn blank_upto(answer: Seq<char>, upto: int) -> bool {
    forall|at: int| 0 <= at < upto ==> is_space(#[trigger] answer[at])
}

/// Whether the first `upto` characters are one letter y and, around it,
/// white space only.
pub open spec fn yes_upto(answer: Seq<char>, upto: int) -> bool {
    exists|at: int|
        {
            &&& 0 <= at < upto
            &&& is_yes(#[trigger] answer[at])
            &&& forall|other: int|
                0 <= other < upto && other != at ==> is_space(#[trigger] answer[other])
        }
}

/// Whether the answer agrees to overwriting: it is the single letter y,
/// small or capital, with nothing but white space around it.
pub open spec fn agrees(answer: Seq<char>) -> bool {
    yes_upto(answer, answer.len() as int)
}

/// Whether the character is white space.
pub fn is_whitespace(c: char) -> (space: bool)
    ensures
        space == is_space(c),
{
    ('\u{9}' <= c && c <= '\u{d}') || c == ' ' || c == '\u{85}' || c == '\u{a0}' || c == '\u{1680}'
        || ('\u{2000}' <= c && c <= '\u{200a}') || c == '\u{2028}' || c == '\u{2029}' || c
        == '\u{202f}' || c == '\u{205f}' || c == '\u{3000}'
}

/// Whether the user's answer agrees to overwriting the output file.
pub fn confirms_overwrite(answer: &str) -> (agreed: bool)
    ensures
        agreed == agrees(answer@),
{
    let mut yes = false;
    for c in it: answer.chars()
        invariant
            it.seq() == answer@,
            yes == yes_upto(answer@, it.index() as int),
            !yes ==> blank_upto(answer@, it.index() as int),
    {
        let ghost at = it.index() as int;
        if is_whitespace(c) {
            proof {
                if yes {
                    let found = choose|found: int|
                        {
                            &&& 0 <= found < at
                            &&& is_yes(#[trigger] answer@[found])
                            &&& forall|other: int|
                                0 <= other < at && other != found ==> is_space(
                                    #[trigger] answer@[other],
                                )
                        };
                    assert(is_yes(answer@[found]));
                } else if yes_upto(answer@, at + 1) {
                    assert(false);
                }
            }
        } else if !yes && (c == 'y' || c == 'Y') {
            proof {
                assert(is_yes(answer@[at]));
            }
            yes = true;
        } else {
            proof {
                lemma_spoiled(answer@, at);
            }
            return false;
        }
    }
    yes
}

/// Once a character that is no white space follows a letter y or is no
/// letter y, nothing that comes after makes the answer agree.
proof fn lemma_spoiled(answer: Seq<char>, at: int)
    requires
        0 <= at < answer.len(),
        !is_space(answer[at]),
        yes_upto(answer, at) || !is_yes(answer[at]),
        !yes_upto(answer, at) ==> blank_upto(answer, at),
    ensures
        !agrees(answer),
{
    if agrees(answer) {
        let found = choose|found: int|
            {
                &&& 0 <= found < answer.len()
                &&& is_yes(#[trigger] answer[found])
                &&& forall|other: int|
                    0 <= other < answer.len() && other != found ==> is_space(
                        #[trigger] answer[other],
                    )
            };
        assert(found == at);
        if yes_upto(answer, at) {
            let first = choose|first: int|
                {
                    &&& 0 <= first < at
                    &&& is_yes(#[trigger] answer[first])
                    &&& forall|other: int|
                        0 <= other < at && other != first ==> is_space(#[trigger] answer[other])
                };
            assert(is_space(answer[first]));
        }
    }
}

} // verus!
