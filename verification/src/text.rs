//! Splitting of texts at a character.

use vstd::prelude::*;

verus! {

/// `str::split_once` with a character: the text before the first
/// occurrence of the character and the text after it, or nothing where the
/// character does not occur.
#[verifier::external_body]
pub(crate) fn split_once_at<'a>(text: &'a str, mark: char) -> (r: Option<(&'a str, &'a str)>)
    ensures
        match r {
            Some((before, after)) => text@ == before@ + seq![mark] + after@ && !before@.contains(
                mark,
            ),
            None => !text@.contains(mark),
        },
{
    text.split_once(mark)
}

/// What follows the first occurrence of `mark` in a text.
pub open spec fn after_first(text: Seq<char>, mark: char) -> Option<Seq<char>>
    decreases text.len(),
{
    if text.len() == 0 {
        None
    } else if text[0] == mark {
        Some(text.drop_first())
    } else {
        after_first(text.drop_first(), mark)
    }
}

/// The pieces into which the occurrences of `mark` cut a text, in order;
/// a text without the mark is one piece.
pub open spec fn pieces(text: Seq<char>, mark: char) -> Seq<Seq<char>>
    decreases text.len(),
{
    if text.len() == 0 {
        seq![Seq::empty()]
    } else {
        let rest = pieces(text.drop_first(), mark);
        if text[0] == mark {
            seq![Seq::empty()] + rest
        } else {
            seq![seq![text[0]] + rest[0]] + rest.drop_first()
        }
    }
}

/// How a cut at the first mark relates to the whole: a text without the
/// mark has nothing after it and is one piece; a text that is split at its
/// first mark has the second part after it, and its pieces are the first
/// part followed by the pieces of the second.
pub proof fn lemma_split_at_first(text: Seq<char>, mark: char, before: Seq<char>, after: Seq<char>)
    ensures
        !text.contains(mark) ==> after_first(text, mark) is None && pieces(text, mark) == seq![text],
        text == before + seq![mark] + after && !before.contains(mark) ==> after_first(text, mark)
            == Some(after) && pieces(text, mark) == seq![before] + pieces(after, mark),
    decreases text.len(),
{
    if text.len() > 0 {
        let rest = text.drop_first();
        if !text.contains(mark) {
            assert forall|i: int| 0 <= i < rest.len() implies rest[i] != mark by {
                assert(text[i + 1] == rest[i]);
                assert(text.contains(text[i + 1]));
            }
            assert(text.contains(text[0]));
            lemma_split_at_first(rest, mark, before, after);
            assert(seq![text[0]] + rest =~= text);
            assert(pieces(text, mark) =~= seq![text]);
        }
        if text == before + seq![mark] + after && !before.contains(mark) {
            if before.len() == 0 {
                assert(text[0] == mark);
                assert(rest =~= after);
                assert(before =~= Seq::<char>::empty());
            } else {
                assert(text[0] == before[0]);
                assert(before.contains(before[0]));
                let shorter = before.drop_first();
                assert(rest =~= shorter + seq![mark] + after);
                assert forall|i: int| 0 <= i < shorter.len() implies shorter[i] != mark by {
                    assert(before.contains(before[i + 1]));
                }
                lemma_split_at_first(rest, mark, shorter, after);
                assert(seq![text[0]] + shorter =~= before);
                assert(pieces(text, mark) =~= seq![before] + pieces(after, mark));
            }
        }
    } else {
        assert(text =~= Seq::<char>::empty());
        assert(!(text == before + seq![mark] + after)) by {
            assert((before + seq![mark] + after).len() > 0);
        }
    }
}

} // verus!
