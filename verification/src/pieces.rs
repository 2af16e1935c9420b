//! Texts in pieces: what lies between the separators of a list or a path.

use vstd::prelude::*;
use vstd::string::StrSliceExecFns;

verus! {

/// The pieces of `s` between its separators, in order. A text without a
/// separator is one piece.
pub open spec fn pieces_of(s: Seq<char>, separator: char) -> Seq<Seq<char>>
    decreases s.len(),
{
    if s.len() == 0 {
        seq![Seq::empty()]
    } else {
        let before = pieces_of(s.drop_last(), separator);
        if s.last() == separator {
            before.push(Seq::empty())
        } else {
            before.drop_last().push(before.last().push(s.last()))
        }
    }
}

/// The pieces of `text` between its separators.
pub fn split_at(text: &str, separator: char) -> (pieces: Vec<String>)
    ensures
        pieces@.len() == pieces_of(text@, separator).len(),
        forall|k: int|
            0 <= k < pieces@.len() ==> (#[trigger] pieces@[k])@ == pieces_of(text@, separator)[k],
{
    let n = text.unicode_len();
    let mut pieces: Vec<String> = Vec::new();
    let mut start: usize = 0;
    let mut i: usize = 0;
    assert(text@.take(0) =~= Seq::<char>::empty());
    assert(text@.subrange(0, 0) =~= Seq::<char>::empty());
    while i < n
        invariant
            start <= i <= n == text@.len(),
            pieces_of(text@.take(i as int), separator).len() == pieces@.len() + 1,
            forall|k: int|
                0 <= k < pieces@.len() ==> (#[trigger] pieces@[k])@ == pieces_of(
                    text@.take(i as int),
                    separator,
                )[k],
            pieces_of(text@.take(i as int), separator).last() == text@.subrange(start as int, i as int),
        decreases n - i,
    {
        let ghost before = pieces_of(text@.take(i as int), separator);
        let c = text.get_char(i);
        proof {
            assert(text@.take(i + 1).drop_last() =~= text@.take(i as int));
            assert(text@.take(i + 1).last() == c);
        }
        if c == separator {
            pieces.push(text.substring_char(start, i).to_owned());
            start = i + 1;
            proof {
                assert(text@.subrange(start as int, start as int) =~= Seq::<char>::empty());
                let now = pieces_of(text@.take(i + 1), separator);
                assert(now == before.push(Seq::empty()));
                assert forall|k: int| 0 <= k < pieces@.len() implies (#[trigger] pieces@[k])@ == now[k] by {
                    assert(now[k] == before[k]);
                }
            }
        } else {
            proof {
                let now = pieces_of(text@.take(i + 1), separator);
                assert(now == before.drop_last().push(before.last().push(c)));
                assert(text@.subrange(start as int, i + 1) =~= text@.subrange(
                    start as int,
                    i as int,
                ).push(c));
                assert forall|k: int| 0 <= k < pieces@.len() implies (#[trigger] pieces@[k])@ == now[k] by {
                    assert(now[k] == before[k]);
                }
            }
        }
        i += 1;
    }
    assert(text@.take(n as int) =~= text@);
    pieces.push(text.substring_char(start, n).to_owned());
    pieces
}

} // verus!
