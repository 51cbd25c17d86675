use vstd::prelude::*;
use vstd::string::StrSliceExecFns;
use crate::position::Color;

verus! {

/// The word that is being read, as a list of one word, where read so far it
/// is not empty.
pub open spec fn finished(current: Seq<char>) -> Seq<Seq<char>> {
    if current.len() > 0 {
        seq![current]
    } else {
        Seq::empty()
    }
}

/// The words of `text`, which blanks part, after the characters `current`
/// of a word have been read already.
pub open spec fn words_after(text: Seq<char>, current: Seq<char>) -> Seq<Seq<char>>
    decreases text.len(),
{
    if text.len() == 0 {
        finished(current)
    } else if text[0] == ' ' {
        finished(current) + words_after(text.skip(1), Seq::empty())
    } else {
        words_after(text.skip(1), current.push(text[0]))
    }
}

/// The words of a text: its longest runs of characters that are no blanks.
pub open spec fn words(text: Seq<char>) -> Seq<Seq<char>> {
    words_after(text, Seq::empty())
}

/// The moves of a game as the server lists them: the words of the text.
pub fn split_moves(moves: &str) -> (r: Vec<String>)
    ensures
        r@.len() == words(moves@).len(),
        forall|i: int| 0 <= i < r@.len() ==> r@[i]@ == words(moves@)[i],
{
    let n = moves.unicode_len();
    let mut out: Vec<String> = Vec::new();
    let ghost mut done: Seq<Seq<char>> = Seq::empty();
    let mut start: usize = 0;
    let mut i: usize = 0;
    proof {
        assert(moves@.skip(0) =~= moves@);
        assert(moves@.subrange(0, 0) =~= Seq::<char>::empty());
        assert(done + words(moves@) =~= words(moves@));
    }
    while i < n
        invariant
            n == moves@.len(),
            start <= i <= n,
            out@.len() == done.len(),
            forall|k: int| 0 <= k < out@.len() ==> out@[k]@ == done[k],
            done + words_after(moves@.skip(i as int), moves@.subrange(start as int, i as int))
                == words(moves@),
        decreases n - i,
    {
        let ghost rest = moves@.skip(i as int);
        let ghost current = moves@.subrange(start as int, i as int);
        proof {
            assert(rest[0] == moves@[i as int]);
            assert(rest.skip(1) =~= moves@.skip(i + 1));
        }
        if moves.get_char(i) == ' ' {
            if i > start {
                out.push(moves.substring_char(start, i).to_owned());
                proof {
                    done = done.push(current);
                }
            }
            proof {
                assert(moves@.subrange(i + 1, i + 1) =~= Seq::<char>::empty());
                assert(done + words_after(moves@.skip(i + 1), Seq::<char>::empty()) =~= words(
                    moves@,
                ));
            }
            start = i + 1;
        } else {
            proof {
                assert(current.push(moves@[i as int]) =~= moves@.subrange(
                    start as int,
                    i + 1,
                ));
            }
        }
        i += 1;
    }
    proof {
        assert(moves@.skip(n as int) =~= Seq::<char>::empty());
    }
    if i > start {
        out.push(moves.substring_char(start, i).to_owned());
        proof {
            done = done.push(moves@.subrange(start as int, i as int));
        }
    }
    proof {
        assert(done =~= words(moves@));
    }
    out
}

/// The clock of one side, in milliseconds: the time left and the increment
/// for each move.
pub fn clock_of(color: Color, wtime: u32, winc: u32, btime: u32, binc: u32) -> (r: (u64, u64))
    ensures
        r == match color {
            Color::White => (wtime as u64, winc as u64),
            Color::Black => (btime as u64, binc as u64),
        },
{
    match color {
        Color::White => (wtime as u64, winc as u64),
        Color::Black => (btime as u64, binc as u64),
    }
}

/// The side that an account plays in a game, by the accounts of White and
/// of Black, where it plays in it: White's where it is White's account.
pub fn side_of(username: &String, white: &Option<String>, black: &Option<String>) -> (r: Option<
    Color,
>)
    ensures
        r == if white matches Some(id) && id@ == username@ {
            Some(Color::White)
        } else if black matches Some(id) && id@ == username@ {
            Some(Color::Black)
        } else {
            None
        },
{
    if let Some(id) = white {
        if *id == *username {
            return Some(Color::White);
        }
    }
    if let Some(id) = black {
        if *id == *username {
            return Some(Color::Black);
        }
    }
    None
}

} // verus!
