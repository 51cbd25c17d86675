use vstd::prelude::*;

verus! {

/// What the game server reports about this account's games.
#[derive(Debug)]
pub enum StreamEvent {
    GameStart { game_id: String },
    GameFinish { game_id: String },
}

/// What the game server reports about challenges.
#[derive(Debug)]
pub enum ChallengeEvent {
    Challenge { id: String, challenger: ChallengeUser },
    ChallengeCanceled { id: String },
    ChallengeDeclined { id: String },
}

/// The account that issued a challenge.
#[derive(Debug)]
pub struct ChallengeUser {
    pub id: String,
}

/// The index of the first of `games` that is `id`, or the length where none is.
pub open spec fn first_index_of(games: Seq<String>, id: Seq<char>) -> int
    decreases games.len(),
{
    if games.len() == 0 {
        0
    } else if games[0]@ == id {
        0
    } else {
        1 + first_index_of(games.skip(1), id)
    }
}

/// The open games after `event`: a started game is appended, a finished one
/// leaves at its first occurrence.
pub open spec fn games_after(games: Seq<String>, event: StreamEvent) -> Seq<String> {
    match event {
        StreamEvent::GameStart { game_id } => games.push(game_id),
        StreamEvent::GameFinish { game_id } => {
            let i = first_index_of(games, game_id@);
            if i < games.len() {
                games.remove(i)
            } else {
                games
            }
        },
    }
}

proof fn lemma_first_index_of(games: Seq<String>, id: Seq<char>, n: int)
    requires
        0 <= n <= games.len(),
        forall|j: int| 0 <= j < n ==> games[j]@ != id,
        n < games.len() ==> games[n]@ == id,
    ensures
        first_index_of(games, id) == n,
    decreases n,
{
    if n > 0 {
        let rest = games.skip(1);
        assert forall|j: int| 0 <= j < n - 1 implies rest[j]@ != id by {
            assert(rest[j] == games[j + 1]);
        }
        lemma_first_index_of(rest, id, n - 1);
    }
}

/// Keeps the list of open games up to date with one event of the stream.
pub fn apply_stream_event(games: &mut Vec<String>, event: StreamEvent)
    ensures
        final(games)@ == games_after(old(games)@, event),
{
    match event {
        StreamEvent::GameStart { game_id } => {
            games.push(game_id);
        },
        StreamEvent::GameFinish { game_id } => {
            let mut i: usize = 0;
            while i < games.len() && !(games[i] == game_id)
                invariant
                    i <= games@.len(),
                    games@ == old(games)@,
                    forall|j: int| 0 <= j < i ==> games@[j]@ != game_id@,
                decreases games@.len() - i,
            {
                i += 1;
            }
            proof {
                lemma_first_index_of(games@, game_id@, i as int);
            }
            if i < games.len() {
                games.remove(i);
            }
        },
    }
}

/// Whether a challenge is to be accepted: every challenge that another
/// account issued is. Gives the challenge's id where it is.
pub fn accepted_challenge<'a>(event: &'a ChallengeEvent, username: &String) -> (r: Option<
    &'a String,
>)
    ensures
        match *event {
            ChallengeEvent::Challenge { id, challenger } => if challenger.id@ == username@ {
                r is None
            } else {
                r == Some(&id)
            },
            _ => r is None,
        },
{
    match event {
        ChallengeEvent::Challenge { id, challenger } => {
            if challenger.id == *username {
                None
            } else {
                Some(id)
            }
        },
        _ => None,
    }
}

} // verus!
