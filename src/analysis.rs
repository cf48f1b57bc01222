//! Statistics of an archive, computed block by block: each block is decoded
//! and its games replayed on their own, and the counts of blocks combine by
//! addition in any order.
use vstd::prelude::*;
use crate::engine::{is_white_win, replay_game, replay_spec};
use crate::schema::GameResult;
use crate::schema::GameView;
use crate::wire::{decode_block, games_view, lemma_block_bounds, parse_block};

verus! {

/// Counts over some blocks of an archive.
#[derive(Clone, Copy, Debug, PartialEq, Eq, Structural)]
pub struct BlockStats {
    pub blocks: u64,
    pub skipped_blocks: u64,
    pub games: u64,
    pub moves: u64,
    pub white_wins: u64,
    pub skipped_games: u64,
}

/// The number of moves of some games together.
pub open spec fn total_moves(gs: Seq<GameView>) -> int
    decreases gs.len(),
{
    if gs.len() == 0 {
        0
    } else {
        total_moves(gs.drop_last()) + gs.last().moves.len()
    }
}

/// How many of the games replay to a white win.
pub open spec fn white_win_count(gs: Seq<GameView>) -> int
    decreases gs.len(),
{
    if gs.len() == 0 {
        0
    } else {
        white_win_count(gs.drop_last()) + match replay_spec(gs.last()) {
            Ok((_, GameResult::WhiteWin)) => 1int,
            _ => 0int,
        }
    }
}

/// How many of the games cannot be replayed.
pub open spec fn skipped_game_count(gs: Seq<GameView>) -> int
    decreases gs.len(),
{
    if gs.len() == 0 {
        0
    } else {
        skipped_game_count(gs.drop_last()) + if replay_spec(gs.last()) is Err {
            1int
        } else {
            0int
        }
    }
}

/// Addition that stops at `u64::MAX`.
pub open spec fn sat_add(a: u64, b: u64) -> u64 {
    if a + b > u64::MAX {
        u64::MAX
    } else {
        (a + b) as u64
    }
}

pub open spec fn sum_stats(a: BlockStats, b: BlockStats) -> BlockStats {
    BlockStats {
        blocks: sat_add(a.blocks, b.blocks),
        skipped_blocks: sat_add(a.skipped_blocks, b.skipped_blocks),
        games: sat_add(a.games, b.games),
        moves: sat_add(a.moves, b.moves),
        white_wins: sat_add(a.white_wins, b.white_wins),
        skipped_games: sat_add(a.skipped_games, b.skipped_games),
    }
}

fn add_counts(a: u64, b: u64) -> (r: u64)
    ensures
        r == sat_add(a, b),
{
    if a > u64::MAX - b {
        u64::MAX
    } else {
        a + b
    }
}

impl BlockStats {
    /// The counts of no block at all.
    pub fn empty() -> (r: BlockStats)
        ensures
            r == (BlockStats {
                blocks: 0,
                skipped_blocks: 0,
                games: 0,
                moves: 0,
                white_wins: 0,
                skipped_games: 0,
            }),
    {
        BlockStats { blocks: 0, skipped_blocks: 0, games: 0, moves: 0, white_wins: 0, skipped_games: 0 }
    }

    /// The counts of two sets of blocks together.
    pub fn combine(&self, other: &BlockStats) -> (r: BlockStats)
        ensures
            r == sum_stats(*self, *other),
    {
        BlockStats {
            blocks: add_counts(self.blocks, other.blocks),
            skipped_blocks: add_counts(self.skipped_blocks, other.skipped_blocks),
            games: add_counts(self.games, other.games),
            moves: add_counts(self.moves, other.moves),
            white_wins: add_counts(self.white_wins, other.white_wins),
            skipped_games: add_counts(self.skipped_games, other.skipped_games),
        }
    }
}

/// Combining counts does not depend on the order or the grouping of blocks.
pub proof fn lemma_combine_order_free(a: BlockStats, b: BlockStats, c: BlockStats)
    ensures
        sum_stats(a, b) == sum_stats(b, a),
        sum_stats(sum_stats(a, b), c) == sum_stats(a, sum_stats(b, c)),
{
}

/// Decodes one block and replays each of its games. A block that does not
/// decode counts as one skipped block; a game whose replay fails counts as
/// one skipped game.
pub fn analyze_block(payload: &[u8]) -> (r: BlockStats)
    ensures
        parse_block(payload@) is None ==> r == (BlockStats {
            blocks: 1,
            skipped_blocks: 1,
            games: 0,
            moves: 0,
            white_wins: 0,
            skipped_games: 0,
        }),
        parse_block(payload@) matches Some(gs) ==> {
            &&& r.blocks == 1
            &&& r.skipped_blocks == 0
            &&& r.games == gs.len()
            &&& r.moves == total_moves(gs)
            &&& r.white_wins == white_win_count(gs)
            &&& r.skipped_games == skipped_game_count(gs)
        },
{
    let games = match decode_block(payload) {
        None => {
            return BlockStats {
                blocks: 1,
                skipped_blocks: 1,
                games: 0,
                moves: 0,
                white_wins: 0,
                skipped_games: 0,
            };
        },
        Some(v) => v,
    };
    let ghost gs = games_view(games@);
    proof {
        lemma_block_bounds(payload@);
    }
    let mut moves: u64 = 0;
    let mut white_wins: u64 = 0;
    let mut skipped_games: u64 = 0;
    let mut i: usize = 0;
    while i < games.len()
        invariant
            gs == games_view(games@),
            gs.len() <= u32::MAX,
            forall|j: int| 0 <= j < gs.len() ==> (#[trigger] gs[j]).moves.len() <= u32::MAX,
            i <= games@.len(),
            moves == total_moves(gs.take(i as int)),
            moves <= i * 4294967295,
            white_wins == white_win_count(gs.take(i as int)),
            skipped_games == skipped_game_count(gs.take(i as int)),
            white_wins + skipped_games <= i,
        decreases games@.len() - i,
    {
        assert(gs.take(i + 1).drop_last() =~= gs.take(i as int));
        assert(gs[i as int].moves.len() <= u32::MAX);
        assert(gs[i as int] == games@[i as int]@);
        moves = moves + games[i].moves.len() as u64;
        let replayed = replay_game(&games[i]);
        match replayed {
            Ok(rep) => {
                if is_white_win(&rep) {
                    white_wins = white_wins + 1;
                }
            },
            Err(_) => {
                skipped_games = skipped_games + 1;
            },
        }
        i = i + 1;
    }
    assert(gs.take(gs.len() as int) =~= gs);
    BlockStats {
        blocks: 1,
        skipped_blocks: 0,
        games: games.len() as u64,
        moves,
        white_wins,
        skipped_games,
    }
}

} // verus!
