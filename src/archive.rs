//! Reading a whole archive: every complete block is decoded on its own, and a
//! block that does not decode is counted as skipped rather than stopping the
//! read.
use vstd::prelude::*;
use crate::schema::{Game, GameView};
use crate::stream::{block_ranges, scan};
use crate::wire::{decode_block, games_view, parse_block};

verus! {

/// The games of the blocks that decode, in order.
pub open spec fn decoded_games(ps: Seq<Seq<u8>>) -> Seq<GameView>
    decreases ps.len(),
{
    if ps.len() == 0 {
        Seq::empty()
    } else {
        match parse_block(ps.last()) {
            Some(gs) => decoded_games(ps.drop_last()) + gs,
            None => decoded_games(ps.drop_last()),
        }
    }
}

/// How many of the blocks do not decode.
pub open spec fn skipped_blocks(ps: Seq<Seq<u8>>) -> nat
    decreases ps.len(),
{
    if ps.len() == 0 {
        0
    } else {
        match parse_block(ps.last()) {
            Some(_) => skipped_blocks(ps.drop_last()),
            None => skipped_blocks(ps.drop_last()) + 1,
        }
    }
}

/// What reading an archive gives: its games, how many complete blocks it has
/// and how many of those could not be decoded.
pub struct ArchiveContents {
    pub games: Vec<Game>,
    pub blocks: usize,
    pub skipped_blocks: usize,
}

/// Reads every complete block of `data`.
pub fn decode_archive(data: &[u8]) -> (r: ArchiveContents)
    ensures
        r.blocks == scan(data@).len(),
        games_view(r.games@) == decoded_games(scan(data@)),
        r.skipped_blocks == skipped_blocks(scan(data@)),
{
    let ranges = block_ranges(data);
    let ghost ps = scan(data@);
    let mut games: Vec<Game> = Vec::new();
    let mut skipped: usize = 0;
    let mut i: usize = 0;
    while i < ranges.len()
        invariant
            ranges@.len() == ps.len(),
            forall|j: int| 0 <= j < ranges@.len() ==> #[trigger] ranges@[j]@ == ps[j],
            i <= ranges@.len(),
            games_view(games@) == decoded_games(ps.subrange(0, i as int)),
            skipped == skipped_blocks(ps.subrange(0, i as int)),
            skipped <= i,
        decreases ranges@.len() - i,
    {
        let ghost before = games@;
        assert(ps.subrange(0, i + 1).drop_last() =~= ps.subrange(0, i as int));
        assert(ps.subrange(0, i + 1).last() == ranges@[i as int]@);
        match decode_block(ranges[i]) {
            Some(mut v) => {
                let ghost gv = v@;
                games.append(&mut v);
                assert(games_view(games@) =~= games_view(before) + games_view(gv));
            },
            None => {
                skipped = skipped + 1;
            },
        }
        i = i + 1;
    }
    assert(ps.subrange(0, ps.len() as int) =~= ps);
    ArchiveContents { games, blocks: ranges.len(), skipped_blocks: skipped }
}

} // verus!
