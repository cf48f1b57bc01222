//! The layout of one block and its decoder.
//!
//! A block is a byte string whose records refer to each other by their
//! 32-bit position in the block:
//! - a move is the eight bytes of `move_bytes`;
//! - a game is its result code, a start-position flag (`0` for the standard
//!   position, `1` followed by a `u32` length and that many bytes of FEN
//!   text), then a list of move positions;
//! - the archive is a list of game positions;
//! - the block record is the archive kind tag followed by the archive's
//!   position;
//! - the last four bytes give the position of the block record.
//!
//! A list is a `u32` count followed by that many `u32` entries. Every `u32`
//! is little-endian.
use vstd::prelude::*;
use crate::schema::{Game, GameResult, GameView, Move, decode_move, decode_result, move_of_bytes, result_of_code};
use vstd::slice::{slice_subrange, slice_to_vec};

verus! {

/// The tag of the one archive kind there is.
pub const ARCHIVE_KIND: u8 = 1;

/// The largest length that a block may have.
pub const MAX_BLOCK_LEN: usize = 0xFFFF_FFFF;

/// The little-endian `u32` in the four bytes at `i`.
pub open spec fn u32_le(b: Seq<u8>, i: int) -> int {
    b[i] + 256 * b[i + 1] + 65536 * b[i + 2] + 16777216 * b[i + 3]
}

/// The four little-endian bytes of `x`.
pub open spec fn u32_bytes(x: u32) -> Seq<u8> {
    seq![
        (x % 256) as u8,
        ((x / 256) % 256) as u8,
        ((x / 65536) % 256) as u8,
        (x / 16777216) as u8,
    ]
}

pub proof fn lemma_u32_bytes(x: u32)
    ensures
        u32_bytes(x).len() == 4,
        u32_le(u32_bytes(x), 0) == x,
{
    let b = u32_bytes(x);
    assert(b[0] == x % 256 && b[1] == (x / 256) % 256 && b[2] == (x / 65536) % 256 && b[3] == x
        / 16777216);
    assert((x % 256) + 256 * ((x / 256) % 256) + 65536 * ((x / 65536) % 256) + 16777216 * (x
        / 16777216) == x) by (nonlinear_arith);
}

/// The move stored at position `o`, if eight valid bytes stand there.
pub open spec fn move_at(b: Seq<u8>, o: int) -> Option<Move> {
    if 0 <= o && o + 8 <= b.len() {
        move_of_bytes(b.subrange(o, o + 8))
    } else {
        None
    }
}

/// Whether a whole list stands at `p`.
pub open spec fn list_fits(b: Seq<u8>, p: int) -> bool {
    0 <= p && p + 4 <= b.len() && p + 4 + 4 * u32_le(b, p) <= b.len()
}

/// Entry `i` of the list at `p`.
pub open spec fn list_entry(b: Seq<u8>, p: int, i: int) -> int {
    u32_le(b, p + 4 + 4 * i)
}

/// The moves that the list at `p` refers to.
pub open spec fn moves_at(b: Seq<u8>, p: int) -> Option<Seq<Move>> {
    if list_fits(b, p) && forall|i: int|
        0 <= i < u32_le(b, p) ==> #[trigger] move_at(b, list_entry(b, p, i)) is Some {
        Some(Seq::new(u32_le(b, p) as nat, |i: int| move_at(b, list_entry(b, p, i)).unwrap()))
    } else {
        None
    }
}

/// Where the move list of the game at `g` starts, and its start position.
pub open spec fn game_head(b: Seq<u8>, g: int) -> Option<(GameResult, Option<Seq<u8>>, int)> {
    if 0 <= g && g + 2 <= b.len() {
        match result_of_code(b[g]) {
            None => None,
            Some(res) => if b[g + 1] == 0 {
                Some((res, None, g + 2))
            } else if b[g + 1] == 1 && g + 6 <= b.len() && g + 6 + u32_le(b, g + 2) <= b.len() {
                let e = g + 6 + u32_le(b, g + 2);
                Some((res, Some(b.subrange(g + 6, e)), e))
            } else {
                None
            },
        }
    } else {
        None
    }
}

/// The game stored at position `g`.
pub open spec fn game_at(b: Seq<u8>, g: int) -> Option<GameView> {
    match game_head(b, g) {
        None => None,
        Some((res, start, p)) => match moves_at(b, p) {
            None => None,
            Some(ms) => Some(GameView { result: res, start_position: start, moves: ms }),
        },
    }
}

/// The games that the list at `p` refers to.
pub open spec fn games_at(b: Seq<u8>, p: int) -> Option<Seq<GameView>> {
    if list_fits(b, p) && forall|i: int|
        0 <= i < u32_le(b, p) ==> #[trigger] game_at(b, list_entry(b, p, i)) is Some {
        Some(Seq::new(u32_le(b, p) as nat, |i: int| game_at(b, list_entry(b, p, i)).unwrap()))
    } else {
        None
    }
}

/// The games of a block, in order, or `None` where the bytes are no block.
pub open spec fn parse_block(b: Seq<u8>) -> Option<Seq<GameView>> {
    if b.len() >= 4 {
        let r = u32_le(b, b.len() - 4);
        if r + 5 <= b.len() && b[r] == ARCHIVE_KIND {
            games_at(b, u32_le(b, r + 1))
        } else {
            None
        }
    } else {
        None
    }
}

pub open spec fn games_view(v: Seq<Game>) -> Seq<GameView> {
    Seq::new(v.len(), |i: int| v[i]@)
}

/// Whether `b2` starts with `b1`.
pub open spec fn is_prefix(b1: Seq<u8>, b2: Seq<u8>) -> bool {
    b1.len() <= b2.len() && forall|k: int| 0 <= k < b1.len() ==> #[trigger] b2[k] == b1[k]
}

pub proof fn lemma_move_at_extend(b1: Seq<u8>, b2: Seq<u8>, o: int)
    requires
        is_prefix(b1, b2),
        move_at(b1, o) is Some,
    ensures
        move_at(b2, o) == move_at(b1, o),
{
    assert(b2.subrange(o, o + 8) =~= b1.subrange(o, o + 8));
}

pub proof fn lemma_moves_at_extend(b1: Seq<u8>, b2: Seq<u8>, p: int)
    requires
        is_prefix(b1, b2),
        moves_at(b1, p) is Some,
    ensures
        moves_at(b2, p) == moves_at(b1, p),
{
    assert(u32_le(b2, p) == u32_le(b1, p));
    let n = u32_le(b1, p);
    assert forall|i: int| 0 <= i < n implies list_entry(b2, p, i) == list_entry(b1, p, i)
        && #[trigger] move_at(b2, list_entry(b2, p, i)) == move_at(b1, list_entry(b1, p, i)) by {
        assert(move_at(b1, list_entry(b1, p, i)) is Some);
        lemma_move_at_extend(b1, b2, list_entry(b1, p, i));
    }
    assert(Seq::new(n as nat, |i: int| move_at(b2, list_entry(b2, p, i)).unwrap()) =~= Seq::new(
        n as nat,
        |i: int| move_at(b1, list_entry(b1, p, i)).unwrap(),
    ));
}

pub proof fn lemma_game_at_extend(b1: Seq<u8>, b2: Seq<u8>, g: int)
    requires
        is_prefix(b1, b2),
        game_at(b1, g) is Some,
    ensures
        game_at(b2, g) == game_at(b1, g),
{
    assert(b2[g] == b1[g] && b2[g + 1] == b1[g + 1]);
    if b1[g + 1] == 1 {
        assert(u32_le(b2, g + 2) == u32_le(b1, g + 2));
        let e = g + 6 + u32_le(b1, g + 2);
        assert(b2.subrange(g + 6, e) =~= b1.subrange(g + 6, e));
    }
    let (res, start, p) = game_head(b1, g).unwrap();
    assert(game_head(b2, g) == game_head(b1, g));
    lemma_moves_at_extend(b1, b2, p);
}

proof fn lemma_u32_le_bound(b: Seq<u8>, i: int)
    requires
        0 <= i,
        i + 4 <= b.len(),
    ensures
        0 <= u32_le(b, i) <= u32::MAX,
{
}

/// A block holds at most `u32::MAX` games, each of at most `u32::MAX` moves.
pub proof fn lemma_block_bounds(b: Seq<u8>)
    requires
        parse_block(b) is Some,
    ensures
        parse_block(b).unwrap().len() <= u32::MAX,
        forall|i: int|
            0 <= i < parse_block(b).unwrap().len() ==> (#[trigger] parse_block(b).unwrap()[i]).moves.len()
                <= u32::MAX,
{
    let r = u32_le(b, b.len() - 4);
    let a = u32_le(b, r + 1);
    lemma_u32_le_bound(b, a);
    let gs = parse_block(b).unwrap();
    assert forall|i: int| 0 <= i < gs.len() implies (#[trigger] gs[i]).moves.len() <= u32::MAX by {
        let g = list_entry(b, a, i);
        assert(game_at(b, g) is Some);
        let (res, start, p) = game_head(b, g).unwrap();
        lemma_u32_le_bound(b, p);
    }
}

/// Reads the little-endian `u32` at `at`.
pub fn read_u32(b: &[u8], at: usize) -> (r: u32)
    requires
        at + 4 <= b@.len(),
    ensures
        r == u32_le(b@, at as int),
{
    b[at] as u32 + (b[at + 1] as u32) * 256 + (b[at + 2] as u32) * 65536 + (b[at + 3] as u32)
        * 16777216
}

/// Where the entries of the list at `p` start and how many there are, if the
/// whole list stands in `b`.
fn read_list(b: &[u8], p: usize) -> (r: Option<(usize, usize)>)
    ensures
        r is Some <==> list_fits(b@, p as int),
        r matches Some((start, n)) ==> start == p + 4 && n == u32_le(b@, p as int) && start + 4 * n
            <= b@.len(),
{
    if p > b.len() || b.len() - p < 4 {
        return None;
    }
    let n = read_u32(b, p);
    let rest = b.len() - p - 4;
    if (n as u64) * 4 > rest as u64 {
        return None;
    }
    Some((p + 4, n as usize))
}

fn decode_moves(b: &[u8], p: usize) -> (r: Option<Vec<Move>>)
    ensures
        r is Some <==> moves_at(b@, p as int) is Some,
        r matches Some(v) ==> moves_at(b@, p as int) == Some(v@),
{
    let (start, n) = match read_list(b, p) {
        None => return None,
        Some(x) => x,
    };
    let mut v: Vec<Move> = Vec::new();
    let mut i: usize = 0;
    let len = b.len();
    while i < n
        invariant
            len == b@.len(),
            start == p + 4,
            n == u32_le(b@, p as int),
            start + 4 * n <= b@.len(),
            list_fits(b@, p as int),
            i <= n,
            v@.len() == i,
            forall|j: int| 0 <= j < i ==> move_at(b@, list_entry(b@, p as int, j)) == Some(v@[j]),
        decreases n - i,
    {
        let o = read_u32(b, start + 4 * i) as usize;
        if o > b.len() || b.len() - o < 8 {
            assert(move_at(b@, list_entry(b@, p as int, i as int)) is None);
            return None;
        }
        match decode_move(b, o) {
            None => {
                assert(move_at(b@, list_entry(b@, p as int, i as int)) is None);
                return None;
            },
            Some(m) => {
                v.push(m);
            },
        }
        i = i + 1;
    }
    assert forall|j: int| 0 <= j < u32_le(b@, p as int) implies #[trigger] move_at(
        b@,
        list_entry(b@, p as int, j),
    ) is Some by {
        assert(move_at(b@, list_entry(b@, p as int, j)) == Some(v@[j]));
    }
    assert(v@ =~= Seq::new(
        u32_le(b@, p as int) as nat,
        |j: int| move_at(b@, list_entry(b@, p as int, j)).unwrap(),
    ));
    Some(v)
}

/// Reads the game stored at position `g`.
fn decode_game(b: &[u8], g: usize) -> (r: Option<Game>)
    ensures
        r is Some <==> game_at(b@, g as int) is Some,
        r matches Some(x) ==> game_at(b@, g as int) == Some(x@),
{
    if g > b.len() || b.len() - g < 2 {
        return None;
    }
    let result = match decode_result(b[g]) {
        None => return None,
        Some(x) => x,
    };
    let (start_position, p): (Option<Vec<u8>>, usize) = if b[g + 1] == 0 {
        (None, g + 2)
    } else if b[g + 1] == 1 {
        if b.len() - g < 6 {
            return None;
        }
        let len = read_u32(b, g + 2) as usize;
        if len > b.len() - g - 6 {
            return None;
        }
        let fen = slice_to_vec(slice_subrange(b, g + 6, g + 6 + len));
        (Some(fen), g + 6 + len)
    } else {
        return None;
    };
    match decode_moves(b, p) {
        None => None,
        Some(moves) => Some(Game { result, start_position, moves }),
    }
}

/// Decodes one block into its games, in order; `None` where the bytes do not
/// have the shape of a block.
pub fn decode_block(b: &[u8]) -> (r: Option<Vec<Game>>)
    ensures
        r is Some <==> parse_block(b@) is Some,
        r matches Some(v) ==> parse_block(b@) == Some(games_view(v@)),
{
    if b.len() < 4 {
        return None;
    }
    let r = read_u32(b, b.len() - 4) as usize;
    if r > b.len() || b.len() - r < 5 || b[r] != ARCHIVE_KIND {
        return None;
    }
    let a = read_u32(b, r + 1) as usize;
    let (start, n) = match read_list(b, a) {
        None => return None,
        Some(x) => x,
    };
    let mut v: Vec<Game> = Vec::new();
    let mut i: usize = 0;
    let len = b.len();
    while i < n
        invariant
            len == b@.len(),
            b@.len() >= 4,
            a == u32_le(b@, u32_le(b@, b@.len() - 4) + 1),
            start == a + 4,
            n == u32_le(b@, a as int),
            start + 4 * n <= b@.len(),
            list_fits(b@, a as int),
            i <= n,
            v@.len() == i,
            forall|j: int| 0 <= j < i ==> game_at(b@, list_entry(b@, a as int, j)) == Some(#[trigger] v@[j]@),
        decreases n - i,
    {
        let o = read_u32(b, start + 4 * i) as usize;
        match decode_game(b, o) {
            None => {
                assert(game_at(b@, list_entry(b@, a as int, i as int)) is None);
                return None;
            },
            Some(game) => {
                v.push(game);
            },
        }
        i = i + 1;
    }
    assert forall|j: int| 0 <= j < u32_le(b@, a as int) implies #[trigger] game_at(
        b@,
        list_entry(b@, a as int, j),
    ) is Some by {
        assert(game_at(b@, list_entry(b@, a as int, j)) == Some(v@[j]@));
    }
    assert(games_view(v@) =~= Seq::new(
        u32_le(b@, a as int) as nat,
        |j: int| game_at(b@, list_entry(b@, a as int, j)).unwrap(),
    ));
    Some(v)
}

} // verus!
