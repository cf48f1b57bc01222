//! The encoder: moves are deduplicated per block, games are appended to the
//! current block, and a block is closed, framed and emitted when it holds
//! enough games or when asked.
use vstd::prelude::*;
use std::collections::HashMap;
use crate::schema::{
    decode_move, encode_move, encode_result, lemma_move_bytes_canonical, lemma_move_bytes_round_trip, move_bytes,
    lemma_result_code, move_of_bytes, result_code, GameResult, GameView, Move,
};
use crate::archive::{decoded_games, skipped_blocks};
use crate::engine::replay_spec;
use crate::stream::{all_fit, frame, frames, lemma_scan_frames, push_u32, scan};
use crate::wire::{
    game_at, game_head, games_at, is_prefix, lemma_game_at_extend, lemma_move_at_extend, lemma_u32_bytes,
    list_entry, list_fits, move_at, parse_block, u32_bytes, u32_le, ARCHIVE_KIND,
    MAX_BLOCK_LEN,
};

verus! {

/// How many games a block holds before it is closed, unless set otherwise.
pub const MAX_GAMES_PER_BLOCK: usize = 500_000;

/// The position of a move record in the current block.
#[derive(Clone, Copy, Debug, PartialEq, Eq, Structural, Hash)]
pub struct MoveRef {
    pub offset: u32,
}

/// The position of a game record in its block.
#[derive(Clone, Copy, Debug, PartialEq, Eq, Structural, Hash)]
pub struct GameRef {
    pub offset: u32,
}

#[derive(Clone, Copy, Debug, PartialEq, Eq, Structural)]
pub enum SerializeError {
    /// The record would take the block past the reach of 32-bit positions.
    BlockFull,
    /// A move reference does not point at a move of the current block.
    UnknownMove,
}

/// The bytes that closing a block with `n` games adds: the archive's list,
/// the block record and the trailing position.
pub open spec fn tail_len(n: int) -> int {
    4 * n + 13
}

/// The length of a game record.
pub open spec fn game_record_len(start: Option<Seq<u8>>, k: int) -> int {
    2 + match start {
        Some(s) => 4 + s.len(),
        None => 0,
    } + 4 + 4 * k
}

/// All games of a sequence of blocks, in order.
pub open spec fn flatten(bs: Seq<Seq<GameView>>) -> Seq<GameView>
    decreases bs.len(),
{
    if bs.len() == 0 {
        Seq::empty()
    } else {
        flatten(bs.drop_last()) + bs.last()
    }
}

/// Where the games stand after one more game: the block is closed once it
/// holds `t` games.
pub open spec fn chunk_step(
    written: Seq<Seq<GameView>>,
    pending: Seq<GameView>,
    t: nat,
    g: GameView,
) -> (Seq<Seq<GameView>>, Seq<GameView>) {
    if pending.len() + 1 >= t {
        (written.push(pending.push(g)), Seq::empty())
    } else {
        (written, pending.push(g))
    }
}

pub open spec fn opt_slice_view(s: Option<&[u8]>) -> Option<Seq<u8>> {
    match s {
        Some(s) => Some(s@),
        None => None,
    }
}

pub open spec fn pack8(b0: u8, b1: u8, b2: u8, b3: u8, b4: u8, b5: u8, b6: u8, b7: u8) -> u64 {
    (b0 as u64) | ((b1 as u64) << 8u64) | ((b2 as u64) << 16u64) | ((b3 as u64) << 24u64) | ((
    b4 as u64) << 32u64) | ((b5 as u64) << 40u64) | ((b6 as u64) << 48u64) | ((b7 as u64)
        << 56u64)
}

/// The key of eight record bytes in the dedup table.
pub open spec fn key_of_bytes(b: Seq<u8>) -> u64 {
    pack8(b[0], b[1], b[2], b[3], b[4], b[5], b[6], b[7])
}

/// The record bytes that a key packs.
pub open spec fn bytes_of_key(k: u64) -> Seq<u8> {
    seq![
        (k & 0xff) as u8,
        ((k >> 8u64) & 0xff) as u8,
        ((k >> 16u64) & 0xff) as u8,
        ((k >> 24u64) & 0xff) as u8,
        ((k >> 32u64) & 0xff) as u8,
        ((k >> 40u64) & 0xff) as u8,
        ((k >> 48u64) & 0xff) as u8,
        ((k >> 56u64) & 0xff) as u8,
    ]
}

pub open spec fn move_key(m: Move) -> u64 {
    key_of_bytes(move_bytes(m))
}

proof fn lemma_pack8(b0: u8, b1: u8, b2: u8, b3: u8, b4: u8, b5: u8, b6: u8, b7: u8)
    by (bit_vector)
    ensures
        (pack8(b0, b1, b2, b3, b4, b5, b6, b7) & 0xff) as u8 == b0,
        ((pack8(b0, b1, b2, b3, b4, b5, b6, b7) >> 8u64) & 0xff) as u8 == b1,
        ((pack8(b0, b1, b2, b3, b4, b5, b6, b7) >> 16u64) & 0xff) as u8 == b2,
        ((pack8(b0, b1, b2, b3, b4, b5, b6, b7) >> 24u64) & 0xff) as u8 == b3,
        ((pack8(b0, b1, b2, b3, b4, b5, b6, b7) >> 32u64) & 0xff) as u8 == b4,
        ((pack8(b0, b1, b2, b3, b4, b5, b6, b7) >> 40u64) & 0xff) as u8 == b5,
        ((pack8(b0, b1, b2, b3, b4, b5, b6, b7) >> 48u64) & 0xff) as u8 == b6,
        ((pack8(b0, b1, b2, b3, b4, b5, b6, b7) >> 56u64) & 0xff) as u8 == b7,
{
}

proof fn lemma_key_of_bytes(b: Seq<u8>)
    requires
        b.len() == 8,
    ensures
        bytes_of_key(key_of_bytes(b)) == b,
{
    lemma_pack8(b[0], b[1], b[2], b[3], b[4], b[5], b[6], b[7]);
    assert(bytes_of_key(key_of_bytes(b)) =~= b);
}

/// A move is recovered from its key.
pub proof fn lemma_move_key(m: Move)
    ensures
        move_of_bytes(bytes_of_key(move_key(m))) == Some(m),
{
    lemma_move_bytes_round_trip(m);
    lemma_key_of_bytes(move_bytes(m));
}

fn key_of_record(b: &[u8; 8]) -> (k: u64)
    ensures
        k == key_of_bytes(b@),
{
    (b[0] as u64) | ((b[1] as u64) << 8u64) | ((b[2] as u64) << 16u64) | ((b[3] as u64) << 24u64)
        | ((b[4] as u64) << 32u64) | ((b[5] as u64) << 40u64) | ((b[6] as u64) << 48u64) | ((
    b[7] as u64) << 56u64)
}

proof fn lemma_u32_le_append(b: Seq<u8>, x: u32)
    ensures
        u32_le(b + u32_bytes(x), b.len() as int) == x,
        is_prefix(b, b + u32_bytes(x)),
{
    lemma_u32_bytes(x);
    let c = b + u32_bytes(x);
    let h = u32_bytes(x);
    let n = b.len() as int;
    assert(c[n] == h[0] && c[n + 1] == h[1] && c[n + 2] == h[2] && c[n + 3] == h[3]);
}

proof fn lemma_u32_le_prefix(b1: Seq<u8>, b2: Seq<u8>, i: int)
    requires
        is_prefix(b1, b2),
        0 <= i,
        i + 4 <= b1.len(),
    ensures
        u32_le(b2, i) == u32_le(b1, i),
{
    assert(b2[i] == b1[i] && b2[i + 1] == b1[i + 1] && b2[i + 2] == b1[i + 2] && b2[i + 3] == b1[i
        + 3]);
}

/// Appends a list: its count, then each entry.
fn push_list(v: &mut Vec<u8>, items: &[u32])
    requires
        items@.len() <= u32::MAX,
    ensures
        final(v)@.len() == old(v)@.len() + 4 + 4 * items@.len(),
        is_prefix(old(v)@, final(v)@),
        list_fits(final(v)@, old(v)@.len() as int),
        u32_le(final(v)@, old(v)@.len() as int) == items@.len(),
        forall|j: int|
            0 <= j < items@.len() ==> #[trigger] list_entry(final(v)@, old(v)@.len() as int, j)
                == items@[j],
{
    let ghost b0 = v@;
    let ghost p = b0.len() as int;
    push_u32(v, items.len() as u32);
    proof {
        lemma_u32_le_append(b0, items@.len() as u32);
    }
    let mut i: usize = 0;
    while i < items.len()
        invariant
            p == b0.len(),
            i <= items@.len(),
            v@.len() == p + 4 + 4 * i,
            is_prefix(b0, v@),
            u32_le(v@, p) == items@.len(),
            forall|j: int| 0 <= j < i ==> #[trigger] list_entry(v@, p, j) == items@[j],
        decreases items@.len() - i,
    {
        let ghost before = v@;
        push_u32(v, items[i]);
        proof {
            lemma_u32_le_append(before, items@[i as int]);
            lemma_u32_le_prefix(before, v@, p);
            assert forall|j: int| 0 <= j < i + 1 implies #[trigger] list_entry(v@, p, j)
                == items@[j] by {
                if j < i {
                    assert(list_entry(before, p, j) == items@[j]);
                    lemma_u32_le_prefix(before, v@, p + 4 + 4 * j);
                } else {
                    assert(p + 4 + 4 * j == before.len());
                    assert(v@ == before + u32_bytes(items@[i as int]));
                }
            }
        }
        i = i + 1;
    }
}

/// Appends the bytes of a slice.
fn push_bytes(v: &mut Vec<u8>, s: &[u8])
    ensures
        final(v)@ == old(v)@ + s@,
{
    let ghost b0 = v@;
    let mut i: usize = 0;
    while i < s.len()
        invariant
            i <= s@.len(),
            v@ == b0 + s@.subrange(0, i as int),
        decreases s@.len() - i,
    {
        v.push(s[i]);
        i = i + 1;
        assert(v@ =~= b0 + s@.subrange(0, i as int));
    }
    assert(s@.subrange(0, s@.len() as int) =~= s@);
}

/// The encoder's state: the block being built and the bytes emitted so far.
pub struct Serializer {
    arena: Vec<u8>,
    move_map: HashMap<u64, u32>,
    games: Vec<u32>,
    max_games_per_block: usize,
    out: Vec<u8>,
    table: Ghost<Map<Move, u32>>,
    pending: Ghost<Seq<GameView>>,
    written: Ghost<Seq<Seq<GameView>>>,
    payloads: Ghost<Seq<Seq<u8>>>,
    drained: Ghost<Seq<u8>>,
    added: Ghost<Seq<GameView>>,
}

impl Serializer {
    /// The dedup table of the current block: each distinct move and its
    /// position.
    pub closed spec fn table(&self) -> Map<Move, u32> {
        self.table@
    }

    /// The bytes of the current block so far.
    pub closed spec fn arena(&self) -> Seq<u8> {
        self.arena@
    }

    /// The games of the current block.
    pub closed spec fn pending(&self) -> Seq<GameView> {
        self.pending@
    }

    /// The games of each block closed so far.
    pub closed spec fn written(&self) -> Seq<Seq<GameView>> {
        self.written@
    }

    /// The bytes of each block closed so far.
    pub closed spec fn payloads(&self) -> Seq<Seq<u8>> {
        self.payloads@
    }

    /// Every byte emitted so far, taken or not.
    pub closed spec fn stream(&self) -> Seq<u8> {
        self.drained@ + self.out@
    }

    /// The emitted bytes that have not been taken yet.
    pub closed spec fn output(&self) -> Seq<u8> {
        self.out@
    }

    /// Every game added so far, in order.
    pub closed spec fn added(&self) -> Seq<GameView> {
        self.added@
    }

    pub closed spec fn threshold(&self) -> nat {
        self.max_games_per_block as nat
    }

    /// The move that a reference points at in the current block.
    pub open spec fn move_of_ref(&self, r: MoveRef) -> Option<Move> {
        move_at(self.arena(), r.offset as int)
    }

    pub closed spec fn wf(&self) -> bool {
        &&& self.arena@.len() + tail_len(self.games@.len() as int) <= MAX_BLOCK_LEN
        &&& self.table@.dom().finite()
        &&& forall|m: Move| #[trigger]
            self.table@.contains_key(m) ==> {
                &&& self.move_map@.contains_key(move_key(m))
                &&& self.move_map@[move_key(m)] == self.table@[m]
                &&& move_at(self.arena@, self.table@[m] as int) == Some(m)
            }
        &&& forall|k: u64| #[trigger]
            self.move_map@.contains_key(k) ==> move_of_bytes(bytes_of_key(k)) is Some
                && self.table@.contains_key(move_of_bytes(bytes_of_key(k)).unwrap())
        &&& self.games@.len() == self.pending@.len()
        &&& forall|i: int|
            0 <= i < self.games@.len() ==> game_at(self.arena@, #[trigger] self.games@[i] as int)
                == Some(self.pending@[i])
        &&& self.drained@ + self.out@ == frames(self.payloads@)
        &&& all_fit(self.payloads@)
        &&& self.payloads@.len() == self.written@.len()
        &&& forall|i: int|
            0 <= i < self.payloads@.len() ==> parse_block(#[trigger] self.payloads@[i]) == Some(
                self.written@[i],
            )
        &&& flatten(self.written@) + self.pending@ == self.added@
    }

    /// The views that a call on the current block leaves as they were.
    pub open spec fn same_history(&self, other: &Serializer) -> bool {
        &&& self.written() == other.written()
        &&& self.payloads() == other.payloads()
        &&& self.stream() == other.stream()
        &&& self.output() == other.output()
        &&& self.threshold() == other.threshold()
    }

    /// A serializer with nothing written, closing a block every
    /// `MAX_GAMES_PER_BLOCK` games.
    pub fn new() -> (r: Self)
        ensures
            r.wf(),
            r.table() == Map::<Move, u32>::empty(),
            r.arena().len() == 0,
            r.pending().len() == 0,
            r.written().len() == 0,
            r.payloads().len() == 0,
            r.stream().len() == 0,
            r.output().len() == 0,
            r.added().len() == 0,
            r.threshold() == MAX_GAMES_PER_BLOCK,
    {
        let r = Serializer {
            arena: Vec::new(),
            move_map: HashMap::new(),
            games: Vec::new(),
            max_games_per_block: MAX_GAMES_PER_BLOCK,
            out: Vec::new(),
            table: Ghost(Map::empty()),
            pending: Ghost(Seq::empty()),
            written: Ghost(Seq::empty()),
            payloads: Ghost(Seq::empty()),
            drained: Ghost(Seq::empty()),
            added: Ghost(Seq::empty()),
        };
        assert(r.drained@ + r.out@ =~= frames(r.payloads@));
        assert(flatten(r.written@) + r.pending@ =~= r.added@);
        r
    }

    /// Sets how many games a block holds before it is closed.
    pub fn set_max_games_per_block(&mut self, max_games_per_block: usize)
        requires
            old(self).wf(),
        ensures
            final(self).wf(),
            final(self).threshold() == max_games_per_block,
            final(self).table() == old(self).table(),
            final(self).arena() == old(self).arena(),
            final(self).pending() == old(self).pending(),
            final(self).written() == old(self).written(),
            final(self).payloads() == old(self).payloads(),
            final(self).stream() == old(self).stream(),
            final(self).output() == old(self).output(),
            final(self).added() == old(self).added(),
    {
        self.max_games_per_block = max_games_per_block;
    }

    /// The number of distinct moves stored in the current block.
    pub fn move_count(&self) -> (r: usize)
        requires
            self.wf(),
        ensures
            r == self.table().len(),
    {
        proof {
            self.lemma_table_len();
        }
        self.move_map.len()
    }

    /// The number of games in the current block.
    pub fn pending_games(&self) -> (r: usize)
        requires
            self.wf(),
        ensures
            r == self.pending().len(),
    {
        self.games.len()
    }

    /// The number of bytes of the current block so far.
    pub fn block_len(&self) -> (r: usize)
        ensures
            r == self.arena().len(),
    {
        self.arena.len()
    }

    /// Adds a move to the current block and returns its reference. A move
    /// equal to one that the block already holds is not stored again: the
    /// reference of the stored one is returned.
    pub fn add_move(&mut self, game_move: &Move) -> (r: Result<MoveRef, SerializeError>)
        requires
            old(self).wf(),
        ensures
            final(self).wf(),
            add_move_post(*old(self), *final(self), *game_move, r),
    {
        let bytes = encode_move(game_move);
        let key = key_of_record(&bytes);
        proof {
            lemma_move_key(*game_move);
        }
        match self.move_map.get(&key) {
            Some(o) => {
                proof {
                    assert(self.move_map@.contains_key(key));
                    assert(self.table@.contains_key(*game_move));
                }
                return Ok(MoveRef { offset: *o });
            },
            None => {},
        }
        assert(!self.table@.contains_key(*game_move));
        let used = self.arena.len() + 4 * self.games.len() + 13;
        if used > MAX_BLOCK_LEN - 8 {
            return Err(SerializeError::BlockFull);
        }
        let o = self.arena.len() as u32;
        let ghost a0 = self.arena@;
        push_bytes(&mut self.arena, &bytes);
        self.move_map.insert(key, o);
        let ghost t0 = self.table@;
        self.table = Ghost(self.table@.insert(*game_move, o));
        proof {
            let a1 = self.arena@;
            assert(is_prefix(a0, a1));
            lemma_move_bytes_round_trip(*game_move);
            assert(a1.subrange(o as int, o + 8) =~= move_bytes(*game_move));
            assert forall|m: Move| #[trigger] self.table@.contains_key(m) implies {
                &&& self.move_map@.contains_key(move_key(m))
                &&& self.move_map@[move_key(m)] == self.table@[m]
                &&& move_at(self.arena@, self.table@[m] as int) == Some(m)
            } by {
                if m != *game_move {
                    assert(t0.contains_key(m));
                    assert(move_at(a0, t0[m] as int) == Some(m));
                    lemma_move_key(m);
                    assert(move_key(m) != key);
                    lemma_move_at_extend(a0, a1, t0[m] as int);
                }
            }
            assert forall|k: u64| #[trigger] self.move_map@.contains_key(k) implies move_of_bytes(
                bytes_of_key(k),
            ) is Some && self.table@.contains_key(move_of_bytes(bytes_of_key(k)).unwrap()) by {}
            assert forall|j: int| 0 <= j < self.games@.len() implies game_at(
                self.arena@,
                #[trigger] self.games@[j] as int,
            ) == Some(self.pending@[j]) by {
                lemma_game_at_extend(a0, a1, self.games@[j] as int);
            }
        }
        Ok(MoveRef { offset: o })
    }

    /// Whether every reference points at a move of the current block.
    pub open spec fn refs_valid(&self, moves: Seq<MoveRef>) -> bool {
        forall|i: int| 0 <= i < moves.len() ==> #[trigger] self.move_of_ref(moves[i]) is Some
    }

    /// Whether a game record of this shape still fits in the current block.
    pub open spec fn game_fits(&self, start: Option<Seq<u8>>, k: int) -> bool {
        self.arena().len() + game_record_len(start, k) + tail_len(self.pending().len() + 1int)
            <= MAX_BLOCK_LEN
    }

    /// The game that a result, a start position and move references describe.
    pub open spec fn game_view(
        &self,
        result: GameResult,
        start: Option<Seq<u8>>,
        moves: Seq<MoveRef>,
    ) -> GameView {
        GameView {
            result,
            start_position: start,
            moves: Seq::new(moves.len(), |i: int| self.move_of_ref(moves[i]).unwrap()),
        }
    }

    /// Whether every view of `self` is that of `other`.
    pub open spec fn unchanged(&self, other: &Serializer) -> bool {
        &&& self.same_history(other)
        &&& self.table() == other.table()
        &&& self.arena() == other.arena()
        &&& self.pending() == other.pending()
        &&& self.added() == other.added()
    }

    /// Adds a game of the given result, start position and moves to the
    /// current block. Once the block holds as many games as the threshold, it
    /// is closed and emitted.
    /// Adds a game of the given result, start position and moves to the
    /// current block. Once the block holds as many games as the threshold, it
    /// is closed and emitted.
    pub fn add_game(
        &mut self,
        result: GameResult,
        start_position: Option<&[u8]>,
        moves: &[MoveRef],
    ) -> (r: Result<GameRef, SerializeError>)
        requires
            old(self).wf(),
        ensures
            final(self).wf(),
            add_game_post(*old(self), *final(self), result, opt_slice_view(start_position), moves@, r),
    {
        let ghost s0 = *self;
        let ghost start = opt_slice_view(start_position);
        let r = self.append_game(result, start_position, moves);
        let ghost s1 = *self;
        let close = match r {
            Ok(_) => self.games.len() >= self.max_games_per_block,
            Err(_) => false,
        };
        if close {
            self.finish_current_block();
        }
        proof {
            if s0.refs_valid(moves@) && s0.game_fits(start, moves@.len() as int) {
                let g = s0.game_view(result, start, moves@);
                assert(s1.pending() == s0.pending().push(g));
                assert(close == (s0.pending().len() + 1 >= s0.threshold()));
                if close {
                    assert(self.written() == s0.written().push(s0.pending().push(g)));
                    assert(self.pending() =~= Seq::<GameView>::empty());
                } else {
                    assert(*self == s1);
                }
            }
        }
        r
    }

    /// Appends a game record to the current block, without closing it.
    fn append_game(
        &mut self,
        result: GameResult,
        start_position: Option<&[u8]>,
        moves: &[MoveRef],
    ) -> (r: Result<GameRef, SerializeError>)
        requires
            old(self).wf(),
        ensures
            final(self).wf(),
            !old(self).refs_valid(moves@) ==> r == Err::<GameRef, SerializeError>(
                SerializeError::UnknownMove,
            ) && *final(self) == *old(self),
            old(self).refs_valid(moves@) && !old(self).game_fits(
                opt_slice_view(start_position),
                moves@.len() as int,
            ) ==> r == Err::<GameRef, SerializeError>(SerializeError::BlockFull) && *final(self)
                == *old(self),
            old(self).refs_valid(moves@) && old(self).game_fits(
                opt_slice_view(start_position),
                moves@.len() as int,
            ) ==> {
                let g = old(self).game_view(result, opt_slice_view(start_position), moves@);
                &&& r == Ok::<GameRef, SerializeError>(
                    GameRef { offset: old(self).arena().len() as u32 },
                )
                &&& final(self).added() == old(self).added().push(g)
                &&& final(self).pending() == old(self).pending().push(g)
                &&& final(self).same_history(old(self))
                &&& final(self).table() == old(self).table()
                &&& is_prefix(old(self).arena(), final(self).arena())
                &&& final(self).arena().len() == old(self).arena().len() + game_record_len(
                    opt_slice_view(start_position),
                    moves@.len() as int,
                )
                &&& final(self).games@.len() == final(self).pending().len()
            },
    {
        let ghost start = opt_slice_view(start_position);
        let ghost gv = self.game_view(result, start, moves@);
        let mut offs: Vec<u32> = Vec::new();
        let mut i: usize = 0;
        while i < moves.len()
            invariant
                *self == *old(self),
                self.wf(),
                gv == self.game_view(result, start, moves@),
                i <= moves@.len(),
                offs@.len() == i,
                forall|j: int|
                    0 <= j < i ==> offs@[j] == moves@[j].offset && #[trigger] self.move_of_ref(
                        moves@[j],
                    ) is Some,
            decreases moves@.len() - i,
        {
            let o = moves[i].offset as usize;
            if o > self.arena.len() || self.arena.len() - o < 8 {
                assert(self.move_of_ref(moves@[i as int]) is None);
                return Err(SerializeError::UnknownMove);
            }
            match decode_move(self.arena.as_slice(), o) {
                None => {
                    assert(self.move_of_ref(moves@[i as int]) is None);
                    return Err(SerializeError::UnknownMove);
                },
                Some(_) => {},
            }
            offs.push(moves[i].offset);
            i = i + 1;
        }
        assert(self.refs_valid(moves@));
        let used = self.arena.len() + 4 * self.games.len() + 13;
        let room = MAX_BLOCK_LEN - used;
        let fen_part: usize = match start_position {
            None => 0,
            Some(s) => {
                if s.len() > room {
                    return Err(SerializeError::BlockFull);
                }
                s.len() + 4
            },
        };
        if fen_part > room || room - fen_part < 10 {
            return Err(SerializeError::BlockFull);
        }
        let left = room - fen_part - 10;
        if moves.len() > left || (moves.len() as u64) * 4 > left as u64 {
            return Err(SerializeError::BlockFull);
        }
        let g = self.arena.len() as u32;
        let ghost a0 = self.arena@;
        self.arena.push(encode_result(result));
        match start_position {
            None => {
                self.arena.push(0);
            },
            Some(s) => {
                self.arena.push(1);
                push_u32(&mut self.arena, s.len() as u32);
                push_bytes(&mut self.arena, s);
            },
        }
        let ghost a1 = self.arena@;
        push_list(&mut self.arena, offs.as_slice());
        proof {
            lemma_new_game(a0, result, start, offs@, gv.moves, a1, self.arena@);
            assert forall|m: Move| #[trigger] self.table@.contains_key(m) implies move_at(
                self.arena@,
                self.table@[m] as int,
            ) == Some(m) by {
                lemma_move_at_extend(a0, self.arena@, self.table@[m] as int);
            }
            assert forall|j: int| 0 <= j < self.games@.len() implies game_at(
                self.arena@,
                #[trigger] self.games@[j] as int,
            ) == Some(self.pending@[j]) by {
                lemma_game_at_extend(a0, self.arena@, self.games@[j] as int);
            }
        }
        let ghost games0 = self.games@;
        let ghost pending0 = self.pending@;
        self.games.push(g);
        self.pending = Ghost(self.pending@.push(gv));
        self.added = Ghost(self.added@.push(gv));
        proof {
            assert forall|j: int| 0 <= j < self.games@.len() implies game_at(
                self.arena@,
                #[trigger] self.games@[j] as int,
            ) == Some(self.pending@[j]) by {
                if j < games0.len() {
                    assert(self.games@[j] == games0[j]);
                    assert(self.pending@[j] == pending0[j]);
                }
            }
            assert(flatten(self.written@) + self.pending@ =~= self.added@);
        }
        Ok(GameRef { offset: g })
    }

    /// Hands out the emitted bytes that have not been taken yet.
    pub fn take_output(&mut self) -> (r: Vec<u8>)
        requires
            old(self).wf(),
        ensures
            final(self).wf(),
            r@ == old(self).output(),
            final(self).output().len() == 0,
            final(self).stream() == old(self).stream(),
            final(self).table() == old(self).table(),
            final(self).arena() == old(self).arena(),
            final(self).pending() == old(self).pending(),
            final(self).written() == old(self).written(),
            final(self).payloads() == old(self).payloads(),
            final(self).added() == old(self).added(),
            final(self).threshold() == old(self).threshold(),
    {
        let mut r: Vec<u8> = Vec::new();
        std::mem::swap(&mut r, &mut self.out);
        self.drained = Ghost(self.drained@ + r@);
        assert(self.drained@ + self.out@ =~= old(self).drained@ + old(self).out@);
        r
    }

    /// Closes the current block: writes the archive of its games, the block
    /// record and the trailing position, emits the block behind its length and
    /// starts an empty block. A block with no games is still emitted.
    pub fn finish_current_block(&mut self)
        requires
            old(self).wf(),
        ensures
            final(self).wf(),
            final(self).table() == Map::<Move, u32>::empty(),
            final(self).arena().len() == 0,
            final(self).pending().len() == 0,
            final(self).written() == old(self).written().push(old(self).pending()),
            final(self).payloads().len() == old(self).payloads().len() + 1,
            final(self).payloads() == old(self).payloads().push(final(self).payloads().last()),
            parse_block(final(self).payloads().last()) == Some(old(self).pending()),
            final(self).payloads().last().len() == old(self).arena().len() + tail_len(
                old(self).pending().len() as int,
            ),
            final(self).output() == old(self).output() + frame(final(self).payloads().last()),
            final(self).stream() == old(self).stream() + frame(final(self).payloads().last()),
            final(self).added() == old(self).added(),
            final(self).threshold() == old(self).threshold(),
    {
        let ghost a0 = self.arena@;
        let ghost n = self.games@.len();
        let a = self.arena.len() as u32;
        push_list(&mut self.arena, self.games.as_slice());
        let ghost a1 = self.arena@;
        let r = self.arena.len() as u32;
        self.arena.push(ARCHIVE_KIND);
        let ghost a15 = self.arena@;
        push_u32(&mut self.arena, a);
        let ghost a2 = self.arena@;
        push_u32(&mut self.arena, r);
        let ghost a3 = self.arena@;
        let mut payload: Vec<u8> = Vec::new();
        std::mem::swap(&mut payload, &mut self.arena);
        proof {
            lemma_closed_block(a0, self.games@, self.pending@, a1, a15, a2, a3, a, r);
        }
        let ghost out0 = self.out@;
        push_u32(&mut self.out, payload.len() as u32);
        self.out.append(&mut payload);
        self.move_map.clear();
        self.games.clear();
        let ghost p = a3;
        let ghost old_pending = self.pending@;
        self.table = Ghost(Map::empty());
        self.written = Ghost(self.written@.push(self.pending@));
        self.payloads = Ghost(self.payloads@.push(p));
        self.pending = Ghost(Seq::empty());
        proof {
            assert(self.out@ =~= out0 + frame(p));
            assert(self.payloads@.drop_last() =~= old(self).payloads@);
            assert(self.written@.drop_last() =~= old(self).written@);
            assert(self.drained@ + self.out@ =~= frames(self.payloads@));
            assert forall|i: int| 0 <= i < self.payloads@.len() implies #[trigger] self.payloads@[i].len()
                <= MAX_BLOCK_LEN by {
                if i < self.payloads@.len() - 1 {
                    assert(self.payloads@[i] == old(self).payloads@[i]);
                }
            }
            assert forall|i: int| 0 <= i < self.payloads@.len() implies parse_block(
                #[trigger] self.payloads@[i],
            ) == Some(self.written@[i]) by {
                if i < self.payloads@.len() - 1 {
                    assert(self.payloads@[i] == old(self).payloads@[i]);
                }
            }
            assert(flatten(self.written@) =~= flatten(old(self).written@) + old_pending);
            assert(flatten(self.written@) + self.pending@ =~= self.added@);
            assert(self.drained@ + self.out@ =~= old(self).drained@ + old(self).out@ + frame(p));
        }
    }

    /// The table and the key map have as many entries.
    proof fn lemma_table_len(&self)
        requires
            self.wf(),
        ensures
            self.move_map@.dom().len() == self.table@.dom().len(),
    {
        let f = |m: Move| move_key(m);
        assert forall|a: Move, b: Move| #[trigger] f(a) == #[trigger] f(b) implies a == b by {
            lemma_move_key(a);
            lemma_move_key(b);
        }
        assert(self.table@.dom().map(f) =~= self.move_map@.dom()) by {
            assert forall|k: u64| self.move_map@.dom().contains(k) implies #[trigger] self.table@.dom().map(f).contains(k) by {
                let m = move_of_bytes(bytes_of_key(k)).unwrap();
                assert(self.table@.contains_key(m));
                assert(self.move_map@[move_key(m)] == self.table@[m]);
                lemma_move_key(m);
                assert(move_key(m) == k) by {
                    lemma_key_unique(k, m);
                }
            }
        }
        vstd::set_lib::lemma_map_size(self.table@.dom(), self.move_map@.dom(), f);
    }
}

/// What adding move `m` does: a move that the block holds already gives its
/// reference and stores nothing; a new one is stored at the end of the block,
/// if it fits.
pub open spec fn add_move_post(
    s0: Serializer,
    s1: Serializer,
    m: Move,
    r: Result<MoveRef, SerializeError>,
) -> bool {
    &&& s1.same_history(&s0)
    &&& s1.pending() == s0.pending()
    &&& s1.added() == s0.added()
    &&& s0.table().contains_key(m) ==> {
        &&& r == Ok::<MoveRef, SerializeError>(MoveRef { offset: s0.table()[m] })
        &&& s1.table() == s0.table()
        &&& s1.arena() == s0.arena()
    }
    &&& !s0.table().contains_key(m) && s0.arena().len() + 8 + tail_len(s0.pending().len() as int)
        <= MAX_BLOCK_LEN ==> {
        &&& r == Ok::<MoveRef, SerializeError>(MoveRef { offset: s0.arena().len() as u32 })
        &&& s1.table() == s0.table().insert(m, s0.arena().len() as u32)
        &&& s1.arena() == s0.arena() + move_bytes(m)
    }
    &&& !s0.table().contains_key(m) && s0.arena().len() + 8 + tail_len(s0.pending().len() as int)
        > MAX_BLOCK_LEN ==> {
        &&& r == Err::<MoveRef, SerializeError>(SerializeError::BlockFull)
        &&& s1.table() == s0.table()
        &&& s1.arena() == s0.arena()
    }
    &&& r matches Ok(mr) ==> s1.move_of_ref(mr) == Some(m)
}

/// What adding a game does: a reference to no move of the block, or a record
/// that does not fit, is refused and changes nothing; otherwise the game is
/// appended to the block, which is closed once it holds as many games as the
/// threshold.
pub open spec fn add_game_post(
    s0: Serializer,
    s1: Serializer,
    result: GameResult,
    start: Option<Seq<u8>>,
    moves: Seq<MoveRef>,
    r: Result<GameRef, SerializeError>,
) -> bool {
    &&& s1.threshold() == s0.threshold()
    &&& !s0.refs_valid(moves) ==> r == Err::<GameRef, SerializeError>(SerializeError::UnknownMove)
        && s1.unchanged(&s0)
    &&& s0.refs_valid(moves) && !s0.game_fits(start, moves.len() as int) ==> r == Err::<
        GameRef,
        SerializeError,
    >(SerializeError::BlockFull) && s1.unchanged(&s0)
    &&& s0.refs_valid(moves) && s0.game_fits(start, moves.len() as int) ==> {
        let g = s0.game_view(result, start, moves);
        &&& r == Ok::<GameRef, SerializeError>(GameRef { offset: s0.arena().len() as u32 })
        &&& s1.added() == s0.added().push(g)
        &&& (s1.written(), s1.pending()) == chunk_step(s0.written(), s0.pending(), s0.threshold(), g)
        &&& s0.pending().len() + 1 < s0.threshold() ==> {
            &&& s1.table() == s0.table()
            &&& is_prefix(s0.arena(), s1.arena())
            &&& s1.arena().len() == s0.arena().len() + game_record_len(start, moves.len() as int)
            &&& s1.payloads() == s0.payloads()
            &&& s1.stream() == s0.stream()
            &&& s1.output() == s0.output()
        }
        &&& s0.pending().len() + 1 >= s0.threshold() ==> {
            &&& s1.table() == Map::<Move, u32>::empty()
            &&& s1.arena().len() == 0
            &&& s1.payloads() == s0.payloads().push(s1.payloads().last())
            &&& parse_block(s1.payloads().last()) == Some(s0.pending().push(g))
            &&& s1.output() == s0.output() + frame(s1.payloads().last())
            &&& s1.stream() == s0.stream() + frame(s1.payloads().last())
        }
    }
}

/// Adding the same move twice within a block returns the same reference both
/// times, and the second call stores nothing.
pub proof fn lemma_add_move_twice(
    s0: Serializer,
    s1: Serializer,
    s2: Serializer,
    m: Move,
    r1: Result<MoveRef, SerializeError>,
    r2: Result<MoveRef, SerializeError>,
)
    requires
        add_move_post(s0, s1, m, r1),
        add_move_post(s1, s2, m, r2),
        r1 is Ok,
    ensures
        r2 == r1,
        s2.table() == s1.table(),
        s2.arena() == s1.arena(),
{
}

/// Adding one move `n` times within a block stores it at most once: every
/// call returns the reference of the first, the table gains at most that one
/// entry and the block at most its eight bytes.
pub proof fn lemma_dedup_within_block(
    states: Seq<Serializer>,
    m: Move,
    rs: Seq<Result<MoveRef, SerializeError>>,
)
    requires
        rs.len() >= 1,
        states.len() == rs.len() + 1,
        forall|i: int| 0 <= i < rs.len() ==> add_move_post(states[i], states[i + 1], m, #[trigger] rs[i]),
        rs[0] is Ok,
    ensures
        forall|i: int| 0 <= i < rs.len() ==> #[trigger] rs[i] == rs[0],
        states.last().table() == states[1].table(),
        states.last().arena() == states[1].arena(),
        states[1].table().dom() == states[0].table().dom().insert(m),
        states[1].arena().len() <= states[0].arena().len() + 8,
    decreases rs.len(),
{
    if rs.len() > 1 {
        let st = states.drop_last();
        let rr = rs.drop_last();
        assert forall|i: int| 0 <= i < rr.len() implies add_move_post(st[i], st[i + 1], m, #[trigger] rr[i]) by {
            assert(add_move_post(states[i], states[i + 1], m, rs[i]));
        }
        lemma_dedup_within_block(st, m, rr);
        let n = rs.len() - 1;
        assert(add_move_post(states[n], states[n + 1], m, rs[n]));
        assert(rr[n - 1] == rs[0]);
        assert(states[n] == st.last());
        lemma_add_move_twice(states[n - 1], states[n], states[n + 1], m, rs[n - 1], rs[n]);
        assert forall|i: int| 0 <= i < rs.len() implies #[trigger] rs[i] == rs[0] by {
            if i < n {
                assert(rr[i] == rs[i]);
            }
        }
    }
    assert(add_move_post(states[0], states[1], m, rs[0]));
    assert(states[1].table().dom() =~= states[0].table().dom().insert(m));
}

/// Blocks share no move: in a fresh block, as closing one leaves it, a move
/// is stored anew even if an earlier block held it.
pub proof fn lemma_no_sharing_across_blocks(
    s0: Serializer,
    s1: Serializer,
    m: Move,
    r: Result<MoveRef, SerializeError>,
)
    requires
        s0.table() == Map::<Move, u32>::empty(),
        add_move_post(s0, s1, m, r),
        r is Ok,
    ensures
        s1.arena() == s0.arena() + move_bytes(m),
        s1.table() == Map::<Move, u32>::empty().insert(m, s0.arena().len() as u32),
{
}

/// Where the games stand after each of `gs` was added in turn, starting from
/// no block and an empty one.
pub open spec fn chunk_all(t: nat, gs: Seq<GameView>) -> (Seq<Seq<GameView>>, Seq<GameView>)
    decreases gs.len(),
{
    if gs.len() == 0 {
        (Seq::empty(), Seq::empty())
    } else {
        let (w, p) = chunk_all(t, gs.drop_last());
        chunk_step(w, p, t, gs.last())
    }
}

proof fn lemma_chunk_all_shape(t: nat, gs: Seq<GameView>)
    requires
        t > 0,
    ensures
        chunk_all(t, gs).0.len() * t + chunk_all(t, gs).1.len() == gs.len(),
        chunk_all(t, gs).1.len() < t,
        forall|i: int|
            0 <= i < chunk_all(t, gs).0.len() ==> (#[trigger] chunk_all(t, gs).0[i]).len() == t,
        flatten(chunk_all(t, gs).0) + chunk_all(t, gs).1 == gs,
    decreases gs.len(),
{
    if gs.len() > 0 {
        let (w, p) = chunk_all(t, gs.drop_last());
        lemma_chunk_all_shape(t, gs.drop_last());
        let g = gs.last();
        let wl = w.len();
        assert((wl + 1) * t == wl * t + t) by (nonlinear_arith);
        assert(flatten(w) + p == gs.drop_last());
        assert(gs.drop_last().push(g) =~= gs);
        assert(flatten(w) + p.push(g) =~= (flatten(w) + p).push(g));
        if p.len() + 1 >= t {
            let w2 = w.push(p.push(g));
            assert(w2.drop_last() =~= w);
            assert(flatten(w2) =~= flatten(w) + p.push(g));
            assert(flatten(w2) + Seq::<GameView>::empty() =~= gs);
            assert forall|i: int| 0 <= i < w2.len() implies (#[trigger] w2[i]).len() == t by {
                if i < w.len() {
                    assert(w2[i] == w[i]);
                }
            }
        } else {
            assert(flatten(w) + p.push(g) =~= gs);
        }
    }
}

/// Adding `k * t + r` games at threshold `t`, with `0 < r < t`, and then
/// closing the last block gives `k + 1` blocks: the first `k` hold `t` games
/// each, the last `r`; together they hold the games in order.
pub proof fn lemma_block_chunking(t: nat, gs: Seq<GameView>, k: nat, r: nat)
    requires
        0 < r < t,
        gs.len() == k * t + r,
    ensures
        chunk_all(t, gs).0.push(chunk_all(t, gs).1).len() == k + 1,
        forall|i: int| 0 <= i < k ==> (#[trigger] chunk_all(t, gs).0.push(chunk_all(t, gs).1)[i]).len() == t,
        chunk_all(t, gs).0.push(chunk_all(t, gs).1)[k as int].len() == r,
        flatten(chunk_all(t, gs).0.push(chunk_all(t, gs).1)) == gs,
{
    let (w, p) = chunk_all(t, gs);
    lemma_chunk_all_shape(t, gs);
    vstd::arithmetic::div_mod::lemma_fundamental_div_mod_converse(gs.len() as int, t as int, k as int, r as int);
    vstd::arithmetic::div_mod::lemma_fundamental_div_mod_converse(gs.len() as int, t as int, w.len() as int, p.len() as int);
    let b = w.push(p);
    assert(b.drop_last() =~= w);
    assert forall|i: int| 0 <= i < k implies (#[trigger] b[i]).len() == t by {
        assert(b[i] == w[i]);
    }
}

/// Decoding blocks that each decode to their games gives all the games in
/// order and skips none.
proof fn lemma_decoded_payloads(ps: Seq<Seq<u8>>, ws: Seq<Seq<GameView>>)
    requires
        ps.len() == ws.len(),
        forall|i: int| 0 <= i < ps.len() ==> parse_block(#[trigger] ps[i]) == Some(ws[i]),
    ensures
        decoded_games(ps) == flatten(ws),
        skipped_blocks(ps) == 0,
    decreases ps.len(),
{
    if ps.len() > 0 {
        assert(parse_block(ps.last()) == Some(ws.last()));
        lemma_decoded_payloads(ps.drop_last(), ws.drop_last());
    }
}

/// Once its last block is closed, the bytes a serializer emitted scan into
/// the blocks it closed, and decode to every game it was given, in the order
/// it was given them, with no block skipped.
pub proof fn lemma_round_trip(s: Serializer)
    requires
        s.wf(),
        s.pending().len() == 0,
    ensures
        scan(s.stream()) == s.payloads(),
        decoded_games(scan(s.stream())) == s.added(),
        skipped_blocks(scan(s.stream())) == 0,
{
    lemma_scan_frames(s.payloads@);
    lemma_decoded_payloads(s.payloads@, s.written@);
    assert(flatten(s.written@) + s.pending@ =~= flatten(s.written@));
}

/// Once its last block is closed, every game that a serializer was given is
/// read back at its place and replays exactly as the game that was given:
/// the same full moves and the same result, or the same error.
pub proof fn lemma_round_trip_replay(s: Serializer, i: int)
    requires
        s.wf(),
        s.pending().len() == 0,
        0 <= i < s.added().len(),
    ensures
        decoded_games(scan(s.stream())).len() == s.added().len(),
        decoded_games(scan(s.stream()))[i] == s.added()[i],
        replay_spec(decoded_games(scan(s.stream()))[i]) == replay_spec(s.added()[i]),
{
    lemma_round_trip(s);
}

/// A game record appended to a block reads back as that game.
proof fn lemma_new_game(
    a0: Seq<u8>,
    result: GameResult,
    start: Option<Seq<u8>>,
    offs: Seq<u32>,
    ms: Seq<Move>,
    a1: Seq<u8>,
    a2: Seq<u8>,
)
    requires
        offs.len() == ms.len(),
        forall|j: int| 0 <= j < offs.len() ==> move_at(a0, #[trigger] offs[j] as int) == Some(ms[j]),
        a1 == match start {
            None => a0.push(result_code(result)).push(0),
            Some(s) => a0.push(result_code(result)).push(1) + u32_bytes(s.len() as u32) + s,
        },
        match start {
            None => true,
            Some(s) => s.len() <= u32::MAX,
        },
        is_prefix(a1, a2),
        a2.len() == a1.len() + 4 + 4 * offs.len(),
        list_fits(a2, a1.len() as int),
        u32_le(a2, a1.len() as int) == offs.len(),
        forall|j: int| 0 <= j < offs.len() ==> #[trigger] list_entry(a2, a1.len() as int, j) == offs[j],
    ensures
        game_at(a2, a0.len() as int) == Some(GameView { result, start_position: start, moves: ms }),
        is_prefix(a0, a2),
        a2.len() == a0.len() + game_record_len(start, offs.len() as int),
{
    let g = a0.len() as int;
    assert(is_prefix(a0, a1));
    lemma_prefix_trans(a0, a1, a2);
    assert(a2[g] == result_code(result));
    lemma_result_code(result);
    let p = a1.len() as int;
    match start {
        None => {
            assert(a2[g + 1] == 0);
        },
        Some(s) => {
            assert(a2[g + 1] == 1);
            lemma_u32_le_append(a0.push(result_code(result)).push(1), s.len() as u32);
            lemma_u32_le_prefix(a0.push(result_code(result)).push(1) + u32_bytes(s.len() as u32), a2, g + 2);
            assert(a2.subrange(g + 6, p) =~= s);
        },
    }
    assert(game_head(a2, g) == Some((result, start, p)));
    assert forall|j: int| 0 <= j < offs.len() implies #[trigger] move_at(a2, list_entry(a2, p, j))
        == Some(ms[j]) by {
        lemma_move_at_extend(a0, a2, offs[j] as int);
    }
    assert(Seq::new(offs.len() as nat, |j: int| move_at(a2, list_entry(a2, p, j)).unwrap()) =~= ms);
}

/// The bytes that closing a block appends make the whole a block of the
/// pending games.
proof fn lemma_closed_block(
    a0: Seq<u8>,
    games: Seq<u32>,
    pending: Seq<GameView>,
    a1: Seq<u8>,
    a15: Seq<u8>,
    a2: Seq<u8>,
    a3: Seq<u8>,
    a: u32,
    r: u32,
)
    requires
        games.len() == pending.len(),
        forall|i: int| 0 <= i < games.len() ==> game_at(a0, #[trigger] games[i] as int) == Some(pending[i]),
        a == a0.len(),
        is_prefix(a0, a1),
        a1.len() == a0.len() + 4 + 4 * games.len(),
        list_fits(a1, a as int),
        u32_le(a1, a as int) == games.len(),
        forall|j: int| 0 <= j < games.len() ==> #[trigger] list_entry(a1, a as int, j) == games[j],
        r == a1.len(),
        a15 == a1.push(ARCHIVE_KIND),
        a2 == a15 + u32_bytes(a),
        a3 == a2 + u32_bytes(r),
    ensures
        parse_block(a3) == Some(pending),
        is_prefix(a0, a3),
        a3.len() == a0.len() + tail_len(games.len() as int),
{
    let n = games.len();
    lemma_u32_le_append(a2, r);
    lemma_u32_le_append(a15, a);
    assert(is_prefix(a1, a15));
    lemma_prefix_trans(a1, a15, a2);
    lemma_prefix_trans(a1, a2, a3);
    lemma_prefix_trans(a15, a2, a3);
    lemma_prefix_trans(a0, a1, a3);
    assert(a3[r as int] == ARCHIVE_KIND);
    lemma_u32_le_prefix(a2, a3, r + 1);
    lemma_u32_le_prefix(a1, a3, a as int);
    assert(u32_le(a3, a3.len() - 4) == r);
    assert(u32_le(a3, r + 1) == a);
    assert(list_fits(a3, a as int));
    assert forall|j: int| 0 <= j < n implies #[trigger] game_at(a3, list_entry(a3, a as int, j))
        == Some(pending[j]) by {
        lemma_u32_le_prefix(a1, a3, a + 4 + 4 * j);
        assert(list_entry(a1, a as int, j) == games[j]);
        lemma_game_at_extend(a0, a3, games[j] as int);
    }
    assert(Seq::new(n as nat, |j: int| game_at(a3, list_entry(a3, a as int, j)).unwrap())
        =~= pending);
    assert(games_at(a3, a as int) == Some(pending));
}

proof fn lemma_prefix_trans(a: Seq<u8>, b: Seq<u8>, c: Seq<u8>)
    requires
        is_prefix(a, b),
        is_prefix(b, c),
    ensures
        is_prefix(a, c),
{
    assert forall|k: int| 0 <= k < a.len() implies #[trigger] c[k] == a[k] by {
        assert(c[k] == b[k]);
    }
}

/// A key whose bytes hold a move is that move's key.
proof fn lemma_key_unique(k: u64, m: Move)
    requires
        move_of_bytes(bytes_of_key(k)) == Some(m),
    ensures
        move_key(m) == k,
{
    lemma_move_bytes_canonical(bytes_of_key(k), m);
    lemma_unpack8(k);
}

proof fn lemma_unpack8(k: u64)
    by (bit_vector)
    ensures
        pack8(
            (k & 0xff) as u8,
            ((k >> 8u64) & 0xff) as u8,
            ((k >> 16u64) & 0xff) as u8,
            ((k >> 24u64) & 0xff) as u8,
            ((k >> 32u64) & 0xff) as u8,
            ((k >> 40u64) & 0xff) as u8,
            ((k >> 48u64) & 0xff) as u8,
            ((k >> 56u64) & 0xff) as u8,
        ) == k,
{
}

} // verus!
