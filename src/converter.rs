//! The encode-side state machine: it takes the events of a notation parser
//! (a game begins, a start position, each move, the outcome, the game ends),
//! turns moves into compact moves and feeds the serializer.
use vstd::prelude::*;
use crate::engine::{game_result_of_outcome, move_from_san, move_of_san, outcome_to_game_result};
use crate::schema::{GameView, Move};
use crate::serializer::{add_game_post, add_move_post, GameRef, MoveRef, SerializeError, Serializer};
use crate::stream::frame;
use crate::wire::{is_prefix, lemma_move_at_extend, parse_block};

verus! {

#[derive(Clone, Copy, Debug, PartialEq, Eq, Structural)]
pub enum ConvertError {
    /// A move kind that the archive has no form for (a piece drop, a null
    /// move).
    UnsupportedMove,
    /// The serializer refused the move or the game.
    Serialize(SerializeError),
}

/// Converts a stream of notation events into archive blocks.
pub struct Converter {
    serializer: Serializer,
    current_moves: Vec<MoveRef>,
    start_position: Option<Vec<u8>>,
    game_count: usize,
    current: Ghost<Seq<Move>>,
}

pub open spec fn opt_vec_view(o: Option<Vec<u8>>) -> Option<Seq<u8>> {
    match o {
        Some(v) => Some(v@),
        None => None,
    }
}

/// A converter's result as the serializer's.
pub open spec fn serializer_result<T>(r: Result<T, ConvertError>) -> Result<T, SerializeError> {
    match r {
        Ok(x) => Ok(x),
        Err(ConvertError::Serialize(e)) => Err(e),
        Err(ConvertError::UnsupportedMove) => Err(SerializeError::UnknownMove),
    }
}

impl Converter {
    pub closed spec fn serializer(&self) -> Serializer {
        self.serializer
    }

    /// The moves of the game being read so far.
    pub closed spec fn current_moves(&self) -> Seq<Move> {
        self.current@
    }

    /// The start position of the game being read, if it has its own.
    /// The references of the moves of the game being read so far.
    pub closed spec fn current_refs(&self) -> Seq<MoveRef> {
        self.current_moves@
    }

    /// A converter keeps its serializer well formed.
    pub proof fn lemma_serializer_wf(&self)
        requires
            self.wf(),
        ensures
            self.serializer().wf(),
    {
    }

    pub closed spec fn start_position(&self) -> Option<Seq<u8>> {
        opt_vec_view(self.start_position)
    }

    pub closed spec fn count(&self) -> nat {
        self.game_count as nat
    }

    pub closed spec fn wf(&self) -> bool {
        &&& self.serializer.wf()
        &&& self.current_moves@.len() == self.current@.len()
        &&& forall|i: int|
            0 <= i < self.current_moves@.len() ==> self.serializer.move_of_ref(
                #[trigger] self.current_moves@[i],
            ) == Some(self.current@[i])
    }

    /// A converter that feeds the given serializer.
    pub fn new(serializer: Serializer) -> (r: Self)
        requires
            serializer.wf(),
        ensures
            r.wf(),
            r.serializer() == serializer,
            r.current_moves().len() == 0,
            r.start_position() is None,
            r.count() == 0,
    {
        Converter {
            serializer,
            current_moves: Vec::new(),
            start_position: None,
            game_count: 0,
            current: Ghost(Seq::empty()),
        }
    }

    /// A game begins: its moves so far and its start position are cleared.
    pub fn begin_game(&mut self)
        requires
            old(self).wf(),
        ensures
            final(self).wf(),
            final(self).serializer() == old(self).serializer(),
            final(self).current_moves().len() == 0,
            final(self).start_position() is None,
            final(self).count() == old(self).count(),
    {
        self.current_moves.clear();
        self.start_position = None;
        self.current = Ghost(Seq::empty());
    }

    /// The game starts from the position of this FEN text.
    pub fn set_start_position(&mut self, fen: Vec<u8>)
        requires
            old(self).wf(),
        ensures
            final(self).wf(),
            final(self).serializer() == old(self).serializer(),
            final(self).current_moves() == old(self).current_moves(),
            final(self).start_position() == Some(fen@),
            final(self).count() == old(self).count(),
    {
        self.start_position = Some(fen);
    }

    /// A move of the game: it is turned into a compact move, added to the serializer, and
    /// its reference joins the game's move list.
    pub fn san(&mut self, san: shakmaty::san::San) -> (r: Result<MoveRef, ConvertError>)
        requires
            old(self).wf(),
        ensures
            final(self).wf(),
            final(self).start_position() == old(self).start_position(),
            final(self).count() == old(self).count(),
            move_of_san(san) is None ==> r == Err::<MoveRef, ConvertError>(ConvertError::UnsupportedMove)
                && final(self).serializer() == old(self).serializer()
                && final(self).current_refs() == old(self).current_refs()
                && final(self).current_moves() == old(self).current_moves(),
            move_of_san(san) matches Some(m) ==> {
                &&& add_move_post(old(self).serializer(), final(self).serializer(), m, serializer_result(r))
                &&& r != Err::<MoveRef, ConvertError>(ConvertError::UnsupportedMove)
                &&& r matches Ok(mr) ==> final(self).current_moves() == old(self).current_moves().push(m)
                    && final(self).current_refs() == old(self).current_refs().push(mr)
                &&& r is Err ==> final(self).current_moves() == old(self).current_moves()
                    && final(self).current_refs() == old(self).current_refs()
            },
    {
        let made_move = match move_from_san(san) {
            None => return Err(ConvertError::UnsupportedMove),
            Some(m) => m,
        };
        let ghost s0 = self.serializer;
        let r = self.serializer.add_move(&made_move);
        match r {
            Err(e) => {
                return Err(ConvertError::Serialize(e));
            },
            Ok(mr) => {
                proof {
                    assert(is_prefix(s0.arena(), self.serializer.arena()));
                    assert forall|i: int| 0 <= i < self.current_moves@.len() implies self.serializer.move_of_ref(
                        #[trigger] self.current_moves@[i],
                    ) == Some(self.current@[i]) by {
                        assert(s0.move_of_ref(self.current_moves@[i]) == Some(self.current@[i]));
                        lemma_move_at_extend(s0.arena(), self.serializer.arena(), self.current_moves@[i].offset as int);
                    }
                }
                let ghost before = self.current_moves@;
                self.current_moves.push(mr);
                self.current = Ghost(self.current@.push(made_move));
                proof {
                    assert forall|i: int| 0 <= i < self.current_moves@.len() implies self.serializer.move_of_ref(
                        #[trigger] self.current_moves@[i],
                    ) == Some(self.current@[i]) by {
                        if i < before.len() {
                            assert(self.current_moves@[i] == before[i]);
                        }
                    }
                }
                Ok(mr)
            },
        }
    }

    /// The outcome of the game: the game is added with its moves and start
    /// position, and the move list is cleared for the next game.
    pub fn outcome(&mut self, outcome: shakmaty::Outcome) -> (r: Result<GameRef, ConvertError>)
        requires
            old(self).wf(),
        ensures
            final(self).wf(),
            final(self).count() == old(self).count(),
            add_game_post(
                old(self).serializer(),
                final(self).serializer(),
                game_result_of_outcome(outcome),
                old(self).start_position(),
                old(self).current_refs(),
                serializer_result(r),
            ),
            r != Err::<GameRef, ConvertError>(ConvertError::UnsupportedMove),
            old(self).serializer().game_view(
                game_result_of_outcome(outcome),
                old(self).start_position(),
                old(self).current_refs(),
            ) == (GameView {
                result: game_result_of_outcome(outcome),
                start_position: old(self).start_position(),
                moves: old(self).current_moves(),
            }),
            r is Ok ==> final(self).current_moves().len() == 0 && final(self).current_refs().len() == 0,
            r is Err ==> final(self).current_moves() == old(self).current_moves(),
    {
        let result = outcome_to_game_result(outcome);
        let ghost s0 = self.serializer;
        proof {
            assert(s0.refs_valid(self.current_moves@));
            let g = s0.game_view(result, self.start_position(), self.current_moves@);
            assert(g.moves =~= self.current@);
        }
        let r = match &self.start_position {
            None => self.serializer.add_game(result, None, self.current_moves.as_slice()),
            Some(fen) => self.serializer.add_game(result, Some(fen.as_slice()), self.current_moves.as_slice()),
        };
        match r {
            Err(e) => {
                return Err(ConvertError::Serialize(e));
            },
            Ok(gr) => {
                self.current_moves.clear();
                self.current = Ghost(Seq::empty());
                Ok(gr)
            },
        }
    }

    /// The game ends: it is counted.
    pub fn end_game(&mut self)
        requires
            old(self).wf(),
        ensures
            final(self).wf(),
            final(self).serializer() == old(self).serializer(),
            final(self).current_moves() == old(self).current_moves(),
            final(self).start_position() == old(self).start_position(),
            old(self).count() < usize::MAX ==> final(self).count() == old(self).count() + 1,
            old(self).count() == usize::MAX ==> final(self).count() == old(self).count(),
    {
        if self.game_count < usize::MAX {
            self.game_count = self.game_count + 1;
        }
    }

    /// Closes the current block and emits it; to be called after the last
    /// game, or its block is lost.
    pub fn flush(&mut self)
        requires
            old(self).wf(),
        ensures
            final(self).wf(),
            final(self).serializer().pending().len() == 0,
            final(self).serializer().written() == old(self).serializer().written().push(
                old(self).serializer().pending(),
            ),
            final(self).serializer().added() == old(self).serializer().added(),
            final(self).serializer().payloads() == old(self).serializer().payloads().push(
                final(self).serializer().payloads().last(),
            ),
            parse_block(final(self).serializer().payloads().last()) == Some(
                old(self).serializer().pending(),
            ),
            final(self).serializer().output() == old(self).serializer().output() + frame(
                final(self).serializer().payloads().last(),
            ),
            final(self).serializer().stream() == old(self).serializer().stream() + frame(
                final(self).serializer().payloads().last(),
            ),
            final(self).serializer().table() == Map::<Move, u32>::empty(),
            final(self).serializer().arena().len() == 0,
            final(self).current_moves().len() == 0,
            final(self).count() == old(self).count(),
    {
        self.serializer.finish_current_block();
        self.current_moves.clear();
        self.current = Ghost(Seq::empty());
    }

    /// The number of games read to their end.
    pub fn game_count(&self) -> (r: usize)
        ensures
            r == self.count(),
    {
        self.game_count
    }

    /// Hands out the bytes emitted so far that have not been taken yet.
    pub fn take_output(&mut self) -> (r: Vec<u8>)
        requires
            old(self).wf(),
        ensures
            final(self).wf(),
            r@ == old(self).serializer().output(),
            final(self).serializer().stream() == old(self).serializer().stream(),
            final(self).serializer().added() == old(self).serializer().added(),
            final(self).current_moves() == old(self).current_moves(),
            final(self).count() == old(self).count(),
    {
        let r = self.serializer.take_output();
        proof {
            assert forall|i: int| 0 <= i < self.current_moves@.len() implies self.serializer.move_of_ref(
                #[trigger] self.current_moves@[i],
            ) == Some(self.current@[i]) by {
                assert(old(self).serializer.move_of_ref(self.current_moves@[i]) == Some(self.current@[i]));
            }
        }
        r
    }

    /// Gives back the serializer.
    pub fn into_serializer(self) -> (r: Serializer)
        requires
            self.wf(),
        ensures
            r == self.serializer(),
            r.wf(),
    {
        self.serializer
    }
}

} // verus!
