//! The entities of the archive: squares, pieces, moves and games, with the
//! byte codes that the block format stores for each of them.
use vstd::prelude::*;

verus! {

/// A file (column) of the board, `A` to `H`.
#[derive(Clone, Copy, Debug, PartialEq, Eq, Structural, Hash)]
pub enum File {
    A,
    B,
    C,
    D,
    E,
    F,
    G,
    H,
}

/// A rank (row) of the board, first to eighth.
#[derive(Clone, Copy, Debug, PartialEq, Eq, Structural, Hash)]
pub enum Rank {
    First,
    Second,
    Third,
    Fourth,
    Fifth,
    Sixth,
    Seventh,
    Eighth,
}

/// One of the 64 squares, as a file and a rank.
#[derive(Clone, Copy, Debug, PartialEq, Eq, Structural, Hash)]
pub struct Square {
    pub file: File,
    pub rank: Rank,
}

#[derive(Clone, Copy, Debug, PartialEq, Eq, Structural, Hash)]
pub enum Piece {
    King,
    Queen,
    Rook,
    Bishop,
    Knight,
    Pawn,
}

#[derive(Clone, Copy, Debug, PartialEq, Eq, Structural, Hash)]
pub enum CastleKind {
    Kingside,
    Queenside,
}

#[derive(Clone, Copy, Debug, PartialEq, Eq, Structural, Hash)]
pub enum GameResult {
    WhiteWin,
    BlackWin,
    Draw,
    Unknown,
}

/// A move as the notation gives it: the moved piece, the target square and
/// only as much of the origin as is needed to tell it apart.
///
/// A castling move has `moved_piece == King`, `castle` set and every other
/// field at its default.
#[derive(Clone, Copy, Debug, PartialEq, Eq, Structural, Hash)]
pub struct Move {
    pub moved_piece: Piece,
    pub to: Square,
    pub is_capture: bool,
    pub promoted_piece: Option<Piece>,
    pub castle: Option<CastleKind>,
    pub from_file: Option<File>,
    pub from_rank: Option<Rank>,
}

/// The square `A1`, the default target of a castling move.
pub open spec fn corner() -> Square {
    Square { file: File::A, rank: Rank::First }
}

/// The castling move on the given side, in its canonical shape.
pub open spec fn castle_move(kind: CastleKind) -> Move {
    Move {
        moved_piece: Piece::King,
        to: corner(),
        is_capture: false,
        promoted_piece: None,
        castle: Some(kind),
        from_file: None,
        from_rank: None,
    }
}

/// A game read back from an archive.
#[derive(Clone, Debug)]
pub struct Game {
    pub result: GameResult,
    /// The FEN text of the start position; `None` for the standard one.
    pub start_position: Option<Vec<u8>>,
    pub moves: Vec<Move>,
}

/// What a game holds, as mathematical values.
pub struct GameView {
    pub result: GameResult,
    pub start_position: Option<Seq<u8>>,
    pub moves: Seq<Move>,
}

pub open spec fn opt_bytes_view(o: Option<Vec<u8>>) -> Option<Seq<u8>> {
    match o {
        Some(v) => Some(v@),
        None => None,
    }
}

impl View for Game {
    type V = GameView;

    open spec fn view(&self) -> GameView {
        GameView {
            result: self.result,
            start_position: opt_bytes_view(self.start_position),
            moves: self.moves@,
        }
    }
}

// ---- byte codes ----

pub open spec fn file_code(f: File) -> u8 {
    match f {
        File::A => 0,
        File::B => 1,
        File::C => 2,
        File::D => 3,
        File::E => 4,
        File::F => 5,
        File::G => 6,
        File::H => 7,
    }
}

pub open spec fn file_of_code(c: u8) -> Option<File> {
    if c == 0 {
        Some(File::A)
    } else if c == 1 {
        Some(File::B)
    } else if c == 2 {
        Some(File::C)
    } else if c == 3 {
        Some(File::D)
    } else if c == 4 {
        Some(File::E)
    } else if c == 5 {
        Some(File::F)
    } else if c == 6 {
        Some(File::G)
    } else if c == 7 {
        Some(File::H)
    } else {
        None
    }
}

pub open spec fn rank_code(r: Rank) -> u8 {
    match r {
        Rank::First => 0,
        Rank::Second => 1,
        Rank::Third => 2,
        Rank::Fourth => 3,
        Rank::Fifth => 4,
        Rank::Sixth => 5,
        Rank::Seventh => 6,
        Rank::Eighth => 7,
    }
}

pub open spec fn rank_of_code(c: u8) -> Option<Rank> {
    if c == 0 {
        Some(Rank::First)
    } else if c == 1 {
        Some(Rank::Second)
    } else if c == 2 {
        Some(Rank::Third)
    } else if c == 3 {
        Some(Rank::Fourth)
    } else if c == 4 {
        Some(Rank::Fifth)
    } else if c == 5 {
        Some(Rank::Sixth)
    } else if c == 6 {
        Some(Rank::Seventh)
    } else if c == 7 {
        Some(Rank::Eighth)
    } else {
        None
    }
}

pub open spec fn piece_code(p: Piece) -> u8 {
    match p {
        Piece::King => 0,
        Piece::Queen => 1,
        Piece::Rook => 2,
        Piece::Bishop => 3,
        Piece::Knight => 4,
        Piece::Pawn => 5,
    }
}

pub open spec fn piece_of_code(c: u8) -> Option<Piece> {
    if c == 0 {
        Some(Piece::King)
    } else if c == 1 {
        Some(Piece::Queen)
    } else if c == 2 {
        Some(Piece::Rook)
    } else if c == 3 {
        Some(Piece::Bishop)
    } else if c == 4 {
        Some(Piece::Knight)
    } else if c == 5 {
        Some(Piece::Pawn)
    } else {
        None
    }
}

pub open spec fn result_code(r: GameResult) -> u8 {
    match r {
        GameResult::WhiteWin => 0,
        GameResult::BlackWin => 1,
        GameResult::Draw => 2,
        GameResult::Unknown => 3,
    }
}

pub open spec fn result_of_code(c: u8) -> Option<GameResult> {
    if c == 0 {
        Some(GameResult::WhiteWin)
    } else if c == 1 {
        Some(GameResult::BlackWin)
    } else if c == 2 {
        Some(GameResult::Draw)
    } else if c == 3 {
        Some(GameResult::Unknown)
    } else {
        None
    }
}

pub open spec fn bool_code(b: bool) -> u8 {
    if b {
        1
    } else {
        0
    }
}

pub open spec fn bool_of_code(c: u8) -> Option<bool> {
    if c == 0 {
        Some(false)
    } else if c == 1 {
        Some(true)
    } else {
        None
    }
}

/// An absent piece is `0`, a present one its code plus one.
pub open spec fn opt_piece_code(p: Option<Piece>) -> u8 {
    match p {
        None => 0,
        Some(p) => (piece_code(p) + 1) as u8,
    }
}

pub open spec fn opt_piece_of_code(c: u8) -> Option<Option<Piece>> {
    if c == 0 {
        Some(None)
    } else {
        match piece_of_code((c - 1) as u8) {
            Some(p) => Some(Some(p)),
            None => None,
        }
    }
}

pub open spec fn opt_file_code(f: Option<File>) -> u8 {
    match f {
        None => 0,
        Some(f) => (file_code(f) + 1) as u8,
    }
}

pub open spec fn opt_file_of_code(c: u8) -> Option<Option<File>> {
    if c == 0 {
        Some(None)
    } else {
        match file_of_code((c - 1) as u8) {
            Some(f) => Some(Some(f)),
            None => None,
        }
    }
}

pub open spec fn opt_rank_code(r: Option<Rank>) -> u8 {
    match r {
        None => 0,
        Some(r) => (rank_code(r) + 1) as u8,
    }
}

pub open spec fn opt_rank_of_code(c: u8) -> Option<Option<Rank>> {
    if c == 0 {
        Some(None)
    } else {
        match rank_of_code((c - 1) as u8) {
            Some(r) => Some(Some(r)),
            None => None,
        }
    }
}

pub open spec fn castle_code(k: Option<CastleKind>) -> u8 {
    match k {
        None => 0,
        Some(CastleKind::Kingside) => 1,
        Some(CastleKind::Queenside) => 2,
    }
}

pub open spec fn castle_of_code(c: u8) -> Option<Option<CastleKind>> {
    if c == 0 {
        Some(None)
    } else if c == 1 {
        Some(Some(CastleKind::Kingside))
    } else if c == 2 {
        Some(Some(CastleKind::Queenside))
    } else {
        None
    }
}

/// The eight bytes that store a move: piece, target file, target rank,
/// capture flag, promotion, castling side, file hint, rank hint.
pub open spec fn move_bytes(m: Move) -> Seq<u8> {
    seq![
        piece_code(m.moved_piece),
        file_code(m.to.file),
        rank_code(m.to.rank),
        bool_code(m.is_capture),
        opt_piece_code(m.promoted_piece),
        castle_code(m.castle),
        opt_file_code(m.from_file),
        opt_rank_code(m.from_rank),
    ]
}

/// The move that eight bytes store, if they are a valid record.
pub open spec fn move_of_bytes(b: Seq<u8>) -> Option<Move> {
    if b.len() != 8 {
        None
    } else {
        match (
            piece_of_code(b[0]),
            file_of_code(b[1]),
            rank_of_code(b[2]),
            bool_of_code(b[3]),
            opt_piece_of_code(b[4]),
            castle_of_code(b[5]),
            opt_file_of_code(b[6]),
            opt_rank_of_code(b[7]),
        ) {
            (Some(p), Some(f), Some(r), Some(c), Some(pr), Some(k), Some(ff), Some(fr)) => Some(
                Move {
                    moved_piece: p,
                    to: Square { file: f, rank: r },
                    is_capture: c,
                    promoted_piece: pr,
                    castle: k,
                    from_file: ff,
                    from_rank: fr,
                },
            ),
            _ => None,
        }
    }
}

proof fn lemma_field_codes(m: Move)
    ensures
        piece_of_code(piece_code(m.moved_piece)) == Some(m.moved_piece),
        file_of_code(file_code(m.to.file)) == Some(m.to.file),
        rank_of_code(rank_code(m.to.rank)) == Some(m.to.rank),
        bool_of_code(bool_code(m.is_capture)) == Some(m.is_capture),
{
}

proof fn lemma_option_codes(m: Move)
    ensures
        opt_piece_of_code(opt_piece_code(m.promoted_piece)) == Some(m.promoted_piece),
        castle_of_code(castle_code(m.castle)) == Some(m.castle),
        opt_file_of_code(opt_file_code(m.from_file)) == Some(m.from_file),
        opt_rank_of_code(opt_rank_code(m.from_rank)) == Some(m.from_rank),
{
}

pub proof fn lemma_move_bytes_round_trip(m: Move)
    ensures
        move_of_bytes(move_bytes(m)) == Some(m),
        move_bytes(m).len() == 8,
{
    lemma_field_codes(m);
    lemma_option_codes(m);
    let b = move_bytes(m);
    assert(b[0] == piece_code(m.moved_piece) && b[1] == file_code(m.to.file) && b[2] == rank_code(
        m.to.rank,
    ) && b[3] == bool_code(m.is_capture) && b[4] == opt_piece_code(m.promoted_piece) && b[5]
        == castle_code(m.castle) && b[6] == opt_file_code(m.from_file) && b[7] == opt_rank_code(
        m.from_rank,
    ));
}

proof fn lemma_field_codes_canonical(b: Seq<u8>, m: Move)
    requires
        b.len() == 8,
        move_of_bytes(b) == Some(m),
    ensures
        b[0] == piece_code(m.moved_piece),
        b[1] == file_code(m.to.file),
        b[2] == rank_code(m.to.rank),
        b[3] == bool_code(m.is_capture),
{
}

proof fn lemma_option_codes_canonical(b: Seq<u8>, m: Move)
    requires
        b.len() == 8,
        move_of_bytes(b) == Some(m),
    ensures
        b[4] == opt_piece_code(m.promoted_piece),
        b[5] == castle_code(m.castle),
        b[6] == opt_file_code(m.from_file),
        b[7] == opt_rank_code(m.from_rank),
{
}

/// Every valid record is the record of the move it decodes to.
pub proof fn lemma_move_bytes_canonical(b: Seq<u8>, m: Move)
    requires
        move_of_bytes(b) == Some(m),
    ensures
        move_bytes(m) == b,
{
    lemma_field_codes_canonical(b, m);
    lemma_option_codes_canonical(b, m);
    assert(move_bytes(m) =~= b);
}

pub proof fn lemma_result_code(r: GameResult)
    ensures
        result_of_code(result_code(r)) == Some(r),
{
}

// ---- executable codecs ----

pub fn encode_file(f: File) -> (c: u8)
    ensures
        c == file_code(f),
{
    match f {
        File::A => 0,
        File::B => 1,
        File::C => 2,
        File::D => 3,
        File::E => 4,
        File::F => 5,
        File::G => 6,
        File::H => 7,
    }
}

pub fn decode_file(c: u8) -> (f: Option<File>)
    ensures
        f == file_of_code(c),
{
    match c {
        0 => Some(File::A),
        1 => Some(File::B),
        2 => Some(File::C),
        3 => Some(File::D),
        4 => Some(File::E),
        5 => Some(File::F),
        6 => Some(File::G),
        7 => Some(File::H),
        _ => None,
    }
}

pub fn encode_rank(r: Rank) -> (c: u8)
    ensures
        c == rank_code(r),
{
    match r {
        Rank::First => 0,
        Rank::Second => 1,
        Rank::Third => 2,
        Rank::Fourth => 3,
        Rank::Fifth => 4,
        Rank::Sixth => 5,
        Rank::Seventh => 6,
        Rank::Eighth => 7,
    }
}

pub fn decode_rank(c: u8) -> (r: Option<Rank>)
    ensures
        r == rank_of_code(c),
{
    match c {
        0 => Some(Rank::First),
        1 => Some(Rank::Second),
        2 => Some(Rank::Third),
        3 => Some(Rank::Fourth),
        4 => Some(Rank::Fifth),
        5 => Some(Rank::Sixth),
        6 => Some(Rank::Seventh),
        7 => Some(Rank::Eighth),
        _ => None,
    }
}

pub fn encode_piece(p: Piece) -> (c: u8)
    ensures
        c == piece_code(p),
{
    match p {
        Piece::King => 0,
        Piece::Queen => 1,
        Piece::Rook => 2,
        Piece::Bishop => 3,
        Piece::Knight => 4,
        Piece::Pawn => 5,
    }
}

pub fn decode_piece(c: u8) -> (p: Option<Piece>)
    ensures
        p == piece_of_code(c),
{
    match c {
        0 => Some(Piece::King),
        1 => Some(Piece::Queen),
        2 => Some(Piece::Rook),
        3 => Some(Piece::Bishop),
        4 => Some(Piece::Knight),
        5 => Some(Piece::Pawn),
        _ => None,
    }
}

pub fn encode_result(r: GameResult) -> (c: u8)
    ensures
        c == result_code(r),
{
    match r {
        GameResult::WhiteWin => 0,
        GameResult::BlackWin => 1,
        GameResult::Draw => 2,
        GameResult::Unknown => 3,
    }
}

pub fn decode_result(c: u8) -> (r: Option<GameResult>)
    ensures
        r == result_of_code(c),
{
    match c {
        0 => Some(GameResult::WhiteWin),
        1 => Some(GameResult::BlackWin),
        2 => Some(GameResult::Draw),
        3 => Some(GameResult::Unknown),
        _ => None,
    }
}

/// Writes the eight bytes of a move.
pub fn encode_move(m: &Move) -> (b: [u8; 8])
    ensures
        b@ == move_bytes(*m),
{
    let promo: u8 = match m.promoted_piece {
        None => 0,
        Some(p) => encode_piece(p) + 1,
    };
    let castle: u8 = match m.castle {
        None => 0,
        Some(CastleKind::Kingside) => 1,
        Some(CastleKind::Queenside) => 2,
    };
    let from_file: u8 = match m.from_file {
        None => 0,
        Some(f) => encode_file(f) + 1,
    };
    let from_rank: u8 = match m.from_rank {
        None => 0,
        Some(r) => encode_rank(r) + 1,
    };
    let capture: u8 = if m.is_capture {
        1
    } else {
        0
    };
    let b = [
        encode_piece(m.moved_piece),
        encode_file(m.to.file),
        encode_rank(m.to.rank),
        capture,
        promo,
        castle,
        from_file,
        from_rank,
    ];
    assert(b@ =~= move_bytes(*m));
    b
}

/// Reads a move from the eight bytes at `at`, or `None` where they are no
/// valid record.
pub fn decode_move(b: &[u8], at: usize) -> (m: Option<Move>)
    requires
        at + 8 <= b@.len(),
    ensures
        m == move_of_bytes(b@.subrange(at as int, at + 8)),
{
    let ghost s = b@.subrange(at as int, at + 8);
    let piece = decode_piece(b[at]);
    let file = decode_file(b[at + 1]);
    let rank = decode_rank(b[at + 2]);
    let capture: Option<bool> = if b[at + 3] == 0 {
        Some(false)
    } else if b[at + 3] == 1 {
        Some(true)
    } else {
        None
    };
    let promo: Option<Option<Piece>> = if b[at + 4] == 0 {
        Some(None)
    } else {
        match decode_piece(b[at + 4] - 1) {
            Some(p) => Some(Some(p)),
            None => None,
        }
    };
    let castle: Option<Option<CastleKind>> = if b[at + 5] == 0 {
        Some(None)
    } else if b[at + 5] == 1 {
        Some(Some(CastleKind::Kingside))
    } else if b[at + 5] == 2 {
        Some(Some(CastleKind::Queenside))
    } else {
        None
    };
    let from_file: Option<Option<File>> = if b[at + 6] == 0 {
        Some(None)
    } else {
        match decode_file(b[at + 6] - 1) {
            Some(f) => Some(Some(f)),
            None => None,
        }
    };
    let from_rank: Option<Option<Rank>> = if b[at + 7] == 0 {
        Some(None)
    } else {
        match decode_rank(b[at + 7] - 1) {
            Some(r) => Some(Some(r)),
            None => None,
        }
    };
    assert(s[0] == b@[at as int] && s[1] == b@[at + 1] && s[2] == b@[at + 2] && s[3] == b@[at + 3]
        && s[4] == b@[at + 4] && s[5] == b@[at + 5] && s[6] == b@[at + 6] && s[7] == b@[at + 7]);
    match (piece, file, rank, capture, promo, castle, from_file, from_rank) {
        (Some(p), Some(f), Some(r), Some(c), Some(pr), Some(k), Some(ff), Some(fr)) => Some(
            Move {
                moved_piece: p,
                to: Square { file: f, rank: r },
                is_capture: c,
                promoted_piece: pr,
                castle: k,
                from_file: ff,
                from_rank: fr,
            },
        ),
        _ => None,
    }
}

} // verus!
