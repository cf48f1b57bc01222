//! The bridge to the chess rules engine: its types, conversions from and to
//! the archive's own, and the few engine calls that replay needs.
use vstd::prelude::*;
use crate::schema::{CastleKind, File, GameResult, GameView, Move, Piece, Rank, Square, castle_move};

verus! {

// ---- conversions ----

pub open spec fn piece_of_role(role: shakmaty::Role) -> Piece {
    match role {
        shakmaty::Role::King => Piece::King,
        shakmaty::Role::Queen => Piece::Queen,
        shakmaty::Role::Rook => Piece::Rook,
        shakmaty::Role::Bishop => Piece::Bishop,
        shakmaty::Role::Knight => Piece::Knight,
        shakmaty::Role::Pawn => Piece::Pawn,
    }
}

pub open spec fn role_of_piece(piece: Piece) -> shakmaty::Role {
    match piece {
        Piece::King => shakmaty::Role::King,
        Piece::Queen => shakmaty::Role::Queen,
        Piece::Rook => shakmaty::Role::Rook,
        Piece::Bishop => shakmaty::Role::Bishop,
        Piece::Knight => shakmaty::Role::Knight,
        Piece::Pawn => shakmaty::Role::Pawn,
    }
}

/// Converts an engine role into a `Piece`.
pub fn role_to_piece(role: shakmaty::Role) -> (p: Piece)
    ensures
        p == piece_of_role(role),
        role_of_piece(p) == role,
{
    match role {
        shakmaty::Role::King => Piece::King,
        shakmaty::Role::Queen => Piece::Queen,
        shakmaty::Role::Rook => Piece::Rook,
        shakmaty::Role::Bishop => Piece::Bishop,
        shakmaty::Role::Knight => Piece::Knight,
        shakmaty::Role::Pawn => Piece::Pawn,
    }
}

/// Converts a `Piece` into the engine's role.
pub fn piece_to_role(piece: Piece) -> (r: shakmaty::Role)
    ensures
        r == role_of_piece(piece),
        piece_of_role(r) == piece,
{
    match piece {
        Piece::King => shakmaty::Role::King,
        Piece::Queen => shakmaty::Role::Queen,
        Piece::Rook => shakmaty::Role::Rook,
        Piece::Bishop => shakmaty::Role::Bishop,
        Piece::Knight => shakmaty::Role::Knight,
        Piece::Pawn => shakmaty::Role::Pawn,
    }
}

pub open spec fn file_of_engine(f: shakmaty::File) -> File {
    match f {
        shakmaty::File::A => File::A,
        shakmaty::File::B => File::B,
        shakmaty::File::C => File::C,
        shakmaty::File::D => File::D,
        shakmaty::File::E => File::E,
        shakmaty::File::F => File::F,
        shakmaty::File::G => File::G,
        shakmaty::File::H => File::H,
    }
}

pub open spec fn engine_file(f: File) -> shakmaty::File {
    match f {
        File::A => shakmaty::File::A,
        File::B => shakmaty::File::B,
        File::C => shakmaty::File::C,
        File::D => shakmaty::File::D,
        File::E => shakmaty::File::E,
        File::F => shakmaty::File::F,
        File::G => shakmaty::File::G,
        File::H => shakmaty::File::H,
    }
}

pub open spec fn rank_of_engine(r: shakmaty::Rank) -> Rank {
    match r {
        shakmaty::Rank::First => Rank::First,
        shakmaty::Rank::Second => Rank::Second,
        shakmaty::Rank::Third => Rank::Third,
        shakmaty::Rank::Fourth => Rank::Fourth,
        shakmaty::Rank::Fifth => Rank::Fifth,
        shakmaty::Rank::Sixth => Rank::Sixth,
        shakmaty::Rank::Seventh => Rank::Seventh,
        shakmaty::Rank::Eighth => Rank::Eighth,
    }
}

pub open spec fn engine_rank(r: Rank) -> shakmaty::Rank {
    match r {
        Rank::First => shakmaty::Rank::First,
        Rank::Second => shakmaty::Rank::Second,
        Rank::Third => shakmaty::Rank::Third,
        Rank::Fourth => shakmaty::Rank::Fourth,
        Rank::Fifth => shakmaty::Rank::Fifth,
        Rank::Sixth => shakmaty::Rank::Sixth,
        Rank::Seventh => shakmaty::Rank::Seventh,
        Rank::Eighth => shakmaty::Rank::Eighth,
    }
}

/// Converts an engine file into a `File`.
pub fn shakmaty_file_to_file(f: shakmaty::File) -> (r: File)
    ensures
        r == file_of_engine(f),
        engine_file(r) == f,
{
    match f {
        shakmaty::File::A => File::A,
        shakmaty::File::B => File::B,
        shakmaty::File::C => File::C,
        shakmaty::File::D => File::D,
        shakmaty::File::E => File::E,
        shakmaty::File::F => File::F,
        shakmaty::File::G => File::G,
        shakmaty::File::H => File::H,
    }
}

/// Converts a `File` into the engine's file.
pub fn file_to_shakmaty_file(f: File) -> (r: shakmaty::File)
    ensures
        r == engine_file(f),
        file_of_engine(r) == f,
{
    match f {
        File::A => shakmaty::File::A,
        File::B => shakmaty::File::B,
        File::C => shakmaty::File::C,
        File::D => shakmaty::File::D,
        File::E => shakmaty::File::E,
        File::F => shakmaty::File::F,
        File::G => shakmaty::File::G,
        File::H => shakmaty::File::H,
    }
}

/// Converts an engine rank into a `Rank`.
pub fn shakmaty_rank_to_rank(r: shakmaty::Rank) -> (x: Rank)
    ensures
        x == rank_of_engine(r),
        engine_rank(x) == r,
{
    match r {
        shakmaty::Rank::First => Rank::First,
        shakmaty::Rank::Second => Rank::Second,
        shakmaty::Rank::Third => Rank::Third,
        shakmaty::Rank::Fourth => Rank::Fourth,
        shakmaty::Rank::Fifth => Rank::Fifth,
        shakmaty::Rank::Sixth => Rank::Sixth,
        shakmaty::Rank::Seventh => Rank::Seventh,
        shakmaty::Rank::Eighth => Rank::Eighth,
    }
}

/// Converts a `Rank` into the engine's rank.
pub fn rank_to_shakmaty_rank(r: Rank) -> (x: shakmaty::Rank)
    ensures
        x == engine_rank(r),
        rank_of_engine(x) == r,
{
    match r {
        Rank::First => shakmaty::Rank::First,
        Rank::Second => shakmaty::Rank::Second,
        Rank::Third => shakmaty::Rank::Third,
        Rank::Fourth => shakmaty::Rank::Fourth,
        Rank::Fifth => shakmaty::Rank::Fifth,
        Rank::Sixth => shakmaty::Rank::Sixth,
        Rank::Seventh => shakmaty::Rank::Seventh,
        Rank::Eighth => shakmaty::Rank::Eighth,
    }
}

pub open spec fn engine_square(s: Square) -> shakmaty::Square {
    match (s.file, s.rank) {
        (File::A, Rank::First) => shakmaty::Square::A1,
        (File::B, Rank::First) => shakmaty::Square::B1,
        (File::C, Rank::First) => shakmaty::Square::C1,
        (File::D, Rank::First) => shakmaty::Square::D1,
        (File::E, Rank::First) => shakmaty::Square::E1,
        (File::F, Rank::First) => shakmaty::Square::F1,
        (File::G, Rank::First) => shakmaty::Square::G1,
        (File::H, Rank::First) => shakmaty::Square::H1,
        (File::A, Rank::Second) => shakmaty::Square::A2,
        (File::B, Rank::Second) => shakmaty::Square::B2,
        (File::C, Rank::Second) => shakmaty::Square::C2,
        (File::D, Rank::Second) => shakmaty::Square::D2,
        (File::E, Rank::Second) => shakmaty::Square::E2,
        (File::F, Rank::Second) => shakmaty::Square::F2,
        (File::G, Rank::Second) => shakmaty::Square::G2,
        (File::H, Rank::Second) => shakmaty::Square::H2,
        (File::A, Rank::Third) => shakmaty::Square::A3,
        (File::B, Rank::Third) => shakmaty::Square::B3,
        (File::C, Rank::Third) => shakmaty::Square::C3,
        (File::D, Rank::Third) => shakmaty::Square::D3,
        (File::E, Rank::Third) => shakmaty::Square::E3,
        (File::F, Rank::Third) => shakmaty::Square::F3,
        (File::G, Rank::Third) => shakmaty::Square::G3,
        (File::H, Rank::Third) => shakmaty::Square::H3,
        (File::A, Rank::Fourth) => shakmaty::Square::A4,
        (File::B, Rank::Fourth) => shakmaty::Square::B4,
        (File::C, Rank::Fourth) => shakmaty::Square::C4,
        (File::D, Rank::Fourth) => shakmaty::Square::D4,
        (File::E, Rank::Fourth) => shakmaty::Square::E4,
        (File::F, Rank::Fourth) => shakmaty::Square::F4,
        (File::G, Rank::Fourth) => shakmaty::Square::G4,
        (File::H, Rank::Fourth) => shakmaty::Square::H4,
        (File::A, Rank::Fifth) => shakmaty::Square::A5,
        (File::B, Rank::Fifth) => shakmaty::Square::B5,
        (File::C, Rank::Fifth) => shakmaty::Square::C5,
        (File::D, Rank::Fifth) => shakmaty::Square::D5,
        (File::E, Rank::Fifth) => shakmaty::Square::E5,
        (File::F, Rank::Fifth) => shakmaty::Square::F5,
        (File::G, Rank::Fifth) => shakmaty::Square::G5,
        (File::H, Rank::Fifth) => shakmaty::Square::H5,
        (File::A, Rank::Sixth) => shakmaty::Square::A6,
        (File::B, Rank::Sixth) => shakmaty::Square::B6,
        (File::C, Rank::Sixth) => shakmaty::Square::C6,
        (File::D, Rank::Sixth) => shakmaty::Square::D6,
        (File::E, Rank::Sixth) => shakmaty::Square::E6,
        (File::F, Rank::Sixth) => shakmaty::Square::F6,
        (File::G, Rank::Sixth) => shakmaty::Square::G6,
        (File::H, Rank::Sixth) => shakmaty::Square::H6,
        (File::A, Rank::Seventh) => shakmaty::Square::A7,
        (File::B, Rank::Seventh) => shakmaty::Square::B7,
        (File::C, Rank::Seventh) => shakmaty::Square::C7,
        (File::D, Rank::Seventh) => shakmaty::Square::D7,
        (File::E, Rank::Seventh) => shakmaty::Square::E7,
        (File::F, Rank::Seventh) => shakmaty::Square::F7,
        (File::G, Rank::Seventh) => shakmaty::Square::G7,
        (File::H, Rank::Seventh) => shakmaty::Square::H7,
        (File::A, Rank::Eighth) => shakmaty::Square::A8,
        (File::B, Rank::Eighth) => shakmaty::Square::B8,
        (File::C, Rank::Eighth) => shakmaty::Square::C8,
        (File::D, Rank::Eighth) => shakmaty::Square::D8,
        (File::E, Rank::Eighth) => shakmaty::Square::E8,
        (File::F, Rank::Eighth) => shakmaty::Square::F8,
        (File::G, Rank::Eighth) => shakmaty::Square::G8,
        (File::H, Rank::Eighth) => shakmaty::Square::H8,
    }
}

pub open spec fn square_of_engine(s: shakmaty::Square) -> Square {
    match s {
        shakmaty::Square::A1 => Square { file: File::A, rank: Rank::First },
        shakmaty::Square::B1 => Square { file: File::B, rank: Rank::First },
        shakmaty::Square::C1 => Square { file: File::C, rank: Rank::First },
        shakmaty::Square::D1 => Square { file: File::D, rank: Rank::First },
        shakmaty::Square::E1 => Square { file: File::E, rank: Rank::First },
        shakmaty::Square::F1 => Square { file: File::F, rank: Rank::First },
        shakmaty::Square::G1 => Square { file: File::G, rank: Rank::First },
        shakmaty::Square::H1 => Square { file: File::H, rank: Rank::First },
        shakmaty::Square::A2 => Square { file: File::A, rank: Rank::Second },
        shakmaty::Square::B2 => Square { file: File::B, rank: Rank::Second },
        shakmaty::Square::C2 => Square { file: File::C, rank: Rank::Second },
        shakmaty::Square::D2 => Square { file: File::D, rank: Rank::Second },
        shakmaty::Square::E2 => Square { file: File::E, rank: Rank::Second },
        shakmaty::Square::F2 => Square { file: File::F, rank: Rank::Second },
        shakmaty::Square::G2 => Square { file: File::G, rank: Rank::Second },
        shakmaty::Square::H2 => Square { file: File::H, rank: Rank::Second },
        shakmaty::Square::A3 => Square { file: File::A, rank: Rank::Third },
        shakmaty::Square::B3 => Square { file: File::B, rank: Rank::Third },
        shakmaty::Square::C3 => Square { file: File::C, rank: Rank::Third },
        shakmaty::Square::D3 => Square { file: File::D, rank: Rank::Third },
        shakmaty::Square::E3 => Square { file: File::E, rank: Rank::Third },
        shakmaty::Square::F3 => Square { file: File::F, rank: Rank::Third },
        shakmaty::Square::G3 => Square { file: File::G, rank: Rank::Third },
        shakmaty::Square::H3 => Square { file: File::H, rank: Rank::Third },
        shakmaty::Square::A4 => Square { file: File::A, rank: Rank::Fourth },
        shakmaty::Square::B4 => Square { file: File::B, rank: Rank::Fourth },
        shakmaty::Square::C4 => Square { file: File::C, rank: Rank::Fourth },
        shakmaty::Square::D4 => Square { file: File::D, rank: Rank::Fourth },
        shakmaty::Square::E4 => Square { file: File::E, rank: Rank::Fourth },
        shakmaty::Square::F4 => Square { file: File::F, rank: Rank::Fourth },
        shakmaty::Square::G4 => Square { file: File::G, rank: Rank::Fourth },
        shakmaty::Square::H4 => Square { file: File::H, rank: Rank::Fourth },
        shakmaty::Square::A5 => Square { file: File::A, rank: Rank::Fifth },
        shakmaty::Square::B5 => Square { file: File::B, rank: Rank::Fifth },
        shakmaty::Square::C5 => Square { file: File::C, rank: Rank::Fifth },
        shakmaty::Square::D5 => Square { file: File::D, rank: Rank::Fifth },
        shakmaty::Square::E5 => Square { file: File::E, rank: Rank::Fifth },
        shakmaty::Square::F5 => Square { file: File::F, rank: Rank::Fifth },
        shakmaty::Square::G5 => Square { file: File::G, rank: Rank::Fifth },
        shakmaty::Square::H5 => Square { file: File::H, rank: Rank::Fifth },
        shakmaty::Square::A6 => Square { file: File::A, rank: Rank::Sixth },
        shakmaty::Square::B6 => Square { file: File::B, rank: Rank::Sixth },
        shakmaty::Square::C6 => Square { file: File::C, rank: Rank::Sixth },
        shakmaty::Square::D6 => Square { file: File::D, rank: Rank::Sixth },
        shakmaty::Square::E6 => Square { file: File::E, rank: Rank::Sixth },
        shakmaty::Square::F6 => Square { file: File::F, rank: Rank::Sixth },
        shakmaty::Square::G6 => Square { file: File::G, rank: Rank::Sixth },
        shakmaty::Square::H6 => Square { file: File::H, rank: Rank::Sixth },
        shakmaty::Square::A7 => Square { file: File::A, rank: Rank::Seventh },
        shakmaty::Square::B7 => Square { file: File::B, rank: Rank::Seventh },
        shakmaty::Square::C7 => Square { file: File::C, rank: Rank::Seventh },
        shakmaty::Square::D7 => Square { file: File::D, rank: Rank::Seventh },
        shakmaty::Square::E7 => Square { file: File::E, rank: Rank::Seventh },
        shakmaty::Square::F7 => Square { file: File::F, rank: Rank::Seventh },
        shakmaty::Square::G7 => Square { file: File::G, rank: Rank::Seventh },
        shakmaty::Square::H7 => Square { file: File::H, rank: Rank::Seventh },
        shakmaty::Square::A8 => Square { file: File::A, rank: Rank::Eighth },
        shakmaty::Square::B8 => Square { file: File::B, rank: Rank::Eighth },
        shakmaty::Square::C8 => Square { file: File::C, rank: Rank::Eighth },
        shakmaty::Square::D8 => Square { file: File::D, rank: Rank::Eighth },
        shakmaty::Square::E8 => Square { file: File::E, rank: Rank::Eighth },
        shakmaty::Square::F8 => Square { file: File::F, rank: Rank::Eighth },
        shakmaty::Square::G8 => Square { file: File::G, rank: Rank::Eighth },
        shakmaty::Square::H8 => Square { file: File::H, rank: Rank::Eighth },
    }
}

/// Converts an engine square into a `Square`.
pub fn shakmaty_square_to_square(s: shakmaty::Square) -> (r: Square)
    ensures
        r == square_of_engine(s),
        engine_square(r) == s,
{
    match s {
        shakmaty::Square::A1 => Square { file: File::A, rank: Rank::First },
        shakmaty::Square::B1 => Square { file: File::B, rank: Rank::First },
        shakmaty::Square::C1 => Square { file: File::C, rank: Rank::First },
        shakmaty::Square::D1 => Square { file: File::D, rank: Rank::First },
        shakmaty::Square::E1 => Square { file: File::E, rank: Rank::First },
        shakmaty::Square::F1 => Square { file: File::F, rank: Rank::First },
        shakmaty::Square::G1 => Square { file: File::G, rank: Rank::First },
        shakmaty::Square::H1 => Square { file: File::H, rank: Rank::First },
        shakmaty::Square::A2 => Square { file: File::A, rank: Rank::Second },
        shakmaty::Square::B2 => Square { file: File::B, rank: Rank::Second },
        shakmaty::Square::C2 => Square { file: File::C, rank: Rank::Second },
        shakmaty::Square::D2 => Square { file: File::D, rank: Rank::Second },
        shakmaty::Square::E2 => Square { file: File::E, rank: Rank::Second },
        shakmaty::Square::F2 => Square { file: File::F, rank: Rank::Second },
        shakmaty::Square::G2 => Square { file: File::G, rank: Rank::Second },
        shakmaty::Square::H2 => Square { file: File::H, rank: Rank::Second },
        shakmaty::Square::A3 => Square { file: File::A, rank: Rank::Third },
        shakmaty::Square::B3 => Square { file: File::B, rank: Rank::Third },
        shakmaty::Square::C3 => Square { file: File::C, rank: Rank::Third },
        shakmaty::Square::D3 => Square { file: File::D, rank: Rank::Third },
        shakmaty::Square::E3 => Square { file: File::E, rank: Rank::Third },
        shakmaty::Square::F3 => Square { file: File::F, rank: Rank::Third },
        shakmaty::Square::G3 => Square { file: File::G, rank: Rank::Third },
        shakmaty::Square::H3 => Square { file: File::H, rank: Rank::Third },
        shakmaty::Square::A4 => Square { file: File::A, rank: Rank::Fourth },
        shakmaty::Square::B4 => Square { file: File::B, rank: Rank::Fourth },
        shakmaty::Square::C4 => Square { file: File::C, rank: Rank::Fourth },
        shakmaty::Square::D4 => Square { file: File::D, rank: Rank::Fourth },
        shakmaty::Square::E4 => Square { file: File::E, rank: Rank::Fourth },
        shakmaty::Square::F4 => Square { file: File::F, rank: Rank::Fourth },
        shakmaty::Square::G4 => Square { file: File::G, rank: Rank::Fourth },
        shakmaty::Square::H4 => Square { file: File::H, rank: Rank::Fourth },
        shakmaty::Square::A5 => Square { file: File::A, rank: Rank::Fifth },
        shakmaty::Square::B5 => Square { file: File::B, rank: Rank::Fifth },
        shakmaty::Square::C5 => Square { file: File::C, rank: Rank::Fifth },
        shakmaty::Square::D5 => Square { file: File::D, rank: Rank::Fifth },
        shakmaty::Square::E5 => Square { file: File::E, rank: Rank::Fifth },
        shakmaty::Square::F5 => Square { file: File::F, rank: Rank::Fifth },
        shakmaty::Square::G5 => Square { file: File::G, rank: Rank::Fifth },
        shakmaty::Square::H5 => Square { file: File::H, rank: Rank::Fifth },
        shakmaty::Square::A6 => Square { file: File::A, rank: Rank::Sixth },
        shakmaty::Square::B6 => Square { file: File::B, rank: Rank::Sixth },
        shakmaty::Square::C6 => Square { file: File::C, rank: Rank::Sixth },
        shakmaty::Square::D6 => Square { file: File::D, rank: Rank::Sixth },
        shakmaty::Square::E6 => Square { file: File::E, rank: Rank::Sixth },
        shakmaty::Square::F6 => Square { file: File::F, rank: Rank::Sixth },
        shakmaty::Square::G6 => Square { file: File::G, rank: Rank::Sixth },
        shakmaty::Square::H6 => Square { file: File::H, rank: Rank::Sixth },
        shakmaty::Square::A7 => Square { file: File::A, rank: Rank::Seventh },
        shakmaty::Square::B7 => Square { file: File::B, rank: Rank::Seventh },
        shakmaty::Square::C7 => Square { file: File::C, rank: Rank::Seventh },
        shakmaty::Square::D7 => Square { file: File::D, rank: Rank::Seventh },
        shakmaty::Square::E7 => Square { file: File::E, rank: Rank::Seventh },
        shakmaty::Square::F7 => Square { file: File::F, rank: Rank::Seventh },
        shakmaty::Square::G7 => Square { file: File::G, rank: Rank::Seventh },
        shakmaty::Square::H7 => Square { file: File::H, rank: Rank::Seventh },
        shakmaty::Square::A8 => Square { file: File::A, rank: Rank::Eighth },
        shakmaty::Square::B8 => Square { file: File::B, rank: Rank::Eighth },
        shakmaty::Square::C8 => Square { file: File::C, rank: Rank::Eighth },
        shakmaty::Square::D8 => Square { file: File::D, rank: Rank::Eighth },
        shakmaty::Square::E8 => Square { file: File::E, rank: Rank::Eighth },
        shakmaty::Square::F8 => Square { file: File::F, rank: Rank::Eighth },
        shakmaty::Square::G8 => Square { file: File::G, rank: Rank::Eighth },
        shakmaty::Square::H8 => Square { file: File::H, rank: Rank::Eighth },
    }
}

/// Converts a `Square` into the engine's square.
pub fn square_to_shakmaty_square(s: Square) -> (r: shakmaty::Square)
    ensures
        r == engine_square(s),
        square_of_engine(r) == s,
{
    match (s.file, s.rank) {
        (File::A, Rank::First) => shakmaty::Square::A1,
        (File::B, Rank::First) => shakmaty::Square::B1,
        (File::C, Rank::First) => shakmaty::Square::C1,
        (File::D, Rank::First) => shakmaty::Square::D1,
        (File::E, Rank::First) => shakmaty::Square::E1,
        (File::F, Rank::First) => shakmaty::Square::F1,
        (File::G, Rank::First) => shakmaty::Square::G1,
        (File::H, Rank::First) => shakmaty::Square::H1,
        (File::A, Rank::Second) => shakmaty::Square::A2,
        (File::B, Rank::Second) => shakmaty::Square::B2,
        (File::C, Rank::Second) => shakmaty::Square::C2,
        (File::D, Rank::Second) => shakmaty::Square::D2,
        (File::E, Rank::Second) => shakmaty::Square::E2,
        (File::F, Rank::Second) => shakmaty::Square::F2,
        (File::G, Rank::Second) => shakmaty::Square::G2,
        (File::H, Rank::Second) => shakmaty::Square::H2,
        (File::A, Rank::Third) => shakmaty::Square::A3,
        (File::B, Rank::Third) => shakmaty::Square::B3,
        (File::C, Rank::Third) => shakmaty::Square::C3,
        (File::D, Rank::Third) => shakmaty::Square::D3,
        (File::E, Rank::Third) => shakmaty::Square::E3,
        (File::F, Rank::Third) => shakmaty::Square::F3,
        (File::G, Rank::Third) => shakmaty::Square::G3,
        (File::H, Rank::Third) => shakmaty::Square::H3,
        (File::A, Rank::Fourth) => shakmaty::Square::A4,
        (File::B, Rank::Fourth) => shakmaty::Square::B4,
        (File::C, Rank::Fourth) => shakmaty::Square::C4,
        (File::D, Rank::Fourth) => shakmaty::Square::D4,
        (File::E, Rank::Fourth) => shakmaty::Square::E4,
        (File::F, Rank::Fourth) => shakmaty::Square::F4,
        (File::G, Rank::Fourth) => shakmaty::Square::G4,
        (File::H, Rank::Fourth) => shakmaty::Square::H4,
        (File::A, Rank::Fifth) => shakmaty::Square::A5,
        (File::B, Rank::Fifth) => shakmaty::Square::B5,
        (File::C, Rank::Fifth) => shakmaty::Square::C5,
        (File::D, Rank::Fifth) => shakmaty::Square::D5,
        (File::E, Rank::Fifth) => shakmaty::Square::E5,
        (File::F, Rank::Fifth) => shakmaty::Square::F5,
        (File::G, Rank::Fifth) => shakmaty::Square::G5,
        (File::H, Rank::Fifth) => shakmaty::Square::H5,
        (File::A, Rank::Sixth) => shakmaty::Square::A6,
        (File::B, Rank::Sixth) => shakmaty::Square::B6,
        (File::C, Rank::Sixth) => shakmaty::Square::C6,
        (File::D, Rank::Sixth) => shakmaty::Square::D6,
        (File::E, Rank::Sixth) => shakmaty::Square::E6,
        (File::F, Rank::Sixth) => shakmaty::Square::F6,
        (File::G, Rank::Sixth) => shakmaty::Square::G6,
        (File::H, Rank::Sixth) => shakmaty::Square::H6,
        (File::A, Rank::Seventh) => shakmaty::Square::A7,
        (File::B, Rank::Seventh) => shakmaty::Square::B7,
        (File::C, Rank::Seventh) => shakmaty::Square::C7,
        (File::D, Rank::Seventh) => shakmaty::Square::D7,
        (File::E, Rank::Seventh) => shakmaty::Square::E7,
        (File::F, Rank::Seventh) => shakmaty::Square::F7,
        (File::G, Rank::Seventh) => shakmaty::Square::G7,
        (File::H, Rank::Seventh) => shakmaty::Square::H7,
        (File::A, Rank::Eighth) => shakmaty::Square::A8,
        (File::B, Rank::Eighth) => shakmaty::Square::B8,
        (File::C, Rank::Eighth) => shakmaty::Square::C8,
        (File::D, Rank::Eighth) => shakmaty::Square::D8,
        (File::E, Rank::Eighth) => shakmaty::Square::E8,
        (File::F, Rank::Eighth) => shakmaty::Square::F8,
        (File::G, Rank::Eighth) => shakmaty::Square::G8,
        (File::H, Rank::Eighth) => shakmaty::Square::H8,
    }
}


pub open spec fn castle_kind_of_side(side: shakmaty::CastlingSide) -> CastleKind {
    match side {
        shakmaty::CastlingSide::KingSide => CastleKind::Kingside,
        shakmaty::CastlingSide::QueenSide => CastleKind::Queenside,
    }
}

pub open spec fn game_result_of_outcome(outcome: shakmaty::Outcome) -> GameResult {
    match outcome {
        shakmaty::Outcome::Known(shakmaty::KnownOutcome::Decisive { winner: shakmaty::Color::White }) => GameResult::WhiteWin,
        shakmaty::Outcome::Known(shakmaty::KnownOutcome::Decisive { winner: shakmaty::Color::Black }) => GameResult::BlackWin,
        shakmaty::Outcome::Known(shakmaty::KnownOutcome::Draw) => GameResult::Draw,
        shakmaty::Outcome::Unknown => GameResult::Unknown,
    }
}

/// Converts an engine outcome into a `GameResult`: a white or black win, a
/// draw, or `Unknown` for a game without a known end.
pub fn outcome_to_game_result(outcome: shakmaty::Outcome) -> (r: GameResult)
    ensures
        r == game_result_of_outcome(outcome),
{
    match outcome {
        shakmaty::Outcome::Known(known) => match known {
            shakmaty::KnownOutcome::Decisive { winner } => match winner {
                shakmaty::Color::White => GameResult::WhiteWin,
                shakmaty::Color::Black => GameResult::BlackWin,
            },
            shakmaty::KnownOutcome::Draw => GameResult::Draw,
        },
        shakmaty::Outcome::Unknown => GameResult::Unknown,
    }
}

/// The compact move that a SAN move stands for; `None` for the kinds that the
/// archive cannot hold (a piece drop, a null move).
pub open spec fn move_of_san(san: shakmaty::san::San) -> Option<Move> {
    match san {
        shakmaty::san::San::Normal { role, file, rank, capture, to, promotion } => Some(
            Move {
                moved_piece: piece_of_role(role),
                to: square_of_engine(to),
                is_capture: capture,
                promoted_piece: match promotion {
                    Some(p) => Some(piece_of_role(p)),
                    None => None,
                },
                castle: None,
                from_file: match file {
                    Some(f) => Some(file_of_engine(f)),
                    None => None,
                },
                from_rank: match rank {
                    Some(r) => Some(rank_of_engine(r)),
                    None => None,
                },
            },
        ),
        shakmaty::san::San::Castle(side) => Some(castle_move(castle_kind_of_side(side))),
        _ => None,
    }
}

/// The SAN move that a compact move stands for.
pub open spec fn san_of_move(m: Move) -> shakmaty::san::San {
    match m.castle {
        Some(CastleKind::Kingside) => shakmaty::san::San::Castle(shakmaty::CastlingSide::KingSide),
        Some(CastleKind::Queenside) => shakmaty::san::San::Castle(shakmaty::CastlingSide::QueenSide),
        None => shakmaty::san::San::Normal {
            role: role_of_piece(m.moved_piece),
            file: match m.from_file {
                Some(f) => Some(engine_file(f)),
                None => None,
            },
            rank: match m.from_rank {
                Some(r) => Some(engine_rank(r)),
                None => None,
            },
            capture: m.is_capture,
            to: engine_square(m.to),
            promotion: match m.promoted_piece {
                Some(p) => Some(role_of_piece(p)),
                None => None,
            },
        },
    }
}

/// Turns a SAN move into the compact move that the archive stores;
/// `None` for a piece drop or a null move, which it has no form for.
pub fn move_from_san(san: shakmaty::san::San) -> (r: Option<Move>)
    ensures
        r == move_of_san(san),
        r matches Some(m) ==> san_of_move(m) == san,
{
    match san {
        shakmaty::san::San::Normal { role, file, rank, capture, to, promotion } => {
            let promoted_piece = match promotion {
                Some(p) => Some(role_to_piece(p)),
                None => None,
            };
            let from_file = match file {
                Some(f) => Some(shakmaty_file_to_file(f)),
                None => None,
            };
            let from_rank = match rank {
                Some(x) => Some(shakmaty_rank_to_rank(x)),
                None => None,
            };
            Some(
                Move {
                    moved_piece: role_to_piece(role),
                    to: shakmaty_square_to_square(to),
                    is_capture: capture,
                    promoted_piece,
                    castle: None,
                    from_file,
                    from_rank,
                },
            )
        },
        shakmaty::san::San::Castle(side) => {
            let kind = match side {
                shakmaty::CastlingSide::KingSide => CastleKind::Kingside,
                shakmaty::CastlingSide::QueenSide => CastleKind::Queenside,
            };
            Some(
                Move {
                    moved_piece: Piece::King,
                    to: Square { file: File::A, rank: Rank::First },
                    is_capture: false,
                    promoted_piece: None,
                    castle: Some(kind),
                    from_file: None,
                    from_rank: None,
                },
            )
        },
        _ => None,
    }
}

/// The SAN move that a compact move stands for, to be resolved against a
/// position.
pub fn move_ref_to_san(m: &Move) -> (r: shakmaty::san::San)
    ensures
        r == san_of_move(*m),
{
    match m.castle {
        Some(CastleKind::Kingside) => shakmaty::san::San::Castle(shakmaty::CastlingSide::KingSide),
        Some(CastleKind::Queenside) => shakmaty::san::San::Castle(
            shakmaty::CastlingSide::QueenSide,
        ),
        None => {
            let file = match m.from_file {
                Some(f) => Some(file_to_shakmaty_file(f)),
                None => None,
            };
            let rank = match m.from_rank {
                Some(x) => Some(rank_to_shakmaty_rank(x)),
                None => None,
            };
            let promotion = match m.promoted_piece {
                Some(p) => Some(piece_to_role(p)),
                None => None,
            };
            shakmaty::san::San::Normal {
                role: piece_to_role(m.moved_piece),
                file,
                rank,
                capture: m.is_capture,
                to: square_to_shakmaty_square(m.to),
                promotion,
            }
        },
    }
}

// ---- the engine ----

/// The position of a square counted from `A1`, file first.
pub open spec fn square_index(s: Square) -> int {
    8 * (crate::schema::rank_code(s.rank) as int) + crate::schema::file_code(s.file) as int
}

/// Whether an engine move is one that a SAN move describes, as the engine's
/// `San::matches` decides it.
pub open spec fn san_matches(san: shakmaty::san::San, m: shakmaty::Move) -> bool {
    match san {
        shakmaty::san::San::Normal { role, file, rank, capture, to, promotion } => match m {
            shakmaty::Move::Normal { role: r, from, capture: c, to: t, promotion: pr } => {
                &&& role == r
                &&& (file matches Some(f) ==> f == engine_file(square_of_engine(from).file))
                &&& (rank matches Some(x) ==> x == engine_rank(square_of_engine(from).rank))
                &&& capture == c is Some
                &&& to == t
                &&& promotion == pr
            },
            shakmaty::Move::EnPassant { from, to: t } => {
                &&& role == shakmaty::Role::Pawn
                &&& (file matches Some(f) ==> f == engine_file(square_of_engine(from).file))
                &&& (rank matches Some(x) ==> x == engine_rank(square_of_engine(from).rank))
                &&& capture
                &&& to == t
                &&& promotion is None
            },
            _ => false,
        },
        shakmaty::san::San::Castle(side) => match m {
            shakmaty::Move::Castle { king, rook } => side == if square_index(square_of_engine(king))
                < square_index(square_of_engine(rook)) {
                shakmaty::CastlingSide::KingSide
            } else {
                shakmaty::CastlingSide::QueenSide
            },
            _ => false,
        },
        _ => false,
    }
}

/// The FEN text of the standard starting position.
pub open spec fn standard_fen() -> Seq<u8> {
    seq![114, 110, 98, 113, 107, 98, 110, 114, 47, 112, 112, 112, 112, 112, 112, 112, 112, 47, 56, 47, 56, 47, 56, 47, 56, 47, 80, 80, 80, 80, 80, 80, 80, 80, 47, 82, 78, 66, 81, 75, 66, 78, 82, 32, 119, 32, 75, 81, 107, 113, 32, 45, 32, 48, 32, 49]
}

fn standard_fen_bytes() -> (r: Vec<u8>)
    ensures
        r@ == standard_fen(),
{
    let r: Vec<u8> = vec![114, 110, 98, 113, 107, 98, 110, 114, 47, 112, 112, 112, 112, 112, 112, 112, 112, 47, 56, 47, 56, 47, 56, 47, 56, 47, 80, 80, 80, 80, 80, 80, 80, 80, 47, 82, 78, 66, 81, 75, 66, 78, 82, 32, 119, 32, 75, 81, 107, 113, 32, 45, 32, 48, 32, 49];
    assert(r@ =~= standard_fen());
    r
}

/// Whether FEN text sets up a legal standard-chess position.
pub uninterp spec fn is_position_fen(fen: Seq<u8>) -> bool;

/// What the engine resolves a SAN move to in the position of FEN text;
/// `None` where the text sets up no position.
pub uninterp spec fn san_move_at(fen: Seq<u8>, san: shakmaty::san::San) -> Option<
    Result<shakmaty::Move, shakmaty::san::SanError>,
>;

/// The FEN text of the position after a move; `None` where the text sets up
/// no position or the move is not legal in it.
pub uninterp spec fn fen_after(fen: Seq<u8>, m: shakmaty::Move) -> Option<Seq<u8>>;

/// How the game stands in the position of FEN text.
pub uninterp spec fn outcome_at(fen: Seq<u8>) -> Option<shakmaty::Outcome>;

/// Whether the side to move is in check in the position of FEN text.
pub uninterp spec fn check_at(fen: Seq<u8>) -> Option<bool>;

/// Relies on `Fen::from_ascii` and `Fen::into_position`: whether the text is
/// FEN of a legal standard-chess setup.
#[verifier::external_body]
fn fen_is_position(fen: &[u8]) -> (r: bool)
    ensures
        r == is_position_fen(fen@),
{
    shakmaty::fen::Fen::from_ascii(fen)
        .ok()
        .and_then(|f| f.into_position::<shakmaty::Chess>(shakmaty::CastlingMode::Standard).ok())
        .is_some()
}

/// Relies on `San::to_move`, in the position that `Fen::from_ascii` and
/// `Fen::into_position` set up: the one legal move that the SAN move
/// describes, or an error where none or several do.
#[verifier::external_body]
fn resolve_at(fen: &[u8], san: shakmaty::san::San) -> (r: Option<
    Result<shakmaty::Move, shakmaty::san::SanError>,
>)
    ensures
        r == san_move_at(fen@, san),
        r matches Some(Ok(m)) ==> san_matches(san, m),
        san == shakmaty::san::San::Null ==> !(r matches Some(Ok(_))),
{
    let f = shakmaty::fen::Fen::from_ascii(fen).ok()?;
    let pos: shakmaty::Chess = f.into_position(shakmaty::CastlingMode::Standard).ok()?;
    Some(san.to_move(&pos))
}

/// Relies on `Position::play`, in the position that `Fen::from_ascii` and
/// `Fen::into_position` set up, and on `Fen::from_position` for the text of
/// the result.
#[verifier::external_body]
fn play_at(fen: &[u8], m: shakmaty::Move) -> (r: Option<Vec<u8>>)
    ensures
        r matches Some(v) ==> fen_after(fen@, m) == Some(v@),
        r is None ==> fen_after(fen@, m) is None,
{
    let f = shakmaty::fen::Fen::from_ascii(fen).ok()?;
    let pos: shakmaty::Chess = f.into_position(shakmaty::CastlingMode::Standard).ok()?;
    let next = shakmaty::Position::play(pos, m).ok()?;
    let text = shakmaty::fen::Fen::from_position(&next, shakmaty::EnPassantMode::Legal);
    Some(text.to_string().into_bytes())
}

/// Relies on `Position::outcome`, in the position that `Fen::from_ascii` and
/// `Fen::into_position` set up.
#[verifier::external_body]
fn outcome_of_fen(fen: &[u8]) -> (r: Option<shakmaty::Outcome>)
    ensures
        r == outcome_at(fen@),
{
    let f = shakmaty::fen::Fen::from_ascii(fen).ok()?;
    let pos: shakmaty::Chess = f.into_position(shakmaty::CastlingMode::Standard).ok()?;
    Some(shakmaty::Position::outcome(&pos))
}

/// Relies on `Position::is_check`, in the position that `Fen::from_ascii`
/// and `Fen::into_position` set up.
#[verifier::external_body]
fn check_of_fen(fen: &[u8]) -> (r: Option<bool>)
    ensures
        r == check_at(fen@),
{
    let f = shakmaty::fen::Fen::from_ascii(fen).ok()?;
    let pos: shakmaty::Chess = f.into_position(shakmaty::CastlingMode::Standard).ok()?;
    Some(shakmaty::Position::is_check(&pos))
}

/// A move in full: the piece, where it starts and where it lands, whether it
/// captures, its promotion, for castling the side, and whether it gives
/// check. A castling move is given as the king's move.
#[derive(Clone, Copy, Debug, PartialEq, Eq, Structural)]
pub struct FullMove {
    pub piece: Piece,
    pub from: Square,
    pub to: Square,
    pub is_capture: bool,
    pub promotion: Option<Piece>,
    pub castle: Option<CastleKind>,
    pub gives_check: bool,
}

pub open spec fn full_move_of(m: shakmaty::Move) -> FullMove {
    match m {
        shakmaty::Move::Normal { role, from, capture, to, promotion } => FullMove {
            piece: piece_of_role(role),
            from: square_of_engine(from),
            to: square_of_engine(to),
            is_capture: capture is Some,
            promotion: match promotion {
                Some(p) => Some(piece_of_role(p)),
                None => None,
            },
            castle: None,
            gives_check: false,
        },
        shakmaty::Move::EnPassant { from, to } => FullMove {
            piece: Piece::Pawn,
            from: square_of_engine(from),
            to: square_of_engine(to),
            is_capture: true,
            promotion: None,
            castle: None,
            gives_check: false,
        },
        shakmaty::Move::Castle { king, rook } => {
            let k = square_of_engine(king);
            let kingside = square_index(k) < square_index(square_of_engine(rook));
            FullMove {
                piece: Piece::King,
                from: k,
                to: Square { file: if kingside { File::G } else { File::C }, rank: k.rank },
                is_capture: false,
                promotion: None,
                castle: Some(if kingside { CastleKind::Kingside } else { CastleKind::Queenside }),
                gives_check: false,
            }
        },
        shakmaty::Move::Put { role, to } => FullMove {
            piece: piece_of_role(role),
            from: square_of_engine(to),
            to: square_of_engine(to),
            is_capture: false,
            promotion: None,
            castle: None,
            gives_check: false,
        },
    }
}

/// Converts an engine move into a `FullMove`.
pub fn full_move(m: shakmaty::Move) -> (r: FullMove)
    ensures
        r == full_move_of(m),
{
    match m {
        shakmaty::Move::Normal { role, from, capture, to, promotion } => {
            let promotion = match promotion {
                Some(p) => Some(role_to_piece(p)),
                None => None,
            };
            FullMove {
                piece: role_to_piece(role),
                from: shakmaty_square_to_square(from),
                to: shakmaty_square_to_square(to),
                is_capture: capture.is_some(),
                promotion,
                castle: None,
                gives_check: false,
            }
        },
        shakmaty::Move::EnPassant { from, to } => FullMove {
            piece: Piece::Pawn,
            from: shakmaty_square_to_square(from),
            to: shakmaty_square_to_square(to),
            is_capture: true,
            promotion: None,
            castle: None,
            gives_check: false,
        },
        shakmaty::Move::Castle { king, rook } => {
            let k = shakmaty_square_to_square(king);
            let r = shakmaty_square_to_square(rook);
            let king_index: u32 = 8 * (crate::schema::encode_rank(k.rank) as u32)
                + (crate::schema::encode_file(k.file) as u32);
            let rook_index: u32 = 8 * (crate::schema::encode_rank(r.rank) as u32)
                + (crate::schema::encode_file(r.file) as u32);
            let kingside = king_index < rook_index;
            FullMove {
                piece: Piece::King,
                from: k,
                to: Square {
                    file: if kingside {
                        File::G
                    } else {
                        File::C
                    },
                    rank: k.rank,
                },
                is_capture: false,
                promotion: None,
                castle: Some(
                    if kingside {
                        CastleKind::Kingside
                    } else {
                        CastleKind::Queenside
                    },
                ),
                gives_check: false,
            }
        },
        shakmaty::Move::Put { role, to } => {
            let t = shakmaty_square_to_square(to);
            FullMove {
                piece: role_to_piece(role),
                from: t,
                to: t,
                is_capture: false,
                promotion: None,
                castle: None,
                gives_check: false,
            }
        },
    }
}

/// Whether a full move is one that a compact move describes: the same
/// castling side, or the same piece, target, capture and promotion with an
/// origin that meets the hints.
pub open spec fn agrees(m: Move, f: FullMove) -> bool {
    match m.castle {
        Some(k) => f.piece == Piece::King && f.castle == Some(k),
        None => {
            &&& f.castle is None
            &&& f.piece == m.moved_piece
            &&& f.to == m.to
            &&& f.is_capture == m.is_capture
            &&& f.promotion == m.promoted_piece
            &&& (m.from_file matches Some(x) ==> f.from.file == x)
            &&& (m.from_rank matches Some(y) ==> f.from.rank == y)
        },
    }
}

/// A move that the engine resolved from a compact move agrees with it.
pub proof fn lemma_resolved_agrees(m: Move, e: shakmaty::Move)
    requires
        san_matches(san_of_move(m), e),
    ensures
        agrees(m, full_move_of(e)),
{
    match e {
        shakmaty::Move::Normal { role, from, capture, to, promotion } => {
            assert(piece_of_role(role_of_piece(m.moved_piece)) == m.moved_piece);
            assert(square_of_engine(engine_square(m.to)) == m.to);
            if let Some(p) = m.promoted_piece {
                assert(piece_of_role(role_of_piece(p)) == p);
            }
            if let Some(f) = m.from_file {
                assert(file_of_engine(engine_file(f)) == f);
                assert(file_of_engine(engine_file(square_of_engine(from).file)) == square_of_engine(from).file);
            }
            if let Some(r) = m.from_rank {
                assert(rank_of_engine(engine_rank(r)) == r);
                assert(rank_of_engine(engine_rank(square_of_engine(from).rank)) == square_of_engine(from).rank);
            }
        },
        shakmaty::Move::EnPassant { from, to } => {
            assert(square_of_engine(engine_square(m.to)) == m.to);
            if let Some(f) = m.from_file {
                assert(file_of_engine(engine_file(f)) == f);
                assert(file_of_engine(engine_file(square_of_engine(from).file)) == square_of_engine(from).file);
            }
            if let Some(r) = m.from_rank {
                assert(rank_of_engine(engine_rank(r)) == r);
                assert(rank_of_engine(engine_rank(square_of_engine(from).rank)) == square_of_engine(from).rank);
            }
        },
        _ => {},
    }
}

/// How a game ended: the engine's verdict on the final position where it has
/// one, else the result the record gives.
pub open spec fn final_result(engine: shakmaty::Outcome, recorded: GameResult) -> GameResult {
    match engine {
        shakmaty::Outcome::Known(_) => game_result_of_outcome(engine),
        shakmaty::Outcome::Unknown => recorded,
    }
}

/// Decides the result of a replayed game from the engine's verdict on its
/// final position and the result the record gives.
pub fn resolve_result(engine: shakmaty::Outcome, recorded: GameResult) -> (r: GameResult)
    ensures
        r == final_result(engine, recorded),
{
    match engine {
        shakmaty::Outcome::Known(_) => outcome_to_game_result(engine),
        shakmaty::Outcome::Unknown => recorded,
    }
}

/// A game replayed on the board: each move in full, and how it ended.
#[derive(Clone, Debug)]
pub struct Replay {
    pub moves: Vec<FullMove>,
    pub result: GameResult,
}

#[derive(Clone, Copy, Debug, PartialEq, Eq, Structural)]
pub enum ReplayError {
    /// The start position is not valid FEN or not a legal setup.
    BadStartPosition,
    /// The move at this index matches no legal move, or cannot be played.
    IllegalMove(usize),
    /// The move at this index matches several legal moves.
    AmbiguousMove(usize),
}

/// What the engine's answer to one move means for the replay of move `i`.
pub open spec fn resolution(
    i: int,
    r: Option<Result<shakmaty::Move, shakmaty::san::SanError>>,
) -> Result<shakmaty::Move, ReplayError> {
    match r {
        Some(Ok(m)) => Ok(m),
        Some(Err(shakmaty::san::SanError::AmbiguousSan)) => Err(ReplayError::AmbiguousMove(i as usize)),
        Some(Err(shakmaty::san::SanError::IllegalSan)) => Err(ReplayError::IllegalMove(i as usize)),
        None => Err(ReplayError::IllegalMove(i as usize)),
    }
}

/// Decides what the engine's answer to move `i` means: the move it resolved
/// to, or the error of that move.
pub fn resolve_step(
    i: usize,
    r: Option<Result<shakmaty::Move, shakmaty::san::SanError>>,
) -> (x: Result<shakmaty::Move, ReplayError>)
    ensures
        x == resolution(i as int, r),
{
    match r {
        Some(Ok(m)) => Ok(m),
        Some(Err(shakmaty::san::SanError::AmbiguousSan)) => Err(ReplayError::AmbiguousMove(i)),
        Some(Err(shakmaty::san::SanError::IllegalSan)) => Err(ReplayError::IllegalMove(i)),
        None => Err(ReplayError::IllegalMove(i)),
    }
}

pub open spec fn with_check(f: FullMove, check: bool) -> FullMove {
    FullMove {
        piece: f.piece,
        from: f.from,
        to: f.to,
        is_capture: f.is_capture,
        promotion: f.promotion,
        castle: f.castle,
        gives_check: check,
    }
}

/// The result of a finished replay in the position of FEN text.
pub open spec fn end_result(fen: Seq<u8>, recorded: GameResult) -> GameResult {
    match outcome_at(fen) {
        Some(o) => final_result(o, recorded),
        None => recorded,
    }
}

/// The replay of moves `k..` from the position of FEN text: the full moves
/// and the result, or the error of the first move that the engine cannot
/// resolve or play.
pub open spec fn replay_from(fen: Seq<u8>, moves: Seq<Move>, k: nat, recorded: GameResult) -> Result<
    (Seq<FullMove>, GameResult),
    ReplayError,
>
    decreases moves.len() - k,
{
    if k >= moves.len() {
        Ok((Seq::empty(), end_result(fen, recorded)))
    } else {
        match resolution(k as int, san_move_at(fen, san_of_move(moves[k as int]))) {
            Err(e) => Err(e),
            Ok(em) => match fen_after(fen, em) {
                None => Err(ReplayError::IllegalMove(k as usize)),
                Some(next) => match replay_from(next, moves, k + 1, recorded) {
                    Err(e) => Err(e),
                    Ok((rest, res)) => Ok(
                        (
                            seq![with_check(full_move_of(em), check_at(next) == Some(true))] + rest,
                            res,
                        ),
                    ),
                },
            },
        }
    }
}

/// The FEN text a game starts from.
pub open spec fn start_fen(start: Option<Seq<u8>>) -> Seq<u8> {
    match start {
        Some(f) => f,
        None => standard_fen(),
    }
}

/// The replay of a game: a start position of its own that sets up no legal
/// position is an error; otherwise the moves are replayed from it, or from
/// the standard position.
pub open spec fn replay_spec(g: GameView) -> Result<(Seq<FullMove>, GameResult), ReplayError> {
    match g.start_position {
        Some(f) => if is_position_fen(f) {
            replay_from(f, g.moves, 0, g.result)
        } else {
            Err(ReplayError::BadStartPosition)
        },
        None => replay_from(standard_fen(), g.moves, 0, g.result),
    }
}

pub open spec fn prepend(
    done: Seq<FullMove>,
    r: Result<(Seq<FullMove>, GameResult), ReplayError>,
) -> Result<(Seq<FullMove>, GameResult), ReplayError> {
    match r {
        Ok((rest, res)) => Ok((done + rest, res)),
        Err(e) => Err(e),
    }
}

pub open spec fn replay_view(r: Result<Replay, ReplayError>) -> Result<(Seq<FullMove>, GameResult), ReplayError> {
    match r {
        Ok(rep) => Ok((rep.moves@, rep.result)),
        Err(e) => Err(e),
    }
}

/// Replays a game from its start position: each compact move is resolved to
/// the one legal move it describes, then played.
pub fn replay_game(game: &crate::schema::Game) -> (r: Result<Replay, ReplayError>)
    ensures
        replay_view(r) == replay_spec(game@),
        r matches Ok(rep) ==> rep.moves@.len() == game.moves@.len() && forall|i: int|
            0 <= i < game.moves@.len() ==> agrees(game.moves@[i], #[trigger] rep.moves@[i]),
{
    let mut fen = match &game.start_position {
        None => standard_fen_bytes(),
        Some(text) => {
            if !fen_is_position(text.as_slice()) {
                return Err(ReplayError::BadStartPosition);
            }
            text.clone()
        },
    };
    let ghost gv = game@;
    proof {
        assert(fen@ == start_fen(gv.start_position));
    }
    let mut moves: Vec<FullMove> = Vec::new();
    let mut i: usize = 0;
    while i < game.moves.len()
        invariant
            gv == game@,
            gv.start_position is None || is_position_fen(gv.start_position.unwrap()),
            i <= game.moves@.len(),
            moves@.len() == i,
            forall|j: int| 0 <= j < i ==> agrees(game.moves@[j], #[trigger] moves@[j]),
            replay_spec(gv) == prepend(moves@, replay_from(fen@, gv.moves, i as nat, gv.result)),
        decreases game.moves@.len() - i,
    {
        let san = move_ref_to_san(&game.moves[i]);
        let answer = resolve_at(fen.as_slice(), san);
        let resolved = match resolve_step(i, answer) {
            Ok(m) => m,
            Err(e) => return Err(e),
        };
        proof {
            lemma_resolved_agrees(game.moves@[i as int], resolved);
        }
        let next = match play_at(fen.as_slice(), resolved) {
            Some(f) => f,
            None => return Err(ReplayError::IllegalMove(i)),
        };
        let gives_check = match check_of_fen(next.as_slice()) {
            Some(true) => true,
            _ => false,
        };
        let played = full_move(resolved);
        let fm = FullMove { gives_check, ..played };
        proof {
            assert(fm == with_check(full_move_of(resolved), check_at(next@) == Some(true)));
            let rest = replay_from(next@, gv.moves, (i + 1) as nat, gv.result);
            if let Ok((r2, res)) = rest {
                assert(moves@.push(fm) + r2 =~= moves@ + (seq![fm] + r2));
            }
        }
        moves.push(fm);
        fen = next;
        i = i + 1;
    }
    let result = match outcome_of_fen(fen.as_slice()) {
        Some(o) => resolve_result(o, game.result),
        None => game.result,
    };
    proof {
        assert(moves@ + Seq::<FullMove>::empty() =~= moves@);
    }
    Ok(Replay { moves, result })
}

/// Whether a replayed game ended in a win for white.
pub fn is_white_win(replay: &Replay) -> (r: bool)
    ensures
        r == (replay.result == GameResult::WhiteWin),
{
    match replay.result {
        GameResult::WhiteWin => true,
        _ => false,
    }
}

} // verus!
