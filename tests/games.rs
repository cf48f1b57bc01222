use chessb::analysis::{analyze_block, BlockStats};
use chessb::archive::decode_archive;
use chessb::converter::{ConvertError, Converter};
use chessb::engine::{
    is_white_win, move_from_san, move_ref_to_san, outcome_to_game_result, piece_to_role,
    replay_game, resolve_result, role_to_piece, shakmaty_square_to_square,
    square_to_shakmaty_square, FullMove, ReplayError,
};
use chessb::schema::{CastleKind, File, Game, GameResult, Move, Piece, Rank, Square};
use chessb::serializer::Serializer;
use chessb::stream::block_ranges;
use chessb::engine::resolve_step;
use shakmaty::san::{San, SanError};
use shakmaty::{Color, KnownOutcome, Outcome};

fn sq(file: File, rank: Rank) -> Square {
    Square { file, rank }
}

fn san(text: &str) -> San {
    San::from_ascii(text.as_bytes()).unwrap()
}

fn white_wins() -> Outcome {
    Outcome::Known(KnownOutcome::Decisive { winner: Color::White })
}

fn play(c: &mut Converter, moves: &[&str], outcome: Outcome) {
    c.begin_game();
    for m in moves {
        c.san(san(m)).unwrap();
    }
    c.outcome(outcome).unwrap();
    c.end_game();
}

fn game(moves: &[&str], result: GameResult) -> Game {
    Game {
        result,
        start_position: None,
        moves: moves.iter().map(|m| move_from_san(san(m)).unwrap()).collect(),
    }
}

fn two_games() -> Vec<u8> {
    let mut s = Serializer::new();
    s.set_max_games_per_block(10);
    let mut c = Converter::new(s);
    play(&mut c, &["e4", "e5", "Nf3"], white_wins());
    play(&mut c, &["d4", "d5", "Nf3"], Outcome::Unknown);
    assert_eq!(c.game_count(), 2);
    c.flush();
    c.take_output()
}

#[test]
fn two_games_in_one_block_share_nf3() {
    let bytes = two_games();
    let blocks = block_ranges(&bytes);
    assert_eq!(blocks.len(), 1);
    let contents = decode_archive(&bytes);
    assert_eq!(contents.games.len(), 2);
    assert_eq!(contents.games[0].result, GameResult::WhiteWin);
    assert_eq!(contents.games[1].result, GameResult::Unknown);
    let nf3 = move_from_san(san("Nf3")).unwrap();
    assert_eq!(contents.games[0].moves[2], nf3);
    assert_eq!(contents.games[1].moves[2], nf3);
    // one physical record of Nf3 in the block
    let record = chessb::schema::encode_move(&nf3);
    assert_eq!(blocks[0].windows(8).filter(|w| *w == record).count(), 1);
    // and the same reference for both games
    let mut s = Serializer::new();
    let mut refs = vec![];
    for m in ["e4", "e5", "Nf3", "d4", "d5", "Nf3"] {
        refs.push(s.add_move(&move_from_san(san(m)).unwrap()).unwrap());
    }
    assert_eq!(refs[2], refs[5]);
    assert_eq!(s.move_count(), 5);
}

#[test]
fn replaying_the_two_games() {
    let bytes = two_games();
    let contents = decode_archive(&bytes);
    let r1 = replay_game(&contents.games[0]).unwrap();
    let expected = [
        (Piece::Pawn, sq(File::E, Rank::Second), sq(File::E, Rank::Fourth)),
        (Piece::Pawn, sq(File::E, Rank::Seventh), sq(File::E, Rank::Fifth)),
        (Piece::Knight, sq(File::G, Rank::First), sq(File::F, Rank::Third)),
    ];
    assert_eq!(r1.moves.len(), 3);
    for (m, (piece, from, to)) in r1.moves.iter().zip(expected) {
        assert_eq!(m.piece, piece);
        assert_eq!(m.from, from);
        assert_eq!(m.to, to);
        assert!(!m.is_capture);
        assert_eq!(m.castle, None);
    }
    assert_eq!(r1.result, GameResult::WhiteWin);
    assert!(is_white_win(&r1));
    let r2 = replay_game(&contents.games[1]).unwrap();
    assert_eq!(r2.moves[2].from, sq(File::G, Rank::First));
    assert_eq!(r2.result, GameResult::Unknown);
    assert!(!is_white_win(&r2));
}

#[test]
fn replay_resolves_castling_and_captures() {
    let g = game(&["e4", "e5", "Nf3", "Nc6", "Bc4", "d6", "O-O", "Bg4", "Bxf7+"], GameResult::Unknown);
    let r = replay_game(&g).unwrap();
    assert_eq!(
        r.moves[6],
        FullMove {
            piece: Piece::King,
            from: sq(File::E, Rank::First),
            to: sq(File::G, Rank::First),
            is_capture: false,
            promotion: None,
            castle: Some(CastleKind::Kingside),
            gives_check: false,
        }
    );
    assert_eq!(r.moves[8].from, sq(File::C, Rank::Fourth));
    assert!(r.moves[8].is_capture);
    assert!(r.moves[8].gives_check);
    assert!(!r.moves[7].gives_check);
}

#[test]
fn engine_verdict_wins_over_recorded_result() {
    let g = game(&["f3", "e5", "g4", "Qh4#"], GameResult::Unknown);
    let r = replay_game(&g).unwrap();
    assert_eq!(r.result, GameResult::BlackWin);
    assert!(r.moves[3].gives_check);
    assert_eq!(resolve_result(Outcome::Unknown, GameResult::Draw), GameResult::Draw);
    assert_eq!(resolve_result(white_wins(), GameResult::Draw), GameResult::WhiteWin);
}

#[test]
fn replay_errors() {
    let ambiguous = game(&["d4", "d5", "Nf3", "Nf6", "Nd2"], GameResult::Unknown);
    assert_eq!(replay_game(&ambiguous).unwrap_err(), ReplayError::AmbiguousMove(4));
    let disambiguated = game(&["d4", "d5", "Nf3", "Nf6", "Nbd2"], GameResult::Unknown);
    assert_eq!(replay_game(&disambiguated).unwrap().moves[4].from, sq(File::B, Rank::First));
    let illegal = game(&["Ke2"], GameResult::Unknown);
    assert_eq!(replay_game(&illegal).unwrap_err(), ReplayError::IllegalMove(0));
    let bad_start = Game { result: GameResult::Draw, start_position: Some(b"not a fen".to_vec()), moves: vec![] };
    assert_eq!(replay_game(&bad_start).unwrap_err(), ReplayError::BadStartPosition);
}

#[test]
fn engine_answers_map_to_replay_steps() {
    let m = shakmaty::Move::Normal {
        role: shakmaty::Role::Pawn,
        from: shakmaty::Square::E2,
        capture: None,
        to: shakmaty::Square::E4,
        promotion: None,
    };
    assert_eq!(resolve_step(3, Some(Ok(m))), Ok(m));
    assert_eq!(resolve_step(3, Some(Err(SanError::AmbiguousSan))), Err(ReplayError::AmbiguousMove(3)));
    assert_eq!(resolve_step(3, Some(Err(SanError::IllegalSan))), Err(ReplayError::IllegalMove(3)));
    assert_eq!(resolve_step(3, None), Err(ReplayError::IllegalMove(3)));
}

#[test]
fn skipped_games_are_counted() {
    let mut s = Serializer::new();
    let bad = move_from_san(san("Ke2")).unwrap();
    let good = move_from_san(san("e4")).unwrap();
    let rb = s.add_move(&bad).unwrap();
    let rg = s.add_move(&good).unwrap();
    s.add_game(GameResult::WhiteWin, None, &[rb]).unwrap();
    s.add_game(GameResult::WhiteWin, None, &[rg]).unwrap();
    s.finish_current_block();
    let bytes = s.take_output();
    let stats = analyze_block(block_ranges(&bytes)[0]);
    assert_eq!(stats.games, 2);
    assert_eq!(stats.skipped_games, 1);
    assert_eq!(stats.white_wins, 1);
}

#[test]
fn replay_from_a_start_position() {
    let g = Game {
        result: GameResult::Unknown,
        start_position: Some(b"7k/8/6K1/8/8/8/8/R7 w - - 0 1".to_vec()),
        moves: vec![move_from_san(san("Ra8#")).unwrap()],
    };
    let r = replay_game(&g).unwrap();
    assert_eq!(r.moves[0].from, sq(File::A, Rank::First));
    assert_eq!(r.result, GameResult::WhiteWin);
}

#[test]
fn unsupported_moves_are_refused() {
    let mut c = Converter::new(Serializer::new());
    c.begin_game();
    assert_eq!(c.san(San::Null), Err(ConvertError::UnsupportedMove));
    assert_eq!(move_from_san(san("Q@e4")), None);
}

#[test]
fn start_position_is_kept() {
    let mut c = Converter::new(Serializer::new());
    c.begin_game();
    c.set_start_position(b"7k/8/6K1/8/8/8/8/R7 w - - 0 1".to_vec());
    c.san(san("Ra8#")).unwrap();
    c.outcome(white_wins()).unwrap();
    c.end_game();
    c.flush();
    let contents = decode_archive(&c.take_output());
    assert_eq!(contents.games[0].start_position, Some(b"7k/8/6K1/8/8/8/8/R7 w - - 0 1".to_vec()));
}

#[test]
fn san_conversion_round_trips() {
    for text in ["e4", "Nbd7", "R1a3", "exd8=Q", "O-O", "O-O-O", "Qh4xe1"] {
        let s = san(text);
        let m = move_from_san(s).unwrap();
        assert_eq!(move_ref_to_san(&m), s);
    }
    let m = move_from_san(san("O-O-O")).unwrap();
    assert_eq!(m.castle, Some(CastleKind::Queenside));
    assert_eq!(m.moved_piece, Piece::King);
    assert_eq!(m.to, sq(File::A, Rank::First));
    let m: Move = move_from_san(san("exd8=N")).unwrap();
    assert_eq!(m.from_file, Some(File::E));
    assert_eq!(m.promoted_piece, Some(Piece::Knight));
    assert!(m.is_capture);
}

#[test]
fn conversions_round_trip() {
    for role in [
        shakmaty::Role::King,
        shakmaty::Role::Queen,
        shakmaty::Role::Rook,
        shakmaty::Role::Bishop,
        shakmaty::Role::Knight,
        shakmaty::Role::Pawn,
    ] {
        assert_eq!(piece_to_role(role_to_piece(role)), role);
    }
    assert_eq!(role_to_piece(shakmaty::Role::Knight), Piece::Knight);
    for s in shakmaty::Square::ALL {
        assert_eq!(square_to_shakmaty_square(shakmaty_square_to_square(s)), s);
    }
    assert_eq!(shakmaty_square_to_square(shakmaty::Square::G1), sq(File::G, Rank::First));
    assert_eq!(square_to_shakmaty_square(sq(File::C, Rank::Sixth)), shakmaty::Square::C6);
    assert_eq!(outcome_to_game_result(white_wins()), GameResult::WhiteWin);
    assert_eq!(
        outcome_to_game_result(Outcome::Known(KnownOutcome::Decisive { winner: Color::Black })),
        GameResult::BlackWin
    );
    assert_eq!(outcome_to_game_result(Outcome::Known(KnownOutcome::Draw)), GameResult::Draw);
    assert_eq!(outcome_to_game_result(Outcome::Unknown), GameResult::Unknown);
}

#[test]
fn block_statistics() {
    let bytes = two_games();
    let blocks = block_ranges(&bytes);
    let stats = analyze_block(blocks[0]);
    assert_eq!(
        stats,
        BlockStats { blocks: 1, skipped_blocks: 0, games: 2, moves: 6, white_wins: 1, skipped_games: 0 }
    );
    let bad = analyze_block(&[1, 2, 3, 4, 5]);
    assert_eq!(bad.skipped_blocks, 1);
    assert_eq!(bad.games, 0);
    let total = BlockStats::empty().combine(&stats).combine(&bad);
    assert_eq!(total, BlockStats { blocks: 2, skipped_blocks: 1, games: 2, moves: 6, white_wins: 1, skipped_games: 0 });
    assert_eq!(stats.combine(&bad), bad.combine(&stats));
    let big = BlockStats { blocks: u64::MAX, ..stats };
    assert_eq!(big.combine(&stats).blocks, u64::MAX);
}
