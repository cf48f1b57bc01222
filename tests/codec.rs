use chessb::archive::decode_archive;
use chessb::schema::{CastleKind, File, GameResult, Move, Piece, Rank, Square};
use chessb::serializer::{MoveRef, SerializeError, Serializer, MAX_GAMES_PER_BLOCK};
use chessb::stream::{block_ranges, BlockScanner};
use chessb::wire::{decode_block, read_u32};

fn sq(file: File, rank: Rank) -> Square {
    Square { file, rank }
}

fn plain(piece: Piece, to: Square) -> Move {
    Move {
        moved_piece: piece,
        to,
        is_capture: false,
        promoted_piece: None,
        castle: None,
        from_file: None,
        from_rank: None,
    }
}

fn castle(kind: CastleKind) -> Move {
    Move {
        moved_piece: Piece::King,
        to: sq(File::A, Rank::First),
        is_capture: false,
        promoted_piece: None,
        castle: Some(kind),
        from_file: None,
        from_rank: None,
    }
}

fn add_moves(s: &mut Serializer, moves: &[Move]) -> Vec<MoveRef> {
    moves.iter().map(|m| s.add_move(m).unwrap()).collect()
}

#[test]
fn new_serializer_defaults() {
    let s = Serializer::new();
    assert_eq!(MAX_GAMES_PER_BLOCK, 500_000);
    assert_eq!(s.move_count(), 0);
    assert_eq!(s.pending_games(), 0);
    assert_eq!(s.block_len(), 0);
}

#[test]
fn round_trip_keeps_games_and_order() {
    let mut s = Serializer::new();
    let promo = Move {
        moved_piece: Piece::Pawn,
        to: sq(File::H, Rank::Eighth),
        is_capture: true,
        promoted_piece: Some(Piece::Queen),
        castle: None,
        from_file: Some(File::G),
        from_rank: None,
    };
    let hinted = Move {
        moved_piece: Piece::Rook,
        to: sq(File::D, Rank::First),
        is_capture: false,
        promoted_piece: None,
        castle: None,
        from_file: None,
        from_rank: Some(Rank::Fifth),
    };
    let g1 = vec![plain(Piece::Pawn, sq(File::E, Rank::Fourth)), castle(CastleKind::Kingside), promo];
    let g2 = vec![hinted, castle(CastleKind::Queenside), plain(Piece::Pawn, sq(File::E, Rank::Fourth))];
    let fen = b"8/8/8/8/8/8/8/K6k w - - 0 1".to_vec();
    let r1 = add_moves(&mut s, &g1);
    s.add_game(GameResult::Draw, None, &r1).unwrap();
    let r2 = add_moves(&mut s, &g2);
    s.add_game(GameResult::BlackWin, Some(&fen), &r2).unwrap();
    s.add_game(GameResult::Unknown, None, &[]).unwrap();
    s.finish_current_block();
    let bytes = s.take_output();
    let contents = decode_archive(&bytes);
    assert_eq!(contents.blocks, 1);
    assert_eq!(contents.skipped_blocks, 0);
    assert_eq!(contents.games.len(), 3);
    assert_eq!(contents.games[0].result, GameResult::Draw);
    assert_eq!(contents.games[0].start_position, None);
    assert_eq!(contents.games[0].moves, g1);
    assert_eq!(contents.games[1].result, GameResult::BlackWin);
    assert_eq!(contents.games[1].start_position, Some(fen));
    assert_eq!(contents.games[1].moves, g2);
    assert_eq!(contents.games[2].result, GameResult::Unknown);
    assert!(contents.games[2].moves.is_empty());
}

#[test]
fn identical_moves_are_stored_once_per_block() {
    let mut s = Serializer::new();
    let m = plain(Piece::Knight, sq(File::F, Rank::Third));
    let first = s.add_move(&m).unwrap();
    let len = s.block_len();
    for _ in 0..4 {
        assert_eq!(s.add_move(&m).unwrap(), first);
    }
    assert_eq!(s.move_count(), 1);
    assert_eq!(s.block_len(), len);
    assert_eq!(len, 8);
    s.add_game(GameResult::WhiteWin, None, &[first; 5]).unwrap();
    s.finish_current_block();
    assert_eq!(s.move_count(), 0);
    let again = s.add_move(&m).unwrap();
    assert_eq!(s.move_count(), 1);
    assert_eq!(again.offset, 0);
    assert_eq!(s.block_len(), 8);
    s.add_game(GameResult::WhiteWin, None, &[again]).unwrap();
    s.finish_current_block();
    let bytes = s.take_output();
    let blocks = block_ranges(&bytes);
    assert_eq!(blocks.len(), 2);
    // each block stores its own copy of the move record
    for b in &blocks {
        let record = chessb::schema::encode_move(&m);
        assert!(b.windows(8).any(|w| w == record));
    }
    let contents = decode_archive(&bytes);
    assert_eq!(contents.games[0].moves, vec![m; 5]);
    assert_eq!(contents.games[1].moves, vec![m]);
}

#[test]
fn same_move_twice_gives_same_reference() {
    let mut s = Serializer::new();
    let a = plain(Piece::Pawn, sq(File::D, Rank::Fourth));
    let b = plain(Piece::Pawn, sq(File::D, Rank::Fifth));
    let ra = s.add_move(&a).unwrap();
    let rb = s.add_move(&b).unwrap();
    assert_ne!(ra, rb);
    assert_eq!(s.move_count(), 2);
    let ra2 = s.add_move(&a).unwrap();
    assert_eq!(ra, ra2);
    assert_eq!(s.move_count(), 2);
    assert_eq!(s.block_len(), 16);
}

#[test]
fn games_are_chunked_by_threshold() {
    let mut s = Serializer::new();
    s.set_max_games_per_block(3);
    let m = plain(Piece::Pawn, sq(File::A, Rank::Third));
    for i in 0..7 {
        let r = s.add_move(&m).unwrap();
        s.add_game(GameResult::Unknown, None, &[r]).unwrap();
        assert_eq!(s.pending_games(), (i + 1) % 3);
    }
    s.finish_current_block();
    let bytes = s.take_output();
    let blocks = block_ranges(&bytes);
    assert_eq!(blocks.len(), 3);
    let counts: Vec<usize> = blocks.iter().map(|b| decode_block(b).unwrap().len()).collect();
    assert_eq!(counts, vec![3, 3, 1]);
    assert_eq!(decode_archive(&bytes).games.len(), 7);
}

#[test]
fn length_prefix_matches_block_and_truncation_stops_cleanly() {
    let mut s = Serializer::new();
    s.set_max_games_per_block(1);
    for _ in 0..3 {
        let r = s.add_move(&castle(CastleKind::Kingside)).unwrap();
        s.add_game(GameResult::Draw, None, &[r]).unwrap();
    }
    let bytes = s.take_output();
    let mut at = 0usize;
    let mut ends = vec![];
    while at < bytes.len() {
        let len = read_u32(&bytes, at) as usize;
        assert!(decode_block(&bytes[at + 4..at + 4 + len]).is_some());
        at += 4 + len;
        ends.push(at);
    }
    assert_eq!(at, bytes.len());
    assert_eq!(ends.len(), 3);
    for (k, &end) in ends.iter().enumerate() {
        assert_eq!(block_ranges(&bytes[..end]).len(), k + 1);
        assert_eq!(block_ranges(&bytes[..end - 1]).len(), k);
        assert_eq!(decode_archive(&bytes[..end - 1]).games.len(), k);
    }
    assert_eq!(block_ranges(&bytes[..2]).len(), 0);
}

#[test]
fn empty_block_is_still_written() {
    let mut s = Serializer::new();
    s.finish_current_block();
    let bytes = s.take_output();
    assert_eq!(bytes.len(), 4 + 13);
    assert_eq!(read_u32(&bytes, 0), 13);
    let contents = decode_archive(&bytes);
    assert_eq!(contents.blocks, 1);
    assert_eq!(contents.skipped_blocks, 0);
    assert!(contents.games.is_empty());
}

#[test]
fn unknown_move_reference_is_refused() {
    let mut s = Serializer::new();
    let r = s.add_move(&plain(Piece::King, sq(File::E, Rank::Second))).unwrap();
    assert_eq!(
        s.add_game(GameResult::Draw, None, &[r, MoveRef { offset: 3 }]),
        Err(SerializeError::UnknownMove)
    );
    assert_eq!(
        s.add_game(GameResult::Draw, None, &[MoveRef { offset: 100 }]),
        Err(SerializeError::UnknownMove)
    );
    assert_eq!(s.pending_games(), 0);
    assert!(s.add_game(GameResult::Draw, None, &[r]).is_ok());
}

#[test]
fn corrupt_block_is_skipped_and_counted() {
    let mut s = Serializer::new();
    s.set_max_games_per_block(1);
    let a = s.add_move(&plain(Piece::Pawn, sq(File::E, Rank::Fourth))).unwrap();
    s.add_game(GameResult::WhiteWin, None, &[a]).unwrap();
    let b = s.add_move(&plain(Piece::Pawn, sq(File::D, Rank::Fourth))).unwrap();
    s.add_game(GameResult::BlackWin, None, &[b]).unwrap();
    let mut bytes = s.take_output();
    let first_len = read_u32(&bytes, 0) as usize;
    for byte in &mut bytes[4..4 + first_len] {
        *byte ^= 0xFF;
    }
    let contents = decode_archive(&bytes);
    assert_eq!(contents.blocks, 2);
    assert_eq!(contents.skipped_blocks, 1);
    assert_eq!(contents.games.len(), 1);
    assert_eq!(contents.games[0].result, GameResult::BlackWin);
    assert_eq!(contents.games[0].moves, vec![plain(Piece::Pawn, sq(File::D, Rank::Fourth))]);
}

#[test]
fn decode_block_rejects_garbage() {
    assert!(decode_block(&[]).is_none());
    assert!(decode_block(&[1, 2, 3]).is_none());
    assert!(decode_block(&[0, 0, 0, 0, 9, 0, 0, 0, 0, 0, 0, 0, 0]).is_none());
    assert!(decode_block(&[0, 0, 0, 0, 1, 0, 0, 0, 0, 4, 0, 0, 0]).is_some());
}

#[test]
fn scanner_walks_blocks_one_by_one() {
    let data = [2u8, 0, 0, 0, 7, 8, 0, 0, 0, 0, 1, 0, 0, 0];
    let mut scanner = BlockScanner::new(&data);
    assert_eq!(scanner.next(), Some(&[7u8, 8][..]));
    assert_eq!(scanner.next(), Some(&[][..]));
    assert_eq!(scanner.next(), None);
    assert_eq!(scanner.next(), None);
    let cut = [9u8, 0, 0, 0, 1, 2, 3, 4, 5, 6, 7, 8];
    let mut scanner = BlockScanner::new(&cut);
    assert_eq!(scanner.next(), None);
    assert_eq!(scanner.next(), None);
}

#[test]
fn move_records_round_trip() {
    let m = Move {
        moved_piece: Piece::Bishop,
        to: sq(File::C, Rank::Seventh),
        is_capture: true,
        promoted_piece: None,
        castle: None,
        from_file: Some(File::H),
        from_rank: Some(Rank::Second),
    };
    let b = chessb::schema::encode_move(&m);
    assert_eq!(b, [3, 2, 6, 1, 0, 0, 8, 2]);
    assert_eq!(chessb::schema::decode_move(&b, 0), Some(m));
    assert_eq!(chessb::schema::decode_move(&[6, 0, 0, 0, 0, 0, 0, 0], 0), None);
}
