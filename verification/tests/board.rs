use xiangqi_rim::board::arbiter::{Arbiter, Verdict};
use xiangqi_rim::board::fen::{Fault, Parser, Serializer, Validator};
use xiangqi_rim::board::moves::Move;
use xiangqi_rim::board::{Bitboard, Position, Square};

#[test]
fn test_perpetual_check_detection() {
    let mut arbiter = Arbiter::new();
    let pos1 = Parser::parse(Parser::DEFAULT);
    let pos2 = Parser::parse("rnbakabnr/9/1c5c1/p1p1p1p1p/9/9/P1P1P1P1P/1C5C1/9/RNBAKABNR b - - 0 1");
    let mv = Move::new(4, 5);
    arbiter.push(&pos1, mv, true, false);
    arbiter.push(&pos2, mv, false, false);
    arbiter.push(&pos1, mv, true, false);
    arbiter.push(&pos2, mv, false, false);
    let verdict = arbiter.judge(pos1.hash, 0);
    assert_eq!(verdict, Verdict::RedLoss);
    let score_red = arbiter.score(pos1.hash, 0, 4);
    assert!(score_red.unwrap() <= -28900);
}

#[test]
fn valid_default_fen() {
    assert!(Validator::check(Parser::DEFAULT));
}

#[test]
fn reject_collapsed_ranks() {
    let bad = "111111111/9/1c5c1/p1p1p1p1p/9/9/P1P1P1P1P/1C5C1/9/RNBAKABNR w - - 0 1";
    assert_eq!(Validator::audit(bad), Err(Fault::Digits));
    assert!(!Validator::check(bad));
}

#[test]
fn reject_adjacent_digits() {
    let bad1 = "rnbakabnr/18/1c5c1/p1p1p1p1p/9/9/P1P1P1P1P/1C5C1/9/RNBAKABNR w - - 0 1";
    assert_eq!(Validator::audit(bad1), Err(Fault::Digits));
    let bad2 = "rnbakabnr/9/1c5c1/p1p1p1p1p/45/9/P1P1P1P1P/1C5C1/9/RNBAKABNR w - - 0 1";
    assert_eq!(Validator::audit(bad2), Err(Fault::Digits));
}

#[test]
fn reject_invalid_rank_counts() {
    let bad = "rnbakabnr/9/1c5c1/p1p1p1p1p/9/9/P1P1P1P1P/RNBAKABNR w - - 0 1";
    assert_eq!(Validator::audit(bad), Err(Fault::Ranks));
}

#[test]
fn reject_invalid_file_counts() {
    let bad = "rnbakabnr/8/1c5c1/p1p1p1p1p/9/9/P1P1P1P1P/1C5C1/9/RNBAKABNR w - - 0 1";
    assert_eq!(Validator::audit(bad), Err(Fault::Files));
}

#[test]
fn reject_king_outside_palace() {
    let bad = "rnbakabnr/9/1c5c1/p1p1p1p1p/4K4/9/P1P1P1P1P/1C5C1/9/RNBA1ABNR w - - 0 1";
    assert_eq!(Validator::audit(bad), Err(Fault::Palace));
}

#[test]
fn reject_advisor_outside_palace() {
    let bad = "rnbakabnr/9/1c5c1/p1p1p1p1p/9/9/P1P1P1P1P/1C5C1/9/ANBAKABNR w - - 0 1";
    assert_eq!(Validator::audit(bad), Err(Fault::Palace));
}

#[test]
fn reject_flying_general() {
    let bad = "4k4/9/9/9/9/9/9/9/9/4K4 w - - 0 1";
    assert_eq!(Validator::audit(bad), Err(Fault::Fly));
}

#[test]
fn mod_default() {
    let fen = Parser::DEFAULT;
    let pos = Parser::parse(fen);
    let out = Serializer::export(&pos);
    assert_eq!(fen, out);
    assert_eq!(pos.side, 0);
    assert_eq!(pos.rule, 0);
    assert_eq!(pos.ply, 1);
    assert_eq!(pos.hash, pos.compute());
}

#[test]
fn mod_roundtrip() {
    let text = "rnbakabnr/9/1c5c1/p1p1p1p1p/9/9/P1P1P1P1P/1C5C1/9/RNBAKABNR w - - 0 1";
    let pos = Parser::parse(text);
    let out = Serializer::export(&pos);
    assert_eq!(text, out);
}

#[test]
fn bitboard() {
    let mut bb = Bitboard::empty();
    assert!(!bb.active());
    assert_eq!(bb.count(), 0);
    let sq = Square::new(4, 0);
    bb.set(sq);
    assert!(bb.active());
    assert!(bb.test(sq));
    assert_eq!(bb.count(), 1);
    assert_eq!(bb.lsb(), Some(sq));
    let popped = bb.pop();
    assert_eq!(popped, Some(sq));
    assert!(!bb.active());
}

#[test]
fn zobrist() {
    let fen = Parser::DEFAULT;
    let mut pos = Parser::parse(fen);
    let orig = pos.hash;
    assert_eq!(orig, pos.compute());
    let from = 19u8;
    let to = 28u8;
    let state = pos.apply(from, to);
    assert_ne!(pos.hash, orig);
    assert_eq!(pos.hash, pos.compute());
    pos.revert(from, to, &state);
    assert_eq!(pos.hash, orig);
    assert_eq!(pos.hash, pos.compute());
}

#[test]
fn state() {
    let fen = Parser::DEFAULT;
    let mut pos = Parser::parse(fen);
    let orig = pos;
    let from = 19u8;
    let to = 28u8;
    let state = pos.apply(from, to);
    assert_eq!(pos.at(from), 14);
    assert_eq!(pos.at(to), 5);
    assert_eq!(pos.side, 1);
    pos.revert(from, to, &state);
    assert_eq!(pos.at(from), 5);
    assert_eq!(pos.at(to), 14);
    assert_eq!(pos.side, 0);
    assert_eq!(pos, orig);
}

#[test]
fn drift() {
    let text = Parser::DEFAULT;
    let mut pos = Parser::parse(text);
    let orig = pos;
    let mut seed = 0xDEADBEEF12345678u64;
    let mut history = Vec::with_capacity(1000);
    for _ in 0..1000 {
        let mut from = 0u8;
        let mut found = false;
        for _ in 0..90 {
            seed = seed.wrapping_add(0x9E3779B97F4A7C15);
            let idx = ((seed >> 24) % 90) as u8;
            if pos.at(idx) < 14 {
                from = idx;
                found = true;
                break;
            }
        }
        if !found {
            continue;
        }
        seed = seed.wrapping_add(0x9E3779B97F4A7C15);
        let to = ((seed >> 16) % 90) as u8;
        if from != to {
            let state = pos.apply(from, to);
            assert_eq!(pos.hash, pos.compute(), "hash drift after apply");
            history.push((from, to, state));
        }
    }
    while let Some((from, to, state)) = history.pop() {
        pos.revert(from, to, &state);
        assert_eq!(pos.hash, pos.compute(), "hash drift after revert");
    }
    assert_eq!(pos, orig, "board differs after undoing every move");
    assert_eq!(pos.hash, orig.hash, "hash differs after undoing every move");
}

#[test]
fn same() {
    let fen = Parser::DEFAULT;
    let mut pos = Parser::parse(fen);
    let orig = pos;
    let sq = 19u8;
    let state = pos.apply(sq, sq);
    assert_eq!(pos.hash, pos.compute(), "apply(sq, sq) breaks the hash");
    pos.revert(sq, sq, &state);
    assert_eq!(pos.counts[5], orig.counts[5], "revert(sq, sq) changes the counts");
    assert_eq!(pos, orig, "revert(sq, sq) changes the board");
}

#[test]
fn occupy() {
    let mut pos = Position::empty();
    pos.put(4, 0);
    assert_eq!(pos.counts[4], 1);
    assert!(pos.piece[4].test(Square(0)));
    pos.put(5, 0);
    assert!(!pos.piece[4].test(Square(0)), "put over a piece leaves its bit");
    assert_eq!(pos.counts[4], 0, "put over a piece leaves its count");
}

#[test]
fn underflow() {
    let sq = Square(90);
    let _flipped = sq.flip();
}

#[test]
fn bounds() {
    let pos = Position::empty();
    let _p = pos.at(90);
}

#[test]
fn magic_table_default_is_empty() {
    let table = xiangqi_rim::board::magic::Table::default();
    assert!(table.entries.is_empty());
    assert_eq!(table.lookup(4, 0xFFFF), Bitboard::empty());
    assert_eq!(table.lookup(95, 0), Bitboard::empty());
}
