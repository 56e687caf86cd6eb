use xiangqi_rim::board::fen::Parser;
use xiangqi_rim::board::Position;
use xiangqi_rim::book::endgame::{DRAW, LOSS, WIN};
use xiangqi_rim::book::opening::entries;
use xiangqi_rim::book::{Book, Endgame};

#[test]
fn bare() {
    let pos = Parser::parse("4k4/9/9/9/9/9/9/9/9/4K4 w - - 0 1");
    let score = Endgame::new().eval(&pos);
    assert_eq!(score, Some(DRAW));
}

#[test]
fn knight() {
    let pos = Parser::parse("4ka3/9/9/9/9/9/9/4N4/9/4K4 w - - 0 1");
    let score = Endgame::new().eval(&pos);
    assert_eq!(score, Some(WIN));
}

#[test]
fn rook() {
    let pos = Parser::parse("3k5/4r4/9/9/9/9/9/9/4C4/4K1R2 w - - 0 1");
    let score = Endgame::new().eval(&pos);
    assert_eq!(score, Some(WIN));
    let mut black = pos;
    black.side = 1;
    let enemy = Endgame::new().eval(&black);
    assert_eq!(enemy, Some(LOSS));
}

#[test]
fn endgame_dynamic() {
    let mut endgame = Endgame::new();
    endgame.clear();
    assert_eq!(endgame.count(), 0);
    let hash_val = 0x9988776655443322u64;
    let score = WIN;
    let synced = endgame.sync(hash_val, score);
    assert!(synced);
    assert_eq!(endgame.count(), 1);
    assert_eq!(endgame.probe(hash_val), Some(score));
    let mut pos = Position::empty();
    pos.hash = hash_val;
    assert_eq!(endgame.eval(&pos), Some(score));
    endgame.clear();
    assert_eq!(endgame.count(), 0);
}

#[test]
fn sorted() {
    let table = entries();
    let mut i = 0;
    while i < table.len() - 1 {
        assert!(table[i].hash < table[i + 1].hash, "opening entries must be sorted by hash");
        i += 1;
    }
}

#[test]
fn probe() {
    let book = Book::default();
    let target = entries()[100];
    let res = book.find(target.hash);
    assert!(res.is_some(), "a stored hash must give a move");
    let mv = res.unwrap();
    assert_eq!(mv.raw(), target.mv);
}

#[test]
fn miss() {
    let book = Book::default();
    let res = book.find(0xFFFFFFFFFFFFFFFF);
    assert!(res.is_none(), "an unknown hash must give nothing");
}

#[test]
fn opening_dynamic() {
    let mut book = Book::default();
    book.clear();
    assert_eq!(book.count(), 0);
    let hash_val = 0x1122334455667788u64;
    let mv = 0x1316u16;
    let weight = 750u16;
    let synced = book.sync(hash_val, mv, weight);
    assert!(synced);
    assert_eq!(book.count(), 1);
    let probed = book.find(hash_val);
    assert!(probed.is_some());
    assert_eq!(probed.unwrap().raw(), mv);
    book.clear();
    assert_eq!(book.count(), 0);
}
