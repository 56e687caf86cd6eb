use xiangqi_rim::board::fen::Parser;
use xiangqi_rim::eval::{Accum, Eval, Sieve};

#[test]
fn incremental() {
    let mut pos = Parser::parse(Parser::DEFAULT);
    let mut eval = Eval::new();
    eval.reset(&pos);
    let initial = eval.accum;
    let from = 77u8;
    let to = 41u8;
    let moving = pos.grid[from as usize];
    let captured = pos.grid[to as usize];
    eval.apply(&pos, from, to, moving, captured);
    let applied = eval.accum;
    pos.grid[from as usize] = 14;
    pos.grid[to as usize] = moving;
    let mut fresh = Accum::new();
    fresh.reset(&pos, &eval.nnue.weight);
    assert!(applied == fresh, "the incremental update must match a reset");
    pos.grid[from as usize] = moving;
    pos.grid[to as usize] = captured;
    eval.revert(&pos, from, to, moving, captured);
    assert!(eval.accum == initial, "undoing must give the first accumulator back");
}

#[test]
fn check() {
    let mut pos = Parser::parse(Parser::DEFAULT);
    let mut eval = Eval::new();
    eval.reset(&pos);
    let moves = [(4u8, 13u8), (85u8, 76u8), (13u8, 14u8), (76u8, 75u8), (14u8, 5u8), (75u8, 84u8)];
    let mut stack = Vec::new();
    for &(from, to) in &moves {
        let moving = pos.grid[from as usize];
        let captured = pos.grid[to as usize];
        let initial = eval.accum;
        eval.apply(&pos, from, to, moving, captured);
        let state = pos.apply(from, to);
        stack.push((from, to, moving, captured, state, initial));
        let mut fresh = Accum::new();
        fresh.reset(&pos, &eval.nnue.weight);
        assert!(eval.accum == fresh, "after king move ({from} -> {to}) the accumulator must match a reset");
    }
    while let Some((from, to, moving, captured, state, expected)) = stack.pop() {
        pos.revert(from, to, &state);
        eval.revert(&pos, from, to, moving, captured);
        assert!(eval.accum == expected, "after undoing, the accumulator must match the one before");
    }
}

#[test]
fn test_sieve_operations() {
    let mut sieve = Sieve::new();
    let hash1 = 0x123456789ABCDEF0u64;
    let hash2 = 0xFEDCBA9876543210u64;
    assert!(!sieve.contains(hash1));
    sieve.push(hash1);
    assert!(sieve.contains(hash1));
    assert!(!sieve.contains(hash2));
}

#[test]
fn perspective() {
    let mut pos = Parser::parse(Parser::DEFAULT);
    let mut eval = Eval::new();
    let handcrafted = 37;
    let red = eval.score(&pos, handcrafted);
    pos.side = 1;
    let black = eval.score(&pos, handcrafted);
    assert!(red == -black);
    assert_eq!(red, 37);
}
