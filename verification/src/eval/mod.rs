//! Evaluation: the network's feature indices, weights, accumulator and
//! layers, the handcrafted building blocks, the duplicate-position filter,
//! and the evaluation front end that consults endgame knowledge first and
//! guards the network with the circuit breaker.
use vstd::prelude::*;

pub mod accum;
pub mod feature;
pub mod hce;
pub mod nnue;
pub mod nnue_avx2;
pub mod sieve;
pub mod weight;

pub use accum::Accum;
pub use feature::Feature;
pub use hce::Hce;
pub use nnue::Nnue;
pub use sieve::Sieve;
pub use weight::Weight;

use crate::board::position::Position;
use crate::book::endgame::{Endgame, endgame_score, sums_fit};
use crate::circuit::breaker::{Breaker, allowed, recorded};
use crate::circuit::check::Check;
use crate::circuit::state::{State, state_of};
use accum::shifted;
use feature::index_fits;
use nnue::{NetFault, score_of, score_fits, read_result, read_into};

verus! {

/// Which evaluation to use.
#[derive(Clone, Copy, Debug, PartialEq, Eq, Structural)]
pub enum Mode {
    /// The network, falling back to the handcrafted score.
    Auto,
    /// The network (with the same fallback).
    Nnue,
    /// The handcrafted score only.
    Hce,
}

/// The evaluation front end.
#[derive(Clone, Debug)]
pub struct Eval {
    /// Handcrafted evaluator.
    pub hce: Hce,
    /// Network.
    pub nnue: Nnue,
    /// Accumulator of the current position.
    pub accum: Accum,
    /// Mode.
    pub mode: Mode,
    /// Breaker guarding the network.
    pub circuit: Breaker,
    /// Endgame knowledge consulted first.
    pub endgame: Endgame,
}

/// The network's raw score and the breaker after consulting it, or the
/// fallback when the network is not loaded or the breaker refuses it; a
/// score outside `[-29999, 29999]` counts as a failure and gives the
/// fallback too.
pub open spec fn raw_of(e: Eval, pos: Position, fallback: i32) -> (i32, Breaker) {
    if e.mode == Mode::Hce || !e.nnue.loaded {
        (fallback, e.circuit)
    } else {
        let (c1, ok) = allowed(e.circuit, 0);
        if !ok {
            (fallback, c1)
        } else {
            let v = score_of(e.nnue, e.accum, pos.side);
            let valid = -29999 <= v <= 29999;
            (if valid {
                v as i32
            } else {
                fallback
            }, recorded(c1, valid, 0))
        }
    }
}

/// The score of `pos` for the side to move: an endgame score if there is
/// one, else the raw score, negated when Black is to move.
pub open spec fn score_spec(e: Eval, pos: Position, fallback: i32) -> i32 {
    match endgame_score(e.endgame, pos) {
        Some(s) => s,
        None => {
            let raw = raw_of(e, pos, fallback).0;
            if pos.side == 0 {
                raw
            } else {
                (-raw) as i32
            }
        },
    }
}

/// What `score` needs: a side code of 0 or 1, material sums that fit, a
/// network pass that fits, room in the breaker's counters, and a raw score
/// that can be negated.
pub open spec fn score_ok(e: Eval, pos: Position, fallback: i32) -> bool {
    &&& pos.side <= 1
    &&& sums_fit(pos)
    &&& endgame_score(e.endgame, pos) is None ==> {
        &&& (e.mode != Mode::Hce && e.nnue.loaded && allowed(e.circuit, 0).1) ==> {
            &&& score_fits(e.nnue, e.accum, pos.side)
            &&& allowed(e.circuit, 0).0.fails < u32::MAX
            &&& (state_of(allowed(e.circuit, 0).0.state) == State::Half ==> allowed(e.circuit, 0).0.probe < u32::MAX)
        }
        &&& raw_of(e, pos, fallback).0 != i32::MIN
    }
}

impl Eval {
    /// A front end in automatic mode with an unloaded network, a new
    /// breaker and no learnt endgames.
    pub fn new() -> (r: Self)
        ensures
            r.mode == Mode::Auto,
            r.hce == Hce,
            !r.nnue.loaded,
            r.nnue.output.scale == 16 && r.nnue.output.bias == 0,
            forall|i: int| 0 <= i < 256 ==> #[trigger] r.nnue.weight.bias[i] == 0,
            forall|c: int, i: int| 0 <= c < 2 && 0 <= i < 256 ==> #[trigger] r.accum.vals[c][i] == 0,
            r.circuit.state == 0 && r.circuit.fails == 0 && r.circuit.total == 0 && r.circuit.ticks == 0
                && r.circuit.probe == 0,
            r.circuit.limit == 5 && r.circuit.span == 10000 && r.circuit.floor == -29999
                && r.circuit.ceiling == 29999,
            r.endgame.total == 10,
            r.endgame.dynamic@.len() == 0,
    {
        Self {
            hce: Hce::new(),
            nnue: Nnue::new(),
            accum: Accum::new(),
            mode: Mode::Auto,
            circuit: Breaker::new(),
            endgame: Endgame::new(),
        }
    }

    /// Reads network weights from the bytes of a weight file; on success
    /// the mode becomes automatic.
    pub fn read(&mut self, bytes: &[u8]) -> (r: Result<(), NetFault>)
        ensures
            r == read_result(bytes@),
            read_into(old(self).nnue, final(self).nnue, bytes@),
            final(self).mode == if r is Ok {
                Mode::Auto
            } else {
                old(self).mode
            },
            final(self).accum == old(self).accum,
            final(self).circuit == old(self).circuit,
    {
        let r = self.nnue.read(bytes);
        if r.is_ok() {
            self.mode = Mode::Auto;
        }
        r
    }

    /// Sets the mode.
    pub fn mode(&mut self, mode: Mode)
        ensures
            final(self).mode == mode,
            final(self).nnue == old(self).nnue,
            final(self).accum == old(self).accum,
            final(self).circuit == old(self).circuit,
    {
        self.mode = mode;
    }

    /// Whether the accumulator needs keeping up to date: the mode allows
    /// the network and the network is loaded.
    pub fn enabled(&self) -> (r: bool)
        ensures
            r == (self.mode != Mode::Hce && self.nnue.loaded),
    {
        match self.mode {
            Mode::Hce => false,
            Mode::Nnue | Mode::Auto => self.nnue.loaded,
        }
    }

    /// Recomputes the accumulator for `pos`.
    pub fn reset(&mut self, pos: &Position)
        ensures
            final(self).accum.vals[0]@ == old(self).nnue.weight.bias@,
            final(self).accum.vals[1]@ == old(self).nnue.weight.bias@,
            final(self).nnue == old(self).nnue,
    {
        self.accum.reset(pos, &self.nnue.weight);
    }

    /// Updates the accumulator for a move.
    pub fn apply(&mut self, pos: &Position, from: u8, to: u8, moving: u8, captured: u8)
        requires
            moving % 7 == 0 ==> index_fits(pos.king[if moving < 7 { 1int } else { 0int }], from, 0, 0)
                && index_fits(pos.king[if moving < 7 { 1int } else { 0int }], to, 0, 0),
            moving % 7 != 0 ==> forall|c: int| 0 <= c < 2 ==> index_fits(#[trigger] pos.king[c], from, 0, 0)
                && index_fits(pos.king[c], to, 0, 0),
        ensures
            shifted(old(self).accum, final(self).accum, moving, old(self).nnue.weight.bias@),
            final(self).nnue == old(self).nnue,
    {
        self.accum.apply(pos, from, to, moving, captured, &self.nnue.weight);
    }

    /// Takes a move back in the accumulator.
    pub fn revert(&mut self, pos: &Position, from: u8, to: u8, moving: u8, captured: u8)
        requires
            moving % 7 == 0 ==> index_fits(pos.king[if moving < 7 { 1int } else { 0int }], from, 0, 0)
                && index_fits(pos.king[if moving < 7 { 1int } else { 0int }], to, 0, 0),
            moving % 7 != 0 ==> forall|c: int| 0 <= c < 2 ==> index_fits(#[trigger] pos.king[c], from, 0, 0)
                && index_fits(pos.king[c], to, 0, 0),
        ensures
            shifted(old(self).accum, final(self).accum, moving, old(self).nnue.weight.bias@),
            final(self).nnue == old(self).nnue,
    {
        self.accum.revert(pos, from, to, moving, captured, &self.nnue.weight);
    }

    /// The score of `pos` for the side to move, with `fallback` standing
    /// for the handcrafted score of `pos`. The breaker records the
    /// network's result whenever the network is consulted.
    pub fn score(&mut self, pos: &Position, fallback: i32) -> (r: i32)
        requires
            score_ok(*old(self), *pos, fallback),
        ensures
            r == score_spec(*old(self), *pos, fallback),
            final(self).circuit == (if endgame_score(old(self).endgame, *pos) is Some {
                old(self).circuit
            } else {
                raw_of(*old(self), *pos, fallback).1
            }),
            final(self).nnue == old(self).nnue,
            final(self).accum == old(self).accum,
    {
        if let Some(score) = self.endgame.eval(pos) {
            return score;
        }
        let raw = match self.mode {
            Mode::Hce => fallback,
            Mode::Nnue | Mode::Auto => {
                if self.nnue.loaded && self.circuit.allow(0) {
                    let val = self.nnue.evaluate(&self.accum, pos.side);
                    let valid = Check::valid(val, -29999, 29999);
                    self.circuit.record(valid, 0);
                    if valid {
                        val
                    } else {
                        fallback
                    }
                } else {
                    fallback
                }
            },
        };
        if pos.side == 0 {
            raw
        } else {
            -raw
        }
    }
}

impl Default for Eval {
    /// A new front end.
    fn default() -> (r: Self)
        ensures
            r.mode == Mode::Auto,
            !r.nnue.loaded,
    {
        Self::new()
    }
}

} // verus!
