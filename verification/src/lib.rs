#![allow(unused_imports)]

use vstd::prelude::*;

pub mod book;
pub mod chess;
pub mod eval;
pub mod moves;
pub mod negamax;
pub mod order;
pub mod pack;
pub mod phase;
pub mod pst;
pub mod quiescence;
pub mod search;
pub mod transposition;

verus! {

/// What bounds a search: a fixed depth in plies, or a wall-clock
/// budget in milliseconds that the caller enforces between
/// iterations.
pub enum SearchControl {
    ToDepth(u8),
    TimeLimit(u64),
}

/// A request to the search coordinator.
pub enum SearchCommand {
    Start { position: shakmaty::Chess, control: SearchControl },
    Stop,
    Quit,
    Reset,
}

/// What the search reports back: one `Info` per finished iteration,
/// then exactly one `BestMove`.
pub enum SearchInfo {
    BestMove(crate::moves::EngineMove),
    Info { depth: u8, pv: Vec<crate::moves::EngineMove>, score: i32, nodes: u64 },
}

/// The conventional order of a text-protocol info line of exactly
/// eight words, `info depth D pv M score cp S`: the score part is
/// moved in front of the line of play.
pub fn reorder_info_words(parts: &Vec<String>) -> (r: Vec<String>)
    requires
        parts@.len() == 8,
    ensures
        r@ =~= seq![
            parts@[0],
            parts@[1],
            parts@[2],
            parts@[5],
            parts@[6],
            parts@[7],
            parts@[3],
            parts@[4],
        ],
{
    let mut r: Vec<String> = Vec::new();
    r.push(parts[0].clone());
    r.push(parts[1].clone());
    r.push(parts[2].clone());
    r.push(parts[5].clone());
    r.push(parts[6].clone());
    r.push(parts[7].clone());
    r.push(parts[3].clone());
    r.push(parts[4].clone());
    r
}

/// A search score in centipawns, together with an optional
/// forced-mate distance in full moves.
pub struct Score {
    pub score: i32,
    pub mate: Option<i8>,
}

impl Score {
    pub fn new(score: i32, mate: Option<i8>) -> (r: Self)
        ensures
            r.score == score,
            r.mate == mate,
    {
        Score { score, mate }
    }
}

} // verus!
