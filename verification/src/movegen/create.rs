//! Masks, blocker boards and attack boards of the sliding pieces.
use super::MoveGenerator;
use crate::attacks::{create_bishop_mask, bishop_mask_target, edge_excluded, edges_without, create_rook_mask, rook_mask_target};
use crate::bitboard::bit_set;
use crate::blockers::{all_subsets_sorted, create_blocker_boards};
use crate::defs::{Bitboard, Square};
use crate::geometry::{ray, ray_bb, Direction};
use crate::sliders::{bishop_bb, rook_bb};
use vstd::prelude::*;

verus! {

/// A square as (file, rank).
pub type Location = (u8, u8);

impl MoveGenerator {
    /// The rook mask of `square`: the squares on its file and rank, without
    /// the square itself and without the board edges it does not stand on.
    pub fn rook_mask(square: Square) -> (bb: Bitboard)
        requires
            square < 64,
        ensures
            forall|t: u64| t < 64 ==> bit_set(bb, t) == rook_mask_target(square as int, t as int),
    {
        create_rook_mask(square as u8)
    }

    /// The bishop mask of `square`: the squares on its diagonals, without
    /// the board edges.
    pub fn bishop_mask(square: Square) -> (bb: Bitboard)
        requires
            square < 64,
        ensures
            forall|t: u64| t < 64 ==> bit_set(bb, t) == bishop_mask_target(square as int, t as int),
    {
        create_bishop_mask(square as u8)
    }

    /// The board edges, except those holding the square at `location`.
    fn edges_without_piece(location: Location) -> (bb: Bitboard)
        requires
            location.0 < 8,
            location.1 < 8,
        ensures
            forall|t: u64| t < 64 ==> bit_set(bb, t) == edge_excluded(location.1 * 8 + location.0, t as int),
    {
        edges_without(location.0 as u64, location.1 as u64)
    }

    /// The rook attack board of `square` for each of the blocker boards.
    pub fn rook_attack_boards(square: Square, blockers: &[Bitboard]) -> (boards: Vec<Bitboard>)
        requires
            square < 64,
        ensures
            boards@.len() == blockers@.len(),
            forall|i: int| 0 <= i < blockers@.len() ==> boards@[i] == rook_bb(#[trigger] blockers@[i], square as int),
    {
        let mut bb_attack_boards: Vec<Bitboard> = Vec::new();
        let mut i: usize = 0;
        while i < blockers.len()
            invariant
                square < 64,
                i <= blockers@.len(),
                bb_attack_boards@.len() == i,
                forall|j: int| 0 <= j < i ==> bb_attack_boards@[j] == rook_bb(#[trigger] blockers@[j], square as int),
            decreases blockers@.len() - i,
        {
            let b = blockers[i];
            let bb_attacks = MoveGenerator::bb_ray(b, square, Direction::Up) | MoveGenerator::bb_ray(b, square, Direction::Right)
                | MoveGenerator::bb_ray(b, square, Direction::Down) | MoveGenerator::bb_ray(b, square, Direction::Left);
            bb_attack_boards.push(bb_attacks);
            i = i + 1;
        }
        bb_attack_boards
    }

    /// The bishop attack board of `square` for each of the blocker boards.
    pub fn bishop_attack_boards(square: Square, blockers: &[Bitboard]) -> (boards: Vec<Bitboard>)
        requires
            square < 64,
        ensures
            boards@.len() == blockers@.len(),
            forall|i: int| 0 <= i < blockers@.len() ==> boards@[i] == bishop_bb(#[trigger] blockers@[i], square as int),
    {
        let mut bb_attack_boards: Vec<Bitboard> = Vec::new();
        let mut i: usize = 0;
        while i < blockers.len()
            invariant
                square < 64,
                i <= blockers@.len(),
                bb_attack_boards@.len() == i,
                forall|j: int| 0 <= j < i ==> bb_attack_boards@[j] == bishop_bb(#[trigger] blockers@[j], square as int),
            decreases blockers@.len() - i,
        {
            let b = blockers[i];
            let bb_attacks = MoveGenerator::bb_ray(b, square, Direction::UpLeft) | MoveGenerator::bb_ray(b, square, Direction::UpRight)
                | MoveGenerator::bb_ray(b, square, Direction::DownRight) | MoveGenerator::bb_ray(b, square, Direction::DownLeft);
            bb_attack_boards.push(bb_attacks);
            i = i + 1;
        }
        bb_attack_boards
    }

    /// All blocker boards (create_blocker_boards) of a slider mask, found with the
    /// Carry-Rippler method: each subset once, in increasing order, the
    /// empty board first.
    pub fn blocker_boards(mask: Bitboard) -> (boards: Vec<Bitboard>)
        ensures
            all_subsets_sorted(boards@, mask),
            boards@.len() >= 1,
            boards@[0] == 0,
    {
        create_blocker_boards(mask)
    }

    /// The ray of a slider on `square` in `direction`: up to the board edge,
    /// or up to and including the first square set in `bb_in`.
    pub fn bb_ray(bb_in: Bitboard, square: Square, direction: Direction) -> (bb: Bitboard)
        requires
            square < 64,
        ensures
            bb == ray_bb(bb_in, square as int, direction),
    {
        ray(bb_in, square as u64, direction)
    }
}

} // verus!
