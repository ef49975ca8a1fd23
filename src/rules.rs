//! Moves and the rules that decide whether a move is legal.
use vstd::prelude::*;

use crate::board::{moved, square_at, stunned_at, Board, Player, Square};
use crate::coord::{on_board, shift, BoardCoordinate, Direction};

verus! {

broadcast use crate::board::lemma_board_len;

/// The throws after the first: none, a second, a second and a third, or
/// all of second, third and fourth.
pub type ExtraThrows = Option<(Direction, Option<(Direction, Option<Direction>)>)>;

/// The throws after the first, in order.
pub open spec fn extra_throw_seq(e: ExtraThrows) -> Seq<Direction> {
    match e {
        None => seq![],
        Some((a, None)) => seq![a],
        Some((a, Some((b, None)))) => seq![a, b],
        Some((a, Some((b, Some(c))))) => seq![a, b, c],
    }
}

/// A candidate move, not yet checked: a messenger of `player` slides from
/// `messenger` in `direction`, then throws in `first_throw` and in each of
/// `extra_throws`.
#[derive(Clone, Copy, Debug)]
pub struct Move {
    pub player: Player,
    pub messenger: BoardCoordinate,
    pub direction: Direction,
    pub first_throw: Direction,
    pub extra_throws: ExtraThrows,
}

/// Why a move is illegal. Throw rules carry the number of the throw that
/// broke them, from 1 to 4.
#[derive(Clone, Copy, Debug, PartialEq, Eq, Structural)]
pub enum Rejection {
    /// The move is for the player who is not to move.
    NotPlayersTurn,
    /// The origin square does not hold a piece of the mover.
    NotPlayersPiece,
    /// The origin square does not hold an unstunned messenger.
    NotUnstunnedMessenger,
    /// The slide ends off the board.
    SlideOffBoard,
    /// The slide ends on an occupied square.
    SlideOntoOccupied,
    /// A double slide passes over an occupied square.
    SlideHopsOverPiece,
    /// The throwing square does not hold a messenger of the mover.
    ThrowerNotOwnMessenger(u8),
    /// The throw is not a single step.
    ThrowNotUnit(u8),
    /// The square behind the thrower is off the board.
    ThrowSourceOffBoard(u8),
    /// The square ahead of the thrower is off the board.
    ThrowDestinationOffBoard(u8),
    /// The thrown piece is neither a messenger nor the mover's cylinder.
    ThrowSourceNotThrowable(u8),
    /// The square ahead of the thrower is occupied.
    ThrowDestinationOccupied(u8),
    /// The mover lacks a strict majority of messengers around the previous
    /// throw's destination.
    NoSurroundingMajority(u8),
    /// The next thrower's square is off the board.
    ThrowerOffBoard(u8),
}

/// What a step of the rules gives: the squares after it and the square
/// the last throw landed on, or the first rule it broke.
pub type Outcome = Result<(Seq<Square>, (int, int)), Rejection>;

/// The model of an executable outcome.
pub open spec fn outcome_view(r: Result<(Board, BoardCoordinate), Rejection>) -> Outcome {
    match r {
        Ok((b, c)) => Ok((b@, c@)),
        Err(e) => Err(e),
    }
}

/// One throw by `mover` from the messenger at `thrower` in direction `d`:
/// the piece behind the thrower goes to the square ahead of it.
pub open spec fn throw_outcome(
    b: Seq<Square>,
    mover: Player,
    thrower: (int, int),
    d: Direction,
    n: u8,
) -> Outcome {
    let from = shift(thrower, d.spec_negate());
    let to = shift(thrower, d);
    let t = square_at(b, thrower);
    if !(t.spec_is_messenger() && t.spec_is_players(mover)) {
        Err(Rejection::ThrowerNotOwnMessenger(n))
    } else if d.spec_unit() != d {
        Err(Rejection::ThrowNotUnit(n))
    } else if !on_board(from) {
        Err(Rejection::ThrowSourceOffBoard(n))
    } else if !on_board(to) {
        Err(Rejection::ThrowDestinationOffBoard(n))
    } else if !((square_at(b, from).spec_is_cylinder() && square_at(b, from).spec_is_players(mover))
        || square_at(b, from).spec_is_messenger()) {
        Err(Rejection::ThrowSourceNotThrowable(n))
    } else if !square_at(b, to).spec_is_empty() {
        Err(Rejection::ThrowDestinationOccupied(n))
    } else {
        Ok((stunned_at(moved(b, from, to), to, mover), to))
    }
}

/// How many of the first `k` squares around `p` (in the order of
/// `Direction::units`) hold a messenger of `player`.
pub open spec fn messengers_around(b: Seq<Square>, p: (int, int), player: Player, k: nat) -> nat
    decreases k,
{
    if k == 0 {
        0
    } else {
        let q = shift(p, Direction::units()[k - 1]);
        messengers_around(b, p, player, (k - 1) as nat) + if on_board(q) && square_at(
            b,
            q,
        ).spec_is_players(player) && square_at(b, q).spec_is_messenger() {
            1nat
        } else {
            0nat
        }
    }
}

/// Whether `mover` has strictly more messengers than the opponent around `p`.
pub open spec fn has_majority(b: Seq<Square>, p: (int, int), mover: Player) -> bool {
    messengers_around(b, p, mover, 8) > messengers_around(b, p, mover.spec_opponent(), 8)
}

/// The chained throws `rest`, numbered from `n`, after a throw that landed
/// on `landing`.
pub open spec fn chain_outcome(
    b: Seq<Square>,
    mover: Player,
    landing: (int, int),
    rest: Seq<Direction>,
    n: u8,
) -> Outcome
    decreases rest.len(),
{
    if rest.len() == 0 {
        Ok((b, landing))
    } else if !has_majority(b, landing, mover) {
        Err(Rejection::NoSurroundingMajority(n))
    } else {
        let thrower = shift(landing, rest[0]);
        if !on_board(thrower) {
            Err(Rejection::ThrowerOffBoard(n))
        } else {
            match throw_outcome(b, mover, thrower, rest[0], n) {
                Err(e) => Err(e),
                Ok((b2, to2)) => chain_outcome(b2, mover, to2, rest.drop_first(), (n + 1) as u8),
            }
        }
    }
}

/// The whole move `m` on squares `b` with `to_move` to play: the rules in
/// their order, then the slide, the first throw and the chain.
pub open spec fn move_outcome(to_move: Player, b: Seq<Square>, m: Move) -> Outcome {
    let origin = m.messenger@;
    let dest = shift(origin, m.direction);
    let mid = shift(origin, m.direction.spec_unit());
    if m.player != to_move {
        Err(Rejection::NotPlayersTurn)
    } else if !square_at(b, origin).spec_is_players(to_move) {
        Err(Rejection::NotPlayersPiece)
    } else if !square_at(b, origin).spec_is_unstunned_messenger() {
        Err(Rejection::NotUnstunnedMessenger)
    } else if !on_board(dest) {
        Err(Rejection::SlideOffBoard)
    } else if !square_at(b, dest).spec_is_empty() {
        Err(Rejection::SlideOntoOccupied)
    } else if m.direction.spec_unit() != m.direction && !(on_board(mid) && square_at(
        b,
        mid,
    ).spec_is_empty()) {
        Err(Rejection::SlideHopsOverPiece)
    } else {
        match throw_outcome(moved(b, origin, dest), m.player, dest, m.first_throw, 1) {
            Err(e) => Err(e),
            Ok((b1, t1)) => chain_outcome(b1, m.player, t1, extra_throw_seq(m.extra_throws), 2),
        }
    }
}

/// Checks one throw and carries it out.
fn check_throw(board: &Board, mover: Player, thrower: BoardCoordinate, d: Direction, n: u8) -> (r:
    Result<(Board, BoardCoordinate), Rejection>)
    ensures
        outcome_view(r) == throw_outcome(board@, mover, thrower@, d, n),
{
    let t = board.get(thrower);
    if !(t.is_messenger() && t.is_players(mover)) {
        return Err(Rejection::ThrowerNotOwnMessenger(n));
    }
    if d.unit() != d {
        return Err(Rejection::ThrowNotUnit(n));
    }
    let throw_from = match thrower.add_direction(d.negate()) {
        Some(c) => c,
        None => return Err(Rejection::ThrowSourceOffBoard(n)),
    };
    let throw_to = match thrower.add_direction(d) {
        Some(c) => c,
        None => return Err(Rejection::ThrowDestinationOffBoard(n)),
    };
    let s = board.get(throw_from);
    if !((s.is_cylinder() && s.is_players(mover)) || s.is_messenger()) {
        return Err(Rejection::ThrowSourceNotThrowable(n));
    }
    if !board.get(throw_to).is_empty() {
        return Err(Rejection::ThrowDestinationOccupied(n));
    }
    Ok((board.move_piece(throw_from, throw_to).stun_if_opponents(throw_to, mover), throw_to))
}

/// Counts the messengers of `player` on the squares around `at`.
fn surrounding(board: &Board, at: BoardCoordinate, player: Player) -> (r: u8)
    ensures
        r as nat == messengers_around(board@, at@, player, 8),
{
    let dirs = Direction::one_square();
    let mut count: u8 = 0;
    let mut k: usize = 0;
    while k < 8
        invariant
            k <= 8,
            count <= k,
            count as nat == messengers_around(board@, at@, player, k as nat),
            dirs@ == Direction::units(),
        decreases 8 - k,
    {
        if let Some(q) = at.add_direction(dirs[k]) {
            let s = board.get(q);
            if s.is_players(player) && s.is_messenger() {
                count += 1;
            }
        }
        k += 1;
    }
    count
}

/// The throws after the first, in order.
fn extra_throw_list(e: &ExtraThrows) -> (r: Vec<Direction>)
    ensures
        r@ == extra_throw_seq(*e),
{
    let r = match e {
        None => vec![],
        Some((a, None)) => vec![*a],
        Some((a, Some((b, None)))) => vec![*a, *b],
        Some((a, Some((b, Some(c))))) => vec![*a, *b, *c],
    };
    assert(r@ =~= extra_throw_seq(*e));
    r
}

/// Checks and carries out the chained throws after the first.
fn check_chain(board: Board, mover: Player, landing: BoardCoordinate, extra: &ExtraThrows) -> (r:
    Result<(Board, BoardCoordinate), Rejection>)
    ensures
        outcome_view(r) == chain_outcome(board@, mover, landing@, extra_throw_seq(*extra), 2),
{
    let throws = extra_throw_list(extra);
    let ghost all = extra_throw_seq(*extra);
    let mut b = board;
    let mut l = landing;
    let mut i: usize = 0;
    assert(all.skip(0) =~= all);
    while i < throws.len()
        invariant
            i <= throws.len(),
            throws.len() <= 3,
            throws@ == all,
            all == extra_throw_seq(*extra),
            chain_outcome(board@, mover, landing@, all, 2) == chain_outcome(
                b@,
                mover,
                l@,
                all.skip(i as int),
                (i + 2) as u8,
            ),
        decreases throws.len() - i,
    {
        let n: u8 = (i + 2) as u8;
        let d = throws[i];
        proof {
            assert(all.skip(i as int).len() > 0);
            assert(all.skip(i as int)[0] == d);
            assert(all.skip(i as int).drop_first() =~= all.skip(i + 1));
        }
        let mine = surrounding(&b, l, mover);
        let theirs = surrounding(&b, l, mover.opponent());
        if mine <= theirs {
            return Err(Rejection::NoSurroundingMajority(n));
        }
        let thrower = match l.add_direction(d) {
            Some(c) => c,
            None => return Err(Rejection::ThrowerOffBoard(n)),
        };
        match check_throw(&b, mover, thrower, d, n) {
            Err(e) => return Err(e),
            Ok((b2, l2)) => {
                b = b2;
                l = l2;
            },
        }
        i += 1;
    }
    proof {
        assert(all.skip(i as int).len() == 0);
    }
    Ok((b, l))
}

/// Checks `m` against the squares of `board` with `to_move` to play, and
/// carries it out.
pub(crate) fn check_move(board: &Board, to_move: Player, m: &Move) -> (r: Result<
    (Board, BoardCoordinate),
    Rejection,
>)
    ensures
        outcome_view(r) == move_outcome(to_move, board@, *m),
{
    if m.player != to_move {
        return Err(Rejection::NotPlayersTurn);
    }
    let origin = board.get(m.messenger);
    if !origin.is_players(to_move) {
        return Err(Rejection::NotPlayersPiece);
    }
    if !origin.is_unstunned_messenger() {
        return Err(Rejection::NotUnstunnedMessenger);
    }
    let move_to = match m.messenger.add_direction(m.direction) {
        Some(c) => c,
        None => return Err(Rejection::SlideOffBoard),
    };
    if !board.get(move_to).is_empty() {
        return Err(Rejection::SlideOntoOccupied);
    }
    let unit = m.direction.unit();
    if unit != m.direction {
        match m.messenger.add_direction(unit) {
            Some(mid) => {
                if !board.get(mid).is_empty() {
                    return Err(Rejection::SlideHopsOverPiece);
                }
            },
            None => return Err(Rejection::SlideHopsOverPiece),
        }
    }
    let after_move = board.move_piece(m.messenger, move_to);
    match check_throw(&after_move, m.player, move_to, m.first_throw, 1) {
        Err(e) => Err(e),
        Ok((after_throw, throw_to)) => check_chain(after_throw, m.player, throw_to, &m.extra_throws),
    }
}

} // verus!
