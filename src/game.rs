//! The game: whose turn it is, the board, committing moves, and the
//! generator of legal moves.
use vstd::prelude::*;

use crate::board::{revived, square_at, starting_layout, Board, Player, Square};
use crate::coord::{shift, BoardCoordinate, Direction};
use crate::rules::{check_move, move_outcome, outcome_view, Move, Rejection};

verus! {

broadcast use crate::board::lemma_board_len, crate::coord::lemma_coordinate_view_injective;

/// The model of a game: the player to move and the squares of the board.
pub type GameState = (Player, Seq<Square>);

/// Whether the rules accept `m` in state `g`.
pub open spec fn is_legal(g: GameState, m: Move) -> bool {
    move_outcome(g.0, g.1, m) is Ok
}

/// The squares after the legal move `m`.
pub open spec fn result_of(g: GameState, m: Move) -> Seq<Square> {
    move_outcome(g.0, g.1, m)->Ok_0.0
}

/// The state after the legal move `m` is committed: the mover's stunned
/// messengers recover and the turn passes.
pub open spec fn committed(g: GameState, m: Move) -> GameState {
    (g.0.spec_opponent(), revived(result_of(g, m), g.0))
}

/// What identifies a move's net effect: the messenger, the slide, the square
/// the first throw took its piece from, and where the last throw landed.
pub type Fingerprint = ((int, int), Direction, (int, int), (int, int));

/// The fingerprint of the legal move `m`.
pub open spec fn fingerprint(g: GameState, m: Move) -> Fingerprint {
    let move_to = shift(m.messenger@, m.direction);
    (
        m.messenger@,
        m.direction,
        shift(move_to, m.first_throw.spec_negate()),
        move_outcome(g.0, g.1, m)->Ok_0.1,
    )
}

pub open spec fn fingerprints(g: GameState, ms: Seq<Move>) -> Seq<Fingerprint> {
    ms.map_values(|m: Move| fingerprint(g, m))
}

/// The legal candidates, in order, each kept only if no move kept before
/// it (in `seen` or among the candidates) has the same fingerprint.
pub open spec fn survivors(g: GameState, cands: Seq<Move>, seen: Seq<Fingerprint>) -> Seq<Move>
    decreases cands.len(),
{
    if cands.len() == 0 {
        seq![]
    } else {
        let prev = survivors(g, cands.drop_last(), seen);
        let m = cands.last();
        if is_legal(g, m) && !(seen + fingerprints(g, prev)).contains(fingerprint(g, m)) {
            prev.push(m)
        } else {
            prev
        }
    }
}

/// `m` with `d` appended to its chain of throws.
pub open spec fn with_throw(m: Move, d: Direction) -> Move {
    Move {
        player: m.player,
        messenger: m.messenger,
        direction: m.direction,
        first_throw: m.first_throw,
        extra_throws: match m.extra_throws {
            None => Some((d, None)),
            Some((a, None)) => Some((a, Some((d, None)))),
            Some((a, Some((b, _)))) => Some((a, Some((b, Some(d))))),
        },
    }
}

/// The slides tried, in order: the single steps, then the double steps.
pub open spec fn slide_directions() -> Seq<Direction> {
    Direction::units() + Direction::doubles()
}

/// The one-throw moves of the messenger at `c` sliding in `dir`, one for
/// each single-step throw.
pub open spec fn first_throws(player: Player, c: BoardCoordinate, dir: Direction) -> Seq<Move> {
    Direction::units().map_values(
        |d: Direction|
            Move { player, messenger: c, direction: dir, first_throw: d, extra_throws: None },
    )
}

/// The one-throw candidates for the slides `dirs`.
pub open spec fn one_throw_candidates(player: Player, c: BoardCoordinate, dirs: Seq<Direction>) -> Seq<
    Move,
>
    decreases dirs.len(),
{
    if dirs.len() == 0 {
        seq![]
    } else {
        one_throw_candidates(player, c, dirs.drop_last()) + first_throws(player, c, dirs.last())
    }
}

/// Each move of `ms` extended by each single-step throw, in order.
pub open spec fn extensions(ms: Seq<Move>) -> Seq<Move>
    decreases ms.len(),
{
    if ms.len() == 0 {
        seq![]
    } else {
        extensions(ms.drop_last()) + Direction::units().map_values(
            |d: Direction| with_throw(ms.last(), d),
        )
    }
}

/// The moves with up to `k` throws of the messenger at `c`, and those with
/// exactly `k`: each stage extends the moves kept at the stage before.
pub open spec fn stages(g: GameState, c: BoardCoordinate, k: nat) -> (Seq<Move>, Seq<Move>)
    decreases k,
{
    if k <= 1 {
        let s = survivors(g, one_throw_candidates(g.0, c, slide_directions()), seq![]);
        (s, s)
    } else {
        let prev = stages(g, c, (k - 1) as nat);
        let s = survivors(g, extensions(prev.1), fingerprints(g, prev.0));
        (prev.0 + s, s)
    }
}

/// The legal moves of the messenger at `c`, one per fingerprint: none
/// unless it is an unstunned messenger of the player to move.
pub open spec fn legal_moves_from(g: GameState, c: BoardCoordinate) -> Seq<Move> {
    if square_at(g.1, c@).spec_is_unstunned_messenger() && square_at(g.1, c@).spec_is_players(g.0) {
        stages(g, c, 4).0
    } else {
        seq![]
    }
}

/// The coordinate of position `p`.
pub open spec fn coordinate_at(p: (int, int)) -> BoardCoordinate {
    choose|c: BoardCoordinate| c@ == p
}

/// The legal moves of the messengers on the first `cols` squares of row `y`.
pub open spec fn moves_in_row(g: GameState, y: int, cols: nat) -> Seq<Move>
    decreases cols,
{
    if cols == 0 {
        seq![]
    } else {
        moves_in_row(g, y, (cols - 1) as nat) + legal_moves_from(g, coordinate_at((cols as int, y)))
    }
}

/// The legal moves of the messengers on the first `rows` rows, bottom up.
pub open spec fn moves_in_rows(g: GameState, rows: nat) -> Seq<Move>
    decreases rows,
{
    if rows == 0 {
        seq![]
    } else {
        moves_in_rows(g, (rows - 1) as nat) + moves_in_row(g, rows as int, 7)
    }
}

proof fn lemma_survivors_push(g: GameState, processed: Seq<Move>, m: Move, seen: Seq<Fingerprint>)
    ensures
        survivors(g, processed.push(m), seen) == (if is_legal(g, m) && !(seen + fingerprints(
            g,
            survivors(g, processed, seen),
        )).contains(fingerprint(g, m)) {
            survivors(g, processed, seen).push(m)
        } else {
            survivors(g, processed, seen)
        }),
{
    assert(processed.push(m).drop_last() =~= processed);
}

proof fn lemma_fingerprints_concat(g: GameState, a: Seq<Move>, b: Seq<Move>)
    ensures
        fingerprints(g, a + b) == fingerprints(g, a) + fingerprints(g, b),
{
    assert(fingerprints(g, a + b) =~= fingerprints(g, a) + fingerprints(g, b));
}

proof fn lemma_moves_of_concat(a: Seq<LegalMove>, b: Seq<LegalMove>)
    ensures
        moves_of(a + b) == moves_of(a) + moves_of(b),
{
    assert(moves_of(a + b) =~= moves_of(a) + moves_of(b));
}

proof fn lemma_moves_of_push(a: Seq<LegalMove>, l: LegalMove)
    ensures
        moves_of(a.push(l)) == moves_of(a).push(l@),
{
    assert(moves_of(a.push(l)) =~= moves_of(a).push(l@));
}

/// The key under which the generator remembers a kept move.
#[derive(Clone, Copy, PartialEq, Eq, Structural)]
struct SeenThrow {
    messenger: BoardCoordinate,
    direction: Direction,
    throw_from: BoardCoordinate,
    throw_to: BoardCoordinate,
}

impl View for SeenThrow {
    type V = Fingerprint;

    closed spec fn view(&self) -> Fingerprint {
        (self.messenger@, self.direction, self.throw_from@, self.throw_to@)
    }
}

spec fn seen_views(v: Seq<SeenThrow>) -> Seq<Fingerprint> {
    v.map_values(|s: SeenThrow| s@)
}

/// Whether a key with the same fingerprint as `key` is in `seen`.
fn already_seen(seen: &Vec<SeenThrow>, key: &SeenThrow) -> (r: bool)
    ensures
        r == seen_views(seen@).contains(key@),
{
    let mut i: usize = 0;
    while i < seen.len()
        invariant
            i <= seen.len(),
            forall|j: int| 0 <= j < i ==> #[trigger] seen@[j]@ != key@,
        decreases seen.len() - i,
    {
        if seen[i] == *key {
            assert(seen_views(seen@)[i as int] == key@);
            return true;
        }
        i += 1;
    }
    assert forall|j: int| 0 <= j < seen_views(seen@).len() implies seen_views(seen@)[j] != key@ by {
        assert(seen@[j]@ != key@);
    }
    false
}

/// `m` with `d` appended to its chain of throws.
fn add_throw(m: Move, d: Direction) -> (r: Move)
    ensures
        r == with_throw(m, d),
{
    let extra_throws = match m.extra_throws {
        None => Some((d, None)),
        Some((a, None)) => Some((a, Some((d, None)))),
        Some((a, Some((b, _)))) => Some((a, Some((b, Some(d))))),
    };
    Move { extra_throws, ..m }
}

/// A move that the rules accepted when it was made.
#[derive(Clone, Copy, Debug)]
pub struct LegalMove(Move);

impl View for LegalMove {
    type V = Move;

    closed spec fn view(&self) -> Move {
        self.0
    }
}

/// The moves that a list of legal moves stands for.
pub open spec fn moves_of(v: Seq<LegalMove>) -> Seq<Move> {
    v.map_values(|l: LegalMove| l@)
}

impl LegalMove {
    /// `move_` as a legal move, if the rules accept it in `game`.
    pub fn from_move(game: &Game, move_: Move) -> (r: Option<LegalMove>)
        ensures
            r is Some <==> is_legal(game@, move_),
            r matches Some(l) ==> l@ == move_,
    {
        match game.attempt_move(&move_) {
            Some(_) => Some(LegalMove(move_)),
            None => None,
        }
    }

    /// The move itself.
    pub fn to_move(self) -> (r: Move)
        ensures
            r == self@,
    {
        self.0
    }
}

/// A game in progress: the player to move and the board.
#[derive(Clone, Copy, Debug)]
pub struct Game {
    to_move: Player,
    board: Board,
}

impl View for Game {
    type V = GameState;

    closed spec fn view(&self) -> GameState {
        (self.to_move, self.board@)
    }
}

impl Default for Game {
    /// The standard starting layout with Beige to move.
    fn default() -> (r: Game)
        ensures
            r@ == (Player::Beige, starting_layout()),
    {
        Game { to_move: Player::Beige, board: Board::starting() }
    }
}

impl Game {
    /// A game from `position` with `to_move` to play.
    pub fn from_position(position: Board, to_move: Player) -> (r: Game)
        ensures
            r@ == (to_move, position@),
    {
        Game { to_move, board: position }
    }

    /// The player to move.
    pub fn to_move(&self) -> (r: Player)
        ensures
            r == self@.0,
    {
        self.to_move
    }

    /// The board.
    pub fn board(&self) -> (r: Board)
        ensures
            r@ == self@.1,
    {
        self.board
    }

    /// The board after `move_`, or the first rule that it breaks.
    pub fn check_move(&self, move_: &Move) -> (r: Result<Board, Rejection>)
        ensures
            r is Ok <==> is_legal(self@, *move_),
            r matches Ok(b) ==> b@ == result_of(self@, *move_),
            r matches Err(e) ==> move_outcome(self@.0, self@.1, *move_) == Err::<
                (Seq<Square>, (int, int)),
                Rejection,
            >(e),
    {
        match check_move(&self.board, self.to_move, move_) {
            Ok((b, _)) => Ok(b),
            Err(e) => Err(e),
        }
    }

    /// The board after `move_`, or `None` if the rules refuse it.
    pub fn attempt_move(&self, move_: &Move) -> (r: Option<Board>)
        ensures
            r is Some <==> is_legal(self@, *move_),
            r matches Some(b) ==> b@ == result_of(self@, *move_),
    {
        match self.check_move(move_) {
            Ok(b) => Some(b),
            Err(_) => None,
        }
    }

    /// Commits a legal move: the board becomes the move's result with the
    /// mover's stunned messengers recovered, and the turn passes.
    pub fn make_move(&mut self, move_: &LegalMove)
        requires
            is_legal(old(self)@, move_@),
        ensures
            final(self)@ == committed(old(self)@, move_@),
    {
        let after = self.attempt_move(&move_.0).unwrap();
        self.board = after.un_stun(self.to_move);
        self.to_move = self.to_move.opponent();
    }

    /// `m` as a legal move if the rules accept it and no move remembered
    /// in `seen` has its fingerprint; its key is then added to `seen`.
    fn consider(&self, m: Move, seen: &mut Vec<SeenThrow>) -> (r: Option<LegalMove>)
        ensures
            if is_legal(self@, m) && !seen_views(old(seen)@).contains(fingerprint(self@, m)) {
                r matches Some(l) && l@ == m && seen_views(final(seen)@) == seen_views(
                    old(seen)@,
                ).push(fingerprint(self@, m))
            } else {
                r is None && final(seen)@ == old(seen)@
            },
    {
        match check_move(&self.board, self.to_move, &m) {
            Err(_) => None,
            Ok((_, landing)) => {
                let move_to = m.messenger.add_direction(m.direction).unwrap();
                let throw_from = move_to.add_direction(m.first_throw.negate()).unwrap();
                let key = SeenThrow {
                    messenger: m.messenger,
                    direction: m.direction,
                    throw_from,
                    throw_to: landing,
                };
                if already_seen(seen, &key) {
                    None
                } else {
                    seen.push(key);
                    assert(seen_views(seen@) =~= seen_views(old(seen)@).push(fingerprint(self@, m)));
                    Some(LegalMove(m))
                }
            },
        }
    }

    /// The legal moves of the messenger at `messenger`, deduplicated by net
    /// effect: one-throw moves first, then two-, three- and four-throw
    /// chains, each stage extending the moves kept at the stage before.
    pub fn legal_moves_for(&self, messenger: BoardCoordinate) -> (r: Vec<LegalMove>)
        ensures
            moves_of(r@) == legal_moves_from(self@, messenger),
            forall|i: int| 0 <= i < r@.len() ==> is_legal(self@, #[trigger] r@[i]@),
    {
        let here = self.board.get(messenger);
        if !(here.is_unstunned_messenger() && here.is_players(self.to_move)) {
            return vec![];
        }
        let ghost g = self@;
        let units = Direction::one_square();
        let doubles = Direction::two_squares();
        let mut seen: Vec<SeenThrow> = Vec::new();
        let mut moves: Vec<LegalMove> = Vec::new();
        let ghost mut processed: Seq<Move> = seq![];
        let mut i: usize = 0;
        assert(slide_directions().take(0) =~= seq![]);
        while i < 16
            invariant
                i <= 16,
                g == self@,
                units@ == Direction::units(),
                doubles@ == Direction::doubles(),
                processed == one_throw_candidates(g.0, messenger, slide_directions().take(i as int)),
                moves_of(moves@) == survivors(g, processed, seq![]),
                seen_views(seen@) == fingerprints(g, moves_of(moves@)),
            decreases 16 - i,
        {
            let dir = if i < 8 {
                units[i]
            } else {
                doubles[i - 8]
            };
            assert(dir == slide_directions()[i as int]);
            let ghost before = processed;
            let mut j: usize = 0;
            assert(first_throws(g.0, messenger, dir).take(0) =~= seq![]);
            assert(before + seq![] =~= before);
            while j < 8
                invariant
                    j <= 8,
                    g == self@,
                    units@ == Direction::units(),
                    processed == before + first_throws(g.0, messenger, dir).take(j as int),
                    moves_of(moves@) == survivors(g, processed, seq![]),
                    seen_views(seen@) == fingerprints(g, moves_of(moves@)),
                decreases 8 - j,
            {
                let m = Move {
                    player: self.to_move,
                    messenger,
                    direction: dir,
                    first_throw: units[j],
                    extra_throws: None,
                };
                let ghost old_moves = moves_of(moves@);
                assert(seq![] + fingerprints(g, old_moves) =~= fingerprints(g, old_moves));
                match self.consider(m, &mut seen) {
                    Some(l) => {
                        moves.push(l);
                    },
                    None => {},
                }
                proof {
                    assert(processed.push(m).drop_last() =~= processed);
                    processed = processed.push(m);
                    assert(first_throws(g.0, messenger, dir)[j as int] == m);
                    assert(processed =~= before + first_throws(g.0, messenger, dir).take(j + 1));
                    assert(moves_of(moves@) =~= survivors(g, processed, seq![]));
                    assert(seen_views(seen@) =~= fingerprints(g, moves_of(moves@)));
                }
                j += 1;
            }
            proof {
                assert(first_throws(g.0, messenger, dir).take(8) =~= first_throws(g.0, messenger, dir));
                assert(slide_directions().take(i + 1).drop_last() =~= slide_directions().take(i as int));
            }
            i += 1;
        }
        assert(slide_directions().take(16) =~= slide_directions());
        let mut stage: Vec<LegalMove> = moves.clone();
        let mut k: usize = 2;
        while k <= 4
            invariant
                2 <= k <= 5,
                g == self@,
                units@ == Direction::units(),
                moves_of(moves@) == stages(g, messenger, (k - 1) as nat).0,
                moves_of(stage@) == stages(g, messenger, (k - 1) as nat).1,
                seen_views(seen@) == fingerprints(g, moves_of(moves@)),
            decreases 5 - k,
        {
            let ghost all_before = moves_of(moves@);
            let ghost last = moves_of(stage@);
            let ghost mut processed: Seq<Move> = seq![];
            let mut next: Vec<LegalMove> = Vec::new();
            let mut i: usize = 0;
            assert(last.take(0) =~= seq![]);
            while i < stage.len()
                invariant
                    i <= stage.len(),
                    g == self@,
                    units@ == Direction::units(),
                    moves_of(stage@) == last,
                    processed == extensions(last.take(i as int)),
                    moves_of(next@) == survivors(g, processed, fingerprints(g, all_before)),
                    moves_of(moves@) == all_before + moves_of(next@),
                    seen_views(seen@) == fingerprints(g, moves_of(moves@)),
                decreases stage.len() - i,
            {
                let base = stage[i].to_move();
                assert(base == last[i as int]);
                let ghost before = processed;
                let ghost block = Direction::units().map_values(|d: Direction| with_throw(base, d));
                let mut j: usize = 0;
                assert(block.take(0) =~= seq![]);
                assert(before + seq![] =~= before);
                while j < 8
                    invariant
                        j <= 8,
                        g == self@,
                        units@ == Direction::units(),
                        block == Direction::units().map_values(|d: Direction| with_throw(base, d)),
                        processed == before + block.take(j as int),
                        moves_of(next@) == survivors(g, processed, fingerprints(g, all_before)),
                        moves_of(moves@) == all_before + moves_of(next@),
                        seen_views(seen@) == fingerprints(g, moves_of(moves@)),
                    decreases 8 - j,
                {
                    let m = add_throw(base, units[j]);
                    let ghost old_next = next@;
                    let ghost old_moves = moves@;
                    proof {
                        lemma_fingerprints_concat(g, all_before, moves_of(next@));
                        lemma_survivors_push(g, processed, m, fingerprints(g, all_before));
                    }
                    match self.consider(m, &mut seen) {
                        Some(l) => {
                            next.push(l);
                            moves.push(l);
                            proof {
                                lemma_moves_of_push(old_next, l);
                                lemma_moves_of_push(old_moves, l);
                                lemma_fingerprints_concat(g, moves_of(old_moves), seq![m]);
                                assert(fingerprints(g, seq![m]) =~= seq![fingerprint(g, m)]);
                                assert(moves_of(old_moves).push(m) =~= moves_of(old_moves) + seq![m]);
                                assert(all_before + moves_of(old_next).push(m) =~= (all_before + moves_of(old_next)).push(m));
                            }
                        },
                        None => {},
                    }
                    proof {
                        processed = processed.push(m);
                        assert(block[j as int] == m);
                        assert(processed =~= before + block.take(j + 1));
                    }
                    j += 1;
                }
                proof {
                    assert(block.take(8) =~= block);
                    assert(last.take(i + 1).drop_last() =~= last.take(i as int));
                }
                i += 1;
            }
            assert(last.take(stage.len() as int) =~= last);
            stage = next;
            k += 1;
        }
        proof {
            crate::laws::lemma_moves_from_are_legal(self@, messenger);
            assert(moves_of(moves@) == stages(g, messenger, 4).0);
            assert(here == square_at(g.1, messenger@));
            assert(moves_of(moves@) == legal_moves_from(g, messenger));
        }
        assert forall|i: int| 0 <= i < moves@.len() implies is_legal(self@, #[trigger] moves@[i]@) by {
            assert(moves_of(moves@)[i] == moves@[i]@);
            assert(legal_moves_from(g, messenger)[i] == moves@[i]@);
        }
        moves
    }

    /// The legal moves of every unstunned messenger of the player to move,
    /// square by square from the bottom row up, each row from the left.
    pub fn legal_moves(&self) -> (r: Vec<LegalMove>)
        ensures
            moves_of(r@) == moves_in_rows(self@, 7),
            forall|i: int| 0 <= i < r@.len() ==> is_legal(self@, #[trigger] r@[i]@),
    {
        let mut moves: Vec<LegalMove> = Vec::new();
        let mut y: i8 = 1;
        while y <= 7
            invariant
                1 <= y <= 8,
                moves_of(moves@) == moves_in_rows(self@, (y - 1) as nat),
            decreases 8 - y,
        {
            let ghost above = moves_of(moves@);
            let mut x: i8 = 1;
            assert(above + seq![] =~= above);
            while x <= 7
                invariant
                    1 <= x <= 8,
                    1 <= y <= 7,
                    moves_of(moves@) == above + moves_in_row(self@, y as int, (x - 1) as nat),
                decreases 8 - x,
            {
                let c = BoardCoordinate::new(x, y).unwrap();
                assert(coordinate_at((x as int, y as int)) == c);
                let mut found = self.legal_moves_for(c);
                let ghost old_moves = moves@;
                let ghost old_found = found@;
                moves.append(&mut found);
                proof {
                    lemma_moves_of_concat(old_moves, old_found);
                }
                assert(moves_of(moves@) =~= above + moves_in_row(self@, y as int, x as nat));
                x += 1;
            }
            y += 1;
        }
        proof {
            crate::laws::lemma_generated_moves_are_legal(self@);
        }
        assert forall|i: int| 0 <= i < moves@.len() implies is_legal(self@, #[trigger] moves@[i]@) by {
            assert(moves_of(moves@)[i] == moves@[i]@);
        }
        moves
    }
}

} // verus!
