//! What holds of every legal move: piece conservation, the stun
//! lifecycle, safe slides, and legality of every generated move.
use vstd::prelude::*;

use crate::board::{moved, revived, square_at, stunned_at, Player, Square};
use crate::coord::{cell, on_board, shift, BoardCoordinate, Direction};
use crate::game::{
    committed, extensions, is_legal, legal_moves_from, moves_in_row, moves_in_rows, result_of,
    stages, survivors, GameState, Fingerprint,
};
use crate::rules::{chain_outcome, extra_throw_seq, has_majority, move_outcome, throw_outcome, Move};

verus! {

/// How many squares of `b` satisfy `f`.
pub open spec fn count(b: Seq<Square>, f: spec_fn(Square) -> bool) -> nat
    decreases b.len(),
{
    if b.len() == 0 {
        0
    } else {
        count(b.drop_last(), f) + if f(b.last()) {
            1nat
        } else {
            0nat
        }
    }
}

/// The squares holding a piece of `player`.
pub open spec fn pieces_of(b: Seq<Square>, player: Player) -> nat {
    count(b, |s: Square| s.spec_is_players(player))
}

/// The squares holding a cylinder of `player`.
pub open spec fn cylinders_of(b: Seq<Square>, player: Player) -> nat {
    count(b, |s: Square| s.spec_is_players(player) && s.spec_is_cylinder())
}

/// The squares holding a messenger of `player`, stunned or not.
pub open spec fn messengers_of(b: Seq<Square>, player: Player) -> nat {
    count(b, |s: Square| s.spec_is_players(player) && s.spec_is_messenger())
}

/// The squares holding a stunned messenger of `player`.
pub open spec fn stunned_of(b: Seq<Square>, player: Player) -> nat {
    count(b, |s: Square| s.spec_is_players(player) && s.spec_is_stunned_messenger())
}

/// `f` does not tell a square from the same square after a throw by
/// `mover` lands on it.
pub open spec fn blind_to_stun(f: spec_fn(Square) -> bool, mover: Player) -> bool {
    forall|s: Square| #[trigger] f(s.stunned_by(mover)) == f(s)
}

/// A throw by `mover` landing on a square never makes `f` false there.
pub open spec fn kept_by_stun(f: spec_fn(Square) -> bool, mover: Player) -> bool {
    forall|s: Square| f(s) ==> #[trigger] f(s.stunned_by(mover))
}

spec fn bit(b: bool) -> nat {
    if b {
        1
    } else {
        0
    }
}

proof fn lemma_count_update(b: Seq<Square>, i: int, v: Square, f: spec_fn(Square) -> bool)
    requires
        0 <= i < b.len(),
    ensures
        count(b.update(i, v), f) + bit(f(b[i])) == count(b, f) + bit(f(v)),
    decreases b.len(),
{
    let u = b.update(i, v);
    if i == b.len() - 1 {
        assert(u.drop_last() =~= b.drop_last());
    } else {
        assert(u.drop_last() =~= b.drop_last().update(i, v));
        lemma_count_update(b.drop_last(), i, v, f);
    }
}

proof fn lemma_count_none(b: Seq<Square>, f: spec_fn(Square) -> bool)
    requires
        forall|i: int| 0 <= i < b.len() ==> !f(#[trigger] b[i]),
    ensures
        count(b, f) == 0,
    decreases b.len(),
{
    if b.len() > 0 {
        lemma_count_none(b.drop_last(), f);
    }
}

proof fn lemma_count_revived(b: Seq<Square>, player: Player, f: spec_fn(Square) -> bool)
    requires
        forall|s: Square| #[trigger] f(s.revived_for(player)) == f(s),
    ensures
        count(revived(b, player), f) == count(b, f),
    decreases b.len(),
{
    if b.len() > 0 {
        assert(revived(b, player).drop_last() =~= revived(b.drop_last(), player));
        lemma_count_revived(b.drop_last(), player, f);
    }
}

proof fn lemma_cell_injective(p: (int, int), q: (int, int))
    requires
        on_board(p),
        on_board(q),
        p != q,
    ensures
        cell(p) != cell(q),
        0 <= cell(p) < 49,
{
}

proof fn lemma_cell_range(p: (int, int))
    requires
        on_board(p),
    ensures
        0 <= cell(p) < 49,
{
}

proof fn lemma_count_moved(b: Seq<Square>, from: (int, int), to: (int, int), f: spec_fn(Square) -> bool)
    requires
        b.len() == 49,
        on_board(from),
        on_board(to),
        from != to,
        square_at(b, to) == Square::Empty,
    ensures
        count(moved(b, from, to), f) == count(b, f),
{
    lemma_cell_injective(from, to);
    lemma_cell_injective(to, from);
    let b1 = b.update(cell(from), Square::Empty);
    lemma_count_update(b, cell(from), Square::Empty, f);
    lemma_count_update(b1, cell(to), b[cell(from)], f);
}

proof fn lemma_count_stunned(b: Seq<Square>, at: (int, int), mover: Player, f: spec_fn(Square) -> bool)
    requires
        b.len() == 49,
        on_board(at),
    ensures
        blind_to_stun(f, mover) ==> count(stunned_at(b, at, mover), f) == count(b, f),
        kept_by_stun(f, mover) ==> count(stunned_at(b, at, mover), f) >= count(b, f),
{
    lemma_cell_range(at);
    let s = b[cell(at)];
    lemma_count_update(b, cell(at), s.stunned_by(mover), f);
    assert(f(s.stunned_by(mover)) == f(s) || f(s.stunned_by(mover)) != f(s));
}

proof fn lemma_direction_nonzero(d: Direction)
    ensures
        d.dx() != 0 || d.dy() != 0,
{
}

proof fn lemma_count_throw(
    b: Seq<Square>,
    mover: Player,
    thrower: (int, int),
    d: Direction,
    n: u8,
    f: spec_fn(Square) -> bool,
)
    requires
        b.len() == 49,
        throw_outcome(b, mover, thrower, d, n) is Ok,
    ensures
        ({
            let r = throw_outcome(b, mover, thrower, d, n)->Ok_0;
            &&& r.0.len() == 49
            &&& on_board(r.1)
            &&& blind_to_stun(f, mover) ==> count(r.0, f) == count(b, f)
            &&& kept_by_stun(f, mover) ==> count(r.0, f) >= count(b, f)
        }),
{
    let from = shift(thrower, d.spec_negate());
    let to = shift(thrower, d);
    lemma_direction_nonzero(d);
    lemma_count_moved(b, from, to, f);
    lemma_cell_range(to);
    lemma_count_stunned(moved(b, from, to), to, mover, f);
}

proof fn lemma_count_chain(
    b: Seq<Square>,
    mover: Player,
    landing: (int, int),
    rest: Seq<Direction>,
    n: u8,
    f: spec_fn(Square) -> bool,
)
    requires
        b.len() == 49,
        chain_outcome(b, mover, landing, rest, n) is Ok,
    ensures
        ({
            let r = chain_outcome(b, mover, landing, rest, n)->Ok_0;
            &&& r.0.len() == 49
            &&& blind_to_stun(f, mover) ==> count(r.0, f) == count(b, f)
            &&& kept_by_stun(f, mover) ==> count(r.0, f) >= count(b, f)
        }),
    decreases rest.len(),
{
    if rest.len() > 0 {
        let thrower = shift(landing, rest[0]);
        lemma_count_throw(b, mover, thrower, rest[0], n, f);
        let t = throw_outcome(b, mover, thrower, rest[0], n)->Ok_0;
        lemma_count_chain(t.0, mover, t.1, rest.drop_first(), (n + 1) as u8, f);
    }
}

proof fn lemma_count_move(g: GameState, m: Move, f: spec_fn(Square) -> bool)
    requires
        g.1.len() == 49,
        on_board(m.messenger@),
        is_legal(g, m),
    ensures
        result_of(g, m).len() == 49,
        blind_to_stun(f, g.0) ==> count(result_of(g, m), f) == count(g.1, f),
        kept_by_stun(f, g.0) ==> count(result_of(g, m), f) >= count(g.1, f),
{
    let origin = m.messenger@;
    let dest = shift(origin, m.direction);
    lemma_direction_nonzero(m.direction);
    lemma_count_moved(g.1, origin, dest, f);
    let b0 = moved(g.1, origin, dest);
    lemma_count_throw(b0, m.player, dest, m.first_throw, 1, f);
    let t = throw_outcome(b0, m.player, dest, m.first_throw, 1)->Ok_0;
    lemma_count_chain(t.0, m.player, t.1, extra_throw_seq(m.extra_throws), 2, f);
}

proof fn lemma_commit_conserves(g: GameState, m: Move, f: spec_fn(Square) -> bool)
    requires
        g.1.len() == 49,
        on_board(m.messenger@),
        is_legal(g, m),
        blind_to_stun(f, g.0),
        forall|s: Square| #[trigger] f(s.revived_for(g.0)) == f(s),
    ensures
        count(committed(g, m).1, f) == count(g.1, f),
        committed(g, m).1.len() == 49,
{
    lemma_count_move(g, m, f);
    lemma_count_revived(result_of(g, m), g.0, f);
}

/// Committing a legal move neither creates nor destroys a piece: each
/// player has as many pieces, cylinders and messengers (stunned or not)
/// afterwards as before.
pub proof fn lemma_commit_conserves_pieces(g: GameState, m: Move)
    requires
        g.1.len() == 49,
        on_board(m.messenger@),
        is_legal(g, m),
    ensures
        committed(g, m).1.len() == 49,
        forall|p: Player|
            {
                &&& #[trigger] pieces_of(committed(g, m).1, p) == pieces_of(g.1, p)
                &&& cylinders_of(committed(g, m).1, p) == cylinders_of(g.1, p)
                &&& messengers_of(committed(g, m).1, p) == messengers_of(g.1, p)
            },
{
    assert forall|p: Player|
        {
            &&& #[trigger] pieces_of(committed(g, m).1, p) == pieces_of(g.1, p)
            &&& cylinders_of(committed(g, m).1, p) == cylinders_of(g.1, p)
            &&& messengers_of(committed(g, m).1, p) == messengers_of(g.1, p)
        } by {
        lemma_commit_conserves(g, m, |s: Square| s.spec_is_players(p));
        lemma_commit_conserves(g, m, |s: Square| s.spec_is_players(p) && s.spec_is_cylinder());
        lemma_commit_conserves(g, m, |s: Square| s.spec_is_players(p) && s.spec_is_messenger());
    }
    lemma_count_move(g, m, |s: Square| s.spec_is_players(g.0));
}

/// The state after the moves `ms` are committed one after another.
pub open spec fn play(g: GameState, ms: Seq<Move>) -> GameState
    decreases ms.len(),
{
    if ms.len() == 0 {
        g
    } else {
        committed(play(g, ms.drop_last()), ms.last())
    }
}

/// Whether each of the moves `ms` is legal when its turn comes.
pub open spec fn plays_legally(g: GameState, ms: Seq<Move>) -> bool
    decreases ms.len(),
{
    if ms.len() == 0 {
        true
    } else {
        plays_legally(g, ms.drop_last()) && is_legal(play(g, ms.drop_last()), ms.last())
    }
}

/// Over any sequence of committed legal moves, each player keeps as many
/// pieces, cylinders and messengers (stunned or not) as at the start; so
/// the number of occupied squares never changes either.
pub proof fn lemma_play_conserves_pieces(g: GameState, ms: Seq<Move>)
    requires
        g.1.len() == 49,
        forall|i: int| 0 <= i < ms.len() ==> on_board(#[trigger] ms[i].messenger@),
        plays_legally(g, ms),
    ensures
        play(g, ms).1.len() == 49,
        forall|p: Player|
            {
                &&& #[trigger] pieces_of(play(g, ms).1, p) == pieces_of(g.1, p)
                &&& cylinders_of(play(g, ms).1, p) == cylinders_of(g.1, p)
                &&& messengers_of(play(g, ms).1, p) == messengers_of(g.1, p)
            },
    decreases ms.len(),
{
    if ms.len() > 0 {
        lemma_play_conserves_pieces(g, ms.drop_last());
        assert(on_board(ms[ms.len() - 1].messenger@));
        lemma_commit_conserves_pieces(play(g, ms.drop_last()), ms.last());
    }
}

/// A stunned messenger cannot start a move. Its owner's stunned messengers
/// stay stunned through the owner's own move and all recover the moment
/// that move is committed; the opponent's stunned messengers stay stunned
/// (a throw may add to them).
pub proof fn lemma_stun_lifecycle(g: GameState, m: Move)
    requires
        g.1.len() == 49,
        on_board(m.messenger@),
        is_legal(g, m),
    ensures
        !square_at(g.1, m.messenger@).spec_is_stunned_messenger(),
        stunned_of(result_of(g, m), g.0) == stunned_of(g.1, g.0),
        stunned_of(committed(g, m).1, g.0) == 0,
        stunned_of(committed(g, m).1, g.0.spec_opponent()) >= stunned_of(g.1, g.0.spec_opponent()),
{
    let own = |s: Square| s.spec_is_players(g.0) && s.spec_is_stunned_messenger();
    let theirs = |s: Square| s.spec_is_players(g.0.spec_opponent()) && s.spec_is_stunned_messenger();
    lemma_count_move(g, m, own);
    lemma_count_move(g, m, theirs);
    lemma_count_revived(result_of(g, m), g.0, theirs);
    let after = committed(g, m).1;
    assert forall|i: int| 0 <= i < after.len() implies !own(#[trigger] after[i]) by {}
    lemma_count_none(after, own);
}

/// A legal move's slide stays on the board, ends on an empty square, and a
/// double slide passes over an empty square.
pub proof fn lemma_slide_is_safe(g: GameState, m: Move)
    requires
        is_legal(g, m),
    ensures
        on_board(shift(m.messenger@, m.direction)),
        square_at(g.1, shift(m.messenger@, m.direction)) == Square::Empty,
        m.direction.spec_unit() != m.direction ==> on_board(
            shift(m.messenger@, m.direction.spec_unit()),
        ) && square_at(g.1, shift(m.messenger@, m.direction.spec_unit())) == Square::Empty,
{
}

/// A legal move throws more than once only if, after its first throw, the
/// mover has strictly more messengers than the opponent around the square
/// that throw landed on.
pub proof fn lemma_chain_needs_majority(g: GameState, m: Move)
    requires
        is_legal(g, m),
        m.extra_throws is Some,
    ensures
        ({
            let origin = m.messenger@;
            let dest = shift(origin, m.direction);
            let first = throw_outcome(moved(g.1, origin, dest), g.0, dest, m.first_throw, 1);
            &&& first is Ok
            &&& has_majority(first->Ok_0.0, first->Ok_0.1, g.0)
        }),
{
    assert(extra_throw_seq(m.extra_throws).len() > 0);
}

proof fn lemma_survivors_legal(g: GameState, cands: Seq<Move>, seen: Seq<Fingerprint>)
    ensures
        forall|i: int|
            0 <= i < survivors(g, cands, seen).len() ==> is_legal(
                g,
                #[trigger] survivors(g, cands, seen)[i],
            ),
    decreases cands.len(),
{
    if cands.len() > 0 {
        lemma_survivors_legal(g, cands.drop_last(), seen);
        let prev = survivors(g, cands.drop_last(), seen);
        let m = cands.last();
        assert forall|i: int| 0 <= i < prev.push(m).len() && is_legal(g, m) implies is_legal(
            g,
            #[trigger] prev.push(m)[i],
        ) by {
            if i < prev.len() {
                assert(prev.push(m)[i] == prev[i]);
            }
        }
    }
}

proof fn lemma_stages_legal(g: GameState, c: BoardCoordinate, k: nat)
    ensures
        forall|i: int| 0 <= i < stages(g, c, k).0.len() ==> is_legal(g, #[trigger] stages(g, c, k).0[i]),
        forall|i: int| 0 <= i < stages(g, c, k).1.len() ==> is_legal(g, #[trigger] stages(g, c, k).1[i]),
    decreases k,
{
    if k <= 1 {
        lemma_survivors_legal(g, crate::game::one_throw_candidates(g.0, c, crate::game::slide_directions()), seq![]);
    } else {
        let prev = stages(g, c, (k - 1) as nat);
        lemma_stages_legal(g, c, (k - 1) as nat);
        lemma_survivors_legal(g, extensions(prev.1), crate::game::fingerprints(g, prev.0));
        let s = survivors(g, extensions(prev.1), crate::game::fingerprints(g, prev.0));
        assert forall|i: int| 0 <= i < (prev.0 + s).len() implies is_legal(g, #[trigger] (prev.0 + s)[i]) by {
            if i >= prev.0.len() {
                assert((prev.0 + s)[i] == s[i - prev.0.len()]);
            }
        }
    }
}

/// Every move the generator lists for one messenger is legal in the game
/// it was generated for.
pub proof fn lemma_moves_from_are_legal(g: GameState, c: BoardCoordinate)
    ensures
        forall|i: int|
            0 <= i < legal_moves_from(g, c).len() ==> is_legal(g, #[trigger] legal_moves_from(g, c)[i]),
{
    lemma_stages_legal(g, c, 4);
}

proof fn lemma_row_legal(g: GameState, y: int, cols: nat)
    ensures
        forall|i: int|
            0 <= i < moves_in_row(g, y, cols).len() ==> is_legal(g, #[trigger] moves_in_row(g, y, cols)[i]),
    decreases cols,
{
    if cols > 0 {
        lemma_row_legal(g, y, (cols - 1) as nat);
        let a = moves_in_row(g, y, (cols - 1) as nat);
        let c = crate::game::coordinate_at((cols as int, y));
        lemma_moves_from_are_legal(g, c);
        let b = legal_moves_from(g, c);
        assert forall|i: int| 0 <= i < (a + b).len() implies is_legal(g, #[trigger] (a + b)[i]) by {
            if i >= a.len() {
                assert((a + b)[i] == b[i - a.len()]);
            }
        }
    }
}

proof fn lemma_rows_legal(g: GameState, rows: nat)
    ensures
        forall|i: int|
            0 <= i < moves_in_rows(g, rows).len() ==> is_legal(g, #[trigger] moves_in_rows(g, rows)[i]),
    decreases rows,
{
    if rows > 0 {
        lemma_rows_legal(g, (rows - 1) as nat);
        lemma_row_legal(g, rows as int, 7);
        let a = moves_in_rows(g, (rows - 1) as nat);
        let b = moves_in_row(g, rows as int, 7);
        assert forall|i: int| 0 <= i < (a + b).len() implies is_legal(g, #[trigger] (a + b)[i]) by {
            if i >= a.len() {
                assert((a + b)[i] == b[i - a.len()]);
            }
        }
    }
}

/// Every move the generator lists for a game is legal in that game: run
/// through the rules again it is accepted, with the same resulting board.
pub proof fn lemma_generated_moves_are_legal(g: GameState)
    ensures
        forall|i: int| 0 <= i < moves_in_rows(g, 7).len() ==> is_legal(g, #[trigger] moves_in_rows(g, 7)[i]),
{
    lemma_rows_legal(g, 7);
}

} // verus!
