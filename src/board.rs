//! Players, pieces, squares and the board.
use vstd::prelude::*;

use crate::coord::{cell, on_board, BoardCoordinate};

verus! {

broadcast use vstd::array::array_len_matches_n;

/// One of the two sides.
#[derive(Clone, Copy, Debug, PartialEq, Eq, Structural)]
pub enum Player {
    Beige,
    Black,
}

impl Player {
    pub open spec fn spec_opponent(&self) -> Player {
        match self {
            Player::Beige => Player::Black,
            Player::Black => Player::Beige,
        }
    }

    /// The other side.
    #[verifier::when_used_as_spec(spec_opponent)]
    pub fn opponent(&self) -> (r: Player)
        ensures
            r == self.spec_opponent(),
            r != *self,
    {
        match self {
            Player::Beige => Player::Black,
            Player::Black => Player::Beige,
        }
    }
}

/// What a square can hold.
#[derive(Clone, Copy, Debug, PartialEq, Eq, Structural)]
pub enum Piece {
    Cylinder,
    Messenger,
    StunnedMessenger,
}

/// A square of the board: empty, or one piece with its owner.
#[derive(Clone, Copy, Debug, PartialEq, Eq, Structural)]
pub enum Square {
    Empty,
    Beige(Piece),
    Black(Piece),
}

impl Square {
    /// The owner of the piece on the square, if any.
    pub open spec fn owner(&self) -> Option<Player> {
        match self {
            Square::Empty => None,
            Square::Beige(_) => Some(Player::Beige),
            Square::Black(_) => Some(Player::Black),
        }
    }

    /// The piece on the square, if any.
    pub open spec fn piece(&self) -> Option<Piece> {
        match self {
            Square::Empty => None,
            Square::Beige(p) => Some(*p),
            Square::Black(p) => Some(*p),
        }
    }

    /// The square holding `piece` for `player`.
    pub open spec fn of(player: Player, piece: Piece) -> Square {
        match player {
            Player::Beige => Square::Beige(piece),
            Player::Black => Square::Black(piece),
        }
    }

    pub open spec fn spec_is_players(&self, player: Player) -> bool {
        self.owner() == Some(player)
    }

    pub open spec fn spec_is_empty(&self) -> bool {
        self.owner() is None
    }

    pub open spec fn spec_is_cylinder(&self) -> bool {
        self.piece() == Some(Piece::Cylinder)
    }

    pub open spec fn spec_is_unstunned_messenger(&self) -> bool {
        self.piece() == Some(Piece::Messenger)
    }

    pub open spec fn spec_is_stunned_messenger(&self) -> bool {
        self.piece() == Some(Piece::StunnedMessenger)
    }

    pub open spec fn spec_is_messenger(&self) -> bool {
        self.spec_is_unstunned_messenger() || self.spec_is_stunned_messenger()
    }

    /// The square after a throw by `mover` lands on it: an opponent's
    /// unstunned messenger becomes stunned, anything else stays.
    pub open spec fn stunned_by(&self, mover: Player) -> Square {
        if self.spec_is_players(mover.spec_opponent()) && self.spec_is_unstunned_messenger() {
            Square::of(mover.spec_opponent(), Piece::StunnedMessenger)
        } else {
            *self
        }
    }

    /// The square once `player`'s stunned messengers recover.
    pub open spec fn revived_for(&self, player: Player) -> Square {
        if self.spec_is_players(player) && self.spec_is_stunned_messenger() {
            Square::of(player, Piece::Messenger)
        } else {
            *self
        }
    }

    /// Whether the square holds a piece of `player`.
    #[verifier::when_used_as_spec(spec_is_players)]
    pub fn is_players(&self, player: Player) -> (r: bool)
        ensures
            r == self.spec_is_players(player),
    {
        match player {
            Player::Beige => matches!(self, Square::Beige(_)),
            Player::Black => matches!(self, Square::Black(_)),
        }
    }

    /// The owner of the piece on the square, if any.
    pub fn player(&self) -> (r: Option<Player>)
        ensures
            r == self.owner(),
    {
        match self {
            Square::Beige(_) => Some(Player::Beige),
            Square::Black(_) => Some(Player::Black),
            _ => None,
        }
    }

    /// Whether the square holds nothing.
    #[verifier::when_used_as_spec(spec_is_empty)]
    pub fn is_empty(&self) -> (r: bool)
        ensures
            r == self.spec_is_empty(),
    {
        matches!(self, Square::Empty)
    }

    /// Whether the square holds a cylinder of either side.
    #[verifier::when_used_as_spec(spec_is_cylinder)]
    pub fn is_cylinder(&self) -> (r: bool)
        ensures
            r == self.spec_is_cylinder(),
    {
        match *self {
            Square::Beige(piece) | Square::Black(piece) => piece == Piece::Cylinder,
            _ => false,
        }
    }

    /// Whether the square holds a messenger of either side, stunned or not.
    #[verifier::when_used_as_spec(spec_is_messenger)]
    pub fn is_messenger(&self) -> (r: bool)
        ensures
            r == self.spec_is_messenger(),
    {
        self.is_unstunned_messenger() || self.is_stunned_messenger()
    }

    /// Whether the square holds a messenger that may move.
    #[verifier::when_used_as_spec(spec_is_unstunned_messenger)]
    pub fn is_unstunned_messenger(&self) -> (r: bool)
        ensures
            r == self.spec_is_unstunned_messenger(),
    {
        match *self {
            Square::Beige(piece) | Square::Black(piece) => piece == Piece::Messenger,
            _ => false,
        }
    }

    /// Whether the square holds a stunned messenger.
    #[verifier::when_used_as_spec(spec_is_stunned_messenger)]
    pub fn is_stunned_messenger(&self) -> (r: bool)
        ensures
            r == self.spec_is_stunned_messenger(),
    {
        match *self {
            Square::Beige(piece) | Square::Black(piece) => piece == Piece::StunnedMessenger,
            _ => false,
        }
    }
}

/// The square at position `p` of a board's squares.
pub open spec fn square_at(b: Seq<Square>, p: (int, int)) -> Square {
    b[cell(p)]
}

/// The squares after the piece at `from` is taken to `to`.
pub open spec fn moved(b: Seq<Square>, from: (int, int), to: (int, int)) -> Seq<Square> {
    b.update(cell(from), Square::Empty).update(cell(to), b[cell(from)])
}

/// The squares after a throw by `mover` lands at `at`.
pub open spec fn stunned_at(b: Seq<Square>, at: (int, int), mover: Player) -> Seq<Square> {
    b.update(cell(at), b[cell(at)].stunned_by(mover))
}

/// The squares once every stunned messenger of `player` recovers.
pub open spec fn revived(b: Seq<Square>, player: Player) -> Seq<Square> {
    b.map_values(|s: Square| s.revived_for(player))
}

/// The standard starting layout: each side has a cylinder on its back row
/// and four messengers in a T in front of it.
pub open spec fn starting_square(p: (int, int)) -> Square {
    if p == (4int, 7int) {
        Square::Beige(Piece::Cylinder)
    } else if (p.1 == 6 && 3 <= p.0 <= 5) || p == (4int, 5int) {
        Square::Beige(Piece::Messenger)
    } else if (p.1 == 2 && 3 <= p.0 <= 5) || p == (4int, 3int) {
        Square::Black(Piece::Messenger)
    } else if p == (4int, 1int) {
        Square::Black(Piece::Cylinder)
    } else {
        Square::Empty
    }
}

/// The position listed at place `i` (the inverse of `cell`).
pub open spec fn position_of(i: int) -> (int, int) {
    (i % 7 + 1, 7 - i / 7)
}

pub open spec fn starting_layout() -> Seq<Square> {
    Seq::new(49, |i: int| starting_square(position_of(i)))
}

pub proof fn lemma_cell_of_position(i: int)
    requires
        0 <= i < 49,
    ensures
        on_board(position_of(i)),
        cell(position_of(i)) == i,
{
}

/// A 7x7 grid of squares. Every operation returns a new board.
#[derive(Clone, Copy, Debug, PartialEq, Eq)]
pub struct Board {
    squares: [Square; 49],
}

impl View for Board {
    type V = Seq<Square>;

    closed spec fn view(&self) -> Seq<Square> {
        self.squares@
    }
}

/// A board has one square for each of the 49 positions.
pub broadcast proof fn lemma_board_len(b: Board)
    ensures
        #[trigger] b@.len() == 49,
{
}

impl Board {
    /// The board with no piece on it.
    pub fn empty() -> (r: Board)
        ensures
            forall|i: int| 0 <= i < 49 ==> #[trigger] r@[i] == Square::Empty,
    {
        Board { squares: [Square::Empty; 49] }
    }

    /// The standard starting layout.
    pub fn starting() -> (r: Board)
        ensures
            r@ == starting_layout(),
    {
        let mut b = Board::empty();
        b.set_at(3, 0, Square::Beige(Piece::Cylinder));
        b.set_at(2, 1, Square::Beige(Piece::Messenger));
        b.set_at(3, 1, Square::Beige(Piece::Messenger));
        b.set_at(4, 1, Square::Beige(Piece::Messenger));
        b.set_at(3, 2, Square::Beige(Piece::Messenger));
        b.set_at(3, 4, Square::Black(Piece::Messenger));
        b.set_at(2, 5, Square::Black(Piece::Messenger));
        b.set_at(3, 5, Square::Black(Piece::Messenger));
        b.set_at(4, 5, Square::Black(Piece::Messenger));
        b.set_at(3, 6, Square::Black(Piece::Cylinder));
        assert forall|i: int| 0 <= i < 49 implies #[trigger] b@[i] == starting_layout()[i] by {
            lemma_cell_of_position(i);
        }
        assert(b@ =~= starting_layout());
        b
    }

    fn set_at(&mut self, column: usize, row: usize, s: Square)
        requires
            column < 7,
            row < 7,
        ensures
            final(self)@ == old(self)@.update(row * 7 + column, s),
    {
        self.squares[row * 7 + column] = s;
    }

    /// The board laid out from rows of squares: the first row is the top
    /// one (`y == 7`), each row from `x == 1` on the left.
    pub fn from_rows(rows: [[Square; 7]; 7]) -> (r: Board)
        ensures
            forall|row: int, column: int|
                0 <= row < 7 && 0 <= column < 7 ==> #[trigger] r@[row * 7 + column]
                    == rows@[row]@[column],
    {
        let mut b = Board::empty();
        let mut row: usize = 0;
        while row < 7
            invariant
                row <= 7,
                forall|i: int, j: int|
                    0 <= i < row && 0 <= j < 7 ==> #[trigger] b@[i * 7 + j] == rows@[i]@[j],
            decreases 7 - row,
        {
            let mut column: usize = 0;
            while column < 7
                invariant
                    row < 7,
                    column <= 7,
                    forall|i: int, j: int|
                        0 <= i < row && 0 <= j < 7 ==> #[trigger] b@[i * 7 + j] == rows@[i]@[j],
                    forall|j: int| 0 <= j < column ==> #[trigger] b@[row * 7 + j] == rows@[row as int]@[j],
                decreases 7 - column,
            {
                let s = rows[row][column];
                b.set_at(column, row, s);
                column += 1;
            }
            row += 1;
        }
        b
    }

    /// The square at `at`.
    pub fn get(&self, at: BoardCoordinate) -> (r: Square)
        ensures
            r == square_at(self@, at@),
            on_board(at@),
    {
        self.squares[at.index()]
    }

    /// Puts `s` on the square at `at`.
    pub fn set(&mut self, at: BoardCoordinate, s: Square)
        ensures
            final(self)@ == old(self)@.update(cell(at@), s),
            on_board(at@),
    {
        let i = at.index();
        self.squares[i] = s;
    }

    /// The board with the piece at `from` taken to `to`; `from` becomes
    /// empty.
    pub fn move_piece(&self, from: BoardCoordinate, to: BoardCoordinate) -> (r: Board)
        ensures
            r@ == moved(self@, from@, to@),
    {
        let mut new_board = *self;
        let piece = new_board.get(from);
        new_board.set(from, Square::Empty);
        new_board.set(to, piece);
        new_board
    }

    /// The board after a throw by `player` lands at `at`: an unstunned
    /// messenger of the opponent there is stunned, else nothing changes.
    pub fn stun_if_opponents(&self, at: BoardCoordinate, player: Player) -> (r: Board)
        ensures
            r@ == stunned_at(self@, at@, player),
    {
        let s = self.get(at);
        let mut new_board = *self;
        match s {
            Square::Beige(Piece::Messenger) if player.opponent() == Player::Beige => {
                new_board.set(at, Square::Beige(Piece::StunnedMessenger));
            },
            Square::Black(Piece::Messenger) if player.opponent() == Player::Black => {
                new_board.set(at, Square::Black(Piece::StunnedMessenger));
            },
            _ => {},
        }
        assert(new_board@ =~= stunned_at(self@, at@, player));
        new_board
    }

    /// The board with every stunned messenger of `player` unstunned and
    /// every other square as it was.
    pub fn un_stun(&self, player: Player) -> (r: Board)
        ensures
            r@ == revived(self@, player),
    {
        let mut new_board = *self;
        let mut i: usize = 0;
        while i < 49
            invariant
                i <= 49,
                new_board@.len() == 49,
                self@.len() == 49,
                forall|j: int| 0 <= j < i ==> #[trigger] new_board@[j] == self@[j].revived_for(player),
                forall|j: int| i <= j < 49 ==> #[trigger] new_board@[j] == self@[j],
            decreases 49 - i,
        {
            let s = new_board.squares[i];
            let t = match s {
                Square::Beige(Piece::StunnedMessenger) if player == Player::Beige => {
                    Square::Beige(Piece::Messenger)
                },
                Square::Black(Piece::StunnedMessenger) if player == Player::Black => {
                    Square::Black(Piece::Messenger)
                },
                _ => s,
            };
            new_board.squares[i] = t;
            i += 1;
        }
        assert(new_board@ =~= revived(self@, player));
        new_board
    }
}

} // verus!
