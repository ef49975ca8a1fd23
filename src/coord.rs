//! Board coordinates and the sixteen compass directions.
use vstd::prelude::*;

verus! {

/// Whether a position lies on the 7x7 board.
pub open spec fn on_board(p: (int, int)) -> bool {
    1 <= p.0 <= 7 && 1 <= p.1 <= 7
}

/// The position reached from `p` by the vector of `d`.
pub open spec fn shift(p: (int, int), d: Direction) -> (int, int) {
    (p.0 + d.dx(), p.1 + d.dy())
}

/// The place of `p` in a row-major listing of the board from the top row
/// (`y == 7`) down, each row from `x == 1`.
pub open spec fn cell(p: (int, int)) -> int {
    (7 - p.1) * 7 + (p.0 - 1)
}

/// Whether `q` is one of the eight squares around `p`.
pub open spec fn adjacent(p: (int, int), q: (int, int)) -> bool {
    p != q && -1 <= q.0 - p.0 <= 1 && -1 <= q.1 - p.1 <= 1
}

/// A square of the board, with `1 <= x, y <= 7`.
#[derive(Clone, Copy, Debug, PartialEq, Eq, Hash, Structural)]
pub struct BoardCoordinate {
    x: i8,
    y: i8,
}

impl View for BoardCoordinate {
    type V = (int, int);

    closed spec fn view(&self) -> (int, int) {
        (self.x as int, self.y as int)
    }
}

/// Coordinates are equal exactly when their positions are.
pub broadcast proof fn lemma_coordinate_view_injective(a: BoardCoordinate, b: BoardCoordinate)
    ensures
        #![trigger a@, b@]
        a@ == b@ <==> a == b,
{
}

impl BoardCoordinate {
    #[verifier::type_invariant]
    spec fn in_range(self) -> bool {
        1 <= self.x <= 7 && 1 <= self.y <= 7
    }

    /// The coordinate `(x, y)`, or `None` outside `[1, 7] x [1, 7]`.
    pub fn new(x: i8, y: i8) -> (r: Option<BoardCoordinate>)
        ensures
            r is Some <==> on_board((x as int, y as int)),
            r matches Some(c) ==> c@ == (x as int, y as int),
    {
        if 1 <= x && x <= 7 && 1 <= y && y <= 7 {
            Some(BoardCoordinate { x, y })
        } else {
            None
        }
    }

    /// The column, counted from 1 at the left.
    pub fn x(&self) -> (r: i8)
        ensures
            r as int == self@.0,
            on_board(self@),
    {
        proof {
            use_type_invariant(*self);
        }
        self.x
    }

    /// The row, counted from 1 at the bottom.
    pub fn y(&self) -> (r: i8)
        ensures
            r as int == self@.1,
            on_board(self@),
    {
        proof {
            use_type_invariant(*self);
        }
        self.y
    }

    /// The place of this square in a row-major listing that starts at the
    /// top row.
    pub fn index(&self) -> (r: usize)
        ensures
            r as int == cell(self@),
            r < 49,
            on_board(self@),
    {
        proof {
            use_type_invariant(*self);
        }
        ((7 - self.y) as usize) * 7 + ((self.x - 1) as usize)
    }

    /// The coordinate one step of `d` away, or `None` off the board.
    pub fn add_direction(self, d: Direction) -> (r: Option<BoardCoordinate>)
        ensures
            r is Some <==> on_board(shift(self@, d)),
            r matches Some(c) ==> c@ == shift(self@, d),
    {
        proof {
            use_type_invariant(self);
        }
        BoardCoordinate::new(self.x + d.x_step(), self.y + d.y_step())
    }

    /// Whether `other` is one of the eight squares around this one.
    pub fn one_away(&self, other: BoardCoordinate) -> (r: bool)
        ensures
            r == adjacent(self@, other@),
            r <==> exists|d: Direction| d.is_unit() && shift(self@, d) == other@,
    {
        proof {
            use_type_invariant(*self);
            use_type_invariant(other);
        }
        let dx = other.x - self.x;
        let dy = other.y - self.y;
        let r = (dx != 0 || dy != 0) && -1 <= dx && dx <= 1 && -1 <= dy && dy <= 1;
        proof {
            if r {
                let d = Direction::from_unit_vector(dx as int, dy as int);
                assert(d.is_unit() && shift(self@, d) == other@);
            }
        }
        r
    }
}

/// A compass vector: eight single steps and eight double steps.
#[derive(Clone, Copy, Debug, PartialEq, Eq, Hash, Structural)]
pub enum Direction {
    NW2,
    N2,
    NE2,
    NW,
    N,
    NE,
    W2,
    W,
    E,
    E2,
    SW,
    S,
    SE,
    SW2,
    S2,
    SE2,
}

impl Direction {
    /// The horizontal component of the vector.
    pub open spec fn dx(self) -> int {
        match self {
            Direction::NW2 | Direction::W2 | Direction::SW2 => -2,
            Direction::NW | Direction::W | Direction::SW => -1,
            Direction::N2 | Direction::N | Direction::S | Direction::S2 => 0,
            Direction::NE | Direction::E | Direction::SE => 1,
            Direction::NE2 | Direction::E2 | Direction::SE2 => 2,
        }
    }

    /// The vertical component of the vector.
    pub open spec fn dy(self) -> int {
        match self {
            Direction::NW2 | Direction::N2 | Direction::NE2 => 2,
            Direction::NW | Direction::N | Direction::NE => 1,
            Direction::W2 | Direction::W | Direction::E | Direction::E2 => 0,
            Direction::SW | Direction::S | Direction::SE => -1,
            Direction::SW2 | Direction::S2 | Direction::SE2 => -2,
        }
    }

    /// Whether the vector is a single step.
    pub open spec fn is_unit(self) -> bool {
        -1 <= self.dx() <= 1 && -1 <= self.dy() <= 1
    }

    /// The single step in the same bearing.
    pub open spec fn spec_unit(&self) -> Direction {
        match self {
            Direction::NW2 => Direction::NW,
            Direction::N2 => Direction::N,
            Direction::NE2 => Direction::NE,
            Direction::W2 => Direction::W,
            Direction::E2 => Direction::E,
            Direction::SW2 => Direction::SW,
            Direction::S2 => Direction::S,
            Direction::SE2 => Direction::SE,
            _ => *self,
        }
    }

    /// The opposite vector.
    pub open spec fn spec_negate(&self) -> Direction {
        match self {
            Direction::NW2 => Direction::SE2,
            Direction::N2 => Direction::S2,
            Direction::NE2 => Direction::SW2,
            Direction::NW => Direction::SE,
            Direction::N => Direction::S,
            Direction::NE => Direction::SW,
            Direction::W2 => Direction::E2,
            Direction::W => Direction::E,
            Direction::E => Direction::W,
            Direction::E2 => Direction::W2,
            Direction::SW => Direction::NE,
            Direction::S => Direction::N,
            Direction::SE => Direction::NW,
            Direction::SW2 => Direction::NE2,
            Direction::S2 => Direction::N2,
            Direction::SE2 => Direction::NW2,
        }
    }

    /// The single step with the given components.
    pub open spec fn from_unit_vector(dx: int, dy: int) -> Direction {
        if dy == 1 {
            if dx == -1 { Direction::NW } else if dx == 0 { Direction::N } else { Direction::NE }
        } else if dy == 0 {
            if dx == -1 { Direction::W } else { Direction::E }
        } else {
            if dx == -1 { Direction::SW } else if dx == 0 { Direction::S } else { Direction::SE }
        }
    }

    /// The single steps, in the order in which moves are generated.
    pub open spec fn units() -> Seq<Direction> {
        seq![
            Direction::NW,
            Direction::N,
            Direction::NE,
            Direction::W,
            Direction::E,
            Direction::SW,
            Direction::S,
            Direction::SE,
        ]
    }

    /// The double steps, in the order in which moves are generated.
    pub open spec fn doubles() -> Seq<Direction> {
        seq![
            Direction::NW2,
            Direction::N2,
            Direction::NE2,
            Direction::W2,
            Direction::E2,
            Direction::SW2,
            Direction::S2,
            Direction::SE2,
        ]
    }

    /// The single step in the same bearing: a double step is halved, a
    /// single step is kept.
    #[verifier::when_used_as_spec(spec_unit)]
    pub fn unit(&self) -> (r: Direction)
        ensures
            r == self.spec_unit(),
            r.is_unit(),
            r == *self || (r.dx() * 2 == self.dx() && r.dy() * 2 == self.dy()),
    {
        match self {
            Direction::NW2 => Direction::NW,
            Direction::N2 => Direction::N,
            Direction::NE2 => Direction::NE,
            Direction::W2 => Direction::W,
            Direction::E2 => Direction::E,
            Direction::SW2 => Direction::SW,
            Direction::S2 => Direction::S,
            Direction::SE2 => Direction::SE,
            _ => *self,
        }
    }

    /// The opposite vector, of the same length.
    #[verifier::when_used_as_spec(spec_negate)]
    pub fn negate(&self) -> (r: Direction)
        ensures
            r == self.spec_negate(),
            r.dx() == -self.dx(),
            r.dy() == -self.dy(),
    {
        match self {
            Direction::NW2 => Direction::SE2,
            Direction::N2 => Direction::S2,
            Direction::NE2 => Direction::SW2,
            Direction::NW => Direction::SE,
            Direction::N => Direction::S,
            Direction::NE => Direction::SW,
            Direction::W2 => Direction::E2,
            Direction::W => Direction::E,
            Direction::E => Direction::W,
            Direction::E2 => Direction::W2,
            Direction::SW => Direction::NE,
            Direction::S => Direction::N,
            Direction::SE => Direction::NW,
            Direction::SW2 => Direction::NE2,
            Direction::S2 => Direction::N2,
            Direction::SE2 => Direction::NW2,
        }
    }

    fn x_step(&self) -> (r: i8)
        ensures
            r as int == self.dx(),
    {
        match self {
            Direction::NW2 | Direction::W2 | Direction::SW2 => -2,
            Direction::NW | Direction::W | Direction::SW => -1,
            Direction::N2 | Direction::N | Direction::S | Direction::S2 => 0,
            Direction::NE | Direction::E | Direction::SE => 1,
            Direction::NE2 | Direction::E2 | Direction::SE2 => 2,
        }
    }

    fn y_step(&self) -> (r: i8)
        ensures
            r as int == self.dy(),
    {
        match self {
            Direction::NW2 | Direction::N2 | Direction::NE2 => 2,
            Direction::NW | Direction::N | Direction::NE => 1,
            Direction::W2 | Direction::W | Direction::E | Direction::E2 => 0,
            Direction::SW | Direction::S | Direction::SE => -1,
            Direction::SW2 | Direction::S2 | Direction::SE2 => -2,
        }
    }

    /// The eight single steps.
    pub fn one_square() -> (r: [Direction; 8])
        ensures
            r@ == Self::units(),
    {
        let r = [
            Direction::NW,
            Direction::N,
            Direction::NE,
            Direction::W,
            Direction::E,
            Direction::SW,
            Direction::S,
            Direction::SE,
        ];
        assert(r@ =~= Self::units());
        r
    }

    /// The eight double steps.
    pub fn two_squares() -> (r: [Direction; 8])
        ensures
            r@ == Self::doubles(),
    {
        let r = [
            Direction::NW2,
            Direction::N2,
            Direction::NE2,
            Direction::W2,
            Direction::E2,
            Direction::SW2,
            Direction::S2,
            Direction::SE2,
        ];
        assert(r@ =~= Self::doubles());
        r
    }
}

/// Negating twice gives the direction back, and reducing to a single step
/// twice is the same as reducing once.
pub proof fn lemma_direction_involutions(d: Direction)
    ensures
        d.negate().negate() == d,
        d.unit().unit() == d.unit(),
{
}

} // verus!
