use cotw::Piece::{Cylinder, Messenger};
use cotw::Square::{Beige, Black, Empty};
use cotw::{Board, BoardCoordinate, Direction, Game, LegalMove, Move, Piece, Player, Rejection, Square};

fn at(x: i8, y: i8) -> BoardCoordinate {
    BoardCoordinate::new(x, y).unwrap()
}

fn mv(
    player: Player,
    x: i8,
    y: i8,
    direction: Direction,
    first_throw: Direction,
    extra_throws: cotw::ExtraThrows,
) -> Move {
    Move { player, messenger: at(x, y), direction, first_throw, extra_throws }
}

fn bad_throw_2() -> Board {
    Board::from_rows([
        [Empty, Empty, Empty, Empty, Empty, Empty, Empty],
        [Empty, Black(Cylinder), Black(Messenger), Empty, Empty, Empty, Empty],
        [Empty, Empty, Empty, Black(Messenger), Beige(Messenger), Empty, Empty],
        [Empty, Empty, Beige(Messenger), Empty, Beige(Messenger), Empty, Empty],
        [Empty, Empty, Beige(Messenger), Beige(Messenger), Beige(Messenger), Empty, Empty],
        [Empty, Empty, Empty, Empty, Empty, Empty, Empty],
        [Empty, Empty, Empty, Empty, Empty, Empty, Empty],
    ])
}

fn bad_throw_3() -> Board {
    Board::from_rows([
        [Empty, Empty, Beige(Messenger), Beige(Messenger), Beige(Messenger), Empty, Empty],
        [Empty, Black(Cylinder), Black(Messenger), Empty, Black(Messenger), Empty, Empty],
        [Empty, Empty, Empty, Black(Messenger), Beige(Messenger), Empty, Empty],
        [Empty, Empty, Empty, Empty, Empty, Empty, Empty],
        [Empty, Empty, Empty, Empty, Empty, Empty, Empty],
        [Empty, Empty, Empty, Empty, Empty, Empty, Empty],
        [Empty, Empty, Empty, Empty, Empty, Empty, Empty],
    ])
}

fn all_coordinates() -> Vec<BoardCoordinate> {
    let mut r = Vec::new();
    for y in 1..=7 {
        for x in 1..=7 {
            r.push(at(x, y));
        }
    }
    r
}

fn count(board: &Board, keep: impl Fn(Square) -> bool) -> usize {
    all_coordinates().into_iter().filter(|&c| keep(board.get(c))).count()
}

const ALL_DIRECTIONS: [Direction; 16] = [
    Direction::NW2,
    Direction::N2,
    Direction::NE2,
    Direction::NW,
    Direction::N,
    Direction::NE,
    Direction::W2,
    Direction::W,
    Direction::E,
    Direction::E2,
    Direction::SW,
    Direction::S,
    Direction::SE,
    Direction::SW2,
    Direction::S2,
    Direction::SE2,
];

#[test]
fn legal_moves() {
    let game = Game::default();
    for move_ in game.legal_moves() {
        game.attempt_move(&move_.to_move()).unwrap();
    }
}

#[test]
fn coordinates_are_on_the_board() {
    for x in -3..=10 {
        for y in -3..=10 {
            let c = BoardCoordinate::new(x, y);
            let inside = (1..=7).contains(&x) && (1..=7).contains(&y);
            assert_eq!(c.is_some(), inside);
            if let Some(c) = c {
                assert_eq!((c.x(), c.y()), (x, y));
            }
        }
    }
}

#[test]
fn direction_negation_and_reduction() {
    for d in ALL_DIRECTIONS {
        assert_eq!(d.negate().negate(), d);
        assert_eq!(d.unit().unit(), d.unit());
    }
    assert_eq!(Direction::NE2.unit(), Direction::NE);
    assert_eq!(Direction::S.unit(), Direction::S);
    assert_eq!(Direction::NW2.negate(), Direction::SE2);
    assert_eq!(Direction::W.negate(), Direction::E);
}

#[test]
fn adding_directions() {
    assert_eq!(at(4, 4).add_direction(Direction::NE2), Some(at(6, 6)));
    assert_eq!(at(4, 4).add_direction(Direction::W), Some(at(3, 4)));
    assert_eq!(at(1, 4).add_direction(Direction::W), None);
    assert_eq!(at(6, 7).add_direction(Direction::N2), None);
    assert!(at(4, 4).one_away(at(5, 5)));
    assert!(at(4, 4).one_away(at(4, 3)));
    assert!(!at(4, 4).one_away(at(4, 4)));
    assert!(!at(4, 4).one_away(at(6, 4)));
}

#[test]
fn square_predicates() {
    let s = Square::Black(Piece::StunnedMessenger);
    assert!(s.is_players(Player::Black));
    assert!(!s.is_players(Player::Beige));
    assert_eq!(s.player(), Some(Player::Black));
    assert!(s.is_messenger() && s.is_stunned_messenger() && !s.is_unstunned_messenger());
    assert!(!s.is_cylinder() && !s.is_empty());
    assert!(Square::Beige(Piece::Cylinder).is_cylinder());
    assert!(Square::Empty.is_empty());
    assert_eq!(Square::Empty.player(), None);
    assert_eq!(Player::Beige.opponent(), Player::Black);
    assert_eq!(Player::Black.opponent(), Player::Beige);
}

#[test]
fn board_operations() {
    let b = Board::starting();
    assert_eq!(b.get(at(4, 7)), Square::Beige(Piece::Cylinder));
    assert_eq!(b.get(at(4, 1)), Square::Black(Piece::Cylinder));
    let moved = b.move_piece(at(4, 3), at(4, 4));
    assert_eq!(moved.get(at(4, 3)), Square::Empty);
    assert_eq!(moved.get(at(4, 4)), Square::Black(Piece::Messenger));
    let stunned = moved.stun_if_opponents(at(4, 4), Player::Beige);
    assert_eq!(stunned.get(at(4, 4)), Square::Black(Piece::StunnedMessenger));
    assert_eq!(moved.stun_if_opponents(at(4, 4), Player::Black), moved);
    assert_eq!(moved.stun_if_opponents(at(4, 7), Player::Black), moved);
    assert_eq!(stunned.un_stun(Player::Beige), stunned);
    assert_eq!(stunned.un_stun(Player::Black), moved);
}

#[test]
fn starting_position_scenario() {
    let mut game = Game::default();
    let m = mv(Player::Beige, 4, 5, Direction::S, Direction::N, Some((Direction::NE, None)));
    let after = game.attempt_move(&m).unwrap();
    assert_eq!(after.get(at(4, 5)), Square::Empty);
    assert_eq!(after.get(at(4, 4)), Square::Beige(Piece::Messenger));
    assert_eq!(after.get(at(4, 3)), Square::Empty);
    assert_eq!(after.get(at(6, 7)), Square::Black(Piece::StunnedMessenger));
    let start = Board::starting();
    let changed: Vec<BoardCoordinate> = all_coordinates()
        .into_iter()
        .filter(|&c| start.get(c) != after.get(c))
        .collect();
    assert_eq!(changed, vec![at(4, 3), at(4, 4), at(4, 5), at(6, 7)]);
    let legal = LegalMove::from_move(&game, m).unwrap();
    game.make_move(&legal);
    assert_eq!(game.to_move(), Player::Black);
    assert_eq!(game.board(), after);
    let moves = game.legal_moves();
    assert!(!moves.is_empty());
    for l in &moves {
        let origin = game.board().get(l.to_move().messenger);
        assert!(origin.is_players(Player::Black) && origin.is_unstunned_messenger());
        assert_ne!(l.to_move().messenger, at(6, 7));
    }
}

#[test]
fn stunned_messenger_recovers_after_its_owner_moves() {
    let mut game = Game::default();
    let m = mv(Player::Beige, 4, 5, Direction::S, Direction::N, Some((Direction::NE, None)));
    game.make_move(&LegalMove::from_move(&game, m).unwrap());
    let stunned = mv(Player::Black, 6, 7, Direction::S, Direction::S, None);
    assert_eq!(game.check_move(&stunned), Err(Rejection::NotUnstunnedMessenger));
    assert!(game.legal_moves_for(at(6, 7)).is_empty());
    let reply = mv(Player::Black, 4, 2, Direction::N, Direction::NE, None);
    let after_reply = game.attempt_move(&reply).unwrap();
    assert_eq!(after_reply.get(at(6, 7)), Square::Black(Piece::StunnedMessenger));
    game.make_move(&LegalMove::from_move(&game, reply).unwrap());
    assert_eq!(game.board().get(at(6, 7)), Square::Black(Piece::Messenger));
    assert_eq!(game.to_move(), Player::Beige);
}

#[test]
fn pieces_are_conserved() {
    let mut game = Game::default();
    let script = [
        mv(Player::Beige, 3, 6, Direction::S, Direction::SW, None),
        mv(Player::Black, 4, 3, Direction::NW2, Direction::N, None),
        mv(Player::Beige, 5, 6, Direction::W2, Direction::E, Some((Direction::SW, None))),
        mv(Player::Black, 3, 2, Direction::N2, Direction::SE, None),
    ];
    let tally = |b: &Board, p: Player| {
        (
            count(b, |s| s.is_players(p)),
            count(b, |s| s.is_players(p) && s.is_cylinder()),
            count(b, |s| s.is_players(p) && s.is_messenger()),
        )
    };
    for m in script {
        let legal = LegalMove::from_move(&game, m).unwrap();
        game.make_move(&legal);
        for p in [Player::Beige, Player::Black] {
            assert_eq!(tally(&game.board(), p), (5, 1, 4));
        }
    }
}

#[test]
fn generated_moves_revalidate() {
    for game in [
        Game::default(),
        Game::from_position(bad_throw_2(), Player::Black),
        Game::from_position(bad_throw_3(), Player::Black),
    ] {
        for l in game.legal_moves() {
            let first = game.attempt_move(&l.to_move()).unwrap();
            let second = game.attempt_move(&l.to_move()).unwrap();
            assert_eq!(first, second);
            assert!(game.check_move(&l.to_move()).is_ok());
        }
    }
}

#[test]
fn bad_throw_fixtures() {
    let two = Game::from_position(bad_throw_2(), Player::Black);
    let three = Game::from_position(bad_throw_3(), Player::Black);
    assert_eq!((two.legal_moves().len(), three.legal_moves().len()), (35, 49));
}

#[test]
fn slides_stay_on_empty_squares() {
    let game = Game::default();
    let cases = [
        (mv(Player::Beige, 3, 6, Direction::NW2, Direction::N, None), Rejection::SlideOffBoard),
        (mv(Player::Beige, 4, 5, Direction::N, Direction::N, None), Rejection::SlideOntoOccupied),
        (mv(Player::Beige, 4, 6, Direction::S2, Direction::N, None), Rejection::SlideHopsOverPiece),
    ];
    for (m, why) in cases {
        assert_eq!(game.check_move(&m), Err(why));
        assert!(game.attempt_move(&m).is_none());
    }
}

#[test]
fn rejections_on_the_starting_board() {
    let game = Game::default();
    let cases = [
        (mv(Player::Black, 4, 3, Direction::N, Direction::N, None), Rejection::NotPlayersTurn),
        (mv(Player::Beige, 4, 3, Direction::N, Direction::N, None), Rejection::NotPlayersPiece),
        (mv(Player::Beige, 1, 1, Direction::N, Direction::N, None), Rejection::NotPlayersPiece),
        (mv(Player::Beige, 4, 7, Direction::W, Direction::E, None), Rejection::NotUnstunnedMessenger),
        (mv(Player::Beige, 4, 5, Direction::S, Direction::N2, None), Rejection::ThrowNotUnit(1)),
        (mv(Player::Beige, 3, 6, Direction::W2, Direction::E, None), Rejection::ThrowSourceOffBoard(1)),
        (
            mv(Player::Beige, 3, 6, Direction::W2, Direction::W, None),
            Rejection::ThrowDestinationOffBoard(1),
        ),
        (mv(Player::Beige, 4, 5, Direction::S, Direction::S, None), Rejection::ThrowSourceNotThrowable(1)),
        (
            mv(Player::Beige, 4, 5, Direction::S, Direction::N, Some((Direction::W, None))),
            Rejection::ThrowerNotOwnMessenger(2),
        ),
    ];
    for (m, why) in cases {
        assert_eq!(game.check_move(&m), Err(why));
        assert!(LegalMove::from_move(&game, m).is_none());
    }
}

fn edge_board(blocked: bool) -> Board {
    let mut b = Board::empty();
    b.set(at(2, 1), Square::Beige(Piece::Messenger));
    b.set(at(3, 2), Square::Beige(Piece::Cylinder));
    if blocked {
        b.set(at(1, 2), Square::Black(Piece::Cylinder));
    }
    b
}

#[test]
fn throws_at_the_edge() {
    let open = Game::from_position(edge_board(false), Player::Beige);
    let one = mv(Player::Beige, 2, 1, Direction::N, Direction::W, None);
    let after = open.attempt_move(&one).unwrap();
    assert_eq!(after.get(at(1, 2)), Square::Beige(Piece::Cylinder));
    assert_eq!(after.get(at(3, 2)), Square::Empty);
    assert_eq!(after.get(at(2, 2)), Square::Beige(Piece::Messenger));
    let off = mv(Player::Beige, 2, 1, Direction::N, Direction::W, Some((Direction::W, None)));
    assert_eq!(open.check_move(&off), Err(Rejection::ThrowerOffBoard(2)));
    let blocked = Game::from_position(edge_board(true), Player::Beige);
    assert_eq!(blocked.check_move(&one), Err(Rejection::ThrowDestinationOccupied(1)));
}

fn majority_board() -> Board {
    let mut b = Board::empty();
    b.set(at(3, 3), Square::Beige(Piece::Messenger));
    b.set(at(4, 2), Square::Beige(Piece::Cylinder));
    b.set(at(3, 5), Square::Black(Piece::Messenger));
    b.set(at(5, 5), Square::Black(Piece::Messenger));
    b
}

#[test]
fn chain_needs_a_majority() {
    let game = Game::from_position(majority_board(), Player::Beige);
    let one = mv(Player::Beige, 3, 3, Direction::E, Direction::N, None);
    let after = game.attempt_move(&one).unwrap();
    assert_eq!(after.get(at(4, 4)), Square::Beige(Piece::Cylinder));
    for d in [Direction::N, Direction::S, Direction::E, Direction::W, Direction::NE, Direction::SW] {
        let chained = mv(Player::Beige, 3, 3, Direction::E, Direction::N, Some((d, None)));
        assert_eq!(game.check_move(&chained), Err(Rejection::NoSurroundingMajority(2)));
    }
    let moves = game.legal_moves();
    assert!(moves.iter().any(|l| {
        let m = l.to_move();
        m.direction == Direction::E && m.first_throw == Direction::N
    }));
    for l in moves {
        let m = l.to_move();
        if m.direction == Direction::E && m.first_throw == Direction::N {
            assert!(m.extra_throws.is_none());
        }
    }
}

#[test]
fn generation_keeps_one_move_per_fingerprint() {
    let game = Game::default();
    let moves = game.legal_moves();
    let mut keys = Vec::new();
    for l in &moves {
        let m = l.to_move();
        let move_to = m.messenger.add_direction(m.direction).unwrap();
        let throw_from = move_to.add_direction(m.first_throw.negate()).unwrap();
        let mut landing = move_to.add_direction(m.first_throw).unwrap();
        let mut extra = Vec::new();
        if let Some((a, rest)) = m.extra_throws {
            extra.push(a);
            if let Some((b, rest)) = rest {
                extra.push(b);
                if let Some(c) = rest {
                    extra.push(c);
                }
            }
        }
        for d in extra {
            landing = landing.add_direction(d).unwrap().add_direction(d).unwrap();
        }
        let key = (m.messenger, m.direction, throw_from, landing);
        assert!(!keys.contains(&key));
        keys.push(key);
    }
    assert!(moves.iter().all(|l| l.to_move().player == Player::Beige));
}

#[test]
fn no_moves_for_other_squares() {
    let game = Game::default();
    assert!(game.legal_moves_for(at(1, 1)).is_empty());
    assert!(game.legal_moves_for(at(4, 7)).is_empty());
    assert!(game.legal_moves_for(at(4, 3)).is_empty());
    let from_one = game.legal_moves_for(at(4, 5));
    assert!(!from_one.is_empty());
    assert!(from_one.iter().all(|l| l.to_move().messenger == at(4, 5)));
}

#[test]
fn bad_throw_chain_is_refused() {
    let game = Game::from_position(bad_throw_3(), Player::Black);
    let m = mv(
        Player::Black,
        3,
        6,
        Direction::S,
        Direction::SE,
        Some((Direction::N, Some((Direction::E, None)))),
    );
    assert_eq!(game.check_move(&m), Err(Rejection::NoSurroundingMajority(3)));
    let two = mv(Player::Black, 3, 6, Direction::S, Direction::SE, Some((Direction::N, None)));
    assert!(game.check_move(&two).is_ok());
}

fn long_chain_board() -> Board {
    let mut b = bad_throw_3();
    b.set(at(5, 5), Square::Empty);
    b.set(at(5, 7), Square::Empty);
    b
}

#[test]
fn four_throw_chain() {
    let game = Game::from_position(long_chain_board(), Player::Black);
    let four = mv(
        Player::Black,
        3,
        6,
        Direction::S,
        Direction::SE,
        Some((Direction::N, Some((Direction::E, Some(Direction::W))))),
    );
    let after = game.attempt_move(&four).unwrap();
    assert_eq!(after.get(at(3, 6)), Square::Empty);
    assert_eq!(after.get(at(3, 5)), Square::Black(Piece::Messenger));
    assert_eq!(after.get(at(2, 6)), Square::Empty);
    assert_eq!(after.get(at(4, 6)), Square::Black(Piece::Cylinder));
    assert_eq!(after.get(at(6, 6)), Square::Empty);
    assert_eq!(after.get(at(4, 4)), Square::Empty);
    let three = mv(
        Player::Black,
        3,
        6,
        Direction::S,
        Direction::SE,
        Some((Direction::N, Some((Direction::E, None)))),
    );
    assert_eq!(game.attempt_move(&three).unwrap().get(at(6, 6)), Square::Black(Piece::Cylinder));
    let two = mv(Player::Black, 3, 6, Direction::S, Direction::SE, Some((Direction::N, None)));
    assert_eq!(game.attempt_move(&two).unwrap(), after);
}

#[test]
fn equivalent_chains_are_listed_once() {
    let game = Game::from_position(long_chain_board(), Player::Black);
    let moves: Vec<Move> = game.legal_moves_for(at(3, 6)).into_iter().map(|l| l.to_move()).collect();
    let chain = |m: &Move| (m.direction, m.first_throw, m.extra_throws);
    let listed: Vec<_> = moves.iter().map(chain).collect();
    let (s, se, n, e, w) = (Direction::S, Direction::SE, Direction::N, Direction::E, Direction::W);
    assert!(listed.contains(&(s, se, Some((n, None)))));
    assert!(listed.contains(&(s, se, Some((n, Some((e, None)))))));
    assert!(!listed.contains(&(s, se, Some((n, Some((e, Some(w))))))));
}
