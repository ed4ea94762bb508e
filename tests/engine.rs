use snakes_n_ladders::board::{Board, Kind, Tile, CELLS, STANDARD_COUNT, WIN_CELL};
use snakes_n_ladders::game::{Config, ConfigError, GameState, Mode, NewGameError, Player, Rgb};
use snakes_n_ladders::rng::GameRng;

fn red() -> Rgb {
    Rgb { r: 255, g: 0, b: 0 }
}

fn at(name: &str, position: usize) -> Player {
    Player { name: String::from(name), position, color: red() }
}

fn game(board: Board, positions: &[usize], mode: Mode) -> GameState {
    let names = ["A", "B", "C", "D", "E"];
    let players: Vec<Player> =
        positions.iter().enumerate().map(|(i, p)| at(names[i], *p)).collect();
    GameState::from_parts(board, players, mode).unwrap()
}

fn positions(g: &GameState) -> Vec<usize> {
    g.players().iter().map(|p| p.position).collect()
}

fn config(n: usize) -> Config {
    let players = (0..n).map(|i| at(&format!("player{}", i), 0)).collect();
    Config { players, possible_players: Vec::new(), game_type: Mode::Bump }
}

fn count(board: &Board, snakes: bool) -> usize {
    (0..CELLS)
        .filter(|&i| match board.tile(i) {
            Tile::Snake(_) => snakes,
            Tile::Ladder(_) => !snakes,
            _ => false,
        })
        .count()
}

fn check_board(board: &Board, snakes: usize, ladders: usize) {
    assert_eq!(count(board, true), snakes);
    assert_eq!(count(board, false), ladders);
    assert_eq!(board.tile(WIN_CELL), Tile::Target);
    let mut exits = Vec::new();
    for i in 0..CELLS {
        match board.tile(i) {
            Tile::Snake(e) => {
                assert!(e / 10 < i / 10);
                assert_eq!(board.tile(e), Tile::Target);
                assert!(e != WIN_CELL);
                exits.push(e);
            }
            Tile::Ladder(e) => {
                assert!(e / 10 > i / 10);
                assert_eq!(board.tile(e), Tile::Target);
                assert!(e != WIN_CELL);
                exits.push(e);
            }
            _ => {}
        }
    }
    for c in 0..WIN_CELL {
        if board.tile(c) == Tile::Target {
            assert!(exits.contains(&c));
        }
    }
    let n = exits.len();
    exits.sort();
    exits.dedup();
    assert_eq!(exits.len(), n);
}

#[test]
fn generated_boards_hold_their_counts_and_never_overlap() {
    for seed in 0..50u64 {
        let mut rng = GameRng::from_seed(seed);
        let board = Board::new(&mut rng).unwrap();
        check_board(&board, STANDARD_COUNT, STANDARD_COUNT);
    }
}

#[test]
fn generation_is_deterministic_for_a_seed() {
    let a = Board::new(&mut GameRng::from_seed(7)).unwrap();
    let b = Board::new(&mut GameRng::from_seed(7)).unwrap();
    for i in 0..CELLS {
        assert_eq!(a.tile(i), b.tile(i));
    }
}

#[test]
fn generation_fails_when_the_board_cannot_hold_the_request() {
    let mut rng = GameRng::from_seed(3);
    assert!(Board::generate(&mut rng, 60, 0).is_err());
}

#[test]
fn generation_of_nothing_gives_an_empty_board() {
    let mut rng = GameRng::from_seed(3);
    let board = Board::generate(&mut rng, 0, 0).unwrap();
    check_board(&board, 0, 0);
    for c in 0..WIN_CELL {
        assert_eq!(board.tile(c), Tile::Empty);
    }
}

#[test]
fn place_checks_cells_and_direction() {
    let mut board = Board::empty();
    assert!(!board.place(Kind::Snake, 12, 40));
    assert!(!board.place(Kind::Ladder, 40, 12));
    assert!(!board.place(Kind::Snake, 40, 45));
    assert!(!board.place(Kind::Snake, 100, 12));
    assert!(board.place(Kind::Snake, 40, 12));
    assert_eq!(board.tile(40), Tile::Snake(12));
    assert_eq!(board.tile(12), Tile::Target);
    assert!(!board.place(Kind::Ladder, 12, 80));
    assert!(!board.place(Kind::Snake, 50, 12));
    assert!(board.place(Kind::Ladder, 3, 80));
    check_board(&board, 1, 1);
}

#[test]
fn bump_sends_the_occupant_home() {
    let mut g = game(Board::empty(), &[50, 52], Mode::Bump);
    g.apply_roll(2);
    assert_eq!(positions(&g), vec![52, 0]);
    assert_eq!(g.current_turn(), 1);
    assert_eq!(g.dice_value(), 2);
}

#[test]
fn bump_sends_every_occupant_home() {
    let mut g = game(Board::empty(), &[50, 52, 52, 30], Mode::Bump);
    g.apply_roll(2);
    assert_eq!(positions(&g), vec![52, 0, 0, 30]);
}

#[test]
fn swap_trades_places() {
    let mut g = game(Board::empty(), &[10, 13], Mode::Swap);
    g.apply_roll(3);
    assert_eq!(positions(&g), vec![13, 10]);
}

#[test]
fn swap_trades_with_the_first_occupant_only() {
    let mut g = game(Board::empty(), &[20, 10, 13, 13], Mode::Swap);
    g.apply_roll(4);
    g.apply_roll(3);
    assert_eq!(positions(&g), vec![24, 13, 10, 13]);
}

#[test]
fn friendly_players_share_cells() {
    let mut g = game(Board::empty(), &[10, 13], Mode::Friendly);
    g.apply_roll(3);
    assert_eq!(positions(&g), vec![13, 13]);
}

#[test]
fn snake_leads_down() {
    let mut board = Board::empty();
    assert!(board.place(Kind::Snake, 40, 12));
    let mut g = game(board, &[36, 0], Mode::Friendly);
    g.apply_roll(4);
    assert_eq!(positions(&g), vec![12, 0]);
}

#[test]
fn ladder_leads_up() {
    let mut board = Board::empty();
    assert!(board.place(Kind::Ladder, 5, 77));
    let mut g = game(board, &[1, 0], Mode::Friendly);
    g.apply_roll(4);
    assert_eq!(positions(&g), vec![77, 0]);
}

#[test]
fn ranking_keeps_list_order_on_ties() {
    let g = game(Board::empty(), &[30, 55, 30], Mode::Friendly);
    assert_eq!(g.ranking(), vec![(1, 1), (2, 0), (3, 2)]);
}

#[test]
fn ranking_orders_by_progress() {
    let g = game(Board::empty(), &[3, 70, 12, 99], Mode::Friendly);
    assert_eq!(g.ranking(), vec![(1, 3), (2, 1), (3, 2), (4, 0)]);
}

#[test]
fn exact_landing_on_the_last_cell_wins() {
    let mut g = game(Board::empty(), &[95, 99], Mode::Bump);
    g.apply_roll(4);
    assert!(g.ended());
    assert_eq!(positions(&g), vec![99, 99]);
    assert_eq!(g.current_turn(), 1);
}

#[test]
fn overshoot_stays_put() {
    let mut g = game(Board::empty(), &[97, 10], Mode::Friendly);
    g.apply_roll(5);
    assert_eq!(positions(&g), vec![97, 10]);
    assert!(!g.ended());
    assert_eq!(g.current_turn(), 1);
}

#[test]
fn a_six_keeps_the_turn() {
    let mut g = game(Board::empty(), &[0, 0, 0], Mode::Friendly);
    g.apply_roll(6);
    assert_eq!(g.current_turn(), 0);
    assert_eq!(positions(&g), vec![6, 0, 0]);
    g.apply_roll(6);
    assert_eq!(g.current_turn(), 0);
}

#[test]
fn turns_cycle_in_list_order() {
    let mut g = game(Board::empty(), &[0, 0, 0], Mode::Friendly);
    let mut seen = Vec::new();
    for _ in 0..6 {
        seen.push(g.current_turn());
        g.apply_roll(1);
    }
    assert_eq!(seen, vec![0, 1, 2, 0, 1, 2]);
}

#[test]
fn an_ended_game_does_not_change() {
    let mut g = game(Board::empty(), &[98, 3], Mode::Friendly);
    g.apply_roll(1);
    assert!(g.ended());
    let before = positions(&g);
    let turn = g.current_turn();
    let mut rng = GameRng::from_seed(11);
    for _ in 0..5 {
        g.roll_turn(&mut rng);
    }
    assert_eq!(positions(&g), before);
    assert_eq!(g.current_turn(), turn);
    assert_eq!(g.dice_value(), 1);
    assert!(g.ended());
}

#[test]
fn roll_turn_throws_one_to_six() {
    let mut g = game(Board::empty(), &[0, 0], Mode::Friendly);
    let mut rng = GameRng::from_seed(5);
    for _ in 0..10 {
        g.roll_turn(&mut rng);
        assert!((1..=6).contains(&g.dice_value()));
    }
}

#[test]
fn die_and_below_stay_in_range() {
    let mut rng = GameRng::from_seed(9);
    let mut faces = [false; 7];
    let mut drawn = [false; 3];
    for _ in 0..500 {
        let d = rng.die();
        assert!((1..=6).contains(&d));
        faces[d as usize] = true;
        let v = rng.below(10, 13);
        assert!((10..13).contains(&v));
        drawn[v - 10] = true;
    }
    assert!(faces[1..].iter().all(|f| *f));
    assert!(drawn.iter().all(|f| *f));
}

#[test]
fn new_game_starts_everyone_on_cell_zero() {
    let mut c = config(3);
    c.players[1].position = 40;
    let g = GameState::new_game(&c, &mut GameRng::from_seed(1)).unwrap();
    assert_eq!(positions(&g), vec![0, 0, 0]);
    assert_eq!(g.players()[1].name, "player1");
    assert_eq!(g.current_turn(), 0);
    assert_eq!(g.dice_value(), 0);
    assert!(!g.ended());
    assert_eq!(g.mode(), Mode::Bump);
    check_board(g.board(), STANDARD_COUNT, STANDARD_COUNT);
}

#[test]
fn new_game_rejects_bad_player_counts() {
    let mut rng = GameRng::from_seed(1);
    for n in [0, 1, 5] {
        assert!(matches!(
            GameState::new_game(&config(n), &mut rng),
            Err(NewGameError::Config(ConfigError::PlayerCount))
        ));
    }
    for n in 2..=4 {
        assert!(GameState::new_game(&config(n), &mut rng).is_ok());
    }
}

#[test]
fn new_game_rejects_bad_names() {
    let mut rng = GameRng::from_seed(1);
    let mut c = config(4);
    c.players[2].name = String::new();
    c.players[3].name = "x".repeat(26);
    assert!(matches!(
        GameState::new_game(&c, &mut rng),
        Err(NewGameError::Config(ConfigError::Name(2)))
    ));
    c.players[2].name = "é".repeat(25);
    assert!(matches!(
        GameState::new_game(&c, &mut rng),
        Err(NewGameError::Config(ConfigError::Name(3)))
    ));
    c.players[3].name = "x".repeat(25);
    assert!(GameState::new_game(&c, &mut rng).is_ok());
}

#[test]
fn from_parts_rejects_players_off_the_board() {
    let players = vec![at("A", 3), at("B", 100), at("C", 200)];
    assert!(matches!(
        GameState::from_parts(Board::empty(), players, Mode::Swap),
        Err(ConfigError::Position(1))
    ));
}

#[test]
fn mode_labels_and_default() {
    assert_eq!(Mode::Friendly.label(), "Friendly");
    assert_eq!(Mode::Bump.label(), "Bump");
    assert_eq!(Mode::Swap.label(), "Swap");
    assert_eq!(Mode::default(), Mode::Friendly);
    assert_eq!(Config::default().game_type, Mode::Friendly);
}

#[test]
fn player_new_starts_at_zero() {
    let p = Player::new(String::from("ann"), red());
    assert_eq!(p.position, 0);
    assert_eq!(p.name, "ann");
}
