use invaders::frame::{new_frame, Cell, Change, Frame};
use invaders::game::{Command, Cue, Game, Status};
use invaders::invaders::{Direction, Invader};
use invaders::{NUM_COLS, NUM_ROWS};
use std::time::Duration;

fn game(cols: usize, rows: usize, cells: &[(usize, usize)]) -> Game {
    let army: Vec<Invader> = cells.iter().map(|&(x, y)| Invader { x, y }).collect();
    Game::on_grid(cols, rows, army).unwrap()
}

fn army(game: &Game) -> Vec<(usize, usize)> {
    game.invaders().army().iter().map(|i| (i.x, i.y)).collect()
}

#[test]
fn new_game_is_running() {
    let game = Game::new();
    assert_eq!(game.status(), Status::Running);
    assert_eq!(game.player().x(), NUM_COLS / 2);
    assert_eq!(game.player().y(), NUM_ROWS - 1);
    assert_eq!(game.invaders().army().len(), 72);
}

#[test]
fn on_grid_checks_its_arguments() {
    assert!(Game::on_grid(0, 10, vec![]).is_none());
    assert!(Game::on_grid(10, 1, vec![]).is_none());
    assert!(Game::on_grid(10, 10, vec![Invader { x: 10, y: 0 }]).is_none());
    assert!(Game::on_grid(10, 10, vec![Invader { x: 0, y: 10 }]).is_none());
    assert_eq!(game(10, 10, &[]).status(), Status::Won);
    assert_eq!(game(10, 10, &[(0, 9)]).status(), Status::Lost);
    assert_eq!(game(10, 10, &[(0, 8)]).status(), Status::Running);
}

#[test]
fn commands_move_and_fire() {
    let mut game = game(10, 10, &[(4, 2)]);
    assert_eq!(game.apply(Command::MoveLeft), None);
    assert_eq!(game.player().x(), 4);
    assert_eq!(game.apply(Command::MoveRight), None);
    assert_eq!(game.apply(Command::MoveRight), None);
    assert_eq!(game.player().x(), 6);
    assert_eq!(game.apply(Command::Fire), Some(Cue::Pew));
    assert_eq!(game.apply(Command::Fire), Some(Cue::Pew));
    assert_eq!(game.apply(Command::Fire), None);
    assert_eq!(game.player().shot_cells(), vec![(6, 8), (6, 8)]);
    assert_eq!(game.status(), Status::Running);
}

#[test]
fn quit_aborts_and_later_commands_are_ignored() {
    let mut game = game(10, 10, &[(4, 2)]);
    assert_eq!(game.apply(Command::Quit), Some(Cue::Lose));
    assert_eq!(game.status(), Status::Aborted);
    assert_eq!(game.apply(Command::MoveLeft), None);
    assert_eq!(game.apply(Command::Fire), None);
    assert_eq!(game.apply(Command::Quit), None);
    assert_eq!(game.player().x(), 5);
    assert_eq!(game.player().live_shots(), 0);
    let report = game.tick(Duration::from_millis(2000));
    assert!(!report.stepped);
    assert!(!report.hit);
    assert_eq!(report.status, Status::Aborted);
    assert_eq!(army(&game), vec![(4, 2)]);
    assert!(report.cues().is_empty());
}

#[test]
fn tick_steps_the_swarm_and_reports_the_cue() {
    let mut game = game(10, 10, &[(4, 2)]);
    let report = game.tick(Duration::from_millis(100));
    assert!(!report.stepped);
    assert!(report.cues().is_empty());
    let report = game.tick(Duration::from_millis(1900));
    assert!(report.stepped);
    assert!(!report.hit);
    assert_eq!(report.status, Status::Running);
    assert_eq!(report.cues(), vec![Cue::Move]);
    assert_eq!(army(&game), vec![(5, 2)]);
    assert_eq!(report.frame.get(5, 2), Cell::InvaderBright);
    assert_eq!(report.frame.get(4, 2), Cell::Empty);
    assert_eq!(report.frame.get(5, 9), Cell::Player);
}

#[test]
fn tick_resolves_a_hit_and_wins() {
    let mut game = game(3, 3, &[(1, 0)]);
    assert_eq!(game.apply(Command::Fire), Some(Cue::Pew));
    assert_eq!(game.player().shot_cells(), vec![(1, 1)]);
    let first = game.tick(Duration::from_millis(10));
    assert!(!first.hit);
    assert_eq!(first.frame.get(1, 1), Cell::Shot);
    assert_eq!(first.frame.get(1, 0), Cell::InvaderBright);
    assert_eq!(first.frame.get(1, 2), Cell::Player);
    let mut other = Game::on_grid(3, 3, vec![Invader { x: 1, y: 1 }]).unwrap();
    assert_eq!(other.apply(Command::Fire), Some(Cue::Pew));
    let report = other.tick(Duration::from_millis(10));
    assert!(report.hit);
    assert!(!report.stepped);
    assert_eq!(report.status, Status::Won);
    assert_eq!(other.status(), Status::Won);
    assert_eq!(report.cues(), vec![Cue::Explode, Cue::Win]);
    assert!(other.invaders().all_killed());
    assert_eq!(other.player().live_shots(), 0);
    assert_eq!(report.frame.get(1, 1), Cell::Empty);
}

#[test]
fn expired_shot_hits_nothing() {
    let mut game = game(3, 3, &[(1, 1)]);
    assert_eq!(game.apply(Command::Fire), Some(Cue::Pew));
    let report = game.tick(Duration::from_millis(50));
    assert!(!report.hit);
    assert_eq!(game.player().live_shots(), 0);
    assert_eq!(army(&game), vec![(1, 1)]);
    assert_eq!(report.status, Status::Running);
}

#[test]
fn swarm_reaching_the_player_row_loses() {
    let mut game = game(1, 3, &[(0, 0)]);
    let report = game.tick(Duration::from_millis(2000));
    assert_eq!(report.status, Status::Running);
    assert_eq!(game.invaders().direction(), Direction::Left);
    let report = game.tick(Duration::from_millis(2000));
    assert!(report.stepped);
    assert_eq!(report.status, Status::Lost);
    assert_eq!(report.cues(), vec![Cue::Move, Cue::Lose]);
    assert_eq!(army(&game), vec![(0, 2)]);
    assert_eq!(report.frame.get(0, 2), Cell::InvaderBright);
    let again = game.tick(Duration::from_millis(2000));
    assert!(!again.stepped);
    assert_eq!(again.status, Status::Lost);
    assert_eq!(army(&game), vec![(0, 2)]);
}

#[test]
fn draw_shows_player_under_invaders() {
    let game = Game::new();
    let frame = game.draw();
    assert_eq!(frame.cols(), NUM_COLS);
    assert_eq!(frame.rows(), NUM_ROWS);
    assert_eq!(frame.get(20, 19), Cell::Player);
    assert_eq!(frame.get(2, 2), Cell::InvaderBright);
    assert_eq!(frame.get(36, 8), Cell::InvaderBright);
    assert_eq!(frame.get(38, 8), Cell::Empty);
    assert_eq!(frame.get(3, 2), Cell::Empty);
}

#[test]
fn changes_lists_the_cells_that_differ() {
    let last = Frame::with_size(3, 2);
    let mut current = Frame::with_size(3, 2);
    current.set(2, 0, Cell::Shot);
    current.set(0, 1, Cell::Player);
    assert_eq!(
        current.changes(&last, false),
        vec![
            Change { x: 0, y: 1, cell: Cell::Player },
            Change { x: 2, y: 0, cell: Cell::Shot },
        ]
    );
    assert_eq!(
        last.changes(&current, false),
        vec![
            Change { x: 0, y: 1, cell: Cell::Empty },
            Change { x: 2, y: 0, cell: Cell::Empty },
        ]
    );
    assert!(current.changes(&current, false).is_empty());
}

#[test]
fn forced_changes_list_every_cell() {
    let frame = new_frame();
    let changes = frame.changes(&frame, true);
    assert_eq!(changes.len(), NUM_COLS * NUM_ROWS);
    assert_eq!(changes[0], Change { x: 0, y: 0, cell: Cell::Empty });
    assert_eq!(changes[1], Change { x: 0, y: 1, cell: Cell::Empty });
    assert_eq!(changes[NUM_ROWS], Change { x: 1, y: 0, cell: Cell::Empty });
    let last = changes[changes.len() - 1];
    assert_eq!((last.x, last.y), (NUM_COLS - 1, NUM_ROWS - 1));
}

#[test]
fn painter_paints_the_first_frame_in_full_and_then_only_changes() {
    let mut painter = invaders::frame::Painter::new();
    let first = painter.paint(Frame::with_size(3, 2));
    assert_eq!(first.len(), 6);
    assert_eq!(first[0], Change { x: 0, y: 0, cell: Cell::Empty });
    assert_eq!(first[5], Change { x: 2, y: 1, cell: Cell::Empty });
    let mut next = Frame::with_size(3, 2);
    next.set(1, 1, Cell::Player);
    let second = painter.paint(next);
    assert_eq!(second, vec![Change { x: 1, y: 1, cell: Cell::Player }]);
    let mut same = Frame::with_size(3, 2);
    same.set(1, 1, Cell::Player);
    assert!(painter.paint(same).is_empty());
    let third = painter.paint(Frame::with_size(3, 2));
    assert_eq!(third, vec![Change { x: 1, y: 1, cell: Cell::Empty }]);
    let resized = painter.paint(Frame::with_size(2, 2));
    assert_eq!(resized.len(), 4);
}

#[test]
fn commands_of_one_tick_are_applied_in_order() {
    let mut game = game(10, 10, &[(4, 2)]);
    let cues = game.apply_all(&vec![
        Command::MoveLeft,
        Command::Fire,
        Command::MoveLeft,
        Command::Fire,
        Command::Fire,
        Command::MoveRight,
    ]);
    assert_eq!(cues, vec![Cue::Pew, Cue::Pew]);
    assert_eq!(game.player().x(), 4);
    assert_eq!(game.player().shot_cells(), vec![(4, 8), (3, 8)]);
    assert_eq!(game.status(), Status::Running);
    assert!(game.apply_all(&vec![]).is_empty());
}

#[test]
fn commands_after_a_quit_are_ignored() {
    let mut game = game(10, 10, &[(4, 2)]);
    let cues = game.apply_all(&vec![Command::MoveLeft, Command::Quit, Command::MoveLeft, Command::Fire]);
    assert_eq!(cues, vec![Cue::Lose]);
    assert_eq!(game.player().x(), 4);
    assert_eq!(game.player().live_shots(), 0);
    assert_eq!(game.status(), Status::Aborted);
}
