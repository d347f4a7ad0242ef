use invaders::frame::{new_frame, Cell, Drawable, Frame};
use invaders::invaders::{Direction, Invader, Invaders, MOVE_FLOOR_MS, MOVE_START_MS};
use invaders::player::Player;
use invaders::{NUM_COLS, NUM_ROWS};
use std::time::Duration;

fn swarm(cols: usize, rows: usize, cells: &[(usize, usize)]) -> Invaders {
    let army: Vec<Invader> = cells.iter().map(|&(x, y)| Invader { x, y }).collect();
    Invaders::with_army(cols, rows, army).unwrap()
}

fn cells(invaders: &Invaders) -> Vec<(usize, usize)> {
    invaders.army().iter().map(|i| (i.x, i.y)).collect()
}

#[test]
fn starting_formation() {
    let invaders = Invaders::new();
    let mut expected: Vec<(usize, usize)> = Vec::new();
    for x in 0..NUM_COLS {
        for y in 0..NUM_ROWS {
            if x > 1 && x < NUM_COLS - 2 && y > 0 && y < 9 && x % 2 == 0 && y % 2 == 0 {
                expected.push((x, y));
            }
        }
    }
    assert_eq!(expected.len(), 72);
    assert_eq!(cells(&invaders), expected);
    assert_eq!(invaders.direction(), Direction::Right);
    assert_eq!(invaders.period_millis(), 2000);
    assert!(!invaders.all_killed());
    assert!(!invaders.reached_bottom());
}

#[test]
fn with_army_rejects_cells_outside_the_grid() {
    assert!(Invaders::with_army(10, 10, vec![Invader { x: 10, y: 0 }]).is_none());
    assert!(Invaders::with_army(10, 10, vec![Invader { x: 0, y: 10 }]).is_none());
    assert!(Invaders::with_army(0, 10, vec![]).is_none());
    assert!(Invaders::with_army(10, 0, vec![]).is_none());
    assert!(Invaders::with_army(10, 10, vec![Invader { x: 9, y: 9 }]).is_some());
}

#[test]
fn nothing_moves_before_the_timer_fires() {
    let mut invaders = swarm(10, 10, &[(4, 2), (6, 3)]);
    assert!(!invaders.update(Duration::from_millis(1999)));
    assert_eq!(cells(&invaders), vec![(4, 2), (6, 3)]);
    assert_eq!(invaders.direction(), Direction::Right);
    assert!(invaders.update(Duration::from_millis(1)));
    assert_eq!(cells(&invaders), vec![(5, 2), (7, 3)]);
}

#[test]
fn timer_starts_over_after_a_step() {
    let mut invaders = swarm(10, 10, &[(4, 2)]);
    assert!(invaders.update(Duration::from_millis(5000)));
    assert!(!invaders.update(Duration::from_millis(1999)));
    assert!(invaders.update(Duration::from_millis(1)));
    assert_eq!(cells(&invaders), vec![(6, 2)]);
}

#[test]
fn side_step_right_shifts_every_column_by_one() {
    let mut invaders = swarm(10, 10, &[(0, 0), (4, 2), (8, 5)]);
    assert!(invaders.update(Duration::from_millis(MOVE_START_MS)));
    assert_eq!(cells(&invaders), vec![(1, 0), (5, 2), (9, 5)]);
    assert_eq!(invaders.direction(), Direction::Right);
    assert_eq!(invaders.period_millis(), 2000);
}

#[test]
fn side_step_left_shifts_every_column_by_one() {
    let mut invaders = swarm(10, 10, &[(9, 0), (4, 2)]);
    assert!(invaders.update(Duration::from_millis(2000)));
    assert_eq!(invaders.direction(), Direction::Left);
    assert_eq!(cells(&invaders), vec![(9, 1), (4, 3)]);
    assert!(invaders.update(Duration::from_millis(1750)));
    assert_eq!(cells(&invaders), vec![(8, 1), (3, 3)]);
    assert_eq!(invaders.direction(), Direction::Left);
    assert_eq!(invaders.period_millis(), 1750);
}

#[test]
fn descent_at_the_right_boundary() {
    let mut invaders = swarm(10, 10, &[(9, 2), (3, 4), (9, 0)]);
    assert_eq!(invaders.extreme_column(), Some(9));
    assert!(invaders.at_edge());
    assert!(invaders.update(Duration::from_millis(2000)));
    assert_eq!(invaders.direction(), Direction::Left);
    assert_eq!(cells(&invaders), vec![(9, 3), (3, 5), (9, 1)]);
    assert_eq!(invaders.period_millis(), 1750);
}

#[test]
fn descent_at_the_left_boundary() {
    let mut invaders = swarm(3, 10, &[(1, 0)]);
    assert!(invaders.update(Duration::from_millis(2000)));
    assert_eq!(cells(&invaders), vec![(2, 0)]);
    assert!(invaders.update(Duration::from_millis(2000)));
    assert_eq!(cells(&invaders), vec![(2, 1)]);
    assert_eq!(invaders.direction(), Direction::Left);
    assert!(invaders.update(Duration::from_millis(2000)));
    assert!(invaders.update(Duration::from_millis(2000)));
    assert_eq!(cells(&invaders), vec![(0, 1)]);
    assert_eq!(invaders.extreme_column(), Some(0));
    assert!(invaders.update(Duration::from_millis(2000)));
    assert_eq!(cells(&invaders), vec![(0, 2)]);
    assert_eq!(invaders.direction(), Direction::Right);
    assert_eq!(invaders.period_millis(), 1500);
}

#[test]
fn period_shrinks_down_to_its_floor() {
    let mut invaders = swarm(1, 20, &[(0, 0)]);
    let expected: [u64; 10] = [1750, 1500, 1250, 1000, 750, 500, 250, 250, 250, 250];
    let mut last = invaders.period_millis();
    assert_eq!(last, MOVE_START_MS);
    for (step, period) in expected.iter().enumerate() {
        assert!(invaders.update(Duration::from_millis(2000)));
        assert_eq!(invaders.period_millis(), *period);
        assert!(invaders.period_millis() <= last);
        assert!(invaders.period_millis() >= MOVE_FLOOR_MS);
        last = invaders.period_millis();
        assert_eq!(cells(&invaders), vec![(0, step + 1)]);
    }
}

#[test]
fn empty_swarm_steps_without_change() {
    let mut invaders = swarm(10, 10, &[]);
    assert_eq!(invaders.extreme_column(), None);
    assert!(!invaders.at_edge());
    assert!(invaders.update(Duration::from_millis(2000)));
    assert_eq!(invaders.direction(), Direction::Right);
    assert_eq!(invaders.period_millis(), 2000);
    assert!(cells(&invaders).is_empty());
    assert!(invaders.all_killed());
}

#[test]
fn extreme_column_follows_the_direction() {
    let mut invaders = swarm(10, 10, &[(4, 1), (9, 2), (2, 3)]);
    assert_eq!(invaders.extreme_column(), Some(9));
    assert!(invaders.update(Duration::from_millis(2000)));
    assert_eq!(invaders.direction(), Direction::Left);
    assert_eq!(invaders.extreme_column(), Some(2));
    assert!(!invaders.at_edge());
}

#[test]
fn win_iff_swarm_is_empty() {
    assert!(swarm(10, 10, &[]).all_killed());
    assert!(!swarm(10, 10, &[(0, 0)]).all_killed());
    let mut invaders = swarm(10, 10, &[(3, 3)]);
    assert!(invaders.kill_invader_at(3, 3));
    assert!(invaders.all_killed());
}

#[test]
fn lose_iff_an_invader_is_in_the_player_row() {
    let player = Player::on_grid(10, 10).unwrap();
    assert_eq!(player.y(), 9);
    assert!(!swarm(10, 10, &[]).reached_bottom());
    assert!(!swarm(10, 10, &[(0, 8), (5, 0)]).reached_bottom());
    assert!(swarm(10, 10, &[(0, 8), (5, 9)]).reached_bottom());
    let mut invaders = swarm(1, 3, &[(0, 0)]);
    assert!(!invaders.reached_bottom());
    assert!(invaders.update(Duration::from_millis(2000)));
    assert!(!invaders.reached_bottom());
    assert!(invaders.update(Duration::from_millis(2000)));
    assert!(invaders.reached_bottom());
}

#[test]
fn kill_removes_the_first_invader_in_the_cell() {
    let mut invaders = swarm(10, 10, &[(1, 1), (2, 2), (1, 1), (3, 3)]);
    assert!(!invaders.kill_invader_at(5, 5));
    assert_eq!(cells(&invaders), vec![(1, 1), (2, 2), (1, 1), (3, 3)]);
    assert!(invaders.kill_invader_at(2, 2));
    assert_eq!(cells(&invaders), vec![(1, 1), (1, 1), (3, 3)]);
    assert!(invaders.kill_invader_at(1, 1));
    assert_eq!(cells(&invaders), vec![(1, 1), (3, 3)]);
}

#[test]
fn collision_removes_shot_and_invader_in_the_same_cell() {
    let mut player = Player::on_grid(10, 10).unwrap();
    assert!(player.place_shot(4, 2));
    assert!(player.place_shot(7, 7));
    let mut invaders = swarm(10, 10, &[(3, 2), (4, 2), (7, 6)]);
    assert!(player.detect_hits(&mut invaders));
    assert_eq!(player.shot_cells(), vec![(7, 7)]);
    assert_eq!(cells(&invaders), vec![(3, 2), (7, 6)]);
    assert!(!player.detect_hits(&mut invaders));
    assert_eq!(player.shot_cells(), vec![(7, 7)]);
    assert_eq!(cells(&invaders), vec![(3, 2), (7, 6)]);
}

#[test]
fn collision_with_different_cells_keeps_both() {
    let mut player = Player::on_grid(10, 10).unwrap();
    assert!(player.place_shot(4, 2));
    let mut invaders = swarm(10, 10, &[(4, 3), (5, 2)]);
    assert!(!player.detect_hits(&mut invaders));
    assert_eq!(player.shot_cells(), vec![(4, 2)]);
    assert_eq!(cells(&invaders), vec![(4, 3), (5, 2)]);
}

#[test]
fn collision_without_shots_or_invaders_is_a_no_op() {
    let mut player = Player::on_grid(10, 10).unwrap();
    let mut invaders = swarm(10, 10, &[(4, 3), (5, 2)]);
    assert!(!player.detect_hits(&mut invaders));
    assert_eq!(player.live_shots(), 0);
    assert_eq!(cells(&invaders), vec![(4, 3), (5, 2)]);
    assert!(player.place_shot(4, 3));
    let mut nobody = swarm(10, 10, &[]);
    assert!(!player.detect_hits(&mut nobody));
    assert_eq!(player.shot_cells(), vec![(4, 3)]);
    assert!(nobody.all_killed());
}

#[test]
fn one_shot_removes_one_invader() {
    let mut player = Player::on_grid(10, 10).unwrap();
    assert!(player.place_shot(4, 2));
    let mut invaders = swarm(10, 10, &[(4, 2), (1, 1), (4, 2)]);
    assert!(player.detect_hits(&mut invaders));
    assert_eq!(player.live_shots(), 0);
    assert_eq!(cells(&invaders), vec![(1, 1), (4, 2)]);
}

#[test]
fn two_shots_in_one_cell_and_one_invader() {
    let mut player = Player::on_grid(10, 10).unwrap();
    assert!(player.place_shot(4, 2));
    assert!(player.place_shot(4, 2));
    let mut invaders = swarm(10, 10, &[(4, 2)]);
    assert!(player.detect_hits(&mut invaders));
    assert_eq!(player.shot_cells(), vec![(4, 2)]);
    assert!(invaders.all_killed());
}

#[test]
fn last_invader_is_shot_and_the_session_is_won() {
    let mut invaders = swarm(10, 10, &[(4, 2)]);
    assert_eq!(invaders.direction(), Direction::Right);
    let mut player = Player::on_grid(10, 10).unwrap();
    assert_eq!((player.x(), player.y()), (5, 9));
    assert!(player.place_shot(4, 2));
    assert!(player.detect_hits(&mut invaders));
    assert!(cells(&invaders).is_empty());
    assert!(invaders.all_killed());
    assert_eq!(player.live_shots(), 0);
}

#[test]
fn swarm_turns_round_at_the_last_column() {
    let before = [(9, 1), (7, 1), (5, 3), (9, 5)];
    let mut invaders = swarm(10, 10, &before);
    assert_eq!(invaders.direction(), Direction::Right);
    assert!(invaders.update(Duration::from_millis(2000)));
    assert_eq!(invaders.direction(), Direction::Left);
    let after = cells(&invaders);
    assert_eq!(after.len(), before.len());
    for (old, new) in before.iter().zip(after.iter()) {
        assert_eq!(new.0, old.0);
        assert_eq!(new.1, old.1 + 1);
    }
}

#[test]
fn swarm_pulses_between_two_glyphs() {
    let mut invaders = swarm(4, 4, &[(1, 1), (2, 3)]);
    let mut frame = Frame::with_size(4, 4);
    invaders.draw(&mut frame);
    assert_eq!(frame.get(1, 1), Cell::InvaderBright);
    assert_eq!(frame.get(2, 3), Cell::InvaderBright);
    assert_eq!(frame.get(0, 0), Cell::Empty);
    assert!(!invaders.update(Duration::from_millis(999)));
    let mut frame = Frame::with_size(4, 4);
    invaders.draw(&mut frame);
    assert_eq!(frame.get(1, 1), Cell::InvaderBright);
    assert!(!invaders.update(Duration::from_millis(1)));
    let mut frame = Frame::with_size(4, 4);
    invaders.draw(&mut frame);
    assert_eq!(frame.get(1, 1), Cell::InvaderDim);
    assert_eq!(frame.get(2, 3), Cell::InvaderDim);
    for x in 0..4 {
        for y in 0..4 {
            if (x, y) != (1, 1) && (x, y) != (2, 3) {
                assert_eq!(frame.get(x, y), Cell::Empty);
            }
        }
    }
}

#[test]
fn invaders_are_drawn_over_the_player() {
    let player = Player::on_grid(3, 3).unwrap();
    let invaders = swarm(3, 3, &[(1, 2)]);
    let mut frame = Frame::with_size(3, 3);
    player.draw(&mut frame);
    assert_eq!(frame.get(1, 2), Cell::Player);
    invaders.draw(&mut frame);
    assert_eq!(frame.get(1, 2), Cell::InvaderBright);
}

#[test]
fn default_session_draws_into_default_frame() {
    let player = Player::new();
    let invaders = Invaders::new();
    let mut frame = new_frame();
    player.draw(&mut frame);
    invaders.draw(&mut frame);
    let mut bright = 0;
    for x in 0..NUM_COLS {
        for y in 0..NUM_ROWS {
            if frame.get(x, y) == Cell::InvaderBright {
                bright += 1;
            }
        }
    }
    assert_eq!(bright, 72);
    assert_eq!(frame.get(20, 19), Cell::Player);
}
