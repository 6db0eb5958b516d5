use ultra_crustaceous::input::Input;
use ultra_crustaceous::snake::{SnakeGame, State};
use ultra_crustaceous::tile::TilePos;

const NONE: u8 = 0;
const UP: u8 = 1 << 0;
const DOWN: u8 = 1 << 1;
const LEFT: u8 = 1 << 2;
const RIGHT: u8 = 1 << 3;

fn run_ticks(game: &mut SnakeGame, ticks: u64, bits: u8) {
    for _ in 0..ticks {
        game.update(Input::from_bits_truncate(bits), Input::from_bits_truncate(NONE));
    }
}

#[test]
fn input_reduction() {
    let both = Input::from_bits_truncate(LEFT | RIGHT);
    assert_eq!(both.x(), 0);

    let up = Input::from_bits_truncate(UP);
    assert_eq!(up.y(), 1);

    let left = Input::from_bits_truncate(LEFT);
    assert_eq!(left.x(), -1);

    let down = Input::from_bits_truncate(DOWN);
    assert_eq!(down.y(), -1);

    // unrecognized bits are dropped, not rejected
    let junk = Input::from_bits_truncate(0b1100_0000);
    assert_eq!(junk, Input::from_bits_truncate(NONE));
}

#[test]
fn either_controller_can_steer() {
    let mut game = SnakeGame::default();
    // the steering press arrives on the second controller
    game.update(Input::from_bits_truncate(NONE), Input::from_bits_truncate(RIGHT));
    let d = game.direction();
    assert_eq!((d.x, d.y), (1, 0));
}

#[test]
fn first_steer_adopts_up_and_rejects_reversal() {
    let mut game = SnakeGame::default();
    assert_eq!((game.direction().x, game.direction().y), (0, 0));

    run_ticks(&mut game, 5, UP);
    let d = game.direction();
    assert_eq!((d.x, d.y), (0, 1));
    // one step has run: the head moved one tile up from the center
    assert_eq!(game.head_pos(), TilePos { x: 12, y: 11 });

    // the exact opposite is rejected, the direction stays up
    run_ticks(&mut game, 1, DOWN);
    let d = game.direction();
    assert_eq!((d.x, d.y), (0, 1));

    // a diagonal press is ignored too
    run_ticks(&mut game, 1, UP | LEFT);
    let d = game.direction();
    assert_eq!((d.x, d.y), (0, 1));
}

#[test]
fn movement_waits_for_the_step_gate() {
    let mut game = SnakeGame::default();
    run_ticks(&mut game, 4, UP);
    // the direction is adopted at once, but no step has run yet
    assert_eq!((game.direction().x, game.direction().y), (0, 1));
    assert_eq!(game.head_pos(), TilePos { x: 12, y: 10 });
    assert_eq!(game.ticks(), 4);

    run_ticks(&mut game, 1, NONE);
    assert_eq!(game.head_pos(), TilePos { x: 12, y: 11 });
}

#[test]
fn five_steps_right_shift_the_whole_chain() {
    let mut game = SnakeGame::default();
    assert_eq!(game.segment_count(), 6);

    run_ticks(&mut game, 25, RIGHT);

    assert_eq!(game.state(), State::Running);
    assert_eq!(game.head_pos(), TilePos { x: 17, y: 10 });
    assert_eq!(game.segment_count(), 6);

    // the body follows the head tile by tile, with no overlap left
    for i in 0..6 {
        assert_eq!(game.segment_pos(i), TilePos { x: 17 - i as i32, y: 10 });
    }
    for i in 0..6 {
        for j in 0..i {
            assert_ne!(game.segment_pos(i), game.segment_pos(j));
        }
    }
}

#[test]
fn running_off_the_board_ends_the_game() {
    let mut game = SnakeGame::default();
    // 12 steps reach the left edge; the 13th would leave the board
    run_ticks(&mut game, 65, LEFT);

    assert_eq!(game.state(), State::GameOver);
    assert_eq!(game.head_pos(), TilePos { x: 0, y: 10 });

    // movement halts for good, nothing changes on later ticks
    let frozen: Vec<TilePos> = (0..game.segment_count()).map(|i| game.segment_pos(i)).collect();
    run_ticks(&mut game, 20, RIGHT);
    assert_eq!(game.state(), State::GameOver);
    for (i, p) in frozen.iter().enumerate() {
        assert_eq!(game.segment_pos(i), *p);
    }
}

#[test]
fn hitting_the_body_ends_the_game() {
    let mut game = SnakeGame::default();
    run_ticks(&mut game, 25, RIGHT);
    run_ticks(&mut game, 5, UP);
    run_ticks(&mut game, 5, LEFT);
    assert_eq!(game.state(), State::Running);
    assert_eq!(game.head_pos(), TilePos { x: 16, y: 11 });

    // turning down now runs the head into the trailing chain
    run_ticks(&mut game, 5, DOWN);
    assert_eq!(game.state(), State::GameOver);
    // the fatal move was not taken
    assert_eq!(game.head_pos(), TilePos { x: 16, y: 11 });
}

#[test]
fn eating_grows_and_relocates_the_food() {
    let mut game = SnakeGame::default();
    assert_eq!(game.food_pos(), TilePos { x: 2, y: 2 });

    // steer onto the apple: ten tiles left, then eight tiles down
    run_ticks(&mut game, 50, LEFT);
    assert_eq!(game.head_pos(), TilePos { x: 2, y: 10 });
    run_ticks(&mut game, 40, DOWN);
    assert_eq!(game.head_pos(), TilePos { x: 2, y: 2 });
    assert_eq!(game.state(), State::Running);

    // the chain grew by five segments parked on the tail
    assert_eq!(game.segment_count(), 11);

    // the apple moved to a board tile no segment occupies
    let food = game.food_pos();
    assert!(food.x >= 0 && food.x < 25 && food.y >= 0 && food.y < 20);
    for i in 0..game.segment_count() {
        assert_ne!(game.segment_pos(i), food);
    }
}

#[test]
fn fresh_session_renders_nothing_until_first_step() {
    let game = SnakeGame::default();
    // the screen still shows only the border painted at setup
    for y in (0..240).step_by(7) {
        for x in (0..320).step_by(7) {
            assert_eq!(game.output().get_pixel(x, y), 18);
        }
    }
}

#[test]
fn step_tick_renders_board_snake_and_food() {
    let mut game = SnakeGame::default();
    run_ticks(&mut game, 5, NONE);

    let out = game.output();
    // outside the board: border color
    assert_eq!(out.get_pixel(0, 0), 18);
    assert_eq!(out.get_pixel(319, 239), 18);
    // board background inside the map area
    assert_eq!(out.get_pixel(35, 20), 0);
    assert_eq!(out.get_pixel(284, 219), 0);
    // the snake is parked on tile (12, 10): screen 155..165 x 120..130
    assert_eq!(out.get_pixel(155, 120), 16);
    assert_eq!(out.get_pixel(164, 129), 16);
    assert_eq!(out.get_pixel(154, 120), 0);
    // the apple disc on tile (2, 2) is centered at (60, 45)
    assert_eq!(out.get_pixel(58, 44), 3);
    // its stem sits near the tile's bottom edge
    assert_eq!(out.get_pixel(59, 48), 19);
    assert_eq!(out.get_pixel(60, 49), 19);
    // an uncovered corner of the apple's tile shows the background
    assert_eq!(out.get_pixel(64, 41), 0);
}

#[test]
fn death_frame_keeps_rendering_in_dead_color() {
    let mut game = SnakeGame::default();
    run_ticks(&mut game, 65, LEFT);
    assert_eq!(game.state(), State::GameOver);

    // head tile (0, 10): screen 35..45 x 120..130, drawn in the dead color
    assert_eq!(game.output().get_pixel(35, 120), 14);

    // rendering continues on later step ticks
    run_ticks(&mut game, 5, NONE);
    assert_eq!(game.output().get_pixel(35, 120), 14);
    assert_eq!(game.output().get_pixel(0, 0), 18);
}

#[test]
fn palette_is_loaded_at_setup_and_stays() {
    let game = SnakeGame::default();
    let palette = game.palette();
    // 0xffffe1 quantizes to r=0xf, g=0xf, b=0xe
    assert_eq!(palette.get(0).0, 0x0f);
    assert_eq!(palette.get(0).1, 0xfe);
    // 0x235a63 (the border color, index 18) quantizes to r=2, g=5, b=6
    assert_eq!(palette.get(18).0, 0x02);
    assert_eq!(palette.get(18).1, 0x56);
    // unused entries stay black
    for i in 20..32 {
        assert_eq!(palette.get(i).0, 0);
        assert_eq!(palette.get(i).1, 0);
    }

    let mut game = game;
    run_ticks(&mut game, 12, UP);
    assert_eq!(game.palette().get(0).0, 0x0f);
    assert_eq!(game.palette().get(18).1, 0x56);
}
