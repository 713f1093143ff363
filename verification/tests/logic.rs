use platform_prototype::game::data::Sprite;
use platform_prototype::game::logic::{
    collision_delta, compute_physics, constrain_map, detect_intersection, exceeds_viewport,
    generate_background, interpolate_coordinates, is_renderable, jump_player, render_graphics,
    update_animation, update_direction, update_state,
};
use platform_prototype::game::state::State;
use platform_prototype::graphics::image::Image;
use platform_prototype::graphics::point::Point;
use platform_prototype::graphics::rectangle::Rectangle;
use platform_prototype::graphics::tile::Tile;

const ONE: i64 = 1_000_000;

/// An opaque image in which every pixel is `(tag, tag, tag, 255)`.
fn solid(width: u32, height: u32, tag: u8) -> Image {
    let mut bytes = Vec::new();
    for _ in 0..width * height {
        bytes.extend_from_slice(&[tag, tag, tag, 255]);
    }
    Image::new(0, 0, width, height, bytes).unwrap()
}

/// The world at start with the given map and plain assets.
fn world(map: &str) -> State {
    State::new(solid(2, 2, 1), solid(4, 4, 2), solid(64, 64, 3), solid(192, 128, 4), map).unwrap()
}

/// A map whose row `row` is a floor of twelve tiles.
fn floor_at(row: usize) -> String {
    let mut map = "\n".repeat(row);
    map.push_str(&"01".repeat(12));
    map
}

fn boxed(x: i64, y: i64, w: i64, h: i64) -> Rectangle {
    Rectangle::new(x * ONE, y * ONE, w * ONE, h * ONE)
}

fn tile(x: i64, y: i64) -> Tile {
    Tile::new(1, Point::new(x * ONE, y * ONE), boxed(x, y, 16, 16))
}

fn selected(state: &State) -> Option<String> {
    Some(state.sub.animations.name().to_string())
}

#[test]
fn direction_follows_the_keys_and_opposite_keys_cancel() {
    let mut state = world("");
    state.conf.left = true;
    state.conf.down = true;
    update_direction(&mut state);
    assert_eq!(state.sub.direction, Point::new(-ONE, ONE));
    state.conf.right = true;
    state.conf.up = true;
    update_direction(&mut state);
    assert_eq!(state.sub.direction, Point::new(0, 0));
    state.conf.left = false;
    state.conf.down = false;
    update_direction(&mut state);
    assert_eq!(state.sub.direction, Point::new(ONE, -ONE));
    state.conf.right = false;
    state.conf.up = false;
    update_direction(&mut state);
    assert_eq!(state.sub.direction, Point::new(0, 0));
}

#[test]
fn boxes_that_overlap_intersect_and_boxes_that_touch_do_not() {
    let a = boxed(0, 0, 16, 16);
    assert!(detect_intersection(&a, &boxed(15, 15, 16, 16)));
    assert!(detect_intersection(&boxed(15, 15, 16, 16), &a));
    assert!(detect_intersection(&a, &boxed(4, 4, 2, 2)));
    assert!(!detect_intersection(&a, &boxed(16, 0, 16, 16)));
    assert!(!detect_intersection(&a, &boxed(0, 16, 16, 16)));
    assert!(!detect_intersection(&a, &boxed(-16, 0, 16, 16)));
    assert!(!detect_intersection(&a, &boxed(0, -16, 16, 16)));
    assert!(!detect_intersection(&a, &boxed(40, 0, 16, 16)));
    assert!(detect_intersection(&a, &Rectangle::new(16 * ONE - 1, 0, ONE, ONE)));
}

#[test]
fn tile_wholly_beyond_an_edge_of_the_view_is_culled() {
    let view = boxed(100, 100, 384, 288);
    assert!(exceeds_viewport(&boxed(485, 200, 16, 16), &view));
    assert!(exceeds_viewport(&boxed(83, 200, 16, 16), &view));
    assert!(exceeds_viewport(&boxed(200, 389, 16, 16), &view));
    assert!(exceeds_viewport(&boxed(200, 83, 16, 16), &view));
    assert!(exceeds_viewport(&boxed(0, 0, 16, 16), &view));
    assert!(exceeds_viewport(&boxed(200, 0, 16, 16), &boxed(0, 100, 384, 288)));
}

#[test]
fn tile_inside_or_across_an_edge_of_the_view_is_not_culled() {
    let view = boxed(100, 100, 384, 288);
    assert!(!exceeds_viewport(&boxed(200, 200, 16, 16), &view));
    assert!(!exceeds_viewport(&boxed(100, 100, 384, 288), &view));
    assert!(!exceeds_viewport(&boxed(90, 200, 16, 16), &view));
    assert!(!exceeds_viewport(&boxed(480, 200, 16, 16), &view));
    assert!(!exceeds_viewport(&boxed(200, 90, 16, 16), &view));
    assert!(!exceeds_viewport(&boxed(200, 380, 16, 16), &view));
    assert!(!exceeds_viewport(&boxed(0, 0, 1000, 1000), &view));
    assert!(!exceeds_viewport(&boxed(484, 200, 16, 16), &view));
    assert!(!exceeds_viewport(&boxed(84, 200, 16, 16), &view));
}

#[test]
fn culling_compares_whole_numbers() {
    let view = Rectangle::new(0, 0, 10_200_000, 10 * ONE);
    assert!(!exceeds_viewport(&Rectangle::new(10_500_000, 0, ONE, ONE), &view));
    assert!(exceeds_viewport(&Rectangle::new(11_000_000, 0, ONE, ONE), &view));
    let low = Rectangle::new(-500_000, 0, 0, ONE);
    assert!(!exceeds_viewport(&Rectangle::new(500_000, 0, ONE, ONE), &low));
}

#[test]
fn camera_is_held_inside_the_level() {
    let mut state = world("");
    state.env.x = -5 * ONE;
    state.env.y = 400 * ONE;
    constrain_map(&mut state);
    assert_eq!((state.env.x, state.env.y), (0, 288 * ONE));
    state.env.x = 385 * ONE;
    state.env.y = -1;
    constrain_map(&mut state);
    assert_eq!((state.env.x, state.env.y), (384 * ONE, 0));
    state.env.x = 100 * ONE;
    state.env.y = 100 * ONE;
    constrain_map(&mut state);
    assert_eq!((state.env.x, state.env.y), (100 * ONE, 100 * ONE));
}

#[test]
fn camera_of_a_level_smaller_than_the_window_sits_at_the_far_limit() {
    let mut state = world("");
    state.env.width = 300 * ONE;
    state.env.x = -5 * ONE;
    constrain_map(&mut state);
    assert_eq!(state.env.x, -84 * ONE);
}

#[test]
fn jump_starts_once_for_a_held_key() {
    let mut state = world("");
    state.conf.jump = true;
    state.sub.velocity.y = 5;
    jump_player(1, &mut state);
    assert!(state.sub.contact);
    assert!(state.sub.lock);
    assert_eq!(state.sub.velocity.y, 5 - 16 * ONE);
    jump_player(1, &mut state);
    assert!(!state.sub.contact);
    assert!(state.sub.lock);
    assert_eq!(state.sub.velocity.y, 5 - 16 * ONE);
    state.conf.jump = false;
    jump_player(0, &mut state);
    assert!(state.sub.lock);
    jump_player(-1, &mut state);
    assert!(state.sub.lock);
    jump_player(1, &mut state);
    assert!(!state.sub.lock);
    assert!(!state.sub.contact);
    state.conf.jump = true;
    jump_player(0, &mut state);
    assert!(!state.sub.contact);
    assert!(!state.sub.lock);
    jump_player(-1, &mut state);
    assert!(!state.sub.contact);
    jump_player(7, &mut state);
    assert!(state.sub.contact);
}

#[test]
fn jump_kick_is_scaled_by_the_frame_ratio() {
    let mut state = world("");
    state.conf.jump = true;
    state.conf.ratio = 500_000;
    jump_player(1, &mut state);
    assert_eq!(state.sub.velocity.y, -8 * ONE);
}

fn pick(dx: i64, dy: i64, left: bool, right: bool, up: bool, down: bool) -> String {
    let mut state = world("");
    state.conf.left = left;
    state.conf.right = right;
    state.conf.up = up;
    state.conf.down = down;
    update_animation(&mut state, dx, dy);
    assert!(state.sub.animations.is_ready());
    selected(&state).unwrap()
}

#[test]
fn clip_is_chosen_in_order_of_priority() {
    let m = 100_000;
    assert_eq!(pick(-m - 1, 0, true, false, false, false), "RunningLeft");
    assert_eq!(pick(m + 1, 0, false, true, false, false), "RunningRight");
    assert_eq!(pick(-m - 1, m, true, true, false, false), "RunningLeft");
    assert_eq!(pick(m + 1, -m, true, true, false, false), "RunningRight");
    assert_eq!(pick(-m - 1, m + 1, true, false, false, false), "AirLeft");
    assert_eq!(pick(m + 1, m + 1, true, true, true, true), "AirLeft");
    assert_eq!(pick(0, -m - 1, false, true, true, true), "AirRight");
    assert_eq!(pick(0, -m - 1, false, false, true, true), "AirUp");
    assert_eq!(pick(0, m + 1, false, false, false, true), "AirDown");
    assert_eq!(pick(-m - 1, m + 1, false, false, false, false), "FacingLeft");
    assert_eq!(pick(m + 1, -m - 1, false, false, false, false), "FacingRight");
    assert_eq!(pick(-m - 1, 0, false, true, false, false), "FacingLeft");
    assert_eq!(pick(m + 1, 0, true, false, false, false), "FacingRight");
    assert_eq!(pick(0, -m - 1, false, false, false, false), "FacingUp");
    assert_eq!(pick(m, m + 1, false, false, false, false), "FacingDown");
    assert_eq!(pick(0, 0, false, false, false, false), "FacingDown");
    assert_eq!(pick(m, -m, true, true, true, true), "FacingDown");
    assert_eq!(pick(-m, m, true, false, false, false), "FacingDown");
    assert_eq!(pick(0, i64::MIN, false, false, true, false), "AirUp");
}

#[test]
fn choosing_a_clip_leaves_the_cursors() {
    let mut state = world("");
    update_animation(&mut state, ONE, 0);
    state.conf.right = true;
    update_animation(&mut state, ONE, 0);
    state.sub.animations.consecutive_frame(0, 0);
    state.sub.animations.consecutive_frame(0, 0);
    assert_eq!(state.sub.animations.get().unwrap().index(), 2);
    update_animation(&mut state, 0, 0);
    assert_eq!(state.sub.animations.get().unwrap().index(), 0);
    update_animation(&mut state, ONE, 0);
    assert_eq!(state.sub.animations.get().unwrap().index(), 2);
    assert_eq!(state.sub.animations.get().unwrap().length(), 8);
}

#[test]
fn interpolation_blends_the_last_position_with_the_present() {
    let mut state = world("");
    state.sub.previous = Point::new(10 * ONE, 20 * ONE);
    state.sub.x = 20 * ONE;
    state.sub.y = 60 * ONE;
    let at = interpolate_coordinates(250_000, &mut state);
    assert_eq!(at, Point::new(17_500_000, 50 * ONE));
    assert_eq!(state.sub.previous, Point::new(20 * ONE, 60 * ONE));
    assert_eq!(interpolate_coordinates(0, &mut state), Point::new(20 * ONE, 60 * ONE));
    state.sub.previous = Point::new(0, 0);
    assert_eq!(interpolate_coordinates(ONE, &mut state), Point::new(0, 0));
}

#[test]
fn collision_with_zero_velocity_corrects_nothing() {
    let mut state = world(&floor_at(2));
    state.env.tiles.push(tile(32, 32));
    state.env.tiles.push(tile(40, 48));
    assert_eq!(collision_delta(&state), [0, 0, 0, 0]);
}

#[test]
fn tick_at_rest_leaves_the_player_in_place() {
    let mut state = world(&floor_at(2));
    state.env.gravity = 0;
    compute_physics(&mut state);
    assert_eq!((state.sub.x, state.sub.y), (32 * ONE, 32 * ONE));
    assert_eq!(state.sub.velocity, Point::new(0, 0));
    assert!(!state.sub.contact);
    assert_eq!(selected(&state).unwrap(), "FacingDown");
}

#[test]
fn collision_without_tiles_lets_the_motion_through() {
    let mut state = world("");
    state.sub.velocity = Point::new(-3 * ONE, 5 * ONE);
    assert_eq!(collision_delta(&state), [-3 * ONE, 5 * ONE, 0, 0]);
}

#[test]
fn corner_of_wall_and_floor_stops_both_axes() {
    let mut state = world("");
    state.env.tiles = vec![tile(32, 64), tile(48, 32), tile(48, 48)];
    state.sub.velocity = Point::new(3 * ONE, 3 * ONE);
    assert_eq!(collision_delta(&state), [0, 0, 3 * ONE, 3 * ONE]);
    state.sub.velocity = Point::new(-3 * ONE, -3 * ONE);
    assert_eq!(collision_delta(&state), [-3 * ONE, -3 * ONE, 0, 0]);
    state.env.tiles = vec![tile(16, 32), tile(32, 16)];
    assert_eq!(collision_delta(&state), [0, 0, -3 * ONE, -3 * ONE]);
}

#[test]
fn each_axis_is_resolved_apart() {
    let mut state = world("");
    state.env.tiles = vec![tile(32, 64), tile(48, 32), tile(48, 48)];
    state.sub.velocity = Point::new(3 * ONE, 0);
    let only_x = collision_delta(&state);
    state.sub.velocity = Point::new(0, 3 * ONE);
    let only_y = collision_delta(&state);
    state.sub.velocity = Point::new(3 * ONE, 3 * ONE);
    let both = collision_delta(&state);
    assert_eq!((both[0], both[2]), (only_x[0], only_x[2]));
    assert_eq!((both[1], both[3]), (only_y[1], only_y[3]));
    assert_eq!(only_x, [0, 0, 3 * ONE, 0]);
    assert_eq!(only_y, [0, 0, 0, 3 * ONE]);
}

#[test]
fn motion_is_cut_back_to_the_edge_of_the_tile() {
    let mut state = world("");
    state.env.tiles = vec![tile(50, 32)];
    state.sub.velocity = Point::new(5 * ONE, 0);
    assert_eq!(collision_delta(&state), [2 * ONE, 0, 3 * ONE, 0]);
    state.env.tiles = vec![tile(14, 32)];
    state.sub.velocity = Point::new(-5 * ONE, 0);
    assert_eq!(collision_delta(&state), [-2 * ONE, 0, -3 * ONE, 0]);
    state.env.tiles = vec![tile(32, 66)];
    state.sub.velocity = Point::new(0, 5 * ONE);
    assert_eq!(collision_delta(&state), [0, 2 * ONE, 0, 3 * ONE]);
    state.env.tiles = vec![tile(32, 14)];
    state.sub.velocity = Point::new(0, -5 * ONE);
    assert_eq!(collision_delta(&state), [0, -2 * ONE, 0, -3 * ONE]);
}

#[test]
fn last_tile_that_is_hit_decides() {
    let mut state = world("");
    state.env.tiles = vec![tile(50, 32), tile(49, 40)];
    state.sub.velocity = Point::new(5 * ONE, 0);
    assert_eq!(collision_delta(&state), [ONE, 0, 4 * ONE, 0]);
    state.env.tiles = vec![tile(49, 40), tile(50, 32)];
    assert_eq!(collision_delta(&state), [2 * ONE, 0, 3 * ONE, 0]);
}

#[test]
fn culled_tile_does_not_stop_the_player() {
    let mut state = world("");
    state.sub.x = 500 * ONE;
    state.env.tiles = vec![tile(518, 32)];
    state.sub.velocity = Point::new(5 * ONE, 0);
    assert_eq!(collision_delta(&state), [5 * ONE, 0, 0, 0]);
    state.env.x = 200 * ONE;
    assert_eq!(collision_delta(&state), [2 * ONE, 0, 3 * ONE, 0]);
}

#[test]
fn free_fall_gains_speed_with_every_tick() {
    let mut state = world("");
    let speeds = [
        633_308, 1_234_950, 1_806_510, 2_349_492, 2_865_325, 3_355_366, 3_820_905, 4_263_167,
        4_683_316, 5_082_458,
    ];
    let heights = [
        32_666_640, 33_966_588, 35_868_178, 38_341_328, 41_357_460, 44_889_425, 48_911_431,
        53_398_976, 58_328_783, 63_678_739,
    ];
    let mut last = 0;
    for i in 0..10 {
        compute_physics(&mut state);
        assert!(state.sub.velocity.y > last);
        last = state.sub.velocity.y;
        assert_eq!(state.sub.velocity.y, speeds[i]);
        assert_eq!(state.sub.y, heights[i]);
        assert_eq!(state.sub.x, 32 * ONE);
        assert_eq!(state.sub.velocity.x, 0);
    }
    assert_eq!(state.sub.acceleration, Point::new(0, 666_640));
    assert_eq!(selected(&state).unwrap(), "FacingDown");
}

#[test]
fn fall_ends_on_the_floor() {
    let mut state = world(&floor_at(5));
    let mut last = 0;
    for _ in 0..6 {
        compute_physics(&mut state);
        assert!(state.sub.velocity.y > last);
        last = state.sub.velocity.y;
    }
    assert_eq!(state.sub.y, 44_889_425);
    compute_physics(&mut state);
    assert_eq!(state.sub.y, 48 * ONE);
    assert_eq!(state.sub.velocity.y, 3_110_575);
    compute_physics(&mut state);
    assert_eq!(state.sub.y, 48 * ONE);
    assert_eq!(state.sub.velocity.y, 0);
    for _ in 0..20 {
        compute_physics(&mut state);
        assert_eq!(state.sub.y, 48 * ONE);
        assert_eq!(state.sub.velocity.y, 0);
    }
    assert_eq!(selected(&state).unwrap(), "FacingDown");
}

#[test]
fn held_key_runs_along_the_floor() {
    let mut state = world(&floor_at(4));
    for _ in 0..3 {
        compute_physics(&mut state);
    }
    state.conf.right = true;
    update_direction(&mut state);
    compute_physics(&mut state);
    assert_eq!(state.sub.x, 32_599_976);
    assert_eq!(state.sub.velocity, Point::new(554_977, 0));
    compute_physics(&mut state);
    assert_eq!(state.sub.x, 33_754_929);
    assert_eq!(state.sub.velocity, Point::new(1_068_331, 0));
    assert_eq!(state.sub.y, 32 * ONE);
    assert_eq!(selected(&state).unwrap(), "RunningRight");
}

#[test]
fn held_jump_key_kicks_once() {
    let mut state = world(&floor_at(4));
    state.conf.jump = true;
    compute_physics(&mut state);
    assert!(state.sub.contact);
    assert!(state.sub.lock);
    assert_eq!(state.sub.velocity.y, -16 * ONE);
    assert_eq!(state.sub.y, 32 * ONE);
    compute_physics(&mut state);
    assert!(!state.sub.contact);
    assert_eq!(state.sub.y, 16_666_640);
    assert_eq!(state.sub.velocity.y, -14_566_692);
    assert_eq!(selected(&state).unwrap(), "FacingUp");
}

#[test]
fn camera_follows_the_player_inside_the_level() {
    let mut state = world("");
    state.env.gravity = 0;
    state.sub.x = 400 * ONE;
    state.sub.y = 300 * ONE;
    compute_physics(&mut state);
    assert_eq!(state.env.x, (400 + 8 - 192) * ONE);
    assert_eq!(state.env.y, (300 + 16 - 144) * ONE);
    state.sub.x = 760 * ONE;
    state.sub.y = 570 * ONE;
    compute_physics(&mut state);
    assert_eq!((state.env.x, state.env.y), (384 * ONE, 288 * ONE));
}

/// Runs `ticks` ticks by hand on a fresh world and hands back where the
/// player ends.
fn after_ticks(ticks: usize) -> (i64, i64) {
    let mut state = world("");
    for _ in 0..ticks {
        compute_physics(&mut state);
    }
    (state.sub.y, state.sub.velocity.y)
}

#[test]
fn update_runs_one_tick_for_each_whole_step() {
    let mut state = world("");
    update_state(&mut state, 0, 50_000, 60 * ONE);
    assert_eq!(state.conf.accumulator, 2);
    assert_eq!((state.sub.y, state.sub.velocity.y), after_ticks(3));
    update_state(&mut state, 0, 16_663, 60 * ONE);
    assert_eq!(state.conf.accumulator, 16_665);
    assert_eq!((state.sub.y, state.sub.velocity.y), after_ticks(3));
    update_state(&mut state, 0, 2, 60 * ONE);
    assert_eq!(state.conf.accumulator, 1);
    assert_eq!((state.sub.y, state.sub.velocity.y), after_ticks(4));
}

#[test]
fn update_leaves_a_rest_of_exactly_one_step() {
    let mut state = world("");
    update_state(&mut state, 0, 33_332, 60 * ONE);
    assert_eq!(state.conf.accumulator, 16_666);
    assert_eq!((state.sub.y, state.sub.velocity.y), after_ticks(1));
    update_state(&mut state, 0, 0, 60 * ONE);
    assert_eq!(state.conf.accumulator, 16_666);
    assert_eq!((state.sub.y, state.sub.velocity.y), after_ticks(1));
    update_state(&mut state, 0, 1, 60 * ONE);
    assert_eq!(state.conf.accumulator, 1);
    assert_eq!((state.sub.y, state.sub.velocity.y), after_ticks(2));
}

#[test]
fn update_clamps_the_time_it_takes_in() {
    let mut state = world("");
    update_state(&mut state, 7 * ONE, 5 * ONE, 12 * ONE);
    assert_eq!(state.conf.time, 7 * ONE);
    assert_eq!(state.conf.delta, 62_500);
    assert_eq!(state.conf.fps, 12 * ONE);
    assert_eq!(state.conf.accumulator, 62_500 - 3 * 16_666);
    assert_eq!((state.sub.y, state.sub.velocity.y), after_ticks(3));
}

#[test]
fn update_with_time_running_backward_runs_no_tick() {
    let mut state = world("");
    update_state(&mut state, 0, -50_000, 60 * ONE);
    assert_eq!(state.conf.accumulator, -50_000);
    assert_eq!(state.conf.delta, -50_000);
    assert_eq!((state.sub.y, state.sub.velocity.y), after_ticks(0));
    assert!(!state.sub.animations.is_ready());
}

#[test]
fn update_blends_the_drawing_position() {
    let mut state = world("");
    update_state(&mut state, 0, 25_000, 60 * ONE);
    assert_eq!(state.conf.accumulator, 8_334);
    assert_eq!(state.sub.y, 32_666_640);
    assert_eq!(state.sub.previous, Point::new(32 * ONE, 32_666_640));
    assert_eq!(state.sub.interpolation, Point::new(15_998_080, 16_331_360));
    update_state(&mut state, 0, 0, 60 * ONE);
    assert_eq!(state.sub.interpolation, Point::new(32 * ONE, 32_666_639));
}

#[test]
fn update_reads_the_keys() {
    let mut state = world(&floor_at(4));
    state.conf.left = true;
    update_state(&mut state, 0, 20_000, 60 * ONE);
    assert_eq!(state.sub.direction, Point::new(-ONE, 0));
    assert_eq!(state.sub.x, 32 * ONE - 599_976);
    assert_eq!(selected(&state).unwrap(), "RunningLeft");
}

#[test]
fn world_at_start_cannot_be_drawn_before_a_tick_selects_a_clip() {
    let mut state = world("01");
    assert!(!is_renderable(&state));
    compute_physics(&mut state);
    assert!(is_renderable(&state));
    state.env.tiles.push(Tile::new(99, Point::new(0, 0), boxed(0, 0, 16, 16)));
    assert!(!is_renderable(&state));
    state.env.tiles[1].boundary = boxed(700, 0, 16, 16);
    assert!(is_renderable(&state));
}

#[test]
fn frame_shows_backdrop_tiles_and_player() {
    let pattern = solid(2, 2, 1);
    let background = solid(8, 8, 2);
    let sheet = solid(64, 64, 3);
    let character = solid(192, 128, 4);
    let mut state = State::new(pattern, background, sheet, character, "\n  01").unwrap();
    state.env.gravity = 0;
    state.sub.x = 2 * ONE;
    state.sub.y = 2 * ONE;
    state.sub.offset = Point::new(0, 0);
    state.env.tiles.push(Tile::new(2, Point::new(900 * ONE, 0), boxed(900, 0, 16, 16)));
    update_state(&mut state, 0, 20_000, 60 * ONE);
    update_state(&mut state, 0, 0, 60 * ONE);
    assert!(is_renderable(&state));
    let (width, height) = (40usize, 40usize);
    let mut buffer = vec![0u8; width * height * 4];
    render_graphics(&mut state, &mut buffer, width as u32, height as u32);
    let at = |col: usize, row: usize| buffer[(row * width + col) * 4];
    assert_eq!(at(0, 0), 2);
    assert_eq!(at(1, 7), 2);
    assert_eq!(at(7, 1), 2);
    assert_eq!(at(1, 2), 2);
    assert_eq!(at(1, 9), 0);
    assert_eq!(at(9, 1), 0);
    assert_eq!(at(2, 2), 4);
    assert_eq!(at(7, 7), 4);
    assert_eq!(at(16, 16), 4);
    assert_eq!(at(25, 33), 4);
    assert_eq!(at(26, 33), 0);
    assert_eq!(at(25, 34), 0);
    assert_eq!(at(26, 16), 3);
    assert_eq!(at(31, 31), 3);
    assert_eq!(at(26, 15), 0);
    assert_eq!(at(32, 32), 0);
    assert_eq!((state.env.background.x(), state.env.background.y()), (0, 0));
    assert_eq!((state.env.textures[&1].x(), state.env.textures[&1].y()), (16 * ONE, 16 * ONE));
    assert_eq!((state.env.textures[&2].x(), state.env.textures[&2].y()), (0, 0));
    let shown = state.sub.animations.get().unwrap();
    assert!(shown.active());
    assert_eq!((shown.frame().x(), shown.frame().y()), (2 * ONE, 2 * ONE));
}

#[test]
fn frame_moves_with_the_camera() {
    let mut state = world("01");
    compute_physics(&mut state);
    state.env.x = 4 * ONE;
    state.env.y = 2 * ONE;
    state.sub.interpolation = Point::new(20 * ONE, 10 * ONE);
    let mut buffer = vec![0u8; 32 * 32 * 4];
    render_graphics(&mut state, &mut buffer, 32, 32);
    let at = |col: usize, row: usize| buffer[(row * 32 + col) * 4];
    assert_eq!(at(0, 0), 3);
    assert_eq!(at(11, 13), 3);
    assert_eq!(at(12, 13), 4);
    assert_eq!(at(11, 14), 0);
    assert_eq!(at(12, 8), 4);
    assert_eq!(at(31, 31), 4);
    assert_eq!(at(12, 7), 0);
    assert_eq!((state.env.background.x(), state.env.background.y()), (-4 * ONE, -2 * ONE));
    assert_eq!((state.env.textures[&1].x(), state.env.textures[&1].y()), (-4 * ONE, -2 * ONE));
}

#[test]
fn pattern_covers_the_window_and_shifts_with_the_camera() {
    let mut pattern_bytes = Vec::new();
    for i in 0..6u8 {
        pattern_bytes.extend_from_slice(&[i + 1, 0, 0, 255]);
    }
    let pattern = Image::new(0, 0, 3, 2, pattern_bytes).unwrap();
    let mut state =
        State::new(pattern, solid(1, 1, 2), solid(64, 64, 3), solid(192, 128, 4), "").unwrap();
    state.conf.width = 7 * ONE;
    state.conf.height = 5 * ONE;
    let mut buffer = vec![0u8; 12 * 12 * 4];
    generate_background(&state, &mut buffer, 12, 12);
    let at = |buffer: &Vec<u8>, col: usize, row: usize| buffer[(row * 12 + col) * 4];
    for row in 0..12 {
        for col in 0..12 {
            let expected = if col < 12 && row < 8 && col < 12 && col < 4 * 3 && row < 4 * 2 {
                ((row % 2) * 3 + col % 3 + 1) as u8
            } else {
                0
            };
            assert_eq!(at(&buffer, col, row), expected);
        }
    }
    state.env.x = 4_900_000;
    state.env.y = 1_200_000;
    let mut buffer = vec![0u8; 12 * 12 * 4];
    generate_background(&state, &mut buffer, 12, 12);
    for row in 0..12 {
        for col in 0..12 {
            let expected = if col < 11 && row < 7 {
                (((row + 1) % 2) * 3 + (col + 1) % 3 + 1) as u8
            } else {
                0
            };
            assert_eq!(at(&buffer, col, row), expected);
        }
    }
    state.env.x = -ONE;
    state.env.y = 0;
    let mut buffer = vec![0u8; 12 * 12 * 4];
    generate_background(&state, &mut buffer, 12, 12);
    assert_eq!(at(&buffer, 0, 0), 0);
    assert_eq!(at(&buffer, 1, 0), 1);
    assert_eq!(at(&buffer, 11, 0), 2);
}

#[test]
fn pattern_without_pixels_draws_nothing() {
    let empty = Image::new(0, 0, 0, 2, Vec::new()).unwrap();
    let state =
        State::new(empty, solid(1, 1, 2), solid(64, 64, 3), solid(192, 128, 4), "").unwrap();
    let mut buffer = vec![0u8; 64];
    generate_background(&state, &mut buffer, 4, 4);
    assert_eq!(buffer, vec![0u8; 64]);
}

#[test]
fn sprite_names_are_the_names_of_the_clips() {
    assert_eq!(Sprite::FacingLeft.str(), "FacingLeft");
    assert_eq!(Sprite::FacingRight.str(), "FacingRight");
    assert_eq!(Sprite::FacingUp.str(), "FacingUp");
    assert_eq!(Sprite::FacingDown.str(), "FacingDown");
    assert_eq!(Sprite::RunningLeft.str(), "RunningLeft");
    assert_eq!(Sprite::RunningRight.str(), "RunningRight");
    assert_eq!(Sprite::RunningUp.str(), "RunningUp");
    assert_eq!(Sprite::RunningDown.str(), "RunningDown");
    assert_eq!(Sprite::AirLeft.str(), "AirLeft");
    assert_eq!(Sprite::AirRight.str(), "AirRight");
    assert_eq!(Sprite::AirUp.str(), "AirUp");
    assert_eq!(Sprite::AirDown.str(), "AirDown");
    assert_eq!(Sprite::AirDown.name_str(), "AirDown");
}
