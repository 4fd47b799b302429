use framecore::graphics::{Rgb, Sprite};
use framecore::keyboard::{Key, KeyEvent, net_delta};
use framecore::pointer::Pointer;
use framecore::time::Time;
use framecore::{apply_velocity, bounce_sprites, move_player, Entity, Position, Velocity};

fn entity(x: usize, y: usize, vel: Option<(isize, isize)>, sprite: Option<usize>, player: bool) -> Entity {
    Entity {
        position: Position(x, y),
        velocity: vel.map(|(dx, dy)| Velocity(dx, dy)),
        sprite,
        player,
    }
}

fn solid_sprite(width: usize, height: usize) -> Sprite {
    Sprite {
        width,
        height,
        pixels: vec![Some(Rgb { red: 1, green: 2, blue: 3 }); width * height],
    }
}

#[test]
fn bounce_negates_then_rests() {
    let sprites = vec![solid_sprite(2, 1)];
    // Rightmost valid position: trailing edge 3 + 2 passes width 4.
    let mut entities = vec![entity(3, 1, Some((1, 0)), Some(0), false)];
    bounce_sprites(&mut entities, &sprites, 4, 4);
    assert_eq!(entities[0].velocity, Some(Velocity(-1, 0)));
    // Clear of the boundary, velocity now negative: a second pass keeps it.
    entities[0].position = Position(2, 1);
    bounce_sprites(&mut entities, &sprites, 4, 4);
    assert_eq!(entities[0].velocity, Some(Velocity(-1, 0)));
}

#[test]
fn bounce_reverses_off_origin() {
    let sprites = vec![solid_sprite(1, 1)];
    let mut entities = vec![entity(0, 0, Some((-2, -3)), Some(0), false)];
    bounce_sprites(&mut entities, &sprites, 4, 4);
    assert_eq!(entities[0].velocity, Some(Velocity(2, 3)));
}

#[test]
fn bounce_axes_are_independent() {
    let sprites = vec![solid_sprite(2, 2)];
    // Trailing edges pass both extents at once: a diagonal bounce is two
    // independent one-axis reflections.
    let mut entities = vec![entity(3, 3, Some((1, 2)), Some(0), false)];
    bounce_sprites(&mut entities, &sprites, 4, 4);
    assert_eq!(entities[0].velocity, Some(Velocity(-1, -2)));
}

#[test]
fn bounce_skips_entities_without_asset_or_velocity() {
    let sprites = vec![solid_sprite(2, 1)];
    let mut entities = vec![
        entity(3, 0, Some((1, 0)), None, false),
        entity(3, 0, None, Some(0), false),
    ];
    bounce_sprites(&mut entities, &sprites, 4, 4);
    assert_eq!(entities[0].velocity, Some(Velocity(1, 0)));
    assert_eq!(entities[1].velocity, None);
}

#[test]
fn bounce_runs_every_pass_even_when_pinned() {
    // An entity pinned past the boundary with outward velocity reverses on
    // every pass: two passes without motion restore the outward velocity.
    let sprites = vec![solid_sprite(2, 1)];
    let mut entities = vec![entity(3, 1, Some((1, 0)), Some(0), false)];
    bounce_sprites(&mut entities, &sprites, 4, 4);
    assert_eq!(entities[0].velocity, Some(Velocity(-1, 0)));
    bounce_sprites(&mut entities, &sprites, 4, 4);
    assert_eq!(entities[0].velocity, Some(Velocity(-1, 0)));
    // Pinned at the origin instead, a negative velocity flips positive.
    entities[0].position = Position(0, 0);
    bounce_sprites(&mut entities, &sprites, 4, 4);
    assert_eq!(entities[0].velocity, Some(Velocity(1, 0)));
}

#[test]
fn integration_adds_velocity_and_clamps() {
    let mut entities = vec![
        entity(1, 1, Some((2, 1)), None, false),
        entity(1, 1, Some((-3, 0)), None, false), // clamps at 0
        entity(2, 2, Some((5, 9)), None, false),  // clamps at dim - 1
        entity(2, 2, None, None, false),          // static entities do not move
    ];
    apply_velocity(&mut entities, 4, 4);
    assert_eq!(entities[0].position, Position(3, 2));
    assert_eq!(entities[1].position, Position(0, 1));
    assert_eq!(entities[2].position, Position(3, 3));
    assert_eq!(entities[3].position, Position(2, 2));
}

#[test]
fn net_delta_sums_direction_keys_in_units() {
    let events = vec![
        KeyEvent { key: Key::Left },
        KeyEvent { key: Key::Up },
        KeyEvent { key: Key::Left },
        KeyEvent { key: Key::Printable('a') },
        KeyEvent { key: Key::Right },
        KeyEvent { key: Key::Down },
        KeyEvent { key: Key::Down },
        KeyEvent { key: Key::OtherSpecial },
    ];
    assert_eq!(net_delta(&events), (-1, 1));
    assert_eq!(net_delta(&Vec::new()), (0, 0));
}

#[test]
fn two_lefts_one_right_decrement_player_velocity() {
    let events = vec![
        KeyEvent { key: Key::Left },
        KeyEvent { key: Key::Left },
        KeyEvent { key: Key::Right },
    ];
    assert_eq!(net_delta(&events), (-1, 0));
    let mut entities = vec![
        entity(0, 0, Some((2, 1)), None, true),
        entity(0, 0, Some((2, 1)), None, false), // not player-controlled
        entity(0, 0, None, None, true),          // player without velocity
    ];
    move_player(&mut entities, &events);
    assert_eq!(entities[0].velocity, Some(Velocity(1, 1)));
    assert_eq!(entities[1].velocity, Some(Velocity(2, 1)));
    assert_eq!(entities[2].velocity, None);
}

#[test]
fn pointer_accumulates_movement_and_latches_buttons() {
    let mut p = Pointer::default();
    assert_eq!(p.get_position(), (0, 0));
    assert_eq!(p.get_scroll(), 0);
    assert!(!p.is_left_pressed());
    assert!(!p.is_right_pressed());

    p.apply_state(3, -2, 1, true, false);
    p.apply_state(-1, 5, 1, false, true);
    assert_eq!(p.get_position(), (2, 3));
    assert_eq!(p.get_scroll(), 2);
    // Buttons reflect only the latest sample.
    assert!(!p.is_left_pressed());
    assert!(p.is_right_pressed());
}

#[test]
fn pointer_movement_saturates_at_the_type_bounds() {
    let mut p = Pointer { x: isize::MAX - 1, y: isize::MIN + 1, z: 0, left_click: false, right_click: false };
    p.apply_state(5, -5, 0, false, false);
    assert_eq!(p.get_position(), (isize::MAX, isize::MIN));
}

#[test]
fn elapsed_ticks_measures_from_startup() {
    let t = Time::new(1_000);
    assert_eq!(t.start_ticks, 1_000);
    assert_eq!(t.elapsed_ticks(1_000), 0);
    assert_eq!(t.elapsed_ticks(4_500), 3_500);
}
