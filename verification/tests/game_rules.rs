use gbj::animation::{animate_sprite, next_frame, AnimationIndices, AnimationTables, AnimationTimer};
use gbj::controls::{player_input_map, Action, InputBinding, Key};
use gbj::hud::{decimal_string, hp_text, timer_text, xp_text};
use gbj::player::{damage_player, player_baddie_collision_handler, Player};
use gbj::spawning::{baddie_spawn_due, missle_spawn_due, MissleSpawnTimer};
use gbj::timer::RepeatingTimer;

#[test]
fn timer_tick_below_period_accumulates() {
    let mut t = RepeatingTimer::new(100);
    let r = t.tick(30);
    assert_eq!(t.elapsed_nanos(), 30);
    assert!(!r.finished);
    assert_eq!(r.times_finished, 0);
    assert!(!r.just_finished());
}

#[test]
fn timer_tick_wraps_and_counts_periods() {
    let mut t = RepeatingTimer::new(100);
    t.tick(30);
    let r = t.tick(250);
    assert_eq!(t.elapsed_nanos(), 80);
    assert!(r.finished);
    assert_eq!(r.times_finished, 2);
    assert!(r.just_finished());
    assert_eq!(t.duration_nanos(), 100);
}

#[test]
fn timer_tick_exactly_one_period() {
    let mut t = RepeatingTimer::new(100);
    let r = t.tick(100);
    assert_eq!(t.elapsed_nanos(), 0);
    assert!(r.finished);
    assert_eq!(r.times_finished, 1);
}

#[test]
fn timer_zero_period() {
    let mut t = RepeatingTimer::new(0);
    let r = t.tick(5);
    assert_eq!(t.elapsed_nanos(), 0);
    assert!(r.finished);
    assert_eq!(r.times_finished, u32::MAX);
}

#[test]
fn timer_ticks_compose_on_values() {
    let mut a = RepeatingTimer::new(70);
    let ra1 = a.tick(45);
    let ra2 = a.tick(130);
    let mut b = RepeatingTimer::new(70);
    let rb = b.tick(175);
    assert_eq!(a.elapsed_nanos(), b.elapsed_nanos());
    assert_eq!(ra1.times_finished + ra2.times_finished, rb.times_finished);
    assert_eq!(b.elapsed_nanos(), 35);
    assert_eq!(rb.times_finished, 2);
}

#[test]
fn next_frame_advances_and_wraps() {
    let flying = AnimationIndices { first: 1, last: 5 };
    assert_eq!(next_frame(1, &flying), 2);
    assert_eq!(next_frame(4, &flying), 5);
    assert_eq!(next_frame(5, &flying), 1);
    let idle = AnimationIndices { first: 0, last: 0 };
    assert_eq!(next_frame(0, &idle), 0);
}

#[test]
fn next_frame_outside_the_range() {
    let flying = AnimationIndices { first: 1, last: 5 };
    assert_eq!(next_frame(7, &flying), 1);
    let high = AnimationIndices { first: 3, last: 5 };
    assert_eq!(next_frame(0, &high), 1);
}

#[test]
fn animation_cycles_back_after_its_length() {
    let flying = AnimationIndices { first: 1, last: 5 };
    let mut index = 3;
    for _ in 0..5 {
        index = next_frame(index, &flying);
        assert!(index >= 1 && index <= 5);
    }
    assert_eq!(index, 3);
}

#[test]
fn animate_sprite_changes_frame_when_timer_finishes() {
    let indices = AnimationIndices { first: 1, last: 2 };
    let mut timer = AnimationTimer::new(100);
    let index = animate_sprite(&mut timer, &indices, 1, 50);
    assert_eq!(index, 1);
    assert_eq!(timer.timer.elapsed_nanos(), 50);
    let index = animate_sprite(&mut timer, &indices, index, 60);
    assert_eq!(index, 2);
    assert_eq!(timer.timer.elapsed_nanos(), 10);
    let index = animate_sprite(&mut timer, &indices, index, 90);
    assert_eq!(index, 1);
}

#[test]
fn animation_tables_of_the_game() {
    let t = AnimationTables::new();
    assert_eq!(t.player.flying, AnimationIndices { first: 1, last: 5 });
    assert_eq!(t.baddie1.idle, AnimationIndices { first: 0, last: 0 });
    assert_eq!(t.missle.flying, AnimationIndices { first: 1, last: 2 });
    assert_eq!(AnimationIndices::default(), AnimationIndices { first: 0, last: 0 });
}

#[test]
fn new_player_and_damage() {
    let mut p = Player::new();
    assert_eq!(p.hp, 10);
    assert_eq!(p.xp_to_level, 10);
    damage_player(&mut p);
    assert_eq!(p.hp, 9);
    assert_eq!(p.xp_to_level, 10);
    let mut dead = Player::default();
    damage_player(&mut dead);
    assert_eq!(dead.hp, 0);
}

#[test]
fn collisions_hurt_player_and_despawn_baddies() {
    let mut p = Player::new();
    let baddies = vec![2u64, 3u64];
    let contacts = vec![(1u64, 2u64), (4, 5), (3, 1), (2, 3), (1, 9), (5, 1)];
    let despawn = player_baddie_collision_handler(&mut p, 1, &baddies, &contacts);
    assert_eq!(despawn, vec![2u64, 3u64]);
    assert_eq!(p.hp, 8);
    assert_eq!(p.xp_to_level, 10);
}

#[test]
fn collisions_same_baddie_twice_counts_twice() {
    let mut p = Player { hp: 1, xp_to_level: 4 };
    let baddies = vec![7u64];
    let contacts = vec![(7u64, 1u64), (1, 7)];
    let despawn = player_baddie_collision_handler(&mut p, 1, &baddies, &contacts);
    assert_eq!(despawn, vec![7u64, 7u64]);
    assert_eq!(p.hp, 0);
}

#[test]
fn collisions_in_two_batches_match_one() {
    let baddies = vec![2u64, 3u64, 4u64];
    let all = vec![(1u64, 2u64), (3, 1), (9, 4), (1, 4)];
    let mut one = Player { hp: 3, xp_to_level: 0 };
    let d_all = player_baddie_collision_handler(&mut one, 1, &baddies, &all);
    let mut two = Player { hp: 3, xp_to_level: 0 };
    let mut d_first = player_baddie_collision_handler(&mut two, 1, &baddies, &all[..2].to_vec());
    let d_second = player_baddie_collision_handler(&mut two, 1, &baddies, &all[2..].to_vec());
    d_first.extend(d_second);
    assert_eq!(d_first, d_all);
    assert_eq!(one.hp, two.hp);
    assert_eq!(one.hp, 0);
}

#[test]
fn collisions_without_player_do_nothing() {
    let mut p = Player::new();
    let despawn = player_baddie_collision_handler(&mut p, 1, &vec![2, 3], &vec![(2, 3), (3, 2)]);
    assert!(despawn.is_empty());
    assert_eq!(p.hp, 10);
}

#[test]
fn hud_texts() {
    assert_eq!(xp_text(10), "Next Lvl: 10");
    assert_eq!(hp_text(0), "HP: 0");
    assert_eq!(hp_text(255), "HP: 255");
    assert_eq!(timer_text(true, 90), "90");
    assert_eq!(timer_text(true, 0), "0");
    assert_eq!(timer_text(false, 5), "OH SHIT!");
    assert_eq!(decimal_string(4294967295), "4294967295");
    assert_eq!(decimal_string(1007), "1007");
}

#[test]
fn missile_launcher_needs_a_player() {
    let mut t = MissleSpawnTimer::default();
    assert_eq!(t.0.duration_nanos(), 500_000_000);
    assert!(!missle_spawn_due(&mut t, false, 600_000_000));
    assert_eq!(t.0.elapsed_nanos(), 0);
    assert!(!missle_spawn_due(&mut t, true, 400_000_000));
    assert!(missle_spawn_due(&mut t, true, 100_000_000));
    assert_eq!(t.0.elapsed_nanos(), 0);
}

#[test]
fn baddie_spawner_fires_each_second() {
    let mut t = RepeatingTimer::new(1_000_000_000);
    assert!(!baddie_spawn_due(&mut t, 999_999_999));
    assert!(baddie_spawn_due(&mut t, 1));
    assert!(!baddie_spawn_due(&mut t, 16_000_000));
}

#[test]
fn player_controls() {
    let m = player_input_map();
    assert_eq!(m.len(), 7);
    assert_eq!(m[0], (Action::A, InputBinding::Key(Key::KeyA)));
    assert_eq!(m[1], (Action::B, InputBinding::Key(Key::KeyB)));
    assert_eq!(
        m[2],
        (
            Action::Move,
            InputBinding::DPad {
                up: Key::ArrowUp,
                down: Key::ArrowDown,
                left: Key::ArrowLeft,
                right: Key::ArrowRight
            }
        )
    );
    assert_eq!(m[3], (Action::Start, InputBinding::Key(Key::Enter)));
    assert_eq!(m[4], (Action::Start, InputBinding::Key(Key::NumpadEnter)));
    assert_eq!(m[5], (Action::Select, InputBinding::Key(Key::ShiftLeft)));
    assert_eq!(m[6], (Action::Select, InputBinding::Key(Key::ShiftRight)));
    for a in [Action::Move, Action::A, Action::B, Action::Select, Action::Start] {
        assert!(m.iter().any(|(b, _)| *b == a));
    }
}
