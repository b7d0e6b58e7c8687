use digital_rain::rain::{get_charset, RainSimulation};

#[test]
fn charset_contents() {
    let cs = get_charset();
    assert_eq!(cs.len(), 56);
    assert_eq!(cs[0] as u32, 0xFF66);
    assert_eq!(cs[55] as u32, 0xFF9D);
    for (i, c) in cs.iter().enumerate() {
        assert_eq!(*c as u32, 0xFF66 + i as u32);
    }
}

#[test]
fn spawn_one_streak_per_column() {
    let sim = RainSimulation::new_seeded(400, 300, 9);
    let streaks = sim.streaks();
    assert_eq!(streaks.len(), 10);
    for (i, s) in streaks.iter().enumerate() {
        assert_eq!(s.x, 40 * i);
    }
}

#[test]
fn spawn_head_positions_spread_across_virtual_area() {
    let sim = RainSimulation::new_seeded(1280, 720, 11);
    for s in sim.streaks().iter() {
        assert!(s.y >= -720_000);
        assert!(s.y <= 2 * 720_000);
    }
}

#[test]
fn spawn_zero_width_holds_no_streaks() {
    let sim = RainSimulation::new_seeded(0, 100, 1);
    assert_eq!(sim.streaks().len(), 0);
}

#[test]
fn speed_and_length_bounds_hold_at_every_step() {
    let mut sim = RainSimulation::new_seeded(800, 600, 1);
    for _ in 0..200 {
        for s in sim.streaks().iter() {
            assert!(s.speed > 0);
            assert!(s.speed < 5000);
            assert!(s.length >= 42 && s.length < 70);
            assert!(s.chars.len() <= 80);
            assert_eq!(s.chars.len(), s.length.min(80));
        }
        sim.update();
    }
}

#[test]
fn seeded_runs_are_reproducible_bit_for_bit() {
    let mut a = RainSimulation::new_seeded(640, 480, 42);
    let mut b = RainSimulation::new_seeded(640, 480, 42);
    for _ in 0..100 {
        a.update();
        b.update();
    }
    let sa = a.streaks();
    let sb = b.streaks();
    assert_eq!(sa.len(), sb.len());
    for (x, y) in sa.iter().zip(sb.iter()) {
        assert_eq!(x.x, y.x);
        assert_eq!(x.y, y.y);
        assert_eq!(x.length, y.length);
        assert_eq!(x.speed, y.speed);
        assert_eq!(x.chars, y.chars);
    }
}

#[test]
fn different_seeds_give_different_streams() {
    let a = RainSimulation::new_seeded(640, 480, 1);
    let b = RainSimulation::new_seeded(640, 480, 2);
    let differs = a
        .streaks()
        .iter()
        .zip(b.streaks().iter())
        .any(|(x, y)| x.y != y.y || x.speed != y.speed || x.chars != y.chars);
    assert!(differs);
}

#[test]
fn heads_fall_monotonically_until_recycled() {
    let height: usize = 50;
    let mut sim = RainSimulation::new_seeded(40, height, 3);
    let mut recycled_seen = false;
    for _ in 0..2000 {
        let before: Vec<(i64, u32)> = sim.streaks().iter().map(|s| (s.y, s.speed)).collect();
        sim.update();
        for (s, (y0, v0)) in sim.streaks().iter().zip(before.iter()) {
            if s.y == *y0 + *v0 as i64 {
                // fell by exactly its speed
            } else {
                // recycled: head resets above the visible area
                assert_eq!(s.y, -(height as i64) * 1000);
                assert!(s.y <= 0);
                recycled_seen = true;
            }
        }
    }
    assert!(recycled_seen);
}

#[test]
fn glyph_flicker_runs_on_its_cadences() {
    let mut sim = RainSimulation::new_seeded(800, 600, 13);
    let initial: Vec<Vec<char>> = sim.streaks().iter().map(|s| s.chars.clone()).collect();
    let charset = get_charset();

    // The mid-chain phase first fires on the 6th update, the head phase
    // on the 8th: during the first five updates no character changes.
    for _ in 0..5 {
        sim.update();
        for (s, c0) in sim.streaks().iter().zip(initial.iter()) {
            assert_eq!(&s.chars, c0);
        }
    }

    // The 6th update mutates at most one glyph, in one streak, never the
    // head, and always to a charset character.
    sim.update();
    let mut changed = 0;
    for (s, c0) in sim.streaks().iter().zip(initial.iter()) {
        for (k, (a, b)) in s.chars.iter().zip(c0.iter()).enumerate() {
            if a != b {
                changed += 1;
                assert!(k >= 1, "the head is not a mid-chain glyph");
                assert!(charset.contains(a));
            }
        }
    }
    assert!(changed <= 1);

    // By the 8th update the head phase has fired: every head character
    // is a charset character, and some head has changed.
    sim.update();
    sim.update();
    let mut head_changed = false;
    for (s, c0) in sim.streaks().iter().zip(initial.iter()) {
        assert!(charset.contains(&s.chars[0]));
        if s.chars[0] != c0[0] {
            head_changed = true;
        }
    }
    assert!(head_changed);
}

#[test]
fn resize_respawns_for_the_new_dimensions() {
    let mut sim = RainSimulation::new_seeded(800, 600, 5);
    sim.resize(400, 300);
    let fresh = RainSimulation::new_seeded(400, 300, 6);
    assert_eq!(sim.streaks().len(), fresh.streaks().len());
    assert_eq!(sim.streaks().len(), 10);
    for s in sim.streaks().iter() {
        assert!(s.x < 400);
    }
}

#[test]
fn entropy_seeded_simulation_is_well_formed() {
    let mut sim = RainSimulation::new(320, 200);
    sim.update();
    assert_eq!(sim.streaks().len(), 8);
    for s in sim.streaks().iter() {
        assert!(s.speed > 0);
        assert!(s.x < 320);
    }
}
