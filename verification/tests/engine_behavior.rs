use digital_rain::cell::{Color, Content, Emphasis, Pixel};
use digital_rain::engine::Screen;
use digital_rain::{MAX_STREAM_LENGTH, MIN_STREAM_LENGTH};

#[test]
fn new_screen_is_all_blank() {
    let s = Screen::new(3, 2);
    assert_eq!(s.columns, 3);
    assert_eq!(s.rows, 2);
    for x in 0..3 {
        for y in 0..2 {
            assert_eq!(s.get(x, y), Pixel::default());
        }
    }
}

#[test]
fn scenario_single_column_lifetime_two() {
    // One column of three rows, a spawn forced at the first tick with
    // lifetime 2 and no spawns afterwards.
    let mut s = Screen::new(1, 3);

    s.tick_step(&vec![Some(2)]);
    let head = s.get(0, 0);
    assert_eq!(head.age, 1);
    assert_eq!(head.lifetime, 2);
    assert_eq!(head.color, Color::BrightGreen);
    assert_eq!(head.emphasis, Emphasis::Normal);
    assert_eq!(s.get(0, 1), Pixel::default());
    assert_eq!(s.get(0, 2), Pixel::default());

    s.tick_step(&vec![None]);
    let row0 = s.get(0, 0);
    assert_eq!(row0.age, 2);
    assert_eq!(row0.lifetime, 2);
    assert_eq!(row0.color, Color::Black);
    assert_eq!(row0.emphasis, Emphasis::Dim);
    let row1 = s.get(0, 1);
    assert_eq!(row1.age, 1);
    assert_eq!(row1.lifetime, 2);
    assert_eq!(row1.color, Color::BrightGreen);
    assert_eq!(s.get(0, 2), Pixel::default());

    s.tick_step(&vec![None]);
    assert_eq!(s.get(0, 0), Pixel::default());
    let row1 = s.get(0, 1);
    assert_eq!(row1.age, 2);
    assert_eq!(row1.lifetime, 2);
    assert_eq!(row1.color, Color::Black);
    assert_eq!(row1.emphasis, Emphasis::Dim);
    let row2 = s.get(0, 2);
    assert_eq!(row2.age, 1);
    assert_eq!(row2.lifetime, 2);
    assert_eq!(row2.color, Color::BrightGreen);
}

#[test]
fn continuation_carries_the_head_lifetime() {
    let mut s = Screen::new(1, 4);
    s.tick_step(&vec![Some(7)]);
    s.tick_step(&vec![None]);
    assert_eq!(s.get(0, 0).age, 2);
    assert_eq!(s.get(0, 0).lifetime, 7);
    assert_eq!(s.get(0, 1).age, 1);
    assert_eq!(s.get(0, 1).lifetime, 7);
    s.tick_step(&vec![None]);
    assert_eq!(s.get(0, 1).age, 2);
    assert_eq!(s.get(0, 1).lifetime, 7);
    assert_eq!(s.get(0, 2).age, 1);
    assert_eq!(s.get(0, 2).lifetime, 7);
}

#[test]
fn spawn_is_skipped_in_an_occupied_column() {
    let mut s = Screen::new(1, 3);
    s.tick_step(&vec![Some(6)]);
    // The column still carries the descending stream, so this spawn
    // decision must be ignored: only the continuation head may appear.
    s.tick_step(&vec![Some(9)]);
    assert_eq!(s.get(0, 0).age, 2);
    let mut heads = 0;
    for y in 0..3 {
        if s.get(0, y).age == 1 {
            heads += 1;
            assert_eq!(s.get(0, y).lifetime, 6);
        }
    }
    assert_eq!(heads, 1);
}

#[test]
fn continuation_past_the_bottom_is_dropped() {
    let mut s = Screen::new(1, 2);
    s.tick_step(&vec![Some(5)]);
    s.tick_step(&vec![None]);
    assert_eq!(s.get(0, 1).age, 1);
    assert_eq!(s.get(0, 1).lifetime, 5);
    // The head now sits in the bottom row; its continuation would land one
    // row past the edge and must vanish without any other effect.
    s.tick_step(&vec![None]);
    assert_eq!(s.get(0, 0).age, 3);
    assert_eq!(s.get(0, 1).age, 2);
    for y in 0..2 {
        assert_ne!(s.get(0, y).age, 1);
    }
}

#[test]
fn empty_grids_tick_without_effect() {
    let mut none_wide = Screen::new(0, 5);
    none_wide.tick_step(&vec![]);
    none_wide.tick();

    let mut none_tall = Screen::new(4, 0);
    none_tall.tick_step(&vec![Some(6), None, Some(8), None]);
    none_tall.tick();
    assert_eq!(none_tall.columns, 4);
    assert_eq!(none_tall.rows, 0);
}

#[test]
fn random_ticks_spawn_within_the_configured_range() {
    let mut s = Screen::new(2, 4);
    let mut spawned = 0;
    for _ in 0..3000 {
        let decisions = s.tick();
        assert_eq!(decisions.len(), 2);
        for d in decisions {
            if let Some(lifetime) = d {
                spawned += 1;
                assert!((MIN_STREAM_LENGTH..=MAX_STREAM_LENGTH).contains(&lifetime));
            }
        }
        for x in 0..2 {
            for y in 0..4 {
                let p = s.get(x, y);
                if p.age > 0 {
                    assert!(p.age <= p.lifetime);
                    assert!((MIN_STREAM_LENGTH..=MAX_STREAM_LENGTH).contains(&p.lifetime));
                    assert_ne!(p.content, Content::Empty);
                } else {
                    assert_eq!(p, Pixel::default());
                }
            }
        }
    }
    // With a 1-in-100 chance per column per tick, 6000 trials virtually
    // never all miss; a generator stuck on false would fail here.
    assert!(spawned > 0);
}
