use digital_rain::cell::{Color, Content, Emphasis, Pixel};

fn occupied(age: u8, lifetime: u8) -> Pixel {
    Pixel {
        content: Content::Zero,
        color: Color::BrightGreen,
        emphasis: Emphasis::Normal,
        age,
        lifetime,
    }
}

#[test]
fn default_is_blank() {
    let p = Pixel::default();
    assert_eq!(p.content, Content::Empty);
    assert_eq!(p.color, Color::Black);
    assert_eq!(p.emphasis, Emphasis::Normal);
    assert_eq!(p.age, 0);
    assert_eq!(p.lifetime, 0);
}

#[test]
fn blank_iff_age_zero() {
    let blank = Pixel::default();
    assert_eq!(blank.age, 0);
    assert_eq!(blank.content, Content::Empty);

    let mut p = Pixel::default();
    p.activate(5, Content::Zero);
    assert!(p.age > 0);
    assert_ne!(p.content, Content::Empty);
}

#[test]
fn activate_sets_a_bright_head() {
    let mut p = Pixel::default();
    p.activate(9, Content::One);
    assert_eq!(p.age, 1);
    assert_eq!(p.lifetime, 9);
    assert_eq!(p.color, Color::BrightGreen);
    assert_eq!(p.emphasis, Emphasis::Normal);
    assert_eq!(p.content, Content::One);
}

#[test]
fn set_color_follows_the_bands() {
    // With lifetime 10 the dark green band reaches floor(10 * 0.6) = 6, and
    // the grey band would end at floor(10 * 0.4) = 4, below the green band,
    // so every age past 6 falls straight to black.
    let mut p = occupied(1, 10);
    p.set_color();
    assert_eq!(p.color, Color::BrightGreen);
    for age in 2..=6 {
        let mut p = occupied(age, 10);
        p.set_color();
        assert_eq!(p.color, Color::DarkGreen);
    }
    for age in 7..=10 {
        let mut p = occupied(age, 10);
        p.set_color();
        assert_eq!(p.color, Color::Black);
    }
}

#[test]
fn set_color_short_lifetime() {
    // floor(2 * 0.6) = 1 and floor(2 * 0.4) = 0, so age 2 is already black.
    let mut p = occupied(2, 2);
    p.set_color();
    assert_eq!(p.color, Color::Black);
}

#[test]
fn set_attribute_dims_the_body_only() {
    let mut head = occupied(1, 10);
    head.set_attribute();
    assert_eq!(head.emphasis, Emphasis::Normal);

    let mut body = occupied(2, 10);
    body.set_attribute();
    assert_eq!(body.emphasis, Emphasis::Dim);

    let mut tail = occupied(10, 10);
    tail.set_attribute();
    assert_eq!(tail.emphasis, Emphasis::Dim);

    let mut past = occupied(11, 10);
    past.set_attribute();
    assert_eq!(past.emphasis, Emphasis::Normal);
}

#[test]
fn advance_ages_and_fades() {
    let mut p = Pixel::default();
    p.activate(6, Content::Zero);
    p.advance();
    assert_eq!(p.age, 2);
    assert_eq!(p.lifetime, 6);
    assert_eq!(p.color, Color::DarkGreen);
    assert_eq!(p.emphasis, Emphasis::Dim);
    p.advance();
    assert_eq!(p.age, 3);
    assert_eq!(p.color, Color::DarkGreen);
    p.advance();
    assert_eq!(p.age, 4);
    assert_eq!(p.color, Color::Black);
    assert_eq!(p.emphasis, Emphasis::Dim);
}

#[test]
fn advance_past_lifetime_resets() {
    let mut p = occupied(6, 6);
    p.advance();
    assert_eq!(p, Pixel::default());
}

#[test]
fn reset_blanks_the_cell() {
    let mut p = occupied(3, 8);
    p.reset();
    assert_eq!(p, Pixel::default());
}

#[test]
fn new_content_is_a_digit_and_varies() {
    let p = Pixel::default();
    let mut saw_zero = false;
    let mut saw_one = false;
    for _ in 0..200 {
        match p.new_content() {
            Content::Zero => saw_zero = true,
            Content::One => saw_one = true,
            Content::Empty => panic!("a freshly randomized glyph must be a digit"),
        }
    }
    assert!(saw_zero && saw_one);
}

#[test]
fn symbol_matches_content() {
    assert_eq!(Content::Empty.symbol(), ' ');
    assert_eq!(Content::Zero.symbol(), '0');
    assert_eq!(Content::One.symbol(), '1');
}
