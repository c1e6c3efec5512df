use zsh_infinite::color::{
    check_stops, create_default_rainbow_gradient, hsl_to_rgb, lerp_rgb_color, rainbow_rgb, AccentColor, NamedColor,
};

#[test]
fn single_accent_is_constant() {
    let a = AccentColor::Single(NamedColor::Magenta);
    for (n, d) in [(0u64, 1u64), (1, 3), (5, 5), (9, 2), (3, 0)] {
        assert_eq!(a.get(n, d), NamedColor::Magenta);
    }
}

#[test]
fn rainbow_sector_values() {
    assert_eq!(AccentColor::Rainbow(0).get(0, 1), NamedColor::FullColor(255, 0, 0));
    assert_eq!(AccentColor::Rainbow(0).get(1, 2), NamedColor::FullColor(0, 255, 255));
    assert_eq!(AccentColor::Rainbow(0).get(1, 6), NamedColor::FullColor(255, 255, 0));
    assert_eq!(AccentColor::Rainbow(120).get(0, 1), NamedColor::FullColor(0, 255, 0));
    assert_eq!(rainbow_rgb(30, 0, 1), (255, 128, 0));
}

#[test]
fn hue_is_taken_modulo_a_full_turn() {
    assert_eq!(hsl_to_rgb(360, 1), hsl_to_rgb(0, 1));
    assert_eq!(hsl_to_rgb(0, 1), (255, 0, 0));
    assert_eq!(hsl_to_rgb(720 + 120, 1), (0, 255, 0));
}

#[test]
fn rainbow_wraps_past_full_turn() {
    assert_eq!(rainbow_rgb(300, 1, 6), (255, 0, 0));
    assert_eq!(rainbow_rgb(0, 1, 1), (255, 0, 0));
}

#[test]
fn progress_is_clamped() {
    let a = AccentColor::Gradient(create_default_rainbow_gradient());
    assert_eq!(a.get(7, 3), NamedColor::FullColor(148, 0, 211));
    assert_eq!(a.get(4, 0), NamedColor::FullColor(148, 0, 211));
    assert_eq!(a.get(0, 0), NamedColor::FullColor(255, 0, 0));
}

#[test]
fn gradient_exact_at_each_stop() {
    let stops = create_default_rainbow_gradient();
    let a = AccentColor::Gradient(stops.clone());
    for (rgb, pos) in stops {
        assert_eq!(a.get(pos as u64, 10000), NamedColor::FullColor(rgb.0, rgb.1, rgb.2));
    }
}

#[test]
fn gradient_midpoint_truncates() {
    let a = AccentColor::Gradient(vec![((0, 0, 0), 0), ((255, 255, 255), 10000)]);
    assert_eq!(a.get(1, 2), NamedColor::FullColor(127, 127, 127));
    assert_eq!(a.get(1, 4), NamedColor::FullColor(63, 63, 63));
    let b = AccentColor::Gradient(vec![((0, 0, 0), 0), ((1, 1, 1), 10000)]);
    assert_eq!(b.get(1, 2), NamedColor::FullColor(0, 0, 0));
}

#[test]
fn gradient_of_one_color_is_constant() {
    let a = AccentColor::Gradient(vec![((9, 80, 200), 0), ((9, 80, 200), 6000), ((9, 80, 200), 10000)]);
    for (n, d) in [(0u64, 1u64), (1, 3), (2, 3), (7, 9), (1, 1)] {
        assert_eq!(a.get(n, d), NamedColor::FullColor(9, 80, 200));
    }
}

#[test]
fn gradient_clamps_outside_stops() {
    let a = AccentColor::Gradient(vec![((10, 20, 30), 2500), ((40, 50, 60), 7500)]);
    assert_eq!(a.get(0, 1), NamedColor::FullColor(10, 20, 30));
    assert_eq!(a.get(1, 1), NamedColor::FullColor(40, 50, 60));
    assert_eq!(a.get(1, 2), NamedColor::FullColor(25, 35, 45));
}

#[test]
fn empty_gradient_falls_back_to_default() {
    let a = AccentColor::Gradient(vec![]);
    assert_eq!(a.get(0, 1), NamedColor::FullColor(255, 0, 0));
    assert_eq!(a.get(1, 1), NamedColor::FullColor(148, 0, 211));
}

#[test]
fn lerp_truncates() {
    assert_eq!(lerp_rgb_color((0, 0, 0), (10, 20, 30), 1, 4), (2, 5, 7));
    assert_eq!(lerp_rgb_color((30, 20, 10), (0, 0, 0), 1, 4), (22, 15, 7));
    assert_eq!(lerp_rgb_color((255, 0, 9), (0, 255, 9), 0, 7), (255, 0, 9));
    assert_eq!(lerp_rgb_color((255, 0, 9), (0, 255, 9), 7, 7), (0, 255, 9));
}

#[test]
fn stop_lists_are_checked() {
    assert!(check_stops(&create_default_rainbow_gradient()));
    assert!(check_stops(&vec![((1, 2, 3), 5000), ((4, 5, 6), 5000)]));
    assert!(!check_stops(&vec![]));
    assert!(!check_stops(&vec![((1, 2, 3), 6000), ((4, 5, 6), 5000)]));
    assert!(!check_stops(&vec![((1, 2, 3), 10001)]));
}
