use asteroids::config::Config;

fn fx(v: f64) -> i64 {
    (v * 4294967296.0).round() as i64
}

#[test]
fn the_settings_of_the_game() {
    let config = Config::new();
    assert_eq!(config.width(), fx(200.0));
    assert_eq!(config.height(), fx(200.0));
    assert_eq!(config.astroid_gap_distance(), fx(25.0));
    assert_eq!(config.font_path(), "res/Carlito-Regular.ttf");
    assert_eq!(config.font_offset(), (fx(-45.0), fx(0.0)));
}
