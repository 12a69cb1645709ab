use clock_rs::clock::{auto_interval, interval_down, interval_up};
use clock_rs::color::{next_color, prev_color, Color};
use clock_rs::position::Position;

#[test]
fn calculate_start_is_first_cell() {
    assert_eq!(Position::Start.calculate(80, 10), 1);
    assert_eq!(Position::Start.calculate(0, 0), 1);
}

#[test]
fn calculate_center() {
    assert_eq!(Position::Center.calculate(80, 10), 30);
    assert_eq!(Position::Center.calculate(81, 10), 30);
    assert_eq!(Position::Center.calculate(10, 10), 0);
}

#[test]
fn calculate_end() {
    assert_eq!(Position::End.calculate(80, 10), 58);
    assert_eq!(Position::End.calculate(22, 10), 0);
    assert_eq!(Position::End.calculate(10, 10), 0);
}

#[test]
fn position_names() {
    assert_eq!(Position::Start.as_toml_str(), "start");
    assert_eq!(Position::Center.as_toml_str(), "center");
    assert_eq!(Position::End.as_toml_str(), "end");
    assert_eq!(Position::default(), Position::Center);
}

#[test]
fn colors_cycle_and_wrap() {
    assert_eq!(next_color(&Color::Black), Color::Red);
    assert_eq!(next_color(&Color::BrightWhite), Color::Black);
    assert_eq!(prev_color(&Color::Black), Color::BrightWhite);
    assert_eq!(prev_color(&Color::Red), Color::Black);
    let all = [
        Color::Black, Color::Red, Color::Green, Color::Yellow, Color::Blue, Color::Magenta,
        Color::Cyan, Color::White, Color::BrightBlack, Color::BrightRed, Color::BrightGreen,
        Color::BrightYellow, Color::BrightBlue, Color::BrightMagenta, Color::BrightCyan,
        Color::BrightWhite,
    ];
    for c in all.iter() {
        assert_eq!(prev_color(&next_color(c)), *c);
        assert_eq!(next_color(&prev_color(c)), *c);
    }
    let mut c = Color::White;
    for _ in 0..16 {
        c = next_color(&c);
    }
    assert_eq!(c, Color::White);
}

#[test]
fn color_names() {
    assert_eq!(Color::BrightBlack.as_toml_string(), "bright-black");
    assert_eq!(Color::Magenta.as_toml_string(), "magenta");
    assert_eq!(Color::default(), Color::White);
}

#[test]
fn auto_interval_follows_blink() {
    assert_eq!(auto_interval(true), 500);
    assert_eq!(auto_interval(false), 1000);
}

#[test]
fn interval_down_steps_and_snaps() {
    assert_eq!(interval_down(1500, 1000), 1400);
    assert_eq!(interval_down(1050, 1000), 1000);
    assert_eq!(interval_down(1000, 1000), 900);
    assert_eq!(interval_down(150, 1000), 100);
    assert_eq!(interval_down(100, 1000), 100);
    assert_eq!(interval_down(0, 1000), 100);
}

#[test]
fn interval_up_steps_and_snaps() {
    assert_eq!(interval_up(500, 1000), 600);
    assert_eq!(interval_up(950, 1000), 1000);
    assert_eq!(interval_up(1000, 1000), 1100);
    assert_eq!(interval_up(9850, 1000), 9900);
    assert_eq!(interval_up(20000, 1000), 9900);
}

#[test]
fn interval_steps_undo_on_grid() {
    for ms in [200u64, 500, 1000, 4300, 9800] {
        assert_eq!(interval_down(interval_up(ms, 1000), 1000), ms);
        assert_eq!(interval_up(interval_down(ms, 1000), 1000), ms);
    }
}
