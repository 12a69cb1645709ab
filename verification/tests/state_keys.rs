use clock_rs::clock::{ClockMode, CounterType};
use clock_rs::color::Color;
use clock_rs::config::{Change, Config, TomlValue};
use clock_rs::error::Error;
use clock_rs::keys::{Command, KeyCode, KeyEvent, KeyEventKind, CONTROL, NO_MODIFIERS, SHIFT};
use clock_rs::position::Position;
use clock_rs::state::{Action, Mode, State, TimerArgs};

fn key(c: char, modifiers: u8) -> KeyEvent {
    KeyEvent { code: KeyCode::Char(c), modifiers, kind: KeyEventKind::Press }
}

fn clock_state() -> State {
    State::new(Config::default(), None, false).unwrap()
}

fn timer(h: Option<u64>, m: Option<u64>, s: Option<u64>) -> Option<Mode> {
    Some(Mode::Timer(TimerArgs { seconds: s, minutes: m, hours: h, kill: false }))
}

#[test]
fn clock_mode_time_uses_config() {
    let mut config = Config::default();
    config.date.utc = true;
    config.date.fmt = "%Y".to_string();
    let m = State::clock_mode(None, &config).unwrap();
    assert_eq!(m, ClockMode::Time { utc: true, date_format: "%Y".to_string() });
    let m = State::clock_mode(Some(Mode::Clock), &config).unwrap();
    assert_eq!(m, ClockMode::Time { utc: true, date_format: "%Y".to_string() });
}

#[test]
fn clock_mode_stopwatch() {
    let m = State::clock_mode(Some(Mode::Stopwatch), &Config::default()).unwrap();
    assert_eq!(m, ClockMode::Counter(CounterType::Stopwatch));
}

#[test]
fn clock_mode_timer_durations() {
    let c = Config::default();
    assert_eq!(
        State::clock_mode(timer(None, None, None), &c).unwrap(),
        ClockMode::Counter(CounterType::Timer { duration_secs: 300, kill: false })
    );
    assert_eq!(
        State::clock_mode(timer(Some(1), Some(2), Some(3)), &c).unwrap(),
        ClockMode::Counter(CounterType::Timer { duration_secs: 3723, kill: false })
    );
    assert_eq!(
        State::clock_mode(timer(Some(99), Some(59), Some(59)), &c).unwrap(),
        ClockMode::Counter(CounterType::Timer { duration_secs: 359999, kill: false })
    );
}

#[test]
fn clock_mode_timer_too_long() {
    let r = State::clock_mode(timer(Some(100), None, None), &Config::default());
    assert_eq!(r, Err(Error::TimerDurationTooLong { hours: 100, minutes: 0, seconds: 0 }));
    let r = State::clock_mode(timer(None, None, Some(360000)), &Config::default());
    assert_eq!(r, Err(Error::TimerDurationTooLong { hours: 0, minutes: 0, seconds: 360000 }));
}

#[test]
fn new_state_takes_config() {
    let mut config = Config::default();
    config.general.blink = true;
    config.general.color = Color::Red;
    let s = State::new(config.clone(), None, true).unwrap();
    assert_eq!(s.clock.interval_ms, 500);
    assert!(s.clock.interval_auto);
    assert_eq!(s.clock.color, Color::Red);
    assert!(s.plain);
    assert_eq!(s.baseline, config);
    config.general.interval = Some(250);
    let s = State::new(config, None, false).unwrap();
    assert_eq!(s.clock.interval_ms, 250);
    assert!(!s.clock.interval_auto);
}

#[test]
fn new_state_reports_long_timer() {
    let r = State::new(Config::default(), timer(Some(200), None, None), false);
    assert_eq!(r, Err(Error::TimerDurationTooLong { hours: 200, minutes: 0, seconds: 0 }));
}

#[test]
fn key_bindings() {
    assert_eq!(key('q', NO_MODIFIERS).command(), Command::Quit);
    assert_eq!(key('Q', NO_MODIFIERS).command(), Command::Quit);
    assert_eq!(KeyEvent { code: KeyCode::Esc, modifiers: NO_MODIFIERS, kind: KeyEventKind::Release }.command(), Command::Quit);
    assert_eq!(key('c', CONTROL).command(), Command::Quit);
    assert_eq!(key('r', CONTROL).command(), Command::ReloadConfig);
    assert_eq!(key('p', NO_MODIFIERS).command(), Command::TogglePause);
    assert_eq!(key('P', SHIFT).command(), Command::TogglePause);
    assert_eq!(key('r', NO_MODIFIERS).command(), Command::RestartCounter);
    assert_eq!(key('-', NO_MODIFIERS).command(), Command::IntervalDown);
    assert_eq!(key('+', NO_MODIFIERS).command(), Command::IntervalUp);
    assert_eq!(key('=', NO_MODIFIERS).command(), Command::IntervalUp);
    assert_eq!(key('c', NO_MODIFIERS).command(), Command::NextColor);
    assert_eq!(key('C', SHIFT).command(), Command::PrevColor);
    assert_eq!(key('C', NO_MODIFIERS).command(), Command::Ignore);
    assert_eq!(key('b', NO_MODIFIERS).command(), Command::ToggleBlink);
    assert_eq!(key('S', SHIFT).command(), Command::ToggleSeconds);
    assert_eq!(key('h', NO_MODIFIERS).command(), Command::TogglePlain);
    assert_eq!(key('x', NO_MODIFIERS).command(), Command::Ignore);
    assert_eq!(key('q', SHIFT).command(), Command::Ignore);
    assert_eq!(KeyEvent { code: KeyCode::Other, modifiers: NO_MODIFIERS, kind: KeyEventKind::Press }.command(), Command::Ignore);
}

#[test]
fn keys_act_only_on_press() {
    let release = KeyEvent { code: KeyCode::Char('b'), modifiers: NO_MODIFIERS, kind: KeyEventKind::Release };
    assert_eq!(release.command(), Command::Ignore);
    let repeat = KeyEvent { code: KeyCode::Char('-'), modifiers: NO_MODIFIERS, kind: KeyEventKind::Repeat };
    assert_eq!(repeat.command(), Command::Ignore);
}

#[test]
fn counter_keys_need_a_counter() {
    let mut s = clock_state();
    assert_eq!(s.handle_key(&key('p', NO_MODIFIERS)), Action::Nothing);
    assert_eq!(s.handle_key(&key('r', NO_MODIFIERS)), Action::Nothing);
    let mut s = State::new(Config::default(), Some(Mode::Stopwatch), false).unwrap();
    assert_eq!(s.handle_key(&key('p', NO_MODIFIERS)), Action::TogglePause);
    assert_eq!(s.handle_key(&key('R', SHIFT)), Action::RestartCounter);
}

#[test]
fn interval_keys_change_and_return() {
    let mut s = clock_state();
    assert_eq!(s.clock.interval_ms, 1000);
    assert_eq!(s.handle_key(&key('+', NO_MODIFIERS)), Action::Nothing);
    assert_eq!(s.clock.interval_ms, 1100);
    assert!(!s.clock.interval_auto);
    s.handle_key(&key('-', NO_MODIFIERS));
    assert_eq!(s.clock.interval_ms, 1000);
    assert!(s.clock.interval_auto);
    s.handle_key(&key('-', NO_MODIFIERS));
    assert_eq!(s.clock.interval_ms, 900);
    assert!(!s.clock.interval_auto);
}

#[test]
fn blink_key_keeps_auto_interval() {
    let mut s = clock_state();
    s.handle_key(&key('b', NO_MODIFIERS));
    assert!(s.clock.blink);
    assert_eq!(s.clock.interval_ms, 500);
    s.handle_key(&key('B', SHIFT));
    assert!(!s.clock.blink);
    assert_eq!(s.clock.interval_ms, 1000);
    s.handle_key(&key('+', NO_MODIFIERS));
    s.handle_key(&key('b', NO_MODIFIERS));
    assert_eq!(s.clock.interval_ms, 1100);
}

#[test]
fn toggles_and_colors() {
    let mut s = clock_state();
    assert_eq!(s.handle_key(&key('s', NO_MODIFIERS)), Action::Redraw);
    assert!(s.clock.hide_seconds);
    assert_eq!(s.handle_key(&key('h', NO_MODIFIERS)), Action::Redraw);
    assert!(s.plain);
    s.handle_key(&key('c', NO_MODIFIERS));
    assert_eq!(s.clock.color, Color::BrightBlack);
    s.handle_key(&key('C', SHIFT));
    assert_eq!(s.clock.color, Color::White);
    assert_eq!(s.handle_key(&key('c', CONTROL)), Action::Quit);
    assert_eq!(s.handle_key(&key('r', CONTROL)), Action::ReloadConfig);
}

#[test]
fn fresh_state_persists_nothing() {
    let s = clock_state();
    assert!(s.persist_changes().is_empty());
}

#[test]
fn persist_changes_lists_changed_settings() {
    let mut s = clock_state();
    s.handle_key(&key('c', NO_MODIFIERS));
    s.handle_key(&key('+', NO_MODIFIERS));
    s.handle_key(&key('s', NO_MODIFIERS));
    s.clock.x_pos = Position::Start;
    let changes = s.persist_changes();
    assert_eq!(
        changes,
        vec![
            Change::SetValue("general", "color", TomlValue::Str("bright-black".to_string())),
            Change::SetValue("general", "interval", TomlValue::Int(1100)),
            Change::SetValue("position", "horizontal", TomlValue::Str("start".to_string())),
            Change::SetValue("date", "hide_seconds", TomlValue::Bool(true)),
        ]
    );
}

#[test]
fn persist_removes_interval_back_to_auto() {
    let mut config = Config::default();
    config.general.interval = Some(1100);
    let mut s = State::new(config, None, false).unwrap();
    s.handle_key(&key('-', NO_MODIFIERS));
    assert!(s.clock.interval_auto);
    assert_eq!(s.persist_changes(), vec![Change::Remove("general", "interval")]);
}

#[test]
fn reload_takes_new_settings() {
    let mut s = clock_state();
    s.handle_key(&key('h', NO_MODIFIERS));
    let mut config = Config::default();
    config.general.color = Color::Cyan;
    config.general.interval = Some(300);
    config.general.bold = true;
    config.position.y = Position::End;
    config.date.utc = true;
    config.date.fmt = "%m".to_string();
    s.reload_config(config.clone());
    assert_eq!(s.clock.color, Color::Cyan);
    assert_eq!(s.clock.interval_ms, 300);
    assert!(!s.clock.interval_auto);
    assert!(s.clock.bold);
    assert_eq!(s.clock.y_pos, Position::End);
    assert_eq!(s.clock.mode, ClockMode::Time { utc: true, date_format: "%m".to_string() });
    assert!(s.plain);
    assert_eq!(s.baseline, config);
    assert!(s.persist_changes().is_empty());
}

#[test]
fn reload_keeps_counter() {
    let mut s = State::new(Config::default(), Some(Mode::Stopwatch), false).unwrap();
    s.reload_config(Config::default());
    assert_eq!(s.clock.mode, ClockMode::Counter(CounterType::Stopwatch));
}

#[test]
fn statusbar_auto_fills_width() {
    let s = clock_state();
    let bar = s.render_statusbar(80, 24);
    let left = "\u{2014} b: Blink | s: Secs | c: Color | -/+: Interval | h: Hide ";
    let right = " auto \u{2014}";
    let fill = 80 - left.chars().count() - right.chars().count();
    let expected = format!("\x1B[24;1H\x1B[2m{}{}{}\x1B[0m", left, "\u{2014}".repeat(fill), right);
    assert_eq!(bar, expected);
}

#[test]
fn statusbar_shows_interval_and_narrow_terminal() {
    let mut s = clock_state();
    s.handle_key(&key('+', NO_MODIFIERS));
    let bar = s.render_statusbar(10, 5);
    let left = "\u{2014} b: Blink | s: Secs | c: Color | -/+: Interval | h: Hide ";
    let expected = format!("\x1B[5;1H\x1B[2m{} 1100ms \u{2014}\x1B[0m", left);
    assert_eq!(bar, expected);
}
