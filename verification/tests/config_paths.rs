use clock_rs::color::Color;
use clock_rs::config::{
    toml_bool, toml_int, toml_str, Config, DateConfig, EnvVar, LocalConfigFile, Overrides, TomlValue,
};
use clock_rs::error::Error;
use clock_rs::position::Position;

#[test]
fn default_config() {
    let c = Config::default();
    assert_eq!(c.general.color, Color::White);
    assert_eq!(c.general.interval, None);
    assert!(!c.general.blink && !c.general.bold);
    assert_eq!(c.position.x, Position::Center);
    assert_eq!(c.position.y, Position::Center);
    assert_eq!(c.date.fmt, "%d-%m-%Y");
    assert!(!c.date.use_12h && !c.date.utc && !c.date.hide_seconds);
    assert_eq!(DateConfig::default().fmt, "%d-%m-%Y");
}

fn local(path: &str, exists: bool) -> Option<LocalConfigFile> {
    Some(LocalConfigFile { path: path.to_string(), exists })
}

#[test]
fn resolve_path_env_none_means_no_file() {
    let r = Config::resolve_path(EnvVar::Present("None".to_string()), local("/c/conf.toml", true));
    assert_eq!(r, Ok(None));
}

#[test]
fn resolve_path_env_path_wins() {
    let r = Config::resolve_path(EnvVar::Present("/tmp/my.toml".to_string()), local("/c/conf.toml", true));
    assert_eq!(r, Ok(Some("/tmp/my.toml".to_string())));
}

#[test]
fn resolve_path_non_unicode_is_error() {
    let r = Config::resolve_path(EnvVar::NotUnicode("/tmp/\u{fffd}".to_string()), None);
    assert_eq!(r, Err(Error::NonUnicodePath("/tmp/\u{fffd}".to_string())));
}

#[test]
fn resolve_path_local_file() {
    assert_eq!(
        Config::resolve_path(EnvVar::NotPresent, local("/c/conf.toml", true)),
        Ok(Some("/c/conf.toml".to_string()))
    );
    assert_eq!(Config::resolve_path(EnvVar::NotPresent, local("/c/conf.toml", false)), Ok(None));
    assert_eq!(Config::resolve_path(EnvVar::NotPresent, None), Ok(None));
}

#[test]
fn save_path_choices() {
    assert_eq!(
        Config::save_path(EnvVar::Present("/tmp/a.toml".to_string()), Some("/c/conf.toml".to_string())),
        Ok("/tmp/a.toml".to_string())
    );
    assert_eq!(
        Config::save_path(EnvVar::Present("None".to_string()), Some("/c/conf.toml".to_string())),
        Ok("/c/conf.toml".to_string())
    );
    assert_eq!(
        Config::save_path(EnvVar::NotUnicode("x".to_string()), Some("/c/conf.toml".to_string())),
        Ok("/c/conf.toml".to_string())
    );
    assert_eq!(
        Config::save_path(EnvVar::NotPresent, None),
        Err(Error::NonUnicodePath("no OS config dir".to_string()))
    );
}

#[test]
fn toml_value_constructors() {
    assert_eq!(toml_str("red"), TomlValue::Str("red".to_string()));
    assert_eq!(toml_bool(true), TomlValue::Bool(true));
    assert_eq!(toml_int(-5), TomlValue::Int(-5));
}

#[test]
fn overrides_take_precedence() {
    let mut c = Config::default();
    c.general.interval = Some(700);
    c.general.bold = true;
    let o = Overrides {
        color: Some(Color::Red),
        x_pos: None,
        y_pos: Some(Position::Start),
        fmt: Some("%Y".to_string()),
        interval: None,
        use_12h: true,
        utc: false,
        hide_seconds: false,
        blink: true,
        bold: false,
    };
    o.overwrite(&mut c);
    assert_eq!(c.general.color, Color::Red);
    assert_eq!(c.position.x, Position::Center);
    assert_eq!(c.position.y, Position::Start);
    assert_eq!(c.date.fmt, "%Y");
    assert_eq!(c.general.interval, Some(700));
    assert!(c.date.use_12h && c.general.blink && c.general.bold);
    assert!(!c.date.utc);
}
