use clock_rs::config::{toml_bool, toml_int, toml_str, Change, ConfigWriter};
use clock_rs::color::Color;
use clock_rs::config::Config;
use clock_rs::error::Error;
use clock_rs::keys::{KeyCode, KeyEvent, KeyEventKind, NO_MODIFIERS};
use clock_rs::position::Position;
use clock_rs::state::State;

fn parse(text: &str) -> toml_edit::DocumentMut {
    text.parse::<toml_edit::DocumentMut>().unwrap()
}

#[test]
fn edit_creates_file_contents() {
    let changes = vec![
        Change::SetValue("general", "color", toml_str("red")),
        Change::SetValue("general", "interval", toml_int(250)),
        Change::SetValue("date", "use_12h", toml_bool(true)),
    ];
    let out = ConfigWriter::edit_text(None, "conf.toml", &changes).unwrap().unwrap();
    let doc = parse(&out);
    assert_eq!(doc["general"]["color"].as_str(), Some("red"));
    assert_eq!(doc["general"]["interval"].as_integer(), Some(250));
    assert_eq!(doc["date"]["use_12h"].as_bool(), Some(true));
}

#[test]
fn edit_keeps_comments_of_replaced_values() {
    let text = "# my clock\n[general]\ncolor = \"red\" # favourite\nblink = true\n";
    let changes = vec![Change::SetValue("general", "color", toml_str("blue"))];
    let out = ConfigWriter::edit_text(Some(text), "conf.toml", &changes).unwrap().unwrap();
    assert!(out.contains("# my clock"));
    assert!(out.contains("color = \"blue\" # favourite"));
    assert!(out.contains("blink = true"));
}

#[test]
fn edit_removes_entries() {
    let text = "[general]\ninterval = 300\nbold = true\n";
    let changes = vec![Change::Remove("general", "interval"), Change::Remove("date", "utc")];
    let out = ConfigWriter::edit_text(Some(text), "conf.toml", &changes).unwrap().unwrap();
    let doc = parse(&out);
    assert!(doc["general"].get("interval").is_none());
    assert_eq!(doc["general"]["bold"].as_bool(), Some(true));
    assert!(doc.get("date").is_none());
}

#[test]
fn edit_replaces_subtable_with_value() {
    let text = "[general]\n[general.color]\nx = 1\n";
    let changes = vec![Change::SetValue("general", "color", toml_str("green"))];
    let out = ConfigWriter::edit_text(Some(text), "conf.toml", &changes).unwrap().unwrap();
    let doc = parse(&out);
    assert_eq!(doc["general"]["color"].as_str(), Some("green"));
}

#[test]
fn edit_reports_bad_toml() {
    let r = ConfigWriter::edit_text(Some("[general\n"), "/c/conf.toml", &[]);
    match r {
        Err(Error::ParseToml { path, err }) => {
            assert_eq!(path, "/c/conf.toml");
            assert!(!err.is_empty());
        }
        other => panic!("unexpected {:?}", other),
    }
}

#[test]
fn edit_refuses_value_where_table_expected() {
    let changes = vec![Change::SetValue("general", "color", toml_str("red"))];
    let r = ConfigWriter::edit_text(Some("general = 5\n"), "conf.toml", &changes);
    assert_eq!(r, Ok(None));
    let r = ConfigWriter::edit_text(Some("general = { color = \"red\" }\n"), "conf.toml", &changes);
    assert_eq!(r, Ok(None));
    let removal = vec![Change::Remove("general", "color")];
    let r = ConfigWriter::edit_text(Some("general = 5\n"), "conf.toml", &removal).unwrap().unwrap();
    assert_eq!(parse(&r)["general"].as_integer(), Some(5));
}

#[test]
fn apply_changes_in_order() {
    let mut doc = parse("[general]\nbold = false\n");
    let changes = vec![
        Change::SetValue("general", "bold", toml_bool(true)),
        Change::Remove("general", "bold"),
        Change::SetValue("position", "vertical", toml_str("end")),
    ];
    ConfigWriter::apply_changes(&mut doc, &changes);
    assert!(doc["general"].get("bold").is_none());
    assert_eq!(doc["position"]["vertical"].as_str(), Some("end"));
}

#[test]
fn persisted_settings_read_back() {
    let press = |c: char| KeyEvent { code: KeyCode::Char(c), modifiers: NO_MODIFIERS, kind: KeyEventKind::Press };
    let baseline_text = "[general]\ncolor = \"white\" # start color\n\n[position]\nhorizontal = \"center\"\n";
    let mut s = State::new(Config::default(), None, false).unwrap();
    s.handle_key(&press('c'));
    s.handle_key(&press('c'));
    s.handle_key(&press('+'));
    s.handle_key(&press('b'));
    s.handle_key(&press('s'));
    s.clock.x_pos = Position::End;

    let changes = s.persist_changes();
    let out = ConfigWriter::edit_text(Some(baseline_text), "conf.toml", &changes).unwrap().unwrap();
    assert!(out.contains("# start color"));
    let doc = parse(&out);

    let mut read = Config::default();
    read.general.color = match doc["general"]["color"].as_str() {
        Some("bright-red") => Color::BrightRed,
        other => panic!("unexpected color {:?}", other),
    };
    read.general.interval = doc["general"].get("interval").and_then(|v| v.as_integer()).map(|n| n as u64);
    read.general.blink = doc["general"]["blink"].as_bool().unwrap();
    read.position.x = match doc["position"]["horizontal"].as_str() {
        Some("end") => Position::End,
        other => panic!("unexpected position {:?}", other),
    };
    read.date.hide_seconds = doc["date"]["hide_seconds"].as_bool().unwrap();

    let mut reloaded = State::new(Config::default(), None, false).unwrap();
    reloaded.reload_config(read);
    assert_eq!(reloaded.clock, s.clock);
    assert!(reloaded.persist_changes().is_empty());
}

#[test]
fn edit_dotted_keys() {
    let text = "general.interval = 5\ngeneral.bold = true\n";
    let changes = vec![Change::Remove("general", "interval"), Change::SetValue("general", "blink", toml_bool(true))];
    let out = ConfigWriter::edit_text(Some(text), "conf.toml", &changes).unwrap().unwrap();
    let doc = parse(&out);
    assert!(doc["general"].get("interval").is_none());
    assert_eq!(doc["general"]["bold"].as_bool(), Some(true));
    assert_eq!(doc["general"]["blink"].as_bool(), Some(true));
    let only = vec![Change::Remove("general", "interval")];
    let out = ConfigWriter::edit_text(Some("general.interval = 5\n"), "conf.toml", &only).unwrap().unwrap();
    assert!(parse(&out).get("general").map_or(true, |g| g.as_table_like().map_or(false, |t| t.is_empty())));
}

#[test]
fn remove_on_missing_file_writes_nothing() {
    let changes = vec![Change::Remove("general", "interval")];
    let out = ConfigWriter::edit_text(None, "new.toml", &changes).unwrap().unwrap();
    assert_eq!(out, "");
}

#[test]
fn writing_edits_twice_is_writing_once() {
    let text = "# clock\n[general]\ncolor = \"red\"  # mine\ninterval = 300\n\n[date]\nfmt = \"%Y\"\n";
    let changes = vec![
        Change::SetValue("general", "color", toml_str("cyan")),
        Change::Remove("general", "interval"),
        Change::SetValue("position", "vertical", toml_str("end")),
        Change::SetValue("date", "hide_seconds", toml_bool(true)),
    ];
    let once = ConfigWriter::edit_text(Some(text), "conf.toml", &changes).unwrap().unwrap();
    let twice = ConfigWriter::edit_text(Some(&once), "conf.toml", &changes).unwrap().unwrap();
    assert_eq!(once, twice);
    assert!(once.contains("color = \"cyan\"  # mine"));
}

#[test]
fn replaced_values_keep_their_place() {
    let text = "[general]\ncolor = \"red\"\nbold = true\n";
    let changes = vec![
        Change::SetValue("general", "color", toml_str("blue")),
        Change::SetValue("general", "blink", toml_bool(true)),
    ];
    let out = ConfigWriter::edit_text(Some(text), "conf.toml", &changes).unwrap().unwrap();
    assert_eq!(out, "[general]\ncolor = \"blue\"\nbold = true\nblink = true\n");
}

#[test]
fn removing_and_setting_again_moves_a_key_to_the_end() {
    let text = "[general]\ncolor = \"red\"\nbold = true\n";
    let changes = vec![
        Change::Remove("general", "color"),
        Change::SetValue("general", "color", toml_str("blue")),
    ];
    let out = ConfigWriter::edit_text(Some(text), "conf.toml", &changes).unwrap().unwrap();
    assert_eq!(out, "[general]\nbold = true\ncolor = \"blue\"\n");
}

#[test]
fn writing_pending_edits_twice_reads_back_alike() {
    let text = "[general]\ncolor = \"red\"\ninterval = 300\n";
    let changes = vec![
        Change::SetValue("general", "color", toml_str("cyan")),
        Change::Remove("general", "interval"),
    ];
    let once = ConfigWriter::edit_text(Some(text), "conf.toml", &changes).unwrap().unwrap();
    let twice = ConfigWriter::edit_text(Some(&once), "conf.toml", &changes).unwrap().unwrap();
    assert_eq!(parse(&once).to_string(), parse(&twice).to_string());
    assert_eq!(parse(&twice)["general"]["color"].as_str(), Some("cyan"));
}

#[test]
fn emptied_dotted_table_is_left_out_then_made_again() {
    let text = "general.color = \"red\"\n";
    let changes = vec![
        Change::SetValue("general", "color", toml_str("blue")),
        Change::Remove("general", "color"),
    ];
    let once = ConfigWriter::edit_text(Some(text), "conf.toml", &changes).unwrap().unwrap();
    assert!(parse(&once).get("general").is_none());
    let twice = ConfigWriter::edit_text(Some(&once), "conf.toml", &changes).unwrap().unwrap();
    assert_eq!(twice, "[general]\n");
}
