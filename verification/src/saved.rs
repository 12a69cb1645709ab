use vstd::prelude::*;

use crate::clock::Clock;
use crate::color::{color_named, spec_color_name, Color};
use crate::config::{
    distinct_targets, doc_after_change, doc_after_changes, edit_target, edit_text_matches, lemma_edit_text_twice,
    lemma_distinct_sets_leave_tables_shown, lemma_edits_idempotent, reads_alike, ChangeView,
    Config, TomlValueView,
};
use crate::position::{position_named, spec_toml_name, Position};
use crate::state::{
    clock_from_config, edit_if, general_edits, interval_edit, layout_edits, mode_after_reload,
    recorded_interval, spec_pending_changes, state_wf, State,
};
use crate::error::Error;
use crate::toml_doc::{toml_parse, TomlEntry, TomlSection, ValueKind};

verus! {

/// The settings that the clock writes back to its configuration file.
pub struct SavedSettings {
    pub color: Color,
    pub interval: Option<u64>,
    pub blink: bool,
    pub bold: bool,
    pub x: Position,
    pub y: Position,
    pub use_12h: bool,
    pub hide_seconds: bool,
}

/// The saved settings of a configuration.
pub open spec fn config_settings(c: Config) -> SavedSettings {
    SavedSettings {
        color: c.general.color,
        interval: c.general.interval,
        blink: c.general.blink,
        bold: c.general.bold,
        x: c.position.x,
        y: c.position.y,
        use_12h: c.date.use_12h,
        hide_seconds: c.date.hide_seconds,
    }
}

/// The settings a clock would save: an automatic interval is saved as none.
pub open spec fn clock_settings(clock: Clock) -> SavedSettings {
    SavedSettings {
        color: clock.color,
        interval: recorded_interval(clock),
        blink: clock.blink,
        bold: clock.bold,
        x: clock.x_pos,
        y: clock.y_pos,
        use_12h: clock.use_12h,
        hide_seconds: clock.hide_seconds,
    }
}

/// The entries of a top-level table as the configuration reads them: none
/// when it is missing, and a failure when the key holds something else.
pub open spec fn section_entries(m: Map<Seq<char>, TomlSection>, t: Seq<char>) -> Option<Map<Seq<char>, TomlEntry>> {
    if !m.contains_key(t) {
        Some(Map::empty())
    } else {
        match m[t] {
            TomlSection::Table(es, _) => Some(es),
            TomlSection::Other => None,
        }
    }
}

/// An entry as the configuration reads it: absent, a string, boolean or
/// integer, or a failure for anything else.
pub open spec fn known_value(es: Map<Seq<char>, TomlEntry>, k: Seq<char>) -> Option<Option<TomlValueView>> {
    if !es.contains_key(k) {
        Some(None)
    } else {
        match es[k] {
            TomlEntry::Value(ValueKind::Known(v), _) => Some(Some(v)),
            _ => None,
        }
    }
}

/// A boolean setting, false when absent.
pub open spec fn read_bool(es: Map<Seq<char>, TomlEntry>, k: Seq<char>) -> Option<bool> {
    match known_value(es, k) {
        Some(None) => Some(false),
        Some(Some(TomlValueView::Bool(b))) => Some(b),
        _ => None,
    }
}

/// The color setting, white when absent; a name that is no color fails.
pub open spec fn read_color(es: Map<Seq<char>, TomlEntry>, k: Seq<char>) -> Option<Color> {
    match known_value(es, k) {
        Some(None) => Some(Color::White),
        Some(Some(TomlValueView::Str(s))) => color_named(s),
        _ => None,
    }
}

/// The interval setting, none when absent; a number out of range fails.
pub open spec fn read_interval(es: Map<Seq<char>, TomlEntry>, k: Seq<char>) -> Option<Option<u64>> {
    match known_value(es, k) {
        Some(None) => Some(None),
        Some(Some(TomlValueView::Int(n))) => if 0 <= n <= u64::MAX { Some(Some(n as u64)) } else { None },
        _ => None,
    }
}

/// A position setting, centered when absent; a name that is no position fails.
pub open spec fn read_position(es: Map<Seq<char>, TomlEntry>, k: Seq<char>) -> Option<Position> {
    match known_value(es, k) {
        Some(None) => Some(Position::Center),
        Some(Some(TomlValueView::Str(s))) => position_named(s),
        _ => None,
    }
}

/// The saved settings that reading a configuration document gives, as the
/// configuration's deserialization reads them (a missing table or key takes
/// its default; a value of the wrong type fails the whole reading).
pub open spec fn read_settings(m: Map<Seq<char>, TomlSection>) -> Option<SavedSettings> {
    let g = section_entries(m, "general"@);
    let p = section_entries(m, "position"@);
    let d = section_entries(m, "date"@);
    if g is Some && p is Some && d is Some {
        let g = g.unwrap();
        let p = p.unwrap();
        let d = d.unwrap();
        let color = read_color(g, "color"@);
        let interval = read_interval(g, "interval"@);
        let blink = read_bool(g, "blink"@);
        let bold = read_bool(g, "bold"@);
        let x = read_position(p, "horizontal"@);
        let y = read_position(p, "vertical"@);
        let use_12h = read_bool(d, "use_12h"@);
        let hide_seconds = read_bool(d, "hide_seconds"@);
        if color is Some && interval is Some && blink is Some && bold is Some && x is Some
            && y is Some && use_12h is Some && hide_seconds is Some {
            Some(SavedSettings {
                color: color.unwrap(),
                interval: interval.unwrap(),
                blink: blink.unwrap(),
                bold: bold.unwrap(),
                x: x.unwrap(),
                y: y.unwrap(),
                use_12h: use_12h.unwrap(),
                hide_seconds: hide_seconds.unwrap(),
            })
        } else {
            None
        }
    } else {
        None
    }
}

/// The settings read back after the pending edits were written over a file
/// that read as `old`: what the clock changed since `base`, and the file's
/// own settings otherwise.
pub open spec fn merged_settings(old: SavedSettings, clock: Clock, base: Config) -> SavedSettings {
    let cs = clock_settings(clock);
    let bs = config_settings(base);
    SavedSettings {
        color: if cs.color != bs.color { cs.color } else { old.color },
        interval: if cs.interval != bs.interval { cs.interval } else { old.interval },
        blink: if cs.blink != bs.blink { cs.blink } else { old.blink },
        bold: if cs.bold != bs.bold { cs.bold } else { old.bold },
        x: if cs.x != bs.x { cs.x } else { old.x },
        y: if cs.y != bs.y { cs.y } else { old.y },
        use_12h: if cs.use_12h != bs.use_12h { cs.use_12h } else { old.use_12h },
        hide_seconds: if cs.hide_seconds != bs.hide_seconds { cs.hide_seconds } else { old.hide_seconds },
    }
}

proof fn lemma_key_names()
    ensures
        "general"@ != "position"@,
        "general"@ != "date"@,
        "position"@ != "date"@,
        "color"@ != "interval"@,
        "color"@ != "blink"@,
        "color"@ != "bold"@,
        "interval"@ != "blink"@,
        "interval"@ != "bold"@,
        "blink"@ != "bold"@,
        "horizontal"@ != "vertical"@,
        "use_12h"@ != "hide_seconds"@,
{
    reveal_strlit("general");
    reveal_strlit("position");
    reveal_strlit("date");
    reveal_strlit("color");
    reveal_strlit("blink");
    reveal_strlit("bold");
    reveal_strlit("interval");
    reveal_strlit("horizontal");
    reveal_strlit("vertical");
    reveal_strlit("use_12h");
    reveal_strlit("hide_seconds");
    assert("general"@.len() != "position"@.len());
    assert("general"@.len() != "date"@.len());
    assert("position"@.len() != "date"@.len());
    assert("color"@.len() != "interval"@.len());
    assert("color"@[0] != "blink"@[0]);
    assert("color"@.len() != "bold"@.len());
    assert("interval"@.len() != "blink"@.len());
    assert("interval"@.len() != "bold"@.len());
    assert("blink"@.len() != "bold"@.len());
    assert("horizontal"@.len() != "vertical"@.len());
    assert("use_12h"@.len() != "hide_seconds"@.len());
}

/// Writing a color's name sets the color.
proof fn lemma_read_color(m: Map<Seq<char>, TomlSection>, c: Color)
    requires
        read_settings(m) is Some,
    ensures
        read_settings(doc_after_change(m, ChangeView::SetValue("general"@, "color"@, TomlValueView::Str(spec_color_name(c))))) == Some(SavedSettings { color: c, ..read_settings(m).unwrap() }),
{
    lemma_key_names();
    crate::color::lemma_color_name_roundtrip(c);
}

/// Writing the blink flag sets it.
proof fn lemma_read_blink(m: Map<Seq<char>, TomlSection>, b: bool)
    requires
        read_settings(m) is Some,
    ensures
        read_settings(doc_after_change(m, ChangeView::SetValue("general"@, "blink"@, TomlValueView::Bool(b)))) == Some(SavedSettings { blink: b, ..read_settings(m).unwrap() }),
{
    lemma_key_names();
}

/// Writing the bold flag sets it.
proof fn lemma_read_bold(m: Map<Seq<char>, TomlSection>, b: bool)
    requires
        read_settings(m) is Some,
    ensures
        read_settings(doc_after_change(m, ChangeView::SetValue("general"@, "bold"@, TomlValueView::Bool(b)))) == Some(SavedSettings { bold: b, ..read_settings(m).unwrap() }),
{
    lemma_key_names();
}

/// Writing an interval that is not negative sets it.
proof fn lemma_read_interval(m: Map<Seq<char>, TomlSection>, ms: u64)
    requires
        read_settings(m) is Some,
    ensures
        read_settings(doc_after_change(m, ChangeView::SetValue("general"@, "interval"@, TomlValueView::Int(ms as int)))) == Some(SavedSettings { interval: Some(ms), ..read_settings(m).unwrap() }),
{
    lemma_key_names();
}

/// Removing the interval makes it automatic.
proof fn lemma_read_interval_removed(m: Map<Seq<char>, TomlSection>)
    requires
        read_settings(m) is Some,
    ensures
        read_settings(doc_after_change(m, ChangeView::Remove("general"@, "interval"@))) == Some(SavedSettings { interval: None, ..read_settings(m).unwrap() }),
{
    lemma_key_names();
}

/// Writing a position's name sets the horizontal position.
proof fn lemma_read_horizontal(m: Map<Seq<char>, TomlSection>, q: Position)
    requires
        read_settings(m) is Some,
    ensures
        read_settings(doc_after_change(m, ChangeView::SetValue("position"@, "horizontal"@, TomlValueView::Str(spec_toml_name(q))))) == Some(SavedSettings { x: q, ..read_settings(m).unwrap() }),
{
    lemma_key_names();
    crate::position::lemma_position_name_roundtrip(q);
}

/// Writing a position's name sets the vertical position.
proof fn lemma_read_vertical(m: Map<Seq<char>, TomlSection>, q: Position)
    requires
        read_settings(m) is Some,
    ensures
        read_settings(doc_after_change(m, ChangeView::SetValue("position"@, "vertical"@, TomlValueView::Str(spec_toml_name(q))))) == Some(SavedSettings { y: q, ..read_settings(m).unwrap() }),
{
    lemma_key_names();
    crate::position::lemma_position_name_roundtrip(q);
}

/// Writing the 12-hour flag sets it.
proof fn lemma_read_use_12h(m: Map<Seq<char>, TomlSection>, b: bool)
    requires
        read_settings(m) is Some,
    ensures
        read_settings(doc_after_change(m, ChangeView::SetValue("date"@, "use_12h"@, TomlValueView::Bool(b)))) == Some(SavedSettings { use_12h: b, ..read_settings(m).unwrap() }),
{
    lemma_key_names();
}

/// Writing the hide-seconds flag sets it.
proof fn lemma_read_hide_seconds(m: Map<Seq<char>, TomlSection>, b: bool)
    requires
        read_settings(m) is Some,
    ensures
        read_settings(doc_after_change(m, ChangeView::SetValue("date"@, "hide_seconds"@, TomlValueView::Bool(b)))) == Some(SavedSettings { hide_seconds: b, ..read_settings(m).unwrap() }),
{
    lemma_key_names();
}

/// Writing two lists of edits one after the other is writing their concatenation.
pub proof fn lemma_doc_after_changes_concat(m: Map<Seq<char>, TomlSection>, a: Seq<ChangeView>, b: Seq<ChangeView>)
    ensures
        doc_after_changes(m, a + b) == doc_after_changes(doc_after_changes(m, a), b),
    decreases b.len(),
{
    if b.len() == 0 {
        assert(a + b =~= a);
    } else {
        lemma_doc_after_changes_concat(m, a, b.drop_last());
        assert((a + b).drop_last() =~= a + b.drop_last());
    }
}

proof fn lemma_doc_edit_if(m: Map<Seq<char>, TomlSection>, es: Seq<ChangeView>, cond: bool, e: ChangeView)
    ensures
        doc_after_changes(m, es + edit_if(cond, e)) == if cond {
            doc_after_change(doc_after_changes(m, es), e)
        } else {
            doc_after_changes(m, es)
        },
{
    if cond {
        assert((es + edit_if(cond, e)).drop_last() =~= es);
    } else {
        assert(es + edit_if(cond, e) =~= es);
    }
}

proof fn lemma_doc_interval_edit(m: Map<Seq<char>, TomlSection>, es: Seq<ChangeView>, clock: Clock, base: Config)
    ensures
        doc_after_changes(m, es + interval_edit(clock, base)) == if recorded_interval(clock) != base.general.interval {
            doc_after_change(doc_after_changes(m, es), interval_edit(clock, base)[0])
        } else {
            doc_after_changes(m, es)
        },
{
    if recorded_interval(clock) != base.general.interval {
        assert((es + interval_edit(clock, base)).drop_last() =~= es);
    } else {
        assert(es + interval_edit(clock, base) =~= es);
    }
}

proof fn lemma_general_read_back(m: Map<Seq<char>, TomlSection>, clock: Clock, base: Config)
    requires
        read_settings(m) is Some,
        !clock.interval_auto ==> clock.interval_ms <= i64::MAX,
    ensures
        ({
            let old = read_settings(m).unwrap();
            let mg = merged_settings(old, clock, base);
            read_settings(doc_after_changes(m, general_edits(clock, base))) == Some(SavedSettings {
                color: mg.color,
                interval: mg.interval,
                blink: mg.blink,
                bold: mg.bold,
                ..old
            })
        }),
{
    let general = "general"@;
    let ec = ChangeView::SetValue(general, "color"@, TomlValueView::Str(spec_color_name(clock.color)));
    let eb = ChangeView::SetValue(general, "blink"@, TomlValueView::Bool(clock.blink));
    let ed = ChangeView::SetValue(general, "bold"@, TomlValueView::Bool(clock.bold));
    let c1 = clock.color != base.general.color;
    let c2 = clock.blink != base.general.blink;
    let c3 = clock.bold != base.general.bold;
    let e1 = edit_if(c1, ec);
    let e2 = edit_if(c2, eb);
    let e3 = edit_if(c3, ed);
    let st0 = read_settings(m).unwrap();
    let empty = Seq::<ChangeView>::empty();
    assert(empty + e1 =~= e1);
    lemma_doc_edit_if(m, empty, c1, ec);
    let st1 = if c1 { SavedSettings { color: clock.color, ..st0 } } else { st0 };
    if c1 {
        lemma_read_color(m, clock.color);
    }
    assert(read_settings(doc_after_changes(m, e1)) == Some(st1));
    lemma_doc_edit_if(m, e1, c2, eb);
    let st2 = if c2 { SavedSettings { blink: clock.blink, ..st1 } } else { st1 };
    if c2 {
        lemma_read_blink(doc_after_changes(m, e1), clock.blink);
    }
    assert(read_settings(doc_after_changes(m, e1 + e2)) == Some(st2));
    lemma_doc_edit_if(m, e1 + e2, c3, ed);
    let st3 = if c3 { SavedSettings { bold: clock.bold, ..st2 } } else { st2 };
    if c3 {
        lemma_read_bold(doc_after_changes(m, e1 + e2), clock.bold);
    }
    assert(read_settings(doc_after_changes(m, e1 + e2 + e3)) == Some(st3));
    lemma_doc_interval_edit(m, e1 + e2 + e3, clock, base);
    let m3 = doc_after_changes(m, e1 + e2 + e3);
    if recorded_interval(clock) != base.general.interval {
        match recorded_interval(clock) {
            Some(ms) => {
                assert((ms as i64) as int == ms);
                lemma_read_interval(m3, ms);
            },
            None => {
                lemma_read_interval_removed(m3);
            },
        }
    }
}

proof fn lemma_layout_read_back(m: Map<Seq<char>, TomlSection>, clock: Clock, base: Config)
    requires
        read_settings(m) is Some,
    ensures
        ({
            let old = read_settings(m).unwrap();
            let mg = merged_settings(old, clock, base);
            read_settings(doc_after_changes(m, layout_edits(clock, base))) == Some(SavedSettings {
                x: mg.x,
                y: mg.y,
                use_12h: mg.use_12h,
                hide_seconds: mg.hide_seconds,
                ..old
            })
        }),
{
    let eh = ChangeView::SetValue("position"@, "horizontal"@, TomlValueView::Str(spec_toml_name(clock.x_pos)));
    let ev = ChangeView::SetValue("position"@, "vertical"@, TomlValueView::Str(spec_toml_name(clock.y_pos)));
    let eu = ChangeView::SetValue("date"@, "use_12h"@, TomlValueView::Bool(clock.use_12h));
    let es = ChangeView::SetValue("date"@, "hide_seconds"@, TomlValueView::Bool(clock.hide_seconds));
    let c1 = clock.x_pos != base.position.x;
    let c2 = clock.y_pos != base.position.y;
    let c3 = clock.use_12h != base.date.use_12h;
    let c4 = clock.hide_seconds != base.date.hide_seconds;
    let e1 = edit_if(c1, eh);
    let e2 = edit_if(c2, ev);
    let e3 = edit_if(c3, eu);
    let st0 = read_settings(m).unwrap();
    let empty = Seq::<ChangeView>::empty();
    assert(empty + e1 =~= e1);
    lemma_doc_edit_if(m, empty, c1, eh);
    let st1 = if c1 { SavedSettings { x: clock.x_pos, ..st0 } } else { st0 };
    if c1 {
        lemma_read_horizontal(m, clock.x_pos);
    }
    assert(read_settings(doc_after_changes(m, e1)) == Some(st1));
    lemma_doc_edit_if(m, e1, c2, ev);
    let st2 = if c2 { SavedSettings { y: clock.y_pos, ..st1 } } else { st1 };
    if c2 {
        lemma_read_vertical(doc_after_changes(m, e1), clock.y_pos);
    }
    assert(read_settings(doc_after_changes(m, e1 + e2)) == Some(st2));
    lemma_doc_edit_if(m, e1 + e2, c3, eu);
    let st3 = if c3 { SavedSettings { use_12h: clock.use_12h, ..st2 } } else { st2 };
    if c3 {
        lemma_read_use_12h(doc_after_changes(m, e1 + e2), clock.use_12h);
    }
    assert(read_settings(doc_after_changes(m, e1 + e2 + e3)) == Some(st3));
    lemma_doc_edit_if(m, e1 + e2 + e3, c4, es);
    if c4 {
        lemma_read_hide_seconds(doc_after_changes(m, e1 + e2 + e3), clock.hide_seconds);
    }
}

/// Reading a configuration file after the pending edits were written into
/// it gives, for each saved setting, the clock's value where the clock
/// changed it since the baseline, and the file's value otherwise. (An
/// interval above the largest signed 64-bit number is written as a negative
/// number, which fails the reading; those are left out.)
pub proof fn lemma_pending_changes_read_back(m: Map<Seq<char>, TomlSection>, clock: Clock, base: Config)
    requires
        read_settings(m) is Some,
        !clock.interval_auto ==> clock.interval_ms <= i64::MAX,
    ensures
        read_settings(doc_after_changes(m, spec_pending_changes(clock, base)))
            == Some(merged_settings(read_settings(m).unwrap(), clock, base)),
{
    lemma_doc_after_changes_concat(m, general_edits(clock, base), layout_edits(clock, base));
    lemma_general_read_back(m, clock, base);
    lemma_layout_read_back(doc_after_changes(m, general_edits(clock, base)), clock, base);
}

/// What the clock writes back is what it reads next time: when the file
/// read as the baseline, after the pending edits are written into it, it
/// reads as the clock's settings.
pub proof fn lemma_persist_then_read(m: Map<Seq<char>, TomlSection>, clock: Clock, base: Config)
    requires
        read_settings(m) == Some(config_settings(base)),
        !clock.interval_auto ==> clock.interval_ms <= i64::MAX,
    ensures
        read_settings(doc_after_changes(m, spec_pending_changes(clock, base))) == Some(clock_settings(clock)),
{
    lemma_pending_changes_read_back(m, clock, base);
}

/// Reloading a configuration that holds the clock's saved settings, with the
/// baseline's time zone and date format, leaves every setting of the clock
/// as it was.
pub proof fn lemma_reload_restores_clock(s: State, c: Config)
    requires
        state_wf(s),
        config_settings(c) == clock_settings(s.clock),
        c.date.utc == s.baseline.date.utc,
        c.date.fmt == s.baseline.date.fmt,
    ensures
        clock_from_config(c, mode_after_reload(s.clock.mode, c)) == s.clock,
{
}

/// Whether every edit of a list is about one of the given tables and keys.
pub open spec fn targets_in(cs: Seq<ChangeView>, s: Set<(Seq<char>, Seq<char>)>) -> bool {
    forall|i: int| 0 <= i < cs.len() ==> s.contains(edit_target(#[trigger] cs[i]))
}

proof fn lemma_distinct_step(
    es: Seq<ChangeView>,
    s: Set<(Seq<char>, Seq<char>)>,
    extra: Seq<ChangeView>,
    target: (Seq<char>, Seq<char>),
)
    requires
        distinct_targets(es),
        targets_in(es, s),
        !s.contains(target),
        extra.len() <= 1,
        extra.len() == 1 ==> edit_target(extra[0]) == target,
    ensures
        distinct_targets(es + extra),
        targets_in(es + extra, s.insert(target)),
{
    let all = es + extra;
    assert forall|i: int, j: int| 0 <= i < j < all.len() implies edit_target(all[i]) != edit_target(all[j]) by {
        if j >= es.len() {
            assert(all[j] == extra[0]);
            assert(all[i] == es[i]);
            assert(s.contains(edit_target(es[i])));
        } else {
            assert(all[i] == es[i] && all[j] == es[j]);
        }
    }
    assert forall|i: int| 0 <= i < all.len() implies s.insert(target).contains(edit_target(#[trigger] all[i])) by {
        if i >= es.len() {
            assert(all[i] == extra[0]);
        } else {
            assert(all[i] == es[i]);
        }
    }
}

/// The pending edits are each about a different table and key.
#[verifier::spinoff_prover]
#[verifier::rlimit(40)]
pub proof fn lemma_pending_targets_distinct(clock: Clock, base: Config)
    ensures
        distinct_targets(spec_pending_changes(clock, base)),
{
    lemma_key_names();
    let general = "general"@;
    let e1 = edit_if(clock.color != base.general.color,
        ChangeView::SetValue(general, "color"@, TomlValueView::Str(spec_color_name(clock.color))));
    let e2 = edit_if(clock.blink != base.general.blink,
        ChangeView::SetValue(general, "blink"@, TomlValueView::Bool(clock.blink)));
    let e3 = edit_if(clock.bold != base.general.bold,
        ChangeView::SetValue(general, "bold"@, TomlValueView::Bool(clock.bold)));
    let e4 = interval_edit(clock, base);
    let e5 = edit_if(clock.x_pos != base.position.x,
        ChangeView::SetValue("position"@, "horizontal"@, TomlValueView::Str(spec_toml_name(clock.x_pos))));
    let e6 = edit_if(clock.y_pos != base.position.y,
        ChangeView::SetValue("position"@, "vertical"@, TomlValueView::Str(spec_toml_name(clock.y_pos))));
    let e7 = edit_if(clock.use_12h != base.date.use_12h,
        ChangeView::SetValue("date"@, "use_12h"@, TomlValueView::Bool(clock.use_12h)));
    let e8 = edit_if(clock.hide_seconds != base.date.hide_seconds,
        ChangeView::SetValue("date"@, "hide_seconds"@, TomlValueView::Bool(clock.hide_seconds)));
    let empty = Seq::<ChangeView>::empty();
    let s0 = Set::<(Seq<char>, Seq<char>)>::empty();
    let t1 = (general, "color"@);
    let t2 = (general, "blink"@);
    let t3 = (general, "bold"@);
    let t4 = (general, "interval"@);
    let t5 = ("position"@, "horizontal"@);
    let t6 = ("position"@, "vertical"@);
    let t7 = ("date"@, "use_12h"@);
    let t8 = ("date"@, "hide_seconds"@);
    lemma_distinct_step(empty, s0, e1, t1);
    assert(empty + e1 =~= e1);
    let s1 = s0.insert(t1);
    lemma_distinct_step(e1, s1, e2, t2);
    let s2 = s1.insert(t2);
    lemma_distinct_step(e1 + e2, s2, e3, t3);
    let s3 = s2.insert(t3);
    lemma_distinct_step(e1 + e2 + e3, s3, e4, t4);
    let s4 = s3.insert(t4);
    let g = e1 + e2 + e3 + e4;
    lemma_distinct_step(g, s4, e5, t5);
    let s5 = s4.insert(t5);
    lemma_distinct_step(g + e5, s5, e6, t6);
    let s6 = s5.insert(t6);
    lemma_distinct_step(g + e5 + e6, s6, e7, t7);
    let s7 = s6.insert(t7);
    lemma_distinct_step(g + e5 + e6 + e7, s7, e8, t8);
    crate::state::lemma_append_four(g, e5, e6, e7, e8);
}

/// Writing the pending edits into the text that writing them gave succeeds,
/// and gives a text that reads back as that text.
pub proof fn lemma_persist_twice_same_text(
    start: Result<Map<Seq<char>, TomlSection>, Seq<char>>,
    path: Seq<char>,
    clock: Clock,
    base: Config,
    first: Result<Option<String>, Error>,
    second: Result<Option<String>, Error>,
)
    requires
        edit_text_matches(start, path, spec_pending_changes(clock, base), first),
        first matches Ok(Some(s1)) && edit_text_matches(toml_parse(s1@), path, spec_pending_changes(clock, base), second),
    ensures
        first matches Ok(Some(s1)) && second matches Ok(Some(s2)) && reads_alike(s1@, s2@),
{
    let cs = spec_pending_changes(clock, base);
    lemma_pending_targets_distinct(clock, base);
    if let Ok(m) = start {
        lemma_distinct_sets_leave_tables_shown(m, cs);
    }
    lemma_edit_text_twice(start, path, cs, first, second);
}

/// Writing the pending edits a second time (the baseline has not moved)
/// leaves the document exactly as the first time did.
pub proof fn lemma_persist_twice_same_doc(m: Map<Seq<char>, TomlSection>, clock: Clock, base: Config)
    ensures
        ({
            let once = doc_after_changes(m, spec_pending_changes(clock, base));
            doc_after_changes(once, spec_pending_changes(clock, base)) == once
        }),
{
    lemma_edits_idempotent(m, spec_pending_changes(clock, base));
}

} // verus!
