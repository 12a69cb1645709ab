use vstd::prelude::*;

use crate::color::Color;
use crate::error::Error;
use crate::position::Position;
use crate::toml_doc::{
    doc_contents, doc_entry_kind, doc_insert_table, doc_insert_value, doc_new, doc_parse,
    doc_remove_entry, doc_render, doc_assign_value, doc_set_prefix, doc_set_suffix, doc_value_decor,
    doc_section_kind, empty_doc, parsed_as,
    reads_back_as, section_kind, table_entries, table_implicit, toml_parse, with_entry, entry_decor,
    doc_built, doc_key_order, order_fits, order_of, entry_kind, default_decor, is_hidden, shown_entries, shown_entry, shown_section, visible_sections, ValueDecor, EntryKind, SectionKind, TomlEntry, TomlSection, ValueKind,
};

verus! {

/// The whole configuration file.
#[derive(Clone, Debug, PartialEq, Eq)]
pub struct Config {
    pub general: GeneralConfig,
    pub position: PositionConfig,
    pub date: DateConfig,
}

/// The `[general]` table.
#[derive(Clone, Debug, PartialEq, Eq)]
pub struct GeneralConfig {
    pub color: Color,
    /// Refresh interval in milliseconds; `None` lets it follow the blink setting.
    pub interval: Option<u64>,
    pub blink: bool,
    pub bold: bool,
}

/// The `[position]` table (`horizontal` and `vertical` in the file).
#[derive(Clone, Debug, PartialEq, Eq)]
pub struct PositionConfig {
    pub x: Position,
    pub y: Position,
}

/// The `[date]` table.
#[derive(Clone, Debug, PartialEq, Eq)]
pub struct DateConfig {
    pub fmt: String,
    pub use_12h: bool,
    pub utc: bool,
    pub hide_seconds: bool,
}

/// The date format used when the file names none: day, month, year.
pub open spec fn default_date_format() -> Seq<char> {
    "%d-%m-%Y"@
}

impl Default for GeneralConfig {
    fn default() -> (c: Self)
        ensures
            c.color == Color::White,
            c.interval is None,
            !c.blink,
            !c.bold,
    {
        GeneralConfig { color: Color::default(), interval: None, blink: false, bold: false }
    }
}

impl Default for PositionConfig {
    fn default() -> (c: Self)
        ensures
            c.x == Position::Center,
            c.y == Position::Center,
    {
        PositionConfig { x: Position::default(), y: Position::default() }
    }
}

impl Default for DateConfig {
    fn default() -> (c: Self)
        ensures
            c.fmt@ == default_date_format(),
            !c.use_12h,
            !c.utc,
            !c.hide_seconds,
    {
        DateConfig {
            fmt: String::from_str("%d-%m-%Y"),
            use_12h: false,
            utc: false,
            hide_seconds: false,
        }
    }
}

/// Whether a configuration holds only default settings.
pub open spec fn is_default_config(c: Config) -> bool {
    &&& c.general.color == Color::White
    &&& c.general.interval is None
    &&& !c.general.blink
    &&& !c.general.bold
    &&& c.position.x == Position::Center
    &&& c.position.y == Position::Center
    &&& c.date.fmt@ == default_date_format()
    &&& !c.date.use_12h
    &&& !c.date.utc
    &&& !c.date.hide_seconds
}

impl Default for Config {
    fn default() -> (c: Self)
        ensures
            is_default_config(c),
    {
        Config {
            general: GeneralConfig::default(),
            position: PositionConfig::default(),
            date: DateConfig::default(),
        }
    }
}

/// Settings given on the command line, which take precedence over the
/// configuration file: each given value replaces the file's, and each flag
/// that is set turns its setting on.
#[derive(Clone, Debug, PartialEq, Eq)]
pub struct Overrides {
    pub color: Option<Color>,
    pub x_pos: Option<Position>,
    pub y_pos: Option<Position>,
    pub fmt: Option<String>,
    pub interval: Option<u64>,
    pub use_12h: bool,
    pub utc: bool,
    pub hide_seconds: bool,
    pub blink: bool,
    pub bold: bool,
}

/// A setting after an optional override.
pub open spec fn overridden<T>(given: Option<T>, current: T) -> T {
    match given {
        Some(v) => v,
        None => current,
    }
}

impl Overrides {
    /// Applies the command-line settings over a configuration.
    pub fn overwrite(&self, config: &mut Config)
        ensures
            final(config).general.color == overridden(self.color, old(config).general.color),
            final(config).position.x == overridden(self.x_pos, old(config).position.x),
            final(config).position.y == overridden(self.y_pos, old(config).position.y),
            final(config).date.fmt == overridden(self.fmt, old(config).date.fmt),
            final(config).general.interval == (match self.interval {
                Some(ms) => Some(ms),
                None => old(config).general.interval,
            }),
            final(config).date.use_12h == (old(config).date.use_12h || self.use_12h),
            final(config).date.utc == (old(config).date.utc || self.utc),
            final(config).date.hide_seconds == (old(config).date.hide_seconds || self.hide_seconds),
            final(config).general.blink == (old(config).general.blink || self.blink),
            final(config).general.bold == (old(config).general.bold || self.bold),
    {
        if let Some(c) = self.color {
            config.general.color = c;
        }
        if let Some(x) = self.x_pos {
            config.position.x = x;
        }
        if let Some(y) = self.y_pos {
            config.position.y = y;
        }
        if let Some(f) = &self.fmt {
            config.date.fmt = f.clone();
        }
        if let Some(ms) = self.interval {
            config.general.interval = Some(ms);
        }
        config.date.use_12h = config.date.use_12h || self.use_12h;
        config.date.utc = config.date.utc || self.utc;
        config.date.hide_seconds = config.date.hide_seconds || self.hide_seconds;
        config.general.blink = config.general.blink || self.blink;
        config.general.bold = config.general.bold || self.bold;
    }
}

/// What reading the environment variable that names the configuration
/// file (`CONF_PATH`) gave.
#[derive(Debug, PartialEq, Eq)]
pub enum EnvVar {
    /// The variable is set to this text.
    Present(String),
    /// The variable is set, but not to valid Unicode; the text is its lossy rendering.
    NotUnicode(String),
    /// The variable is not set.
    NotPresent,
}

/// The configuration file in the operating system's local configuration
/// directory, and whether it exists.
#[derive(Debug, PartialEq, Eq)]
pub struct LocalConfigFile {
    pub path: String,
    pub exists: bool,
}

/// The value of the environment variable that asks for no configuration file.
pub open spec fn no_file_marker() -> Seq<char> {
    "None"@
}

/// The message of the error given when no configuration directory is known.
pub open spec fn no_config_dir_message() -> Seq<char> {
    "no OS config dir"@
}

impl Config {
    /// Which configuration file to read, if any. The environment variable
    /// wins: "None" means no file, any other text is the path. Without it,
    /// the file in the local configuration directory is read if it exists.
    pub fn resolve_path(env: EnvVar, local: Option<LocalConfigFile>) -> (r: Result<Option<String>, Error>)
        ensures
            match env {
                EnvVar::Present(p) => if p@ == no_file_marker() {
                    r matches Ok(None)
                } else {
                    r matches Ok(Some(q)) && q@ == p@
                },
                EnvVar::NotUnicode(p) => r matches Err(Error::NonUnicodePath(q)) && q@ == p@,
                EnvVar::NotPresent => match local {
                    Some(f) => if f.exists {
                        r matches Ok(Some(q)) && q@ == f.path@
                    } else {
                        r matches Ok(None)
                    },
                    None => r matches Ok(None),
                },
            },
    {
        let marker = String::from_str("None");
        match env {
            EnvVar::Present(path) => {
                if path == marker {
                    Ok(None)
                } else {
                    Ok(Some(path))
                }
            },
            EnvVar::NotUnicode(path) => Err(Error::NonUnicodePath(path)),
            EnvVar::NotPresent => match local {
                Some(file) => {
                    if file.exists {
                        Ok(Some(file.path))
                    } else {
                        Ok(None)
                    }
                },
                None => Ok(None),
            },
        }
    }

    /// Where changed settings are written: the path in the environment
    /// variable unless it is missing, not Unicode or "None"; otherwise the
    /// file in the local configuration directory (`local_file`), whether or
    /// not it exists yet.
    pub fn save_path(env: EnvVar, local_file: Option<String>) -> (r: Result<String, Error>)
        ensures
            match env {
                EnvVar::Present(p) if p@ != no_file_marker() => r matches Ok(q) && q@ == p@,
                _ => match local_file {
                    Some(f) => r matches Ok(q) && q@ == f@,
                    None => r matches Err(Error::NonUnicodePath(m)) && m@ == no_config_dir_message(),
                },
            },
    {
        let marker = String::from_str("None");
        if let EnvVar::Present(path) = env {
            if path != marker {
                return Ok(path);
            }
        }
        match local_file {
            Some(file) => Ok(file),
            None => Err(Error::NonUnicodePath(String::from_str("no OS config dir"))),
        }
    }
}

/// A value written into the configuration file.
#[derive(Debug, PartialEq, Eq)]
pub enum TomlValue {
    Str(String),
    Bool(bool),
    Int(i64),
}

/// The abstract content of a value written into the configuration file.
pub enum TomlValueView {
    Str(Seq<char>),
    Bool(bool),
    Int(int),
}

impl View for TomlValue {
    type V = TomlValueView;

    open spec fn view(&self) -> TomlValueView {
        match self {
            TomlValue::Str(s) => TomlValueView::Str(s@),
            TomlValue::Bool(b) => TomlValueView::Bool(*b),
            TomlValue::Int(n) => TomlValueView::Int(*n as int),
        }
    }
}

/// A string value.
pub fn toml_str(s: &str) -> (v: TomlValue)
    ensures
        v@ == TomlValueView::Str(s@),
{
    TomlValue::Str(s.to_owned())
}

/// A boolean value.
pub fn toml_bool(b: bool) -> (v: TomlValue)
    ensures
        v@ == TomlValueView::Bool(b),
{
    TomlValue::Bool(b)
}

/// An integer value.
pub fn toml_int(n: i64) -> (v: TomlValue)
    ensures
        v@ == TomlValueView::Int(n as int),
{
    TomlValue::Int(n)
}

/// One edit of the configuration file: set `key` in `[table]` to a value,
/// or remove `key` from `[table]`.
#[derive(Debug, PartialEq, Eq)]
pub enum Change<'a> {
    SetValue(&'a str, &'a str, TomlValue),
    Remove(&'a str, &'a str),
}

/// The abstract content of an edit.
pub enum ChangeView {
    SetValue(Seq<char>, Seq<char>, TomlValueView),
    Remove(Seq<char>, Seq<char>),
}

impl<'a> View for Change<'a> {
    type V = ChangeView;

    open spec fn view(&self) -> ChangeView {
        match self {
            Change::SetValue(t, k, v) => ChangeView::SetValue(t@, k@, v@),
            Change::Remove(t, k) => ChangeView::Remove(t@, k@),
        }
    }
}

/// The abstract content of a list of edits.
pub open spec fn changes_view<'a>(v: Seq<Change<'a>>) -> Seq<ChangeView> {
    v.map_values(|c: Change<'a>| c@)
}

/// A document after one edit. Setting a value makes its table (with a
/// header) when there is none; a value that replaces a value keeps the
/// whitespace and comment around it, any other new value gets the default
/// decoration. Removing an entry keeps its table, even when it empties it;
/// removing from a table that does not exist does nothing.
pub open spec fn doc_after_change(m: Map<Seq<char>, TomlSection>, c: ChangeView) -> Map<Seq<char>, TomlSection> {
    match c {
        ChangeView::SetValue(t, k, v) => with_entry(
            m,
            t,
            k,
            TomlEntry::Value(ValueKind::Known(v), entry_decor(table_entries(m, t), k)),
        ),
        ChangeView::Remove(t, k) => if section_kind(m, t) == SectionKind::Table {
            m.insert(t, TomlSection::Table(table_entries(m, t).remove(k), table_implicit(m, t)))
        } else {
            m
        },
    }
}

/// A document after a list of edits, in order.
pub open spec fn doc_after_changes(m: Map<Seq<char>, TomlSection>, cs: Seq<ChangeView>) -> Map<Seq<char>, TomlSection>
    decreases cs.len(),
{
    if cs.len() == 0 {
        m
    } else {
        doc_after_change(doc_after_changes(m, cs.drop_last()), cs.last())
    }
}

/// Setting a value that replaces a value keeps the whitespace and comment
/// around it; every other entry and every other table stays as it was.
pub proof fn lemma_set_keeps_decoration(m: Map<Seq<char>, TomlSection>, t: Seq<char>, k: Seq<char>, v: TomlValueView)
    ensures
        ({
            let before = table_entries(m, t);
            let after = doc_after_change(m, ChangeView::SetValue(t, k, v));
            &&& table_entries(after, t)[k] == TomlEntry::Value(ValueKind::Known(v), entry_decor(before, k))
            &&& entry_kind(before, k) == EntryKind::Value ==> entry_decor(table_entries(after, t), k) == entry_decor(before, k)
            &&& forall|k2: Seq<char>| k2 != k && before.contains_key(k2) ==>
                table_entries(after, t).contains_key(k2) && table_entries(after, t)[k2] == before[k2]
            &&& forall|t2: Seq<char>| t2 != t && m.contains_key(t2) ==> after.contains_key(t2) && after[t2] == m[t2]
        }),
{
}

/// The table and key that an edit is about.
pub open spec fn edit_target(c: ChangeView) -> (Seq<char>, Seq<char>) {
    match c {
        ChangeView::SetValue(t, k, _) => (t, k),
        ChangeView::Remove(t, k) => (t, k),
    }
}

/// The last edit of a list about `key` of `table`, if any.
pub open spec fn last_edit(cs: Seq<ChangeView>, table: Seq<char>, key: Seq<char>) -> Option<ChangeView>
    decreases cs.len(),
{
    if cs.len() == 0 {
        None
    } else if edit_target(cs.last()) == (table, key) {
        Some(cs.last())
    } else {
        last_edit(cs.drop_last(), table, key)
    }
}

/// Whether a list of edits removes `key` from `table` somewhere.
pub open spec fn removes(cs: Seq<ChangeView>, table: Seq<char>, key: Seq<char>) -> bool
    decreases cs.len(),
{
    if cs.len() == 0 {
        false
    } else {
        cs.last() == ChangeView::Remove(table, key) || removes(cs.drop_last(), table, key)
    }
}

/// Whether a list of edits sets some value in `table`.
pub open spec fn sets_table(cs: Seq<ChangeView>, table: Seq<char>) -> bool
    decreases cs.len(),
{
    if cs.len() == 0 {
        false
    } else {
        (cs.last() matches ChangeView::SetValue(t, _, _) && t == table) || sets_table(cs.drop_last(), table)
    }
}

/// The entry `key` of `table` after a list of edits, read off the edits: the
/// value of the last edit when it sets one (with the decoration it had, or
/// the default once the key was removed on the way), nothing when the last
/// edit removes it, and the entry as it was when no edit is about it.
pub open spec fn entry_after_edits(
    es: Map<Seq<char>, TomlEntry>,
    cs: Seq<ChangeView>,
    table: Seq<char>,
    key: Seq<char>,
) -> Option<TomlEntry> {
    match last_edit(cs, table, key) {
        Some(ChangeView::SetValue(_, _, v)) => Some(TomlEntry::Value(
            ValueKind::Known(v),
            if removes(cs, table, key) { default_decor() } else { entry_decor(es, key) },
        )),
        Some(ChangeView::Remove(_, _)) => None,
        None => if es.contains_key(key) { Some(es[key]) } else { None },
    }
}

/// The entries of `table` after a list of edits, read off the edits.
pub open spec fn entries_after_edits(es: Map<Seq<char>, TomlEntry>, cs: Seq<ChangeView>, table: Seq<char>) -> Map<Seq<char>, TomlEntry> {
    Map::new(
        |k: Seq<char>| entry_after_edits(es, cs, table, k) is Some,
        |k: Seq<char>| entry_after_edits(es, cs, table, k).unwrap(),
    )
}

/// A document after a list of edits, read off the edits: a table that was
/// there or that gets a value holds the entries that its last edits leave;
/// any other item stays as it was.
pub open spec fn doc_after_last_edits(m: Map<Seq<char>, TomlSection>, cs: Seq<ChangeView>) -> Map<Seq<char>, TomlSection> {
    Map::new(
        |t: Seq<char>| m.contains_key(t) || sets_table(cs, t),
        |t: Seq<char>| if section_kind(m, t) == SectionKind::Table || sets_table(cs, t) {
            TomlSection::Table(entries_after_edits(table_entries(m, t), cs, t), table_implicit(m, t))
        } else {
            m[t]
        },
    )
}

proof fn lemma_last_edit_facts(cs: Seq<ChangeView>, table: Seq<char>, key: Seq<char>)
    ensures
        last_edit(cs, table, key) matches Some(e) ==> edit_target(e) == (table, key),
        last_edit(cs, table, key) is None ==> !removes(cs, table, key),
        last_edit(cs, table, key) matches Some(ChangeView::Remove(_, _)) ==> removes(cs, table, key),
        last_edit(cs, table, key) matches Some(ChangeView::SetValue(_, _, _)) ==> sets_table(cs, table),
    decreases cs.len(),
{
    if cs.len() > 0 {
        lemma_last_edit_facts(cs.drop_last(), table, key);
    }
}

/// One edit more, read off the edits, is that edit made on the document
/// read off the others.
proof fn lemma_last_edits_step(m: Map<Seq<char>, TomlSection>, cs: Seq<ChangeView>)
    requires
        cs.len() > 0,
    ensures
        doc_after_change(doc_after_last_edits(m, cs.drop_last()), cs.last()) == doc_after_last_edits(m, cs),
{
    let r = cs.drop_last();
    let c = cs.last();
    let p = doc_after_last_edits(m, r);
    let q = doc_after_last_edits(m, cs);
    let (t0, k0) = edit_target(c);
    let es = table_entries(m, t0);
    assert forall|t: Seq<char>, k: Seq<char>| t != t0 || k != k0 implies
        #[trigger] entry_after_edits(table_entries(m, t), cs, t, k) == entry_after_edits(table_entries(m, t), r, t, k) by {
    }
    assert forall|t: Seq<char>| t != t0 implies #[trigger] entries_after_edits(table_entries(m, t), cs, t)
        =~= entries_after_edits(table_entries(m, t), r, t) by {
        assert forall|k: Seq<char>| #[trigger] entry_after_edits(table_entries(m, t), cs, t, k)
            == entry_after_edits(table_entries(m, t), r, t, k) by {}
    }
    lemma_last_edit_facts(r, t0, k0);
    if !(section_kind(m, t0) == SectionKind::Table || sets_table(r, t0)) {
        assert forall|k: Seq<char>| !(#[trigger] entry_after_edits(es, r, t0, k) is Some) by {
            lemma_last_edit_facts(r, t0, k);
        }
        assert(entries_after_edits(es, r, t0) =~= Map::<Seq<char>, TomlEntry>::empty());
    }
    assert(table_entries(p, t0) == entries_after_edits(es, r, t0));
    assert(table_implicit(p, t0) == table_implicit(m, t0));
    match c {
        ChangeView::SetValue(t, k, v) => {
            assert(entries_after_edits(es, cs, t0) =~= entries_after_edits(es, r, t0).insert(
                k0,
                TomlEntry::Value(ValueKind::Known(v), entry_decor(table_entries(p, t0), k0)),
            )) by {
                assert forall|k: Seq<char>| k != k0 implies #[trigger] entry_after_edits(es, cs, t0, k)
                    == entry_after_edits(es, r, t0, k) by {}
            }
            assert(doc_after_change(p, c) =~= q);
        },
        ChangeView::Remove(t, k) => {
            if section_kind(m, t0) == SectionKind::Table || sets_table(r, t0) {
                assert(entries_after_edits(es, cs, t0) =~= entries_after_edits(es, r, t0).remove(k0)) by {
                    assert forall|k: Seq<char>| k != k0 implies #[trigger] entry_after_edits(es, cs, t0, k)
                        == entry_after_edits(es, r, t0, k) by {}
                }
            }
            assert(doc_after_change(p, c) =~= q);
        },
    }
}

/// Making a list of edits one after the other gives the document read off
/// the edits.
pub proof fn lemma_edits_read_off(m: Map<Seq<char>, TomlSection>, cs: Seq<ChangeView>)
    ensures
        doc_after_changes(m, cs) == doc_after_last_edits(m, cs),
    decreases cs.len(),
{
    if cs.len() == 0 {
        assert forall|t: Seq<char>| #[trigger] m.contains_key(t) && section_kind(m, t) == SectionKind::Table implies
            entries_after_edits(table_entries(m, t), cs, t) =~= table_entries(m, t) by {}
        assert(doc_after_last_edits(m, cs) =~= m);
    } else {
        lemma_edits_read_off(m, cs.drop_last());
        lemma_last_edits_step(m, cs);
    }
}

/// Writing a list of edits a second time changes nothing.
pub proof fn lemma_edits_idempotent(m: Map<Seq<char>, TomlSection>, cs: Seq<ChangeView>)
    ensures
        doc_after_changes(doc_after_changes(m, cs), cs) == doc_after_changes(m, cs),
{
    let once = doc_after_last_edits(m, cs);
    lemma_edits_read_off(m, cs);
    lemma_edits_read_off(once, cs);
    let twice = doc_after_last_edits(once, cs);
    assert forall|t: Seq<char>| #[trigger] once.contains_key(t) && (section_kind(once, t) == SectionKind::Table || sets_table(cs, t)) implies
        entries_after_edits(table_entries(once, t), cs, t) =~= table_entries(once, t) by {
        let es = table_entries(m, t);
        assert forall|k: Seq<char>| #[trigger] entry_after_edits(table_entries(once, t), cs, t, k)
            == entry_after_edits(es, cs, t, k) by {
            lemma_last_edit_facts(cs, t, k);
        }
    }
    assert(twice =~= once);
}

/// The order of the entries of the tables after one edit: a value set under
/// a key that is not there goes at the end of its table (a table that is
/// not there starts with no entries); a value set under a key that is there
/// keeps its place; removing an entry leaves the others in their order.
pub open spec fn order_after_change(
    m: Map<Seq<char>, TomlSection>,
    o: Map<Seq<char>, Seq<Seq<char>>>,
    c: ChangeView,
) -> Map<Seq<char>, Seq<Seq<char>>> {
    match c {
        ChangeView::SetValue(t, k, _) => {
            let o1 = if section_kind(m, t) == SectionKind::Absent { o.insert(t, Seq::empty()) } else { o };
            if entry_kind(table_entries(m, t), k) == EntryKind::Absent {
                o1.insert(t, order_of(o1, t).push(k))
            } else {
                o1
            }
        },
        ChangeView::Remove(t, k) => if section_kind(m, t) == SectionKind::Table {
            o.insert(t, order_of(o, t).remove_value(k))
        } else {
            o
        },
    }
}

/// The order of the entries of the tables after a list of edits, in order.
pub open spec fn order_after_changes(
    m: Map<Seq<char>, TomlSection>,
    o: Map<Seq<char>, Seq<Seq<char>>>,
    cs: Seq<ChangeView>,
) -> Map<Seq<char>, Seq<Seq<char>>>
    decreases cs.len(),
{
    if cs.len() == 0 {
        o
    } else {
        order_after_change(doc_after_changes(m, cs.drop_last()), order_after_changes(m, o, cs.drop_last()), cs.last())
    }
}

/// Whether `a` comes before `b` in a sequence.
pub open spec fn precedes(s: Seq<Seq<char>>, a: Seq<char>, b: Seq<char>) -> bool {
    exists|i: int, j: int| 0 <= i < j < s.len() && s[i] == a && s[j] == b
}

/// An order that fits a document fits it after an edit.
proof fn lemma_order_fits_step(m: Map<Seq<char>, TomlSection>, o: Map<Seq<char>, Seq<Seq<char>>>, c: ChangeView)
    requires
        order_fits(m, o),
    ensures
        order_fits(doc_after_change(m, c), order_after_change(m, o, c)),
{
    let m2 = doc_after_change(m, c);
    let o2 = order_after_change(m, o, c);
    let (t0, k0) = edit_target(c);
    let s = order_of(o, t0);
    assert forall|t: Seq<char>| t != t0 implies #[trigger] order_of(o2, t) == order_of(o, t)
        && table_entries(m2, t) == table_entries(m, t) by {}
    match c {
        ChangeView::SetValue(t, k, v) => {
            if entry_kind(table_entries(m, t0), k0) == EntryKind::Absent {
                assert(!s.contains(k0));
                let s2 = order_of(o2, t0);
                if section_kind(m, t0) == SectionKind::Absent {
                    assert(s =~= Seq::<Seq<char>>::empty()) by {
                        if s.len() > 0 {
                            assert(s.contains(s[0]));
                        }
                    }
                    assert(s2 =~= seq![k0]);
                } else {
                    assert(s2 == s.push(k0));
                }
                assert(s2.no_duplicates()) by {
                    assert forall|i: int, j: int| 0 <= i < s2.len() && 0 <= j < s2.len() && i != j implies s2[i] != s2[j] by {
                        assert(s.no_duplicates());
                        assert(!table_entries(m, t0).contains_key(k0));
                        if i < s.len() && j < s.len() {
                            assert(s2[i] == s[i] && s2[j] == s[j]);
                            assert(s[i] != s[j]);
                        } else if i < s.len() {
                            assert(s2[i] == s[i]);
                            assert(s.contains(s[i]));
                            assert(table_entries(m, t0).contains_key(s[i]));
                        } else if j < s.len() {
                            assert(s2[j] == s[j]);
                            assert(s.contains(s[j]));
                            assert(table_entries(m, t0).contains_key(s[j]));
                        }
                    }
                }
                assert forall|k: Seq<char>| #[trigger] s2.contains(k) implies table_entries(m2, t0).contains_key(k) by {
                    if k != k0 {
                        let i = choose|i: int| 0 <= i < s2.len() && s2[i] == k;
                        assert(s[i] == k);
                        assert(s.contains(k));
                    }
                }
            } else {
                assert(section_kind(m, t0) != SectionKind::Absent);
                assert forall|k: Seq<char>| #[trigger] s.contains(k) implies table_entries(m2, t0).contains_key(k) by {}
            }
        },
        ChangeView::Remove(t, k) => {
            if section_kind(m, t0) == SectionKind::Table {
                let s2 = s.remove_value(k0);
                s.index_of_first_ensures(k0);
                if s.contains(k0) {
                    let x = s.index_of_first(k0).unwrap();
                    s.remove_ensures(x);
                    assert(s2 == s.remove(x));
                    assert(s2.no_duplicates()) by {
                        assert forall|i: int, j: int| 0 <= i < s2.len() && 0 <= j < s2.len() && i != j implies s2[i] != s2[j] by {
                            let i2 = if i < x { i } else { i + 1 };
                            let j2 = if j < x { j } else { j + 1 };
                            assert(s2[i] == s[i2] && s2[j] == s[j2]);
                            assert(s.no_duplicates());
                            assert(s[i2] != s[j2]);
                        }
                    }
                    assert forall|k: Seq<char>| #[trigger] s2.contains(k) implies table_entries(m2, t0).contains_key(k) by {
                        let i = choose|i: int| 0 <= i < s2.len() && s2[i] == k;
                        let i2 = if i < x { i } else { i + 1 };
                        assert(s2[i] == s[i2]);
                        assert(s.contains(k));
                        assert(i2 != x);
                        assert(s.no_duplicates());
                        assert(s[x] == k0);
                        assert(s[i2] != s[x]);
                        assert(table_entries(m, t0).contains_key(k));
                        assert(table_entries(m2, t0) == table_entries(m, t0).remove(k0));
                    }
                } else {
                    assert(s2 == s);
                    assert forall|k: Seq<char>| #[trigger] s2.contains(k) implies table_entries(m2, t0).contains_key(k) by {
                        assert(s.contains(k));
                    }
                }
            }
        },
    }
}

/// An order that fits a document fits it after a list of edits.
proof fn lemma_order_fits_after(m: Map<Seq<char>, TomlSection>, o: Map<Seq<char>, Seq<Seq<char>>>, cs: Seq<ChangeView>)
    requires
        order_fits(m, o),
    ensures
        order_fits(doc_after_changes(m, cs), order_after_changes(m, o, cs)),
    decreases cs.len(),
{
    if cs.len() > 0 {
        lemma_order_fits_after(m, o, cs.drop_last());
        lemma_order_fits_step(doc_after_changes(m, cs.drop_last()), order_after_changes(m, o, cs.drop_last()), cs.last());
    }
}

/// One edit that removes neither of two keys of a table keeps them in their
/// order.
proof fn lemma_order_step_keeps(
    m: Map<Seq<char>, TomlSection>,
    o: Map<Seq<char>, Seq<Seq<char>>>,
    c: ChangeView,
    table: Seq<char>,
    a: Seq<char>,
    b: Seq<char>,
)
    requires
        order_fits(m, o),
        precedes(order_of(o, table), a, b),
        c != ChangeView::Remove(table, a),
        c != ChangeView::Remove(table, b),
    ensures
        precedes(order_of(order_after_change(m, o, c), table), a, b),
{
    let s = order_of(o, table);
    let (i, j) = choose|i: int, j: int| 0 <= i < j < s.len() && s[i] == a && s[j] == b;
    assert(s.contains(a));
    assert(table_entries(m, table).contains_key(a));
    let s2 = order_of(order_after_change(m, o, c), table);
    match c {
        ChangeView::SetValue(t, k, v) => {
            if t == table {
                assert(section_kind(m, t) != SectionKind::Absent);
                if entry_kind(table_entries(m, t), k) == EntryKind::Absent {
                    assert(s2 == s.push(k));
                    assert(s2[i] == a && s2[j] == b);
                } else {
                    assert(s2 == s);
                }
            } else {
                assert(s2 == s);
            }
            assert(precedes(s2, a, b));
        },
        ChangeView::Remove(t, k) => {
            if t == table && section_kind(m, t) == SectionKind::Table {
                s.index_of_first_ensures(k);
                if s.contains(k) {
                    let x = s.index_of_first(k).unwrap();
                    s.remove_ensures(x);
                    assert(s2 == s.remove(x));
                    assert(x != i && x != j);
                    let i2 = if i < x { i } else { i - 1 };
                    let j2 = if j < x { j } else { j - 1 };
                    assert(s2[i2] == a && s2[j2] == b);
                } else {
                    assert(s2 == s);
                }
            } else {
                assert(s2 == s);
            }
            assert(precedes(s2, a, b));
        },
    }
}

/// Keys of a table that no edit of a list removes keep their order: a value
/// set under a key that is there keeps its place, and new keys go after the
/// keys that were there.
pub proof fn lemma_kept_keys_keep_order(
    m: Map<Seq<char>, TomlSection>,
    o: Map<Seq<char>, Seq<Seq<char>>>,
    cs: Seq<ChangeView>,
    table: Seq<char>,
    a: Seq<char>,
    b: Seq<char>,
)
    requires
        order_fits(m, o),
        precedes(order_of(o, table), a, b),
        !removes(cs, table, a),
        !removes(cs, table, b),
    ensures
        precedes(order_of(order_after_changes(m, o, cs), table), a, b),
    decreases cs.len(),
{
    if cs.len() > 0 {
        let r = cs.drop_last();
        lemma_kept_keys_keep_order(m, o, r, table, a, b);
        lemma_order_fits_after(m, o, r);
        lemma_order_step_keeps(doc_after_changes(m, r), order_after_changes(m, o, r), cs.last(), table, a, b);
    }
}

/// Whether every value the edits set goes into a table or into a key that
/// does not exist yet: a value, inline table or array of tables under that
/// key cannot take entries.
pub open spec fn sets_fit(m: Map<Seq<char>, TomlSection>, cs: Seq<ChangeView>) -> bool {
    forall|i: int| 0 <= i < cs.len() ==> (#[trigger] cs[i] matches ChangeView::SetValue(t, _, _) ==> section_kind(m, t) != SectionKind::Other)
}

/// What editing a configuration text gives: the error of the parser when
/// the text is not TOML; nothing when an edit sets a value under a key that
/// holds something other than a table; otherwise a text that reads back as
/// the edited document.
pub open spec fn edit_text_matches(start: Result<Map<Seq<char>, TomlSection>, Seq<char>>, path: Seq<char>, cs: Seq<ChangeView>, r: Result<Option<String>, Error>) -> bool {
    match start {
        Err(msg) => r matches Err(Error::ParseToml { path: p, err: e }) && p@ == path && e@ == msg,
        Ok(m) => if sets_fit(m, cs) {
            r matches Ok(Some(s)) && reads_back_as(s@, doc_after_changes(m, cs))
        } else {
            r matches Ok(None)
        },
    }
}

/// With no edit of a list about `key` of `table`, the list has no last edit
/// about it, and sets no value in a table that no edit is about.
proof fn lemma_untouched_no_edit(cs: Seq<ChangeView>, table: Seq<char>, key: Seq<char>)
    ensures
        (forall|i: int| 0 <= i < cs.len() ==> edit_target(#[trigger] cs[i]) != (table, key))
            ==> last_edit(cs, table, key) is None,
        (forall|i: int| 0 <= i < cs.len() ==> (#[trigger] edit_target(cs[i])).0 != table)
            ==> !sets_table(cs, table),
    decreases cs.len(),
{
    if cs.len() > 0 {
        let r = cs.drop_last();
        lemma_untouched_no_edit(r, table, key);
        assert(cs[cs.len() - 1] == cs.last());
        if forall|i: int| 0 <= i < cs.len() ==> edit_target(#[trigger] cs[i]) != (table, key) {
            assert forall|i: int| 0 <= i < r.len() implies edit_target(#[trigger] r[i]) != (table, key) by {
                assert(r[i] == cs[i]);
            }
        }
        if forall|i: int| 0 <= i < cs.len() ==> (#[trigger] edit_target(cs[i])).0 != table {
            assert forall|i: int| 0 <= i < r.len() implies (#[trigger] edit_target(r[i])).0 != table by {
                assert(r[i] == cs[i]);
            }
        }
    }
}

/// An entry that no edit of a list is about keeps its value and its
/// decoration.
pub proof fn lemma_untouched_entry_stays(m: Map<Seq<char>, TomlSection>, cs: Seq<ChangeView>, table: Seq<char>, key: Seq<char>)
    requires
        forall|i: int| 0 <= i < cs.len() ==> edit_target(#[trigger] cs[i]) != (table, key),
        table_entries(m, table).contains_key(key),
    ensures
        table_entries(doc_after_changes(m, cs), table).contains_key(key),
        table_entries(doc_after_changes(m, cs), table)[key] == table_entries(m, table)[key],
{
    lemma_edits_read_off(m, cs);
    lemma_untouched_no_edit(cs, table, key);
    let es = table_entries(m, table);
    assert(section_kind(m, table) == SectionKind::Table);
    assert(entry_after_edits(es, cs, table, key) == Some(es[key]));
    assert(table_entries(doc_after_last_edits(m, cs), table) == entries_after_edits(es, cs, table));
}

/// A table that no edit of a list is about stays as it was, and so does
/// anything else at the top level of the document that no edit is about.
pub proof fn lemma_untouched_table_stays(m: Map<Seq<char>, TomlSection>, cs: Seq<ChangeView>, table: Seq<char>)
    requires
        forall|i: int| 0 <= i < cs.len() ==> (#[trigger] edit_target(cs[i])).0 != table,
    ensures
        doc_after_changes(m, cs).contains_key(table) == m.contains_key(table),
        m.contains_key(table) ==> doc_after_changes(m, cs)[table] == m[table],
{
    lemma_edits_read_off(m, cs);
    lemma_untouched_no_edit(cs, table, Seq::empty());
    if section_kind(m, table) == SectionKind::Table {
        let es = table_entries(m, table);
        assert forall|k: Seq<char>| #[trigger] entry_after_edits(es, cs, table, k)
            == (if es.contains_key(k) { Some(es[k]) } else { None }) by {
            lemma_untouched_no_edit(cs, table, k);
            assert forall|i: int| 0 <= i < cs.len() implies edit_target(#[trigger] cs[i]) != (table, k) by {
                assert(edit_target(cs[i]).0 != table);
            }
        }
        assert(entries_after_edits(es, cs, table) =~= es);
    }
}

/// Whether no two edits of a list are about the same table and key.
pub open spec fn distinct_targets(cs: Seq<ChangeView>) -> bool {
    forall|i: int, j: int| 0 <= i < j < cs.len() ==> edit_target(cs[i]) != edit_target(cs[j])
}

/// In a list whose edits are each about a different table and key, the last
/// edit about the table and key of an edit is that edit.
pub proof fn lemma_last_edit_of_distinct(cs: Seq<ChangeView>, i: int)
    requires
        distinct_targets(cs),
        0 <= i < cs.len(),
    ensures
        last_edit(cs, edit_target(cs[i]).0, edit_target(cs[i]).1) == Some(cs[i]),
    decreases cs.len(),
{
    if i < cs.len() - 1 {
        let r = cs.drop_last();
        assert(r[i] == cs[i]);
        assert(edit_target(cs[i]) != edit_target(cs[cs.len() - 1]));
        assert(distinct_targets(r)) by {
            assert forall|a: int, b: int| 0 <= a < b < r.len() implies edit_target(r[a]) != edit_target(r[b]) by {
                assert(r[a] == cs[a] && r[b] == cs[b]);
            }
        }
        lemma_last_edit_of_distinct(r, i);
    }
}

/// A table that no edit sets a value in, and that had no entries, has none
/// after the edits.
proof fn lemma_no_sets_no_entries(cs: Seq<ChangeView>, table: Seq<char>)
    requires
        !sets_table(cs, table),
    ensures
        entries_after_edits(Map::empty(), cs, table) == Map::<Seq<char>, TomlEntry>::empty(),
{
    assert forall|k: Seq<char>| !(#[trigger] entry_after_edits(Map::empty(), cs, table, k) is Some) by {
        lemma_last_edit_facts(cs, table, k);
    }
    assert(entries_after_edits(Map::empty(), cs, table) =~= Map::<Seq<char>, TomlEntry>::empty());
}

/// Entries that are written out alike are written out alike after the same
/// edits.
proof fn lemma_entries_after_edits_shown(
    tp: Map<Seq<char>, TomlEntry>,
    tq: Map<Seq<char>, TomlEntry>,
    cs: Seq<ChangeView>,
    table: Seq<char>,
)
    requires
        shown_entries(tp) == shown_entries(tq),
    ensures
        shown_entries(entries_after_edits(tp, cs, table)) == shown_entries(entries_after_edits(tq, cs, table)),
{
    assert(tp.dom() =~= shown_entries(tp).dom());
    assert(tq.dom() =~= shown_entries(tq).dom());
    assert forall|k: Seq<char>| tp.contains_key(k) implies #[trigger] shown_entry(tp[k]) == shown_entry(tq[k]) by {
        assert(shown_entries(tp).contains_key(k));
        assert(shown_entries(tp)[k] == shown_entry(tp[k]));
        assert(shown_entries(tq)[k] == shown_entry(tq[k]));
    }
    let ep = entries_after_edits(tp, cs, table);
    let eq = entries_after_edits(tq, cs, table);
    assert forall|k: Seq<char>| #[trigger] ep.contains_key(k) == eq.contains_key(k) by {}
    assert forall|k: Seq<char>| ep.contains_key(k) implies #[trigger] shown_entry(ep[k]) == shown_entry(eq[k]) by {
        if tp.contains_key(k) {
            assert(shown_entry(tp[k]) == shown_entry(tq[k]));
        }
    }
    assert(shown_entries(ep) =~= shown_entries(eq)) by {
        assert forall|k: Seq<char>| #[trigger] shown_entries(ep).contains_key(k) implies shown_entries(ep)[k] == shown_entries(eq)[k] by {
            assert(shown_entry(ep[k]) == shown_entry(eq[k]));
        }
    }
}

/// One table of `lemma_edits_keep_reading`.
proof fn lemma_edits_keep_reading_at(
    p: Map<Seq<char>, TomlSection>,
    q: Map<Seq<char>, TomlSection>,
    cs: Seq<ChangeView>,
    t: Seq<char>,
)
    requires
        visible_sections(p) == visible_sections(q),
        doc_after_last_edits(q, cs) == q,
        sets_table(cs, t) ==> visible_sections(q).contains_key(t),
    ensures
        visible_sections(doc_after_last_edits(p, cs)).contains_key(t) == visible_sections(q).contains_key(t),
        visible_sections(q).contains_key(t) ==> visible_sections(doc_after_last_edits(p, cs))[t] == visible_sections(q)[t],
{
    let p2 = doc_after_last_edits(p, cs);
    let vp = p.contains_key(t) && !is_hidden(p[t]);
    let vq = q.contains_key(t) && !is_hidden(q[t]);
    assert(visible_sections(p).contains_key(t) == vp);
    assert(visible_sections(q).contains_key(t) == vq);
    assert(vp == vq);
    let tp = table_entries(p, t);
    let tq = table_entries(q, t);
    if vp {
        assert(visible_sections(p)[t] == shown_section(p[t]));
        assert(visible_sections(q)[t] == shown_section(q[t]));
        assert(shown_section(p[t]) == shown_section(q[t]));
        assert(section_kind(p, t) == section_kind(q, t));
    }
    assert(shown_entries(tp) =~= shown_entries(tq));
    lemma_entries_after_edits_shown(tp, tq, cs, t);
    let ep = entries_after_edits(tp, cs, t);
    let eq = entries_after_edits(tq, cs, t);
    assert(ep.dom() =~= shown_entries(ep).dom());
    assert(eq.dom() =~= shown_entries(eq).dom());
    assert(tp.dom() =~= shown_entries(tp).dom());
    assert(tq.dom() =~= shown_entries(tq).dom());
    assert(q.contains_key(t) == doc_after_last_edits(q, cs).contains_key(t));
    if section_kind(q, t) == SectionKind::Table || sets_table(cs, t) {
        assert(q[t] == doc_after_last_edits(q, cs)[t]);
        assert(eq == tq);
    }
    if ep == Map::<Seq<char>, TomlEntry>::empty() && eq == tq {
        assert(eq.dom() =~= Set::<Seq<char>>::empty());
        assert(eq =~= Map::<Seq<char>, TomlEntry>::empty());
        assert(tp.dom() =~= Set::<Seq<char>>::empty());
        assert(tp =~= Map::<Seq<char>, TomlEntry>::empty());
    }
    if sets_table(cs, t) {
        assert(p2[t] == TomlSection::Table(ep, table_implicit(p, t)));
        assert(!is_hidden(p2[t]));
        assert(visible_sections(p2)[t] == shown_section(p2[t]));
        assert(visible_sections(q)[t] == shown_section(q[t]));
    } else if vp {
        if section_kind(p, t) == SectionKind::Table {
            assert(p2[t] == TomlSection::Table(ep, table_implicit(p, t)));
            assert(eq == tq);
            assert(!is_hidden(p2[t]));
        } else {
            assert(p2[t] == p[t]);
        }
        assert(visible_sections(p2)[t] == shown_section(p2[t]));
        assert(visible_sections(q)[t] == shown_section(q[t]));
    } else if p.contains_key(t) {
        lemma_no_sets_no_entries(cs, t);
        assert(tp == Map::<Seq<char>, TomlEntry>::empty());
        assert(p2[t] == TomlSection::Table(ep, table_implicit(p, t)));
    }
}

/// A document that reads back as a document that the edits leave as it is,
/// reads back the same after the edits, when every table the edits set a
/// value in is written out in the latter.
proof fn lemma_edits_keep_reading(p: Map<Seq<char>, TomlSection>, q: Map<Seq<char>, TomlSection>, cs: Seq<ChangeView>)
    requires
        visible_sections(p) == visible_sections(q),
        doc_after_last_edits(q, cs) == q,
        forall|t: Seq<char>| #[trigger] sets_table(cs, t) ==> visible_sections(q).contains_key(t),
    ensures
        visible_sections(doc_after_last_edits(p, cs)) == visible_sections(q),
{
    let p2 = doc_after_last_edits(p, cs);
    assert forall|t: Seq<char>| #[trigger] visible_sections(p2).contains_key(t) == visible_sections(q).contains_key(t) by {
        lemma_edits_keep_reading_at(p, q, cs, t);
    }
    assert forall|t: Seq<char>| #[trigger] visible_sections(q).contains_key(t) implies visible_sections(p2)[t] == visible_sections(q)[t] by {
        lemma_edits_keep_reading_at(p, q, cs, t);
    }
    assert(visible_sections(p2) =~= visible_sections(q));
}

/// Whether every table that the edits set a value in is written out after
/// the edits: none of them is an implicit table (one without a header of
/// its own) that the edits leave without entries.
pub open spec fn sets_leave_tables_shown(m: Map<Seq<char>, TomlSection>, cs: Seq<ChangeView>) -> bool {
    forall|t: Seq<char>| #[trigger] sets_table(cs, t) ==> visible_sections(doc_after_changes(m, cs)).contains_key(t)
}

/// An edit of a list that sets a value in a table that the list sets a
/// value in.
proof fn lemma_sets_table_witness(cs: Seq<ChangeView>, table: Seq<char>) -> (i: int)
    requires
        sets_table(cs, table),
    ensures
        0 <= i < cs.len(),
        cs[i] matches ChangeView::SetValue(t, _, _) && t == table,
    decreases cs.len(),
{
    if cs.last() matches ChangeView::SetValue(t, _, _) && t == table {
        cs.len() - 1
    } else {
        let i = lemma_sets_table_witness(cs.drop_last(), table);
        assert(cs.drop_last()[i] == cs[i]);
        i
    }
}

/// A list of edits each about a different table and key leaves every table
/// that it sets a value in with that value, so the table is written out.
pub(crate) proof fn lemma_distinct_sets_leave_tables_shown(m: Map<Seq<char>, TomlSection>, cs: Seq<ChangeView>)
    requires
        distinct_targets(cs),
    ensures
        sets_leave_tables_shown(m, cs),
{
    lemma_edits_read_off(m, cs);
    let after = doc_after_last_edits(m, cs);
    assert forall|t: Seq<char>| #[trigger] sets_table(cs, t) implies visible_sections(doc_after_changes(m, cs)).contains_key(t) by {
        let i = lemma_sets_table_witness(cs, t);
        let k = edit_target(cs[i]).1;
        lemma_last_edit_of_distinct(cs, i);
        let es = entries_after_edits(table_entries(m, t), cs, t);
        assert(es.contains_key(k));
        assert(after[t] == TomlSection::Table(es, table_implicit(m, t)));
        assert(es != Map::<Seq<char>, TomlEntry>::empty());
        assert(!is_hidden(after[t]));
    }
}

/// Whether two texts are TOML documents that read back alike.
pub open spec fn reads_alike(a: Seq<char>, b: Seq<char>) -> bool {
    toml_parse(a) matches Ok(pa) && toml_parse(b) matches Ok(pb) && visible_sections(pa) == visible_sections(pb)
}

/// Writing a list of edits into the text that writing them gave succeeds,
/// and gives a text that reads back as that text, when every table the
/// edits set a value in is written out the first time.
pub proof fn lemma_edit_text_twice(
    start: Result<Map<Seq<char>, TomlSection>, Seq<char>>,
    path: Seq<char>,
    cs: Seq<ChangeView>,
    first: Result<Option<String>, Error>,
    second: Result<Option<String>, Error>,
)
    requires
        edit_text_matches(start, path, cs, first),
        start matches Ok(m) ==> sets_leave_tables_shown(m, cs),
        first matches Ok(Some(s1)) && edit_text_matches(toml_parse(s1@), path, cs, second),
    ensures
        first matches Ok(Some(s1)) && second matches Ok(Some(s2)) && reads_alike(s1@, s2@),
{
    let m = start->Ok_0;
    let s1 = first->Ok_0->Some_0;
    let q = doc_after_changes(m, cs);
    let p = toml_parse(s1@)->Ok_0;
    lemma_edits_read_off(m, cs);
    lemma_edits_idempotent(m, cs);
    lemma_edits_read_off(q, cs);
    assert(sets_fit(p, cs)) by {
        assert forall|i: int| 0 <= i < cs.len() implies (#[trigger] cs[i] matches ChangeView::SetValue(t, _, _)
            ==> section_kind(p, t) != SectionKind::Other) by {
            if let ChangeView::SetValue(t, k, v) = cs[i] {
                lemma_set_in_list_sets_table(cs, i);
                assert(visible_sections(q).contains_key(t));
                assert(visible_sections(p)[t] == visible_sections(q)[t]);
            }
        }
    }
    lemma_edits_read_off(p, cs);
    lemma_edits_keep_reading(p, q, cs);
}

/// A list with an edit that sets a value in a table sets a value in it.
proof fn lemma_set_in_list_sets_table(cs: Seq<ChangeView>, i: int)
    requires
        0 <= i < cs.len(),
        cs[i] is SetValue,
    ensures
        sets_table(cs, edit_target(cs[i]).0),
    decreases cs.len(),
{
    if i < cs.len() - 1 {
        assert(cs.drop_last()[i] == cs[i]);
        lemma_set_in_list_sets_table(cs.drop_last(), i);
    }
}

/// Writes edits into the configuration file.
pub struct ConfigWriter;

impl ConfigWriter {
    /// Carries out the edits on a document, in order: a value that replaces
    /// a value keeps the whitespace and comment around it (see
    /// `doc_after_change`).
    pub fn apply_changes(doc: &mut toml_edit::DocumentMut, changes: &[Change])
        requires
            sets_fit(doc_contents(*old(doc)), changes_view(changes@)),
            doc_built(*old(doc)),
        ensures
            doc_contents(*final(doc)) == doc_after_changes(doc_contents(*old(doc)), changes_view(changes@)),
            doc_key_order(*final(doc)) == order_after_changes(
                doc_contents(*old(doc)),
                doc_key_order(*old(doc)),
                changes_view(changes@),
            ),
            doc_built(*final(doc)),
    {
        let ghost orig = doc_contents(*doc);
        let ghost orig_order = doc_key_order(*doc);
        let ghost cs = changes_view(changes@);
        let mut i: usize = 0;
        while i < changes.len()
            invariant
                i <= changes@.len(),
                orig == doc_contents(*old(doc)),
                cs == changes_view(changes@),
                sets_fit(orig, cs),
                doc_built(*doc),
                doc_contents(*doc) == doc_after_changes(orig, cs.take(i as int)),
                orig_order == doc_key_order(*old(doc)),
                doc_key_order(*doc) == order_after_changes(orig, orig_order, cs.take(i as int)),
                forall|t: Seq<char>| #[trigger] section_kind(doc_contents(*doc), t) == SectionKind::Other
                    ==> section_kind(orig, t) == SectionKind::Other,
            decreases changes@.len() - i,
        {
            let ghost before = doc_contents(*doc);
            let ghost before_order = doc_key_order(*doc);
            match &changes[i] {
                Change::SetValue(t, k, v) => {
                    assert(cs[i as int] matches ChangeView::SetValue(_, _, _));
                    let kind = doc_section_kind(doc, t);
                    if kind == SectionKind::Absent {
                        doc_insert_table(doc, t);
                    }
                    let ek = doc_entry_kind(doc, t, k);
                    if ek == EntryKind::Value {
                        let (prefix, suffix) = doc_value_decor(doc, t, k);
                        let ghost kept = entry_decor(table_entries(before, t@), k@);
                        doc_assign_value(doc, t, k, v);
                        assert(table_entries(doc_contents(*doc), t@) =~= table_entries(before, t@).insert(
                            k@, TomlEntry::Value(ValueKind::Known(v@), default_decor())));
                        if let Some(p) = &prefix {
                            doc_set_prefix(doc, t, k, p.as_str());
                        }
                        let ghost half = ValueDecor { prefix: kept.prefix, suffix: None };
                        assert(table_entries(doc_contents(*doc), t@) =~= table_entries(before, t@).insert(
                            k@, TomlEntry::Value(ValueKind::Known(v@), half)));
                        assert(doc_contents(*doc) =~= with_entry(before, t@, k@, TomlEntry::Value(ValueKind::Known(v@), half)));
                        if let Some(x) = &suffix {
                            doc_set_suffix(doc, t, k, x.as_str());
                        }
                        assert(table_entries(doc_contents(*doc), t@) =~= table_entries(before, t@).insert(
                            k@, TomlEntry::Value(ValueKind::Known(v@), kept)));
                    } else {
                        doc_insert_value(doc, t, k, v);
                    }
                    assert(doc_contents(*doc) =~= doc_after_change(before, ChangeView::SetValue(t@, k@, v@)));
                    assert(doc_key_order(*doc) == order_after_change(before, before_order, ChangeView::SetValue(t@, k@, v@)));
                    assert forall|u: Seq<char>| #[trigger] section_kind(doc_contents(*doc), u) == SectionKind::Other
                        implies section_kind(before, u) == SectionKind::Other by {
                        if u != t@ {
                            assert(doc_contents(*doc).contains_key(u) == before.contains_key(u));
                        }
                    }
                },
                Change::Remove(t, k) => {
                    if doc_section_kind(doc, t) == SectionKind::Table {
                        doc_remove_entry(doc, t, k);
                    }
                    assert forall|u: Seq<char>| #[trigger] section_kind(doc_contents(*doc), u) == SectionKind::Other
                        implies section_kind(before, u) == SectionKind::Other by {
                        if u != t@ {
                            assert(doc_contents(*doc).contains_key(u) == before.contains_key(u));
                        }
                    }
                },
            }
            assert(cs.take(i + 1).drop_last() =~= cs.take(i as int));
            i = i + 1;
        }
        assert(cs.take(i as int) =~= cs);
    }

    /// Whether every value that the edits set can go where they put it.
    fn edits_fit(doc: &toml_edit::DocumentMut, changes: &[Change]) -> (b: bool)
        ensures
            b == sets_fit(doc_contents(*doc), changes_view(changes@)),
    {
        let ghost cs = changes_view(changes@);
        let mut i: usize = 0;
        while i < changes.len()
            invariant
                i <= changes@.len(),
                cs == changes_view(changes@),
                forall|j: int| 0 <= j < i ==> (#[trigger] cs[j] matches ChangeView::SetValue(t, _, _)
                    ==> section_kind(doc_contents(*doc), t) != SectionKind::Other),
            decreases changes@.len() - i,
        {
            if let Change::SetValue(t, _, _) = &changes[i] {
                if doc_section_kind(doc, t) == SectionKind::Other {
                    assert(cs[i as int] matches ChangeView::SetValue(_, _, _));
                    return false;
                }
            }
            i = i + 1;
        }
        true
    }

    /// The new text of the configuration file: the current text (`None` when
    /// there is no file yet) with the edits carried out. `path` names the
    /// file in the error given when the current text is not TOML. `Ok(None)`
    /// when an edit sets a value under a key that holds something other than
    /// a table.
    pub fn edit_text(existing: Option<&str>, path: &str, changes: &[Change]) -> (r: Result<Option<String>, Error>)
        ensures
            edit_text_matches(
                match existing {
                    Some(text) => toml_parse(text@),
                    None => parsed_as(empty_doc()),
                },
                path@,
                changes_view(changes@),
                r,
            ),
    {
        let mut doc = match existing {
            Some(text) => match doc_parse(text) {
                Ok(d) => d,
                Err(msg) => {
                    return Err(Error::ParseToml { path: path.to_owned(), err: msg });
                },
            },
            None => doc_new(),
        };
        if !ConfigWriter::edits_fit(&doc, changes) {
            return Ok(None);
        }
        ConfigWriter::apply_changes(&mut doc, changes);
        Ok(Some(doc_render(&doc)))
    }
}

} // verus!
