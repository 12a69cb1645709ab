use vstd::prelude::*;

use crate::config::{TomlValue, TomlValueView};

verus! {

/// An editable TOML document that keeps the comments and layout of the
/// text it was read from.
#[verifier::external_type_specification]
#[verifier::external_body]
pub struct ExDocumentMut(toml_edit::DocumentMut);

/// The whitespace and comment around a value: the text before it (after
/// the `=`) and the text after it on its line. `None` stands for the
/// default, which is written as one space before and nothing after.
pub struct ValueDecor {
    pub prefix: Option<Seq<char>>,
    pub suffix: Option<Seq<char>>,
}

/// The decoration of a value that was made rather than read.
pub open spec fn default_decor() -> ValueDecor {
    ValueDecor { prefix: None, suffix: None }
}

/// What a value is, as far as the configuration cares: a string, boolean or
/// integer, or any other value (float, date, array, inline table).
pub enum ValueKind {
    Known(TomlValueView),
    Other,
}

/// An entry of a table: a value with its decoration, or something that is
/// not a value (a sub-table, an array of tables).
pub enum TomlEntry {
    Value(ValueKind, ValueDecor),
    NotValue,
}

/// A top-level item of a document: a table with its entries and whether it
/// is implicit (it has no header of its own: it only holds sub-tables or
/// dotted keys); or anything else (a value, an inline table, an array of
/// tables).
pub enum TomlSection {
    Table(Map<Seq<char>, TomlEntry>, bool),
    Other,
}

/// What a document holds: its top-level items by key.
pub uninterp spec fn doc_contents(doc: toml_edit::DocumentMut) -> Map<Seq<char>, TomlSection>;

/// Whether a document was made by `doc_new` or `doc_parse` and changed only
/// by the editing wrappers below: such a document holds only text that the
/// parser produced or that `toml_edit` formats itself, and no empty
/// placeholder item (`toml_edit::Item::None`).
pub uninterp spec fn doc_built(doc: toml_edit::DocumentMut) -> bool;

/// The order of the entries of the tables of a document: under the key of
/// each top-level table, the keys of its entries in the order that
/// `toml_edit::Table::iter` gives them.
pub uninterp spec fn doc_key_order(doc: toml_edit::DocumentMut) -> Map<Seq<char>, Seq<Seq<char>>>;

/// The order of the entries of a document with no tables.
pub open spec fn no_entries_order() -> Map<Seq<char>, Seq<Seq<char>>> {
    Map::empty()
}

/// The order of the entries of the table under `table`; none when there is
/// no such table.
pub open spec fn order_of(o: Map<Seq<char>, Seq<Seq<char>>>, table: Seq<char>) -> Seq<Seq<char>> {
    if o.contains_key(table) {
        o[table]
    } else {
        Seq::empty()
    }
}

/// Whether an order of entries fits a document: no table lists a key twice
/// or lists a key that it has no entry for.
pub open spec fn order_fits(m: Map<Seq<char>, TomlSection>, o: Map<Seq<char>, Seq<Seq<char>>>) -> bool {
    &&& forall|t: Seq<char>| #[trigger] order_of(o, t).no_duplicates()
    &&& forall|t: Seq<char>, k: Seq<char>| #[trigger] order_of(o, t).contains(k) ==> table_entries(m, t).contains_key(k)
}

/// What parsing a text as a TOML document gives: its top-level items, or
/// the parser's error message.
pub uninterp spec fn toml_parse(text: Seq<char>) -> Result<Map<Seq<char>, TomlSection>, Seq<char>>;

/// A document with nothing in it.
pub open spec fn empty_doc() -> Map<Seq<char>, TomlSection> {
    Map::empty()
}

/// A decoration as it is written out: the default spelled out.
pub open spec fn shown_decor(d: ValueDecor) -> ValueDecor {
    ValueDecor {
        prefix: Some(match d.prefix { Some(p) => p, None => " "@ }),
        suffix: Some(match d.suffix { Some(x) => x, None => ""@ }),
    }
}

/// An entry as it is written out.
pub open spec fn shown_entry(e: TomlEntry) -> TomlEntry {
    match e {
        TomlEntry::Value(k, d) => TomlEntry::Value(k, shown_decor(d)),
        TomlEntry::NotValue => TomlEntry::NotValue,
    }
}

/// The entries of a table as they are written out.
pub open spec fn shown_entries(es: Map<Seq<char>, TomlEntry>) -> Map<Seq<char>, TomlEntry> {
    es.map_values(|e: TomlEntry| shown_entry(e))
}

/// Whether a top-level item is not written at all: an implicit table with
/// no entries left.
pub open spec fn is_hidden(s: TomlSection) -> bool {
    s matches TomlSection::Table(es, implicit) && implicit && es == Map::<Seq<char>, TomlEntry>::empty()
}

/// A top-level item as it reads back: decorations spelled out; whether a
/// table had its own header is not kept (an implicit table that gained a
/// value is written with a header).
pub open spec fn shown_section(s: TomlSection) -> TomlSection {
    match s {
        TomlSection::Table(es, _) => TomlSection::Table(shown_entries(es), false),
        TomlSection::Other => TomlSection::Other,
    }
}

/// The items of a document as they read back after it is written out.
pub open spec fn visible_sections(m: Map<Seq<char>, TomlSection>) -> Map<Seq<char>, TomlSection> {
    Map::new(
        |k: Seq<char>| m.contains_key(k) && !is_hidden(m[k]),
        |k: Seq<char>| shown_section(m[k]),
    )
}

/// Whether a text parses to a document that reads back as `m` does.
pub open spec fn reads_back_as(text: Seq<char>, m: Map<Seq<char>, TomlSection>) -> bool {
    toml_parse(text) matches Ok(p) && visible_sections(p) == visible_sections(m)
}

/// A successful parse that gave these items.
pub open spec fn parsed_as(m: Map<Seq<char>, TomlSection>) -> Result<Map<Seq<char>, TomlSection>, Seq<char>> {
    Ok(m)
}

/// A failed parse with this message.
pub open spec fn parse_failed(msg: Seq<char>) -> Result<Map<Seq<char>, TomlSection>, Seq<char>> {
    Err(msg)
}

/// The kind of the top-level item under a key.
#[derive(Clone, Copy, Debug, PartialEq, Eq, Structural)]
pub enum SectionKind {
    Absent,
    Table,
    Other,
}

/// The kind of an entry of a table.
#[derive(Clone, Copy, Debug, PartialEq, Eq, Structural)]
pub enum EntryKind {
    Absent,
    Value,
    NotValue,
}

/// The kind of the top-level item under `key`.
pub open spec fn section_kind(m: Map<Seq<char>, TomlSection>, key: Seq<char>) -> SectionKind {
    if !m.contains_key(key) {
        SectionKind::Absent
    } else {
        match m[key] {
            TomlSection::Table(_, _) => SectionKind::Table,
            TomlSection::Other => SectionKind::Other,
        }
    }
}

/// The entries of the table under `key`; none when there is no such table.
pub open spec fn table_entries(m: Map<Seq<char>, TomlSection>, key: Seq<char>) -> Map<Seq<char>, TomlEntry> {
    if m.contains_key(key) {
        match m[key] {
            TomlSection::Table(t, _) => t,
            TomlSection::Other => Map::empty(),
        }
    } else {
        Map::empty()
    }
}

/// Whether the table under `key` is implicit; a table that is not there yet
/// is made with a header.
pub open spec fn table_implicit(m: Map<Seq<char>, TomlSection>, key: Seq<char>) -> bool {
    m.contains_key(key) && m[key] matches TomlSection::Table(_, true)
}

/// The kind of the entry `key` of a table.
pub open spec fn entry_kind(t: Map<Seq<char>, TomlEntry>, key: Seq<char>) -> EntryKind {
    if !t.contains_key(key) {
        EntryKind::Absent
    } else {
        match t[key] {
            TomlEntry::NotValue => EntryKind::NotValue,
            _ => EntryKind::Value,
        }
    }
}

/// The decoration of the value under `key` of a table; the default when
/// there is none.
pub open spec fn entry_decor(t: Map<Seq<char>, TomlEntry>, key: Seq<char>) -> ValueDecor {
    if t.contains_key(key) {
        match t[key] {
            TomlEntry::Value(_, d) => d,
            TomlEntry::NotValue => default_decor(),
        }
    } else {
        default_decor()
    }
}

/// The document after the entry `key` of `table` became `e`; the table keeps
/// whether it is implicit.
pub open spec fn with_entry(m: Map<Seq<char>, TomlSection>, table: Seq<char>, key: Seq<char>, e: TomlEntry) -> Map<Seq<char>, TomlSection> {
    m.insert(table, TomlSection::Table(table_entries(m, table).insert(key, e), table_implicit(m, table)))
}

/// An empty document, with no tables and so no entries to order:
/// `toml_edit::DocumentMut::new`.
#[verifier::external_body]
pub(crate) fn doc_new() -> (d: toml_edit::DocumentMut)
    ensures
        doc_contents(d) == empty_doc(),
        doc_key_order(d) == no_entries_order(),
        doc_built(d),
{
    toml_edit::DocumentMut::new()
}

/// Parses a text: `<toml_edit::DocumentMut as FromStr>::from_str`, with the
/// error turned into its message. The document holds what `toml_parse`
/// names for the text; the error message is the one it names. Its order of
/// entries fits what it holds: no table lists a key twice, or a key that it
/// has no entry for. Which order the text gives is left unsaid.
#[verifier::external_body]
pub(crate) fn doc_parse(text: &str) -> (r: Result<toml_edit::DocumentMut, String>)
    ensures
        match r {
            Ok(d) => toml_parse(text@) == parsed_as(doc_contents(d)) && doc_built(d)
                && order_fits(doc_contents(d), doc_key_order(d)),
            Err(msg) => toml_parse(text@) == parse_failed(msg@),
        },
{
    match text.parse::<toml_edit::DocumentMut>() {
        Ok(d) => Ok(d),
        Err(e) => Err(e.to_string()),
    }
}

/// Renders a document as text: `<toml_edit::DocumentMut as Display>`. The
/// contract claims that the text of a document built by these wrappers
/// parses back to the same items, values and decorations of values, with
/// default decorations spelled out, implicit tables without entries left
/// out, and no record of which tables had their own header. The layout
/// outside values (key spacing, table headers, order) is left unsaid.
#[verifier::external_body]
pub(crate) fn doc_render(d: &toml_edit::DocumentMut) -> (s: String)
    requires
        doc_built(*d),
    ensures
        reads_back_as(s@, doc_contents(*d)),
{
    d.to_string()
}

/// The kind of the top-level item under `key`: `toml_edit::Table::get` on
/// the document's root table, telling a table apart from other items.
#[verifier::external_body]
pub(crate) fn doc_section_kind(d: &toml_edit::DocumentMut, key: &str) -> (k: SectionKind)
    ensures
        k == section_kind(doc_contents(*d), key@),
{
    match d.get(key) {
        None => SectionKind::Absent,
        Some(toml_edit::Item::Table(_)) => SectionKind::Table,
        Some(_) => SectionKind::Other,
    }
}

/// Adds an empty table with its own header under `key` at the end of the
/// document: `toml_edit::Table::insert` on the root table with
/// `toml_edit::Table::new`. The new table has no entries to order.
#[verifier::external_body]
pub(crate) fn doc_insert_table(d: &mut toml_edit::DocumentMut, key: &str)
    requires
        section_kind(doc_contents(*old(d)), key@) == SectionKind::Absent,
        doc_built(*old(d)),
    ensures
        doc_contents(*final(d)) == doc_contents(*old(d)).insert(key@, TomlSection::Table(Map::empty(), false)),
        doc_key_order(*final(d)) == doc_key_order(*old(d)).insert(key@, Seq::empty()),
        doc_built(*final(d)),
{
    d.insert(key, toml_edit::Item::Table(toml_edit::Table::new()));
}

/// The kind of the entry `key` of the table `table`: `toml_edit::Table::get`
/// on that table, telling values apart from other items.
#[verifier::external_body]
pub(crate) fn doc_entry_kind(d: &toml_edit::DocumentMut, table: &str, key: &str) -> (k: EntryKind)
    requires
        section_kind(doc_contents(*d), table@) == SectionKind::Table,
    ensures
        k == entry_kind(table_entries(doc_contents(*d), table@), key@),
{
    match d.get(table) {
        Some(toml_edit::Item::Table(t)) => match t.get(key) {
            None => EntryKind::Absent,
            Some(toml_edit::Item::Value(_)) => EntryKind::Value,
            Some(_) => EntryKind::NotValue,
        },
        _ => EntryKind::Absent,
    }
}

/// A value's decoration as read: present text or the default.
pub open spec fn opt_text(o: Option<String>) -> Option<Seq<char>> {
    match o {
        Some(s) => Some(s@),
        None => None,
    }
}

/// Whether a character is blank space within a line.
pub open spec fn is_blank(c: char) -> bool {
    c == ' ' || c == '\t'
}

/// Whether a character may stand in a comment: a tab, a printable ASCII
/// character, or any character beyond ASCII.
pub open spec fn is_comment_char(c: char) -> bool {
    c == '\t' || (0x20 <= (c as int) && (c as int) <= 0x7e) || (c as int) >= 0x80
}

/// Whether a text may stand before a value: blanks only.
pub open spec fn is_value_prefix(s: Seq<char>) -> bool {
    forall|i: int| 0 <= i < s.len() ==> is_blank(#[trigger] s[i])
}

/// Whether a text may stand after a value on its line: blanks, then
/// possibly a comment.
pub open spec fn is_value_suffix(s: Seq<char>) -> bool {
    exists|n: int|
        0 <= n <= s.len() && is_value_prefix(#[trigger] s.take(n)) && (n == s.len() || (s[n] == '#'
            && forall|j: int| n < j < s.len() ==> is_comment_char(#[trigger] s[j])))
}

/// Whether a decoration is one that a value can carry.
pub open spec fn decor_fits(d: ValueDecor) -> bool {
    &&& d.prefix matches Some(p) ==> is_value_prefix(p)
    &&& d.suffix matches Some(x) ==> is_value_suffix(x)
}

/// An entry with the text before its value replaced.
pub open spec fn with_prefix(e: TomlEntry, p: Seq<char>) -> TomlEntry {
    match e {
        TomlEntry::Value(k, d) => TomlEntry::Value(k, ValueDecor { prefix: Some(p), suffix: d.suffix }),
        TomlEntry::NotValue => TomlEntry::NotValue,
    }
}

/// An entry with the text after its value replaced.
pub open spec fn with_suffix(e: TomlEntry, x: Seq<char>) -> TomlEntry {
    match e {
        TomlEntry::Value(k, d) => TomlEntry::Value(k, ValueDecor { prefix: d.prefix, suffix: Some(x) }),
        TomlEntry::NotValue => TomlEntry::NotValue,
    }
}

/// The decoration of the value under `key` of `table`, as text:
/// `toml_edit::Value::decor`, its `prefix` and `suffix`, each read with
/// `toml_edit::RawString::as_str`. In a built document that text is blanks
/// before the value, and blanks and possibly a comment after it.
#[verifier::external_body]
pub(crate) fn doc_value_decor(d: &toml_edit::DocumentMut, table: &str, key: &str) -> (r: (Option<String>, Option<String>))
    requires
        section_kind(doc_contents(*d), table@) == SectionKind::Table,
        entry_kind(table_entries(doc_contents(*d), table@), key@) == EntryKind::Value,
        doc_built(*d),
    ensures
        opt_text(r.0) == entry_decor(table_entries(doc_contents(*d), table@), key@).prefix,
        opt_text(r.1) == entry_decor(table_entries(doc_contents(*d), table@), key@).suffix,
        decor_fits(ValueDecor { prefix: opt_text(r.0), suffix: opt_text(r.1) }),
{
    match d.get(table) {
        Some(toml_edit::Item::Table(t)) => match t.get(key) {
            Some(toml_edit::Item::Value(v)) => (
                v.decor().prefix().and_then(toml_edit::RawString::as_str).map(str::to_owned),
                v.decor().suffix().and_then(toml_edit::RawString::as_str).map(str::to_owned),
            ),
            _ => (None, None),
        },
        _ => (None, None),
    }
}

/// Puts the `toml_edit::Value::from` of `v` in place of the value under
/// `key` of `table`, by assignment through `toml_edit::Table::get_mut`: the
/// key keeps its place and its text (the order of entries does not
/// change), the new value has the default decoration.
#[verifier::external_body]
pub(crate) fn doc_assign_value(d: &mut toml_edit::DocumentMut, table: &str, key: &str, v: &TomlValue)
    requires
        section_kind(doc_contents(*old(d)), table@) == SectionKind::Table,
        entry_kind(table_entries(doc_contents(*old(d)), table@), key@) == EntryKind::Value,
        doc_built(*old(d)),
    ensures
        doc_contents(*final(d)) == with_entry(
            doc_contents(*old(d)),
            table@,
            key@,
            TomlEntry::Value(ValueKind::Known(v@), default_decor()),
        ),
        doc_key_order(*final(d)) == doc_key_order(*old(d)),
        doc_built(*final(d)),
{
    if let Some(toml_edit::Item::Table(t)) = d.get_mut(table) {
        if let Some(item) = t.get_mut(key) {
            *item = toml_edit::Item::Value(match v {
                TomlValue::Str(s) => toml_edit::Value::from(s.as_str()),
                TomlValue::Bool(b) => toml_edit::Value::from(*b),
                TomlValue::Int(n) => toml_edit::Value::from(*n),
            });
        }
    }
}

/// Sets the text before the value under `key` of `table`:
/// `toml_edit::Decor::set_prefix` on the value's `decor_mut`. The order of
/// entries does not change.
#[verifier::external_body]
pub(crate) fn doc_set_prefix(d: &mut toml_edit::DocumentMut, table: &str, key: &str, prefix: &str)
    requires
        section_kind(doc_contents(*old(d)), table@) == SectionKind::Table,
        entry_kind(table_entries(doc_contents(*old(d)), table@), key@) == EntryKind::Value,
        is_value_prefix(prefix@),
        doc_built(*old(d)),
    ensures
        doc_contents(*final(d)) == with_entry(
            doc_contents(*old(d)),
            table@,
            key@,
            with_prefix(table_entries(doc_contents(*old(d)), table@)[key@], prefix@),
        ),
        doc_key_order(*final(d)) == doc_key_order(*old(d)),
        doc_built(*final(d)),
{
    if let Some(toml_edit::Item::Table(t)) = d.get_mut(table) {
        if let Some(toml_edit::Item::Value(v)) = t.get_mut(key) {
            v.decor_mut().set_prefix(prefix);
        }
    }
}

/// Sets the text after the value under `key` of `table`:
/// `toml_edit::Decor::set_suffix` on the value's `decor_mut`. The order of
/// entries does not change.
#[verifier::external_body]
pub(crate) fn doc_set_suffix(d: &mut toml_edit::DocumentMut, table: &str, key: &str, suffix: &str)
    requires
        section_kind(doc_contents(*old(d)), table@) == SectionKind::Table,
        entry_kind(table_entries(doc_contents(*old(d)), table@), key@) == EntryKind::Value,
        is_value_suffix(suffix@),
        doc_built(*old(d)),
    ensures
        doc_contents(*final(d)) == with_entry(
            doc_contents(*old(d)),
            table@,
            key@,
            with_suffix(table_entries(doc_contents(*old(d)), table@)[key@], suffix@),
        ),
        doc_key_order(*final(d)) == doc_key_order(*old(d)),
        doc_built(*final(d)),
{
    if let Some(toml_edit::Item::Table(t)) = d.get_mut(table) {
        if let Some(toml_edit::Item::Value(v)) = t.get_mut(key) {
            v.decor_mut().set_suffix(suffix);
        }
    }
}

/// Sets the entry `key` of `table` to `v` with the default decoration,
/// replacing what was there in its place, or adding it at the end of the table:
/// `toml_edit::Table::insert` with the `toml_edit::Value::from` of `v`.
#[verifier::external_body]
pub(crate) fn doc_insert_value(d: &mut toml_edit::DocumentMut, table: &str, key: &str, v: &TomlValue)
    requires
        section_kind(doc_contents(*old(d)), table@) == SectionKind::Table,
        doc_built(*old(d)),
    ensures
        doc_contents(*final(d)) == with_entry(
            doc_contents(*old(d)),
            table@,
            key@,
            TomlEntry::Value(ValueKind::Known(v@), default_decor()),
        ),
        doc_key_order(*final(d)) == if entry_kind(table_entries(doc_contents(*old(d)), table@), key@) == EntryKind::Absent {
            doc_key_order(*old(d)).insert(table@, order_of(doc_key_order(*old(d)), table@).push(key@))
        } else {
            doc_key_order(*old(d))
        },
        doc_built(*final(d)),
{
    if let Some(toml_edit::Item::Table(t)) = d.get_mut(table) {
        let value = match v {
            TomlValue::Str(s) => toml_edit::Value::from(s.as_str()),
            TomlValue::Bool(b) => toml_edit::Value::from(*b),
            TomlValue::Int(n) => toml_edit::Value::from(*n),
        };
        t.insert(key, toml_edit::Item::Value(value));
    }
}

/// Removes the entry `key` of `table`, if there is one:
/// `toml_edit::Table::remove`, which shifts the entries after it. The table
/// stays, keeps whether it is implicit, and its other entries keep their
/// order.
#[verifier::external_body]
pub(crate) fn doc_remove_entry(d: &mut toml_edit::DocumentMut, table: &str, key: &str)
    requires
        section_kind(doc_contents(*old(d)), table@) == SectionKind::Table,
        doc_built(*old(d)),
    ensures
        doc_contents(*final(d)) == doc_contents(*old(d)).insert(
            table@,
            TomlSection::Table(
                table_entries(doc_contents(*old(d)), table@).remove(key@),
                table_implicit(doc_contents(*old(d)), table@),
            ),
        ),
        doc_key_order(*final(d)) == doc_key_order(*old(d)).insert(
            table@,
            order_of(doc_key_order(*old(d)), table@).remove_value(key@),
        ),
        doc_built(*final(d)),
{
    if let Some(toml_edit::Item::Table(t)) = d.get_mut(table) {
        t.remove(key);
    }
}

} // verus!
