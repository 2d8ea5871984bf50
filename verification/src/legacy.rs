//! Reading the graph metadata of the old single-database format.

use vstd::prelude::*;

use crate::errors::KeysightError;
use crate::models::{LegacyAlias, LegacyNote, LegacySection, WhiteboardMapping};
use crate::text::{
    append, chars_of, starts_with, starts_with_exec, str_eq, string_of, string_views, subvec,
};

verus! {

/// The JSON array of strings a text denotes, if it denotes one
/// (what `serde_json::from_str::<Vec<String>>` accepts).
pub uninterp spec fn json_string_array(s: Seq<char>) -> Option<Seq<Seq<char>>>;

/// `serde_json::from_str::<Vec<String>>`: the strings of a JSON array of
/// strings, `None` when the text is not one.
#[verifier::external_body]
fn json_parse_string_array(s: &str) -> (r: Option<Vec<String>>)
    ensures
        r is Some <==> json_string_array(s@) is Some,
        r matches Some(v) ==> json_string_array(s@) == Some(string_views(v@)),
{
    serde_json::from_str::<Vec<String>>(s).ok()
}

/// The strings of a parsed array, none when it did not parse.
pub fn strings_or_empty(parsed: Option<Vec<String>>) -> (r: Vec<String>)
    ensures
        r@ == (match parsed {
            Some(v) => v@,
            None => Seq::<String>::empty(),
        }),
{
    match parsed {
        Some(v) => v,
        None => Vec::new(),
    }
}

/// The strings of a JSON array of strings; none for any other text.
pub fn parse_json_array(json: &str) -> (r: Vec<String>)
    ensures
        string_views(r@) == (match json_string_array(json@) {
            Some(v) => v,
            None => Seq::empty(),
        }),
{
    let r = strings_or_empty(json_parse_string_array(json));
    proof {
        if json_string_array(json@) is None {
            assert(string_views(r@) =~= Seq::<Seq<char>>::empty());
        }
    }
    r
}

/// The metadata key of a kind of graph data: `graph_{kind}` for the root
/// whiteboard (empty key), `graph_{kind}:{key}` for the others.
pub open spec fn spec_meta_key(kind: Seq<char>, whiteboard_key: Seq<char>) -> Seq<char> {
    if whiteboard_key.len() == 0 {
        "graph_"@ + kind
    } else {
        "graph_"@ + kind + ":"@ + whiteboard_key
    }
}

/// The metadata key of a kind of graph data of a whiteboard.
pub fn meta_key(kind: &str, whiteboard_key: &str) -> (r: String)
    ensures
        r@ == spec_meta_key(kind@, whiteboard_key@),
{
    let mut v = chars_of("graph_");
    append(&mut v, &chars_of(kind));
    let w = chars_of(whiteboard_key);
    if w.len() > 0 {
        append(&mut v, &chars_of(":"));
        append(&mut v, &w);
    }
    string_of(v.as_slice())
}

/// The whiteboard a `graph_sections…` key stands for: `graph_sections:{s}`
/// is whiteboard `s`, `graph_sections` the root; other keys stand for none.
pub open spec fn spec_mapping_of_key(key: Seq<char>) -> Option<(Option<Seq<char>>, Seq<char>)> {
    if starts_with(key, "graph_sections:"@) {
        Some((Some(key.skip(15)), key.skip(15)))
    } else if key == "graph_sections"@ {
        Some((None, "wb_root"@))
    } else {
        None
    }
}

pub open spec fn mapping_view(m: WhiteboardMapping) -> (Option<Seq<char>>, Seq<char>) {
    (
        match m.meta_suffix {
            Some(s) => Some(s@),
            None => None,
        },
        m.whiteboard_id@,
    )
}

/// The whiteboard a metadata key stands for, if any.
pub fn mapping_of_key(key: &str) -> (r: Option<WhiteboardMapping>)
    ensures
        r is Some <==> spec_mapping_of_key(key@) is Some,
        r matches Some(m) ==> Some(mapping_view(m)) == spec_mapping_of_key(key@),
{
    proof {
        reveal_strlit("graph_sections:");
    }
    let k = chars_of(key);
    if starts_with_exec(&k, &chars_of("graph_sections:")) {
        let s = subvec(&k, 15, k.len());
        assert(s@ =~= k@.skip(15));
        Some(
            WhiteboardMapping {
                meta_suffix: Some(string_of(s.as_slice())),
                whiteboard_id: string_of(s.as_slice()),
            },
        )
    } else if str_eq(key, "graph_sections") {
        Some(WhiteboardMapping { meta_suffix: None, whiteboard_id: string_of(chars_of("wb_root").as_slice()) })
    } else {
        None
    }
}

/// The whiteboards of the metadata keys, in key order, skipping keys that
/// stand for none.
pub open spec fn spec_mappings(keys: Seq<Seq<char>>) -> Seq<(Option<Seq<char>>, Seq<char>)>
    decreases keys.len(),
{
    if keys.len() == 0 {
        Seq::empty()
    } else {
        match spec_mapping_of_key(keys.last()) {
            Some(m) => spec_mappings(keys.drop_last()).push(m),
            None => spec_mappings(keys.drop_last()),
        }
    }
}

/// The whiteboards the metadata keys stand for.
pub fn whiteboard_mappings(keys: &Vec<String>) -> (r: Vec<WhiteboardMapping>)
    ensures
        r@.map_values(|m: WhiteboardMapping| mapping_view(m)) == spec_mappings(string_views(keys@)),
{
    let mut r: Vec<WhiteboardMapping> = Vec::new();
    let mut i: usize = 0;
    while i < keys.len()
        invariant
            i <= keys.len(),
            r@.map_values(|m: WhiteboardMapping| mapping_view(m)) == spec_mappings(
                string_views(keys@).take(i as int),
            ),
        decreases keys.len() - i,
    {
        let ghost before = r@.map_values(|m: WhiteboardMapping| mapping_view(m));
        assert(string_views(keys@).take(i + 1).drop_last() =~= string_views(keys@).take(i as int));
        match mapping_of_key(keys[i].as_str()) {
            Some(m) => {
                r.push(m);
                assert(r@.map_values(|m: WhiteboardMapping| mapping_view(m)) =~= before.push(
                    spec_mapping_of_key(keys@[i as int]@).unwrap(),
                ));
            },
            None => {},
        }
        i = i + 1;
    }
    assert(string_views(keys@).take(keys.len() as int) =~= string_views(keys@));
    r
}

/// An id whose layout position the import keeps: cards, sections, notes,
/// aliases.
pub open spec fn spec_is_position_entity(id: Seq<char>) -> bool {
    starts_with(id, "card_"@) || starts_with(id, "sec_"@) || starts_with(id, "note_"@)
        || starts_with(id, "alias_"@)
}

/// Whether the import keeps the layout position of entity `id`.
pub fn is_position_entity(id: &str) -> (r: bool)
    ensures
        r == spec_is_position_entity(id@),
{
    let v = chars_of(id);
    starts_with_exec(&v, &chars_of("card_")) || starts_with_exec(&v, &chars_of("sec_"))
        || starts_with_exec(&v, &chars_of("note_")) || starts_with_exec(&v, &chars_of("alias_"))
}

/// A string field of a JSON object, as the reader found it.
pub open spec fn text_or_empty(o: Option<String>) -> Seq<char> {
    match o {
        Some(s) => s@,
        None => Seq::empty(),
    }
}

pub open spec fn array_or_empty(json: Seq<char>) -> Seq<Seq<char>> {
    match json_string_array(json) {
        Some(v) => v,
        None => Seq::empty(),
    }
}

fn text_of(o: Option<String>) -> (r: String)
    ensures
        r@ == text_or_empty(o),
{
    match o {
        Some(s) => s,
        None => String::new(),
    }
}

/// A section from the fields of its JSON object: string fields (absent or not
/// strings: `None`) and the JSON text of its id lists.
pub fn legacy_section(
    id: Option<String>,
    title: Option<String>,
    color: Option<String>,
    card_ids_json: &str,
    linked_section_ids_json: &str,
) -> (r: LegacySection)
    ensures
        r.id@ == text_or_empty(id),
        r.title@ == text_or_empty(title),
        r.color == color,
        string_views(r.card_ids@) == array_or_empty(card_ids_json@),
        string_views(r.linked_section_ids@) == array_or_empty(linked_section_ids_json@),
{
    LegacySection {
        id: text_of(id),
        title: text_of(title),
        color,
        card_ids: parse_json_array(card_ids_json),
        linked_section_ids: parse_json_array(linked_section_ids_json),
    }
}

/// A note from the fields of its JSON object.
pub fn legacy_note(
    id: Option<String>,
    title: Option<String>,
    content: Option<String>,
    linked_card_ids_json: &str,
    linked_note_ids_json: &str,
    linked_section_ids_json: &str,
) -> (r: LegacyNote)
    ensures
        r.id@ == text_or_empty(id),
        r.title@ == text_or_empty(title),
        r.content@ == text_or_empty(content),
        string_views(r.linked_card_ids@) == array_or_empty(linked_card_ids_json@),
        string_views(r.linked_note_ids@) == array_or_empty(linked_note_ids_json@),
        string_views(r.linked_section_ids@) == array_or_empty(linked_section_ids_json@),
{
    LegacyNote {
        id: text_of(id),
        title: text_of(title),
        content: text_of(content),
        linked_card_ids: parse_json_array(linked_card_ids_json),
        linked_note_ids: parse_json_array(linked_note_ids_json),
        linked_section_ids: parse_json_array(linked_section_ids_json),
    }
}

/// An alias from the fields of its JSON object.
pub fn legacy_alias(
    alias_id: Option<String>,
    card_id: Option<String>,
    linked_card_ids_json: &str,
    linked_section_ids_json: &str,
    incoming_card_ids_json: &str,
) -> (r: LegacyAlias)
    ensures
        r.alias_id@ == text_or_empty(alias_id),
        r.card_id@ == text_or_empty(card_id),
        string_views(r.linked_card_ids@) == array_or_empty(linked_card_ids_json@),
        string_views(r.linked_section_ids@) == array_or_empty(linked_section_ids_json@),
        string_views(r.incoming_card_ids@) == array_or_empty(incoming_card_ids_json@),
{
    LegacyAlias {
        alias_id: text_of(alias_id),
        card_id: text_of(card_id),
        linked_card_ids: parse_json_array(linked_card_ids_json),
        linked_section_ids: parse_json_array(linked_section_ids_json),
        incoming_card_ids: parse_json_array(incoming_card_ids_json),
    }
}

// ---------------------------------------------------------------------------
// Graph metadata stored as JSON arrays of objects
// ---------------------------------------------------------------------------

/// What `serde_json` reads from a text expected to hold a JSON array: for
/// each element, the entries of its object as `(key, value as JSON text)`
/// (no entries for an element that is not an object), or the text of the
/// parse error.
pub uninterp spec fn json_object_array(s: Seq<char>) -> Result<
    Seq<Seq<(Seq<char>, Seq<char>)>>,
    Seq<char>,
>;

/// The string a JSON text denotes, if it denotes a string.
pub uninterp spec fn json_string(s: Seq<char>) -> Option<Seq<char>>;

pub open spec fn entry_views(e: Seq<(String, String)>) -> Seq<(Seq<char>, Seq<char>)> {
    e.map_values(|p: (String, String)| (p.0@, p.1@))
}

pub open spec fn item_views(items: Seq<Vec<(String, String)>>) -> Seq<Seq<(Seq<char>, Seq<char>)>> {
    items.map_values(|v: Vec<(String, String)>| entry_views(v@))
}

/// `serde_json::from_str::<Vec<serde_json::Value>>`, each object element
/// turned into its entries with values written back as JSON text
/// (`Value::to_string`), any other element into no entries; the error as
/// its text.
#[verifier::external_body]
fn json_parse_object_array(s: &str) -> (r: Result<Vec<Vec<(String, String)>>, String>)
    ensures
        r is Ok <==> json_object_array(s@) is Ok,
        r matches Ok(x) ==> json_object_array(s@)->Ok_0 == item_views(x@),
        r matches Err(e) ==> json_object_array(s@)->Err_0 == e@,
{
    match serde_json::from_str::<Vec<serde_json::Value>>(s) {
        Ok(items) => Ok(items.into_iter().map(|v| match v {
            serde_json::Value::Object(m) => m.into_iter().map(|(k, x)| (k, x.to_string())).collect(),
            _ => Vec::new(),
        }).collect()),
        Err(e) => Err(e.to_string()),
    }
}

/// `serde_json::from_str::<String>`: the string a JSON text denotes.
#[verifier::external_body]
fn json_parse_string(s: &str) -> (r: Option<String>)
    ensures
        r is Some <==> json_string(s@) is Some,
        r matches Some(t) ==> json_string(s@) == Some(t@),
{
    serde_json::from_str::<String>(s).ok()
}

/// The JSON text of field `key` of an object's entries; `null` when absent.
pub open spec fn field_json(entries: Seq<(Seq<char>, Seq<char>)>, key: Seq<char>) -> Seq<char>
    decreases entries.len(),
{
    if entries.len() == 0 {
        "null"@
    } else if entries[0].0 == key {
        entries[0].1
    } else {
        field_json(entries.drop_first(), key)
    }
}

fn field_json_exec(entries: &Vec<(String, String)>, key: &str) -> (r: String)
    ensures
        r@ == field_json(entry_views(entries@), key@),
{
    let ghost e = entry_views(entries@);
    assert(e.skip(0) =~= e);
    let mut i: usize = 0;
    while i < entries.len()
        invariant
            i <= entries.len(),
            e == entry_views(entries@),
            field_json(e, key@) == field_json(e.skip(i as int), key@),
        decreases entries.len() - i,
    {
        assert(e.skip(i as int)[0] == (entries@[i as int].0@, entries@[i as int].1@));
        assert(e.skip(i as int).drop_first() =~= e.skip(i + 1));
        if str_eq(entries[i].0.as_str(), key) {
            return entries[i].1.clone();
        }
        i = i + 1;
    }
    assert(e.skip(i as int) =~= Seq::<(Seq<char>, Seq<char>)>::empty());
    "null".to_string()
}

/// The string of field `key`, when it is one.
pub open spec fn string_field(entries: Seq<(Seq<char>, Seq<char>)>, key: Seq<char>) -> Option<
    Seq<char>,
> {
    json_string(field_json(entries, key))
}

fn string_field_exec(entries: &Vec<(String, String)>, key: &str) -> (r: Option<String>)
    ensures
        opt_string_view(r) == string_field(entry_views(entries@), key@),
{
    json_parse_string(field_json_exec(entries, key).as_str())
}

pub open spec fn opt_string_view(o: Option<String>) -> Option<Seq<char>> {
    match o {
        Some(s) => Some(s@),
        None => None,
    }
}

pub open spec fn opt_or_empty(o: Option<Seq<char>>) -> Seq<char> {
    match o {
        Some(s) => s,
        None => Seq::empty(),
    }
}

/// A section as plain values.
pub open spec fn section_view(s: LegacySection) -> (
    Seq<char>,
    Seq<char>,
    Option<Seq<char>>,
    Seq<Seq<char>>,
    Seq<Seq<char>>,
) {
    (s.id@, s.title@, opt_string_view(s.color), string_views(s.card_ids@), string_views(
        s.linked_section_ids@,
    ))
}

/// The section an object's entries describe.
pub open spec fn section_of(e: Seq<(Seq<char>, Seq<char>)>) -> (
    Seq<char>,
    Seq<char>,
    Option<Seq<char>>,
    Seq<Seq<char>>,
    Seq<Seq<char>>,
) {
    (
        opt_or_empty(string_field(e, "id"@)),
        opt_or_empty(string_field(e, "title"@)),
        string_field(e, "color"@),
        array_or_empty(field_json(e, "cardIds"@)),
        array_or_empty(field_json(e, "linkedSectionIds"@)),
    )
}

/// A note as plain values.
pub open spec fn note_view(n: LegacyNote) -> (
    Seq<char>,
    Seq<char>,
    Seq<char>,
    Seq<Seq<char>>,
    Seq<Seq<char>>,
    Seq<Seq<char>>,
) {
    (n.id@, n.title@, n.content@, string_views(n.linked_card_ids@), string_views(
        n.linked_note_ids@,
    ), string_views(n.linked_section_ids@))
}

/// The note an object's entries describe.
pub open spec fn note_of(e: Seq<(Seq<char>, Seq<char>)>) -> (
    Seq<char>,
    Seq<char>,
    Seq<char>,
    Seq<Seq<char>>,
    Seq<Seq<char>>,
    Seq<Seq<char>>,
) {
    (
        opt_or_empty(string_field(e, "id"@)),
        opt_or_empty(string_field(e, "title"@)),
        opt_or_empty(string_field(e, "content"@)),
        array_or_empty(field_json(e, "linkedCardIds"@)),
        array_or_empty(field_json(e, "linkedNoteIds"@)),
        array_or_empty(field_json(e, "linkedSectionIds"@)),
    )
}

/// An alias as plain values.
pub open spec fn alias_view(a: LegacyAlias) -> (
    Seq<char>,
    Seq<char>,
    Seq<Seq<char>>,
    Seq<Seq<char>>,
    Seq<Seq<char>>,
) {
    (a.alias_id@, a.card_id@, string_views(a.linked_card_ids@), string_views(
        a.linked_section_ids@,
    ), string_views(a.incoming_card_ids@))
}

/// The alias an object's entries describe.
pub open spec fn alias_of(e: Seq<(Seq<char>, Seq<char>)>) -> (
    Seq<char>,
    Seq<char>,
    Seq<Seq<char>>,
    Seq<Seq<char>>,
    Seq<Seq<char>>,
) {
    (
        opt_or_empty(string_field(e, "aliasId"@)),
        opt_or_empty(string_field(e, "cardId"@)),
        array_or_empty(field_json(e, "linkedCardIds"@)),
        array_or_empty(field_json(e, "linkedSectionIds"@)),
        array_or_empty(field_json(e, "incomingCardIds"@)),
    )
}

/// The error for a metadata value under `key` that is not a JSON array.
pub open spec fn blob_error(key: Seq<char>, m: Seq<char>) -> Seq<char> {
    key + ": "@ + m
}

fn blob_error_exec(key: &str, m: &String) -> (r: KeysightError)
    ensures
        r matches KeysightError::ParseError(x) && x@ == blob_error(key@, m@),
{
    let mut v = chars_of(key);
    append(&mut v, &chars_of(": "));
    append(&mut v, &chars_of(m.as_str()));
    KeysightError::ParseError(string_of(v.as_slice()))
}

/// The sections stored under metadata key `key` as `blob`: none for an
/// empty value, a parse error naming the key when it is not a JSON array.
pub fn legacy_sections_from_blob(key: &str, blob: &str) -> (r: Result<Vec<LegacySection>, KeysightError>)
    ensures
        blob@.len() == 0 ==> (r matches Ok(v) && v@.len() == 0),
        blob@.len() > 0 && json_object_array(blob@) is Err ==> (r matches Err(
            KeysightError::ParseError(x),
        ) && x@ == blob_error(key@, json_object_array(blob@)->Err_0)),
        blob@.len() > 0 && json_object_array(blob@) is Ok ==> (r matches Ok(v) && v@.len()
            == json_object_array(blob@)->Ok_0.len() && forall|i: int|
            0 <= i < v@.len() ==> section_view(#[trigger] v@[i]) == section_of(
                json_object_array(blob@)->Ok_0[i],
            )),
{
    if blob.is_empty() {
        return Ok(Vec::new());
    }
    let items = match json_parse_object_array(blob) {
        Ok(items) => items,
        Err(m) => return Err(blob_error_exec(key, &m)),
    };
    let ghost iv = item_views(items@);
    let mut out: Vec<LegacySection> = Vec::new();
    let mut i: usize = 0;
    while i < items.len()
        invariant
            i <= items.len(),
            iv == item_views(items@),
            out@.len() == i,
            forall|j: int| 0 <= j < i ==> section_view(#[trigger] out@[j]) == section_of(iv[j]),
        decreases items.len() - i,
    {
        let e = &items[i];
        assert(iv[i as int] == entry_views(e@));
        let sec = legacy_section(
            string_field_exec(e, "id"),
            string_field_exec(e, "title"),
            string_field_exec(e, "color"),
            field_json_exec(e, "cardIds").as_str(),
            field_json_exec(e, "linkedSectionIds").as_str(),
        );
        out.push(sec);
        i = i + 1;
    }
    Ok(out)
}

/// The notes stored under metadata key `key` as `blob`.
pub fn legacy_notes_from_blob(key: &str, blob: &str) -> (r: Result<Vec<LegacyNote>, KeysightError>)
    ensures
        blob@.len() == 0 ==> (r matches Ok(v) && v@.len() == 0),
        blob@.len() > 0 && json_object_array(blob@) is Err ==> (r matches Err(
            KeysightError::ParseError(x),
        ) && x@ == blob_error(key@, json_object_array(blob@)->Err_0)),
        blob@.len() > 0 && json_object_array(blob@) is Ok ==> (r matches Ok(v) && v@.len()
            == json_object_array(blob@)->Ok_0.len() && forall|i: int|
            0 <= i < v@.len() ==> note_view(#[trigger] v@[i]) == note_of(
                json_object_array(blob@)->Ok_0[i],
            )),
{
    if blob.is_empty() {
        return Ok(Vec::new());
    }
    let items = match json_parse_object_array(blob) {
        Ok(items) => items,
        Err(m) => return Err(blob_error_exec(key, &m)),
    };
    let ghost iv = item_views(items@);
    let mut out: Vec<LegacyNote> = Vec::new();
    let mut i: usize = 0;
    while i < items.len()
        invariant
            i <= items.len(),
            iv == item_views(items@),
            out@.len() == i,
            forall|j: int| 0 <= j < i ==> note_view(#[trigger] out@[j]) == note_of(iv[j]),
        decreases items.len() - i,
    {
        let e = &items[i];
        assert(iv[i as int] == entry_views(e@));
        let note = legacy_note(
            string_field_exec(e, "id"),
            string_field_exec(e, "title"),
            string_field_exec(e, "content"),
            field_json_exec(e, "linkedCardIds").as_str(),
            field_json_exec(e, "linkedNoteIds").as_str(),
            field_json_exec(e, "linkedSectionIds").as_str(),
        );
        out.push(note);
        i = i + 1;
    }
    Ok(out)
}

/// The aliases stored under metadata key `key` as `blob`.
pub fn legacy_aliases_from_blob(key: &str, blob: &str) -> (r: Result<Vec<LegacyAlias>, KeysightError>)
    ensures
        blob@.len() == 0 ==> (r matches Ok(v) && v@.len() == 0),
        blob@.len() > 0 && json_object_array(blob@) is Err ==> (r matches Err(
            KeysightError::ParseError(x),
        ) && x@ == blob_error(key@, json_object_array(blob@)->Err_0)),
        blob@.len() > 0 && json_object_array(blob@) is Ok ==> (r matches Ok(v) && v@.len()
            == json_object_array(blob@)->Ok_0.len() && forall|i: int|
            0 <= i < v@.len() ==> alias_view(#[trigger] v@[i]) == alias_of(
                json_object_array(blob@)->Ok_0[i],
            )),
{
    if blob.is_empty() {
        return Ok(Vec::new());
    }
    let items = match json_parse_object_array(blob) {
        Ok(items) => items,
        Err(m) => return Err(blob_error_exec(key, &m)),
    };
    let ghost iv = item_views(items@);
    let mut out: Vec<LegacyAlias> = Vec::new();
    let mut i: usize = 0;
    while i < items.len()
        invariant
            i <= items.len(),
            iv == item_views(items@),
            out@.len() == i,
            forall|j: int| 0 <= j < i ==> alias_view(#[trigger] out@[j]) == alias_of(iv[j]),
        decreases items.len() - i,
    {
        let e = &items[i];
        assert(iv[i as int] == entry_views(e@));
        let alias = legacy_alias(
            string_field_exec(e, "aliasId"),
            string_field_exec(e, "cardId"),
            field_json_exec(e, "linkedCardIds").as_str(),
            field_json_exec(e, "linkedSectionIds").as_str(),
            field_json_exec(e, "incomingCardIds").as_str(),
        );
        out.push(alias);
        i = i + 1;
    }
    Ok(out)
}

} // verus!
