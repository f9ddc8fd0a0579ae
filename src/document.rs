use vstd::prelude::*;
use vstd::string::StrSliceExecFns;
use crate::entry::{Match, MatchSpec, matches_view};

verus! {

#[verifier::external_type_specification]
#[verifier::external_body]
pub struct ExYamlValue(serde_yaml::Value);

/// What `serde_yaml::from_str::<Value>` returns for this text, where it
/// parses.
pub uninterp spec fn yaml_parse(text: Seq<char>) -> Option<serde_yaml::Value>;

/// What `Value::get` with a string key returns.
pub uninterp spec fn yaml_get(v: serde_yaml::Value, key: Seq<char>) -> Option<serde_yaml::Value>;

/// What `Value::as_sequence` returns: the items of a sequence.
pub uninterp spec fn yaml_items(v: serde_yaml::Value) -> Option<Seq<serde_yaml::Value>>;

/// What `Value::as_str` returns: the characters of a string.
pub uninterp spec fn yaml_str(v: serde_yaml::Value) -> Option<Seq<char>>;

/// What `serde_yaml::to_string` returns for a document: its text, or `None`
/// where serialization fails.
pub uninterp spec fn yaml_emit(v: serde_yaml::Value) -> Option<Seq<char>>;

/// The value that the variant `Value::String` builds from this text.
pub uninterp spec fn yaml_string(s: Seq<char>) -> serde_yaml::Value;

/// The value that the variant `Value::Sequence` builds from these items.
pub uninterp spec fn yaml_sequence(items: Seq<serde_yaml::Value>) -> serde_yaml::Value;

/// The mapping that `Mapping::from_iter` builds from these string-keyed
/// entries, in order.
pub uninterp spec fn yaml_mapping(entries: Seq<(Seq<char>, serde_yaml::Value)>) -> serde_yaml::Value;

/// Entries with their keys as character sequences.
pub open spec fn keyed_view(entries: Seq<(String, serde_yaml::Value)>) -> Seq<(Seq<char>, serde_yaml::Value)> {
    entries.map_values(|e: (String, serde_yaml::Value)| (e.0@, e.1))
}

/// Relies on `serde_yaml::from_str::<Value>`: parses YAML text into a
/// document tree; the result depends on the text alone.
#[verifier::external_body]
fn parse_yaml(text: &str) -> (r: Option<serde_yaml::Value>)
    ensures
        r == yaml_parse(text@),
{
    serde_yaml::from_str::<serde_yaml::Value>(text).ok()
}

/// Relies on `Value::get` with a `&str` key: the value under that key of a
/// mapping, `None` for a missing key or a value that is no mapping.
#[verifier::external_body]
fn value_get(v: &serde_yaml::Value, key: &str) -> (r: Option<serde_yaml::Value>)
    ensures
        r == yaml_get(*v, key@),
{
    v.get(key).cloned()
}

/// Relies on `Value::as_sequence`: the items of a sequence, `None` for
/// anything else.
#[verifier::external_body]
fn value_items(v: &serde_yaml::Value) -> (r: Option<Vec<serde_yaml::Value>>)
    ensures
        match r {
            Some(items) => yaml_items(*v) == Some(items@),
            None => yaml_items(*v).is_none(),
        },
{
    v.as_sequence().cloned()
}

/// Relies on `Value::as_str`: the text of a string, `None` for anything else.
#[verifier::external_body]
fn value_str(v: &serde_yaml::Value) -> (r: Option<String>)
    ensures
        match r {
            Some(s) => yaml_str(*v) == Some(s@),
            None => yaml_str(*v).is_none(),
        },
{
    v.as_str().map(String::from)
}

/// Relies on the variant `Value::String`: `as_str` on it gives the text back.
#[verifier::external_body]
fn string_value(s: String) -> (r: serde_yaml::Value)
    ensures
        r == yaml_string(s@),
        yaml_str(r) == Some(s@),
{
    serde_yaml::Value::String(s)
}

/// Relies on the variant `Value::Sequence`: `as_sequence` on it gives the
/// items back.
#[verifier::external_body]
fn sequence_value(items: Vec<serde_yaml::Value>) -> (r: serde_yaml::Value)
    ensures
        r == yaml_sequence(items@),
        yaml_items(r) == Some(items@),
{
    serde_yaml::Value::Sequence(items)
}

/// Relies on `Mapping::from_iter` and the variant `Value::Mapping`: `get` on
/// the result finds no key but those given, and with distinct keys it finds
/// each entry's value.
#[verifier::external_body]
fn mapping_value(entries: Vec<(String, serde_yaml::Value)>) -> (r: serde_yaml::Value)
    ensures
        r == yaml_mapping(keyed_view(entries@)),
        forall|k: Seq<char>|
            #[trigger] yaml_get(r, k).is_some() ==> exists|i: int|
                0 <= i < entries@.len() && entries@[i].0@ == k,
        (forall|i: int, j: int|
            0 <= i < j < entries@.len() ==> entries@[i].0@ != entries@[j].0@) ==> forall|i: int|
            0 <= i < entries@.len() ==> yaml_get(r, #[trigger] entries@[i].0@) == Some(
                entries@[i].1,
            ),
{
    serde_yaml::Value::Mapping(
        entries.into_iter().map(|(k, v)| (serde_yaml::Value::String(k), v)).collect(),
    )
}

/// Relies on `serde_yaml::to_string`: the YAML text of a document; the result
/// depends on the document alone.
#[verifier::external_body]
fn emit_yaml(v: &serde_yaml::Value) -> (r: Option<String>)
    ensures
        match r {
            Some(t) => yaml_emit(*v) == Some(t@),
            None => yaml_emit(*v).is_none(),
        },
{
    serde_yaml::to_string(v).ok()
}

/// The key under which a document holds its matches.
pub open spec fn matches_key() -> Seq<char> {
    seq!['m', 'a', 't', 'c', 'h', 'e', 's']
}

/// The key of a match's trigger.
pub open spec fn trigger_key() -> Seq<char> {
    seq!['t', 'r', 'i', 'g', 'g', 'e', 'r']
}

/// The key of a match's replacement.
pub open spec fn replace_key() -> Seq<char> {
    seq!['r', 'e', 'p', 'l', 'a', 'c', 'e']
}

/// The string held under `key` in the mapping `v`, if there is one.
pub open spec fn field_str(v: serde_yaml::Value, key: Seq<char>) -> Option<Seq<char>> {
    match yaml_get(v, key) {
        Some(f) => yaml_str(f),
        None => None,
    }
}

/// The match that a document entry holds: both its trigger and its replacement
/// must be strings, else the entry holds none.
pub open spec fn entry_of(v: serde_yaml::Value) -> Option<MatchSpec> {
    match (field_str(v, trigger_key()), field_str(v, replace_key())) {
        (Some(t), Some(r)) => Some(MatchSpec { trigger: t, replace: r }),
        _ => None,
    }
}

/// The matches held by a sequence of entries, in order; entries that hold none
/// are dropped.
pub open spec fn decode_items(items: Seq<serde_yaml::Value>) -> Seq<MatchSpec> {
    items.filter_map(|e: serde_yaml::Value| entry_of(e))
}

/// The matches of a document: the entries of the sequence under `matches`,
/// or nothing where the document has no such sequence.
pub open spec fn decode_document(v: serde_yaml::Value) -> Seq<MatchSpec> {
    match yaml_get(v, matches_key()) {
        Some(m) => match yaml_items(m) {
            Some(items) => decode_items(items),
            None => Seq::empty(),
        },
        None => Seq::empty(),
    }
}

/// The matches of a YAML text; text that does not parse holds none.
pub open spec fn decode_text(text: Seq<char>) -> Seq<MatchSpec> {
    match yaml_parse(text) {
        Some(v) => decode_document(v),
        None => Seq::empty(),
    }
}

/// The string under `key` in the mapping `v`.
fn read_field(v: &serde_yaml::Value, key: &str) -> (r: Option<String>)
    ensures
        match r {
            Some(s) => field_str(*v, key@) == Some(s@),
            None => field_str(*v, key@).is_none(),
        },
{
    match value_get(v, key) {
        Some(f) => value_str(&f),
        None => None,
    }
}

/// The match that the document entry `v` holds.
fn read_entry(v: &serde_yaml::Value) -> (r: Option<Match>)
    ensures
        match r {
            Some(m) => entry_of(*v) == Some(m@),
            None => entry_of(*v).is_none(),
        },
{
    let tk = "trigger";
    let rk = "replace";
    proof {
        reveal_strlit("trigger");
        reveal_strlit("replace");
    }
    assert(tk@ =~= trigger_key());
    assert(rk@ =~= replace_key());
    let t = read_field(v, tk);
    let r = read_field(v, rk);
    match (t, r) {
        (Some(t), Some(r)) => Some(Match::new(t, r)),
        _ => None,
    }
}

/// The matches that a sequence of document entries holds.
fn read_items(items: &Vec<serde_yaml::Value>) -> (r: Vec<Match>)
    ensures
        matches_view(r@) == decode_items(items@),
{
    let mut out: Vec<Match> = Vec::new();
    let mut i: usize = 0;
    while i < items.len()
        invariant
            i <= items@.len(),
            matches_view(out@) == decode_items(items@.subrange(0, i as int)),
        decreases items@.len() - i,
    {
        let ghost prefix = items@.subrange(0, i as int);
        let ghost next = items@.subrange(0, i + 1);
        assert(next.drop_last() =~= prefix);
        assert(next.last() == items@[i as int]);
        match read_entry(&items[i]) {
            Some(m) => {
                let ghost before = matches_view(out@);
                out.push(m);
                assert(matches_view(out@) =~= before + seq![m@]);
            },
            None => {},
        }
        i = i + 1;
    }
    assert(items@.subrange(0, items@.len() as int) =~= items@);
    out
}

/// The matches of a parsed document: the well-formed entries of its `matches`
/// sequence, in order.
pub fn document_matches(doc: &serde_yaml::Value) -> (r: Vec<Match>)
    ensures
        matches_view(r@) == decode_document(*doc),
{
    let key = "matches";
    proof {
        reveal_strlit("matches");
    }
    assert(key@ =~= matches_key());
    match value_get(doc, key) {
        Some(m) => match value_items(&m) {
            Some(items) => read_items(&items),
            None => Vec::new(),
        },
        None => Vec::new(),
    }
}

/// The matches of a YAML text. Text that does not parse, a document without a
/// `matches` sequence, and entries lacking a string trigger or replacement all
/// contribute nothing.
pub fn parse_matches(text: &str) -> (r: Vec<Match>)
    ensures
        matches_view(r@) == decode_text(text@),
{
    match read_matches(text) {
        Some(ms) => ms,
        None => Vec::new(),
    }
}

/// The matches of a YAML text, or `None` where the text does not parse, so
/// that a malformed file can be told apart from one without matches.
pub fn read_matches(text: &str) -> (r: Option<Vec<Match>>)
    ensures
        r.is_some() == yaml_parse(text@).is_some(),
        r matches Some(ms) ==> matches_view(ms@) == decode_text(text@),
{
    match parse_yaml(text) {
        Some(doc) => Some(document_matches(&doc)),
        None => None,
    }
}

/// Entries that each hold the corresponding match decode to exactly those
/// matches.
proof fn lemma_decode_items_exact(items: Seq<serde_yaml::Value>, ms: Seq<MatchSpec>)
    requires
        items.len() == ms.len(),
        forall|i: int| 0 <= i < items.len() ==> entry_of(#[trigger] items[i]) == Some(ms[i]),
    ensures
        decode_items(items) == ms,
    decreases items.len(),
{
    if items.len() > 0 {
        lemma_decode_items_exact(items.drop_last(), ms.drop_last());
        assert(entry_of(items.last()) == Some(ms.last()));
        assert(ms.drop_last() + seq![ms.last()] =~= ms);
    }
}

/// The document entry for one match: a mapping of `trigger` and `replace` to
/// its two strings.
pub open spec fn entry_doc(m: MatchSpec) -> serde_yaml::Value {
    yaml_mapping(seq![(trigger_key(), yaml_string(m.trigger)), (replace_key(), yaml_string(m.replace))])
}

/// The entries of a document for the matches `ms`, in order.
pub open spec fn entry_docs(ms: Seq<MatchSpec>) -> Seq<serde_yaml::Value> {
    ms.map_values(|m: MatchSpec| entry_doc(m))
}

/// The document saved for the matches `ms`: a mapping whose only key
/// `matches` holds one entry per match.
pub open spec fn document_of(ms: Seq<MatchSpec>) -> serde_yaml::Value {
    yaml_mapping(seq![(matches_key(), yaml_sequence(entry_docs(ms)))])
}

/// An entry of a saved document: exactly the keys `trigger` and `replace`,
/// holding the strings of `m`.
pub open spec fn entry_shape(v: serde_yaml::Value, m: MatchSpec) -> bool {
    &&& forall|k: Seq<char>|
        #[trigger] yaml_get(v, k).is_some() <==> (k == trigger_key() || k == replace_key())
    &&& yaml_get(v, trigger_key()) == Some(yaml_string(m.trigger))
    &&& yaml_get(v, replace_key()) == Some(yaml_string(m.replace))
    &&& yaml_str(yaml_string(m.trigger)) == Some(m.trigger)
    &&& yaml_str(yaml_string(m.replace)) == Some(m.replace)
    &&& entry_of(v) == Some(m)
}

/// A saved document for `ms`: exactly the key `matches`, holding a sequence
/// of `ms.len()` entries, the `i`-th of the shape of `ms[i]`.
pub open spec fn document_shape(v: serde_yaml::Value, ms: Seq<MatchSpec>) -> bool {
    &&& forall|k: Seq<char>| #[trigger] yaml_get(v, k).is_some() <==> k == matches_key()
    &&& yaml_get(v, matches_key()) == Some(yaml_sequence(entry_docs(ms)))
    &&& yaml_items(yaml_sequence(entry_docs(ms))) == Some(entry_docs(ms))
    &&& forall|i: int| 0 <= i < ms.len() ==> entry_shape(#[trigger] entry_docs(ms)[i], ms[i])
}

/// The document entry for one match.
fn entry_document(m: &Match) -> (r: serde_yaml::Value)
    ensures
        r == entry_doc(m@),
        entry_shape(r, m@),
{
    proof {
        reveal_strlit("trigger");
        reveal_strlit("replace");
    }
    let t = string_value(m.trigger.clone());
    let p = string_value(m.replace.clone());
    let mut fields: Vec<(String, serde_yaml::Value)> = Vec::new();
    fields.push((String::from_str("trigger"), t));
    fields.push((String::from_str("replace"), p));
    assert(fields@[0].0@ =~= trigger_key());
    assert(fields@[1].0@ =~= replace_key());
    assert(fields@[0].0@[0] != fields@[1].0@[0]);
    assert(keyed_view(fields@) =~= seq![(trigger_key(), t), (replace_key(), p)]);
    let r = mapping_value(fields);
    assert(yaml_get(r, fields@[0].0@) == Some(fields@[0].1));
    assert(yaml_get(r, fields@[1].0@) == Some(fields@[1].1));
    assert forall|k: Seq<char>|
        #[trigger] yaml_get(r, k).is_some() <==> (k == trigger_key() || k == replace_key()) by {
        if yaml_get(r, k).is_some() {
            let i = choose|i: int| 0 <= i < fields@.len() && fields@[i].0@ == k;
            assert(i == 0 || i == 1);
        }
    }
    r
}

/// The document saved for `ms`: a mapping whose only key `matches` holds a
/// sequence of one entry per match, in order, each with exactly the keys
/// `trigger` and `replace`. Decoding it gives `ms` back.
pub fn build_document(ms: &Vec<Match>) -> (r: serde_yaml::Value)
    ensures
        r == document_of(matches_view(ms@)),
        document_shape(r, matches_view(ms@)),
        decode_document(r) == matches_view(ms@),
{
    let ghost mv = matches_view(ms@);
    let mut items: Vec<serde_yaml::Value> = Vec::new();
    let mut i: usize = 0;
    while i < ms.len()
        invariant
            i <= ms@.len(),
            mv == matches_view(ms@),
            items@ == entry_docs(mv.subrange(0, i as int)),
            forall|k: int| 0 <= k < i ==> entry_shape(#[trigger] items@[k], mv[k]),
        decreases ms@.len() - i,
    {
        let e = entry_document(&ms[i]);
        items.push(e);
        assert(items@ =~= entry_docs(mv.subrange(0, i + 1)));
        i = i + 1;
    }
    assert(mv.subrange(0, ms@.len() as int) =~= mv);
    proof {
        assert forall|k: int| 0 <= k < items@.len() implies entry_of(#[trigger] items@[k]) == Some(mv[k]) by {
            assert(entry_shape(items@[k], mv[k]));
        }
        lemma_decode_items_exact(items@, mv);
        reveal_strlit("matches");
    }
    let seq_doc = sequence_value(items);
    let mut top: Vec<(String, serde_yaml::Value)> = Vec::new();
    top.push((String::from_str("matches"), seq_doc));
    assert(top@[0].0@ =~= matches_key());
    assert(keyed_view(top@) =~= seq![(matches_key(), seq_doc)]);
    let r = mapping_value(top);
    assert(yaml_get(r, top@[0].0@) == Some(top@[0].1));
    assert forall|k: Seq<char>| #[trigger] yaml_get(r, k).is_some() <==> k == matches_key() by {
        if yaml_get(r, k).is_some() {
            let i = choose|i: int| 0 <= i < top@.len() && top@[i].0@ == k;
            assert(i == 0);
        }
    }
    r
}

/// The YAML text saved for `ms`: that of [`build_document`]'s document, or
/// `None` where the serializer fails. It depends on the matches alone.
pub fn render_matches(ms: &Vec<Match>) -> (r: Option<String>)
    ensures
        match r {
            Some(t) => yaml_emit(document_of(matches_view(ms@))) == Some(t@),
            None => yaml_emit(document_of(matches_view(ms@))).is_none(),
        },
{
    let doc = build_document(ms);
    emit_yaml(&doc)
}

} // verus!
