//! Parsing dialogue documents from TOML text.
//!
//! A document is TOML with repeated `[[section]]` tables. Each section
//! yields one passage group: optional `id` and `speaker` strings, a
//! required `passages` array of free-text blocks, and an optional
//! `choices` array of tables with a `label` and an optional `goto`.
//! Every block of passage text is split into blank-line-delimited
//! passages and reflowed while parsing; this is a one-time
//! normalization, not a presentation-time operation.
//!
//! The TOML grammar itself is the work of the `toml` crate. Its result
//! is handed over as a library-owned tree of plain values, named by
//! [`spec_toml_of`]; everything after that point - reading the
//! sections, splitting the passages, validating the shape - is
//! verified, with success promised exactly on documents of the right
//! shape and the output groups mirroring the sections in order.

use vstd::prelude::*;
use vstd::string::StringSliceAdditionalSpecFns;
use vstd::utf8::{decode_utf8, encode_utf8_decode_utf8, valid_utf8};

use crate::dialogue::{str_eq, Choice, Dialogue, ParseError, PassageGroup};
use crate::text::{is_normalized, spec_passages, split_passages};

verus! {

#[verifier::external_type_specification]
#[verifier::external_body]
pub struct ExTomlValue(toml::Value);

/// One key/value pair of a TOML table.
pub struct RawEntry {
    /// The entry's key.
    pub key: String,
    /// The entry's value.
    pub value: RawValue,
}

/// A TOML value reduced to plain values: exactly what the dialogue
/// format reads. A table keeps its entries as ordered key/value pairs.
pub enum RawValue {
    /// A TOML string.
    Text(String),
    /// A TOML array.
    List(Vec<RawValue>),
    /// A TOML table, as key/value pairs.
    Table(Vec<RawEntry>),
    /// Any other TOML value (integer, float, boolean, datetime); the
    /// dialogue format has no use for their payloads.
    Other,
}

/// What parsing TOML document text yields: `None` where the text is
/// not a TOML document, else the document's value tree as plain
/// values. The result is a function of the text alone.
pub uninterp spec fn spec_toml_of(text: Seq<char>) -> Option<RawValue>;

/// Relies on std::str::from_utf8: valid UTF-8 decodes to the text that
/// encodes to those very bytes; anything else is refused.
#[verifier::external_body]
fn bytes_to_str(bytes: &[u8]) -> (r: Option<&str>)
    ensures
        r matches Some(s) ==> s.spec_bytes() == bytes@,
        r is Some <==> valid_utf8(bytes@),
{
    std::str::from_utf8(bytes).ok()
}

/// Relies on toml::Table's FromStr: parses TOML document text,
/// refusing text that is not a TOML document, and hands the value
/// tree over as plain values, converted one-for-one by
/// [`raw_of_value`].
#[verifier::external_body]
fn parse_toml(text: &str) -> (r: Option<RawValue>)
    ensures
        r == spec_toml_of(text@),
{
    match text.parse::<toml::Table>() {
        Ok(table) => Some(raw_of_value(toml::Value::Table(table))),
        Err(_) => None,
    }
}

/// Relies on the toml::Value tree: converts it one-for-one into plain
/// values, keeping strings, array elements and table entries as they
/// are. Only [`parse_toml`] calls it.
#[verifier::external_body]
fn raw_of_value(value: toml::Value) -> RawValue {
    match value {
        toml::Value::String(s) => RawValue::Text(s),
        toml::Value::Array(vs) => RawValue::List(vs.into_iter().map(raw_of_value).collect()),
        toml::Value::Table(t) => RawValue::Table(
            t.into_iter().map(|(k, v)| RawEntry { key: k, value: raw_of_value(v) }).collect(),
        ),
        _ => RawValue::Other,
    }
}

/// The value under `key` in a table's entries: the first entry whose
/// key spells `key`, or `None`. (A TOML table never repeats a key.)
pub open spec fn spec_raw_lookup(entries: Seq<RawEntry>, key: Seq<char>) -> Option<
    RawValue,
>
    decreases entries.len(),
{
    if entries.len() == 0 {
        None
    } else if entries[0].key@ == key {
        Some(entries[0].value)
    } else {
        spec_raw_lookup(entries.drop_first(), key)
    }
}

/// The field under `key` is absent or a string.
pub open spec fn spec_field_text_ok(entries: Seq<RawEntry>, key: Seq<char>) -> bool {
    match spec_raw_lookup(entries, key) {
        None => true,
        Some(v) => v is Text,
    }
}

/// `opt` holds exactly the string field under `key`: absent field,
/// absent value; string field, that string.
pub open spec fn spec_field_matches(
    opt: Option<String>,
    entries: Seq<RawEntry>,
    key: Seq<char>,
) -> bool {
    match spec_raw_lookup(entries, key) {
        None => opt is None,
        Some(RawValue::Text(s)) => opt matches Some(x) && x@ == s@,
        Some(_) => false,
    }
}

/// The passages that a section's blocks yield: each string block is
/// split at blank lines and reflowed, in order.
pub open spec fn spec_blocks_of(blocks: Seq<RawValue>) -> Seq<Seq<char>>
    decreases blocks.len(),
{
    if blocks.len() == 0 {
        Seq::empty()
    } else {
        (match blocks[0] {
            RawValue::Text(s) => spec_passages(s@),
            _ => Seq::empty(),
        }) + spec_blocks_of(blocks.drop_first())
    }
}

/// Every element is a string.
pub open spec fn spec_all_text(blocks: Seq<RawValue>) -> bool {
    forall|i: int| 0 <= i < blocks.len() ==> blocks[i] is Text
}

/// The section's `passages` field is an array of strings whose blocks
/// yield at least one passage.
pub open spec fn spec_passages_ok(entries: Seq<RawEntry>) -> bool {
    match spec_raw_lookup(entries, "passages"@) {
        Some(RawValue::List(blocks)) => spec_all_text(blocks@) && spec_blocks_of(
            blocks@,
        ).len() > 0,
        _ => false,
    }
}

/// A well-shaped choice entry: a table with a string `label` and an
/// absent-or-string `goto`.
pub open spec fn spec_choice_ok(raw: RawValue) -> bool {
    match raw {
        RawValue::Table(t) => {
            &&& spec_raw_lookup(t@, "label"@) matches Some(RawValue::Text(_))
            &&& spec_field_text_ok(t@, "goto"@)
        },
        _ => false,
    }
}

/// The section's `choices` field, when present, is an array of
/// well-shaped choice entries.
pub open spec fn spec_choices_ok(entries: Seq<RawEntry>) -> bool {
    match spec_raw_lookup(entries, "choices"@) {
        None => true,
        Some(RawValue::List(cs)) => forall|i: int|
            #![auto]
            0 <= i < cs@.len() ==> spec_choice_ok(cs@[i]),
        Some(_) => false,
    }
}

/// A well-shaped section: a table with absent-or-string `id` and
/// `speaker`, passages as [`spec_passages_ok`], and choices as
/// [`spec_choices_ok`].
pub open spec fn spec_section_ok(raw: RawValue) -> bool {
    match raw {
        RawValue::Table(t) => {
            &&& spec_field_text_ok(t@, "id"@)
            &&& spec_field_text_ok(t@, "speaker"@)
            &&& spec_passages_ok(t@)
            &&& spec_choices_ok(t@)
        },
        _ => false,
    }
}

/// The document's `section` array, if the root is a table that has
/// one.
pub open spec fn spec_sections_of(root: RawValue) -> Option<Vec<RawValue>> {
    match root {
        RawValue::Table(t) => match spec_raw_lookup(t@, "section"@) {
            Some(RawValue::List(ss)) => Some(ss),
            _ => None,
        },
        _ => None,
    }
}

/// A well-shaped document: at least one section, every section
/// well-shaped.
pub open spec fn spec_doc_ok(root: RawValue) -> bool {
    match spec_sections_of(root) {
        Some(ss) => ss@.len() > 0 && forall|i: int|
            #![auto]
            0 <= i < ss@.len() ==> spec_section_ok(ss@[i]),
        None => false,
    }
}

/// The choice carries the entry's `label` and `goto` strings.
pub open spec fn spec_choice_matches(c: Choice, raw: RawValue) -> bool {
    match raw {
        RawValue::Table(t) => {
            &&& (match spec_raw_lookup(t@, "label"@) {
                Some(RawValue::Text(s)) => c.label@ == s@,
                _ => false,
            })
            &&& spec_field_matches(c.goto, t@, "goto"@)
        },
        _ => false,
    }
}

/// The group mirrors the section: same `id` and `speaker`, the
/// passages are the section's blocks split and reflowed in order, and
/// the choices mirror the `choices` entries one for one.
pub open spec fn spec_group_matches(g: PassageGroup, raw: RawValue) -> bool {
    match raw {
        RawValue::Table(t) => {
            &&& spec_field_matches(g.id, t@, "id"@)
            &&& spec_field_matches(g.speaker, t@, "speaker"@)
            &&& (match spec_raw_lookup(t@, "passages"@) {
                Some(RawValue::List(blocks)) => g.passages.deep_view() == spec_blocks_of(blocks@),
                _ => false,
            })
            &&& (match spec_raw_lookup(t@, "choices"@) {
                None => g.choices is None,
                Some(RawValue::List(cs)) => g.choices matches Some(gc) && gc.len() == cs@.len()
                    && (forall|j: int|
                    #![auto]
                    0 <= j < cs@.len() ==> spec_choice_matches(gc[j], cs@[j])),
                Some(_) => false,
            })
        },
        _ => false,
    }
}

/// The document mirrors the root: one group per section, in document
/// order.
pub open spec fn spec_dialogue_matches(d: Dialogue, root: RawValue) -> bool {
    match spec_sections_of(root) {
        Some(ss) => d.passage_groups.len() == ss@.len() && (forall|i: int|
            #![auto]
            0 <= i < ss@.len() ==> spec_group_matches(d.passage_groups[i], ss@[i])),
        None => false,
    }
}

/// A scan that finds `key` first at position `i` finds what
/// `spec_raw_lookup` names.
proof fn lemma_raw_lookup_found(entries: Seq<RawEntry>, key: Seq<char>, i: int)
    requires
        0 <= i < entries.len(),
        entries[i].key@ == key,
        forall|m: int| 0 <= m < i ==> entries[m].key@ != key,
    ensures
        spec_raw_lookup(entries, key) == Some(entries[i].value),
    decreases i,
{
    if i > 0 {
        let rest = entries.drop_first();
        assert(forall|m: int| 0 <= m < i - 1 ==> rest[m] == entries[m + 1]);
        lemma_raw_lookup_found(rest, key, i - 1);
    }
}

/// A scan that finds `key` nowhere matches `spec_raw_lookup`'s `None`.
proof fn lemma_raw_lookup_missing(entries: Seq<RawEntry>, key: Seq<char>)
    requires
        forall|m: int| 0 <= m < entries.len() ==> entries[m].key@ != key,
    ensures
        spec_raw_lookup(entries, key) is None,
    decreases entries.len(),
{
    if entries.len() > 0 {
        let rest = entries.drop_first();
        assert(forall|m: int| 0 <= m < rest.len() ==> rest[m] == entries[m + 1]);
        lemma_raw_lookup_missing(rest, key);
    }
}

/// Find the value under `key` in a table's entries.
fn raw_lookup<'a>(entries: &'a Vec<RawEntry>, key: &str) -> (r: Option<&'a RawValue>)
    ensures
        r matches Some(v) ==> spec_raw_lookup(entries@, key@) == Some(*v),
        r is None <==> spec_raw_lookup(entries@, key@) is None,
{
    let mut i: usize = 0;
    while i < entries.len()
        invariant
            i <= entries.len(),
            forall|m: int| 0 <= m < i ==> entries@[m].key@ != key@,
        decreases entries.len() - i,
    {
        if str_eq(entries[i].key.as_str(), key) {
            proof {
                lemma_raw_lookup_found(entries@, key@, i as int);
            }
            return Some(&entries[i].value);
        }
        i = i + 1;
    }
    proof {
        lemma_raw_lookup_missing(entries@, key@);
    }
    None
}

/// Read an optional string field of a table: absent is fine, present
/// with any non-string payload is malformed.
fn opt_text_field(entries: &Vec<RawEntry>, key: &str) -> (r: Result<
    Option<String>,
    ParseError,
>)
    ensures
        r is Ok <==> spec_field_text_ok(entries@, key@),
        r matches Ok(g) ==> spec_field_matches(g, entries@, key@),
        r is Err ==> r == Err::<Option<String>, ParseError>(ParseError::Malformed),
{
    match raw_lookup(entries, key) {
        None => Ok(None),
        Some(v) => match v {
            RawValue::Text(s) => Ok(Some(s.clone())),
            _ => Err(ParseError::Malformed),
        },
    }
}

/// Read a section's `choices` array into choice values, mirroring the
/// entries one for one; any entry without a string `label`, or with a
/// non-string `goto`, is malformed.
fn parse_choices(entries: &Vec<RawValue>) -> (r: Result<Vec<Choice>, ParseError>)
    ensures
        r is Ok <==> (forall|i: int| #![auto] 0 <= i < entries@.len() ==> spec_choice_ok(entries@[i])),
        r matches Ok(v) ==> v.len() == entries@.len() && (forall|j: int|
            #![auto]
            0 <= j < entries@.len() ==> spec_choice_matches(v[j], entries@[j])),
        r is Err ==> r == Err::<Vec<Choice>, ParseError>(ParseError::Malformed),
{
    let mut choices: Vec<Choice> = Vec::new();
    let mut i: usize = 0;
    while i < entries.len()
        invariant
            i <= entries.len(),
            choices.len() == i,
            forall|m: int| #![auto] 0 <= m < i ==> spec_choice_ok(entries@[m]),
            forall|m: int| #![auto] 0 <= m < i ==> spec_choice_matches(choices@[m], entries@[m]),
        decreases entries.len() - i,
    {
        match &entries[i] {
            RawValue::Table(t) => {
                let label = match raw_lookup(t, "label") {
                    Some(v) => match v {
                        RawValue::Text(s) => s.clone(),
                        _ => {
                            return Err(ParseError::Malformed);
                        },
                    },
                    None => {
                        return Err(ParseError::Malformed);
                    },
                };
                let goto = match opt_text_field(t, "goto") {
                    Ok(g) => g,
                    Err(e) => {
                        return Err(e);
                    },
                };
                choices.push(Choice { label, goto });
            },
            _ => {
                return Err(ParseError::Malformed);
            },
        }
        i = i + 1;
    }
    Ok(choices)
}

/// Build one passage group from a `[[section]]` table, mirroring it:
/// `id` and `speaker` carried over, the `passages` blocks split at
/// blank lines and reflowed in order, the `choices` entries one for
/// one. A section of any other shape - or one whose text yields no
/// passages - is malformed.
#[verifier::loop_isolation(false)]
fn parse_section(section: &RawValue) -> (r: Result<PassageGroup, ParseError>)
    ensures
        r is Ok <==> spec_section_ok(*section),
        r matches Ok(g) ==> spec_group_matches(g, *section) && g.passages.len() > 0 && (forall|
            j: int,
        |
            #![auto]
            0 <= j < g.passages.len() ==> is_normalized(g.passages[j]@)),
        r is Err ==> r == Err::<PassageGroup, ParseError>(ParseError::Malformed),
{
    let entries = match section {
        RawValue::Table(t) => t,
        _ => {
            return Err(ParseError::Malformed);
        },
    };
    let id = match opt_text_field(entries, "id") {
        Ok(v) => v,
        Err(e) => {
            return Err(e);
        },
    };
    let speaker = match opt_text_field(entries, "speaker") {
        Ok(v) => v,
        Err(e) => {
            return Err(e);
        },
    };
    let blocks = match raw_lookup(entries, "passages") {
        Some(v) => match v {
            RawValue::List(blocks) => blocks,
            _ => {
                return Err(ParseError::Malformed);
            },
        },
        None => {
            return Err(ParseError::Malformed);
        },
    };
    let mut passages: Vec<String> = Vec::new();
    let mut i: usize = 0;
    proof {
        assert(blocks@.skip(0) =~= blocks@);
    }
    while i < blocks.len()
        invariant
            i <= blocks.len(),
            forall|m: int| #![auto] 0 <= m < i ==> blocks@[m] is Text,
            passages.deep_view() + spec_blocks_of(blocks@.skip(i as int)) == spec_blocks_of(
                blocks@,
            ),
            forall|j: int| #![auto] 0 <= j < passages.len() ==> is_normalized(passages[j]@),
        decreases blocks.len() - i,
    {
        let ghost rest = blocks@.skip(i as int);
        proof {
            assert(rest[0] == blocks@[i as int]);
            assert(rest.drop_first() =~= blocks@.skip(i as int + 1));
        }
        let text = match &blocks[i] {
            RawValue::Text(s) => s,
            _ => {
                proof {
                    assert(!(blocks@[i as int] is Text));
                    assert(!spec_all_text(blocks@));
                    assert(!spec_passages_ok(entries@));
                }
                return Err(ParseError::Malformed);
            },
        };
        let mut split = split_passages(text.as_str());
        let ghost added = split@;
        let ghost added_dv = split.deep_view();
        let ghost before = passages@;
        let ghost before_dv = passages.deep_view();
        passages.append(&mut split);
        proof {
            assert(passages.deep_view() =~= before_dv + added_dv);
            assert(spec_blocks_of(rest) == spec_passages(text@) + spec_blocks_of(
                blocks@.skip(i as int + 1),
            ));
            assert((before_dv + added_dv) + spec_blocks_of(blocks@.skip(i as int + 1)) =~= before_dv
                + (added_dv + spec_blocks_of(blocks@.skip(i as int + 1))));
            assert forall|j: int|
                #![auto]
                0 <= j < passages.len() implies is_normalized(passages[j]@) by {
                if j < before.len() {
                    assert(passages[j] == before[j]);
                } else {
                    assert(passages[j] == added[j - before.len()]);
                }
            }
        }
        i = i + 1;
    }
    proof {
        assert(blocks@.skip(blocks@.len() as int) =~= Seq::<RawValue>::empty());
        assert(passages.deep_view() =~= spec_blocks_of(blocks@));
    }
    if passages.len() == 0 {
        return Err(ParseError::Malformed);
    }
    let choices = match raw_lookup(entries, "choices") {
        None => None,
        Some(v) => match v {
            RawValue::List(cs) => match parse_choices(cs) {
                Ok(c) => Some(c),
                Err(e) => {
                    return Err(e);
                },
            },
            _ => {
                return Err(ParseError::Malformed);
            },
        },
    };
    Ok(PassageGroup { id, speaker, passages, choices })
}

/// Build the document from the parsed value tree, mirroring its
/// `section` array in order. A document without sections is
/// malformed.
#[verifier::loop_isolation(false)]
fn extract_dialogue(root: &RawValue) -> (r: Result<Dialogue, ParseError>)
    ensures
        r is Ok <==> spec_doc_ok(*root),
        r matches Ok(d) ==> d.wf() && d.spec_normalized() && spec_dialogue_matches(d, *root),
        r is Err ==> r == Err::<Dialogue, ParseError>(ParseError::Malformed),
{
    let entries = match root {
        RawValue::Table(t) => t,
        _ => {
            return Err(ParseError::Malformed);
        },
    };
    let sections = match raw_lookup(entries, "section") {
        Some(v) => match v {
            RawValue::List(ss) => ss,
            _ => {
                return Err(ParseError::Malformed);
            },
        },
        None => {
            return Err(ParseError::Malformed);
        },
    };
    if sections.len() == 0 {
        return Err(ParseError::Malformed);
    }
    let mut groups: Vec<PassageGroup> = Vec::new();
    let mut i: usize = 0;
    while i < sections.len()
        invariant
            i <= sections.len(),
            groups.len() == i,
            forall|m: int| #![auto] 0 <= m < i ==> spec_section_ok(sections@[m]),
            forall|m: int| #![auto] 0 <= m < i ==> spec_group_matches(groups[m], sections@[m]),
            forall|m: int| 0 <= m < i ==> groups[m].passages.len() > 0,
            forall|m: int, j: int|
                #![auto]
                0 <= m < i && 0 <= j < groups[m].passages.len() ==> is_normalized(
                    groups[m].passages[j]@,
                ),
        decreases sections.len() - i,
    {
        match parse_section(&sections[i]) {
            Ok(g) => groups.push(g),
            Err(e) => {
                proof {
                    assert(!spec_section_ok(sections@[i as int]));
                    assert(!spec_doc_ok(*root));
                }
                return Err(e);
            },
        }
        i = i + 1;
    }
    Ok(Dialogue { passage_groups: groups })
}

impl Dialogue {
    /// Parse a dialogue document from raw bytes.
    ///
    /// Parsing succeeds exactly when the bytes are UTF-8 text that the
    /// TOML grammar accepts ([`spec_toml_of`]) shaped as a dialogue
    /// document ([`spec_doc_ok`]): a `section` array with at least one
    /// entry, each a table whose `passages` strings yield at least one
    /// blank-line-delimited block, with optional string `id` and
    /// `speaker` and optional well-shaped `choices`. The result then
    /// mirrors the sections in order ([`spec_dialogue_matches`]), is
    /// well formed, and every passage - split and reflowed while
    /// parsing - is in reflow normal form. Everything else is refused
    /// as malformed.
    pub fn from_slice(bytes: &[u8]) -> (r: Result<Dialogue, ParseError>)
        ensures
            r is Ok <==> (valid_utf8(bytes@) && (spec_toml_of(decode_utf8(bytes@)) matches Some(
                root,
            ) && spec_doc_ok(root))),
            r matches Ok(d) ==> d.wf() && d.spec_normalized() && (spec_toml_of(
                decode_utf8(bytes@),
            ) matches Some(root) && spec_dialogue_matches(d, root)),
            r is Err ==> r == Err::<Dialogue, ParseError>(ParseError::Malformed),
    {
        let text = match bytes_to_str(bytes) {
            Some(s) => s,
            None => {
                return Err(ParseError::Malformed);
            },
        };
        proof {
            encode_utf8_decode_utf8(text@);
            assert(decode_utf8(bytes@) == text@);
        }
        let value = match parse_toml(text) {
            Some(v) => v,
            None => {
                return Err(ParseError::Malformed);
            },
        };
        extract_dialogue(&value)
    }
}

} // verus!
