//! The dialogue document model.
//!
//! A document is an ordered sequence of passage groups. Each group is a
//! speaker turn: one or more reflowed passages shown one by one, an
//! optional unique id that choices can jump to, and an optional choice
//! menu offered once the group's last passage has been fully revealed.
//!
//! A document is well formed when it has at least one group and every
//! group has at least one passage; parsing rejects anything else, and
//! playback relies on it.

use vstd::prelude::*;

verus! {

/// One entry of a choice menu: the text shown to the player and, when
/// present, the id of the passage group to jump to. Without a `goto`
/// the choice simply continues forward.
#[derive(Clone, Debug)]
pub struct Choice {
    /// The text to display in the menu.
    pub label: String,
    /// The id of the passage group to jump to; absent means continue
    /// to the next group.
    pub goto: Option<String>,
}

/// A sequence of passages associated with one speaker, with an optional
/// choice menu at its end.
#[derive(Clone, Debug)]
pub struct PassageGroup {
    /// The unique jump target that a `Choice`'s `goto` names.
    pub id: Option<String>,
    /// The name shown while this group's passages play.
    pub speaker: Option<String>,
    /// Blocks of text to show, one by one. Never empty in a well-formed
    /// document.
    pub passages: Vec<String>,
    /// The menu offered after the last passage; `None` or an empty list
    /// both mean the group simply prompts and continues.
    pub choices: Option<Vec<Choice>>,
}

/// A parsed dialogue document: the ordered passage groups of a session.
/// Loaded once and read-only for the session's lifetime.
#[derive(Clone, Debug)]
pub struct Dialogue {
    /// The document's speaker turns, in order.
    pub passage_groups: Vec<PassageGroup>,
}

/// Errors of document parsing: the document's grammar did not match,
/// a section held no passage text, or the document held no sections.
#[derive(Clone, Copy, Debug, PartialEq, Eq, Structural)]
pub enum ParseError {
    /// The document cannot be a dialogue: its grammar did not match,
    /// a section yielded no passages, or it yielded no sections.
    Malformed,
}

/// Errors of jump resolution: a `goto` named an id that no passage
/// group carries.
#[derive(Clone, Copy, Debug, PartialEq, Eq, Structural)]
pub enum GotoError {
    /// The requested label matches no passage group id.
    UnknownLabel,
}

/// Whether the group's id is present and spells `label`.
pub open spec fn group_has_id(g: PassageGroup, label: Seq<char>) -> bool {
    match g.id {
        Some(id) => id@ == label,
        None => false,
    }
}

impl PassageGroup {
    /// Whether the group declares a non-empty choice menu; a declared
    /// but empty menu counts as none.
    pub open spec fn spec_has_choices(self) -> bool {
        match self.choices {
            Some(cs) => cs.len() > 0,
            None => false,
        }
    }

    /// Exec test for [`PassageGroup::spec_has_choices`].
    pub fn has_choices(&self) -> (r: bool)
        ensures
            r == self.spec_has_choices(),
    {
        match &self.choices {
            Some(cs) => cs.len() > 0,
            None => false,
        }
    }
}

impl Dialogue {
    /// Well-formedness: at least one group, and every group has at
    /// least one passage.
    pub open spec fn wf(self) -> bool {
        &&& self.passage_groups.len() > 0
        &&& forall|i: int|
            0 <= i < self.passage_groups.len() ==> self.passage_groups[i].passages.len() > 0
    }

    /// Every passage of every group is in reflow normal form; parsing
    /// leaves a document like this.
    pub open spec fn spec_normalized(self) -> bool {
        forall|i: int, j: int|
            #![auto]
            0 <= i < self.passage_groups.len() && 0 <= j
                < self.passage_groups[i].passages.len() ==> crate::text::is_normalized(
                self.passage_groups[i].passages[j]@,
            )
    }

    /// Assemble a document from its groups, rejecting the malformed:
    /// a document with no groups, or a group with no passages.
    pub fn from_groups(groups: Vec<PassageGroup>) -> (r: Result<Dialogue, ParseError>)
        ensures
            r matches Ok(d) ==> d.passage_groups == groups && d.wf(),
            r is Ok <==> (groups.len() > 0 && forall|i: int|
                0 <= i < groups.len() ==> groups[i].passages.len() > 0),
            r is Err ==> r == Err::<Dialogue, ParseError>(ParseError::Malformed),
    {
        if groups.len() == 0 {
            return Err(ParseError::Malformed);
        }
        let mut i: usize = 0;
        while i < groups.len()
            invariant
                i <= groups.len(),
                forall|m: int| 0 <= m < i ==> groups[m].passages.len() > 0,
            decreases groups.len() - i,
        {
            if groups[i].passages.len() == 0 {
                return Err(ParseError::Malformed);
            }
            i = i + 1;
        }
        Ok(Dialogue { passage_groups: groups })
    }
}

/// Character-for-character string equality.
pub(crate) fn str_eq(a: &str, b: &str) -> (r: bool)
    ensures
        r == (a@ == b@),
{
    let an = a.unicode_len();
    let bn = b.unicode_len();
    if an != bn {
        return false;
    }
    let mut i: usize = 0;
    while i < an
        invariant
            i <= an,
            an == a@.len(),
            an == b@.len(),
            forall|m: int| 0 <= m < i ==> a@[m] == b@[m],
        decreases an - i,
    {
        if a.get_char(i) != b.get_char(i) {
            return false;
        }
        i = i + 1;
    }
    proof {
        assert(a@ =~= b@);
    }
    true
}

/// Find the passage group a label jumps to: the first group whose id
/// equals the label. A label that matches no group is an unknown-label
/// error, surfaced rather than swallowed.
pub fn resolve_label(dialogue: &Dialogue, label: &str) -> (r: Result<usize, GotoError>)
    ensures
        r matches Ok(i) ==> i < dialogue.passage_groups.len() && group_has_id(
            dialogue.passage_groups[i as int],
            label@,
        ) && forall|m: int| 0 <= m < i ==> !group_has_id(dialogue.passage_groups[m], label@),
        r is Ok <==> exists|m: int|
            0 <= m < dialogue.passage_groups.len() && group_has_id(
                dialogue.passage_groups[m],
                label@,
            ),
        r is Err ==> r == Err::<usize, GotoError>(GotoError::UnknownLabel),
{
    let n = dialogue.passage_groups.len();
    let mut i: usize = 0;
    while i < n
        invariant
            i <= n,
            n == dialogue.passage_groups.len(),
            forall|m: int| 0 <= m < i ==> !group_has_id(dialogue.passage_groups[m], label@),
        decreases n - i,
    {
        match &dialogue.passage_groups[i].id {
            Some(id) => {
                if str_eq(id.as_str(), label) {
                    return Ok(i);
                }
            },
            None => {},
        }
        i = i + 1;
    }
    Err(GotoError::UnknownLabel)
}

} // verus!
