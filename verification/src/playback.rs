//! The playback state machine.
//!
//! One session plays one dialogue document. Each tick the host hands
//! the machine the elapsed time and the current held state of the
//! three logical actions (confirm, up, down); the machine reveals
//! text, waits at prompts, runs choice menus, and resolves jumps.
//!
//! The states and their transitions:
//! - `Playback`: while the current passage is not fully revealed, fold
//!   the elapsed time into the reveal timer (at the fast-forward rate
//!   while confirm is held) and reveal more glyphs. Once the passage is
//!   done, advance the cursor - next passage, next group, or wrap to
//!   the very start after the last passage of the last group - and
//!   move to `Choice` if the finished group declares a non-empty choice
//!   menu, else to `Prompt`.
//! - `Prompt`: wait for a fresh press of confirm, then resume
//!   `Playback` at the already-advanced cursor. Elapsed time has no
//!   effect here.
//! - `Choice`: up and down move the selection, clamped to the menu
//!   without wraparound; confirm turns the selected choice's `goto`
//!   into a pending jump and enters `Goto`.
//! - `Goto`: a transient state holding the pending jump. Its tick
//!   resolves the label to the first group with that id - an unknown
//!   label is a surfaced, session-fatal error - resets the cursor, and
//!   continues straight into the `Playback` work of the same tick.
//!   A jump without a label just continues forward. Resolution happens
//!   before the advance logic ever reads the cursor; this ordering is
//!   deliberate.
//!
//! Loading the document is the host's business; a session starts in
//! `Playback` with the document already parsed.

use vstd::arithmetic::div_mod::lemma_fundamental_div_mod;
use vstd::arithmetic::mul::lemma_mul_inequality;
use vstd::prelude::*;

use crate::dialogue::{group_has_id, Dialogue, GotoError, PassageGroup};
use crate::timer::{calc_glyphs_to_reveal, spec_reveal_carry, spec_reveal_count};
use crate::tracker::{spec_tracker_step, ActionTracker};
use crate::NANOGLYPHS_PER_GLYPH;

verus! {

/// The playback cursor: where in the document the session stands and
/// how much of the current passage is revealed.
#[derive(Clone, Copy, Debug)]
#[verifier::ext_equal]
pub struct BillboardData {
    /// Which passage group the session is in.
    pub passage_group: usize,
    /// Which passage of that group is showing.
    pub passage: usize,
    /// How many glyphs of that passage are revealed.
    pub head: usize,
    /// Reveal progress short of a whole glyph, in nanoglyphs, kept for
    /// the next tick; `None` when starting fresh on a passage.
    pub carryover: Option<u64>,
}

/// The control state of a session.
#[derive(Clone, Debug)]
#[verifier::ext_equal]
pub enum GameState {
    /// Revealing the current passage, or advancing past it.
    Playback,
    /// Waiting for a fresh confirm press before playing on.
    Prompt,
    /// A choice menu is open for the group that just finished.
    Choice {
        /// The group whose menu is shown.
        group: usize,
        /// The currently selected entry of that menu.
        selected: usize,
    },
    /// A pending jump, consumed by the next tick.
    Goto {
        /// The id to jump to; `None` continues forward.
        label: Option<String>,
    },
}

/// One playback session: the document, the cursor, the rates, the
/// control state, and the trackers of the three logical actions.
#[derive(Clone, Debug)]
#[verifier::ext_equal]
pub struct PlaybackState {
    /// The document being played; read-only for the session.
    pub dialogue: Dialogue,
    /// The cursor.
    pub billboard: BillboardData,
    /// The base reveal rate, in milliglyphs per second.
    pub glyphs_per_sec: u64,
    /// The factor the rate is scaled by while fast-forwarding.
    pub speed_factor: u64,
    /// Whether confirm was held last tick, scaling the reveal rate.
    pub fast_forward: bool,
    /// The control state.
    pub state: GameState,
    /// Edge tracker of the confirm action.
    pub confirm: ActionTracker,
    /// Edge tracker of the up action.
    pub up: ActionTracker,
    /// Edge tracker of the down action.
    pub down: ActionTracker,
}

/// The default base reveal rate, in milliglyphs per second.
pub const DEFAULT_GLYPHS_PER_SEC: u64 = 14_000;

/// The default fast-forward factor.
pub const TALKIE_SPEED_FACTOR: u64 = 10;

impl PlaybackState {
    /// The passage group under the cursor.
    pub open spec fn spec_cur_group(self) -> PassageGroup {
        self.dialogue.passage_groups[self.billboard.passage_group as int]
    }

    /// The text of the passage under the cursor.
    pub open spec fn spec_cur_text(self) -> Seq<char> {
        self.spec_cur_group().passages[self.billboard.passage as int]@
    }

    /// The carryover as a plain number of nanoglyphs.
    pub open spec fn spec_carry(self) -> int {
        match self.billboard.carryover {
            Some(c) => c as int,
            None => 0,
        }
    }

    /// The reveal rate of this tick: the base rate, scaled while
    /// fast-forwarding.
    pub open spec fn spec_effective_rate(self) -> int {
        if self.fast_forward {
            self.glyphs_per_sec * self.speed_factor
        } else {
            self.glyphs_per_sec as int
        }
    }

    /// Session well-formedness: the document is well formed, the
    /// cursor is in bounds, the carryover is below one glyph, the
    /// rates are positive and their product representable, and an open
    /// choice menu points at a group that has one, with the selection
    /// in bounds.
    pub open spec fn wf(self) -> bool {
        &&& self.dialogue.wf()
        &&& self.billboard.passage_group < self.dialogue.passage_groups.len()
        &&& self.billboard.passage < self.spec_cur_group().passages.len()
        &&& self.billboard.head <= self.spec_cur_text().len()
        &&& (self.billboard.carryover matches Some(c) ==> c < NANOGLYPHS_PER_GLYPH)
        &&& self.glyphs_per_sec >= 1
        &&& self.speed_factor >= 1
        &&& self.glyphs_per_sec * self.speed_factor <= u64::MAX
        &&& match self.state {
            GameState::Choice { group, selected } => {
                &&& group < self.dialogue.passage_groups.len()
                &&& self.dialogue.passage_groups[group as int].spec_has_choices()
                &&& selected < self.dialogue.passage_groups[group as int].choices->0.len()
            },
            _ => true,
        }
    }
}

/// The session after folding this tick's held states into the three
/// action trackers.
pub open spec fn spec_with_inputs(
    s: PlaybackState,
    confirm_held: bool,
    up_held: bool,
    down_held: bool,
) -> PlaybackState {
    PlaybackState {
        confirm: spec_tracker_step(s.confirm, confirm_held),
        up: spec_tracker_step(s.up, up_held),
        down: spec_tracker_step(s.down, down_held),
        ..s
    }
}

/// The session after reading fast-forward from the confirm action's
/// held state, as every playback tick does.
pub open spec fn spec_with_ff(s: PlaybackState) -> PlaybackState {
    PlaybackState { fast_forward: s.confirm.pressed, ..s }
}

/// The cursor after a reveal tick: elapsed time (saturated so that the
/// progress arithmetic cannot overflow a `u64`) is folded into the
/// carryover, whole glyphs move the head - clamped to the passage end -
/// and the sub-glyph leftover is kept.
pub open spec fn spec_reveal_billboard(s: PlaybackState, delta_micros: u64) -> BillboardData {
    let carry = s.spec_carry();
    let rate = s.spec_effective_rate();
    let cap = (u64::MAX - carry) / rate;
    let d = if delta_micros > cap {
        cap
    } else {
        delta_micros as int
    };
    let count = spec_reveal_count(carry, d, rate);
    let tlen = s.spec_cur_text().len();
    BillboardData {
        passage_group: s.billboard.passage_group,
        passage: s.billboard.passage,
        head: if s.billboard.head + count >= tlen {
            tlen as usize
        } else {
            (s.billboard.head + count) as usize
        },
        carryover: Some(spec_reveal_carry(carry, d, rate) as u64),
    }
}

/// The cursor after advancing past a finished passage: the next
/// passage of the group, the next group, or - after the last passage
/// of the last group - a full wrap to the start of the document. The
/// head and carryover always reset.
pub open spec fn spec_advanced(d: Dialogue, b: BillboardData) -> BillboardData {
    let g = d.passage_groups[b.passage_group as int];
    let last_passage = b.passage + 1 == g.passages.len();
    let last_group = b.passage_group + 1 == d.passage_groups.len();
    if last_passage && last_group {
        BillboardData { passage_group: 0, passage: 0, head: 0, carryover: None }
    } else if !last_passage {
        BillboardData {
            passage_group: b.passage_group,
            passage: (b.passage + 1) as usize,
            head: 0,
            carryover: None,
        }
    } else {
        BillboardData {
            passage_group: (b.passage_group + 1) as usize,
            passage: 0,
            head: 0,
            carryover: None,
        }
    }
}

/// The control state after advancing past a finished passage: a group
/// that just finished its last passage and declares a non-empty choice
/// menu opens it; everything else - including a declared but empty
/// menu - prompts.
pub open spec fn spec_next_state(d: Dialogue, b: BillboardData) -> GameState {
    let g = d.passage_groups[b.passage_group as int];
    let last_passage = b.passage + 1 == g.passages.len();
    if last_passage && g.spec_has_choices() {
        GameState::Choice { group: b.passage_group, selected: 0 }
    } else {
        GameState::Prompt
    }
}

/// One playback tick over a session whose trackers and fast-forward
/// flag are already updated: reveal while the passage has hidden
/// glyphs, otherwise advance and hand control to the prompt or the
/// choice menu.
pub open spec fn spec_playback_tick(s: PlaybackState, delta_micros: u64) -> PlaybackState {
    if s.billboard.head < s.spec_cur_text().len() {
        PlaybackState { billboard: spec_reveal_billboard(s, delta_micros), ..s }
    } else {
        PlaybackState {
            billboard: spec_advanced(s.dialogue, s.billboard),
            state: spec_next_state(s.dialogue, s.billboard),
            ..s
        }
    }
}

/// One choice-menu tick over a session whose trackers are already
/// updated: confirm turns the selected choice's `goto` into a pending
/// jump; otherwise up, then down, move the selection clamped to the
/// menu.
pub open spec fn spec_choice_tick(s: PlaybackState, group: usize, selected: usize) -> PlaybackState {
    let cs = s.dialogue.passage_groups[group as int].choices->0;
    if s.confirm.press_begin {
        PlaybackState { state: GameState::Goto { label: cs[selected as int].goto }, ..s }
    } else if s.up.press_begin {
        PlaybackState {
            state: GameState::Choice {
                group,
                selected: if selected > 0 {
                    (selected - 1) as usize
                } else {
                    0
                },
            },
            ..s
        }
    } else if s.down.press_begin {
        PlaybackState {
            state: GameState::Choice {
                group,
                selected: if selected + 1 < cs.len() {
                    (selected + 1) as usize
                } else {
                    selected
                },
            },
            ..s
        }
    } else {
        s
    }
}

/// The session after a resolved jump: the cursor stands at the start
/// of the target group with the reveal state reset, ready to play.
pub open spec fn spec_goto_applied(s: PlaybackState, idx: usize) -> PlaybackState {
    PlaybackState {
        billboard: BillboardData { passage_group: idx, passage: 0, head: 0, carryover: None },
        state: GameState::Playback,
        ..s
    }
}

/// The session back in playback with everything else as it stands:
/// what a prompt release, or a jump without a label, leaves behind.
pub open spec fn spec_resume_playback(s: PlaybackState) -> PlaybackState {
    PlaybackState { state: GameState::Playback, ..s }
}

/// Whether some passage group of the document carries this id.
pub open spec fn spec_label_exists(d: Dialogue, label: Seq<char>) -> bool {
    exists|m: int|
        0 <= m < d.passage_groups.len() && group_has_id(d.passage_groups[m], label)
}

/// The index of the first group at or after `i` whose id is `label`,
/// or the group count if there is none.
pub open spec fn spec_first_label_from(d: Dialogue, label: Seq<char>, i: int) -> int
    decreases d.passage_groups.len() - i,
{
    if i < 0 || i >= d.passage_groups.len() {
        d.passage_groups.len() as int
    } else if group_has_id(d.passage_groups[i], label) {
        i
    } else {
        spec_first_label_from(d, label, i + 1)
    }
}

/// The index of the first group whose id is `label`.
pub open spec fn spec_first_label(d: Dialogue, label: Seq<char>) -> int {
    spec_first_label_from(d, label, 0)
}

/// A first match found by a scan is what `spec_first_label_from`
/// computes.
proof fn lemma_first_label_from(d: Dialogue, label: Seq<char>, i: int, idx: int)
    requires
        0 <= i <= idx < d.passage_groups.len(),
        group_has_id(d.passage_groups[idx], label),
        forall|m: int| i <= m < idx ==> !group_has_id(d.passage_groups[m], label),
    ensures
        spec_first_label_from(d, label, i) == idx,
    decreases idx - i,
{
    if i < idx {
        lemma_first_label_from(d, label, i + 1, idx);
    }
}

impl PlaybackState {
    /// Start a session over a well-formed document: the cursor at the
    /// very start, nothing revealed, no pending input, playing.
    pub fn new(dialogue: Dialogue, glyphs_per_sec: u64, speed_factor: u64) -> (r: PlaybackState)
        requires
            dialogue.wf(),
            glyphs_per_sec >= 1,
            speed_factor >= 1,
            glyphs_per_sec * speed_factor <= u64::MAX,
        ensures
            r.wf(),
            r.dialogue == dialogue,
            r.glyphs_per_sec == glyphs_per_sec,
            r.speed_factor == speed_factor,
            r.billboard == (BillboardData { passage_group: 0, passage: 0, head: 0, carryover: None }),
            r.state is Playback,
            !r.fast_forward,
            !r.confirm.pressed && !r.up.pressed && !r.down.pressed,
            !r.confirm.press_begin && !r.up.press_begin && !r.down.press_begin,
    {
        PlaybackState {
            dialogue,
            billboard: BillboardData { passage_group: 0, passage: 0, head: 0, carryover: None },
            glyphs_per_sec,
            speed_factor,
            fast_forward: false,
            state: GameState::Playback,
            confirm: ActionTracker::new("confirm"),
            up: ActionTracker::new("up"),
            down: ActionTracker::new("down"),
        }
    }

    /// The reveal-or-advance work of a playback tick; see
    /// [`spec_playback_tick`].
    fn playback_step(&mut self, delta_micros: u64)
        requires
            old(self).wf(),
        ensures
            *final(self) == spec_playback_tick(*old(self), delta_micros),
            final(self).wf(),
    {
        let gi = self.billboard.passage_group;
        let pi = self.billboard.passage;
        let tlen = self.dialogue.passage_groups[gi].passages[pi].as_str().unicode_len();
        if self.billboard.head < tlen {
            let carry = match self.billboard.carryover {
                Some(c) => c,
                None => 0,
            };
            let rate = if self.fast_forward {
                proof {
                    assert(self.glyphs_per_sec * self.speed_factor >= 1) by (nonlinear_arith)
                        requires
                            self.glyphs_per_sec >= 1,
                            self.speed_factor >= 1,
                    ;
                }
                self.glyphs_per_sec * self.speed_factor
            } else {
                self.glyphs_per_sec
            };
            let cap = (u64::MAX - carry) / rate;
            let d = if delta_micros > cap {
                cap
            } else {
                delta_micros
            };
            proof {
                let m = (u64::MAX - carry) as int;
                let r = rate as int;
                lemma_fundamental_div_mod(m, r);
                assert(m % r >= 0) by (nonlinear_arith)
                    requires
                        r > 0,
                        m >= 0,
                ;
                assert(r * cap <= m);
                lemma_mul_inequality(d as int, cap as int, r);
                assert(cap * r == r * cap) by (nonlinear_arith);
                assert(carry + d * r <= u64::MAX);
            }
            let (count, rem) = calc_glyphs_to_reveal(carry, d, rate);
            let remaining = tlen - self.billboard.head;
            if count >= remaining as u64 {
                self.billboard.head = tlen;
            } else {
                self.billboard.head = self.billboard.head + count as usize;
            }
            self.billboard.carryover = Some(rem);
            proof {
                assert(self.billboard =~= spec_reveal_billboard(*old(self), delta_micros));
                assert(*self =~= spec_playback_tick(*old(self), delta_micros));
            }
        } else {
            let group_count = self.dialogue.passage_groups.len();
            let passage_count = self.dialogue.passage_groups[gi].passages.len();
            let last_passage = pi + 1 == passage_count;
            let last_group = gi + 1 == group_count;
            if last_passage && last_group {
                self.billboard.passage_group = 0;
                self.billboard.passage = 0;
            } else if !last_passage {
                self.billboard.passage = pi + 1;
            } else {
                self.billboard.passage_group = gi + 1;
                self.billboard.passage = 0;
            }
            self.billboard.head = 0;
            self.billboard.carryover = None;
            let has = self.dialogue.passage_groups[gi].has_choices();
            if last_passage && has {
                self.state = GameState::Choice { group: gi, selected: 0 };
            } else {
                self.state = GameState::Prompt;
            }
            proof {
                assert(self.billboard =~= spec_advanced(old(self).dialogue, old(self).billboard));
                assert(*self =~= spec_playback_tick(*old(self), delta_micros));
            }
        }
    }

    /// The menu work of a choice tick; see [`spec_choice_tick`].
    fn choice_step(&mut self, group: usize, selected: usize)
        requires
            old(self).wf(),
            old(self).state == (GameState::Choice { group, selected }),
        ensures
            *final(self) == spec_choice_tick(*old(self), group, selected),
            final(self).wf(),
    {
        if self.confirm.press_begin {
            match &self.dialogue.passage_groups[group].choices {
                Some(cs) => {
                    let goto = match &cs[selected].goto {
                        Some(s) => Some(s.clone()),
                        None => None,
                    };
                    self.state = GameState::Goto { label: goto };
                },
                None => {
                    proof {
                        assert(false);
                    }
                },
            }
        } else if self.up.press_begin {
            let newsel = if selected > 0 {
                selected - 1
            } else {
                0
            };
            self.state = GameState::Choice { group, selected: newsel };
        } else if self.down.press_begin {
            match &self.dialogue.passage_groups[group].choices {
                Some(cs) => {
                    let newsel = if selected + 1 < cs.len() {
                        selected + 1
                    } else {
                        selected
                    };
                    self.state = GameState::Choice { group, selected: newsel };
                },
                None => {
                    proof {
                        assert(false);
                    }
                },
            }
        }
        proof {
            assert(*self =~= spec_choice_tick(*old(self), group, selected));
        }
    }

    /// One tick of the session.
    ///
    /// The host supplies the elapsed time since the last tick and the
    /// current held state of the three logical actions, exactly once
    /// per tick. The only failure is an unknown jump label, fatal to
    /// the session and left for the host to surface; the session is
    /// otherwise unchanged by a failed tick (beyond the tracker
    /// update).
    pub fn tick(
        &mut self,
        delta_micros: u64,
        confirm_held: bool,
        up_held: bool,
        down_held: bool,
    ) -> (r: Result<(), GotoError>)
        requires
            old(self).wf(),
        ensures
            final(self).wf(),
            ({
                let s1 = spec_with_inputs(*old(self), confirm_held, up_held, down_held);
                match old(self).state {
                    GameState::Playback => r is Ok && *final(self) == spec_playback_tick(
                        spec_with_ff(s1),
                        delta_micros,
                    ),
                    GameState::Prompt => r is Ok && *final(self) == (if s1.confirm.press_begin {
                        spec_resume_playback(s1)
                    } else {
                        s1
                    }),
                    GameState::Choice { group, selected } => r is Ok && *final(self)
                        == spec_choice_tick(s1, group, selected),
                    GameState::Goto { label } => match label {
                        None => r is Ok && *final(self) == spec_playback_tick(
                            spec_with_ff(spec_resume_playback(s1)),
                            delta_micros,
                        ),
                        Some(l) => {
                            if spec_label_exists(old(self).dialogue, l@) {
                                &&& r is Ok
                                &&& *final(self) == spec_playback_tick(
                                    spec_with_ff(
                                        spec_goto_applied(
                                            s1,
                                            spec_first_label(old(self).dialogue, l@) as usize,
                                        ),
                                    ),
                                    delta_micros,
                                )
                            } else {
                                &&& r == Err::<(), GotoError>(GotoError::UnknownLabel)
                                &&& *final(self) == s1
                            }
                        },
                    },
                }
            }),
    {
        self.confirm.update(confirm_held);
        self.up.update(up_held);
        self.down.update(down_held);
        let ghost s1 = *self;
        proof {
            assert(s1 =~= spec_with_inputs(*old(self), confirm_held, up_held, down_held));
        }
        match &self.state {
            GameState::Playback => {
                self.fast_forward = self.confirm.pressed;
                proof {
                    assert(*self =~= spec_with_ff(s1));
                }
                self.playback_step(delta_micros);
                Ok(())
            },
            GameState::Prompt => {
                if self.confirm.press_begin {
                    self.state = GameState::Playback;
                    proof {
                        assert(*self =~= spec_resume_playback(s1));
                    }
                }
                Ok(())
            },
            GameState::Choice { group: g, selected: sel } => {
                let g = *g;
                let sel = *sel;
                self.choice_step(g, sel);
                Ok(())
            },
            GameState::Goto { label } => {
                let lbl = match label {
                    Some(s) => Some(s.clone()),
                    None => None,
                };
                match lbl {
                    Some(l) => {
                        match crate::dialogue::resolve_label(&self.dialogue, l.as_str()) {
                            Ok(idx) => {
                                proof {
                                    lemma_first_label_from(self.dialogue, l@, 0, idx as int);
                                }
                                self.billboard = BillboardData {
                                    passage_group: idx,
                                    passage: 0,
                                    head: 0,
                                    carryover: None,
                                };
                                self.state = GameState::Playback;
                                self.fast_forward = self.confirm.pressed;
                                proof {
                                    assert(*self =~= spec_with_ff(spec_goto_applied(s1, idx)));
                                }
                                self.playback_step(delta_micros);
                                Ok(())
                            },
                            Err(e) => Err(e),
                        }
                    },
                    None => {
                        self.state = GameState::Playback;
                        self.fast_forward = self.confirm.pressed;
                        proof {
                            assert(*self =~= spec_with_ff(spec_resume_playback(s1)));
                        }
                        self.playback_step(delta_micros);
                        Ok(())
                    },
                }
            },
        }
    }
}

/// What the host paints each tick: the speaker, the revealed prefix of
/// the current passage, and the choice menu when one is open. The core
/// never touches widgets; rendering this is the host's business.
#[derive(Clone, Debug)]
pub struct DisplayData {
    /// The current group's speaker, or empty when it has none.
    pub speaker_name: String,
    /// The revealed prefix of the current passage.
    pub visible_text: String,
    /// Whether a choice menu is open.
    pub is_choice_menu_active: bool,
    /// The labels of the open menu, in order; empty when none is open.
    pub choice_labels: Vec<String>,
    /// The selected entry of the open menu; zero when none is open.
    pub selected_choice_index: usize,
}

impl PlaybackState {
    /// The render data of the current tick; see [`DisplayData`].
    pub fn display(&self) -> (r: DisplayData)
        requires
            self.wf(),
        ensures
            r.speaker_name@ == (match self.spec_cur_group().speaker {
                Some(s) => s@,
                None => Seq::<char>::empty(),
            }),
            r.visible_text@ == self.spec_cur_text().take(self.billboard.head as int),
            r.is_choice_menu_active == (self.state matches GameState::Choice { .. }),
            (match self.state {
                GameState::Choice { group, selected } => {
                    let cs = self.dialogue.passage_groups[group as int].choices->0;
                    &&& r.choice_labels.len() == cs.len()
                    &&& forall|i: int|
                        0 <= i < cs.len() ==> r.choice_labels[i]@ == cs[i].label@
                    &&& r.selected_choice_index == selected
                },
                _ => r.choice_labels.len() == 0 && r.selected_choice_index == 0,
            }),
    {
        let group = &self.dialogue.passage_groups[self.billboard.passage_group];
        let speaker_name = match &group.speaker {
            Some(s) => s.clone(),
            None => String::new(),
        };
        let text = group.passages[self.billboard.passage].as_str();
        let visible_text = text.substring_char(0, self.billboard.head).to_owned();
        proof {
            assert(text@.subrange(0, self.billboard.head as int) =~= self.spec_cur_text().take(
                self.billboard.head as int,
            ));
        }
        let mut choice_labels: Vec<String> = Vec::new();
        let mut is_choice_menu_active = false;
        let mut selected_choice_index: usize = 0;
        match &self.state {
            GameState::Choice { group: g, selected: sel } => {
                let g = *g;
                let sel = *sel;
                is_choice_menu_active = true;
                selected_choice_index = sel;
                match &self.dialogue.passage_groups[g].choices {
                    Some(cs) => {
                        let mut i: usize = 0;
                        while i < cs.len()
                            invariant
                                i <= cs.len(),
                                choice_labels.len() == i,
                                forall|m: int|
                                    0 <= m < i ==> choice_labels[m]@ == cs[m].label@,
                            decreases cs.len() - i,
                        {
                            choice_labels.push(cs[i].label.clone());
                            i = i + 1;
                        }
                    },
                    None => {
                        proof {
                            assert(false);
                        }
                    },
                }
            },
            _ => {},
        }
        DisplayData {
            speaker_name,
            visible_text,
            is_choice_menu_active,
            choice_labels,
            selected_choice_index,
        }
    }
}

} // verus!
