use talkie::dialogue::{Choice, Dialogue, GotoError, PassageGroup};
use talkie::playback::{GameState, PlaybackState};
use talkie::tracker::ActionTracker;

/// One second at one glyph per second, in the session's units.
const SECOND: u64 = 1_000_000;
const ONE_GLYPH_PER_SEC: u64 = 1_000;

fn group(id: Option<&str>, passages: &[&str], choices: Option<&[(&str, Option<&str>)]>) -> PassageGroup {
    PassageGroup {
        id: id.map(|s| s.to_string()),
        speaker: None,
        passages: passages.iter().map(|s| s.to_string()).collect(),
        choices: choices.map(|cs| {
            cs.iter()
                .map(|(label, goto)| Choice {
                    label: label.to_string(),
                    goto: goto.map(|g| g.to_string()),
                })
                .collect()
        }),
    }
}

fn session(groups: Vec<PassageGroup>) -> PlaybackState {
    PlaybackState::new(Dialogue { passage_groups: groups }, ONE_GLYPH_PER_SEC, 10)
}

/// Feeding held states `[false, true, true, false]` yields the edge
/// sequence none, press-begin, pressed, press-end.
#[test]
fn action_edges() {
    let mut t = ActionTracker::new("confirm");

    t.update(false);
    assert!(!t.press_begin() && !t.pressed() && !t.press_end());

    t.update(true);
    assert!(t.press_begin() && t.pressed() && !t.press_end());

    t.update(true);
    assert!(!t.press_begin() && t.pressed() && !t.press_end());

    t.update(false);
    assert!(!t.press_begin() && !t.pressed() && t.press_end());
}

/// Revealing advances the head by elapsed time times rate and stops at
/// the passage end.
#[test]
fn reveal_follows_elapsed_time() {
    let mut s = session(vec![group(None, &["abcd"], None)]);
    s.tick(2 * SECOND, false, false, false).unwrap();
    assert_eq!(2, s.billboard.head);
    assert_eq!("ab", s.display().visible_text);
    s.tick(10 * SECOND, false, false, false).unwrap();
    assert_eq!(4, s.billboard.head);
    assert_eq!("abcd", s.display().visible_text);
    assert!(matches!(s.state, GameState::Playback));
}

/// A finished passage advances the cursor and waits at a prompt; a
/// fresh confirm press resumes playback.
#[test]
fn prompt_waits_for_a_fresh_confirm_press() {
    let mut s = session(vec![group(None, &["ab", "cd"], None)]);
    s.tick(2 * SECOND, false, false, false).unwrap();
    s.tick(0, false, false, false).unwrap();
    assert!(matches!(s.state, GameState::Prompt));
    assert_eq!(1, s.billboard.passage);
    assert_eq!(0, s.billboard.head);

    // Without a confirm press the prompt waits ...
    s.tick(0, false, false, false).unwrap();
    assert!(matches!(s.state, GameState::Prompt));
    // ... a fresh press moves on.
    s.tick(0, true, false, false).unwrap();
    assert!(matches!(s.state, GameState::Playback));
}

/// Cursor wraparound: one group of two passages, no choices; after
/// both passages fully reveal, the cursor returns to the very start.
#[test]
fn cursor_wraps_to_document_start() {
    let mut s = session(vec![group(None, &["ab", "cd"], None)]);
    s.tick(2 * SECOND, false, false, false).unwrap(); // reveal "ab"
    s.tick(0, false, false, false).unwrap(); // advance to passage 1, Prompt
    s.tick(0, true, false, false).unwrap(); // confirm: back to Playback
    s.tick(2 * SECOND, false, false, false).unwrap(); // reveal "cd"
    s.tick(0, false, false, false).unwrap(); // last passage of last group: wrap
    assert_eq!(0, s.billboard.passage_group);
    assert_eq!(0, s.billboard.passage);
    assert_eq!(0, s.billboard.head);
    assert_eq!(None, s.billboard.carryover);
}

/// Choice gating: a group with `choices = []`, empty but present,
/// prompts like a group without choices.
#[test]
fn empty_choice_list_prompts() {
    let mut s = session(vec![group(None, &["ab"], Some(&[])), group(None, &["cd"], None)]);
    s.tick(2 * SECOND, false, false, false).unwrap();
    s.tick(0, false, false, false).unwrap();
    assert!(matches!(s.state, GameState::Prompt));
}

/// A group with choices opens the menu once its last passage is done.
#[test]
fn choice_menu_opens_after_last_passage() {
    let mut s = session(vec![
        group(Some("a"), &["ab"], Some(&[("one", None), ("two", Some("b"))])),
        group(Some("b"), &["cd"], None),
    ]);
    s.tick(2 * SECOND, false, false, false).unwrap();
    s.tick(0, false, false, false).unwrap();
    assert!(matches!(s.state, GameState::Choice { group: 0, selected: 0 }));

    let d = s.display();
    assert!(d.is_choice_menu_active);
    assert_eq!(vec!["one".to_string(), "two".to_string()], d.choice_labels);
    assert_eq!(0, d.selected_choice_index);
}

/// Up and down move the selection, clamped to the menu without
/// wraparound; confirm turns the choice into a pending jump.
#[test]
fn choice_selection_clamps_and_confirms() {
    let mut s = session(vec![
        group(Some("a"), &["ab"], Some(&[("one", None), ("two", Some("b"))])),
        group(Some("b"), &["cd"], None),
    ]);
    s.tick(2 * SECOND, false, false, false).unwrap();
    s.tick(0, false, false, false).unwrap();

    s.tick(0, false, true, false).unwrap(); // up at the top: stays
    assert!(matches!(s.state, GameState::Choice { selected: 0, .. }));
    s.tick(0, false, false, true).unwrap(); // down: to entry 1
    assert!(matches!(s.state, GameState::Choice { selected: 1, .. }));
    s.tick(0, false, false, true).unwrap(); // down again: held, no edge
    assert!(matches!(s.state, GameState::Choice { selected: 1, .. }));
    s.tick(0, false, false, false).unwrap(); // release
    s.tick(0, false, false, true).unwrap(); // down at the bottom: stays
    assert!(matches!(s.state, GameState::Choice { selected: 1, .. }));

    s.tick(0, true, false, false).unwrap(); // confirm entry 1
    match &s.state {
        GameState::Goto { label } => assert_eq!(Some("b".to_string()), *label),
        other => panic!("expected a pending jump, got {:?}", other),
    }
}

/// Goto resolution: a pending jump to a known id moves the cursor to
/// that group with the reveal state reset.
#[test]
fn goto_jumps_to_labeled_group() {
    let mut s = session(vec![
        group(Some("a"), &["ab"], None),
        group(Some("b"), &["cd"], None),
    ]);
    s.state = GameState::Goto { label: Some("b".to_string()) };
    s.tick(0, false, false, false).unwrap();
    assert_eq!(1, s.billboard.passage_group);
    assert_eq!(0, s.billboard.passage);
    assert_eq!(0, s.billboard.head);
    assert!(matches!(s.state, GameState::Playback));
}

/// A choice without a goto just continues at the already-advanced
/// cursor.
#[test]
fn goto_without_label_continues_forward() {
    let mut s = session(vec![
        group(Some("a"), &["ab"], Some(&[("next", None)])),
        group(Some("b"), &["cd"], None),
    ]);
    s.tick(2 * SECOND, false, false, false).unwrap();
    s.tick(0, false, false, false).unwrap(); // menu opens; cursor already at group 1
    s.tick(0, true, false, false).unwrap(); // confirm: pending jump without label
    s.tick(SECOND, false, false, false).unwrap(); // jump consumed, plays group 1
    assert_eq!(1, s.billboard.passage_group);
    assert_eq!(1, s.billboard.head);
    assert!(matches!(s.state, GameState::Playback));
}

/// Unknown label is an error, surfaced rather than swallowed.
#[test]
fn unknown_label_is_an_error() {
    let mut s = session(vec![group(Some("a"), &["ab"], None)]);
    s.state = GameState::Goto { label: Some("nonexistent".to_string()) };
    assert_eq!(Err(GotoError::UnknownLabel), s.tick(0, false, false, false));
}

/// Fast-forward scaling: while confirm is held, a delta reveals as
/// many glyphs as the factor-scaled delta does at the base rate.
#[test]
fn fast_forward_scales_the_rate() {
    let text = "abcdefghijklmnopqrstuvwxyz";
    let factor = 10;
    let delta = 700_000;

    let mut fast = session(vec![group(None, &[text], None)]);
    fast.tick(delta, true, false, false).unwrap();

    let mut slow = session(vec![group(None, &[text], None)]);
    slow.tick(delta * factor, false, false, false).unwrap();

    assert_eq!(7, fast.billboard.head);
    assert_eq!(slow.billboard.head, fast.billboard.head);
    assert_eq!(slow.billboard.carryover, fast.billboard.carryover);
}

/// Progress short of a whole glyph carries over to the next tick and
/// no time is lost to rounding.
#[test]
fn carryover_accumulates_between_ticks() {
    let mut s = session(vec![group(None, &["ab"], None)]);
    s.tick(500_000, false, false, false).unwrap(); // half a glyph
    assert_eq!(0, s.billboard.head);
    assert_eq!(Some(500_000_000), s.billboard.carryover);
    s.tick(500_000, false, false, false).unwrap(); // the other half
    assert_eq!(1, s.billboard.head);
    assert_eq!(Some(0), s.billboard.carryover);
}

/// The speaker of the current group is part of the render data.
#[test]
fn display_carries_the_speaker() {
    let mut g = group(None, &["ab"], None);
    g.speaker = Some("Sig".to_string());
    let s = session(vec![g]);
    let d = s.display();
    assert_eq!("Sig", d.speaker_name);
    assert_eq!("", d.visible_text);
    assert!(!d.is_choice_menu_active);
}

/// A parsed document plays directly.
#[test]
fn parsed_document_plays() {
    let doc = b"
[[section]]
speaker = \"Sig\"
passages = [\"Hi\\nthere\"]
";
    let d = Dialogue::from_slice(doc).unwrap();
    let mut s = PlaybackState::new(d, ONE_GLYPH_PER_SEC, 10);
    s.tick(8 * SECOND, false, false, false).unwrap();
    assert_eq!("Hi there", s.display().visible_text);
}
