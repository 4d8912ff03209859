use crableton::analysis::arrangement::{density, merge_short, sections, transition, transitions, Section};
use crableton::analysis::harmony::{key_name, key_scale, name_chord};
use crableton::analysis::mix::note_name;
use crableton::analysis::{pitch_name, time_signature};

#[test]
fn notes_use_abletons_octave_numbering() {
    assert_eq!(note_name(60), "C3", "MIDI 60 is C3 in Live");
    assert_eq!(note_name(36), "C1");
}

#[test]
fn the_lowest_notes_sit_below_octave_zero() {
    assert_eq!(note_name(0), "C-2");
    assert_eq!(note_name(127), "G8");
    assert_eq!(note_name(61), "C#3");
}

#[test]
fn names_common_chords() {
    assert_eq!(name_chord(&vec![0, 4, 7], None).unwrap().0, "Cmaj");
    assert_eq!(name_chord(&vec![9, 0, 4], None).unwrap().0, "Amin");
    assert_eq!(name_chord(&vec![7, 11, 2, 5], None).unwrap().0, "G7");
    assert_eq!(name_chord(&vec![2, 5, 9, 0], None).unwrap().0, "Dmin7");
    assert_eq!(name_chord(&vec![0, 5, 7], None).unwrap().0, "Csus4");
}

#[test]
fn reports_a_slash_chord_when_the_bass_is_not_the_root() {
    assert_eq!(name_chord(&vec![0, 4, 7], Some(4)).unwrap().0, "Cmaj/E");
}

#[test]
fn a_fifth_is_not_promoted_to_a_triad() {
    assert_eq!(name_chord(&vec![0, 7], None).unwrap().0, "C5");
}

#[test]
fn chord_scores_count_degrees_extras_and_the_bass() {
    // Three degrees: 3.0; the root in the bass adds 0.4.
    assert_eq!(name_chord(&vec![0, 4, 7], None).unwrap().1, 30);
    assert_eq!(name_chord(&vec![0, 4, 7], Some(48)).unwrap(), ("Cmaj".to_string(), 34));
    assert_eq!(name_chord(&vec![64], None).unwrap(), ("E (single note)".to_string(), 10));
    assert!(name_chord(&vec![], None).is_none());
    assert!(name_chord(&vec![0, 1], None).is_none());
}

#[test]
fn keys_are_named_and_spelled_with_sharps() {
    assert_eq!(key_name(0, false), "C major");
    assert_eq!(key_name(9, true), "A minor");
    assert_eq!(key_scale(0, false), vec![0, 2, 4, 5, 7, 9, 11]);
    assert_eq!(key_scale(9, true), vec![9, 11, 0, 2, 4, 5, 7]);
    assert_eq!(pitch_name(13), "C#");
    assert_eq!(time_signature(6, 8), "6/8");
}

fn view(s: &[Section]) -> Vec<(usize, usize, Vec<usize>)> {
    s.iter().map(|x| (x.start_bar, x.end_bar, x.active.clone())).collect()
}

#[test]
fn bars_with_the_same_tracks_form_one_section() {
    // Pad throughout 8 bars; drums join for the last 4.
    let grid = vec![vec![0], vec![0], vec![0], vec![0], vec![0, 1], vec![0, 1], vec![0, 1], vec![0, 1]];
    let s = sections(&grid);
    assert_eq!(view(&s), vec![(1, 4, vec![0]), (5, 8, vec![0, 1])]);
    assert!(sections(&vec![]).is_empty());
}

#[test]
fn short_runs_fold_into_the_section_before() {
    // A one-bar hole in an otherwise continuous pad.
    let grid = vec![vec![0], vec![0], vec![0], vec![0], vec![], vec![0], vec![0], vec![0]];
    let loose = merge_short(sections(&grid), 1);
    let strict = merge_short(sections(&grid), 4);
    assert_eq!(loose.len(), 3);
    assert_eq!(view(&strict), vec![(1, 8, vec![0])]);
}

#[test]
fn a_transition_lists_what_enters_and_exits() {
    let (entered, exited) = transition(&vec![0, 2], &vec![1, 2]);
    assert_eq!(entered, vec![1]);
    assert_eq!(exited, vec![0]);
}

#[test]
fn density_finds_the_busiest_and_sparsest_bars() {
    let (busiest, sparsest, silent) = density(&vec![1, 3, 0, 3, 1]);
    assert_eq!(busiest, Some((4, 3)));
    assert_eq!(sparsest, Some((1, 1)));
    assert_eq!(silent, 1);
    assert_eq!(density(&vec![0, 0]), (Some((2, 0)), None, 2));
    assert_eq!(density(&vec![]), (None, None, 0));
}

#[test]
fn transitions_are_reported_only_where_something_changes() {
    let parts = vec![
        Section { start_bar: 1, end_bar: 4, active: vec![0] },
        Section { start_bar: 5, end_bar: 8, active: vec![0, 1] },
        Section { start_bar: 9, end_bar: 12, active: vec![1, 0] },
        Section { start_bar: 13, end_bar: 16, active: vec![2] },
    ];
    let turns = transitions(&parts);
    assert_eq!(turns.len(), 2);
    assert_eq!((turns[0].at_bar, turns[0].enters.clone(), turns[0].exits.clone()), (5, vec![1], vec![]));
    assert_eq!((turns[0].tracks_before, turns[0].tracks_after), (1, 2));
    assert_eq!((turns[1].at_bar, turns[1].enters.clone(), turns[1].exits.clone()), (13, vec![2], vec![1, 0]));
    assert!(transitions(&parts[..1].to_vec()).is_empty());
}

#[test]
fn the_same_pitch_classes_get_the_same_chord_however_voiced() {
    assert_eq!(name_chord(&vec![0, 4, 7], Some(0)), name_chord(&vec![19, 12, 28, 4], Some(24)));
    assert_eq!(name_chord(&vec![0, 1], None), None);
}
