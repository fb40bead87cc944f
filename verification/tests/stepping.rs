use kitty::pipeline::{step, PipelineState};
use kitty::{CatOptions, LineNumberStyle};

fn fresh() -> PipelineState {
    PipelineState::new()
}

#[test]
fn a_run_starts_with_no_number_given_and_no_blank_line_seen() {
    let state = PipelineState::new();
    assert_eq!(state.line_number, 0);
    assert!(!state.previous_line_blank);
}

#[test]
fn numbering_style_follows_the_two_flags() {
    let neither = CatOptions::default();
    let all = CatOptions { number_all_lines: true, ..neither };
    let non_blank = CatOptions { number_non_blank: true, ..neither };
    let both = CatOptions { number_non_blank: true, number_all_lines: true, ..neither };
    assert_eq!(neither.line_number_style(), LineNumberStyle::Off);
    assert_eq!(all.line_number_style(), LineNumberStyle::All);
    assert_eq!(non_blank.line_number_style(), LineNumberStyle::NonEmpty);
    assert_eq!(both.line_number_style(), LineNumberStyle::NonEmpty);
}

#[test]
fn a_plain_step_hands_the_line_back_and_counts_nothing() {
    let (state, bytes) = step(&CatOptions::default(), fresh(), b"hello\n");
    assert_eq!(bytes, Some(b"hello\n".to_vec()));
    assert_eq!(state, PipelineState { line_number: 0, previous_line_blank: false });
}

#[test]
fn a_numbered_step_moves_the_counter_on_by_one() {
    let options = CatOptions { number_all_lines: true, ..CatOptions::default() };
    let start = PipelineState { line_number: 41, previous_line_blank: false };
    let (state, bytes) = step(&options, start, b"answer\n");
    assert_eq!(bytes, Some(b"\t42 answer\n".to_vec()));
    assert_eq!(state, PipelineState { line_number: 42, previous_line_blank: false });
}

#[test]
fn the_counter_goes_from_nine_to_ten() {
    let options = CatOptions { number_all_lines: true, ..CatOptions::default() };
    let start = PipelineState { line_number: 9, previous_line_blank: true };
    let (state, bytes) = step(&options, start, b"\n");
    assert_eq!(bytes, Some(b"\t10 \n".to_vec()));
    assert_eq!(state, PipelineState { line_number: 10, previous_line_blank: true });
}

#[test]
fn the_largest_line_number_is_written_in_full() {
    let options = CatOptions { number_all_lines: true, ..CatOptions::default() };
    let start = PipelineState { line_number: u64::MAX - 1, previous_line_blank: false };
    let (state, bytes) = step(&options, start, b"x");
    assert_eq!(bytes, Some(b"\t18446744073709551615 x".to_vec()));
    assert_eq!(state.line_number, u64::MAX);
}

#[test]
fn round_numbers_keep_their_zeros() {
    let options = CatOptions { number_all_lines: true, ..CatOptions::default() };
    let start = PipelineState { line_number: 1_000_999, previous_line_blank: false };
    let (state, bytes) = step(&options, start, b"x\n");
    assert_eq!(bytes, Some(b"\t1001000 x\n".to_vec()));
    assert_eq!(state.line_number, 1_001_000);
}

#[test]
fn a_blank_line_uses_no_number_when_only_non_blank_lines_are_numbered() {
    let options = CatOptions { number_non_blank: true, ..CatOptions::default() };
    let start = PipelineState { line_number: 3, previous_line_blank: false };
    let (state, bytes) = step(&options, start, b" \t\n");
    assert_eq!(bytes, Some(b" \t\n".to_vec()));
    assert_eq!(state, PipelineState { line_number: 3, previous_line_blank: true });
    let (state, bytes) = step(&options, state, b"text\n");
    assert_eq!(bytes, Some(b"\t4 text\n".to_vec()));
    assert_eq!(state, PipelineState { line_number: 4, previous_line_blank: false });
}

#[test]
fn a_blank_line_after_a_blank_line_is_dropped() {
    let options = CatOptions {
        number_all_lines: true,
        ignore_adjacent_blanks: true,
        ..CatOptions::default()
    };
    let start = PipelineState { line_number: 7, previous_line_blank: true };
    let (state, bytes) = step(&options, start, b"\n");
    assert_eq!(bytes, None);
    assert_eq!(state, PipelineState { line_number: 7, previous_line_blank: true });
}

#[test]
fn a_dropped_line_keeps_the_run_of_blank_lines_going() {
    let options = CatOptions { ignore_adjacent_blanks: true, ..CatOptions::default() };
    let (state, first) = step(&options, fresh(), b"\n");
    let (state, second) = step(&options, state, b"\n");
    let (state, third) = step(&options, state, b"\n");
    let (state, fourth) = step(&options, state, b"x\n");
    let (state, fifth) = step(&options, state, b"\n");
    assert_eq!(first, Some(b"\n".to_vec()));
    assert_eq!(second, None);
    assert_eq!(third, None);
    assert_eq!(fourth, Some(b"x\n".to_vec()));
    assert_eq!(fifth, Some(b"\n".to_vec()));
    assert!(state.previous_line_blank);
}

#[test]
fn a_blank_line_after_a_blank_line_stays_without_squashing() {
    let start = PipelineState { line_number: 0, previous_line_blank: true };
    let (state, bytes) = step(&CatOptions::default(), start, b"\n");
    assert_eq!(bytes, Some(b"\n".to_vec()));
    assert!(state.previous_line_blank);
}

#[test]
fn blankness_is_remembered_without_squashing() {
    let (state, _) = step(&CatOptions::default(), fresh(), b"  \n");
    assert!(state.previous_line_blank);
    let (state, _) = step(&CatOptions::default(), state, b" x \n");
    assert!(!state.previous_line_blank);
}

#[test]
fn a_non_blank_line_after_a_blank_line_is_emitted_when_squashing() {
    let options = CatOptions { ignore_adjacent_blanks: true, ..CatOptions::default() };
    let start = PipelineState { line_number: 0, previous_line_blank: true };
    let (state, bytes) = step(&options, start, b"\xa0\n");
    assert_eq!(bytes, Some(b"\xa0\n".to_vec()));
    assert!(!state.previous_line_blank);
}

#[test]
fn a_step_renders_marks_and_numbers_together() {
    let options = CatOptions {
        number_all_lines: true,
        show_line_end: true,
        display_tab_symbol: true,
        ..CatOptions::default()
    };
    let (state, bytes) = step(&options, fresh(), b"\tindented\n");
    assert_eq!(bytes, Some(b"\t1 ^Iindented$\n".to_vec()));
    assert_eq!(state, PipelineState { line_number: 1, previous_line_blank: false });
}
