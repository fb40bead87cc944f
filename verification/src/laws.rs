//! What holds of the pipeline on every input.
//!
//! Lines are counted from 0 here: the line at index `i` is the one that has
//! `i` lines in front of it. Every law about `lines` holds in particular of
//! the raw lines of an input.

use vstd::prelude::*;
use crate::line::{
    blank, content_len, first_line_len, joined, lemma_content_len, lemma_first_line,
    lemma_first_line_of_concat, raw_line, raw_lines, terminated,
};
use crate::number::number_prefix;
use crate::options::CatOptions;
use crate::pipeline::{
    body, initial_state, lemma_previous_line_blank, lemma_transformed_lines_at, line_output,
    next_state, numbered, state_after, suppressed, transformed, transformed_lines, PipelineModel,
};

verus! {

/// The number of lines among `lines` that are not blank.
pub open spec fn non_blank_count(lines: Seq<Seq<u8>>) -> nat
    decreases lines.len(),
{
    if lines.len() == 0 {
        0
    } else if blank(lines.last()) {
        non_blank_count(lines.drop_last())
    } else {
        non_blank_count(lines.drop_last()) + 1
    }
}

/// The state that the pipeline has reached when it comes to the line at
/// `index`, on a run that started in the initial state.
pub open spec fn state_at(options: CatOptions, lines: Seq<Seq<u8>>, index: int) -> PipelineModel {
    state_after(options, initial_state(), lines.take(index))
}

/// A line that is displayed with no flag that touches its bytes is the line
/// itself.
proof fn lemma_body_unchanged(options: CatOptions, line: Seq<u8>)
    requires
        !options.show_line_end,
        !options.display_tab_symbol,
        !options.show_unprintables,
    ensures
        body(options, line) == line,
{
    lemma_content_len(line);
    let end = content_len(line) as int;
    assert(line.take(end) + line.skip(end) =~= line);
    assert(body(options, line) =~= line);
}

/// Neither numbering flag alone decides anything once `number_non_blank` is
/// set: from any state, the pipeline puts out the same with
/// `number_all_lines` on and off.
proof fn lemma_number_all_lines_ignored(
    options: CatOptions,
    other: CatOptions,
    state: PipelineModel,
    lines: Seq<Seq<u8>>,
)
    requires
        options.number_non_blank,
        other == (CatOptions { number_all_lines: !options.number_all_lines, ..options }),
    ensures
        transformed_lines(options, state, lines) == transformed_lines(other, state, lines),
    decreases lines.len(),
{
    if lines.len() > 0 {
        lemma_number_all_lines_ignored(
            options,
            other,
            next_state(options, state, lines[0]),
            lines.drop_first(),
        );
    }
}

/// With no flag set but the squashing of blank lines, going over the output
/// once more from the same state changes nothing.
proof fn lemma_squash_settles(options: CatOptions, state: PipelineModel, input: Seq<u8>)
    requires
        !options.number_non_blank,
        !options.number_all_lines,
        !options.show_line_end,
        !options.display_tab_symbol,
        !options.show_unprintables,
    ensures
        transformed_lines(
            options,
            state,
            raw_lines(transformed_lines(options, state, raw_lines(input))),
        ) == transformed_lines(options, state, raw_lines(input)),
    decreases input.len(),
{
    if input.len() > 0 {
        lemma_first_line(input);
        let n = first_line_len(input) as int;
        let head = input.take(n);
        let rest = input.skip(n);
        let next = next_state(options, state, head);
        let lines = raw_lines(input);
        assert(lines[0] == head);
        assert(lines.drop_first() =~= raw_lines(rest));
        let tail_output = transformed_lines(options, next, raw_lines(rest));
        lemma_squash_settles(options, next, rest);
        if suppressed(options, state, head) {
            assert(next == state);
            assert(transformed_lines(options, state, lines) =~= tail_output);
        } else {
            lemma_body_unchanged(options, head);
            let whole = head + tail_output;
            assert(transformed_lines(options, state, lines) =~= whole);
            if terminated(head) {
                lemma_first_line_of_concat(head, tail_output);
                let again = raw_lines(whole);
                assert(again[0] == head);
                assert(again.drop_first() =~= raw_lines(tail_output));
            } else {
                assert(rest.len() == 0);
                assert(tail_output =~= Seq::<u8>::empty());
                assert(whole =~= head);
                let again = raw_lines(head);
                assert(head.take(head.len() as int) =~= head);
                assert(head.skip(head.len() as int) =~= Seq::<u8>::empty());
                assert(again[0] == head);
                assert(again.drop_first() =~= Seq::<Seq<u8>>::empty());
                assert(transformed_lines(options, next, again.drop_first()) =~= Seq::<
                    u8,
                >::empty());
                assert(transformed_lines(options, state, again) =~= head);
            }
        }
    }
}

/// With every flag off, the pipeline puts out the lines as they came in, from
/// any state.
proof fn lemma_plain_from(options: CatOptions, state: PipelineModel, input: Seq<u8>)
    requires
        !options.number_non_blank,
        !options.number_all_lines,
        !options.ignore_adjacent_blanks,
        !options.show_line_end,
        !options.display_tab_symbol,
        !options.show_unprintables,
    ensures
        transformed_lines(options, state, raw_lines(input)) == input,
    decreases input.len(),
{
    if input.len() > 0 {
        lemma_first_line(input);
        let n = first_line_len(input) as int;
        let head = input.take(n);
        let rest = input.skip(n);
        let lines = raw_lines(input);
        assert(lines[0] == head);
        assert(lines.drop_first() =~= raw_lines(rest));
        lemma_body_unchanged(options, head);
        lemma_plain_from(options, next_state(options, state, head), rest);
        assert(head + rest =~= input);
    }
}

/// Line splitting. Cutting an input into raw lines loses no byte and repeats
/// none: the lines joined together are the input. Every one of them is a raw
/// line, and every one but the last is terminated.
pub proof fn law_raw_lines_join_to_input(input: Seq<u8>)
    ensures
        joined(raw_lines(input)) == input,
        forall|i: int|
            0 <= i < raw_lines(input).len() ==> raw_line(#[trigger] raw_lines(input)[i]),
        forall|i: int|
            0 <= i < raw_lines(input).len() - 1 ==> terminated(#[trigger] raw_lines(input)[i]),
    decreases input.len(),
{
    if input.len() == 0 {
    } else {
        lemma_first_line(input);
        let n = first_line_len(input) as int;
        let head = input.take(n);
        let rest = input.skip(n);
        let tail = raw_lines(rest);
        let lines = raw_lines(input);
        law_raw_lines_join_to_input(rest);
        assert(lines == seq![head] + tail);
        assert(lines[0] == head);
        assert(lines.drop_first() =~= tail);
        assert(head + rest =~= input);
        assert forall|i: int| 0 <= i < lines.len() implies raw_line(#[trigger] lines[i]) by {
            if i > 0 {
                assert(lines[i] == tail[i - 1]);
            }
        }
        assert forall|i: int| 0 <= i < lines.len() - 1 implies terminated(
            #[trigger] lines[i],
        ) by {
            if i > 0 {
                assert(lines[i] == tail[i - 1]);
            } else {
                assert(tail.len() > 0);
                assert(rest.len() > 0);
            }
        }
    }
}

/// Identity. With every flag off the output is the input, byte for byte; a
/// last line without a terminator stays without one.
pub proof fn law_plain_output_is_input(options: CatOptions, input: Seq<u8>)
    requires
        !options.number_non_blank,
        !options.number_all_lines,
        !options.ignore_adjacent_blanks,
        !options.show_line_end,
        !options.display_tab_symbol,
        !options.show_unprintables,
    ensures
        transformed(options, input) == input,
{
    lemma_plain_from(options, initial_state(), input);
}

/// Squashing. Where blank lines are squashed, a line is dropped exactly when
/// it is blank and the line in front of it is blank too. So the first line of
/// a run of blank lines is emitted and all the others of the run are dropped,
/// however long the run is. Where blank lines are not squashed, no line is
/// dropped.
pub proof fn law_blank_runs_squashed(options: CatOptions, lines: Seq<Seq<u8>>, index: int)
    requires
        0 <= index < lines.len(),
    ensures
        suppressed(options, state_at(options, lines, index), lines[index]) <==> {
            &&& options.ignore_adjacent_blanks
            &&& index > 0
            &&& blank(lines[index - 1])
            &&& blank(lines[index])
        },
{
    if index > 0 {
        let before = lines.take(index);
        assert(before.last() == lines[index - 1]);
        lemma_previous_line_blank(options, initial_state(), before);
    } else {
        assert(lines.take(0).len() == 0);
    }
}

/// Numbering of all lines. With `number_all_lines` set, the line at `index`
/// is emitted with the number `index + 1` in front of it, after a tab and
/// before a space: the numbers run from 1 to the number of lines, in order.
///
/// This is stated of the inputs of which every line is emitted with a
/// number. Two other flags can take a number away from a line: with
/// `number_non_blank` a blank line has none, and with
/// `ignore_adjacent_blanks` a blank line after a blank line is not emitted.
pub proof fn law_all_lines_numbered_in_order(options: CatOptions, lines: Seq<Seq<u8>>, index: int)
    requires
        options.number_all_lines,
        options.number_non_blank ==> forall|j: int|
            0 <= j < lines.len() ==> !blank(#[trigger] lines[j]),
        options.ignore_adjacent_blanks ==> forall|j: int|
            0 < j < lines.len() ==> !(blank(lines[j - 1]) && blank(#[trigger] lines[j])),
        0 <= index < lines.len(),
    ensures
        state_at(options, lines, index).line_number == index,
        line_output(options, state_at(options, lines, index), lines[index]) == number_prefix(
            (index + 1) as nat,
        ) + body(options, lines[index]),
    decreases index,
{
    law_blank_runs_squashed(options, lines, index);
    if index > 0 {
        law_all_lines_numbered_in_order(options, lines, index - 1);
        lemma_transformed_lines_at(options, initial_state(), lines, index - 1);
        assert(numbered(options, lines[index - 1]));
    } else {
        assert(lines.take(0).len() == 0);
    }
    assert(numbered(options, lines[index]));
}

/// Numbering of non-blank lines. With `number_non_blank` set, a blank line is
/// emitted without a number and uses none up, and a line that is not blank is
/// emitted with the number that follows the one of the non-blank line last
/// before it: its number is one more than the count of non-blank lines in
/// front of it. Whether `number_all_lines` is set as well makes no
/// difference.
pub proof fn law_non_blank_lines_numbered_in_order(
    options: CatOptions,
    lines: Seq<Seq<u8>>,
    index: int,
)
    requires
        options.number_non_blank,
        0 <= index < lines.len(),
    ensures
        state_at(options, lines, index).line_number == non_blank_count(lines.take(index)),
        blank(lines[index]) ==> {
            &&& next_state(
                options,
                state_at(options, lines, index),
                lines[index],
            ).line_number == state_at(options, lines, index).line_number
            &&& !suppressed(options, state_at(options, lines, index), lines[index]) ==> line_output(
                options,
                state_at(options, lines, index),
                lines[index],
            ) == body(options, lines[index])
        },
        !blank(lines[index]) ==> {
            &&& next_state(
                options,
                state_at(options, lines, index),
                lines[index],
            ).line_number == non_blank_count(lines.take(index)) + 1
            &&& line_output(options, state_at(options, lines, index), lines[index]) == number_prefix(
                non_blank_count(lines.take(index)) + 1,
            ) + body(options, lines[index])
        },
    decreases index,
{
    if index > 0 {
        law_non_blank_lines_numbered_in_order(options, lines, index - 1);
        lemma_transformed_lines_at(options, initial_state(), lines, index - 1);
        let before = lines.take(index);
        assert(before.drop_last() =~= lines.take(index - 1));
        assert(before.last() == lines[index - 1]);
    } else {
        assert(lines.take(0).len() == 0);
    }
    assert(line_output(options, state_at(options, lines, index), lines[index]) =~= (if suppressed(
        options,
        state_at(options, lines, index),
        lines[index],
    ) {
        Seq::<u8>::empty()
    } else if blank(lines[index]) {
        body(options, lines[index])
    } else {
        number_prefix(state_at(options, lines, index).line_number + 1) + body(
            options,
            lines[index],
        )
    }));
}

/// Precedence. `number_non_blank` takes precedence over `number_all_lines`:
/// once it is set, the output is the same with the other flag on and off.
pub proof fn law_number_non_blank_takes_precedence(options: CatOptions, input: Seq<u8>)
    requires
        options.number_non_blank,
    ensures
        transformed(options, input) == transformed(
            (CatOptions { number_all_lines: !options.number_all_lines, ..options }),
            input,
        ),
{
    lemma_number_all_lines_ignored(
        options,
        CatOptions { number_all_lines: !options.number_all_lines, ..options },
        initial_state(),
        raw_lines(input),
    );
}

/// Idempotence of squashing. Squashing the blank lines of an input that has
/// been squashed already changes nothing: one pass settles it.
pub proof fn law_squashing_is_idempotent(options: CatOptions, input: Seq<u8>)
    requires
        options.ignore_adjacent_blanks,
        !options.number_non_blank,
        !options.number_all_lines,
        !options.show_line_end,
        !options.display_tab_symbol,
        !options.show_unprintables,
    ensures
        transformed(options, transformed(options, input)) == transformed(options, input),
{
    lemma_squash_settles(options, initial_state(), input);
}

} // verus!
