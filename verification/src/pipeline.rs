//! The pipeline: what one line becomes in a given state, and what a whole
//! input becomes line by line.

use vstd::prelude::*;
use vstd::slice::slice_subrange;
use crate::line::{blank, content_end, content_len, is_blank, raw_lines, LineSource};
use crate::number::{number_prefix, write_number_prefix};
use crate::options::{CatOptions, LineNumberStyle};
use crate::render::{rendered, write_bytes_to_writer, write_tab_symbols};

verus! {

/// `$`, the mark that `show_line_end` puts at the end of a line's content.
pub const DOLLAR: u8 = 36;

/// What the pipeline remembers from one line to the next.
#[derive(Clone, Copy, Debug, PartialEq, Eq, Structural)]
pub struct PipelineState {
    /// The number given to the line that was numbered last, 0 before any was.
    pub line_number: u64,
    /// Whether the line before this one was blank, emitted or not.
    pub previous_line_blank: bool,
}

/// The state as the contracts see it, with a line number that has no upper
/// bound.
pub struct PipelineModel {
    /// The number given to the line that was numbered last, 0 before any was.
    pub line_number: nat,
    /// Whether the line before this one was blank, emitted or not.
    pub previous_line_blank: bool,
}

impl View for PipelineState {
    type V = PipelineModel;

    open spec fn view(&self) -> PipelineModel {
        PipelineModel {
            line_number: self.line_number as nat,
            previous_line_blank: self.previous_line_blank,
        }
    }
}

/// The state in which a run starts: no line has a number yet, and there is
/// no line before the first whose blankness could count.
pub open spec fn initial_state() -> PipelineModel {
    PipelineModel { line_number: 0, previous_line_blank: false }
}

/// Whether `line` is dropped: blank lines are being squashed, the line is
/// blank, and so was the line before it.
pub open spec fn suppressed(options: CatOptions, state: PipelineModel, line: Seq<u8>) -> bool {
    options.ignore_adjacent_blanks && state.previous_line_blank && blank(line)
}

/// Whether `line`, if it is emitted, is given a number.
pub open spec fn numbered(options: CatOptions, line: Seq<u8>) -> bool {
    match options.line_number_style() {
        LineNumberStyle::Off => false,
        LineNumberStyle::All => true,
        LineNumberStyle::NonEmpty => !blank(line),
    }
}

/// The state after `line`. The counter moves on by one exactly when the line
/// is emitted with a number. The memory of blankness follows the line itself,
/// dropped or not, so that a run of blank lines stays squashed to its end.
pub open spec fn next_state(options: CatOptions, state: PipelineModel, line: Seq<u8>)
    -> PipelineModel {
    PipelineModel {
        line_number: if !suppressed(options, state, line) && numbered(options, line) {
            state.line_number + 1
        } else {
            state.line_number
        },
        previous_line_blank: blank(line),
    }
}

/// What stands in front of `line` when it is emitted in `state`: its number,
/// one more than the last one given, or nothing if it gets none.
pub open spec fn prefix(options: CatOptions, state: PipelineModel, line: Seq<u8>) -> Seq<u8> {
    if numbered(options, line) {
        number_prefix(state.line_number + 1)
    } else {
        Seq::empty()
    }
}

/// What is put between a line's content and its terminator.
pub open spec fn end_marker(options: CatOptions) -> Seq<u8> {
    if options.show_line_end {
        seq![DOLLAR]
    } else {
        Seq::empty()
    }
}

/// `line` as it is displayed, without its number: the content rendered, the
/// end marker, and then the rest of the line untouched. For a raw line the
/// rest is its terminator, or nothing on a last line that lacks one.
pub open spec fn body(options: CatOptions, line: Seq<u8>) -> Seq<u8> {
    let end = content_len(line) as int;
    rendered(options, line.take(end)) + end_marker(options) + line.skip(end)
}

/// The bytes emitted for `line` in `state`, for a line that is not dropped.
pub open spec fn emitted(options: CatOptions, state: PipelineModel, line: Seq<u8>) -> Seq<u8> {
    prefix(options, state, line) + body(options, line)
}

/// What the pipeline puts out for `line` in `state`: nothing for a line that
/// is dropped.
pub open spec fn line_output(options: CatOptions, state: PipelineModel, line: Seq<u8>)
    -> Seq<u8> {
    if suppressed(options, state, line) {
        Seq::empty()
    } else {
        emitted(options, state, line)
    }
}

/// What the pipeline puts out for `lines`, taken in order from `state` on.
pub open spec fn transformed_lines(
    options: CatOptions,
    state: PipelineModel,
    lines: Seq<Seq<u8>>,
) -> Seq<u8>
    decreases lines.len(),
{
    if lines.len() == 0 {
        Seq::empty()
    } else {
        line_output(options, state, lines[0]) + transformed_lines(
            options,
            next_state(options, state, lines[0]),
            lines.drop_first(),
        )
    }
}

/// What a whole input becomes: it is cut into its raw lines, and these go
/// through the pipeline from the initial state.
pub open spec fn transformed(options: CatOptions, input: Seq<u8>) -> Seq<u8> {
    transformed_lines(options, initial_state(), raw_lines(input))
}

/// The state that the pipeline is in once `lines` have gone through it from
/// `state` on.
pub open spec fn state_after(options: CatOptions, state: PipelineModel, lines: Seq<Seq<u8>>)
    -> PipelineModel
    decreases lines.len(),
{
    if lines.len() == 0 {
        state
    } else {
        state_after(options, next_state(options, state, lines[0]), lines.drop_first())
    }
}

/// The pipeline can be stopped after any line and taken up again: what it
/// puts out for two runs of lines on end is what it puts out for the first,
/// and then for the second from the state that the first has left.
pub proof fn lemma_transformed_lines_concat(
    options: CatOptions,
    state: PipelineModel,
    first: Seq<Seq<u8>>,
    second: Seq<Seq<u8>>,
)
    ensures
        transformed_lines(options, state, first + second) == transformed_lines(
            options,
            state,
            first,
        ) + transformed_lines(options, state_after(options, state, first), second),
        state_after(options, state, first + second) == state_after(
            options,
            state_after(options, state, first),
            second,
        ),
    decreases first.len(),
{
    if first.len() == 0 {
        assert(first + second =~= second);
    } else {
        let whole = first + second;
        assert(whole[0] == first[0]);
        assert(whole.drop_first() =~= first.drop_first() + second);
        lemma_transformed_lines_concat(
            options,
            next_state(options, state, first[0]),
            first.drop_first(),
            second,
        );
    }
}

/// What the pipeline puts out for the line at `index`, seen within the whole
/// output: in front of it stands what the lines before it gave, and after it
/// what the lines after it give.
pub proof fn lemma_transformed_lines_at(
    options: CatOptions,
    state: PipelineModel,
    lines: Seq<Seq<u8>>,
    index: int,
)
    requires
        0 <= index < lines.len(),
    ensures
        transformed_lines(options, state, lines) == transformed_lines(
            options,
            state,
            lines.take(index),
        ) + line_output(options, state_after(options, state, lines.take(index)), lines[index])
            + transformed_lines(
            options,
            state_after(options, state, lines.take(index + 1)),
            lines.skip(index + 1),
        ),
        state_after(options, state, lines.take(index + 1)) == next_state(
            options,
            state_after(options, state, lines.take(index)),
            lines[index],
        ),
{
    let before = lines.take(index);
    let here = seq![lines[index]];
    let after = lines.skip(index + 1);
    let reached = state_after(options, state, before);
    assert(before + here =~= lines.take(index + 1));
    assert(lines.take(index + 1) + after =~= lines);
    lemma_transformed_lines_concat(options, state, before, here);
    lemma_transformed_lines_concat(options, state, lines.take(index + 1), after);
    assert(here.drop_first() =~= Seq::<Seq<u8>>::empty());
    assert(transformed_lines(options, reached, here) =~= line_output(
        options,
        reached,
        lines[index],
    ))
        by {
        assert(transformed_lines(
            options,
            next_state(options, reached, here[0]),
            here.drop_first(),
        ) =~= Seq::<u8>::empty());
    }
    assert(state_after(options, reached, here) == next_state(options, reached, lines[index])) by {
        assert(state_after(options, next_state(options, reached, here[0]), here.drop_first())
            == next_state(options, reached, here[0]));
    }
}

/// The pipeline's memory of blankness after some lines is the blankness of
/// the last of them, whether that line was emitted or dropped.
pub proof fn lemma_previous_line_blank(
    options: CatOptions,
    state: PipelineModel,
    lines: Seq<Seq<u8>>,
)
    requires
        lines.len() > 0,
    ensures
        state_after(options, state, lines).previous_line_blank == blank(lines.last()),
    decreases lines.len(),
{
    if lines.len() > 1 {
        assert(lines.drop_first().last() == lines.last());
        lemma_previous_line_blank(
            options,
            next_state(options, state, lines[0]),
            lines.drop_first(),
        );
    } else {
        let rest = lines.drop_first();
        assert(rest.len() == 0);
        assert(state_after(options, next_state(options, state, lines[0]), rest) == next_state(
            options,
            state,
            lines[0],
        ));
    }
}

impl PipelineState {
    /// The state in which a run starts.
    pub fn new() -> (state: PipelineState)
        ensures
            state@ == initial_state(),
    {
        PipelineState { line_number: 0, previous_line_blank: false }
    }
}

/// Appends `bytes` to `writer` as they are.
fn write_verbatim(bytes: &[u8], writer: &mut Vec<u8>)
    ensures
        final(writer)@ == old(writer)@ + bytes@,
{
    writer.extend_from_slice(bytes);
    assert(writer@ =~= old(writer)@ + bytes@);
}

/// Takes one line through the pipeline. Returns the state for the next line
/// and the bytes to emit for this one, or `None` where the line is dropped.
///
/// A line that is to get a number needs a counter that can still move on.
pub fn step(options: &CatOptions, state: PipelineState, line: &[u8]) -> (result: (
    PipelineState,
    Option<Vec<u8>>,
))
    requires
        !suppressed(*options, state@, line@) && numbered(*options, line@) ==> state.line_number
            < u64::MAX,
    ensures
        result.0@ == next_state(*options, state@, line@),
        suppressed(*options, state@, line@) <==> result.1 is None,
        result.1 matches Some(bytes) ==> bytes@ == emitted(*options, state@, line@),
{
    let line_blank = is_blank(line);
    if options.ignore_adjacent_blanks && state.previous_line_blank && line_blank {
        return (state, None);
    }
    let numbered = match options.line_number_style() {
        LineNumberStyle::Off => false,
        LineNumberStyle::All => true,
        LineNumberStyle::NonEmpty => !line_blank,
    };
    let mut bytes: Vec<u8> = Vec::new();
    let mut line_number = state.line_number;
    if numbered {
        line_number = line_number + 1;
        write_number_prefix(line_number, &mut bytes);
    }
    assert(bytes@ =~= prefix(*options, state@, line@));
    let end: usize;
    if options.show_unprintables {
        end = write_bytes_to_writer(line, &mut bytes);
    } else {
        end = content_end(line);
        let content = slice_subrange(line, 0, end);
        if options.display_tab_symbol {
            write_tab_symbols(content, &mut bytes);
        } else {
            write_verbatim(content, &mut bytes);
        }
    }
    if options.show_line_end {
        bytes.push(DOLLAR);
    }
    write_verbatim(slice_subrange(line, end, line.len()), &mut bytes);
    assert(bytes@ =~= emitted(*options, state@, line@));
    (PipelineState { line_number, previous_line_blank: line_blank }, Some(bytes))
}

/// Displays a whole input held in memory: returns what the pipeline puts out
/// for its raw lines, from the first to the last.
pub fn kitty(cat_options: CatOptions, input: &[u8]) -> (output: Vec<u8>)
    ensures
        output@ == transformed(cat_options, input@),
{
    let mut source = LineSource::new(input);
    let mut state = PipelineState::new();
    let mut output: Vec<u8> = Vec::new();
    let total: usize = input.len();
    loop
        invariant
            output@ + transformed_lines(cat_options, state@, raw_lines(source@)) == transformed(
                cat_options,
                input@,
            ),
            state.line_number + source@.len() <= total,
        ensures
            output@ == transformed(cat_options, input@),
        decreases source@.len(),
    {
        let ghost rest = source@;
        let ghost before = output@;
        let ghost previous = state@;
        match source.next_line() {
            None => {
                break ;
            },
            Some(line) => {
                let (next, emitted) = step(&cat_options, state, line);
                state = next;
                if let Some(mut bytes) = emitted {
                    output.append(&mut bytes);
                }
                proof {
                    let lines = raw_lines(rest);
                    assert(lines[0] == line@);
                    assert(lines.drop_first() =~= raw_lines(source@));
                    assert(output@ =~= before + line_output(
                        cat_options,
                        previous,
                        line@,
                    ));
                }
            },
        }
    }
    output
}

} // verus!
