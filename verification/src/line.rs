//! Raw lines: where a line ends, when it is blank, and how a byte buffer
//! falls apart into lines.

use vstd::prelude::*;

verus! {

/// The byte that terminates a line.
pub const LINE_FEED: u8 = 10;

/// Whether `byte` is white space: a tab, a line feed, a vertical tab, a form
/// feed, a carriage return or a space. No byte above the ASCII range is.
pub open spec fn whitespace(byte: u8) -> bool {
    9 <= byte <= 13 || byte == 32
}

/// Whether a line is blank: nothing is left of it once white space is trimmed
/// from both ends, which is to say that it holds white space only. A line
/// that is just a terminator is blank, and so is the empty sequence.
pub open spec fn blank(line: Seq<u8>) -> bool {
    forall|i: int| 0 <= i < line.len() ==> whitespace(#[trigger] line[i])
}

/// The number of bytes in front of the first line feed of `line`, or the
/// length of `line` where it has none. For a raw line this is the length of
/// its content, the terminator left out.
pub open spec fn content_len(line: Seq<u8>) -> nat
    decreases line.len(),
{
    if line.len() == 0 || line[0] == LINE_FEED {
        0
    } else {
        1 + content_len(line.drop_first())
    }
}

/// The length of the first raw line of `input`: its bytes up to and including
/// the first line feed, or all of `input` where it has none.
pub open spec fn first_line_len(input: Seq<u8>) -> nat {
    if content_len(input) < input.len() {
        content_len(input) + 1
    } else {
        input.len()
    }
}

/// Whether `line` is a raw line as a line source hands it out: not empty, and
/// with no line feed anywhere but at its end.
pub open spec fn raw_line(line: Seq<u8>) -> bool {
    line.len() > 0 && first_line_len(line) == line.len()
}

/// Whether a raw line ends in a line feed. Only the last line of an input can
/// lack one.
pub open spec fn terminated(line: Seq<u8>) -> bool {
    content_len(line) < line.len()
}

/// The raw lines of `input`, in order: its first raw line, and then the raw
/// lines of what follows it.
pub open spec fn raw_lines(input: Seq<u8>) -> Seq<Seq<u8>>
    decreases input.len(),
{
    if input.len() == 0 {
        Seq::empty()
    } else {
        let n = first_line_len(input) as int;
        seq![input.take(n)] + raw_lines(input.skip(n))
    }
}

/// All the lines of `lines` laid end to end.
pub open spec fn joined(lines: Seq<Seq<u8>>) -> Seq<u8>
    decreases lines.len(),
{
    if lines.len() == 0 {
        Seq::empty()
    } else {
        lines[0] + joined(lines.drop_first())
    }
}

/// `content_len` finds the first line feed: no byte in front of it is one,
/// and the byte at it, if there is such a byte, is one.
pub proof fn lemma_content_len(line: Seq<u8>)
    ensures
        content_len(line) <= line.len(),
        forall|i: int| 0 <= i < content_len(line) ==> line[i] != LINE_FEED,
        content_len(line) < line.len() ==> line[content_len(line) as int] == LINE_FEED,
    decreases line.len(),
{
    if line.len() == 0 || line[0] == LINE_FEED {
    } else {
        let tail = line.drop_first();
        lemma_content_len(tail);
        assert forall|i: int| 0 <= i < content_len(line) implies line[i] != LINE_FEED by {
            if i > 0 {
                assert(line[i] == tail[i - 1]);
            }
        }
        if content_len(line) < line.len() {
            assert(line[content_len(line) as int] == tail[content_len(tail) as int]);
        }
    }
}

/// The position of the first line feed is `content_len`, and no other number
/// is: `k` is it as soon as no byte in front of `k` is a line feed and `k` is
/// the end of `line` or the place of a line feed.
pub proof fn lemma_content_len_unique(line: Seq<u8>, k: int)
    requires
        0 <= k <= line.len(),
        forall|i: int| 0 <= i < k ==> line[i] != LINE_FEED,
        k < line.len() ==> line[k] == LINE_FEED,
    ensures
        content_len(line) == k,
    decreases k,
{
    if k > 0 {
        let tail = line.drop_first();
        assert(line[0] != LINE_FEED);
        assert forall|i: int| 0 <= i < k - 1 implies tail[i] != LINE_FEED by {
            assert(tail[i] == line[i + 1]);
        }
        if k - 1 < tail.len() {
            assert(tail[k - 1] == line[k]);
        }
        lemma_content_len_unique(tail, k - 1);
    }
}

/// The first raw line of a buffer that is not empty is a raw line: it is not
/// empty, it is no longer than the buffer, and it is terminated unless it
/// takes the buffer's last byte without finding a line feed.
pub proof fn lemma_first_line(input: Seq<u8>)
    requires
        input.len() > 0,
    ensures
        1 <= first_line_len(input) <= input.len(),
        raw_line(input.take(first_line_len(input) as int)),
        content_len(input.take(first_line_len(input) as int)) == content_len(input),
{
    lemma_content_len(input);
    let n = first_line_len(input) as int;
    let line = input.take(n);
    let k = content_len(input) as int;
    assert forall|i: int| 0 <= i < k implies line[i] != LINE_FEED by {
        assert(line[i] == input[i]);
    }
    if k < line.len() {
        assert(line[k] == input[k]);
    }
    lemma_content_len_unique(line, k);
}

/// A terminated raw line in front of any bytes is the first raw line of the
/// whole.
pub proof fn lemma_first_line_of_concat(line: Seq<u8>, rest: Seq<u8>)
    requires
        raw_line(line),
        terminated(line),
    ensures
        first_line_len(line + rest) == line.len(),
        (line + rest).take(line.len() as int) == line,
        (line + rest).skip(line.len() as int) == rest,
{
    lemma_content_len(line);
    let whole = line + rest;
    let k = content_len(line) as int;
    assert forall|i: int| 0 <= i < k implies whole[i] != LINE_FEED by {
        assert(whole[i] == line[i]);
    }
    assert(whole[k] == line[k]);
    lemma_content_len_unique(whole, k);
    assert(whole.take(line.len() as int) =~= line);
    assert(whole.skip(line.len() as int) =~= rest);
}

/// Tells whether `byte` is white space.
pub fn is_whitespace(byte: u8) -> (result: bool)
    ensures
        result == whitespace(byte),
{
    (9 <= byte && byte <= 13) || byte == 32
}

/// Tells whether `line` is blank.
pub fn is_blank(line: &[u8]) -> (result: bool)
    ensures
        result == blank(line@),
{
    let mut i: usize = 0;
    while i < line.len()
        invariant
            i <= line.len(),
            forall|j: int| 0 <= j < i ==> whitespace(#[trigger] line@[j]),
        decreases line.len() - i,
    {
        if !is_whitespace(line[i]) {
            return false;
        }
        i += 1;
    }
    true
}

/// Finds where the content of `line` ends: the index of its first line feed,
/// or its length where it has none.
pub fn content_end(line: &[u8]) -> (end: usize)
    ensures
        end == content_len(line@),
        end <= line@.len(),
{
    let mut i: usize = 0;
    while i < line.len() && line[i] != LINE_FEED
        invariant
            i <= line.len(),
            forall|j: int| 0 <= j < i ==> line@[j] != LINE_FEED,
        decreases line.len() - i,
    {
        i += 1;
    }
    proof {
        lemma_content_len_unique(line@, i as int);
    }
    i
}

/// A line source over a buffer in memory. It hands out the buffer's raw lines
/// one at a time, each with its terminator, and keeps what it has not handed
/// out yet.
pub struct LineSource<'a> {
    rest: &'a [u8],
}

impl<'a> View for LineSource<'a> {
    type V = Seq<u8>;

    /// The bytes that have not been handed out yet.
    closed spec fn view(&self) -> Seq<u8> {
        self.rest@
    }
}

impl<'a> LineSource<'a> {
    /// A source that has all of `input` still to hand out.
    pub fn new(input: &'a [u8]) -> (source: Self)
        ensures
            source@ == input@,
    {
        LineSource { rest: input }
    }

    /// Hands out the next raw line, or `None` at the end of the input. The
    /// line and what the source keeps are together what the source held
    /// before: no byte is lost and none is handed out twice.
    pub fn next_line(&mut self) -> (line: Option<&'a [u8]>)
        ensures
            old(self)@.len() == 0 ==> line is None && final(self)@ == old(self)@,
            old(self)@.len() > 0 ==> line is Some,
            line matches Some(bytes) ==> {
                &&& bytes@ == old(self)@.take(first_line_len(old(self)@) as int)
                &&& final(self)@ == old(self)@.skip(first_line_len(old(self)@) as int)
                &&& bytes@ + final(self)@ == old(self)@
                &&& raw_line(bytes@)
            },
    {
        let rest = self.rest;
        if rest.len() == 0 {
            return None;
        }
        let end = content_end(rest);
        let n: usize = if end < rest.len() {
            end + 1
        } else {
            rest.len()
        };
        proof {
            lemma_first_line(rest@);
        }
        let (line, tail) = rest.split_at(n);
        self.rest = tail;
        assert(line@ + tail@ =~= rest@);
        Some(line)
    }
}

} // verus!
