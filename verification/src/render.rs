//! Making tabs and unprintable bytes visible.

use vstd::prelude::*;
use crate::line::{content_len, lemma_content_len_unique, LINE_FEED};
use crate::options::CatOptions;

verus! {

/// The horizontal tab.
pub const TAB: u8 = 9;

/// The delete byte, the one control byte above the printable range.
pub const DELETE: u8 = 127;

/// `^`, which introduces a control byte in caret notation.
pub const CARET: u8 = 94;

/// `?`, which stands for delete after a caret.
pub const QUESTION_MARK: u8 = 63;

/// `I`, which stands for the tab after a caret.
pub const LETTER_I: u8 = 73;

/// `M`, the first byte of the meta prefix `M-`.
pub const LETTER_M: u8 = 77;

/// `-`, the second byte of the meta prefix `M-`.
pub const HYPHEN: u8 = 45;

/// How one byte is written in caret and meta notation.
///
/// A control byte becomes `^` and the byte 64 above it, and delete becomes
/// `^?`. A byte with the high bit set becomes `M-` and then what the byte
/// with that bit cleared becomes. Printable bytes stand for themselves, and
/// so does the tab, alone among the control bytes.
pub open spec fn caret_notation(byte: u8) -> Seq<u8> {
    if byte == TAB {
        seq![TAB]
    } else if byte < 32 {
        seq![CARET, (byte + 64) as u8]
    } else if byte < DELETE {
        seq![byte]
    } else if byte == DELETE {
        seq![CARET, QUESTION_MARK]
    } else if byte < 160 {
        seq![LETTER_M, HYPHEN, CARET, (byte - 64) as u8]
    } else if byte < 255 {
        seq![LETTER_M, HYPHEN, (byte - 128) as u8]
    } else {
        seq![LETTER_M, HYPHEN, CARET, QUESTION_MARK]
    }
}

/// `content` with every byte written in caret and meta notation.
pub open spec fn unprintables_shown(content: Seq<u8>) -> Seq<u8>
    decreases content.len(),
{
    if content.len() == 0 {
        Seq::empty()
    } else {
        unprintables_shown(content.drop_last()) + caret_notation(content.last())
    }
}

/// How one byte is written when tabs are to be shown: a tab becomes `^I`,
/// any other byte stands for itself.
pub open spec fn tab_symbol(byte: u8) -> Seq<u8> {
    if byte == TAB {
        seq![CARET, LETTER_I]
    } else {
        seq![byte]
    }
}

/// `content` with every tab replaced by `^I` and all else unchanged.
pub open spec fn tabs_shown(content: Seq<u8>) -> Seq<u8>
    decreases content.len(),
{
    if content.len() == 0 {
        Seq::empty()
    } else {
        tabs_shown(content.drop_last()) + tab_symbol(content.last())
    }
}

/// The content of a line as the flags have it displayed. With
/// `show_unprintables` every byte is written in caret and meta notation, in
/// which tabs stay literal. With `display_tab_symbol` alone, tabs become `^I`.
/// With neither, the content is displayed as it is.
pub open spec fn rendered(options: CatOptions, content: Seq<u8>) -> Seq<u8> {
    if options.show_unprintables {
        unprintables_shown(content)
    } else if options.display_tab_symbol {
        tabs_shown(content)
    } else {
        content
    }
}

/// Appends the caret and meta notation of `byte` to `writer`.
pub fn write_byte_to_writer(byte: u8, writer: &mut Vec<u8>)
    ensures
        final(writer)@ == old(writer)@ + caret_notation(byte),
{
    if byte == TAB {
        writer.push(TAB);
    } else if byte < 32 {
        writer.push(CARET);
        writer.push(byte + 64);
    } else if byte < DELETE {
        writer.push(byte);
    } else if byte == DELETE {
        writer.push(CARET);
        writer.push(QUESTION_MARK);
    } else if byte < 160 {
        writer.push(LETTER_M);
        writer.push(HYPHEN);
        writer.push(CARET);
        writer.push(byte - 64);
    } else if byte < 255 {
        writer.push(LETTER_M);
        writer.push(HYPHEN);
        writer.push(byte - 128);
    } else {
        writer.push(LETTER_M);
        writer.push(HYPHEN);
        writer.push(CARET);
        writer.push(QUESTION_MARK);
    }
    assert(writer@ =~= old(writer)@ + caret_notation(byte));
}

/// Appends to `writer` the bytes of `bytes` in caret and meta notation, as
/// far as the first line feed, which it leaves alone. Returns the number of
/// bytes it has rendered: the place of that line feed, or the length of
/// `bytes` where there is none.
pub fn write_bytes_to_writer(bytes: &[u8], writer: &mut Vec<u8>) -> (count: usize)
    ensures
        count == content_len(bytes@),
        count <= bytes@.len(),
        final(writer)@ == old(writer)@ + unprintables_shown(bytes@.take(count as int)),
{
    let mut count: usize = 0;
    proof {
        assert(bytes@.take(0) =~= Seq::<u8>::empty());
        assert(writer@ =~= old(writer)@ + unprintables_shown(bytes@.take(0)));
    }
    while count < bytes.len() && bytes[count] != LINE_FEED
        invariant
            count <= bytes.len(),
            forall|j: int| 0 <= j < count ==> bytes@[j] != LINE_FEED,
            writer@ == old(writer)@ + unprintables_shown(bytes@.take(count as int)),
        decreases bytes.len() - count,
    {
        let ghost before = writer@;
        write_byte_to_writer(bytes[count], writer);
        proof {
            let next = bytes@.take(count + 1);
            assert(next.drop_last() =~= bytes@.take(count as int));
            assert(next.last() == bytes@[count as int]);
            assert(writer@ =~= old(writer)@ + unprintables_shown(next));
        }
        count += 1;
    }
    proof {
        lemma_content_len_unique(bytes@, count as int);
    }
    count
}

/// Appends `content` to `writer` with every tab replaced by `^I`.
pub fn write_tab_symbols(content: &[u8], writer: &mut Vec<u8>)
    ensures
        final(writer)@ == old(writer)@ + tabs_shown(content@),
{
    let mut i: usize = 0;
    proof {
        assert(content@.take(0) =~= Seq::<u8>::empty());
        assert(writer@ =~= old(writer)@ + tabs_shown(content@.take(0)));
    }
    while i < content.len()
        invariant
            i <= content.len(),
            writer@ == old(writer)@ + tabs_shown(content@.take(i as int)),
        decreases content.len() - i,
    {
        let byte: u8 = content[i];
        if byte == TAB {
            writer.push(CARET);
            writer.push(LETTER_I);
        } else {
            writer.push(byte);
        }
        proof {
            let next = content@.take(i + 1);
            assert(next.drop_last() =~= content@.take(i as int));
            assert(next.last() == byte);
            assert(writer@ =~= old(writer)@ + tabs_shown(next));
        }
        i += 1;
    }
    proof {
        assert(content@.take(i as int) =~= content@);
    }
}

} // verus!
