//! Layout of the full-screen error report drawn when a user program panics.
use vstd::prelude::*;
use vstd::string::StrSliceExecFns;

verus! {

/// Gap between the screen edge and the error box, in pixels.
pub const ERROR_BOX_MARGIN: i16 = 8;

/// Gap between the error box's border and its text, in pixels.
pub const ERROR_BOX_PADDING: i16 = 8;

/// Height of one line of text, in pixels.
pub const LINE_HEIGHT: i16 = 16;

/// A line is broken whenever its UTF-8 length reaches a multiple of this.
pub const LINE_MAX_WIDTH: usize = 56;

/// Number of bytes the UTF-8 encoding of `c` takes.
pub open spec fn char_utf8_width(c: char) -> nat {
    if (c as u32) < 0x80 {
        1
    } else if (c as u32) < 0x800 {
        2
    } else if (c as u32) < 0x10000 {
        3
    } else {
        4
    }
}

/// Number of bytes the UTF-8 encoding of `s` takes.
pub open spec fn utf8_len(s: Seq<char>) -> nat
    decreases s.len(),
{
    if s.len() == 0 {
        0
    } else {
        utf8_len(s.drop_last()) + char_utf8_width(s.last())
    }
}

/// ASCII control characters: U+0000 to U+001F and U+007F.
pub open spec fn is_ascii_control(c: char) -> bool {
    (c as u32) < 0x20 || (c as u32) == 0x7f
}

/// The four spaces a tab becomes.
pub open spec fn tab_expansion() -> Seq<char> {
    seq![' ', ' ', ' ', ' ']
}

/// The pending line after `c` is added to `buffer`: a tab becomes four
/// spaces, other control characters are dropped.
pub open spec fn extend_line(buffer: Seq<char>, c: char) -> Seq<char> {
    if c == '\t' {
        buffer + tab_expansion()
    } else if !is_ascii_control(c) {
        buffer.push(c)
    } else {
        buffer
    }
}

/// Whether the line is emitted after the character at position `pos`
/// (a byte offset into the message) was added and the pending line became
/// `extended`.
pub open spec fn line_ends(c: char, extended: Seq<char>, first: bool) -> bool {
    c == '\n' || (utf8_len(extended) % (LINE_MAX_WIDTH as nat) == 0 && !first)
}

/// The finished lines and the pending line after the characters of `msg`
/// were processed in order.
pub open spec fn wrap_state(msg: Seq<char>) -> (Seq<Seq<char>>, Seq<char>)
    decreases msg.len(),
{
    if msg.len() == 0 {
        (Seq::empty(), Seq::empty())
    } else {
        let prev = wrap_state(msg.drop_last());
        let c = msg.last();
        let extended = extend_line(prev.1, c);
        if line_ends(c, extended, msg.len() == 1) {
            (prev.0.push(extended), Seq::empty())
        } else {
            (prev.0, extended)
        }
    }
}

/// The lines of the error report for `msg`, top to bottom.
pub open spec fn wrapped_lines(msg: Seq<char>) -> Seq<Seq<char>> {
    let st = wrap_state(msg);
    if st.1.len() > 0 {
        st.0.push(st.1)
    } else {
        st.0
    }
}

spec fn chars_prefix(s: Seq<char>, k: usize) -> Seq<char> {
    s.take(k as int)
}

fn utf8_width(c: char) -> (w: usize)
    ensures
        w == char_utf8_width(c),
{
    let v: u32 = c as u32;
    if v < 0x80 {
        1
    } else if v < 0x800 {
        2
    } else if v < 0x10000 {
        3
    } else {
        4
    }
}

fn is_control(c: char) -> (b: bool)
    ensures
        b == is_ascii_control(c),
{
    let v: u32 = c as u32;
    v < 0x20 || v == 0x7f
}

proof fn lemma_utf8_len_push(s: Seq<char>, c: char)
    ensures
        utf8_len(s.push(c)) == utf8_len(s) + char_utf8_width(c),
{
    assert(s.push(c).drop_last() =~= s);
}

proof fn lemma_utf8_len_tab(s: Seq<char>)
    ensures
        utf8_len(s + tab_expansion()) == utf8_len(s) + 4,
{
    let s1 = s.push(' ');
    let s2 = s1.push(' ');
    let s3 = s2.push(' ');
    let s4 = s3.push(' ');
    assert(s + tab_expansion() =~= s4);
    lemma_utf8_len_push(s, ' ');
    lemma_utf8_len_push(s1, ' ');
    lemma_utf8_len_push(s2, ' ');
    lemma_utf8_len_push(s3, ' ');
}

/// Splits an error message into the lines drawn in the error box: tabs
/// become four spaces, other ASCII control characters are dropped, and a
/// line ends at each newline and whenever its UTF-8 length reaches a
/// multiple of 56 after the first character.
pub fn error_lines(msg: &str) -> (lines: Vec<Vec<char>>)
    ensures
        lines@.len() == wrapped_lines(msg@).len(),
        forall|i: int| 0 <= i < lines@.len() ==> #[trigger] lines@[i]@ == wrapped_lines(msg@)[i],
{
    let n: usize = msg.unicode_len();
    let mut lines: Vec<Vec<char>> = Vec::new();
    let mut buffer: Vec<char> = Vec::new();
    let mut width_mod: usize = 0;
    let mut k: usize = 0;
    assert(chars_prefix(msg@, 0) =~= Seq::<char>::empty());
    while k < n
        invariant
            n == msg@.len(),
            k <= n,
            width_mod < LINE_MAX_WIDTH,
            width_mod == utf8_len(buffer@) % (LINE_MAX_WIDTH as nat),
            buffer@ == wrap_state(chars_prefix(msg@, k)).1,
            lines@.len() == wrap_state(chars_prefix(msg@, k)).0.len(),
            forall|i: int|
                0 <= i < lines@.len() ==> #[trigger] lines@[i]@ == wrap_state(
                    chars_prefix(msg@, k),
                ).0[i],
        decreases n - k,
    {
        let c: char = msg.get_char(k);
        let ghost old_buffer = buffer@;
        let ghost old_lines = lines@;
        if c == '\t' {
            buffer.push(' ');
            buffer.push(' ');
            buffer.push(' ');
            buffer.push(' ');
            width_mod = (width_mod + 4) % LINE_MAX_WIDTH;
            proof {
                assert(buffer@ =~= old_buffer + tab_expansion());
                lemma_utf8_len_tab(old_buffer);
            }
        } else if !is_control(c) {
            buffer.push(c);
            width_mod = (width_mod + utf8_width(c)) % LINE_MAX_WIDTH;
            proof {
                lemma_utf8_len_push(old_buffer, c);
            }
        }
        proof {
            assert(chars_prefix(msg@, (k + 1) as usize).drop_last() =~= chars_prefix(msg@, k));
            assert(chars_prefix(msg@, (k + 1) as usize).last() == c);
            assert(buffer@ == extend_line(old_buffer, c));
        }
        if c == '\n' || (width_mod == 0 && k > 0) {
            let finished = buffer;
            lines.push(finished);
            buffer = Vec::new();
            width_mod = 0;
            proof {
                assert forall|i: int| 0 <= i < lines@.len() implies #[trigger] lines@[i]@
                    == wrap_state(chars_prefix(msg@, (k + 1) as usize)).0[i] by {
                    if i < old_lines.len() {
                        assert(lines@[i] == old_lines[i]);
                    }
                }
            }
        }
        k = k + 1;
    }
    assert(chars_prefix(msg@, n) =~= msg@);
    if buffer.len() > 0 {
        let ghost old_lines = lines@;
        lines.push(buffer);
        proof {
            assert forall|i: int| 0 <= i < lines@.len() implies #[trigger] lines@[i]@
                == wrapped_lines(msg@)[i] by {
                if i < old_lines.len() {
                    assert(lines@[i] == old_lines[i]);
                }
            }
        }
    }
    lines
}

/// The text a character contributes to the report: four spaces for a tab,
/// nothing for another control character, else the character itself.
pub open spec fn char_piece(c: char) -> Seq<char> {
    if c == '\t' {
        tab_expansion()
    } else if !is_ascii_control(c) {
        seq![c]
    } else {
        Seq::empty()
    }
}

/// The message with tabs expanded and other control characters removed.
pub open spec fn clean_text(msg: Seq<char>) -> Seq<char>
    decreases msg.len(),
{
    if msg.len() == 0 {
        Seq::empty()
    } else {
        clean_text(msg.drop_last()) + char_piece(msg.last())
    }
}

/// The lines, one after the other.
pub open spec fn concat_lines(lines: Seq<Seq<char>>) -> Seq<char>
    decreases lines.len(),
{
    if lines.len() == 0 {
        Seq::empty()
    } else {
        concat_lines(lines.drop_last()) + lines.last()
    }
}

/// No character of `s` is an ASCII control character.
pub open spec fn free_of_controls(s: Seq<char>) -> bool {
    forall|i: int| 0 <= i < s.len() ==> !is_ascii_control(#[trigger] s[i])
}

proof fn lemma_wrap_state_text(msg: Seq<char>)
    ensures
        concat_lines(wrap_state(msg).0) + wrap_state(msg).1 == clean_text(msg),
    decreases msg.len(),
{
    if msg.len() > 0 {
        let prev = wrap_state(msg.drop_last());
        let c = msg.last();
        lemma_wrap_state_text(msg.drop_last());
        let extended = extend_line(prev.1, c);
        assert(extended =~= prev.1 + char_piece(c));
        if line_ends(c, extended, msg.len() == 1) {
            assert(prev.0.push(extended).drop_last() =~= prev.0);
            assert(concat_lines(prev.0.push(extended)) =~= concat_lines(prev.0) + extended);
        }
        assert(concat_lines(wrap_state(msg).0) + wrap_state(msg).1 =~= clean_text(msg));
    } else {
        assert(concat_lines(wrap_state(msg).0) + wrap_state(msg).1 =~= clean_text(msg));
    }
}

/// The lines of the error report, read one after the other, are the
/// message with its tabs expanded to four spaces and its other control
/// characters (newlines among them) removed: wrapping loses and adds no
/// text.
pub proof fn lemma_error_lines_keep_text(msg: Seq<char>)
    ensures
        concat_lines(wrapped_lines(msg)) == clean_text(msg),
{
    lemma_wrap_state_text(msg);
    let st = wrap_state(msg);
    if st.1.len() > 0 {
        assert(st.0.push(st.1).drop_last() =~= st.0);
    } else {
        assert(concat_lines(st.0) + st.1 =~= concat_lines(st.0));
    }
}

proof fn lemma_wrap_state_no_controls(msg: Seq<char>)
    ensures
        free_of_controls(wrap_state(msg).1),
        forall|i: int|
            0 <= i < wrap_state(msg).0.len() ==> free_of_controls(#[trigger] wrap_state(msg).0[i]),
    decreases msg.len(),
{
    if msg.len() > 0 {
        let prev = wrap_state(msg.drop_last());
        let c = msg.last();
        lemma_wrap_state_no_controls(msg.drop_last());
        let extended = extend_line(prev.1, c);
        assert(free_of_controls(extended)) by {
            assert forall|i: int| 0 <= i < extended.len() implies !is_ascii_control(
                #[trigger] extended[i],
            ) by {
                if i >= prev.1.len() {
                    if c == '\t' {
                        assert(extended[i] == ' ');
                    } else {
                        assert(extended[i] == c);
                    }
                }
            }
        }
        if line_ends(c, extended, msg.len() == 1) {
            let ls = prev.0.push(extended);
            assert forall|i: int| 0 <= i < ls.len() implies free_of_controls(#[trigger] ls[i]) by {
                if i < prev.0.len() {
                    assert(ls[i] == prev.0[i]);
                }
            }
        }
    }
}

/// No line of the error report holds an ASCII control character.
pub proof fn lemma_error_lines_free_of_controls(msg: Seq<char>)
    ensures
        forall|i: int|
            0 <= i < wrapped_lines(msg).len() ==> free_of_controls(#[trigger] wrapped_lines(msg)[i]),
{
    lemma_wrap_state_no_controls(msg);
    let st = wrap_state(msg);
    if st.1.len() > 0 {
        let ls = st.0.push(st.1);
        assert forall|i: int| 0 <= i < ls.len() implies free_of_controls(#[trigger] ls[i]) by {
            if i < st.0.len() {
                assert(ls[i] == st.0[i]);
            }
        }
    }
}

/// Top-left corner of the text of line `line` of the error report.
pub fn error_text_origin(line: i16) -> (origin: (i16, i16))
    requires
        0 <= line,
        ERROR_BOX_MARGIN + ERROR_BOX_PADDING + line * LINE_HEIGHT <= i16::MAX,
    ensures
        origin.0 == ERROR_BOX_MARGIN + ERROR_BOX_PADDING,
        origin.1 == ERROR_BOX_MARGIN + ERROR_BOX_PADDING + line * LINE_HEIGHT,
{
    (ERROR_BOX_MARGIN + ERROR_BOX_PADDING, ERROR_BOX_MARGIN + ERROR_BOX_PADDING + line * LINE_HEIGHT)
}

/// Corners of the error box on a display of the given resolution: inset by
/// the margin on every side.
pub fn error_box_corners(width: i16, height: i16) -> (corners: ((i16, i16), (i16, i16)))
    requires
        width >= i16::MIN + ERROR_BOX_MARGIN,
        height >= i16::MIN + ERROR_BOX_MARGIN,
    ensures
        corners.0 == (ERROR_BOX_MARGIN, ERROR_BOX_MARGIN),
        corners.1.0 == width - ERROR_BOX_MARGIN,
        corners.1.1 == height - ERROR_BOX_MARGIN,
{
    ((ERROR_BOX_MARGIN, ERROR_BOX_MARGIN), (width - ERROR_BOX_MARGIN, height - ERROR_BOX_MARGIN))
}

} // verus!
