//! The layout of the error box.
//!
//! After a fatal failure the brain shows a red box with the message of the
//! failure and the addresses of the call stack. This module decides what is
//! written on which line; it draws nothing.
use vstd::prelude::*;

verus! {

/// Distance between the edge of the screen and the box, in pixels.
pub const ERROR_BOX_MARGIN: i16 = 16;

/// Distance between the edge of the box and the text, in pixels.
pub const ERROR_BOX_PADDING: i16 = 16;

/// Height of a line of text, in pixels.
pub const LINE_HEIGHT: i16 = 20;

/// Number of bytes after which a line of the message is broken.
pub const LINE_MAX_WIDTH: usize = 52;

/// Number of stack addresses in one line.
pub const ROW_LENGTH: usize = 3;

/// Width of the screen, in pixels.
pub const HORIZONTAL_RESOLUTION: i16 = 480;

/// Height of the screen, in pixels.
pub const VERTICAL_RESOLUTION: i16 = 272;

/// A point of the screen.
#[derive(Debug, Clone, Copy, PartialEq, Eq, Structural)]
pub struct Point2 {
    /// Pixels from the left edge.
    pub x: i16,
    /// Pixels from the top edge.
    pub y: i16,
}

/// A rectangle of the screen.
#[derive(Debug, Clone, Copy, PartialEq, Eq, Structural)]
pub struct Rect {
    /// The upper left corner.
    pub start: Point2,
    /// The lower right corner.
    pub end: Point2,
}

/// The box: the screen less the margin on every side.
pub fn error_box() -> (rect: Rect)
    ensures
        rect == (Rect { start: Point2 { x: 16, y: 16 }, end: Point2 { x: 464, y: 256 } }),
{
    Rect {
        start: Point2 { x: ERROR_BOX_MARGIN, y: ERROR_BOX_MARGIN },
        end: Point2 {
            x: HORIZONTAL_RESOLUTION - ERROR_BOX_MARGIN,
            y: VERTICAL_RESOLUTION - ERROR_BOX_MARGIN,
        },
    }
}

/// The largest line number whose place can be written in screen coordinates.
pub const LAST_LINE: usize = 1636;

/// Where line `line` of the text begins: inside the padding, one line height
/// lower for every line. `None` for a line so far down that its place does not
/// fit the coordinates of the screen.
pub fn line_origin(line: usize) -> (origin: Option<Point2>)
    ensures
        origin is Some <==> line <= LAST_LINE,
        origin is Some ==> origin->0.x == 32 && origin->0.y == 32 + 20 * line,
{
    if line <= LAST_LINE {
        let down: i16 = line as i16;
        Some(
            Point2 {
                x: ERROR_BOX_MARGIN + ERROR_BOX_PADDING,
                y: ERROR_BOX_MARGIN + ERROR_BOX_PADDING + down * LINE_HEIGHT,
            },
        )
    } else {
        None
    }
}

/// Whether `c` is one of the control characters of ASCII, which are not written.
pub open spec fn is_control(c: char) -> bool {
    c as u32 <= 0x1F || c as u32 == 0x7F
}

/// Number of bytes that `c` takes in UTF-8.
pub open spec fn utf8_len(c: char) -> nat {
    if (c as u32) < 0x80 {
        1
    } else if (c as u32) < 0x800 {
        2
    } else if (c as u32) < 0x10000 {
        3
    } else {
        4
    }
}

/// Number of bytes that `text` takes in UTF-8.
pub open spec fn utf8_bytes(text: Seq<char>) -> nat
    decreases text.len(),
{
    if text.len() == 0 {
        0
    } else {
        utf8_bytes(text.drop_last()) + utf8_len(text.last())
    }
}

/// The lines in which `chars` are written, where `buffer` holds what has been
/// read of the current line and `first` says whether `chars` begins the message.
///
/// A character that is no control character joins the line. The line ends after
/// a line feed, and after any character but the first of the message that leaves
/// the line with a number of bytes that is a multiple of 52: so also after a
/// control character that finds the line empty. What is left at the end of the
/// message is a line of its own, unless it is empty.
pub open spec fn wrapped(chars: Seq<char>, buffer: Seq<char>, first: bool) -> Seq<Seq<char>>
    decreases chars.len(),
{
    if chars.len() == 0 {
        if buffer.len() > 0 {
            seq![buffer]
        } else {
            Seq::empty()
        }
    } else {
        let c = chars[0];
        let line = if is_control(c) {
            buffer
        } else {
            buffer.push(c)
        };
        if c == '\n' || (utf8_bytes(line) % 52 == 0 && !first) {
            seq![line] + wrapped(chars.drop_first(), Seq::empty(), false)
        } else {
            wrapped(chars.drop_first(), line, false)
        }
    }
}

/// The texts of `lines`.
pub open spec fn texts(lines: Seq<Vec<char>>) -> Seq<Seq<char>> {
    lines.map_values(|line: Vec<char>| line@)
}

fn char_is_control(c: char) -> (control: bool)
    ensures
        control == is_control(c),
{
    let code = c as u32;
    code <= 0x1F || code == 0x7F
}

fn char_utf8_len(c: char) -> (len: usize)
    ensures
        len == utf8_len(c),
{
    let code = c as u32;
    if code < 0x80 {
        1
    } else if code < 0x800 {
        2
    } else if code < 0x10000 {
        3
    } else {
        4
    }
}

/// Breaks the message of a failure into the lines in which it is written.
pub fn wrap_message(message: &Vec<char>) -> (lines: Vec<Vec<char>>)
    ensures
        texts(lines@) == wrapped(message@, Seq::empty(), true),
        lines@.len() <= message@.len(),
{
    let mut lines: Vec<Vec<char>> = Vec::new();
    let mut buffer: Vec<char> = Vec::new();
    let mut residue: usize = 0;
    let mut k: usize = 0;
    proof {
        assert(texts(lines@) =~= Seq::<Seq<char>>::empty());
        assert(message@.skip(0) =~= message@);
        assert(buffer@ =~= Seq::<char>::empty());
        assert(texts(lines@) + wrapped(message@, Seq::empty(), true) =~= wrapped(
            message@,
            Seq::empty(),
            true,
        ));
    }
    while k < message.len()
        invariant
            k <= message@.len(),
            residue == utf8_bytes(buffer@) % 52,
            lines@.len() <= k,
            k == 0 ==> buffer@.len() == 0,
            lines@.len() == k ==> buffer@.len() == 0,
            wrapped(message@, Seq::empty(), true) == texts(lines@) + wrapped(
                message@.skip(k as int),
                buffer@,
                k == 0,
            ),
        decreases message@.len() - k,
    {
        let c = message[k];
        let ghost rest = message@.skip(k as int);
        let ghost before = buffer@;
        let ghost done = texts(lines@);
        proof {
            assert(rest[0] == c);
            assert(rest.drop_first() =~= message@.skip(k + 1));
        }
        if !char_is_control(c) {
            buffer.push(c);
            proof {
                assert(buffer@.drop_last() =~= before);
            }
            residue = (residue + char_utf8_len(c)) % 52;
        }
        if c == '\n' || (residue == 0 && k > 0) {
            let ghost line = buffer@;
            lines.push(buffer);
            buffer = Vec::new();
            residue = 0;
            proof {
                assert(texts(lines@) =~= done.push(line));
                assert(done.push(line) + wrapped(message@.skip(k + 1), Seq::empty(), false)
                    =~= done + (seq![line] + wrapped(
                    message@.skip(k + 1),
                    Seq::empty(),
                    false,
                )));
            }
        }
        k = k + 1;
    }
    proof {
        assert(message@.skip(k as int).len() == 0);
    }
    if buffer.len() > 0 {
        let ghost line = buffer@;
        let ghost done = texts(lines@);
        lines.push(buffer);
        proof {
            assert(texts(lines@) =~= done.push(line));
            assert(done.push(line) =~= done + seq![line]);
        }
    } else {
        proof {
            assert(texts(lines@) + Seq::<Seq<char>>::empty() =~= texts(lines@));
        }
    }
    lines
}

/// The decimal digit for `d`.
pub open spec fn digit(d: nat) -> char
    recommends
        d < 10,
{
    (48 + d) as char
}

/// `n` in decimal digits.
pub open spec fn decimal(n: nat) -> Seq<char>
    decreases n,
{
    if n < 10 {
        seq![digit(n)]
    } else {
        decimal(n / 10).push(digit(n % 10))
    }
}

/// `text` with spaces in front of it, as many as it lacks to `width` characters.
pub open spec fn padded(text: Seq<char>, width: nat) -> Seq<char> {
    if text.len() >= width {
        text
    } else {
        Seq::new((width - text.len()) as nat, |i: int| ' ') + text
    }
}

/// What is written for the stack address with the number `index`: the number,
/// set right in three columns, a colon and a space, the address as `label` gives
/// it, and four spaces.
pub open spec fn cell(index: nat, label: Seq<char>) -> Seq<char> {
    padded(decimal(index), 3) + seq![':', ' '] + label + seq![' ', ' ', ' ', ' ']
}

/// Whether `c` is white space: a character with the Unicode property of that
/// name.
pub open spec fn is_whitespace(c: char) -> bool {
    let code = c as u32;
    ||| 0x09 <= code <= 0x0D
    ||| code == 0x20
    ||| code == 0x85
    ||| code == 0xA0
    ||| code == 0x1680
    ||| 0x2000 <= code <= 0x200A
    ||| code == 0x2028
    ||| code == 0x2029
    ||| code == 0x202F
    ||| code == 0x205F
    ||| code == 0x3000
}

/// `text` without the white space at its end.
pub open spec fn trim_end(text: Seq<char>) -> Seq<char>
    decreases text.len(),
{
    if text.len() > 0 && is_whitespace(text.last()) {
        trim_end(text.drop_last())
    } else {
        text
    }
}

/// The cells of the addresses from number `from` up to, not including, number
/// `to`, one behind the other.
pub open spec fn cells(labels: Seq<Seq<char>>, from: int, to: int) -> Seq<char>
    decreases to - from,
{
    if from >= to {
        Seq::empty()
    } else {
        cells(labels, from, to - 1) + cell((to - 1) as nat, labels[to - 1])
    }
}

/// Number of lines that `count` stack addresses take, three to a line.
pub open spec fn row_count(count: nat) -> nat {
    (count + 2) / 3
}

/// Line `row` of the stack addresses: the cells of up to three addresses, without
/// the white space at the end of the line.
pub open spec fn row_text(labels: Seq<Seq<char>>, row: int) -> Seq<char> {
    trim_end(cells(labels, 3 * row, if 3 * row + 3 <= labels.len() {
        3 * row + 3
    } else {
        labels.len() as int
    }))
}

fn char_is_whitespace(c: char) -> (white: bool)
    ensures
        white == is_whitespace(c),
{
    let code = c as u32;
    (0x09 <= code && code <= 0x0D) || code == 0x20 || code == 0x85 || code == 0xA0 || code
        == 0x1680 || (0x2000 <= code && code <= 0x200A) || code == 0x2028 || code == 0x2029
        || code == 0x202F || code == 0x205F || code == 0x3000
}

fn digit_char(d: usize) -> (c: char)
    requires
        d < 10,
    ensures
        c == digit(d as nat),
{
    let code: u8 = 48 + d as u8;
    code as char
}

/// Writes `n` in decimal digits behind `text`.
fn push_decimal(text: &mut Vec<char>, n: usize)
    ensures
        final(text)@ == old(text)@ + decimal(n as nat),
    decreases n,
{
    if n < 10 {
        text.push(digit_char(n));
        assert(text@ =~= old(text)@ + decimal(n as nat));
    } else {
        push_decimal(text, n / 10);
        text.push(digit_char(n % 10));
        assert(text@ =~= old(text)@ + decimal(n as nat));
    }
}

/// Writes what is written for the stack address with the number `index` behind
/// `text`.
fn push_cell(text: &mut Vec<char>, index: usize, label: &Vec<char>)
    ensures
        final(text)@ == old(text)@ + cell(index as nat, label@),
{
    let ghost digits = decimal(index as nat);
    if index < 10 {
        text.push(' ');
        text.push(' ');
        proof {
            assert(digits.len() == 1);
            assert(seq![' ', ' '] =~= Seq::new(2, |i: int| ' '));
        }
    } else if index < 100 {
        text.push(' ');
        proof {
            lemma_decimal_len(index as nat);
            assert(seq![' '] =~= Seq::new(1, |i: int| ' '));
        }
    } else {
        proof {
            lemma_decimal_len(index as nat);
        }
    }
    let ghost with_pad = text@;
    assert(with_pad + digits =~= old(text)@ + padded(digits, 3));
    push_decimal(text, index);
    text.push(':');
    text.push(' ');
    let ghost head = text@;
    assert(head =~= old(text)@ + padded(digits, 3) + seq![':', ' ']);
    let mut i: usize = 0;
    while i < label.len()
        invariant
            i <= label@.len(),
            text@ == head + label@.take(i as int),
        decreases label@.len() - i,
    {
        text.push(label[i]);
        assert(label@.take(i as int).push(label@[i as int]) =~= label@.take(i + 1));
        assert(text@ =~= head + label@.take(i + 1));
        i = i + 1;
    }
    assert(label@.take(label@.len() as int) =~= label@);
    text.push(' ');
    text.push(' ');
    text.push(' ');
    text.push(' ');
    assert(text@ =~= old(text)@ + cell(index as nat, label@));
}

/// Numbers below ten have one digit, numbers below a hundred two, all others
/// three or more.
proof fn lemma_decimal_len(n: nat)
    ensures
        n < 10 ==> decimal(n).len() == 1,
        10 <= n < 100 ==> decimal(n).len() == 2,
        n >= 100 ==> decimal(n).len() >= 3,
    decreases n,
{
    if n >= 10 {
        lemma_decimal_len(n / 10);
    }
}

/// Takes the white space off the end of `text`.
fn trim_text_end(text: &mut Vec<char>)
    ensures
        final(text)@ == trim_end(old(text)@),
{
    while text.len() > 0 && char_is_whitespace(text[text.len() - 1])
        invariant
            trim_end(text@) == trim_end(old(text)@),
        decreases text@.len(),
    {
        text.pop();
    }
}

/// The lines in which the stack addresses are written, three addresses to a
/// line, where `labels` gives each address as it is to be read.
pub fn backtrace_rows(labels: &Vec<Vec<char>>) -> (rows: Vec<Vec<char>>)
    ensures
        rows@.len() == row_count(labels@.len()),
        forall|r: int| 0 <= r < rows@.len() ==> (#[trigger] rows@[r])@ == row_text(texts(labels@), r),
{
    let mut rows: Vec<Vec<char>> = Vec::new();
    let mut start: usize = 0;
    while start < labels.len()
        invariant
            start <= labels@.len(),
            start == 3 * rows@.len() || start == labels@.len(),
            rows@.len() == row_count(start as nat),
            forall|r: int|
                0 <= r < rows@.len() ==> (#[trigger] rows@[r])@ == row_text(texts(labels@), r),
        decreases labels@.len() - start,
    {
        let end: usize = if labels.len() - start >= 3 {
            start + 3
        } else {
            labels.len()
        };
        let mut text: Vec<char> = Vec::new();
        let mut index: usize = start;
        while index < end
            invariant
                start <= index <= end <= labels@.len(),
                text@ == cells(texts(labels@), start as int, index as int),
            decreases end - index,
        {
            push_cell(&mut text, index, &labels[index]);
            assert(texts(labels@)[index as int] == labels@[index as int]@);
            index = index + 1;
        }
        trim_text_end(&mut text);
        let ghost done = rows@;
        rows.push(text);
        proof {
            assert forall|r: int| 0 <= r < rows@.len() implies (#[trigger] rows@[r])@ == row_text(
                texts(labels@),
                r,
            ) by {
                if r < done.len() {
                    assert(rows@[r] == done[r]);
                }
            }
        }
        start = end;
    }
    rows
}

/// The words above the stack addresses.
pub open spec fn backtrace_heading() -> Seq<char> {
    seq!['s', 't', 'a', 'c', 'k', ' ', 'b', 'a', 'c', 'k', 't', 'r', 'a', 'c', 'e', ':']
}

/// One line of text in the error box.
#[derive(Debug, PartialEq, Eq)]
pub struct ErrorLine {
    /// The number of the line, from 0 at the top.
    pub line: usize,
    /// What is written on the line.
    pub text: Vec<char>,
}

impl ErrorLine {
    /// The number of the line and what is written on it.
    pub open spec fn view(&self) -> (nat, Seq<char>) {
        (self.line as nat, self.text@)
    }
}

/// What is written in the error box, from top to bottom: the lines of the
/// message; after one line that is left empty, the heading of the stack
/// addresses; below it the stack addresses.
pub open spec fn error_text(message: Seq<char>, labels: Seq<Seq<char>>) -> Seq<(nat, Seq<char>)> {
    let lines = wrapped(message, Seq::empty(), true);
    let m = lines.len() as int;
    Seq::new(
        (m + 1 + row_count(labels.len())) as nat,
        |i: int|
            if i < m {
                (i as nat, lines[i])
            } else if i == m {
                ((m + 1) as nat, backtrace_heading())
            } else {
                ((i + 1) as nat, row_text(labels, i - m - 1))
            },
    )
}

/// The text of the error box for a failure with the message `message` and the
/// stack addresses `labels`, each line with its number. The lines are to be
/// written in the order given, each at its [`line_origin`], over the
/// [`error_box`]. The numbers of the lines must be countable: the message and the
/// addresses together are fewer than the largest number of the machine.
pub fn draw_error(message: &Vec<char>, labels: &Vec<Vec<char>>) -> (drawn: Vec<ErrorLine>)
    requires
        message@.len() + labels@.len() + 2 <= usize::MAX,
    ensures
        drawn@.map_values(|line: ErrorLine| line@) == error_text(message@, texts(labels@)),
{
    let mut lines = wrap_message(message);
    let rows = backtrace_rows(labels);
    let ghost wrapped_lines = wrapped(message@, Seq::empty(), true);
    let ghost expected = error_text(message@, texts(labels@));
    let m = lines.len();
    let mut drawn: Vec<ErrorLine> = Vec::new();
    let mut i: usize = 0;
    proof {
        assert(texts(lines@).len() == lines@.len());
        assert forall|k: int| 0 <= k < m implies (#[trigger] lines@[k])@ == wrapped_lines[k] by {
            assert(texts(lines@)[k] == lines@[k]@);
        }
    }
    while i < m
        invariant
            i <= m,
            m == lines@.len(),
            m == wrapped_lines.len(),
            forall|k: int| i <= k < m ==> (#[trigger] lines@[k])@ == wrapped_lines[k],
            drawn@.len() == i,
            forall|k: int| 0 <= k < i ==> (#[trigger] drawn@[k])@ == (k as nat, wrapped_lines[k]),
        decreases m - i,
    {
        let mut text: Vec<char> = Vec::new();
        std::mem::swap(&mut lines[i], &mut text);
        drawn.push(ErrorLine { line: i, text });
        i = i + 1;
    }
    let mut heading: Vec<char> = Vec::new();
    heading.push('s');
    heading.push('t');
    heading.push('a');
    heading.push('c');
    heading.push('k');
    heading.push(' ');
    heading.push('b');
    heading.push('a');
    heading.push('c');
    heading.push('k');
    heading.push('t');
    heading.push('r');
    heading.push('a');
    heading.push('c');
    heading.push('e');
    heading.push(':');
    assert(heading@ =~= backtrace_heading());
    drawn.push(ErrorLine { line: m + 1, text: heading });
    let mut rows = rows;
    let n = rows.len();
    let mut r: usize = 0;
    while r < n
        invariant
            r <= n,
            n == rows@.len(),
            n == row_count(labels@.len()),
            n <= labels@.len(),
            m == wrapped_lines.len(),
            m <= message@.len(),
            message@.len() + labels@.len() + 2 <= usize::MAX,
            drawn@.len() == m + 1 + r,
            forall|k: int| r <= k < n ==> (#[trigger] rows@[k])@ == row_text(texts(labels@), k),
            forall|k: int| 0 <= k < m ==> (#[trigger] drawn@[k])@ == (k as nat, wrapped_lines[k]),
            drawn@[m as int]@ == ((m + 1) as nat, backtrace_heading()),
            forall|k: int|
                m < k < m + 1 + r ==> (#[trigger] drawn@[k])@ == (
                    (k + 1) as nat,
                    row_text(texts(labels@), k - m - 1),
                ),
        decreases n - r,
    {
        let mut text: Vec<char> = Vec::new();
        std::mem::swap(&mut rows[r], &mut text);
        drawn.push(ErrorLine { line: m + 2 + r, text });
        r = r + 1;
    }
    proof {
        assert(drawn@.map_values(|line: ErrorLine| line@) =~= expected);
    }
    drawn
}

/// What of `chars` is written: everything but the control characters.
pub open spec fn written(chars: Seq<char>) -> Seq<char>
    decreases chars.len(),
{
    if chars.len() == 0 {
        Seq::empty()
    } else if is_control(chars[0]) {
        written(chars.drop_first())
    } else {
        seq![chars[0]] + written(chars.drop_first())
    }
}

/// Breaking a message into lines loses nothing and adds nothing: the lines, read
/// one after the other, are the message without its control characters.
pub proof fn lemma_wrapping_keeps_the_text(chars: Seq<char>, buffer: Seq<char>, first: bool)
    ensures
        wrapped(chars, buffer, first).flatten() == buffer + written(chars),
    decreases chars.len(),
{
    if chars.len() == 0 {
        if buffer.len() > 0 {
            let lines = seq![buffer];
            assert(lines.drop_first() =~= Seq::<Seq<char>>::empty());
            assert(lines.drop_first().flatten() =~= Seq::<char>::empty());
            assert(lines.flatten() =~= buffer);
        }
        assert(buffer + written(chars) =~= buffer);
        assert(wrapped(chars, buffer, first).flatten() =~= buffer);
    } else {
        let c = chars[0];
        let line = if is_control(c) {
            buffer
        } else {
            buffer.push(c)
        };
        let rest = chars.drop_first();
        assert(line + written(rest) =~= buffer + written(chars));
        if c == '\n' || (utf8_bytes(line) % 52 == 0 && !first) {
            lemma_wrapping_keeps_the_text(rest, Seq::empty(), false);
            let tail = wrapped(rest, Seq::empty(), false);
            let lines = seq![line] + tail;
            assert(lines.first() == line);
            assert(lines.drop_first() =~= tail);
            assert(Seq::<char>::empty() + written(rest) =~= written(rest));
        } else {
            lemma_wrapping_keeps_the_text(rest, line, false);
        }
    }
}

/// Whether `c` is a character of ASCII.
pub open spec fn is_ascii(c: char) -> bool {
    (c as u32) < 0x80
}

/// A message of ASCII characters is written in lines of 52 characters at most.
pub proof fn lemma_ascii_lines_are_short(chars: Seq<char>, buffer: Seq<char>, first: bool)
    requires
        forall|i: int| 0 <= i < chars.len() ==> is_ascii(#[trigger] chars[i]),
        forall|i: int| 0 <= i < buffer.len() ==> is_ascii(#[trigger] buffer[i]),
        buffer.len() < 52,
        first ==> buffer.len() == 0,
    ensures
        forall|i: int|
            0 <= i < wrapped(chars, buffer, first).len() ==> (#[trigger] wrapped(
                chars,
                buffer,
                first,
            )[i]).len() <= 52,
    decreases chars.len(),
{
    let lines = wrapped(chars, buffer, first);
    if chars.len() == 0 {
        assert forall|i: int| 0 <= i < lines.len() implies (#[trigger] lines[i]).len() <= 52 by {
            assert(lines[i] == buffer);
        }
    } else {
        let c = chars[0];
        let line = if is_control(c) {
            buffer
        } else {
            buffer.push(c)
        };
        let rest = chars.drop_first();
        assert forall|i: int| 0 <= i < line.len() implies is_ascii(#[trigger] line[i]) by {
            if i < buffer.len() {
                assert(line[i] == buffer[i]);
            } else {
                assert(line[i] == chars[0]);
            }
        }
        lemma_ascii_bytes(line);
        assert forall|i: int| 0 <= i < rest.len() implies is_ascii(#[trigger] rest[i]) by {
            assert(rest[i] == chars[i + 1]);
        }
        if c == '\n' || (utf8_bytes(line) % 52 == 0 && !first) {
            lemma_ascii_lines_are_short(rest, Seq::empty(), false);
            let tail = wrapped(rest, Seq::empty(), false);
            assert(lines == seq![line] + tail);
            assert forall|i: int| 0 <= i < lines.len() implies (#[trigger] lines[i]).len() <= 52 by {
                if i > 0 {
                    assert(lines[i] == tail[i - 1]);
                } else {
                    assert(lines[i] == line);
                }
            }
        } else {
            assert(line.len() < 52);
            lemma_ascii_lines_are_short(rest, line, false);
            assert(lines == wrapped(rest, line, false));
        }
    }
}

/// A text of ASCII characters takes one byte for each character.
proof fn lemma_ascii_bytes(text: Seq<char>)
    requires
        forall|i: int| 0 <= i < text.len() ==> is_ascii(#[trigger] text[i]),
    ensures
        utf8_bytes(text) == text.len(),
    decreases text.len(),
{
    if text.len() > 0 {
        let front = text.drop_last();
        assert forall|i: int| 0 <= i < front.len() implies is_ascii(#[trigger] front[i]) by {
            assert(front[i] == text[i]);
        }
        lemma_ascii_bytes(front);
        assert(is_ascii(text[text.len() - 1]));
    }
}

} // verus!
