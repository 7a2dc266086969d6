//! Hex-and-ASCII rendering of a chunk of bytes.
//!
//! A chunk is shown in windows of sixteen bytes, one line per window. A line
//! holds the caller's label, the window's offset within the chunk, the bytes
//! in hexadecimal and the same bytes as printable characters.

use vstd::prelude::*;
use vstd::slice::slice_subrange;

verus! {

/// The number of bytes that one line of a dump shows.
pub const WINDOW: usize = 16;

/// The lower-case hexadecimal digit for a value below sixteen.
pub open spec fn hex_digit(value: nat) -> char {
    if value < 10 {
        (('0' as nat) + value) as char
    } else {
        (('a' as nat) + value - 10) as char
    }
}

/// The two hexadecimal digits of a byte, the high one first.
pub open spec fn hex_byte(byte: u8) -> Seq<char> {
    seq![hex_digit(byte as nat / 16), hex_digit(byte as nat % 16)]
}

/// A number in hexadecimal, with as many digits as it needs and at least one.
pub open spec fn hex_numeral(value: nat) -> Seq<char>
    decreases value,
{
    if value < 16 {
        seq![hex_digit(value)]
    } else {
        hex_numeral(value / 16).push(hex_digit(value % 16))
    }
}

/// A run of `count` spaces.
pub open spec fn spaces(count: nat) -> Seq<char> {
    Seq::new(count, |i: int| ' ')
}

/// An offset as a line shows it: in hexadecimal, filled with zeros on the
/// left to four digits, and longer where four digits do not hold it.
pub open spec fn hex_offset(offset: nat) -> Seq<char> {
    let digits = hex_numeral(offset);
    if digits.len() < 4 {
        Seq::new((4 - digits.len()) as nat, |i: int| '0') + digits
    } else {
        digits
    }
}

/// What one byte adds to the hex column: its two digits and a space, and one
/// space more behind the eighth byte of a window, which parts the window in
/// two groups of eight.
pub open spec fn hex_cell(index: int, byte: u8) -> Seq<char> {
    if index == 7 {
        hex_byte(byte) + seq![' ', ' ']
    } else {
        hex_byte(byte) + seq![' ']
    }
}

/// The hex column of a window: the cells of its bytes, in order.
pub open spec fn hex_column(window: Seq<u8>) -> Seq<char>
    decreases window.len(),
{
    if window.len() == 0 {
        Seq::empty()
    } else {
        hex_column(window.drop_last()) + hex_cell(window.len() - 1, window.last())
    }
}

/// What follows the hex column of a window of `count` bytes: three spaces
/// for each byte that the window lacks to sixteen, and, where it has eight
/// bytes or fewer, one space more.
pub open spec fn padding(count: nat) -> Seq<char> {
    if count >= 16 {
        Seq::empty()
    } else if count <= 8 {
        spaces((3 * (16 - count) + 1) as nat)
    } else {
        spaces((3 * (16 - count)) as nat)
    }
}

/// A byte as the character column shows it: itself where it is printable
/// ASCII (32 to 126), a dot otherwise.
pub open spec fn ascii_char(byte: u8) -> char {
    if 32 <= byte <= 126 {
        byte as char
    } else {
        '.'
    }
}

/// The character column of a window: one character for each byte.
pub open spec fn ascii_column(window: Seq<u8>) -> Seq<char> {
    Seq::new(window.len(), |i: int| ascii_char(window[i]))
}

/// One line of a dump: the label, the offset and two spaces, the hex column
/// and its padding, then the character column between two bars, and a
/// newline.
pub open spec fn dump_line(prefix: Seq<char>, offset: nat, window: Seq<u8>) -> Seq<char> {
    prefix + hex_offset(offset) + seq![' ', ' '] + hex_column(window) + padding(window.len())
        + seq![' ', '|'] + ascii_column(window) + seq!['|', '\n']
}

/// The number of lines in the dump of `len` bytes: one for each window of
/// sixteen bytes that was begun.
pub open spec fn line_count(len: nat) -> nat {
    (len + 15) / 16
}

/// The `index`-th window of `data`: sixteen bytes from `16 * index` on, or
/// as many as are left.
pub open spec fn window(data: Seq<u8>, index: int) -> Seq<u8> {
    data.subrange(16 * index, if 16 * index + 16 <= data.len() {
        16 * index + 16
    } else {
        data.len() as int
    })
}

/// The lines of the dump of `data`, each under the label `prefix`. Offsets
/// count from the start of `data`.
pub open spec fn dump_lines(data: Seq<u8>, prefix: Seq<char>) -> Seq<Seq<char>> {
    Seq::new(
        line_count(data.len()),
        |index: int| dump_line(prefix, (16 * index) as nat, window(data, index)),
    )
}

/// The dump of `data`: its lines, one after the other.
pub open spec fn hex_dump(data: Seq<u8>, prefix: Seq<char>) -> Seq<char> {
    dump_lines(data, prefix).flatten()
}

/// How many newlines `text` holds.
pub open spec fn newlines(text: Seq<char>) -> nat
    decreases text.len(),
{
    if text.len() == 0 {
        0
    } else if text.last() == '\n' {
        newlines(text.drop_last()) + 1
    } else {
        newlines(text.drop_last())
    }
}

/// Renders a value below sixteen as its lower-case hexadecimal digit.
fn hex_digit_of(value: u8) -> (digit: char)
    requires
        value < 16,
    ensures
        digit == hex_digit(value as nat),
{
    if value < 10 {
        (0x30u8 + value) as char
    } else {
        (0x61u8 + (value - 10)) as char
    }
}

/// Appends the two hexadecimal digits of `byte`.
fn push_hex_byte(out: &mut String, byte: u8)
    ensures
        final(out)@ == old(out)@ + hex_byte(byte),
{
    out.push(hex_digit_of(byte / 16));
    out.push(hex_digit_of(byte % 16));
}

/// Appends `value` in hexadecimal, without leading zeros.
fn push_hex_numeral(out: &mut String, value: usize)
    ensures
        final(out)@ == old(out)@ + hex_numeral(value as nat),
    decreases value,
{
    if value >= 16 {
        push_hex_numeral(out, value / 16);
    }
    out.push(hex_digit_of((value % 16) as u8));
}

/// How many digits `hex_numeral` gives a number, by its size.
proof fn lemma_short_numerals(value: nat)
    ensures
        value < 0x10 ==> hex_numeral(value).len() == 1,
        0x10 <= value < 0x100 ==> hex_numeral(value).len() == 2,
        0x100 <= value < 0x1000 ==> hex_numeral(value).len() == 3,
        0x1000 <= value ==> hex_numeral(value).len() >= 4,
    decreases value,
{
    if value >= 16 {
        lemma_short_numerals(value / 16);
    }
}

/// Appends `offset` as a line shows it.
fn push_hex_offset(out: &mut String, offset: usize)
    ensures
        final(out)@ == old(out)@ + hex_offset(offset as nat),
{
    proof {
        lemma_short_numerals(offset as nat);
    }
    if offset < 0x1000 {
        out.push('0');
    }
    if offset < 0x100 {
        out.push('0');
    }
    if offset < 0x10 {
        out.push('0');
    }
    push_hex_numeral(out, offset);
}

/// Appends the hex column of `window`.
fn push_hex_column(out: &mut String, window: &[u8])
    ensures
        final(out)@ == old(out)@ + hex_column(window@),
{
    let mut i: usize = 0;
    while i < window.len()
        invariant
            i <= window.len(),
            out@ == old(out)@ + hex_column(window@.take(i as int)),
        decreases window.len() - i,
    {
        proof {
            assert(window@.take(i + 1).drop_last() == window@.take(i as int));
        }
        push_hex_byte(out, window[i]);
        out.push(' ');
        if i == 7 {
            out.push(' ');
        }
        i += 1;
    }
    proof {
        assert(window@.take(window@.len() as int) == window@);
    }
}

/// Appends the padding behind the hex column of a window of `count` bytes.
fn push_padding(out: &mut String, count: usize)
    ensures
        final(out)@ == old(out)@ + padding(count as nat),
{
    if count < WINDOW {
        let missing: usize = WINDOW - count;
        let mut k: usize = 0;
        while k < missing
            invariant
                k <= missing,
                out@ == old(out)@ + spaces((3 * k) as nat),
            decreases missing - k,
        {
            proof {
                reveal_strlit("   ");
            }
            out.append("   ");
            k += 1;
        }
        if count <= 8 {
            out.push(' ');
        }
    }
}

/// Appends the character column of `window`.
fn push_ascii_column(out: &mut String, window: &[u8])
    ensures
        final(out)@ == old(out)@ + ascii_column(window@),
{
    let mut i: usize = 0;
    while i < window.len()
        invariant
            i <= window.len(),
            out@ == old(out)@ + ascii_column(window@.take(i as int)),
        decreases window.len() - i,
    {
        let byte: u8 = window[i];
        if byte >= 32 && byte <= 126 {
            out.push(byte as char);
        } else {
            out.push('.');
        }
        i += 1;
    }
}

/// Appends the line that shows `window`, which stands `offset` bytes into
/// its chunk.
fn push_line(out: &mut String, prefix: &str, offset: usize, window: &[u8])
    ensures
        final(out)@ == old(out)@ + dump_line(prefix@, offset as nat, window@),
{
    proof {
        reveal_strlit("  ");
        reveal_strlit(" |");
        reveal_strlit("|\n");
    }
    out.append(prefix);
    push_hex_offset(out, offset);
    out.append("  ");
    push_hex_column(out, window);
    push_padding(out, window.len());
    out.append(" |");
    push_ascii_column(out, window);
    out.append("|\n");
}

/// Renders `data` as a hex-and-ASCII dump, each line under the label
/// `prefix`: one line for every sixteen bytes, the last one shorter where
/// the length is no multiple of sixteen. Offsets count from the start of
/// `data`. Of no bytes the dump is empty.
pub fn format_hex_dump(data: &[u8], prefix: &str) -> (text: String)
    ensures
        text@ == hex_dump(data@, prefix@),
{
    let mut result = String::new();
    let mut offset: usize = 0;
    while offset < data.len()
        invariant
            offset <= data.len(),
            offset % 16 == 0 || offset == data.len(),
            result@ == dump_lines(data@, prefix@).take(line_count(offset as nat) as int).flatten(),
        decreases data.len() - offset,
    {
        let chunk_size: usize = if data.len() - offset < WINDOW {
            data.len() - offset
        } else {
            WINDOW
        };
        let chunk = slice_subrange(data, offset, offset + chunk_size);
        proof {
            // The window at hand is the next line's: that line joins those
            // already rendered.
            let lines = dump_lines(data@, prefix@);
            let done = line_count(offset as nat) as int;
            assert(16 * done == offset);
            assert(chunk@ == window(data@, done));
            assert(lines.take(done + 1) == lines.take(done).push(lines[done]));
            lines.take(done).lemma_flatten_push(lines[done]);
        }
        push_line(&mut result, prefix, offset, chunk);
        offset += chunk_size;
    }
    proof {
        let lines = dump_lines(data@, prefix@);
        assert(lines.take(lines.len() as int) == lines);
    }
    result
}

/// The width of a hex column: three characters for each byte, and one more
/// once the window holds eight bytes.
pub proof fn lemma_hex_column_len(window: Seq<u8>)
    ensures
        hex_column(window).len() == 3 * window.len() + if window.len() >= 8 {
            1nat
        } else {
            0nat
        },
    decreases window.len(),
{
    if window.len() > 0 {
        lemma_hex_column_len(window.drop_last());
    }
}

/// The hex column and its padding together are 49 characters wide for every
/// window of up to sixteen bytes but one: behind exactly eight bytes stand
/// both the space that parts the groups and the space that makes up for it,
/// which gives 50.
pub proof fn lemma_hex_width(window: Seq<u8>)
    requires
        window.len() <= 16,
    ensures
        (hex_column(window) + padding(window.len())).len() == if window.len() == 8 {
            50nat
        } else {
            49nat
        },
{
    lemma_hex_column_len(window);
}

/// The shape of a dump. It is its lines, one after the other, and has one
/// line for each window of sixteen bytes that was begun: as many as the
/// length divided by sixteen, rounded up. The `index`-th line shows the
/// bytes from `16 * index` on, at that offset, and its character column
/// holds one character for each of them: sixteen, or as many as are left.
pub proof fn lemma_dump_shape(data: Seq<u8>, prefix: Seq<char>)
    ensures
        hex_dump(data, prefix) == dump_lines(data, prefix).flatten(),
        dump_lines(data, prefix).len() == line_count(data.len()),
        16 * (line_count(data.len()) - 1) < data.len() <= 16 * line_count(data.len()),
        forall|index: int|
            0 <= index < line_count(data.len()) ==> {
                let line = #[trigger] dump_lines(data, prefix)[index];
                let shown = window(data, index);
                &&& line == prefix + hex_offset((16 * index) as nat) + seq![' ', ' '] + hex_column(
                    shown,
                ) + padding(shown.len()) + seq![' ', '|'] + ascii_column(shown) + seq!['|', '\n']
                &&& shown == data.subrange(16 * index, 16 * index + shown.len())
                &&& shown.len() == if data.len() - 16 * index < 16 {
                    data.len() - 16 * index
                } else {
                    16
                }
                &&& 1 <= shown.len() <= 16
                &&& ascii_column(shown).len() == shown.len()
            },
{
}

/// An offset below 0x10000 takes exactly four digits.
pub proof fn lemma_hex_offset_len(offset: nat)
    ensures
        offset < 0x10000 ==> hex_offset(offset).len() == 4,
        hex_offset(offset).len() >= 4,
        hex_offset(0) == seq!['0', '0', '0', '0'],
{
    lemma_short_numerals(offset);
    if 0x1000 <= offset < 0x10000 {
        lemma_short_numerals(offset / 16);
    }
}

/// The dump of no bytes is empty.
pub proof fn lemma_dump_of_nothing(prefix: Seq<char>)
    ensures
        hex_dump(Seq::<u8>::empty(), prefix) == Seq::<char>::empty(),
{
}

/// The dump of up to sixteen bytes, and of at least one, is the single line
/// of those bytes at offset zero.
pub proof fn lemma_dump_of_one_window(data: Seq<u8>, prefix: Seq<char>)
    requires
        1 <= data.len() <= 16,
    ensures
        hex_dump(data, prefix) == dump_line(prefix, 0, data),
{
    let lines = dump_lines(data, prefix);
    assert(window(data, 0) == data);
    lines.lemma_flatten_one_element();
}

/// A chunk of exactly sixteen bytes gives one line without padding: behind
/// the hex column follow at once the space and the bar of the character
/// column.
pub proof fn lemma_dump_of_full_window(data: Seq<u8>, prefix: Seq<char>)
    requires
        data.len() == 16,
    ensures
        padding(data.len()) == Seq::<char>::empty(),
        hex_dump(data, prefix) == prefix + seq!['0', '0', '0', '0', ' ', ' '] + hex_column(data)
            + seq![' ', '|'] + ascii_column(data) + seq!['|', '\n'],
{
    lemma_dump_of_one_window(data, prefix);
    lemma_hex_offset_len(0);
}

/// A chunk of one byte gives one line whose hex column holds that byte and
/// whose padding stands for the fifteen bytes that are missing, three spaces
/// each, and one space more: 46 spaces.
pub proof fn lemma_dump_of_single_byte(byte: u8, prefix: Seq<char>)
    ensures
        padding(1) == spaces(46),
        hex_dump(seq![byte], prefix) == prefix + seq!['0', '0', '0', '0', ' ', ' '] + hex_byte(byte)
            + seq![' '] + spaces(46) + seq![' ', '|', ascii_char(byte), '|', '\n'],
{
    let data = seq![byte];
    lemma_dump_of_one_window(data, prefix);
    lemma_hex_offset_len(0);
    assert(hex_column(data.drop_last()) == Seq::<char>::empty());
}

/// A dump is made of whole lines: every line ends with a bar and a newline,
/// and so does the dump of at least one byte.
pub proof fn lemma_dump_is_whole_lines(data: Seq<u8>, prefix: Seq<char>)
    ensures
        forall|index: int|
            0 <= index < line_count(data.len()) ==> (#[trigger] dump_lines(data, prefix)[index]).last()
                == '\n',
        data.len() > 0 ==> hex_dump(data, prefix).len() >= 2 && hex_dump(data, prefix).last() == '\n'
            && hex_dump(data, prefix)[hex_dump(data, prefix).len() - 2] == '|',
{
    let lines = dump_lines(data, prefix);
    if data.len() > 0 {
        let tail = lines.last();
        assert(lines == lines.drop_last().push(tail));
        lines.drop_last().lemma_flatten_push(tail);
    }
}

/// The newlines of two texts joined are those of the one and of the other.
proof fn lemma_newlines_add(left: Seq<char>, right: Seq<char>)
    ensures
        newlines(left + right) == newlines(left) + newlines(right),
    decreases right.len(),
{
    if right.len() > 0 {
        lemma_newlines_add(left, right.drop_last());
        assert((left + right).drop_last() == left + right.drop_last());
    }
}

/// A text without a newline at any place holds none.
proof fn lemma_newlines_none(text: Seq<char>)
    requires
        forall|i: int| 0 <= i < text.len() ==> text[i] != '\n',
    ensures
        newlines(text) == 0,
    decreases text.len(),
{
    if text.len() > 0 {
        lemma_newlines_none(text.drop_last());
    }
}

/// No numeral holds a newline.
proof fn lemma_numeral_is_plain(value: nat)
    ensures
        forall|i: int| 0 <= i < hex_numeral(value).len() ==> hex_numeral(value)[i] != '\n',
    decreases value,
{
    if value >= 16 {
        lemma_numeral_is_plain(value / 16);
        let high = hex_numeral(value / 16);
        assert forall|i: int| 0 <= i < hex_numeral(value).len() implies hex_numeral(value)[i]
            != '\n' by {
            if i < high.len() {
                assert(hex_numeral(value)[i] == high[i]);
            }
        }
    }
}

/// No hex column holds a newline.
proof fn lemma_hex_column_is_plain(window: Seq<u8>)
    ensures
        forall|i: int| 0 <= i < hex_column(window).len() ==> hex_column(window)[i] != '\n',
    decreases window.len(),
{
    if window.len() > 0 {
        lemma_hex_column_is_plain(window.drop_last());
        let before = hex_column(window.drop_last());
        let cell = hex_cell(window.len() - 1, window.last());
        assert forall|i: int| 0 <= i < hex_column(window).len() implies hex_column(window)[i]
            != '\n' by {
            if i < before.len() {
                assert(hex_column(window)[i] == before[i]);
            } else {
                assert(hex_column(window)[i] == cell[i - before.len()]);
            }
        }
    }
}

/// A line holds one newline more than its label.
proof fn lemma_newlines_of_line(prefix: Seq<char>, offset: nat, window: Seq<u8>)
    ensures
        newlines(dump_line(prefix, offset, window)) == newlines(prefix) + 1,
{
    let number = hex_offset(offset);
    let gap = seq![' ', ' '];
    let hex = hex_column(window);
    let pad = padding(window.len());
    let open = seq![' ', '|'];
    let text = ascii_column(window);
    let close = seq!['|'];
    lemma_numeral_is_plain(offset);
    lemma_hex_column_is_plain(window);
    lemma_newlines_none(number);
    lemma_newlines_none(gap);
    lemma_newlines_none(hex);
    lemma_newlines_none(pad);
    lemma_newlines_none(open);
    lemma_newlines_none(text);
    lemma_newlines_none(close);
    lemma_newlines_add(prefix, number);
    lemma_newlines_add(prefix + number, gap);
    lemma_newlines_add(prefix + number + gap, hex);
    lemma_newlines_add(prefix + number + gap + hex, pad);
    lemma_newlines_add(prefix + number + gap + hex + pad, open);
    lemma_newlines_add(prefix + number + gap + hex + pad + open, text);
    lemma_newlines_add(prefix + number + gap + hex + pad + open + text, close);
    let body = prefix + number + gap + hex + pad + open + text + close;
    assert(dump_line(prefix, offset, window) == body.push('\n'));
    assert(body.push('\n').drop_last() == body);
}

/// The first `count` lines of a dump hold `count` newlines, where the label
/// holds none.
proof fn lemma_newlines_of_lines(data: Seq<u8>, prefix: Seq<char>, count: nat)
    requires
        newlines(prefix) == 0,
        count <= line_count(data.len()),
    ensures
        newlines(dump_lines(data, prefix).take(count as int).flatten()) == count,
    decreases count,
{
    let lines = dump_lines(data, prefix);
    if count > 0 {
        let before = (count - 1) as nat;
        lemma_newlines_of_lines(data, prefix, before);
        assert(lines.take(count as int) == lines.take(before as int).push(lines[before as int]));
        lines.take(before as int).lemma_flatten_push(lines[before as int]);
        lemma_newlines_of_line(prefix, (16 * before) as nat, window(data, before as int));
        lemma_newlines_add(lines.take(before as int).flatten(), lines[before as int]);
    }
}

/// A dump has as many lines as it has newlines. Under a label that holds no
/// newline, the text of a dump holds one newline for each window of sixteen
/// bytes that was begun, and the newline of a line is its last character.
pub proof fn lemma_dump_line_breaks(data: Seq<u8>, prefix: Seq<char>)
    requires
        newlines(prefix) == 0,
    ensures
        newlines(hex_dump(data, prefix)) == line_count(data.len()),
        newlines(hex_dump(data, prefix)) == (data.len() + 15) / 16,
        forall|index: int|
            0 <= index < line_count(data.len()) ==> newlines(
                #[trigger] dump_lines(data, prefix)[index],
            ) == 1 && dump_lines(data, prefix)[index].last() == '\n',
{
    let lines = dump_lines(data, prefix);
    lemma_newlines_of_lines(data, prefix, line_count(data.len()));
    assert(lines.take(lines.len() as int) == lines);
    assert forall|index: int| 0 <= index < line_count(data.len()) implies newlines(
        #[trigger] lines[index],
    ) == 1 && lines[index].last() == '\n' by {
        lemma_newlines_of_line(prefix, (16 * index) as nat, window(data, index));
    }
}

} // verus!
