//! Lines of a log file, and blank text.
use vstd::prelude::*;
use vstd::string::StrSliceExecFns;
use vstd::string::StringExecFns;

verus! {

/// The line feed byte.
pub const LINE_FEED: u8 = 10;

/// The carriage return byte.
pub const CARRIAGE_RETURN: u8 = 13;

/// Whether a character beyond ASCII has the Unicode `White_Space` property.
pub uninterp spec fn is_unicode_white(c: char) -> bool;

/// A blank, or one of the controls from the tab to the carriage return.
pub open spec fn is_ascii_white(c: char) -> bool {
    c == ' ' || (9 <= c as u32 && c as u32 <= 13)
}

/// Whether a character has the Unicode `White_Space` property.
pub open spec fn is_white(c: char) -> bool {
    if c as u32 <= 127 {
        is_ascii_white(c)
    } else {
        is_unicode_white(c)
    }
}

/// `char::is_whitespace` holds of the ASCII blank and of the controls from the
/// tab to the carriage return, and of no other ASCII character. Beyond ASCII it
/// depends on the character alone, and its result is named by
/// `is_unicode_white`; nothing is claimed of which of those characters it holds
/// for.
pub assume_specification[ char::is_whitespace ](c: char) -> (r: bool)
    ensures
        r == (if c as u32 <= 127 {
            is_ascii_white(c)
        } else {
            is_unicode_white(c)
        }),
;

/// Calls `std::str::from_utf8`: a byte string is accepted exactly if it is
/// valid UTF-8, and the text is what the bytes encode.
#[verifier::external_body]
pub(crate) fn text_of_bytes(bytes: &[u8]) -> (r: Option<&str>)
    ensures
        r is Some <==> vstd::utf8::valid_utf8(bytes@),
        r matches Some(text) ==> text@ == vstd::utf8::decode_utf8(bytes@),
{
    std::str::from_utf8(bytes).ok()
}

/// Only whitespace, or nothing at all.
pub open spec fn is_blank(text: Seq<char>) -> bool {
    forall|i: int| 0 <= i < text.len() ==> is_white(#[trigger] text[i])
}

/// Whether nothing is left of a text once whitespace is trimmed.
pub fn blank(text: &str) -> (r: bool)
    ensures
        r == is_blank(text@),
{
    let n: usize = text.unicode_len();
    let mut i: usize = 0;
    while i < n
        invariant
            n == text@.len(),
            i <= n,
            forall|k: int| 0 <= k < i ==> is_white(#[trigger] text@[k]),
        decreases n - i,
    {
        let c: char = text.get_char(i);
        if !c.is_whitespace() {
            assert(!is_white(text@[i as int]));
            return false;
        }
        i = i + 1;
    }
    true
}

/// A text begins with another.
pub open spec fn has_prefix(text: Seq<char>, prefix: Seq<char>) -> bool {
    prefix.len() <= text.len() && text.take(prefix.len() as int) == prefix
}

/// Whether a text begins with another.
pub fn begins_with(text: &str, prefix: &str) -> (r: bool)
    ensures
        r == has_prefix(text@, prefix@),
        r <==> prefix@.len() <= text@.len() && forall|i: int|
            0 <= i < prefix@.len() ==> text@[i] == #[trigger] prefix@[i],
{
    let n: usize = prefix.unicode_len();
    if n > text.unicode_len() {
        return false;
    }
    let head: &str = text.substring_char(0, n);
    assert(head@ =~= text@.take(n as int));
    proof {
        assert(forall|i: int| 0 <= i < n ==> head@[i] == text@[i]);
        if forall|i: int| 0 <= i < prefix@.len() ==> text@[i] == #[trigger] prefix@[i] {
            assert(head@ =~= prefix@);
        }
    }
    String::from_str(head) == String::from_str(prefix)
}

/// A text begins with its beginnings and with nothing else: it does with a
/// given one exactly if it is that one and some rest.
pub proof fn law_a_prefix_leaves_a_rest(text: Seq<char>, prefix: Seq<char>, rest: Seq<char>)
    ensures
        has_prefix(prefix + rest, prefix),
        has_prefix(text, prefix) ==> text == prefix + text.skip(prefix.len() as int),
{
    assert((prefix + rest).take(prefix.len() as int) =~= prefix);
    if has_prefix(text, prefix) {
        assert(text =~= text.take(prefix.len() as int) + text.skip(prefix.len() as int));
    }
}

/// The decimal digit of a number below ten.
pub open spec fn digit_text(d: nat) -> Seq<char> {
    "0123456789"@.subrange(d as int, d as int + 1)
}

/// A number in decimal.
pub open spec fn decimal_text(n: nat) -> Seq<char>
    decreases n,
{
    if n < 10 {
        digit_text(n)
    } else {
        decimal_text(n / 10) + digit_text(n % 10)
    }
}

/// A number in decimal.
pub fn decimal(n: u64) -> (r: String)
    ensures
        r@ == decimal_text(n as nat),
    decreases n,
{
    proof {
        reveal_strlit("0123456789");
    }
    let d: usize = (n % 10) as usize;
    let digit: &str = "0123456789".substring_char(d, d + 1);
    if n < 10 {
        String::from_str(digit)
    } else {
        let mut text: String = decimal(n / 10);
        text.append(digit);
        text
    }
}

/// The number that decimal digits stand for.
pub open spec fn number_read(digits: Seq<char>) -> nat
    decreases digits.len(),
{
    if digits.len() == 0 {
        0
    } else {
        (10 * number_read(digits.drop_last()) + (digits.last() as u32 - '0' as u32)) as nat
    }
}

/// A number's decimal text reads as that number: all of it is digits, and only
/// the text of zero begins with a zero.
pub proof fn law_a_decimal_text_reads_as_its_number(n: nat)
    ensures
        number_read(decimal_text(n)) == n,
        decimal_text(n).len() > 0,
        forall|i: int|
            0 <= i < decimal_text(n).len() ==> '0' as u32 <= #[trigger] decimal_text(n)[i] as u32
                && decimal_text(n)[i] as u32 <= '9' as u32,
        n > 0 ==> decimal_text(n)[0] != '0',
    decreases n,
{
    reveal_strlit("0123456789");
    let text = decimal_text(n);
    let d = n % 10;
    let digit = digit_text(d);
    assert(digit.len() == 1);
    assert(digit[0] as u32 - '0' as u32 == d);
    if n >= 10 {
        law_a_decimal_text_reads_as_its_number(n / 10);
        let head = decimal_text(n / 10);
        assert(text.drop_last() =~= head);
        assert(text.last() == digit[0]);
        assert(text[0] == head[0]);
        assert forall|i: int| 0 <= i < text.len() implies '0' as u32 <= #[trigger] text[i] as u32
            && text[i] as u32 <= '9' as u32 by {
            if i < head.len() {
                assert(text[i] == head[i]);
            } else {
                assert(text[i] == digit[0]);
            }
        }
    } else {
        assert(text == digit);
        assert(number_read(text.drop_last()) == 0);
    }
}

/// The first line feed at or behind `from`, or the end.
pub open spec fn line_end(bytes: Seq<u8>, from: int) -> int
    decreases bytes.len() - from,
{
    if from >= bytes.len() || bytes[from] == LINE_FEED {
        from
    } else {
        line_end(bytes, from + 1)
    }
}

/// The line from `from` up to its line feed at `end`: a carriage return right
/// before the line feed belongs to the line ending.
pub open spec fn line_between(bytes: Seq<u8>, from: int, end: int) -> Seq<u8> {
    if end < bytes.len() && from < end && bytes[end - 1] == CARRIAGE_RETURN {
        bytes.subrange(from, end - 1)
    } else {
        bytes.subrange(from, end)
    }
}

/// The lines from `from` on. Nothing follows a final line feed.
pub open spec fn lines_from(bytes: Seq<u8>, from: int) -> Seq<Seq<u8>>
    decreases bytes.len() - from + 1,
    when 0 <= from
    via lines_from_decreases
{
    if from >= bytes.len() {
        Seq::empty()
    } else {
        let end = line_end(bytes, from);
        seq![line_between(bytes, from, end)] + lines_from(bytes, end + 1)
    }
}

#[via_fn]
proof fn lines_from_decreases(bytes: Seq<u8>, from: int) {
    if from < bytes.len() {
        lemma_line_end(bytes, from);
    }
}

pub(crate) proof fn lemma_line_end(bytes: Seq<u8>, from: int)
    requires
        0 <= from <= bytes.len(),
    ensures
        from <= line_end(bytes, from) <= bytes.len(),
    decreases bytes.len() - from,
{
    if from < bytes.len() && bytes[from] != LINE_FEED {
        lemma_line_end(bytes, from + 1);
    }
}

/// Every line of a log is valid UTF-8.
pub open spec fn all_text(lines: Seq<Seq<u8>>) -> bool {
    forall|i: int| 0 <= i < lines.len() ==> vstd::utf8::valid_utf8(#[trigger] lines[i])
}

/// The lines of a log that are not blank, in order.
pub open spec fn written_lines(lines: Seq<Seq<u8>>) -> Seq<Seq<char>>
    decreases lines.len(),
{
    if lines.len() == 0 {
        Seq::empty()
    } else {
        let text = vstd::utf8::decode_utf8(lines.last());
        let before = written_lines(lines.drop_last());
        if is_blank(text) {
            before
        } else {
            before.push(text)
        }
    }
}

/// The lines of a log as character sequences.
pub open spec fn text_views(lines: Seq<String>) -> Seq<Seq<char>> {
    lines.map_values(|line: String| line@)
}

/// The lines of a log that are not blank, or `None` if a line is not UTF-8.
pub fn read_lines(bytes: &[u8]) -> (r: Option<Vec<String>>)
    ensures
        r is Some <==> all_text(lines_from(bytes@, 0)),
        r matches Some(lines) ==> text_views(lines@) == written_lines(lines_from(bytes@, 0)),
{
    let n: usize = bytes.len();
    let ghost all = lines_from(bytes@, 0);
    let ghost mut done: Seq<Seq<u8>> = Seq::empty();
    let mut lines: Vec<String> = Vec::new();
    let mut from: usize = 0;
    assert(all =~= done + lines_from(bytes@, from as int));
    while from < n
        invariant
            n == bytes@.len(),
            from <= n,
            all == lines_from(bytes@, 0),
            all == done + lines_from(bytes@, from as int),
            all_text(done),
            text_views(lines@) == written_lines(done),
        decreases n - from,
    {
        let mut end: usize = from;
        while end < n && bytes[end] != LINE_FEED
            invariant
                n == bytes@.len(),
                from <= end <= n,
                line_end(bytes@, from as int) == line_end(bytes@, end as int),
            decreases n - end,
        {
            end = end + 1;
        }
        assert(line_end(bytes@, from as int) == end);
        let stop: usize = if end < n && from < end && bytes[end - 1] == CARRIAGE_RETURN {
            end - 1
        } else {
            end
        };
        let line: &[u8] = vstd::slice::slice_subrange(bytes, from, stop);
        let ghost next = done.push(line@);
        proof {
            assert(line@ == line_between(bytes@, from as int, end as int));
            assert(all =~= next + lines_from(bytes@, end + 1));
            assert(next.drop_last() =~= done);
            assert(all[done.len() as int] == line@);
        }
        match text_of_bytes(line) {
            Some(text) => {
                if !blank(text) {
                    let ghost before = lines@;
                    lines.push(String::from_str(text));
                    assert(text_views(lines@) =~= text_views(before).push(text@));
                }
            },
            None => {
                return None;
            },
        }
        proof {
            assert(all_text(next)) by {
                assert forall|i: int| 0 <= i < next.len() implies vstd::utf8::valid_utf8(
                    #[trigger] next[i],
                ) by {
                    if i < done.len() {
                        assert(next[i] == done[i]);
                    }
                }
            }
            done = next;
        }
        if end >= n {
            assert(lines_from(bytes@, end + 1) =~= Seq::empty());
            assert(lines_from(bytes@, n as int) =~= Seq::empty());
            from = n;
        } else {
            from = end + 1;
        }
    }
    assert(all =~= done);
    Some(lines)
}

/// A log that ends in the middle of a line: it has bytes and its last one is
/// not a line feed.
pub open spec fn is_torn(bytes: Seq<u8>) -> bool {
    bytes.len() > 0 && bytes.last() != LINE_FEED
}

/// Whether a log ends in the middle of a line.
pub fn torn(bytes: &[u8]) -> (r: bool)
    ensures
        r == is_torn(bytes@),
{
    let n: usize = bytes.len();
    n > 0 && bytes[n - 1] != LINE_FEED
}

pub(crate) proof fn lemma_line_end_of_prefix(head: Seq<u8>, tail: Seq<u8>, from: int)
    requires
        !is_torn(head),
        0 <= from < head.len(),
    ensures
        line_end(head + tail, from) == line_end(head, from),
        line_end(head, from) < head.len(),
    decreases head.len() - from,
{
    assert((head + tail)[from] == head[from]);
    if head[from] != LINE_FEED {
        lemma_line_end_of_prefix(head, tail, from + 1);
    }
}

pub(crate) proof fn lemma_line_end_shifts(head: Seq<u8>, tail: Seq<u8>, from: int)
    requires
        0 <= from <= tail.len(),
    ensures
        line_end(head + tail, head.len() + from) == head.len() + line_end(tail, from),
    decreases tail.len() - from,
{
    if from < tail.len() {
        assert((head + tail)[head.len() + from] == tail[from]);
        if tail[from] != LINE_FEED {
            lemma_line_end_shifts(head, tail, from + 1);
        }
    }
}

proof fn lemma_lines_shift(head: Seq<u8>, tail: Seq<u8>, from: int)
    requires
        0 <= from,
    ensures
        lines_from(head + tail, head.len() + from) == lines_from(tail, from),
    decreases tail.len() - from + 1,
{
    if from < tail.len() {
        let whole = head + tail;
        let end = line_end(tail, from);
        lemma_line_end(tail, from);
        lemma_line_end_shifts(head, tail, from);
        assert(line_end(whole, head.len() + from) == head.len() + end);
        assert(line_between(whole, head.len() + from, head.len() + end) =~= line_between(
            tail,
            from,
            end,
        )) by {
            if from < end {
                assert(whole[head.len() + end - 1] == tail[end - 1]);
            }
        }
        lemma_lines_shift(head, tail, end + 1);
    }
}

/// Reading a log that does not end in the middle of a line, and then more:
/// the lines of the one are followed by the lines of the other.
pub proof fn law_lines_of_an_appended_log(head: Seq<u8>, tail: Seq<u8>, from: int)
    requires
        !is_torn(head),
        0 <= from <= head.len(),
    ensures
        lines_from(head + tail, from) == lines_from(head, from) + lines_from(tail, 0),
    decreases head.len() - from,
{
    let whole = head + tail;
    if from == head.len() {
        lemma_lines_shift(head, tail, 0);
        assert(lines_from(head, from) =~= Seq::empty());
    } else {
        lemma_line_end_of_prefix(head, tail, from);
        lemma_line_end(head, from);
        let end = line_end(head, from);
        assert(line_between(whole, from, end) =~= line_between(head, from, end)) by {
            if from < end {
                assert(whole[end - 1] == head[end - 1]);
            }
        }
        law_lines_of_an_appended_log(head, tail, end + 1);
        assert(lines_from(whole, from) =~= seq![line_between(whole, from, end)] + lines_from(
            whole,
            end + 1,
        ));
    }
}

pub(crate) proof fn lemma_one_line(line: Seq<u8>, from: int)
    requires
        0 <= from <= line.len(),
        forall|i: int| 0 <= i < line.len() ==> #[trigger] line[i] != LINE_FEED,
    ensures
        line_end(line.push(LINE_FEED), from) == line.len(),
    decreases line.len() - from,
{
    if from < line.len() {
        assert(line.push(LINE_FEED)[from] == line[from]);
        lemma_one_line(line, from + 1);
    }
}

/// A line that is appended to a log is read back behind the lines that were
/// there, and changes none of them. Left out are a log that ends in the middle
/// of a line, and a line that holds a line feed or ends in a carriage return.
pub proof fn law_an_appended_line_is_read_back(log: Seq<u8>, line: Seq<u8>)
    requires
        !is_torn(log),
        forall|i: int| 0 <= i < line.len() ==> #[trigger] line[i] != LINE_FEED,
        line.len() > 0 ==> line.last() != CARRIAGE_RETURN,
    ensures
        lines_from(log + line.push(LINE_FEED), 0) == lines_from(log, 0).push(line),
        !is_torn(log + line.push(LINE_FEED)),
{
    let one = line.push(LINE_FEED);
    law_lines_of_an_appended_log(log, one, 0);
    lemma_one_line(line, 0);
    if line.len() > 0 {
        assert(one[line.len() - 1] == line.last());
    }
    assert(line_between(one, 0, line.len() as int) =~= line);
    assert(lines_from(one, line.len() as int + 1) =~= Seq::empty());
    assert(lines_from(one, 0) =~= seq![line]);
    assert((log + one).last() == LINE_FEED);
}

/// A carriage return before the line feed belongs to the line ending: such a
/// line is read back without it.
pub proof fn law_a_carriage_return_ends_a_line(log: Seq<u8>, line: Seq<u8>)
    requires
        !is_torn(log),
        forall|i: int| 0 <= i < line.len() ==> #[trigger] line[i] != LINE_FEED,
    ensures
        lines_from(log + line.push(CARRIAGE_RETURN).push(LINE_FEED), 0) == lines_from(
            log,
            0,
        ).push(line),
{
    let long = line.push(CARRIAGE_RETURN);
    let one = long.push(LINE_FEED);
    law_lines_of_an_appended_log(log, one, 0);
    assert forall|i: int| 0 <= i < long.len() implies #[trigger] long[i] != LINE_FEED by {
        if i < line.len() {
            assert(long[i] == line[i]);
        }
    }
    lemma_one_line(long, 0);
    assert(line_between(one, 0, long.len() as int) =~= line);
    assert(lines_from(one, long.len() as int + 1) =~= Seq::empty());
    assert(lines_from(one, 0) =~= seq![line]);
}

proof fn lemma_no_line_ends(line: Seq<u8>, from: int)
    requires
        0 <= from <= line.len(),
        forall|i: int| 0 <= i < line.len() ==> #[trigger] line[i] != LINE_FEED,
    ensures
        line_end(line, from) == line.len(),
    decreases line.len() - from,
{
    if from < line.len() {
        lemma_no_line_ends(line, from + 1);
    }
}

/// What stands behind the last line feed is a line too, whole as it is; where
/// nothing stands there, there is no line.
pub proof fn law_an_unfinished_line_is_the_last(log: Seq<u8>, line: Seq<u8>)
    requires
        !is_torn(log),
        forall|i: int| 0 <= i < line.len() ==> #[trigger] line[i] != LINE_FEED,
    ensures
        lines_from(log + line, 0) == (if line.len() == 0 {
            lines_from(log, 0)
        } else {
            lines_from(log, 0).push(line)
        }),
        is_torn(log + line) <==> line.len() > 0,
{
    law_lines_of_an_appended_log(log, line, 0);
    if line.len() > 0 {
        lemma_no_line_ends(line, 0);
        assert(line_between(line, 0, line.len() as int) =~= line);
        assert(lines_from(line, line.len() as int + 1) =~= Seq::empty());
        assert(lines_from(line, 0) =~= seq![line]);
        assert((log + line).last() == line.last());
        assert(line[line.len() - 1] != LINE_FEED);
    } else {
        assert(log + line =~= log);
    }
}

/// Every line that is not blank is kept, in its place, and every blank one is
/// passed over.
pub proof fn law_only_blank_lines_are_passed_over(head: Seq<Seq<u8>>, tail: Seq<Seq<u8>>, line: Seq<u8>)
    ensures
        written_lines(head + tail) == written_lines(head) + written_lines(tail),
        written_lines(seq![line]) == (if is_blank(vstd::utf8::decode_utf8(line)) {
            Seq::<Seq<char>>::empty()
        } else {
            seq![vstd::utf8::decode_utf8(line)]
        }),
    decreases tail.len(),
{
    assert(seq![line].drop_last() =~= Seq::<Seq<u8>>::empty());
    assert(written_lines(seq![line].drop_last()) =~= Seq::<Seq<char>>::empty());
    if tail.len() == 0 {
        assert(head + tail =~= head);
        assert(written_lines(tail) =~= Seq::<Seq<char>>::empty());
    } else {
        law_only_blank_lines_are_passed_over(head, tail.drop_last(), line);
        assert((head + tail).drop_last() =~= head + tail.drop_last());
        assert((head + tail).last() == tail.last());
        assert(written_lines(head + tail) =~= written_lines(head) + written_lines(tail));
    }
    assert(written_lines(seq![line]) =~= if is_blank(vstd::utf8::decode_utf8(line)) {
        Seq::<Seq<char>>::empty()
    } else {
        seq![vstd::utf8::decode_utf8(line)]
    });
}

pub(crate) proof fn lemma_encode_concat(a: Seq<char>, b: Seq<char>)
    ensures
        vstd::utf8::encode_utf8(a + b) == vstd::utf8::encode_utf8(a) + vstd::utf8::encode_utf8(b),
    decreases a.len(),
{
    if a.len() == 0 {
        assert(a + b =~= b);
        assert(vstd::utf8::encode_utf8(a) + vstd::utf8::encode_utf8(b)
            =~= vstd::utf8::encode_utf8(b));
    } else {
        assert((a + b).drop_first() =~= a.drop_first() + b);
        lemma_encode_concat(a.drop_first(), b);
        assert(vstd::utf8::encode_utf8(a + b) =~= vstd::utf8::encode_utf8(a)
            + vstd::utf8::encode_utf8(b));
    }
}

proof fn lemma_scalar_has_no_line_feed(v: u32)
    requires
        vstd::utf8::is_scalar(v),
        v != 10,
    ensures
        forall|i: int|
            0 <= i < vstd::utf8::encode_scalar(v).len() ==> #[trigger] vstd::utf8::encode_scalar(
                v,
            )[i] != LINE_FEED,
{
    assert(v <= 0x7F && v != 10 ==> (v & 0x7F) as u8 != 10) by (bit_vector);
    assert(0xC0 | ((v >> 6) & 0x1F) as u8 != 10) by (bit_vector);
    assert(0xE0 | ((v >> 12) & 0x0F) as u8 != 10) by (bit_vector);
    assert(0xF0 | ((v >> 18) & 0x7) as u8 != 10) by (bit_vector);
    assert(0x80 | (v & 0x3F) as u8 != 10) by (bit_vector);
    assert(0x80 | ((v >> 6) & 0x3F) as u8 != 10) by (bit_vector);
    assert(0x80 | ((v >> 12) & 0x3F) as u8 != 10) by (bit_vector);
}

pub(crate) proof fn lemma_encoded_line_has_no_line_feed(line: Seq<char>)
    requires
        forall|i: int| 0 <= i < line.len() ==> #[trigger] line[i] != '\n',
    ensures
        forall|i: int|
            0 <= i < vstd::utf8::encode_utf8(line).len() ==> #[trigger] vstd::utf8::encode_utf8(
                line,
            )[i] != LINE_FEED,
    decreases line.len(),
{
    if line.len() > 0 {
        let rest = line.drop_first();
        let first = vstd::utf8::encode_scalar(line[0] as u32);
        vstd::utf8::char_is_scalar(line[0]);
        assert(line[0] != '\n');
        if line[0] as u32 == 10 {
            assert('\n' as u32 == 10);
            vstd::utf8::char_u32_cast(line[0], 10);
            vstd::utf8::char_u32_cast('\n', 10);
        }
        lemma_scalar_has_no_line_feed(line[0] as u32);
        lemma_encoded_line_has_no_line_feed(rest);
        let all = vstd::utf8::encode_utf8(line);
        assert forall|i: int| 0 <= i < all.len() implies #[trigger] all[i] != LINE_FEED by {
            if i < first.len() {
                assert(all[i] == first[i]);
            } else {
                assert(all[i] == vstd::utf8::encode_utf8(rest)[i - first.len()]);
            }
        }
    }
}

pub(crate) proof fn lemma_encoded_line_feed()
    ensures
        vstd::utf8::encode_utf8("\n"@) == seq![LINE_FEED],
{
    reveal_strlit("\n");
    let s = "\n"@;
    assert(s =~= seq!['\n']);
    assert(s.drop_first() =~= Seq::<char>::empty());
    reveal_with_fuel(vstd::utf8::encode_utf8, 2);
    assert((10u32 & 0x7F) as u8 == 10) by (bit_vector);
    assert(vstd::utf8::encode_utf8(s) =~= seq![LINE_FEED]);
}

} // verus!
