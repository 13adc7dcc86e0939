//! Framing of the probe's raw output: lossy text decoding, removal of padding,
//! and the choice of the line that carries the reading.

use crate::reading::{ParseError, TemperatureReading};
use vstd::prelude::*;
use vstd::string::*;
use vstd::utf8::*;

verus! {

/// The text that the standard library's lossy UTF-8 decoder yields for `bytes`:
/// invalid sequences become U+FFFD, everything else is decoded as it stands.
pub uninterp spec fn lossy_text(bytes: Seq<u8>) -> Seq<char>;

/// Calls `String::from_utf8_lossy`. The result is a function of the bytes
/// alone; on valid UTF-8 it is the plain decoding of the bytes.
#[verifier::external_body]
fn decode_lossy(data: &Vec<u8>) -> (text: String)
    ensures
        text@ == lossy_text(data@),
        valid_utf8(data@) ==> text@ == decode_utf8(data@),
{
    String::from_utf8_lossy(data).into_owned()
}

/// NUL, carriage return and line feed surround a frame and carry nothing.
pub open spec fn is_padding(c: char) -> bool {
    c == '\0' || c == '\r' || c == '\n'
}

/// `s` without its leading padding.
pub open spec fn trim_start(s: Seq<char>) -> Seq<char>
    decreases s.len(),
{
    if s.len() > 0 && is_padding(s[0]) {
        trim_start(s.drop_first())
    } else {
        s
    }
}

/// `s` without its trailing padding.
pub open spec fn trim_end(s: Seq<char>) -> Seq<char>
    decreases s.len(),
{
    if s.len() > 0 && is_padding(s.last()) {
        trim_end(s.drop_last())
    } else {
        s
    }
}

/// `s` without padding at either end.
pub open spec fn trimmed(s: Seq<char>) -> Seq<char> {
    trim_end(trim_start(s))
}

/// Position of the first carriage return that a line feed follows, or
/// `s.len()` where there is none.
pub open spec fn line_break_offset(s: Seq<char>) -> nat
    decreases s.len(),
{
    if s.len() < 2 {
        s.len()
    } else if s[0] == '\r' && s[1] == '\n' {
        0
    } else {
        1 + line_break_offset(s.drop_first())
    }
}

/// The pieces of `s` between its line breaks, in order. There is always at
/// least one piece; a text without a line break is its own single piece.
pub open spec fn segments(s: Seq<char>) -> Seq<Seq<char>>
    decreases s.len(),
{
    let at = line_break_offset(s);
    if at + 2 <= s.len() {
        seq![s.subrange(0, at as int)] + segments(s.subrange((at + 2) as int, s.len() as int))
    } else {
        seq![s]
    }
}

/// The part of a trimmed text that carries the reading: its second segment
/// where it has one, else the whole text.
pub open spec fn payload_of(t: Seq<char>) -> Seq<char> {
    let parts = segments(t);
    if parts.len() >= 2 {
        parts[1]
    } else {
        t
    }
}

/// The text of bytes that are all below 128.
pub open spec fn ascii_text(bytes: Seq<u8>) -> Seq<char> {
    Seq::new(bytes.len(), |i: int| bytes[i] as char)
}

/// A buffer that holds nothing but NUL bytes, as an untouched read buffer does.
pub open spec fn is_blank(bytes: Seq<u8>) -> bool {
    forall|i: int| 0 <= i < bytes.len() ==> bytes[i] == 0
}

/// Whether `payload` is what one raw read of `bytes` frames: the payload of
/// the trimmed lossy text. Where the bytes are valid UTF-8 that text is their
/// plain decoding, and a blank buffer frames nothing at all.
pub open spec fn frames(bytes: Seq<u8>, payload: Seq<char>) -> bool {
    &&& payload == payload_of(trimmed(lossy_text(bytes)))
    &&& valid_utf8(bytes) ==> payload == payload_of(trimmed(decode_utf8(bytes)))
    &&& is_blank(bytes) ==> payload.len() == 0
}

/// Whether a carriage return stands at `i` with a line feed right after it.
pub open spec fn line_break_at(s: Seq<char>, i: int) -> bool {
    0 <= i && i + 1 < s.len() && s[i] == '\r' && s[i + 1] == '\n'
}

/// Whether `s` is padding throughout.
pub open spec fn all_padding(s: Seq<char>) -> bool {
    forall|i: int| 0 <= i < s.len() ==> is_padding(#[trigger] s[i])
}

/// Whether `s` holds no line break.
pub open spec fn unbroken(s: Seq<char>) -> bool {
    forall|i: int| !line_break_at(s, i)
}

/// A line as the probe writes it: not empty, without a line break, and
/// without padding at either end.
pub open spec fn is_line(s: Seq<char>) -> bool {
    &&& s.len() > 0
    &&& unbroken(s)
    &&& !is_padding(s[0])
    &&& !is_padding(s.last())
}

/// The two characters of a line break.
pub open spec fn line_break() -> Seq<char> {
    seq!['\r', '\n']
}

/// Whether `c` is padding.
pub fn padding_char(c: char) -> (yes: bool)
    ensures
        yes == is_padding(c),
{
    c == '\0' || c == '\r' || c == '\n'
}

/// The characters of `text`, in order.
pub fn chars_of(text: &str) -> (chars: Vec<char>)
    ensures
        chars@ == text@,
{
    broadcast use vstd::string::group_string_axioms;

    let mut chars: Vec<char> = Vec::new();
    for c in it: text.chars()
        invariant
            chars@.len() == it.index(),
            it.seq() == text@,
            forall|k: int| 0 <= k < chars@.len() ==> chars@[k] == it.seq()[k],
    {
        chars.push(c);
    }
    assert(chars@ =~= text@);
    chars
}

/// Where the trimmed text stands within `chars`: from the first bound up to,
/// and without, the second.
fn trim_bounds(chars: &Vec<char>) -> (bounds: (usize, usize))
    ensures
        bounds.0 <= bounds.1 <= chars@.len(),
        chars@.subrange(bounds.0 as int, bounds.1 as int) == trimmed(chars@),
{
    let n: usize = chars.len();
    let mut i: usize = 0;
    assert(chars@ =~= chars@.subrange(0, n as int));
    while i < n && padding_char(chars[i])
        invariant
            i <= n,
            n == chars@.len(),
            trim_start(chars@) == trim_start(chars@.subrange(i as int, n as int)),
        decreases n - i,
    {
        proof {
            let cur = chars@.subrange(i as int, n as int);
            assert(cur[0] == chars@[i as int]);
            assert(cur.drop_first() =~= chars@.subrange(i + 1, n as int));
        }
        i += 1;
    }
    proof {
        let cur = chars@.subrange(i as int, n as int);
        if i < n {
            assert(cur[0] == chars@[i as int]);
        }
        assert(trim_start(cur) == cur);
    }
    let mut j: usize = n;
    while j > i && padding_char(chars[j - 1])
        invariant
            i <= j <= n,
            n == chars@.len(),
            trimmed(chars@) == trim_end(chars@.subrange(i as int, j as int)),
        decreases j,
    {
        proof {
            let cur = chars@.subrange(i as int, j as int);
            assert(cur.last() == chars@[j - 1]);
            assert(cur.drop_last() =~= chars@.subrange(i as int, j - 1));
        }
        j -= 1;
    }
    proof {
        let cur = chars@.subrange(i as int, j as int);
        if j > i {
            assert(cur.last() == chars@[j - 1]);
        }
        assert(trim_end(cur) == cur);
    }
    (i, j)
}

/// The first line break of `chars` between `from` and `to`, or `to` where
/// there is none.
fn line_break_in(chars: &Vec<char>, from: usize, to: usize) -> (at: usize)
    requires
        from <= to <= chars@.len(),
    ensures
        from <= at <= to,
        at - from == line_break_offset(chars@.subrange(from as int, to as int)),
{
    let mut i: usize = from;
    while to - i >= 2 && !(chars[i] == '\r' && chars[i + 1] == '\n')
        invariant
            from <= i <= to <= chars@.len(),
            line_break_offset(chars@.subrange(from as int, to as int)) == (i - from)
                + line_break_offset(chars@.subrange(i as int, to as int)),
        decreases to - i,
    {
        proof {
            let cur = chars@.subrange(i as int, to as int);
            assert(cur[0] == chars@[i as int]);
            assert(cur[1] == chars@[i + 1]);
            assert(cur.drop_first() =~= chars@.subrange(i + 1, to as int));
        }
        i += 1;
    }
    proof {
        let cur = chars@.subrange(i as int, to as int);
        if to - i >= 2 {
            assert(cur[0] == chars@[i as int]);
            assert(cur[1] == chars@[i + 1]);
            assert(line_break_offset(cur) == 0);
        } else {
            assert(line_break_offset(cur) == cur.len());
        }
    }
    if to - i >= 2 {
        i
    } else {
        to
    }
}

/// Where the payload of the text between `from` and `to` stands within
/// `chars`.
fn payload_bounds(chars: &Vec<char>, from: usize, to: usize) -> (bounds: (usize, usize))
    requires
        from <= to <= chars@.len(),
    ensures
        from <= bounds.0 <= bounds.1 <= to,
        chars@.subrange(bounds.0 as int, bounds.1 as int) == payload_of(
            chars@.subrange(from as int, to as int),
        ),
{
    let at: usize = line_break_in(chars, from, to);
    let ghost whole = chars@.subrange(from as int, to as int);
    if to - at < 2 {
        assert(segments(whole) =~= seq![whole]);
        (from, to)
    } else {
        let start: usize = at + 2;
        let end: usize = line_break_in(chars, start, to);
        proof {
            let rest = chars@.subrange(start as int, to as int);
            assert(whole.subrange(at - from + 2, whole.len() as int) =~= rest);
            assert(segments(whole) == seq![whole.subrange(0, at - from)] + segments(rest));
            assert(rest.subrange(0, end - start) =~= chars@.subrange(start as int, end as int));
            if end - start + 2 <= rest.len() {
                let tail = segments(rest.subrange(end - start + 2, rest.len() as int));
                assert(segments(rest) == seq![rest.subrange(0, end - start)] + tail);
            } else {
                line_break_offset_is_first(rest);
                assert(segments(rest) == seq![rest]);
            }
        }
        (start, end)
    }
}

/// Removes leading and trailing NUL, carriage return and line feed.
pub fn trim_padding<'a>(text: &'a str) -> (out: &'a str)
    ensures
        out@ == trimmed(text@),
{
    let chars = chars_of(text);
    let (from, to) = trim_bounds(&chars);
    text.substring_char(from, to)
}

/// Finds the first line break of `text`: its position counted in characters,
/// or the length of the text where it has none.
pub fn find_line_break(text: &str) -> (at: usize)
    ensures
        at == line_break_offset(text@),
        at <= text@.len(),
{
    let chars = chars_of(text);
    assert(chars@ =~= chars@.subrange(0, chars@.len() as int));
    line_break_in(&chars, 0, chars.len())
}

/// Picks the payload of a trimmed text: the second segment where a line break
/// splits the text, else the text itself.
pub fn select_payload<'a>(text: &'a str) -> (out: &'a str)
    ensures
        out@ == payload_of(text@),
{
    let chars = chars_of(text);
    assert(chars@ =~= chars@.subrange(0, chars@.len() as int));
    let (from, to) = payload_bounds(&chars, 0, chars.len());
    text.substring_char(from, to)
}

/// Extracts from one raw read the text that carries the reading: the bytes are
/// decoded lossily, padding is trimmed from both ends, and the second line is
/// chosen where there is one, else everything that is left.
pub fn frame_payload(data: Vec<u8>) -> (payload: String)
    ensures
        frames(data@, payload@),
{
    let text = decode_lossy(&data);
    let chars = chars_of(text.as_str());
    let (left, right) = trim_bounds(&chars);
    let (from, to) = payload_bounds(&chars, left, right);
    proof {
        if is_blank(data@) {
            blank_buffer_frames_to_nothing(data@);
        }
    }
    text.as_str().substring_char(from, to).to_owned()
}

/// Parses one raw read into a reading. The payload is framed as
/// `frame_payload` does, and `decode` is asked once, for that payload: its
/// answer is the result.
pub fn process_data<F>(data: Vec<u8>, decode: F) -> (parsed: Result<TemperatureReading, ParseError>)
    where F: FnOnce(&str) -> Result<TemperatureReading, ParseError>
    requires
        forall|text: &str| decode.requires((text,)),
    ensures
        exists|text: &str| frames(data@, text@) && #[trigger] decode.ensures((text,), parsed),
{
    let payload = frame_payload(data);
    decode(payload.as_str())
}

/// A read buffer before anything is read into it: `capacity` NUL bytes.
pub fn blank_buffer(capacity: usize) -> (buffer: Vec<u8>)
    ensures
        buffer@.len() == capacity,
        is_blank(buffer@),
{
    let mut buffer: Vec<u8> = Vec::new();
    let mut i: usize = 0;
    while i < capacity
        invariant
            i <= capacity,
            buffer@.len() == i,
            is_blank(buffer@),
        decreases capacity - i,
    {
        buffer.push(0);
        i += 1;
    }
    buffer
}

/// Bytes below 128 are valid UTF-8 and decode to themselves, one character
/// for each byte.
pub proof fn ascii_bytes_decode(bytes: Seq<u8>)
    requires
        forall|i: int| 0 <= i < bytes.len() ==> bytes[i] < 128,
    ensures
        valid_utf8(bytes),
        decode_utf8(bytes) == ascii_text(bytes),
{
    let chars = ascii_text(bytes);
    assert(is_ascii_chars(chars));
    is_ascii_chars_encode_utf8(chars);
    assert(encode_utf8(chars) =~= bytes);
    encode_utf8_valid_utf8(chars);
    encode_utf8_decode_utf8(chars);
}

/// A text of padding alone trims to the empty text.
pub proof fn padding_trims_to_nothing(s: Seq<char>)
    requires
        forall|i: int| 0 <= i < s.len() ==> is_padding(s[i]),
    ensures
        trimmed(s) == Seq::<char>::empty(),
    decreases s.len(),
{
    if s.len() > 0 {
        padding_trims_to_nothing(s.drop_first());
    } else {
        assert(s =~= Seq::<char>::empty());
    }
}

/// An empty buffer, or one of NUL bytes alone, is valid text whose payload is
/// empty.
pub proof fn blank_buffer_frames_to_nothing(bytes: Seq<u8>)
    requires
        is_blank(bytes),
    ensures
        valid_utf8(bytes),
        trimmed(decode_utf8(bytes)) == Seq::<char>::empty(),
        payload_of(trimmed(decode_utf8(bytes))) == Seq::<char>::empty(),
{
    ascii_bytes_decode(bytes);
    padding_trims_to_nothing(ascii_text(bytes));
    assert(segments(Seq::<char>::empty()) =~= seq![Seq::<char>::empty()]);
}

/// `line_break_offset` is the position of the first line break: no line break
/// stands before it, and one stands at it unless the text has none.
pub proof fn line_break_offset_is_first(s: Seq<char>)
    ensures
        line_break_offset(s) + 2 <= s.len() ==> line_break_at(s, line_break_offset(s) as int),
        line_break_offset(s) + 2 > s.len() ==> line_break_offset(s) == s.len(),
        forall|i: int| 0 <= i < line_break_offset(s) ==> !line_break_at(s, i),
    decreases s.len(),
{
    if s.len() >= 2 && !(s[0] == '\r' && s[1] == '\n') {
        let rest = s.drop_first();
        line_break_offset_is_first(rest);
        assert forall|i: int| 0 <= i < line_break_offset(s) implies !line_break_at(s, i) by {
            if i > 0 {
                assert(!line_break_at(rest, i - 1));
            }
        }
    } else if s.len() == 1 {
        assert(!line_break_at(s, 0));
    }
}

/// The framing rule. A text with a line break has at least two segments, and
/// its payload is the second: what stands between the first line break and the
/// next one, or the end. A text without a line break is a single segment and
/// is its own payload.
pub proof fn payload_is_second_segment_or_whole(t: Seq<char>)
    ensures
        segments(t).len() >= 1,
        segments(t).len() >= 2 <==> exists|i: int| line_break_at(t, i),
        segments(t).len() >= 2 ==> payload_of(t) == segments(t)[1],
        segments(t).len() < 2 ==> payload_of(t) == t && segments(t) == seq![t],
        segments(t).len() >= 2 ==> ({
            let rest = t.subrange((line_break_offset(t) + 2) as int, t.len() as int);
            &&& segments(t)[0] == t.subrange(0, line_break_offset(t) as int)
            &&& payload_of(t) == rest.subrange(0, line_break_offset(rest) as int)
        }),
{
    line_break_offset_is_first(t);
    let at = line_break_offset(t);
    if at + 2 <= t.len() {
        let rest = t.subrange((at + 2) as int, t.len() as int);
        line_break_offset_is_first(rest);
        let end = line_break_offset(rest);
        if end + 2 <= rest.len() {
            let tail = segments(rest.subrange((end + 2) as int, rest.len() as int));
            assert(segments(rest) == seq![rest.subrange(0, end as int)] + tail);
        } else {
            assert(segments(rest) == seq![rest]);
            assert(rest =~= rest.subrange(0, end as int));
        }
        assert(segments(t) == seq![t.subrange(0, at as int)] + segments(rest));
        assert(line_break_at(t, at as int));
    } else {
        assert(segments(t) =~= seq![t]);
        assert forall|i: int| !line_break_at(t, i) by {
            if 0 <= i && i + 1 < t.len() {
                assert(i < at);
            }
        }
    }
}

/// Padding in front of a text that does not begin with padding is all that
/// `trim_start` removes.
pub proof fn trim_start_strips(lead: Seq<char>, body: Seq<char>)
    requires
        all_padding(lead),
        body.len() > 0 ==> !is_padding(body[0]),
    ensures
        trim_start(lead + body) == body,
    decreases lead.len(),
{
    if lead.len() > 0 {
        assert((lead + body)[0] == lead[0]);
        assert((lead + body).drop_first() =~= lead.drop_first() + body);
        trim_start_strips(lead.drop_first(), body);
    } else {
        assert(lead + body =~= body);
    }
}

/// Padding behind a text that does not end with padding is all that
/// `trim_end` removes.
pub proof fn trim_end_strips(body: Seq<char>, trail: Seq<char>)
    requires
        all_padding(trail),
        body.len() > 0 ==> !is_padding(body.last()),
    ensures
        trim_end(body + trail) == body,
    decreases trail.len(),
{
    if trail.len() > 0 {
        assert((body + trail).last() == trail.last());
        assert((body + trail).drop_last() =~= body + trail.drop_last());
        trim_end_strips(body, trail.drop_last());
    } else {
        assert(body + trail =~= body);
    }
}

/// The first line break of an unbroken text followed by a line break stands
/// right behind that text.
pub proof fn line_break_follows_unbroken(head: Seq<char>, rest: Seq<char>)
    requires
        unbroken(head),
    ensures
        line_break_offset(head + line_break() + rest) == head.len(),
{
    let s = head + line_break() + rest;
    let at = line_break_offset(s) as int;
    let here = head.len() as int;
    line_break_offset_is_first(s);
    assert(s[here] == '\r' && s[here + 1] == '\n');
    assert(line_break_at(s, here));
    if at < here {
        assert(line_break_at(s, at));
        assert(s[at] == head[at]);
        if at + 1 < here {
            assert(s[at + 1] == head[at + 1]);
            assert(line_break_at(head, at));
        }
    }
}

/// Framing recovers a line. Whatever padding stands in front and behind: a
/// line alone is its own payload, and of a first line, a line break and a
/// second line the payload is the second.
pub proof fn framed_line_is_recovered(
    lead: Seq<char>,
    banner: Seq<char>,
    line: Seq<char>,
    trail: Seq<char>,
)
    requires
        all_padding(lead),
        all_padding(trail),
        is_line(line),
        banner.len() > 0,
        unbroken(banner),
        !is_padding(banner[0]),
    ensures
        payload_of(trimmed(lead + line + trail)) == line,
        payload_of(trimmed(lead + banner + line_break() + line + trail)) == line,
{
    line_break_offset_is_first(line);
    assert(segments(line) =~= seq![line]);

    assert(lead + line + trail =~= lead + (line + trail));
    trim_start_strips(lead, line + trail);
    trim_end_strips(line, trail);

    let framed = banner + line_break() + line;
    assert(framed[0] == banner[0]);
    assert(framed.last() == line.last());
    assert(lead + banner + line_break() + line + trail =~= lead + (framed + trail));
    assert((framed + trail)[0] == banner[0]);
    trim_start_strips(lead, framed + trail);
    trim_end_strips(framed, trail);
    line_break_follows_unbroken(banner, line);
    assert(framed.subrange(banner.len() as int + 2, framed.len() as int) =~= line);
    assert(segments(framed) == seq![framed.subrange(0, banner.len() as int)] + segments(line));
}

/// What the probe writes is what is handed on for decoding: the UTF-8 bytes
/// of a line, alone or behind a first line and a line break, with any padding
/// around, are valid, and the payload of their trimmed decoding is that line.
pub proof fn written_line_is_read_back(
    lead: Seq<char>,
    banner: Seq<char>,
    line: Seq<char>,
    trail: Seq<char>,
)
    requires
        all_padding(lead),
        all_padding(trail),
        is_line(line),
        banner.len() > 0,
        unbroken(banner),
        !is_padding(banner[0]),
    ensures
        valid_utf8(encode_utf8(lead + line + trail)),
        payload_of(trimmed(decode_utf8(encode_utf8(lead + line + trail)))) == line,
        valid_utf8(encode_utf8(lead + banner + line_break() + line + trail)),
        payload_of(
            trimmed(decode_utf8(encode_utf8(lead + banner + line_break() + line + trail))),
        ) == line,
{
    framed_line_is_recovered(lead, banner, line, trail);
    let alone = lead + line + trail;
    let second = lead + banner + line_break() + line + trail;
    encode_utf8_valid_utf8(alone);
    encode_utf8_decode_utf8(alone);
    encode_utf8_valid_utf8(second);
    encode_utf8_decode_utf8(second);
}

} // verus!
