//! Boundary-safe slicing and sanitizing of untrusted text.
use vstd::prelude::*;
use vstd::string::*;
use vstd::utf8::*;

verus! {

broadcast use vstd::utf8::group_utf8_lib;

/// The bytes of a string.
pub open spec fn bytes_of(s: &str) -> Seq<u8> {
    s.spec_bytes()
}

/// The least character boundary of `b` at or after `i`, clamped to `b.len()`.
pub open spec fn next_boundary(b: Seq<u8>, i: int) -> int
    decreases b.len() - i,
{
    if i >= b.len() {
        b.len() as int
    } else if i >= 0 && is_char_boundary(b, i) {
        i
    } else {
        next_boundary(b, i + 1)
    }
}

/// The greatest character boundary of `b` at or before `i`, clamped to `0`.
pub open spec fn prev_boundary(b: Seq<u8>, i: int) -> int
    decreases i,
{
    if i <= 0 {
        0
    } else if is_char_boundary(b, i) {
        i
    } else {
        prev_boundary(b, i - 1)
    }
}

/// A boundary of a valid encoding is always found, at or after `i`, and no
/// boundary lies strictly between `i` and it.
pub proof fn lemma_next_boundary(b: Seq<u8>, i: int)
    requires
        valid_utf8(b),
        0 <= i,
    ensures
        is_char_boundary(b, next_boundary(b, i)),
        i <= b.len() ==> i <= next_boundary(b, i) <= b.len(),
        i > b.len() ==> next_boundary(b, i) == b.len(),
        forall|j: int| i <= j < next_boundary(b, i) ==> !is_char_boundary(b, j),
    decreases b.len() - i,
{
    is_char_boundary_start_end_of_seq(b);
    if i < b.len() && !is_char_boundary(b, i) {
        lemma_next_boundary(b, i + 1);
    }
}

/// A boundary of a valid encoding is always found at or before `i`, and no
/// boundary lies strictly between it and `i`.
pub proof fn lemma_prev_boundary(b: Seq<u8>, i: int)
    requires
        valid_utf8(b),
    ensures
        is_char_boundary(b, prev_boundary(b, i)),
        0 <= prev_boundary(b, i) <= b.len(),
        i >= 0 ==> prev_boundary(b, i) <= i,
        forall|j: int| prev_boundary(b, i) < j <= i ==> !is_char_boundary(b, j),
    decreases i,
{
    is_char_boundary_start_end_of_seq(b);
    if i > 0 && !is_char_boundary(b, i) {
        lemma_prev_boundary(b, i - 1);
    }
}

/// A prefix of a valid encoding keeps the boundaries up to its end.
proof fn lemma_prefix_boundary(b: Seq<u8>, e: int, p: int)
    requires
        valid_utf8(b),
        is_char_boundary(b, e),
        is_char_boundary(b, p),
        0 <= p <= e <= b.len(),
    ensures
        valid_utf8(b.subrange(0, e)),
        is_char_boundary(b.subrange(0, e), p),
{
    valid_utf8_split(b, e);
    let h = b.subrange(0, e);
    is_char_boundary_start_end_of_seq(h);
    if p < e {
        is_char_boundary_iff_not_is_continuation_byte(b, p);
        is_char_boundary_iff_not_is_continuation_byte(h, p);
    }
}

/// The length of `s` in bytes.
fn byte_len(s: &str) -> (r: usize)
    ensures
        r == bytes_of(s).len(),
{
    s.as_bytes().len()
}

/// Returns the index of the first character boundary at or after `start`;
/// an index past the end gives the length of the string.
pub fn next_char_boundary(s: &str, start: usize) -> (r: usize)
    ensures
        r as int == next_boundary(bytes_of(s), start as int),
        is_char_boundary(bytes_of(s), r as int),
        r <= bytes_of(s).len(),
{
    let len = byte_len(s);
    proof {
        lemma_next_boundary(bytes_of(s), start as int);
    }
    if start >= len {
        return len;
    }
    let mut i: usize = start;
    while !s.is_char_boundary(i) && i < len
        invariant
            start <= i <= len,
            len == bytes_of(s).len(),
            next_boundary(bytes_of(s), i as int) == next_boundary(bytes_of(s), start as int),
        decreases len - i,
    {
        i += 1;
    }
    proof {
        is_char_boundary_start_end_of_seq(bytes_of(s));
    }
    i
}

/// Returns the index of the last character boundary at or before `start`;
/// an index past the end gives the length of the string.
pub fn prev_char_boundary(s: &str, start: usize) -> (r: usize)
    ensures
        r as int == prev_boundary(bytes_of(s), start as int),
        is_char_boundary(bytes_of(s), r as int),
        r <= bytes_of(s).len(),
        r <= start,
{
    proof {
        lemma_prev_boundary(bytes_of(s), start as int);
    }
    let mut i: usize = start;
    while !s.is_char_boundary(i) && i > 0
        invariant
            i <= start,
            prev_boundary(bytes_of(s), i as int) == prev_boundary(bytes_of(s), start as int),
        decreases i,
    {
        i -= 1;
    }
    i
}

/// The empty string.
pub const EMPTY_STRING: &'static str = "";

fn empty_str() -> (r: &'static str)
    ensures
        bytes_of(r) == Seq::<u8>::empty(),
{
    proof {
        reveal_strlit("");
    }
    assert(EMPTY_STRING@ =~= Seq::<char>::empty());
    assert(encode_utf8(EMPTY_STRING@) =~= Seq::<u8>::empty());
    EMPTY_STRING
}

/// What `slice_at_char_boundaries` returns, as bytes.
pub open spec fn safe_slice(b: Seq<u8>, start: int, end: int) -> Seq<u8> {
    if start > end || start > b.len() || end > b.len() {
        Seq::empty()
    } else {
        b.subrange(prev_boundary(b, start), next_boundary(b, end))
    }
}

/// Returns the part of `s` from the boundary at or before `start_byte_index` to
/// the boundary at or after `end_byte_index`; the empty string when the start
/// lies after the end or either lies past the end of `s`.
pub fn slice_at_char_boundaries<'a>(
    s: &'a str,
    start_byte_index: usize,
    end_byte_index: usize,
) -> (r: &'a str)
    ensures
        bytes_of(r) == safe_slice(bytes_of(s), start_byte_index as int, end_byte_index as int),
{
    let len = byte_len(s);
    if start_byte_index > end_byte_index || start_byte_index > len || end_byte_index > len {
        return empty_str();
    }
    let p = prev_char_boundary(s, start_byte_index);
    let e = next_char_boundary(s, end_byte_index);
    proof {
        lemma_next_boundary(bytes_of(s), end_byte_index as int);
        lemma_prefix_boundary(bytes_of(s), e as int, p as int);
    }
    let (head, _) = s.split_at(e);
    let (_, mid) = head.split_at(p);
    assert(bytes_of(mid) =~= bytes_of(s).subrange(p as int, e as int));
    mid
}

/// Returns the part of `s` up to the first character boundary at or after
/// `byte_index`: the whole string when the index lies past its end.
pub fn slice_up_to_char_boundary<'a>(s: &'a str, byte_index: usize) -> (r: &'a str)
    ensures
        bytes_of(r) == bytes_of(s).subrange(0, next_boundary(bytes_of(s), byte_index as int)),
{
    let e = next_char_boundary(s, byte_index);
    s.split_at(e).0
}

/* Decoding one character */

/// The first character encoded at the start of `b` with its length in bytes,
/// if `b` starts with a well-formed encoding of one.
pub open spec fn first_char(b: Seq<u8>) -> Option<(char, usize)> {
    if valid_first_scalar(b) {
        Some((decode_first_scalar(b) as char, length_of_first_scalar(b) as usize))
    } else {
        None
    }
}

/// Relies on `char::from_u32`: it gives the character of a Unicode scalar
/// value, and `None` for a surrogate or a value past `0x10FFFF`.
#[verifier::external_body]
fn char_from_u32(v: u32) -> (r: Option<char>)
    ensures
        r == (if v <= 0x10FFFF && !(0xD800 <= v <= 0xDFFF) {
            Some(v as char)
        } else {
            None
        }),
{
    char::from_u32(v)
}

fn is_continuation(b: u8) -> (r: bool)
    ensures
        r == is_continuation_byte(b),
{
    0x80 <= b && b <= 0xbf
}

/// Decodes the character at the start of `input`: its first one-, two-,
/// three- or four-byte prefix that is well-formed UTF-8.
pub fn try_parse_utf8_char(input: &[u8]) -> (r: Option<(char, usize)>)
    ensures
        r == first_char(input@),
{
    let len = input.len();
    if len == 0 {
        return None;
    }
    let b0 = input[0];
    let cp: u32;
    let n: usize;
    if b0 <= 0x7f {
        cp = (b0 & 0x7F) as u32;
        n = 1;
        assert(cp <= 0x7f) by (bit_vector)
            requires
                cp == (b0 & 0x7F) as u32,
        ;
    } else if 0xc0 <= b0 && b0 <= 0xdf {
        if len < 2 || !is_continuation(input[1]) {
            return None;
        }
        let b1 = input[1];
        cp = (((b0 & 0x1F) as u32) << 6) | ((b1 & 0x3f) as u32);
        n = 2;
        assert(cp <= 0x7ff) by (bit_vector)
            requires
                cp == (((b0 & 0x1F) as u32) << 6) | ((b1 & 0x3f) as u32),
        ;
    } else if 0xe0 <= b0 && b0 <= 0xef {
        if len < 3 || !is_continuation(input[1]) || !is_continuation(input[2]) {
            return None;
        }
        let b1 = input[1];
        let b2 = input[2];
        cp = (((b0 & 0x0F) as u32) << 12) | (((b1 & 0x3f) as u32) << 6) | ((b2 & 0x3f) as u32);
        n = 3;
        assert(cp <= 0xffff) by (bit_vector)
            requires
                cp == (((b0 & 0x0F) as u32) << 12) | (((b1 & 0x3f) as u32) << 6) | ((b2
                    & 0x3f) as u32),
        ;
    } else if 0xf0 <= b0 && b0 <= 0xf7 {
        if len < 4 || !is_continuation(input[1]) || !is_continuation(input[2])
            || !is_continuation(input[3]) {
            return None;
        }
        cp = (((b0 & 0x07) as u32) << 18) | (((input[1] & 0x3f) as u32) << 12) | (((input[2]
            & 0x3f) as u32) << 6) | ((input[3] & 0x3f) as u32);
        n = 4;
    } else {
        return None;
    }
    if (n == 2 && cp < 0x80) || (n == 3 && cp < 0x800) || (n == 4 && (cp < 0x10000 || cp
        > 0x10ffff)) || (0xD800 <= cp && cp <= 0xDFFF) {
        return None;
    }
    match char_from_u32(cp) {
        Some(c) => Some((c, n)),
        None => None,
    }
}

/* Sanitizing */

/// The glyph shown in place of a character that is not printed as it is.
pub const NULL_SYMBOL: char = '\u{2400}';

/// The number of spaces a tab expands to in a preprocessed line.
pub const TAB_WIDTH: usize = 4;

/// True for the ASCII control characters other than tab and line feed, and
/// for the C1 controls from `0x7F` to `0x9F`.
pub open spec fn is_control(c: char) -> bool {
    (c as u32) <= 0x1F || (0x7F <= (c as u32) && (c as u32) <= 0x9F)
}

/// What one decoded character becomes in sanitized text.
pub open spec fn render_char(c: char, tab_width: nat) -> Seq<char> {
    if c == ' ' {
        seq![' ']
    } else if c == '\t' {
        Seq::new(tab_width, |i: int| ' ')
    } else if c == '\n' {
        seq![]
    } else if is_control(c) {
        seq![NULL_SYMBOL]
    } else if c == '\u{FEFF}' {
        seq![]
    } else if (c as u32) > 0x700 {
        seq![NULL_SYMBOL]
    } else {
        seq![c]
    }
}

/// The upper-case hexadecimal digit of `n`, for `n < 16`.
pub open spec fn hex_digit(n: u8) -> char {
    if n < 10 {
        (n + 48) as u8 as char
    } else {
        (n + 55) as u8 as char
    }
}

/// The escape `\xHH` written for a byte that starts no well-formed character.
pub open spec fn hex_escape(b: u8) -> Seq<char> {
    seq!['\\', 'x', hex_digit(b / 16), hex_digit(b % 16)]
}

/// The sanitized text of `b`: each well-formed character rendered by
/// `render_char`, each byte that starts none written as a hex escape.
pub open spec fn sanitize(b: Seq<u8>, tab_width: nat) -> Seq<char>
    decreases b.len(),
{
    if b.len() == 0 {
        seq![]
    } else if valid_first_scalar(b) {
        render_char(decode_first_scalar(b) as char, tab_width) + sanitize(
            pop_first_scalar(b),
            tab_width,
        )
    } else {
        hex_escape(b[0]) + sanitize(b.drop_first(), tab_width)
    }
}

/// Relies on `String::push`: it appends one character.
#[verifier::external_body]
fn push_char(s: &mut String, c: char)
    ensures
        final(s)@ == old(s)@.push(c),
{
    s.push(c)
}

fn hex_digit_char(n: u8) -> (r: char)
    requires
        n < 16,
    ensures
        r == hex_digit(n),
{
    if n < 10 {
        (n + 48) as char
    } else {
        (n + 55) as char
    }
}

fn push_hex_escape(out: &mut String, b: u8)
    ensures
        final(out)@ == old(out)@ + hex_escape(b),
{
    push_char(out, '\\');
    push_char(out, 'x');
    push_char(out, hex_digit_char(b / 16));
    push_char(out, hex_digit_char(b % 16));
    assert(final(out)@ =~= old(out)@ + hex_escape(b));
}

fn push_rendered(out: &mut String, c: char, tab_width: usize)
    ensures
        final(out)@ == old(out)@ + render_char(c, tab_width as nat),
{
    let cv = c as u32;
    if c == ' ' {
        push_char(out, ' ');
    } else if c == '\t' {
        let mut k: usize = 0;
        while k < tab_width
            invariant
                k <= tab_width,
                out@ == old(out)@ + Seq::new(k as nat, |i: int| ' '),
            decreases tab_width - k,
        {
            push_char(out, ' ');
            k += 1;
            assert(out@ =~= old(out)@ + Seq::new(k as nat, |i: int| ' '));
        }
    } else if c == '\n' {
        assert(out@ =~= old(out)@ + render_char(c, tab_width as nat));
    } else if cv <= 0x1F || (0x7F <= cv && cv <= 0x9F) {
        push_char(out, NULL_SYMBOL);
    } else if c == '\u{FEFF}' {
        assert(out@ =~= old(out)@ + render_char(c, tab_width as nat));
    } else if cv > 0x700 {
        push_char(out, NULL_SYMBOL);
    } else {
        push_char(out, c);
    }
    assert(final(out)@ =~= old(out)@ + render_char(c, tab_width as nat));
}

/// Decodes `input` as UTF-8 on a best-effort basis and makes it safe to
/// print: a tab becomes `tab_width` spaces, line feeds and byte-order marks
/// are dropped, control characters and characters above `U+0700` become
/// `NULL_SYMBOL`, and a byte that starts no well-formed character becomes
/// a `\xHH` escape.
pub fn replace_non_printable(input: &[u8], tab_width: usize) -> (r: String)
    ensures
        r@ == sanitize(input@, tab_width as nat),
{
    let mut output = String::new();
    let len = input.len();
    let mut idx: usize = 0;
    assert(input@.subrange(0, len as int) =~= input@);
    assert(output@ + sanitize(input@, tab_width as nat) =~= sanitize(input@, tab_width as nat));
    while idx < len
        invariant
            idx <= len,
            len == input@.len(),
            sanitize(input@, tab_width as nat) == output@ + sanitize(
                input@.subrange(idx as int, len as int),
                tab_width as nat,
            ),
        decreases len - idx,
    {
        let rest = vstd::slice::slice_subrange(input, idx, len);
        match try_parse_utf8_char(rest) {
            Some((c, n)) => {
                assert(pop_first_scalar(rest@) =~= input@.subrange(idx + n, len as int));
                push_rendered(&mut output, c, tab_width);
                idx += n;
            },
            None => {
                assert(rest@.drop_first() =~= input@.subrange(idx + 1, len as int));
                push_hex_escape(&mut output, input[idx]);
                idx += 1;
            },
        }
    }
    assert(output@ + sanitize(input@.subrange(idx as int, len as int), tab_width as nat)
        =~= output@);
    output
}

/* Printable ratio */

/// True for the printable ASCII bytes, `0x20` up to but not including `0x7F`.
pub open spec fn is_printable_ascii(b: u8) -> bool {
    32 <= b < 127
}

/// The number of printable ASCII bytes in `b`.
pub open spec fn printable_count(b: Seq<u8>) -> nat
    decreases b.len(),
{
    if b.len() == 0 {
        0
    } else {
        printable_count(b.drop_last()) + if is_printable_ascii(b.last()) {
            1nat
        } else {
            0nat
        }
    }
}

/// Returns how many bytes of `buffer` are printable ASCII.
pub fn count_printable_ascii_characters(buffer: &[u8]) -> (r: usize)
    ensures
        r == printable_count(buffer@),
{
    let len = buffer.len();
    let mut count: usize = 0;
    let mut i: usize = 0;
    while i < len
        invariant
            i <= len,
            len == buffer@.len(),
            count <= i,
            count == printable_count(buffer@.subrange(0, i as int)),
        decreases len - i,
    {
        assert(buffer@.subrange(0, i + 1).drop_last() =~= buffer@.subrange(0, i as int));
        if 32 <= buffer[i] && buffer[i] < 127 {
            count += 1;
        }
        i += 1;
    }
    assert(buffer@.subrange(0, len as int) =~= buffer@);
    count
}

/// The share of printable ASCII bytes above which a sample is taken for
/// text, as a fraction `PRINTABLE_ASCII_THRESHOLD_NUM / PRINTABLE_ASCII_THRESHOLD_DEN`.
pub const PRINTABLE_ASCII_THRESHOLD_NUM: usize = 7;

/// See `PRINTABLE_ASCII_THRESHOLD_NUM`.
pub const PRINTABLE_ASCII_THRESHOLD_DEN: usize = 10;

/// True when a sample of `len` bytes with `count` printable ones lies
/// strictly above the printable ratio threshold (never for an empty sample).
pub open spec fn above_printable_threshold(count: nat, len: nat) -> bool {
    len > 0 && count * 10 > len * 7
}

/// Tells whether the printable ASCII share of `buffer` lies strictly above
/// the threshold; an empty buffer lies below it.
pub fn is_mostly_printable_ascii(buffer: &[u8]) -> (r: bool)
    ensures
        r == above_printable_threshold(printable_count(buffer@), buffer@.len()),
{
    let count = count_printable_ascii_characters(buffer);
    let len = buffer.len();
    len > 0 && (count as u128) * (PRINTABLE_ASCII_THRESHOLD_DEN as u128) > (len as u128)
        * (PRINTABLE_ASCII_THRESHOLD_NUM as u128)
}

/* Lines */

/// The longest line, in bytes, kept by `preprocess_line`.
pub const MAX_LINE_LENGTH: usize = 300;

/// True for the bytes stripped from the end of a line: `\r`, `\n` and NUL.
pub open spec fn is_line_end_byte(b: u8) -> bool {
    b == 13 || b == 10 || b == 0
}

/// The length of `b` once its trailing line-end bytes are stripped.
pub open spec fn trimmed_len(b: Seq<u8>) -> nat
    decreases b.len(),
{
    if b.len() > 0 && is_line_end_byte(b.last()) {
        trimmed_len(b.drop_last())
    } else {
        b.len()
    }
}

/// `b` cut at the first boundary at or after `MAX_LINE_LENGTH` when longer.
pub open spec fn truncated_line(b: Seq<u8>) -> Seq<u8> {
    if b.len() > MAX_LINE_LENGTH {
        b.subrange(0, next_boundary(b, MAX_LINE_LENGTH as int))
    } else {
        b
    }
}

/// The display text of a line: truncated, stripped of its line end, sanitized.
pub open spec fn preprocessed(b: Seq<u8>) -> Seq<char> {
    let t = truncated_line(b);
    sanitize(t.subrange(0, trimmed_len(t) as int), TAB_WIDTH as nat)
}

/// Prepares a line for display: cuts it after `MAX_LINE_LENGTH` bytes at a
/// character boundary, strips trailing `\r`, `\n` and NUL bytes, and
/// sanitizes the rest with tabs `TAB_WIDTH` wide.
pub fn preprocess_line(line: &str) -> (r: String)
    ensures
        r@ == preprocessed(bytes_of(line)),
{
    let cut: &str = if byte_len(line) > MAX_LINE_LENGTH {
        slice_up_to_char_boundary(line, MAX_LINE_LENGTH)
    } else {
        line
    };
    let b = cut.as_bytes();
    assert(b@ == truncated_line(bytes_of(line)));
    let mut end: usize = b.len();
    assert(b@.subrange(0, end as int) =~= b@);
    while end > 0 && (b[end - 1] == 13 || b[end - 1] == 10 || b[end - 1] == 0)
        invariant
            end <= b@.len(),
            trimmed_len(b@.subrange(0, end as int)) == trimmed_len(b@),
        decreases end,
    {
        assert(b@.subrange(0, end as int).drop_last() =~= b@.subrange(0, end - 1));
        end -= 1;
    }
    replace_non_printable(vstd::slice::slice_subrange(b, 0, end), TAB_WIDTH)
}

/* Shortening */

/// The character joining the two ends of a shortened string.
pub const ELLIPSIS: char = '\u{2026}';

/// The number of bytes kept at each end when shortening to `max_length`.
pub open spec fn half_kept(max_length: int) -> int {
    if max_length / 2 >= 2 {
        max_length / 2 - 2
    } else {
        0
    }
}

/// What `shrink_with_ellipsis` returns for a string of bytes `b`.
pub open spec fn shrunk(b: Seq<u8>, max_length: int) -> Seq<char> {
    if b.len() <= max_length {
        decode_utf8(b)
    } else {
        let h = half_kept(max_length);
        decode_utf8(b.subrange(0, next_boundary(b, h))) + seq![ELLIPSIS] + decode_utf8(
            safe_slice(b, b.len() - h, b.len() as int),
        )
    }
}

/// Returns `s` when it is at most `max_length` bytes long; otherwise a
/// prefix and a suffix of about `max_length / 2 - 2` bytes each, cut at
/// character boundaries and joined by `ELLIPSIS`.
pub fn shrink_with_ellipsis(s: &str, max_length: usize) -> (r: String)
    ensures
        r@ == shrunk(bytes_of(s), max_length as int),
        bytes_of(s).len() <= max_length ==> r@ == s@,
{
    let len = byte_len(s);
    if len <= max_length {
        return s.to_owned();
    }
    let half: usize = if max_length / 2 >= 2 {
        max_length / 2 - 2
    } else {
        0
    };
    let first_half = slice_up_to_char_boundary(s, half);
    let second_half = slice_at_char_boundaries(s, len - half, len);
    let mut out = first_half.to_owned();
    proof {
        reveal_strlit("\u{2026}");
    }
    out.append("\u{2026}");
    out.append(second_half);
    assert(out@ =~= shrunk(bytes_of(s), max_length as int));
    out
}

/* Properties */

/// For every string and offset, both boundary searches land on a character
/// boundary, and a safe slice is always well-formed UTF-8 lying between two
/// boundaries of the string.
pub proof fn lemma_boundaries_and_slices_are_valid(s: &str, i: usize, start: usize, end: usize)
    ensures
        is_char_boundary(bytes_of(s), next_boundary(bytes_of(s), i as int)),
        is_char_boundary(bytes_of(s), prev_boundary(bytes_of(s), i as int)),
        valid_utf8(safe_slice(bytes_of(s), start as int, end as int)),
{
    let b = bytes_of(s);
    lemma_next_boundary(b, i as int);
    lemma_prev_boundary(b, i as int);
    if !(start > end || start > b.len() || end > b.len()) {
        let p = prev_boundary(b, start as int);
        let e = next_boundary(b, end as int);
        lemma_prev_boundary(b, start as int);
        lemma_next_boundary(b, end as int);
        lemma_prefix_boundary(b, e, p);
        let h = b.subrange(0, e);
        valid_utf8_split(h, p);
        assert(h.subrange(p, h.len() as int) =~= b.subrange(p, e));
    } else {
        assert(valid_utf8(Seq::<u8>::empty()));
    }
}

/// A safe slice whose start lies after its end, or either past the end of
/// the string, is empty.
pub proof fn lemma_safe_slice_out_of_range(s: &str, start: usize, end: usize)
    requires
        start > end || start > bytes_of(s).len() || end > bytes_of(s).len(),
    ensures
        safe_slice(bytes_of(s), start as int, end as int) == Seq::<u8>::empty(),
{
}

/// Printable ASCII bytes are kept as they are, one character each.
pub proof fn lemma_sanitize_printable(b: Seq<u8>, tab_width: nat)
    requires
        forall|i: int| 0 <= i < b.len() ==> is_printable_ascii(#[trigger] b[i]),
    ensures
        sanitize(b, tab_width) =~= Seq::new(b.len(), |i: int| b[i] as char),
    decreases b.len(),
{
    if b.len() > 0 {
        let b0 = b[0];
        assert(is_printable_ascii(b0));
        assert((b0 & 0x7F) as u32 == b0 as u32) by (bit_vector)
            requires
                b0 < 127u8,
        ;
        assert(valid_first_scalar(b));
        assert(pop_first_scalar(b) =~= b.drop_first());
        lemma_sanitize_printable(b.drop_first(), tab_width);
    }
}

/// Sanitizing printable ASCII text a second time changes nothing.
pub proof fn lemma_sanitize_idempotent_on_printable(x: Seq<u8>, tab_width: nat)
    requires
        forall|i: int| 0 <= i < x.len() ==> is_printable_ascii(#[trigger] x[i]),
    ensures
        sanitize(encode_utf8(sanitize(x, tab_width)), tab_width) == sanitize(x, tab_width),
{
    lemma_sanitize_printable(x, tab_width);
    let c = sanitize(x, tab_width);
    assert(is_ascii_chars(c));
    is_ascii_chars_encode_utf8(c);
    assert(encode_utf8(c) =~= x);
}

/// A buffer of printable ASCII bytes counts every byte; a buffer with none
/// counts zero.
pub proof fn lemma_printable_count_extremes(b: Seq<u8>)
    ensures
        (forall|i: int| 0 <= i < b.len() ==> is_printable_ascii(#[trigger] b[i]))
            ==> printable_count(b) == b.len(),
        (forall|i: int| 0 <= i < b.len() ==> !is_printable_ascii(#[trigger] b[i]))
            ==> printable_count(b) == 0,
    decreases b.len(),
{
    if b.len() > 0 {
        let d = b.drop_last();
        assert(forall|i: int| 0 <= i < d.len() ==> d[i] == b[i]);
        lemma_printable_count_extremes(d);
    }
}

/// A line of 400 copies of one printable ASCII byte is cut to
/// `MAX_LINE_LENGTH` characters.
pub proof fn lemma_long_printable_line_is_cut(line: &str, c: u8)
    requires
        is_printable_ascii(c),
        bytes_of(line) == Seq::new(400, |i: int| c),
    ensures
        preprocessed(bytes_of(line)).len() == MAX_LINE_LENGTH,
{
    let b = bytes_of(line);
    is_char_boundary_iff_not_is_continuation_byte(b, 300);
    assert(next_boundary(b, 300) == 300);
    let t = truncated_line(b);
    assert(t.len() == 300);
    assert(trimmed_len(t) == 300);
    assert(t.subrange(0, 300) =~= t);
    lemma_sanitize_printable(t, TAB_WIDTH as nat);
}

} // verus!
