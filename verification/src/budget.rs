//! Byte budgets on UTF-8 text. Transcript fields are kept under a byte limit
//! by cutting at character boundaries: prefixes keep the beginning, suffixes
//! keep the most recent end, and a marker shows where older text was dropped.
use vstd::prelude::*;
use vstd::string::*;
use vstd::utf8::*;

verus! {

broadcast use group_utf8_lib;

/// The number of bytes of the UTF-8 encoding of a text.
pub open spec fn byte_len(s: Seq<char>) -> nat {
    encode_utf8(s).len()
}

/// The greatest character boundary of `b` at or below `m`.
pub open spec fn boundary_at_or_below(b: Seq<u8>, m: int) -> int
    decreases m,
{
    if m <= 0 {
        0
    } else if is_char_boundary(b, m) {
        m
    } else {
        boundary_at_or_below(b, m - 1)
    }
}

/// The smallest character boundary of `b` at or above `m`.
pub open spec fn boundary_at_or_above(b: Seq<u8>, m: int) -> int
    decreases b.len() - m,
{
    if m >= b.len() {
        b.len() as int
    } else if is_char_boundary(b, m) {
        m
    } else {
        boundary_at_or_above(b, m + 1)
    }
}

/// The longest leading part of a text whose encoding fits in `max` bytes.
pub open spec fn utf8_prefix_spec(s: Seq<char>, max: int) -> Seq<char> {
    let b = encode_utf8(s);
    let end = boundary_at_or_below(b, if max < b.len() { max } else { b.len() as int });
    decode_utf8(b.subrange(0, end))
}

/// The longest trailing part of a text whose encoding fits in `max` bytes.
pub open spec fn utf8_suffix_spec(s: Seq<char>, max: int) -> Seq<char> {
    let b = encode_utf8(s);
    if b.len() <= max {
        s
    } else {
        decode_utf8(b.subrange(boundary_at_or_above(b, b.len() - max), b.len() as int))
    }
}

/// The marker put in front of text whose older part was dropped.
pub open spec fn marker() -> Seq<char> {
    "[...earlier content truncated...]\n"@
}

pub const MARKER_BYTES: usize = 34;

/// The text without a leading marker, when it has one.
pub open spec fn strip_marker(s: Seq<char>) -> Seq<char> {
    if s.len() >= marker().len() && s.subrange(0, marker().len() as int) == marker() {
        s.subrange(marker().len() as int, s.len() as int)
    } else {
        s
    }
}

/// A field cut down to its most recent `max` bytes: unchanged when it fits;
/// when even the marker does not fit, as much of the marker as fits;
/// otherwise the marker followed by the most recent text that fits beside it
/// (a marker already in front is not repeated).
pub open spec fn truncated_recent(s: Seq<char>, max: int) -> Seq<char> {
    if byte_len(s) <= max {
        s
    } else if max <= MARKER_BYTES {
        utf8_prefix_spec(marker(), max)
    } else {
        marker() + utf8_suffix_spec(strip_marker(s), max - MARKER_BYTES)
    }
}

/// `delta` appended to a field that is kept within `max` bytes: a plain
/// append when the result fits; when even the marker does not fit, as much
/// of the marker as fits; otherwise the marker followed by the most recent
/// text, with as much of the old field (its marker stripped) as fits in
/// front of the delta, or only the end of the delta when the delta alone
/// fills the budget.
pub open spec fn appended_bounded(target: Seq<char>, delta: Seq<char>, max: int) -> Seq<char> {
    if byte_len(target) + byte_len(delta) <= max {
        target + delta
    } else if max <= MARKER_BYTES {
        utf8_prefix_spec(marker(), max)
    } else if byte_len(delta) >= max - MARKER_BYTES {
        marker() + utf8_suffix_spec(delta, max - MARKER_BYTES)
    } else {
        marker() + utf8_suffix_spec(strip_marker(target), max - MARKER_BYTES - byte_len(delta))
            + delta
    }
}

/// The encoding of two joined texts is the two encodings joined.
pub proof fn lemma_encode_concat(a: Seq<char>, b: Seq<char>)
    ensures
        encode_utf8(a + b) == encode_utf8(a) + encode_utf8(b),
    decreases a.len(),
{
    if a.len() == 0 {
        assert(a + b =~= b);
        assert(encode_utf8(a) =~= Seq::<u8>::empty());
        assert(encode_utf8(a) + encode_utf8(b) =~= encode_utf8(b));
    } else {
        assert((a + b)[0] == a[0]);
        assert((a + b).drop_first() =~= a.drop_first() + b);
        lemma_encode_concat(a.drop_first(), b);
        assert(encode_scalar(a[0] as u32) + (encode_utf8(a.drop_first()) + encode_utf8(b))
            =~= (encode_scalar(a[0] as u32) + encode_utf8(a.drop_first())) + encode_utf8(b));
    }
}

/// A decoded cut of a valid encoding re-encodes to the cut.
proof fn lemma_decode_cut(b: Seq<u8>, lo: int, hi: int)
    requires
        valid_utf8(b),
        is_char_boundary(b, lo),
        is_char_boundary(b, hi),
        0 <= lo <= hi <= b.len(),
    ensures
        valid_utf8(b.subrange(lo, hi)),
        encode_utf8(decode_utf8(b.subrange(lo, hi))) == b.subrange(lo, hi),
{
    let head = b.subrange(0, hi);
    valid_utf8_split(b, hi);
    assert(valid_utf8(head));
    assert(is_char_boundary(head, lo)) by {
        lemma_boundary_prefix(b, hi, lo);
    }
    valid_utf8_split(head, lo);
    assert(head.subrange(lo, head.len() as int) =~= b.subrange(lo, hi));
    decode_utf8_encode_utf8(b.subrange(lo, hi));
}

/// A character boundary below a cut point is a boundary of the prefix up to that point.
proof fn lemma_boundary_prefix(b: Seq<u8>, hi: int, k: int)
    requires
        valid_utf8(b),
        is_char_boundary(b, hi),
        is_char_boundary(b, k),
        0 <= k <= hi <= b.len(),
    ensures
        is_char_boundary(b.subrange(0, hi), k),
    decreases b.len(),
{
    reveal_with_fuel(is_char_boundary, 2);
    valid_utf8_split(b, hi);
    if k == 0 {
    } else {
        let n = length_of_first_scalar(b);
        let h = b.subrange(0, hi);
        let tail = pop_first_scalar(b);
        lemma_boundary_first_len(b, hi);
        lemma_boundary_first_len(b, k);
        assert(h.subrange(0, n) =~= b.subrange(0, n));
        assert(length_of_first_scalar(h) == n);
        assert(pop_first_scalar(h) =~= tail.subrange(0, hi - n));
        lemma_boundary_prefix(tail, hi - n, k - n);
    }
}

proof fn lemma_boundary_first_len(b: Seq<u8>, k: int)
    requires
        valid_utf8(b),
        is_char_boundary(b, k),
        k > 0,
    ensures
        b.len() > 0,
        length_of_first_scalar(b) <= k,
        is_char_boundary(pop_first_scalar(b), k - length_of_first_scalar(b)),
        valid_utf8(pop_first_scalar(b)),
        valid_first_scalar(b),
        1 <= length_of_first_scalar(b) <= 4,
{
    reveal_with_fuel(is_char_boundary, 2);
    assert(b.len() > 0);
    let t = pop_first_scalar(b);
    let r = k - length_of_first_scalar(b);
    if r < 0 {
        assert(!is_char_boundary(t, r));
    }
}

proof fn lemma_below_props(b: Seq<u8>, m: int)
    requires
        valid_utf8(b),
        0 <= m <= b.len(),
    ensures
        0 <= boundary_at_or_below(b, m) <= m,
        is_char_boundary(b, boundary_at_or_below(b, m)),
    decreases m,
{
    if m > 0 && !is_char_boundary(b, m) {
        lemma_below_props(b, m - 1);
    }
}

proof fn lemma_above_props(b: Seq<u8>, m: int)
    requires
        valid_utf8(b),
        0 <= m <= b.len(),
    ensures
        m <= boundary_at_or_above(b, m) <= b.len(),
        is_char_boundary(b, boundary_at_or_above(b, m)),
    decreases b.len() - m,
{
    if m < b.len() && !is_char_boundary(b, m) {
        lemma_above_props(b, m + 1);
    }
}

/// Facts about the kept leading part: it is a prefix and fits the budget.
pub proof fn lemma_prefix_fits(s: Seq<char>, max: int)
    requires
        max >= 0,
    ensures
        byte_len(utf8_prefix_spec(s, max)) <= max,
        utf8_prefix_spec(s, max).is_prefix_of(s),
{
    let b = encode_utf8(s);
    let m = if max < b.len() { max } else { b.len() as int };
    lemma_below_props(b, m);
    let end = boundary_at_or_below(b, m);
    is_char_boundary_start_end_of_seq(b);
    lemma_decode_cut(b, 0, end);
    lemma_decode_cut(b, end, b.len() as int);
    decode_utf8_split(b, end);
    assert(b.subrange(0, b.len() as int) =~= b);
}

/// Facts about the kept trailing part: it is a suffix and fits the budget.
pub proof fn lemma_suffix_fits(s: Seq<char>, max: int)
    requires
        max >= 0,
    ensures
        byte_len(utf8_suffix_spec(s, max)) <= max,
        utf8_suffix_spec(s, max).is_suffix_of(s),
{
    let b = encode_utf8(s);
    if b.len() > max {
        let start = boundary_at_or_above(b, b.len() - max);
        lemma_above_props(b, b.len() - max);
        is_char_boundary_start_end_of_seq(b);
        lemma_decode_cut(b, start, b.len() as int);
        lemma_decode_cut(b, 0, start);
        decode_utf8_split(b, start);
        assert(b.subrange(0, b.len() as int) =~= b);
        let d = decode_utf8(b.subrange(start, b.len() as int));
        let p = decode_utf8(b.subrange(0, start));
        assert(s == p + d);
        assert(s.subrange(s.len() - d.len(), s.len() as int) =~= d);
    } else {
        assert(s.subrange(0, s.len() as int) =~= s);
    }
}

/// The number of bytes of a text's UTF-8 encoding (`str::len`).
pub fn byte_count(s: &str) -> (r: usize)
    ensures
        r == byte_len(s@),
{
    broadcast use vstd::slice::group_slice_axioms;

    s.as_bytes().len()
}

/// The longest leading part of `text` whose encoding fits in `max_bytes`,
/// cut at a character boundary.
pub fn utf8_prefix(text: &str, max_bytes: usize) -> (r: &str)
    ensures
        r@ == utf8_prefix_spec(text@, max_bytes as int),
        byte_len(r@) <= max_bytes,
        r@.is_prefix_of(text@),
{
    let ghost b = text.spec_bytes();
    let len = byte_count(text);
    let mut end: usize = if max_bytes < len {
        max_bytes
    } else {
        len
    };
    let ghost m = end as int;
    proof {
        is_char_boundary_start_end_of_seq(b);
    }
    while !text.is_char_boundary(end)
        invariant
            b == text.spec_bytes(),
            valid_utf8(b),
            is_char_boundary(b, 0),
            0 <= end <= m <= b.len(),
            boundary_at_or_below(b, end as int) == boundary_at_or_below(b, m),
        decreases end,
    {
        end = end - 1;
    }
    let (head, _rest) = text.split_at(end);
    proof {
        assert(boundary_at_or_below(b, end as int) == end);
        lemma_prefix_fits(text@, max_bytes as int);
        lemma_decode_cut(b, 0, end as int);
        encode_utf8_decode_utf8(head@);
    }
    head
}

/// The longest trailing part of `text` whose encoding fits in `max_bytes`,
/// cut at a character boundary.
pub fn utf8_suffix(text: &str, max_bytes: usize) -> (r: &str)
    ensures
        r@ == utf8_suffix_spec(text@, max_bytes as int),
        byte_len(r@) <= max_bytes,
        r@.is_suffix_of(text@),
{
    proof {
        lemma_suffix_fits(text@, max_bytes as int);
    }
    let ghost b = text.spec_bytes();
    let len = byte_count(text);
    if len <= max_bytes {
        return text;
    }
    let mut start: usize = len - max_bytes;
    let ghost m = start as int;
    proof {
        is_char_boundary_start_end_of_seq(b);
    }
    while !text.is_char_boundary(start)
        invariant
            b == text.spec_bytes(),
            valid_utf8(b),
            is_char_boundary(b, b.len() as int),
            len == b.len(),
            0 <= m <= start <= b.len(),
            boundary_at_or_above(b, start as int) == boundary_at_or_above(b, m),
        decreases b.len() - start,
    {
        start = start + 1;
    }
    let (_front, tail) = text.split_at(start);
    proof {
        lemma_decode_cut(b, start as int, b.len() as int);
        encode_utf8_decode_utf8(tail@);
    }
    tail
}

fn marker_str() -> (r: &'static str)
    ensures
        r@ == marker(),
        byte_len(r@) == MARKER_BYTES,
{
    let m = "[...earlier content truncated...]\n";
    proof {
        reveal_strlit("[...earlier content truncated...]\n");
        assert(is_ascii_chars(m@));
    }
    m
}

/// The text without a leading marker, when it has one.
fn strip_marker_str(s: &str) -> (r: &str)
    ensures
        r@ == strip_marker(s@),
{
    let mk = marker_str();
    let mlen = mk.unicode_len();
    let n = s.unicode_len();
    if n >= mlen {
        let head = s.substring_char(0, mlen);
        if crate::text::str_eq(head, mk) {
            return s.substring_char(mlen, n);
        }
    }
    s
}

/// Cuts a field down to its most recent `max_bytes` bytes (see [`truncated_recent`]).
pub fn truncate_to_recent(target: &mut String, max_bytes: usize)
    ensures
        final(target)@ == truncated_recent(old(target)@, max_bytes as int),
        byte_len(final(target)@) <= max_bytes,
{
    if byte_count(target.as_str()) <= max_bytes {
        return;
    }
    let mk = marker_str();
    if max_bytes <= MARKER_BYTES {
        let kept = utf8_prefix(mk, max_bytes);
        *target = String::from_str(kept);
        return;
    }
    let tail_budget = max_bytes - MARKER_BYTES;
    let source = strip_marker_str(target.as_str());
    let tail = utf8_suffix(source, tail_budget);
    let joined = String::from_str(mk).concat(tail);
    proof {
        lemma_encode_concat(mk@, tail@);
    }
    *target = joined;
}

/// Appends `delta` to a field kept within `max_bytes` bytes (see [`appended_bounded`]).
pub fn append_bounded(target: &mut String, delta: &str, max_bytes: usize)
    ensures
        final(target)@ == appended_bounded(old(target)@, delta@, max_bytes as int),
        byte_len(final(target)@) <= max_bytes,
{
    let target_len = byte_count(target.as_str());
    let delta_len = byte_count(delta);
    if target_len <= max_bytes && delta_len <= max_bytes - target_len {
        target.append(delta);
        proof {
            lemma_encode_concat(old(target)@, delta@);
        }
        return;
    }
    let mk = marker_str();
    if max_bytes <= MARKER_BYTES {
        let kept = utf8_prefix(mk, max_bytes);
        *target = String::from_str(kept);
        return;
    }
    let tail_budget = max_bytes - MARKER_BYTES;
    if delta_len >= tail_budget {
        let tail = utf8_suffix(delta, tail_budget);
        let joined = String::from_str(mk).concat(tail);
        proof {
            lemma_encode_concat(mk@, tail@);
        }
        *target = joined;
    } else {
        let existing = strip_marker_str(target.as_str());
        let older = utf8_suffix(existing, tail_budget - delta_len);
        let joined = String::from_str(mk).concat(older).concat(delta);
        proof {
            lemma_encode_concat(mk@, older@);
            lemma_encode_concat(mk@ + older@, delta@);
        }
        *target = joined;
    }
}

/// The first `max_chars` characters of a text (all of it when shorter).
pub fn truncate_chars(text: &str, max_chars: usize) -> (r: String)
    ensures
        r@ == (if text@.len() <= max_chars {
            text@
        } else {
            text@.subrange(0, max_chars as int)
        }),
{
    let n = text.unicode_len();
    if n <= max_chars {
        return String::from_str(text);
    }
    String::from_str(text.substring_char(0, max_chars))
}

} // verus!
