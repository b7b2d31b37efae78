//! Byte-level facts about UTF-8 strings and the few `String` operations that
//! vstd does not specify.

use vstd::prelude::*;
use vstd::utf8::*;

verus! {

broadcast use vstd::utf8::group_utf8_lib;

/// The UTF-8 bytes of a character sequence (what `len` and byte offsets count).
pub open spec fn bytes_of(s: Seq<char>) -> Seq<u8> {
    encode_utf8(s)
}

/// The UTF-8 encoding of a single character.
pub open spec fn char_bytes(c: char) -> Seq<u8> {
    encode_utf8(seq![c])
}

/// `idx` is a character boundary of the string `s` (0 and the byte length count).
pub open spec fn boundary(s: Seq<char>, idx: int) -> bool {
    is_char_boundary(bytes_of(s), idx)
}

/// Bytes of `s` with the byte range `[lo, hi)` cut out.
pub open spec fn cut_bytes(b: Seq<u8>, lo: int, hi: int) -> Seq<u8> {
    b.subrange(0, lo) + b.subrange(hi, b.len() as int)
}

/// Bytes of `b` with `ins` inserted at byte `at`.
pub open spec fn insert_bytes(b: Seq<u8>, at: int, ins: Seq<u8>) -> Seq<u8> {
    b.subrange(0, at) + ins + b.subrange(at, b.len() as int)
}

/// A boundary lies on the byte length of the string.
pub proof fn lemma_boundary_le_len(s: Seq<char>, idx: int)
    requires
        boundary(s, idx),
    ensures
        0 <= idx <= bytes_of(s).len(),
{
    reveal_with_fuel(is_char_boundary, 1);
}

/// Joining two valid encodings leaves a boundary at the joint.
pub proof fn lemma_boundary_at_join(x: Seq<u8>, y: Seq<u8>)
    requires
        valid_utf8(x),
        valid_utf8(y),
    ensures
        valid_utf8(x + y),
        is_char_boundary(x + y, x.len() as int),
        is_char_boundary(x + y, 0),
        is_char_boundary(x + y, (x + y).len() as int),
{
    valid_utf8_concat(x, y);
    is_char_boundary_start_end_of_seq(x + y);
    if y.len() == 0 {
        assert(x + y =~= x);
    } else {
        reveal_with_fuel(valid_utf8, 1);
        assert((x + y)[x.len() as int] == y[0]);
        is_char_boundary_iff_not_is_continuation_byte(x + y, x.len() as int);
    }
}

/// Cutting a range between two boundaries keeps a valid encoding, with a
/// boundary where the cut was made.
pub proof fn lemma_cut_boundaries(s: Seq<char>, lo: int, hi: int)
    requires
        boundary(s, lo),
        boundary(s, hi),
        lo <= hi,
    ensures
        valid_utf8(cut_bytes(bytes_of(s), lo, hi)),
        is_char_boundary(cut_bytes(bytes_of(s), lo, hi), lo),
        cut_bytes(bytes_of(s), lo, hi).len() == bytes_of(s).len() - (hi - lo),
{
    let b = bytes_of(s);
    lemma_boundary_le_len(s, lo);
    lemma_boundary_le_len(s, hi);
    valid_utf8_split(b, lo);
    valid_utf8_split(b, hi);
    lemma_boundary_at_join(b.subrange(0, lo), b.subrange(hi, b.len() as int));
}

/// Width in bytes of the character whose encoding starts at byte `idx`.
pub open spec fn next_char_width(b: Seq<u8>, idx: int) -> int {
    length_of_first_scalar(b.subrange(idx, b.len() as int))
}

/// The character starting at a boundary `at` before the end is one to four
/// bytes wide and ends on a boundary.
pub proof fn lemma_next_boundary(s: Seq<char>, at: int)
    requires
        boundary(s, at),
        at < bytes_of(s).len(),
    ensures
        1 <= next_char_width(bytes_of(s), at) <= 4,
        at + next_char_width(bytes_of(s), at) <= bytes_of(s).len(),
        boundary(s, at + next_char_width(bytes_of(s), at)),
{
    let b = bytes_of(s);
    lemma_boundary_le_len(s, at);
    valid_utf8_split(b, at);
    let t = b.subrange(at, b.len() as int);
    assert(valid_first_scalar(t) && valid_utf8(pop_first_scalar(t)));
    let w = length_of_first_scalar(t);
    let e = at + w;
    if e < b.len() {
        let p = pop_first_scalar(t);
        assert(p.len() > 0);
        is_char_boundary_start_end_of_seq(p);
        is_char_boundary_iff_not_is_continuation_byte(p, 0);
        assert(p[0] == b[e]);
        is_char_boundary_iff_not_is_continuation_byte(b, e);
    } else {
        is_char_boundary_start_end_of_seq(b);
    }
}

/// Inserting a character's encoding at a boundary keeps the bytes valid;
/// the character then starts at that boundary, and cutting it out again
/// gives back the bytes it started from.
pub proof fn lemma_insert_then_cut(b: Seq<u8>, at: int, c: char)
    requires
        valid_utf8(b),
        is_char_boundary(b, at),
    ensures
        valid_utf8(insert_bytes(b, at, char_bytes(c))),
        is_char_boundary(insert_bytes(b, at, char_bytes(c)), at),
        at < insert_bytes(b, at, char_bytes(c)).len(),
        next_char_width(insert_bytes(b, at, char_bytes(c)), at) == char_bytes(c).len(),
        cut_bytes(insert_bytes(b, at, char_bytes(c)), at, at + char_bytes(c).len()) == b,
{
    let cb = char_bytes(c);
    let t = insert_bytes(b, at, cb);
    let pre = b.subrange(0, at);
    let post = b.subrange(at, b.len() as int);
    reveal_with_fuel(is_char_boundary, 1);
    valid_utf8_split(b, at);
    encode_utf8_first_scalar(seq![c]);
    assert(cb =~= encode_scalar(c as u32) + encode_utf8(seq![c].drop_first()));
    assert(cb.len() > 0);
    valid_utf8_concat(cb, post);
    lemma_boundary_at_join(pre, cb + post);
    assert(t =~= pre + (cb + post));
    let tail = t.subrange(at, t.len() as int);
    assert(tail =~= cb + post);
    assert(tail[0] == cb[0]);
    assert(length_of_first_codepoint(tail) == length_of_first_codepoint(cb));
    assert(cut_bytes(t, at, at + cb.len()) =~= b);
}

/// `String::insert`: inserts `c` at byte `idx`.
/// The standard library documents that it panics unless `idx` is a character
/// boundary, and that the character's encoding is placed at `idx`.
#[verifier::external_body]
pub(crate) fn string_insert(s: &mut String, idx: usize, c: char)
    requires
        boundary(old(s)@, idx as int),
    ensures
        bytes_of(final(s)@) == insert_bytes(bytes_of(old(s)@), idx as int, char_bytes(c)),
{
    s.insert(idx, c)
}

/// `String::remove`: removes the character that starts at byte `idx` and
/// returns it. Documented to panic unless `idx` is a boundary below the length.
#[verifier::external_body]
pub(crate) fn string_remove(s: &mut String, idx: usize) -> (c: char)
    requires
        boundary(old(s)@, idx as int),
        idx < bytes_of(old(s)@).len(),
    ensures
        bytes_of(old(s)@).subrange(idx as int, idx + char_bytes(c).len()) == char_bytes(c),
        idx + char_bytes(c).len() <= bytes_of(old(s)@).len(),
        char_bytes(c).len() == next_char_width(bytes_of(old(s)@), idx as int),
        bytes_of(final(s)@) == cut_bytes(bytes_of(old(s)@), idx as int, idx + char_bytes(c).len()),
{
    s.remove(idx)
}

/// `String::replace_range` with an empty replacement: removes the bytes
/// `[start, end)`. Documented to panic unless both ends are boundaries and
/// `start <= end`.
#[verifier::external_body]
pub(crate) fn string_cut(s: &mut String, start: usize, end: usize)
    requires
        start <= end,
        boundary(old(s)@, start as int),
        boundary(old(s)@, end as int),
    ensures
        bytes_of(final(s)@) == cut_bytes(bytes_of(old(s)@), start as int, end as int),
{
    s.replace_range(start..end, "")
}

/// Empties a string.
pub fn string_clear(s: &mut String)
    ensures
        final(s)@ == Seq::<char>::empty(),
{
    *s = String::new();
}

/// `String::push`: appends one character.
#[verifier::external_body]
pub(crate) fn string_push(s: &mut String, c: char)
    ensures
        final(s)@ == old(s)@.push(c),
{
    s.push(c)
}

/// The length of a string in bytes.
pub fn byte_len(s: &String) -> (n: usize)
    ensures
        n == bytes_of(s@).len(),
{
    str_byte_len(s.as_str())
}

/// The text held by the bytes `[lo, hi)` of `s`, when that range is in
/// order and both ends are character boundaries (what `str::get` answers).
pub open spec fn byte_slice(s: Seq<char>, lo: int, hi: int) -> Option<Seq<char>> {
    if lo <= hi && boundary(s, lo) && boundary(s, hi) {
        Some(decode_utf8(bytes_of(s).subrange(lo, hi)))
    } else {
        None
    }
}

/// A boundary that lies within a prefix ending at a boundary is a boundary
/// of that prefix.
pub proof fn lemma_boundary_in_prefix(b: Seq<u8>, lo: int, hi: int)
    requires
        valid_utf8(b),
        is_char_boundary(b, lo),
        is_char_boundary(b, hi),
        lo <= hi,
    ensures
        valid_utf8(b.subrange(0, hi)),
        is_char_boundary(b.subrange(0, hi), lo),
{
    reveal_with_fuel(is_char_boundary, 1);
    valid_utf8_split(b, hi);
    let head = b.subrange(0, hi);
    is_char_boundary_start_end_of_seq(head);
    if 0 < lo < hi {
        is_char_boundary_iff_not_is_continuation_byte(b, lo);
        assert(head[lo] == b[lo]);
        is_char_boundary_iff_not_is_continuation_byte(head, lo);
    }
}

/// The sub-slice of the bytes `[lo, hi)` (what `str::get` answers), or
/// `None` where indexing would panic: the range out of order, past the end,
/// or not on character boundaries.
pub(crate) fn str_slice(s: &str, lo: usize, hi: usize) -> (r: Option<&str>)
    ensures
        r is Some <==> (lo <= hi && boundary(s@, lo as int) && boundary(s@, hi as int)),
        r matches Some(t) ==> bytes_of(t@) == bytes_of(s@).subrange(lo as int, hi as int),
{
    if lo <= hi && s.is_char_boundary(lo) && s.is_char_boundary(hi) {
        proof {
            lemma_boundary_in_prefix(bytes_of(s@), lo as int, hi as int);
        }
        let (head, _) = s.split_at(hi);
        let (_, mid) = head.split_at(lo);
        proof {
            assert(bytes_of(mid@) =~= bytes_of(s@).subrange(lo as int, hi as int));
        }
        Some(mid)
    } else {
        None
    }
}

/// The slice that `str_slice` returns is `byte_slice`.
pub proof fn lemma_slice_text(s: Seq<char>, lo: int, hi: int, t: Seq<char>)
    requires
        lo <= hi && boundary(s, lo) && boundary(s, hi),
        bytes_of(t) == bytes_of(s).subrange(lo, hi),
    ensures
        byte_slice(s, lo, hi) == Some(t),
{
    encode_utf8_decode_utf8(t);
}

/// The length of a string slice in bytes: the length of its UTF-8 bytes.
pub fn str_byte_len(s: &str) -> (n: usize)
    ensures
        n == bytes_of(s@).len(),
{
    s.as_bytes().len()
}

} // verus!
