//! Breaking text into lines of bounded length, counted in bytes.
use vstd::prelude::*;
use vstd::string::StringSliceAdditionalSpecFns;
use vstd::utf8::{
    decode_utf8, encode_utf8, encode_utf8_decode_utf8, encode_utf8_valid_utf8, is_char_boundary,
    is_ascii_chars, is_ascii_chars_encode_utf8, is_char_boundary_iff_not_is_continuation_byte,
    is_char_boundary_start_end_of_seq, valid_utf8, valid_utf8_split,
};

verus! {

/// The byte of a line break.
pub const NEWLINE: u8 = 10;

/// The byte of a space.
pub const SPACE: u8 = 32;

/// Index of the last occurrence of `c` in `w`, if any.
pub open spec fn last_index(w: Seq<u8>, c: u8) -> Option<int>
    decreases w.len(),
{
    if w.len() == 0 {
        None
    } else if w.last() == c {
        Some(w.len() - 1)
    } else {
        last_index(w.drop_last(), c)
    }
}

/// Where a line that starts a window `w` ends: at the last newline of the
/// window if it has one, else at its last space, else at its end.
pub open spec fn cut_point(w: Seq<u8>) -> int {
    match last_index(w, NEWLINE) {
        Some(n) => n,
        None => match last_index(w, SPACE) {
            Some(sp) => sp,
            None => w.len() as int,
        },
    }
}

pub open spec fn min_int(a: int, b: int) -> int {
    if a <= b { a } else { b }
}

/// The wrapped rest of `s` when the current line starts at `x` and its
/// window ends at `y`.
pub open spec fn wrap_from(s: Seq<u8>, n: int, x: int, y: int) -> Seq<u8>
    decreases s.len() - x,
{
    if 0 <= x && x <= y && y < s.len() {
        proof {
            lemma_cut_point(s.subrange(x, y));
        }
        let end = x + cut_point(s.subrange(x, y));
        s.subrange(x, end) + seq![NEWLINE] + wrap_from(s, n, end + 1, min_int(s.len() as int, end + 1 + n))
    } else if 0 <= x <= s.len() {
        s.subrange(x, s.len() as int)
    } else {
        Seq::empty()
    }
}

/// The bytes `s` broken into lines of at most `n` bytes: each window of
/// `n` bytes is cut at its last newline, else its last space (which is
/// dropped), else after `n` bytes (dropping the next one).
pub open spec fn spec_wrap(s: Seq<u8>, n: int) -> Seq<u8> {
    wrap_from(s, n, 0, min_int(s.len() as int, n))
}

pub proof fn lemma_last_index(w: Seq<u8>, c: u8)
    ensures
        match last_index(w, c) {
            Some(i) => 0 <= i < w.len() && w[i] == c && forall|j: int| i < j < w.len() ==> w[j] != c,
            None => forall|j: int| 0 <= j < w.len() ==> w[j] != c,
        },
    decreases w.len(),
{
    if w.len() > 0 && w.last() != c {
        lemma_last_index(w.drop_last(), c);
        assert forall|j: int| 0 <= j < w.len() - 1 implies w[j] == w.drop_last()[j] by {}
    }
}

pub proof fn lemma_cut_point(w: Seq<u8>)
    ensures
        0 <= cut_point(w) <= w.len(),
{
    lemma_last_index(w, NEWLINE);
    lemma_last_index(w, SPACE);
}

pub proof fn lemma_last_index_unique(w: Seq<u8>, c: u8, k: int)
    requires
        0 <= k < w.len(),
        w[k] == c,
        forall|j: int| k < j < w.len() ==> w[j] != c,
    ensures
        last_index(w, c) == Some(k),
    decreases w.len(),
{
    if w.last() != c {
        lemma_last_index_unique(w.drop_last(), c, k);
    }
}

pub proof fn lemma_last_index_none(w: Seq<u8>, c: u8)
    requires
        forall|j: int| 0 <= j < w.len() ==> w[j] != c,
    ensures
        last_index(w, c) is None,
    decreases w.len(),
{
    if w.len() > 0 {
        lemma_last_index_none(w.drop_last(), c);
    }
}

/// Position `k` of `t` starts a line: it is the first position or follows
/// a newline.
pub open spec fn line_start(t: Seq<u8>, k: int) -> bool {
    k == 0 || (0 < k <= t.len() && t[k - 1] == NEWLINE)
}

/// The window of `n` bytes from `k`, when more text follows it,
/// holds a newline, or holds neither newline nor space and is followed by
/// a newline.
pub open spec fn window_ok(t: Seq<u8>, n: int, k: int) -> bool {
    k + n < t.len() ==> {
        ||| last_index(t.subrange(k, k + n), NEWLINE) is Some
        ||| (last_index(t.subrange(k, k + n), SPACE) is None && t[k + n] == NEWLINE)
    }
}

/// Every line of `t` starts a window that wrapping leaves as it is.
pub open spec fn well_wrapped(t: Seq<u8>, n: int) -> bool {
    forall|k: int| 0 <= k && #[trigger] line_start(t, k) ==> window_ok(t, n, k)
}

/// Wrapping a well-wrapped text from the start of one of its lines gives
/// back the rest of the text.
proof fn lemma_fixed_from(t: Seq<u8>, n: int, k: int)
    requires
        n > 0,
        well_wrapped(t, n),
        0 <= k <= t.len(),
        line_start(t, k),
    ensures
        wrap_from(t, n, k, min_int(t.len() as int, k + n)) == t.subrange(k, t.len() as int),
    decreases t.len() - k,
{
    let y = min_int(t.len() as int, k + n);
    if y < t.len() {
        let w = t.subrange(k, y);
        assert(window_ok(t, n, k));
        lemma_last_index(w, NEWLINE);
        lemma_last_index(w, SPACE);
        lemma_cut_point(w);
        let end = k + cut_point(w);
        match last_index(w, NEWLINE) {
            Some(q) => {
                assert(w[q] == t[k + q]);
                assert(t[end] == NEWLINE);
            },
            None => {
                assert(end == k + n);
                assert(t[end] == NEWLINE);
            },
        }
        assert(line_start(t, end + 1));
        lemma_fixed_from(t, n, end + 1);
        assert(wrap_from(t, n, k, y) == t.subrange(k, end) + seq![NEWLINE] + wrap_from(t, n, end + 1, min_int(t.len() as int, end + 1 + n)));
        assert(t.subrange(k, end) + seq![NEWLINE] + t.subrange(end + 1, t.len() as int) =~= t.subrange(k, t.len() as int));
    }
}

/// What wrapping gives is well wrapped.
proof fn lemma_wrap_from_well(s: Seq<u8>, n: int, x: int)
    requires
        n > 0,
        0 <= x <= s.len(),
    ensures
        well_wrapped(wrap_from(s, n, x, min_int(s.len() as int, x + n)), n),
    decreases s.len() - x,
{
    let y = min_int(s.len() as int, x + n);
    let t = wrap_from(s, n, x, y);
    if y < s.len() {
        let w = s.subrange(x, y);
        lemma_last_index(w, NEWLINE);
        lemma_last_index(w, SPACE);
        lemma_cut_point(w);
        let c = cut_point(w);
        let end = x + c;
        let l = s.subrange(x, end);
        let y2 = min_int(s.len() as int, end + 1 + n);
        let r = wrap_from(s, n, end + 1, y2);
        lemma_wrap_from_well(s, n, end + 1);
        assert(t == l + seq![NEWLINE] + r);
        assert(t[l.len() as int] == NEWLINE);
        assert forall|k: int| 0 <= k && #[trigger] line_start(t, k) implies window_ok(t, n, k) by {
            if k + n < t.len() {
                let tw = t.subrange(k, k + n);
                if k <= l.len() {
                    if k == 0 && l.len() == n {
                        assert(last_index(w, NEWLINE) is None);
                        assert(last_index(w, SPACE) is None);
                        assert(tw =~= w);
                        assert(t[k + n] == NEWLINE);
                    } else {
                        if k > 0 {
                            assert(t[k - 1] == NEWLINE);
                        }
                        assert(l.len() - k < n);
                        assert(tw[l.len() - k] == NEWLINE);
                        lemma_last_index(tw, NEWLINE);
                    }
                } else {
                    let k2 = k - l.len() - 1;
                    if k2 > 0 {
                        assert(r[k2 - 1] == t[k - 1]);
                    }
                    assert(line_start(r, k2));
                    assert(window_ok(r, n, k2));
                    assert(tw =~= r.subrange(k2, k2 + n));
                    assert(t[k + n] == r[k2 + n]);
                }
            }
        }
    }
}

/// Wrapping a wrapped text again changes nothing.
pub proof fn law_wrap_idempotent(s: Seq<u8>, n: int)
    requires
        n > 0,
    ensures
        spec_wrap(spec_wrap(s, n), n) == spec_wrap(s, n),
{
    lemma_wrap_from_well(s, n, 0);
    let t = spec_wrap(s, n);
    lemma_fixed_from(t, n, 0);
    assert(t.subrange(0, t.len() as int) =~= t);
}

/// `t[i..j]` holds no newline.
pub open spec fn no_newline(t: Seq<u8>, i: int, j: int) -> bool {
    forall|k: int| i <= k < j ==> #[trigger] t[k] != NEWLINE
}

/// No stretch of `t` without a newline is longer than `n` bytes.
pub open spec fn lines_at_most(t: Seq<u8>, n: int) -> bool {
    forall|i: int, j: int| 0 <= i <= j <= t.len() && #[trigger] no_newline(t, i, j) ==> j - i <= n
}

/// The lines of what wrapping gives are at most `n` characters long.
proof fn lemma_wrap_from_lines(s: Seq<u8>, n: int, x: int)
    requires
        n > 0,
        0 <= x <= s.len(),
    ensures
        lines_at_most(wrap_from(s, n, x, min_int(s.len() as int, x + n)), n),
    decreases s.len() - x,
{
    let y = min_int(s.len() as int, x + n);
    let t = wrap_from(s, n, x, y);
    if y < s.len() {
        let w = s.subrange(x, y);
        lemma_cut_point(w);
        let end = x + cut_point(w);
        let l = s.subrange(x, end);
        let r = wrap_from(s, n, end + 1, min_int(s.len() as int, end + 1 + n));
        lemma_wrap_from_lines(s, n, end + 1);
        assert(t == l + seq![NEWLINE] + r);
        assert forall|i: int, j: int| 0 <= i <= j <= t.len() && #[trigger] no_newline(t, i, j) implies j - i <= n by {
            let m = l.len() as int;
            if i <= m {
                if j > m {
                    assert(t[m] == NEWLINE);
                }
            } else {
                assert forall|k: int| i - m - 1 <= k < j - m - 1 implies #[trigger] r[k] != NEWLINE by {
                    assert(r[k] == t[k + m + 1]);
                }
                assert(no_newline(r, i - m - 1, j - m - 1));
            }
        }
    }
}

/// Wrapping to `n` bytes leaves no line longer than `n` bytes.
pub proof fn law_wrap_line_length(s: Seq<u8>, n: int)
    requires
        n > 0,
    ensures
        lines_at_most(spec_wrap(s, n), n),
{
    lemma_wrap_from_lines(s, n, 0);
}

/// Every cut that wrapping makes from line start `x` and window end `y`
/// falls between characters: each line start and each window end is a
/// character boundary of the bytes `s`, and so is the start of the last
/// line.
pub open spec fn cuts_on_boundaries(s: Seq<u8>, n: int, x: int, y: int) -> bool
    decreases s.len() - x,
{
    if 0 <= x && x <= y && y < s.len() {
        proof {
            lemma_cut_point(s.subrange(x, y));
        }
        let end = x + cut_point(s.subrange(x, y));
        &&& is_char_boundary(s, x)
        &&& is_char_boundary(s, y)
        &&& cuts_on_boundaries(s, n, end + 1, min_int(s.len() as int, end + 1 + n))
    } else {
        0 <= x <= s.len() ==> is_char_boundary(s, x)
    }
}

/// Wrapping the UTF-8 bytes of `t` to `n` bytes cuts only between
/// characters.
pub open spec fn wrap_fits(t: Seq<char>, n: int) -> bool {
    cuts_on_boundaries(encode_utf8(t), n, 0, min_int(encode_utf8(t).len() as int, n))
}

/// The text `t` wrapped to lines of at most `n` bytes of its UTF-8 form.
pub open spec fn spec_wrap_text(t: Seq<char>, n: int) -> Seq<char> {
    decode_utf8(spec_wrap(encode_utf8(t), n))
}

/// `t` wrapped to `n` bytes where the cuts fall between characters, else
/// `t` as it is.
pub open spec fn spec_send_wrap(t: Seq<char>, n: int) -> Seq<char> {
    if wrap_fits(t, n) {
        spec_wrap_text(t, n)
    } else {
        t
    }
}

proof fn lemma_encode_concat(a: Seq<char>, b: Seq<char>)
    ensures
        encode_utf8(a + b) == encode_utf8(a) + encode_utf8(b),
    decreases a.len(),
{
    if a.len() > 0 {
        lemma_encode_concat(a.drop_first(), b);
        assert((a + b).drop_first() =~= a.drop_first() + b);
        assert((a + b)[0] == a[0]);
        assert(encode_utf8(a + b) =~= encode_utf8(a) + encode_utf8(b));
    } else {
        assert(a + b =~= b);
    }
}

proof fn lemma_encode_newline()
    ensures
        encode_utf8("\n"@) == seq![NEWLINE],
{
    reveal_strlit("\n");
    let e = "\n"@;
    assert(e[0] as u32 == 10u32);
    assert((10u32 & 0x7Fu32) as u8 == 10u8) by (bit_vector);
    assert(e.drop_first() =~= Seq::<char>::empty());
    assert(encode_utf8(e.drop_first()) =~= Seq::<u8>::empty());
    assert(encode_utf8(e) =~= seq![NEWLINE]);
}

/// A position of valid UTF-8 bytes holding an ASCII byte is a character
/// boundary.
proof fn lemma_ascii_boundary(s: Seq<u8>, k: int)
    requires
        valid_utf8(s),
        0 <= k < s.len(),
        s[k] < 0x80,
    ensures
        is_char_boundary(s, k),
{
    is_char_boundary_iff_not_is_continuation_byte(s, k);
}

/// Every byte of `b` is an ASCII byte.
pub open spec fn ascii_bytes(b: Seq<u8>) -> bool {
    forall|i: int| 0 <= i < b.len() ==> #[trigger] b[i] < 0x80
}

proof fn lemma_encode_ascii(t: Seq<char>)
    requires
        is_ascii_chars(t),
    ensures
        ascii_bytes(encode_utf8(t)),
{
    is_ascii_chars_encode_utf8(t);
    assert forall|i: int| 0 <= i < encode_utf8(t).len() implies #[trigger] encode_utf8(t)[i] < 0x80 by {
        assert(t[i] as u8 == encode_utf8(t)[i]);
        assert('\0' <= t[i] <= '\u{7f}');
    }
}

/// Wrapping ASCII bytes gives ASCII bytes.
proof fn lemma_wrap_from_ascii(s: Seq<u8>, n: int, x: int, y: int)
    requires
        ascii_bytes(s),
    ensures
        ascii_bytes(wrap_from(s, n, x, y)),
    decreases s.len() - x,
{
    if 0 <= x && x <= y && y < s.len() {
        lemma_cut_point(s.subrange(x, y));
        let end = x + cut_point(s.subrange(x, y));
        lemma_wrap_from_ascii(s, n, end + 1, min_int(s.len() as int, end + 1 + n));
        let t = wrap_from(s, n, x, y);
        let l = s.subrange(x, end);
        let r = wrap_from(s, n, end + 1, min_int(s.len() as int, end + 1 + n));
        assert(t == l + seq![NEWLINE] + r);
        assert forall|i: int| 0 <= i < t.len() implies #[trigger] t[i] < 0x80 by {
            if i < l.len() {
                assert(t[i] == s[x + i]);
            } else if i > l.len() {
                assert(t[i] == r[i - l.len() - 1]);
            }
        }
    } else if 0 <= x <= s.len() {
        let t = s.subrange(x, s.len() as int);
        assert forall|i: int| 0 <= i < t.len() implies #[trigger] t[i] < 0x80 by {
            assert(t[i] == s[x + i]);
        }
    }
}

/// ASCII bytes are the UTF-8 form of the ASCII text with the same codes.
proof fn lemma_ascii_text_of(b: Seq<u8>) -> (c: Seq<char>)
    requires
        ascii_bytes(b),
    ensures
        is_ascii_chars(c),
        encode_utf8(c) == b,
        valid_utf8(b),
        decode_utf8(b) == c,
{
    let c = Seq::new(b.len(), |i: int| b[i] as char);
    assert forall|i: int| 0 <= i < c.len() implies '\0' <= #[trigger] c[i] <= '\u{7f}' by {
        assert(b[i] < 0x80);
    }
    is_ascii_chars_encode_utf8(c);
    assert forall|i: int| 0 <= i < b.len() implies #[trigger] encode_utf8(c)[i] == b[i] by {
        assert(c[i] as u8 == encode_utf8(c)[i]);
        assert(b[i] < 0x80);
    }
    assert(encode_utf8(c) =~= b);
    encode_utf8_valid_utf8(c);
    encode_utf8_decode_utf8(c);
    c
}

/// In valid ASCII bytes every position is a character boundary.
proof fn lemma_ascii_all_boundaries(b: Seq<u8>)
    requires
        ascii_bytes(b),
        valid_utf8(b),
    ensures
        forall|i: int| 0 <= i <= b.len() ==> #[trigger] is_char_boundary(b, i),
{
    is_char_boundary_start_end_of_seq(b);
    assert forall|i: int| 0 <= i <= b.len() implies #[trigger] is_char_boundary(b, i) by {
        if i < b.len() {
            is_char_boundary_iff_not_is_continuation_byte(b, i);
            assert(b[i] < 0x80);
        }
    }
}

/// Where every position is a character boundary, every cut is.
proof fn lemma_cuts_everywhere(s: Seq<u8>, n: int, x: int, y: int)
    requires
        forall|i: int| 0 <= i <= s.len() ==> #[trigger] is_char_boundary(s, i),
    ensures
        cuts_on_boundaries(s, n, x, y),
    decreases s.len() - x,
{
    if 0 <= x && x <= y && y < s.len() {
        lemma_cut_point(s.subrange(x, y));
        let end = x + cut_point(s.subrange(x, y));
        assert(is_char_boundary(s, x));
        assert(is_char_boundary(s, y));
        lemma_cuts_everywhere(s, n, end + 1, min_int(s.len() as int, end + 1 + n));
    } else if 0 <= x <= s.len() {
        assert(is_char_boundary(s, x));
    }
}

/// Text whose bytes are the wrapped bytes of some text comes back
/// unchanged when wrapped again.
pub proof fn law_wrap_text_idempotent(t: Seq<char>, r: Seq<char>, n: int)
    requires
        n > 0,
        encode_utf8(r) == spec_wrap(encode_utf8(t), n),
    ensures
        spec_wrap_text(r, n) == r,
{
    law_wrap_idempotent(encode_utf8(t), n);
    encode_utf8_decode_utf8(r);
}

/// ASCII text always wraps: every cut falls between characters; what
/// wrapping gives is ASCII text again whose bytes are the wrapped bytes,
/// so it wraps too; and wrapping it again changes nothing.
pub proof fn law_wrap_ascii(t: Seq<char>, n: int)
    requires
        n > 0,
        is_ascii_chars(t),
    ensures
        wrap_fits(t, n),
        is_ascii_chars(spec_wrap_text(t, n)),
        encode_utf8(spec_wrap_text(t, n)) == spec_wrap(encode_utf8(t), n),
        wrap_fits(spec_wrap_text(t, n), n),
        spec_wrap_text(spec_wrap_text(t, n), n) == spec_wrap_text(t, n),
{
    let b = encode_utf8(t);
    lemma_encode_ascii(t);
    encode_utf8_valid_utf8(t);
    lemma_ascii_all_boundaries(b);
    lemma_cuts_everywhere(b, n, 0, min_int(b.len() as int, n));
    let w = spec_wrap(b, n);
    lemma_wrap_from_ascii(b, n, 0, min_int(b.len() as int, n));
    let c = lemma_ascii_text_of(w);
    assert(spec_wrap_text(t, n) == c);
    lemma_ascii_all_boundaries(w);
    lemma_cuts_everywhere(w, n, 0, min_int(w.len() as int, n));
    law_wrap_text_idempotent(t, c, n);
}

/// The last position in `b[x..y]`, counted from `x`, that holds `c`.
fn last_in_window(b: &[u8], x: usize, y: usize, c: u8) -> (r: Option<usize>)
    requires
        x <= y <= b@.len(),
    ensures
        match r {
            Some(i) => last_index(b@.subrange(x as int, y as int), c) == Some(i as int),
            None => last_index(b@.subrange(x as int, y as int), c) is None,
        },
{
    let ghost w = b@.subrange(x as int, y as int);
    let mut k: usize = y;
    while k > x
        invariant
            x <= k <= y <= b@.len(),
            w == b@.subrange(x as int, y as int),
            forall|j: int| (k - x) <= j < w.len() ==> w[j] != c,
        decreases k,
    {
        k = k - 1;
        if b[k] == c {
            proof {
                lemma_last_index_unique(w, c, (k - x) as int);
            }
            return Some(k - x);
        }
    }
    proof {
        lemma_last_index_none(w, c);
    }
    None
}

/// Where the line that starts at `x` ends, for the window that ends at `y`.
fn cut_in_window(b: &[u8], x: usize, y: usize) -> (r: usize)
    requires
        x <= y <= b@.len(),
    ensures
        r == cut_point(b@.subrange(x as int, y as int)),
        r <= y - x,
{
    let ghost w = b@.subrange(x as int, y as int);
    let nl = last_in_window(b, x, y, NEWLINE);
    let sp = last_in_window(b, x, y, SPACE);
    proof {
        lemma_last_index(w, NEWLINE);
        lemma_last_index(w, SPACE);
    }
    match nl {
        Some(n) => n,
        None => match sp {
            Some(p) => p,
            None => y - x,
        },
    }
}

/// The part of `s` between the byte positions `x` and `e`, both character
/// boundaries.
fn byte_slice<'a>(s: &'a str, x: usize, e: usize) -> (r: &'a str)
    requires
        x <= e <= s.spec_bytes().len(),
        is_char_boundary(s.spec_bytes(), x as int),
        is_char_boundary(s.spec_bytes(), e as int),
    ensures
        r.spec_bytes() == s.spec_bytes().subrange(x as int, e as int),
{
    let ghost b = s.spec_bytes();
    proof {
        encode_utf8_valid_utf8(s@);
    }
    let (_, rest) = s.split_at(x);
    proof {
        let rb = rest.spec_bytes();
        valid_utf8_split(b, x as int);
        assert(rb == b.subrange(x as int, b.len() as int));
        if e < b.len() {
            is_char_boundary_iff_not_is_continuation_byte(b, e as int);
            is_char_boundary_iff_not_is_continuation_byte(rb, e - x);
            assert(rb[e - x] == b[e as int]);
        } else {
            is_char_boundary_start_end_of_seq(rb);
        }
    }
    let (piece, _) = rest.split_at(e - x);
    proof {
        assert(piece.spec_bytes() =~= b.subrange(x as int, e as int));
    }
    piece
}

/// Breaks a text into lines of at most `line_length` bytes: each window of
/// `line_length` bytes is cut at its last newline, else at its last space
/// (which is dropped), else at its end (dropping the byte after it). The
/// cuts must fall between characters.
pub fn wrap_str(s: &str, line_length: usize) -> (r: String)
    requires
        line_length > 0,
        wrap_fits(s@, line_length as int),
    ensures
        encode_utf8(r@) == spec_wrap(s.spec_bytes(), line_length as int),
        r@ == spec_wrap_text(s@, line_length as int),
{
    let b = s.as_bytes();
    let ghost bs = s.spec_bytes();
    let ghost n = line_length as int;
    let len = b.len();
    let mut x: usize = 0;
    let mut y: usize = if len <= line_length { len } else { line_length };
    let mut ret = String::new();
    proof {
        encode_utf8_valid_utf8(s@);
        reveal_strlit("\n");
        assert(encode_utf8(ret@) =~= Seq::<u8>::empty());
        lemma_encode_newline();
    }
    while x <= y && y < len
        invariant
            b@ == bs,
            bs == s.spec_bytes(),
            valid_utf8(bs),
            len == bs.len(),
            n == line_length as int,
            line_length > 0,
            x <= len,
            y <= len,
            encode_utf8(ret@) + wrap_from(bs, n, x as int, y as int) == spec_wrap(bs, n),
            cuts_on_boundaries(bs, n, x as int, y as int),
            encode_utf8("\n"@) == seq![NEWLINE],
        decreases len - x,
    {
        let ghost old_ret = ret@;
        let ghost old_x = x as int;
        let ghost old_y = y as int;
        let ghost w = bs.subrange(x as int, y as int);
        let range_end = cut_in_window(b, x, y);
        let end = x + range_end;
        proof {
            lemma_last_index(w, NEWLINE);
            lemma_last_index(w, SPACE);
            if end < y {
                assert(bs[end as int] == w[range_end as int]);
                lemma_ascii_boundary(bs, end as int);
            }
        }
        let piece = byte_slice(s, x, end);
        ret.append(piece);
        ret.append("\n");
        x = end + 1;
        y = if len - x <= line_length { len } else { x + line_length };
        proof {
            assert(y as int == min_int(len as int, end + 1 + n));
            let rest = wrap_from(bs, n, x as int, y as int);
            assert(wrap_from(bs, n, old_x, old_y) == bs.subrange(old_x, end as int) + seq![NEWLINE] + rest);
            assert(ret@ == old_ret + piece@ + "\n"@);
            lemma_encode_concat(old_ret + piece@, "\n"@);
            lemma_encode_concat(old_ret, piece@);
            assert(encode_utf8(ret@) + rest =~= encode_utf8(old_ret) + wrap_from(bs, n, old_x, old_y));
        }
    }
    assert(wrap_from(bs, n, x as int, y as int) == bs.subrange(x as int, len as int));
    proof {
        is_char_boundary_start_end_of_seq(bs);
    }
    let tail = byte_slice(s, x, len);
    let ghost before = ret@;
    ret.append(tail);
    proof {
        lemma_encode_concat(before, tail@);
        assert(encode_utf8(ret@) =~= spec_wrap(bs, n));
        encode_utf8_decode_utf8(ret@);
    }
    ret
}

/// Whether wrapping `s` to `line_length` bytes cuts only between
/// characters.
pub fn wrap_fits_str(s: &str, line_length: usize) -> (r: bool)
    requires
        line_length > 0,
    ensures
        r == wrap_fits(s@, line_length as int),
{
    let b = s.as_bytes();
    let ghost bs = s.spec_bytes();
    let ghost n = line_length as int;
    let len = b.len();
    let mut x: usize = 0;
    let mut y: usize = if len <= line_length { len } else { line_length };
    while x <= y && y < len
        invariant
            b@ == bs,
            bs == s.spec_bytes(),
            len == bs.len(),
            n == line_length as int,
            line_length > 0,
            x <= len,
            y <= len,
            wrap_fits(s@, n) == cuts_on_boundaries(bs, n, x as int, y as int),
        decreases len - x,
    {
        if !s.is_char_boundary(x) || !s.is_char_boundary(y) {
            return false;
        }
        let range_end = cut_in_window(b, x, y);
        let end = x + range_end;
        x = end + 1;
        y = if len - x <= line_length { len } else { x + line_length };
    }
    s.is_char_boundary(x)
}

/// Wraps `s` to `line_length` bytes where the cuts fall between
/// characters; text whose cuts would split a character is kept as it is.
pub fn wrap_or_keep(s: &str, line_length: usize) -> (r: String)
    requires
        line_length > 0,
    ensures
        r@ == spec_send_wrap(s@, line_length as int),
{
    if wrap_fits_str(s, line_length) {
        wrap_str(s, line_length)
    } else {
        s.to_string()
    }
}

} // verus!
