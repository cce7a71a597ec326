//! Aligning the captured stream with the played pattern and comparing them.

use vstd::prelude::*;
use crate::check::types::{Mismatch, StreamStats};

verus! {

/// The first `k` bytes of `needle` end at position `pos` of `hay`.
pub open spec fn suffix_match(needle: Seq<u8>, hay: Seq<u8>, k: int, pos: int) -> bool {
    &&& 0 <= k <= needle.len()
    &&& k <= pos <= hay.len()
    &&& forall|t: int| 0 <= t < k ==> #[trigger] needle[t] == hay[pos - k + t]
}

/// `needle` occurs in `hay` starting at `start`.
pub open spec fn occurs_at(hay: Seq<u8>, needle: Seq<u8>, start: int) -> bool {
    &&& 0 <= start
    &&& start + needle.len() <= hay.len()
    &&& forall|t: int| 0 <= t < needle.len() ==> #[trigger] hay[start + t] == needle[t]
}

/// The first position at which `needle` occurs in `hay`, if any.
pub open spec fn first_occurrence(hay: Seq<u8>, needle: Seq<u8>, r: Option<usize>) -> bool {
    match r {
        Some(i) => occurs_at(hay, needle, i as int) && forall|j: int| 0 <= j < i ==> !occurs_at(hay, needle, j),
        None => forall|j: int| !occurs_at(hay, needle, j),
    }
}

/// The first `k` bytes of `needle` are a proper border of its first `e`
/// bytes: they also end that prefix.
pub open spec fn is_border(needle: Seq<u8>, k: int, e: int) -> bool {
    k < e && suffix_match(needle, needle, k, e)
}

pub open spec fn is_longest_border(needle: Seq<u8>, k: int, e: int) -> bool {
    &&& is_border(needle, k, e)
    &&& forall|j: int| k < j < e ==> !#[trigger] is_border(needle, j, e)
}

proof fn lemma_shorter_match_is_border(needle: Seq<u8>, hay: Seq<u8>, j: int, m: int, pos: int)
    requires
        suffix_match(needle, hay, j, pos),
        suffix_match(needle, hay, m, pos),
        j < m,
    ensures
        is_border(needle, j, m),
{
    assert forall|t: int| 0 <= t < j implies #[trigger] needle[t] == needle[m - j + t] by {
        assert(needle[m - j + t] == hay[pos - m + (m - j + t)]);
    }
}

proof fn lemma_border_of_match(needle: Seq<u8>, hay: Seq<u8>, k: int, m: int, pos: int)
    requires
        suffix_match(needle, hay, m, pos),
        is_border(needle, k, m),
    ensures
        suffix_match(needle, hay, k, pos),
{
    assert forall|t: int| 0 <= t < k implies #[trigger] needle[t] == hay[pos - k + t] by {
        assert(needle[t] == needle[m - k + t]);
        assert(needle[m - k + t] == hay[pos - m + (m - k + t)]);
    }
}

proof fn lemma_extend(needle: Seq<u8>, hay: Seq<u8>, k: int, pos: int)
    requires
        0 <= k < needle.len(),
        k <= pos < hay.len(),
    ensures
        suffix_match(needle, hay, k + 1, pos + 1) <==> (suffix_match(needle, hay, k, pos) && needle[k] == hay[pos]),
{
    if suffix_match(needle, hay, k + 1, pos + 1) {
        assert forall|t: int| 0 <= t < k implies #[trigger] needle[t] == hay[pos - k + t] by {
            assert(needle[t] == hay[pos + 1 - (k + 1) + t]);
        }
        assert(needle[k] == hay[pos + 1 - (k + 1) + k]);
    }
    if suffix_match(needle, hay, k, pos) && needle[k] == hay[pos] {
        assert forall|t: int| 0 <= t < k + 1 implies #[trigger] needle[t] == hay[pos + 1 - (k + 1) + t] by {
            if t < k {
                assert(needle[t] == hay[pos - k + t]);
            }
        }
    }
}

proof fn lemma_occurs_iff_match(hay: Seq<u8>, needle: Seq<u8>, start: int)
    requires
        0 <= start,
    ensures
        occurs_at(hay, needle, start) <==> suffix_match(needle, hay, needle.len() as int, start + needle.len()),
{
    if occurs_at(hay, needle, start) {
        assert forall|t: int| 0 <= t < needle.len() implies #[trigger] needle[t] == hay[start + needle.len() - needle.len() + t] by {
            assert(hay[start + t] == needle[t]);
        }
    }
    if suffix_match(needle, hay, needle.len() as int, start + needle.len()) {
        assert forall|t: int| 0 <= t < needle.len() implies #[trigger] hay[start + t] == needle[t] by {
            assert(needle[t] == hay[start + needle.len() - needle.len() + t]);
        }
    }
}

/// The failure table of `needle`: entry `i` is the length of the longest
/// proper border of the first `i + 1` bytes.
fn border_table(needle: &[u8]) -> (table: Vec<usize>)
    requires
        needle@.len() > 0,
    ensures
        table@.len() == needle@.len(),
        forall|i: int| 0 <= i < needle@.len() ==> is_longest_border(needle@, #[trigger] table@[i] as int, i + 1),
{
    let n = needle.len();
    let ghost p = needle@;
    let mut table: Vec<usize> = Vec::new();
    let mut i: usize = 0;
    while i < n
        invariant
            i <= n,
            n == p.len(),
            table@.len() == i,
            forall|j: int| 0 <= j < i ==> table@[j] == 0,
        decreases n - i,
    {
        table.push(0);
        i += 1;
    }
    assert(is_longest_border(p, 0, 1));
    let mut len: usize = 0;
    let mut index: usize = 1;
    while index < n
        invariant
            1 <= index <= n,
            n == p.len(),
            p == needle@,
            table@.len() == n,
            forall|i: int| 0 <= i < index ==> is_longest_border(p, #[trigger] table@[i] as int, i + 1),
            forall|i: int| index <= i < n ==> #[trigger] table@[i] == 0,
            len == table@[index - 1],
        decreases n - index,
    {
        let c = needle[index];
        assert(is_longest_border(p, len as int, index as int));
        proof {
            assert forall|k: int| len + 1 < k <= index implies !#[trigger] is_border(p, k, index + 1) by {
                if is_border(p, k, index + 1) {
                    lemma_extend(p, p, k - 1, index as int);
                    assert(is_border(p, k - 1, index as int));
                }
            }
        }
        // Every border of the longer prefix, shortened by one, is a border
        // of `p[..index]` no longer than `len` whose next byte is `c`.
        while len > 0 && needle[index] != needle[len]
            invariant
                1 <= index < n,
                n == p.len(),
                p == needle@,
                c == p[index as int],
                table@.len() == n,
                forall|i: int| 0 <= i < index ==> is_longest_border(p, #[trigger] table@[i] as int, i + 1),
                forall|i: int| index <= i < n ==> #[trigger] table@[i] == 0,
                len < index,
                is_border(p, len as int, index as int),
                forall|k: int| len + 1 < k <= index ==> !#[trigger] is_border(p, k, index + 1),
            decreases len,
        {
            let next = table[len - 1];
            proof {
                assert(is_longest_border(p, table@[len - 1] as int, len as int));
                lemma_border_of_match(p, p, next as int, len as int, index as int);
                assert forall|k: int| next + 1 < k <= index implies !#[trigger] is_border(p, k, index + 1) by {
                    if k > len + 1 {
                    } else if k == len + 1 {
                        lemma_extend(p, p, len as int, index as int);
                    } else {
                        if is_border(p, k, index + 1) {
                            lemma_extend(p, p, k - 1, index as int);
                            lemma_shorter_match_is_border(p, p, k - 1, len as int, index as int);
                        }
                    }
                }
            }
            len = next;
        }
        if needle[index] == needle[len] {
            proof {
                lemma_extend(p, p, len as int, index as int);
            }
            len += 1;
            table.set(index, len);
        } else {
            proof {
                assert forall|k: int| 0 < k < index + 1 implies !#[trigger] is_border(p, k, index + 1) by {
                    if k == 1 {
                        lemma_extend(p, p, 0, index as int);
                    }
                }
                assert(table@[index as int] == 0);
                assert(suffix_match(p, p, 0, index + 1));
            }
        }
        assert(is_longest_border(p, table@[index as int] as int, index + 1));
        index += 1;
    }
    table
}

/// The position of the first occurrence of `needle` in `haystack`, found
/// with the Knuth-Morris-Pratt failure table; an empty needle occurs at 0.
pub fn find_subslice(haystack: &[u8], needle: &[u8]) -> (r: Option<usize>)
    ensures
        first_occurrence(haystack@, needle@, r),
{
    let ghost h = haystack@;
    let ghost p = needle@;
    if needle.len() == 0 {
        assert(occurs_at(h, p, 0));
        return Some(0);
    }
    if needle.len() > haystack.len() {
        return None;
    }
    let n = needle.len();
    let table = border_table(needle);
    let mut matched: usize = 0;
    let mut index: usize = 0;
    while index < haystack.len()
        invariant
            0 < n == p.len() <= h.len(),
            h == haystack@,
            p == needle@,
            table@.len() == n,
            forall|i: int| 0 <= i < n ==> is_longest_border(p, #[trigger] table@[i] as int, i + 1),
            index <= h.len(),
            matched < n,
            suffix_match(p, h, matched as int, index as int),
            forall|k: int| matched < k <= n ==> !#[trigger] suffix_match(p, h, k, index as int),
            forall|q: int| q <= index ==> !#[trigger] suffix_match(p, h, n as int, q),
        decreases h.len() - index,
    {
        let byte = haystack[index];
        proof {
            assert forall|k: int| matched + 1 < k <= n implies !#[trigger] suffix_match(p, h, k, index + 1) by {
                if suffix_match(p, h, k, index + 1) {
                    lemma_extend(p, h, k - 1, index as int);
                }
            }
        }
        while matched > 0 && byte != needle[matched]
            invariant
                0 < n == p.len() <= h.len(),
                h == haystack@,
                p == needle@,
                index < h.len(),
                byte == h[index as int],
                table@.len() == n,
                forall|i: int| 0 <= i < n ==> is_longest_border(p, #[trigger] table@[i] as int, i + 1),
                matched < n,
                suffix_match(p, h, matched as int, index as int),
                forall|k: int| matched + 1 < k <= n ==> !#[trigger] suffix_match(p, h, k, index + 1),
            decreases matched,
        {
            let next = table[matched - 1];
            proof {
                assert(is_longest_border(p, table@[matched - 1] as int, matched as int));
                lemma_border_of_match(p, h, next as int, matched as int, index as int);
                assert forall|k: int| next + 1 < k <= n implies !#[trigger] suffix_match(p, h, k, index + 1) by {
                    if k > matched + 1 {
                    } else if k == matched + 1 {
                        lemma_extend(p, h, matched as int, index as int);
                    } else {
                        if suffix_match(p, h, k, index + 1) {
                            lemma_extend(p, h, k - 1, index as int);
                            lemma_shorter_match_is_border(p, h, k - 1, matched as int, index as int);
                        }
                    }
                }
            }
            matched = next;
        }
        if byte == needle[matched] {
            proof {
                lemma_extend(p, h, matched as int, index as int);
            }
            matched += 1;
            if matched == n {
                proof {
                    let start = index + 1 - n;
                    lemma_occurs_iff_match(h, p, start);
                    assert forall|j: int| 0 <= j < start implies !occurs_at(h, p, j) by {
                        lemma_occurs_iff_match(h, p, j);
                    }
                }
                return Some(index + 1 - matched);
            }
        } else {
            proof {
                assert forall|k: int| 0 < k <= n implies !#[trigger] suffix_match(p, h, k, index + 1) by {
                    if k == 1 {
                        lemma_extend(p, h, 0, index as int);
                    }
                }
            }
            matched = 0;
        }
        index += 1;
    }
    proof {
        assert forall|j: int| !occurs_at(h, p, j) by {
            if 0 <= j {
                lemma_occurs_iff_match(h, p, j);
            }
        }
    }
    None
}


/// Number of positions `i < k` at which `captured[offset + i]` differs from `expected[i]`.
pub open spec fn mismatches(expected: Seq<u8>, captured: Seq<u8>, offset: int, k: int) -> int
    decreases k,
{
    if k <= 0 {
        0
    } else {
        mismatches(expected, captured, offset, k - 1) + if expected[k - 1] != captured[offset + k - 1] { 1int } else { 0int }
    }
}

proof fn lemma_mismatches_monotone(expected: Seq<u8>, captured: Seq<u8>, offset: int, j: int, k: int)
    requires
        0 <= j <= k,
    ensures
        mismatches(expected, captured, offset, j) <= mismatches(expected, captured, offset, k),
    decreases k - j,
{
    if j < k {
        lemma_mismatches_monotone(expected, captured, offset, j, k - 1);
    }
}

/// The first position below `k` at which the streams differ.
pub open spec fn is_first_mismatch(expected: Seq<u8>, captured: Seq<u8>, offset: int, k: int, i: int) -> bool {
    &&& 0 <= i < k
    &&& expected[i] != captured[offset + i]
    &&& forall|j: int| 0 <= j < i ==> expected[j] == captured[offset + j]
}

/// The outcome of comparing the expected stream against the captured one
/// from `offset` on: bytes compared, bytes that differ, expected bytes past
/// the end of the capture, and the first difference.
pub open spec fn comparison_at(
    expected: Seq<u8>,
    captured: Seq<u8>,
    offset: int,
    r: (usize, usize, usize, Option<Mismatch>),
) -> bool {
    let available = if captured.len() >= offset { captured.len() - offset } else { 0 };
    let compared = if expected.len() <= available { expected.len() as int } else { available };
    &&& r.0 == compared
    &&& r.1 == mismatches(expected, captured, offset, compared)
    &&& r.2 == expected.len() - compared
    &&& match r.3 {
        Some(m) => is_first_mismatch(expected, captured, offset, compared, m.byte_offset as int) && m.expected
            == expected[m.byte_offset as int] && m.actual == captured[offset + m.byte_offset],
        None => forall|j: int| 0 <= j < compared ==> expected[j] == captured[offset + j],
    }
}

pub fn compare_at_offset(expected: &[u8], captured: &[u8], offset: usize) -> (r: (usize, usize, usize, Option<Mismatch>))
    ensures
        comparison_at(expected@, captured@, offset as int, r),
{
    let available = captured.len().saturating_sub(offset);
    let compared = if expected.len() <= available { expected.len() } else { available };
    let mut count: usize = 0;
    let mut first: Option<Mismatch> = None;
    let cap_len = captured.len();
    let mut index: usize = 0;
    while index < compared
        invariant
            cap_len == captured@.len(),
            compared <= expected@.len(),
            compared == 0 || offset + compared <= captured@.len(),
            index <= compared,
            count == mismatches(expected@, captured@, offset as int, index as int),
            count <= index,
            match first {
                Some(m) => is_first_mismatch(expected@, captured@, offset as int, index as int, m.byte_offset as int)
                    && m.expected == expected@[m.byte_offset as int] && m.actual == captured@[offset + m.byte_offset],
                None => forall|j: int| 0 <= j < index ==> expected@[j] == captured@[offset + j],
            },
        decreases compared - index,
    {
        let expected_byte = expected[index];
        let actual_byte = captured[offset + index];
        if expected_byte != actual_byte {
            count += 1;
            if first.is_none() {
                first = Some(Mismatch { byte_offset: index, expected: expected_byte, actual: actual_byte });
            }
        }
        index += 1;
    }
    let missing = expected.len() - compared;
    (compared, count, missing, first)
}

fn count_mismatches_capped(expected: &[u8], captured: &[u8], offset: usize, window_len: usize, cap: usize) -> (m: usize)
    requires
        window_len <= expected@.len(),
        offset + window_len <= captured@.len(),
    ensures
        mismatches(expected@, captured@, offset as int, window_len as int) <= cap ==> m == mismatches(
            expected@,
            captured@,
            offset as int,
            window_len as int,
        ),
        mismatches(expected@, captured@, offset as int, window_len as int) > cap ==> m > cap,
{
    let cap_len = captured.len();
    let mut count: usize = 0;
    let mut index: usize = 0;
    while index < window_len
        invariant
            window_len <= expected@.len(),
            offset + window_len <= captured@.len(),
            cap_len == captured@.len(),
            index <= window_len,
            count == mismatches(expected@, captured@, offset as int, index as int),
            count <= cap,
            count <= index,
        decreases window_len - index,
    {
        if captured[offset + index] != expected[index] {
            count += 1;
            if count > cap {
                proof {
                    lemma_mismatches_monotone(expected@, captured@, offset as int, index + 1, window_len as int);
                }
                return count;
            }
        }
        index += 1;
    }
    count
}

fn prefix_matches(expected: &[u8], captured: &[u8], offset: usize, prefix_len: usize) -> (b: bool)
    requires
        prefix_len <= expected@.len(),
        offset + prefix_len <= captured@.len(),
    ensures
        b == forall|i: int| 0 <= i < prefix_len ==> #[trigger] captured@[offset + i] == expected@[i],
{
    let cap_len = captured.len();
    let mut index: usize = 0;
    while index < prefix_len
        invariant
            prefix_len <= expected@.len(),
            offset + prefix_len <= captured@.len(),
            cap_len == captured@.len(),
            index <= prefix_len,
            forall|i: int| 0 <= i < index ==> #[trigger] captured@[offset + i] == expected@[i],
        decreases prefix_len - index,
    {
        if captured[offset + index] != expected[index] {
            return false;
        }
        index += 1;
    }
    true
}

/// Parameters of the fallback alignment search: window length, prefix
/// length and mismatch allowance.
pub open spec fn sync_window(rate: u32, bytes_per_frame: usize, expected_len: int) -> (int, int, int) {
    let window_frames = if rate / 50 >= 64 { (rate / 50) as int } else { 64 };
    let window_len = if expected_len <= window_frames * bytes_per_frame { expected_len } else { window_frames * bytes_per_frame };
    let prefix_len = if window_len <= bytes_per_frame * 8 { window_len } else { bytes_per_frame * 8 };
    let max_mismatches = if window_len / 100 >= bytes_per_frame { window_len / 100 } else { bytes_per_frame as int };
    (window_len, prefix_len, max_mismatches)
}

/// A frame-aligned offset at which the window's first frames match exactly
/// and the whole window has at most the allowed number of differences.
pub open spec fn is_sync_candidate(
    expected: Seq<u8>,
    captured: Seq<u8>,
    bytes_per_frame: int,
    window_len: int,
    prefix_len: int,
    max_mismatches: int,
    offset: int,
) -> bool {
    &&& 0 <= offset <= captured.len() - window_len
    &&& offset % bytes_per_frame == 0
    &&& forall|i: int| 0 <= i < prefix_len ==> captured[offset + i] == expected[i]
    &&& mismatches(expected, captured, offset, window_len) <= max_mismatches
}

/// The alignment of the short search: the earliest of the candidates with
/// the fewest differences, or none when there is no candidate (or the
/// streams are shorter than one frame).
pub open spec fn short_sync_result(
    rate: u32,
    bytes_per_frame: usize,
    expected: Seq<u8>,
    captured: Seq<u8>,
    r: Option<usize>,
) -> bool {
    let (wl, pl, mm) = sync_window(rate, bytes_per_frame, expected.len() as int);
    let bpf = bytes_per_frame as int;
    if bpf == 0 || expected.len() < bpf || captured.len() < bpf || captured.len() < wl {
        r is None
    } else {
        match r {
            None => forall|o: int| !is_sync_candidate(expected, captured, bpf, wl, pl, mm, o),
            Some(o) => {
                &&& is_sync_candidate(expected, captured, bpf, wl, pl, mm, o as int)
                &&& forall|o2: int| #[trigger] is_sync_candidate(expected, captured, bpf, wl, pl, mm, o2) ==> mismatches(expected, captured, o as int, wl)
                    <= mismatches(expected, captured, o2, wl)
                &&& forall|o2: int| #[trigger] is_sync_candidate(expected, captured, bpf, wl, pl, mm, o2) && o2 < o ==> mismatches(expected, captured, o as int, wl)
                    < mismatches(expected, captured, o2, wl)
            },
        }
    }
}

proof fn lemma_no_multiple_between(o: int, base: int, step: int)
    requires
        step > 0,
        o >= 0,
        base >= 0,
        o % step == 0,
        base % step == 0,
    ensures
        !(base < o < base + step),
{
    assert(!(base < o < base + step)) by (nonlinear_arith)
        requires
            step > 0,
            o >= 0,
            base >= 0,
            o % step == 0,
            base % step == 0,
    ;
}

proof fn lemma_next_multiple(base: int, step: int)
    requires
        step > 0,
        base >= 0,
        base % step == 0,
    ensures
        (base + step) % step == 0,
{
    assert((base + step) % step == 0) by (nonlinear_arith)
        requires
            step > 0,
            base >= 0,
            base % step == 0,
    ;
}

/// Looks for the pattern's first window in the capture at frame-aligned
/// offsets, tolerating a few damaged bytes after an exactly matching first
/// few frames.
pub fn find_short_frame_aligned_sync(rate: u32, bytes_per_frame: usize, expected: &[u8], captured: &[u8]) -> (r: Option<usize>)
    requires
        bytes_per_frame * 8 <= usize::MAX,
        bytes_per_frame * (if rate / 50 >= 64 { (rate / 50) as int } else { 64 }) <= usize::MAX,
    ensures
        short_sync_result(rate, bytes_per_frame, expected@, captured@, r),
{
    let ghost e = expected@;
    let ghost c = captured@;
    if bytes_per_frame == 0 || expected.len() < bytes_per_frame || captured.len() < bytes_per_frame {
        return None;
    }
    let window_frames: usize = if (rate as usize) / 50 >= 64 { (rate as usize) / 50 } else { 64 };
    assert(window_frames * bytes_per_frame <= usize::MAX) by (nonlinear_arith)
        requires
            bytes_per_frame * window_frames <= usize::MAX,
    ;
    let window_bytes: usize = window_frames * bytes_per_frame;
    let window_len: usize = if expected.len() <= window_bytes { expected.len() } else { window_bytes };
    if captured.len() < window_len {
        return None;
    }
    let prefix_limit: usize = bytes_per_frame * 8;
    let prefix_len: usize = if window_len <= prefix_limit { window_len } else { prefix_limit };
    let max_mismatches: usize = if window_len / 100 >= bytes_per_frame { window_len / 100 } else { bytes_per_frame };
    let ghost bpf = bytes_per_frame as int;
    assert(sync_window(rate, bytes_per_frame, e.len() as int) == (window_len as int, prefix_len as int, max_mismatches as int));
    assert(window_len >= bytes_per_frame) by (nonlinear_arith)
        requires
            window_len == (if e.len() <= window_bytes { e.len() as int } else { window_bytes as int }),
            e.len() >= bytes_per_frame,
            window_bytes == window_frames * bytes_per_frame,
            window_frames >= 64,
    ;
    let cap_len: usize = captured.len();
    let last: usize = cap_len - window_len;
    let mut best: Option<(usize, usize)> = None;
    let mut offset: usize = 0;
    while offset <= last
        invariant
            bytes_per_frame > 0,
            window_len >= bytes_per_frame,
            window_len <= e.len(),
            prefix_len <= window_len,
            last == c.len() - window_len,
            cap_len == c.len(),
            sync_window(rate, bytes_per_frame, e.len() as int) == (window_len as int, prefix_len as int, max_mismatches as int),
            e.len() >= bpf,
            c.len() >= bpf,
            e == expected@,
            c == captured@,
            bpf == bytes_per_frame,
            offset % bytes_per_frame == 0,
            offset <= last + bytes_per_frame,
            match best {
                None => forall|o: int| 0 <= o < offset ==> !is_sync_candidate(e, c, bpf, window_len as int, prefix_len as int, max_mismatches as int, o),
                Some((m, o)) => {
                    &&& o < offset
                    &&& m > 0
                    &&& is_sync_candidate(e, c, bpf, window_len as int, prefix_len as int, max_mismatches as int, o as int)
                    &&& m == mismatches(e, c, o as int, window_len as int)
                    &&& forall|o2: int| 0 <= o2 < offset && #[trigger] is_sync_candidate(e, c, bpf, window_len as int, prefix_len as int, max_mismatches as int, o2)
                        ==> m <= mismatches(e, c, o2, window_len as int)
                    &&& forall|o2: int| 0 <= o2 < o && #[trigger] is_sync_candidate(e, c, bpf, window_len as int, prefix_len as int, max_mismatches as int, o2)
                        ==> m < mismatches(e, c, o2, window_len as int)
                },
            },
        decreases last + bytes_per_frame - offset,
    {
        let prefix_ok = prefix_matches(expected, captured, offset, prefix_len);
        if prefix_ok {
            let mismatch_count = count_mismatches_capped(expected, captured, offset, window_len, max_mismatches);
            let better = match best {
                Some((best_mismatches, _)) => mismatch_count < best_mismatches,
                None => true,
            };
            if mismatch_count <= max_mismatches && better {
                let ghost prior = best;
                best = Some((mismatch_count, offset));
                if mismatch_count == 0 {
                    proof {
                        let wl = window_len as int;
                        let pl = prefix_len as int;
                        let mm = max_mismatches as int;
                        assert(is_sync_candidate(e, c, bpf, wl, pl, mm, offset as int));
                        assert forall|o2: int| #[trigger] is_sync_candidate(e, c, bpf, wl, pl, mm, o2) && o2 < offset
                            implies 0 < mismatches(e, c, o2, wl) by {
                            match prior {
                                Some((m, o)) => {
                                    assert(m <= mismatches(e, c, o2, wl));
                                },
                                None => {},
                            }
                        }
                        assert forall|o2: int| #[trigger] is_sync_candidate(e, c, bpf, window_len as int, prefix_len as int, max_mismatches as int, o2)
                            implies 0 <= mismatches(e, c, o2, window_len as int) by {
                            lemma_mismatches_monotone(e, c, o2, 0, window_len as int);
                        }
                    }
                    return Some(offset);
                }
            }
        }
        proof {
            assert forall|o2: int| #[trigger] is_sync_candidate(e, c, bpf, window_len as int, prefix_len as int, max_mismatches as int, o2)
                implies !(offset < o2 < offset + bpf) by {
                lemma_no_multiple_between(o2, offset as int, bpf);
            }
        }
        proof {
            lemma_next_multiple(offset as int, bpf);
        }
        offset += bytes_per_frame;
    }
    match best {
        Some((_, o)) => Some(o),
        None => None,
    }
}


/// The fallback search tolerates damage: when some frame-aligned offset of
/// the capture holds the pattern's first window (`max(rate / 50, 64)`
/// frames, or the whole pattern if shorter) with its first eight frames
/// exact and at most `max(window / 100, bytes_per_frame)` differing bytes,
/// the search finds a frame-aligned offset, and one whose window differs
/// from the pattern in no more bytes than that offset's.
pub proof fn lemma_short_sync_tolerates_damaged_bytes(
    rate: u32,
    bytes_per_frame: usize,
    expected: Seq<u8>,
    captured: Seq<u8>,
    r: Option<usize>,
    offset: int,
)
    requires
        short_sync_result(rate, bytes_per_frame, expected, captured, r),
        bytes_per_frame > 0,
        expected.len() >= bytes_per_frame,
        ({
            let frames = if rate / 50 >= 64 { (rate / 50) as int } else { 64 };
            let window = if expected.len() <= frames * bytes_per_frame { expected.len() as int } else { frames * bytes_per_frame };
            let prefix = if window <= 8 * bytes_per_frame { window } else { 8 * bytes_per_frame };
            let allowed = if window / 100 >= bytes_per_frame { window / 100 } else { bytes_per_frame as int };
            &&& 0 <= offset
            &&& offset + window <= captured.len()
            &&& offset % (bytes_per_frame as int) == 0
            &&& forall|i: int| 0 <= i < prefix ==> captured[offset + i] == expected[i]
            &&& mismatches(expected, captured, offset, window) <= allowed
        }),
    ensures
        ({
            let frames = if rate / 50 >= 64 { (rate / 50) as int } else { 64 };
            let window = if expected.len() <= frames * bytes_per_frame { expected.len() as int } else { frames * bytes_per_frame };
            r matches Some(found) && found as int % (bytes_per_frame as int) == 0
                && mismatches(expected, captured, found as int, window) <= mismatches(expected, captured, offset, window)
        }),
{
    let frames = if rate / 50 >= 64 { (rate / 50) as int } else { 64 };
    let bpf = bytes_per_frame as int;
    let window = if expected.len() <= frames * bpf { expected.len() as int } else { frames * bpf };
    let (wl, pl, mm) = sync_window(rate, bytes_per_frame, expected.len() as int);
    assert(wl == window);
    assert(window >= bpf) by (nonlinear_arith)
        requires
            window == (if expected.len() <= frames * bpf { expected.len() as int } else { frames * bpf }),
            expected.len() >= bpf,
            frames >= 64,
            bpf > 0,
    ;
    assert(pl == (if window <= 8 * bpf { window } else { 8 * bpf }));
    assert(mm == (if window / 100 >= bpf { window / 100 } else { bpf }));
    assert(is_sync_candidate(expected, captured, bpf, wl, pl, mm, offset));
    match r {
        Some(found) => {
            assert(is_sync_candidate(expected, captured, bpf, wl, pl, mm, found as int));
        },
        None => {
            assert(!is_sync_candidate(expected, captured, bpf, wl, pl, mm, offset));
        },
    }
}

/// The alignment of a check is found whenever the capture holds the
/// pattern's first window at a frame-aligned offset with no more damage
/// than the fallback search tolerates: either the first 100 ms occur
/// exactly somewhere, or the fallback finds an offset.
pub proof fn lemma_alignment_found_despite_damaged_bytes(
    rate: u32,
    bytes_per_frame: usize,
    expected: Seq<u8>,
    captured: Seq<u8>,
    sync: Option<usize>,
    offset: int,
)
    requires
        is_alignment(rate, bytes_per_frame, expected, captured, sync),
        bytes_per_frame > 0,
        expected.len() >= bytes_per_frame,
        ({
            let frames = if rate / 50 >= 64 { (rate / 50) as int } else { 64 };
            let window = if expected.len() <= frames * bytes_per_frame { expected.len() as int } else { frames * bytes_per_frame };
            let prefix = if window <= 8 * bytes_per_frame { window } else { 8 * bytes_per_frame };
            let allowed = if window / 100 >= bytes_per_frame { window / 100 } else { bytes_per_frame as int };
            &&& 0 <= offset
            &&& offset + window <= captured.len()
            &&& offset % (bytes_per_frame as int) == 0
            &&& forall|i: int| 0 <= i < prefix ==> captured[offset + i] == expected[i]
            &&& mismatches(expected, captured, offset, window) <= allowed
        }),
    ensures
        sync is Some,
{
    let needle = expected.take(sync_len(rate, bytes_per_frame, expected.len() as int));
    if exists|i: int| occurs_at(captured, needle, i) {
        let i = choose|i: int| occurs_at(captured, needle, i);
        assert(first_occurrence(captured, needle, sync));
        if sync is None {
            assert(!occurs_at(captured, needle, i));
        }
    } else {
        lemma_short_sync_tolerates_damaged_bytes(rate, bytes_per_frame, expected, captured, sync, offset);
    }
}

/// What the comparison of a captured stream with the expected pattern found.
#[derive(Clone, Copy, Debug, PartialEq, Eq)]
pub struct CheckOutcome {
    /// Offset in the capture at which the pattern was found.
    pub sync_offset: Option<usize>,
    pub exact: bool,
    pub sync_found: bool,
    pub latency_frames: Option<usize>,
    pub compared_bytes: usize,
    pub expected_bytes: usize,
    pub captured_bytes: usize,
    pub mismatched_bytes: usize,
    pub missing_bytes: usize,
    pub first_mismatch: Option<Mismatch>,
    pub capture_stats: StreamStats,
    pub render_stats: StreamStats,
}

/// Bytes of the pattern's start searched for exactly: a tenth of a second
/// (at least 256 frames), or the whole pattern if shorter.
pub open spec fn sync_len(rate: u32, bytes_per_frame: usize, expected_len: int) -> int {
    let frames = if rate / 10 >= 256 { (rate / 10) as int } else { 256 };
    if expected_len <= bytes_per_frame * frames { expected_len } else { bytes_per_frame * frames }
}

/// Where the captured stream is aligned: at the first exact occurrence of
/// the pattern's start, or failing that where the short frame-aligned
/// search puts it.
pub open spec fn is_alignment(rate: u32, bytes_per_frame: usize, expected: Seq<u8>, captured: Seq<u8>, sync: Option<usize>) -> bool {
    let needle = expected.take(sync_len(rate, bytes_per_frame, expected.len() as int));
    if exists|i: int| occurs_at(captured, needle, i) {
        first_occurrence(captured, needle, sync)
    } else {
        short_sync_result(rate, bytes_per_frame, expected, captured, sync)
    }
}

/// Aligns the captured stream with the expected pattern and compares them.
/// The stream is bit-perfect when it is found at a whole-frame offset with
/// every expected byte present and equal.
pub fn analyze(
    rate: u32,
    bytes_per_frame: usize,
    expected: &[u8],
    captured: &[u8],
    capture_stats: StreamStats,
    render_stats: StreamStats,
) -> (out: CheckOutcome)
    requires
        bytes_per_frame > 0,
        bytes_per_frame * (if rate / 10 >= 256 { (rate / 10) as int } else { 256 }) <= usize::MAX,
    ensures
        is_alignment(rate, bytes_per_frame, expected@, captured@, out.sync_offset),
        match out.sync_offset {
            Some(o) => {
                &&& comparison_at(expected@, captured@, o as int, (out.compared_bytes, out.mismatched_bytes, out.missing_bytes, out.first_mismatch))
                &&& out.latency_frames == Some((o / bytes_per_frame) as usize)
                &&& out.exact == (o % bytes_per_frame == 0 && out.mismatched_bytes == 0 && out.missing_bytes == 0)
            },
            None => {
                &&& out.compared_bytes == 0
                &&& out.mismatched_bytes == expected@.len()
                &&& out.missing_bytes == expected@.len()
                &&& out.first_mismatch is None
                &&& out.latency_frames is None
                &&& !out.exact
            },
        },
        out.sync_found == out.sync_offset is Some,
        out.expected_bytes == expected@.len(),
        out.captured_bytes == captured@.len(),
        out.capture_stats == capture_stats,
        out.render_stats == render_stats,
{
    let frames: usize = if (rate as usize) / 10 >= 256 { (rate as usize) / 10 } else { 256 };
    let limit: usize = bytes_per_frame * frames;
    let len: usize = if expected.len() <= limit { expected.len() } else { limit };
    let needle = vstd::slice::slice_subrange(expected, 0, len);
    let ghost e = expected@;
    let ghost c = captured@;
    proof {
        assert(needle@ =~= e.take(sync_len(rate, bytes_per_frame, e.len() as int)));
        let f50: int = if rate / 50 >= 64 { (rate / 50) as int } else { 64 };
        assert(bytes_per_frame * f50 <= usize::MAX && bytes_per_frame * 8 <= usize::MAX) by (nonlinear_arith)
            requires
                bytes_per_frame * frames <= usize::MAX,
                frames >= 256,
                frames >= rate / 10,
                f50 == if rate / 50 >= 64 { (rate / 50) as int } else { 64 },
                bytes_per_frame > 0,
        ;
    }
    let sync_found_at = match find_subslice(captured, needle) {
        Some(o) => Some(o),
        None => find_short_frame_aligned_sync(rate, bytes_per_frame, expected, captured),
    };
    let (compared_bytes, mismatched_bytes, missing_bytes, first_mismatch) = match sync_found_at {
        Some(offset) => compare_at_offset(expected, captured, offset),
        None => (0, expected.len(), expected.len(), None),
    };
    let latency_frames = match sync_found_at {
        Some(offset) => Some(offset / bytes_per_frame),
        None => None,
    };
    let aligned = match sync_found_at {
        Some(offset) => offset % bytes_per_frame == 0,
        None => false,
    };
    let exact = aligned && mismatched_bytes == 0 && missing_bytes == 0;
    CheckOutcome {
        sync_offset: sync_found_at,
        exact,
        sync_found: sync_found_at.is_some(),
        latency_frames,
        compared_bytes,
        expected_bytes: expected.len(),
        captured_bytes: captured.len(),
        mismatched_bytes,
        missing_bytes,
        first_mismatch,
        capture_stats,
        render_stats,
    }
}

} // verus!
