//! Locale-sensitive punctuation normalization of response text.
//!
//! Commas and straight quotes that stand in Chinese context are replaced by
//! their full-width or curly forms. Code fences, URLs and the contents of
//! excluded HTML-like tags are copied verbatim.

use vstd::prelude::*;

verus! {

// ---------------------------------------------------------------------------
// Character classes
// ---------------------------------------------------------------------------

/// CJK unified ideographs and their extension and compatibility blocks.
pub open spec fn chinese_char(c: char) -> bool {
    let code = c as u32;
    (0x4E00 <= code <= 0x9FFF) || (0x3400 <= code <= 0x4DBF) || (0x20000 <= code <= 0x2A6DF)
        || (0x2A700 <= code <= 0x2B73F) || (0x2B740 <= code <= 0x2B81F) || (0x2B820 <= code
        <= 0x2CEAF) || (0xF900 <= code <= 0xFAFF) || (0x2F800 <= code <= 0x2FA1F)
}

/// CJK symbols and punctuation, and the half-width / full-width forms block.
pub open spec fn cjk_punctuation_char(c: char) -> bool {
    let code = c as u32;
    (0x3000 <= code <= 0x303F) || (0xFF00 <= code <= 0xFFEF)
}

/// A character that counts towards Chinese context.
pub open spec fn chinese_like(c: char) -> bool {
    chinese_char(c) || cjk_punctuation_char(c)
}

/// The Unicode `White_Space` property.
pub open spec fn white_space(c: char) -> bool {
    let code = c as u32;
    (0x09 <= code <= 0x0D) || code == 0x20 || code == 0x85 || code == 0xA0 || code == 0x1680
        || (0x2000 <= code <= 0x200A) || code == 0x2028 || code == 0x2029 || code == 0x202F
        || code == 0x205F || code == 0x3000
}

pub open spec fn ascii_alpha(c: char) -> bool {
    ('a' <= c <= 'z') || ('A' <= c <= 'Z')
}

pub fn is_chinese(ch: char) -> (r: bool)
    ensures
        r == chinese_char(ch),
{
    let code = ch as u32;
    (0x4E00 <= code && code <= 0x9FFF) || (0x3400 <= code && code <= 0x4DBF) || (0x20000 <= code
        && code <= 0x2A6DF) || (0x2A700 <= code && code <= 0x2B73F) || (0x2B740 <= code && code
        <= 0x2B81F) || (0x2B820 <= code && code <= 0x2CEAF) || (0xF900 <= code && code <= 0xFAFF)
        || (0x2F800 <= code && code <= 0x2FA1F)
}

pub fn is_cjk_punctuation_or_fullwidth(ch: char) -> (r: bool)
    ensures
        r == cjk_punctuation_char(ch),
{
    let code = ch as u32;
    (0x3000 <= code && code <= 0x303F) || (0xFF00 <= code && code <= 0xFFEF)
}

/// Same answer as `char::is_whitespace`.
pub fn is_white_space(ch: char) -> (r: bool)
    ensures
        r == white_space(ch),
{
    let code = ch as u32;
    (0x09 <= code && code <= 0x0D) || code == 0x20 || code == 0x85 || code == 0xA0 || code
        == 0x1680 || (0x2000 <= code && code <= 0x200A) || code == 0x2028 || code == 0x2029
        || code == 0x202F || code == 0x205F || code == 0x3000
}

fn is_ascii_alpha(ch: char) -> (r: bool)
    ensures
        r == ascii_alpha(ch),
{
    ('a' <= ch && ch <= 'z') || ('A' <= ch && ch <= 'Z')
}

// ---------------------------------------------------------------------------
// Positional tests over the character sequence
// ---------------------------------------------------------------------------

/// A `'` between two ASCII letters is an apostrophe, not a quote.
pub open spec fn apostrophe_at(s: Seq<char>, pos: int) -> bool {
    0 < pos && pos + 1 < s.len() && ascii_alpha(s[pos - 1]) && ascii_alpha(s[pos + 1])
}

fn is_apostrophe(runes: &Vec<char>, pos: usize) -> (r: bool)
    ensures
        r == apostrophe_at(runes@, pos as int),
{
    if pos == 0 || pos >= runes.len() || pos + 1 >= runes.len() {
        return false;
    }
    is_ascii_alpha(runes[pos - 1]) && is_ascii_alpha(runes[pos + 1])
}

/// `http://` or `https://` starts at `i`.
pub open spec fn url_scheme_at(s: Seq<char>, i: int) -> bool {
    &&& 0 <= i
    &&& i + 6 < s.len()
    &&& s[i] == 'h' && s[i + 1] == 't' && s[i + 2] == 't' && s[i + 3] == 'p'
    &&& (s[i + 4] == ':' && s[i + 5] == '/' && s[i + 6] == '/') || (i + 7 < s.len() && s[i + 4]
        == 's' && s[i + 5] == ':' && s[i + 6] == '/' && s[i + 7] == '/')
}

/// No whitespace among the characters from `i` through `pos`.
pub open spec fn no_space_through(s: Seq<char>, i: int, pos: int) -> bool {
    forall|j: int| i <= j <= pos && 0 <= j < s.len() ==> !white_space(s[j])
}

/// Scanning the look-back window from `i`: the first scheme found decides.
pub open spec fn url_from(s: Seq<char>, pos: int, i: int) -> bool
    decreases pos - i,
{
    if i >= pos || i + 6 >= s.len() {
        false
    } else if url_scheme_at(s, i) {
        no_space_through(s, i, pos)
    } else {
        url_from(s, pos, i + 1)
    }
}

/// Position `pos` lies inside a URL whose scheme starts at most 20 characters back.
pub open spec fn in_url(s: Seq<char>, pos: int) -> bool {
    url_from(s, pos, if pos >= 20 { pos - 20 } else { 0 })
}

fn is_in_url(runes: &Vec<char>, pos: usize) -> (r: bool)
    ensures
        r == in_url(runes@, pos as int),
{
    let n = runes.len();
    let start: usize = if pos >= 20 { pos - 20 } else { 0 };
    let mut i: usize = start;
    while i < pos
        invariant
            start <= i <= pos,
            n == runes@.len(),
            in_url(runes@, pos as int) == url_from(runes@, pos as int, i as int),
        decreases pos - i,
    {
        if n < 7 || i > n - 7 {
            assert(!url_from(runes@, pos as int, i as int));
            return false;
        }
        if runes[i] == 'h' && runes[i + 1] == 't' && runes[i + 2] == 't' && runes[i + 3] == 'p' {
            let is_http = runes[i + 4] == ':' && runes[i + 5] == '/' && runes[i + 6] == '/';
            let is_https = i + 7 < n && runes[i + 4] == 's' && runes[i + 5] == ':' && runes[i + 6]
                == '/' && runes[i + 7] == '/';
            if is_http || is_https {
                assert(url_scheme_at(runes@, i as int));
                let mut j: usize = i;
                while j <= pos && j < n
                    invariant
                        i <= j <= pos + 1,
                        i < pos,
                        i < n,
                        url_scheme_at(runes@, i as int),
                        in_url(runes@, pos as int) == url_from(runes@, pos as int, i as int),
                        n == runes@.len(),
                        no_space_through(runes@, i as int, j - 1),
                    decreases n - j,
                {
                    if is_white_space(runes[j]) {
                        assert(!no_space_through(runes@, i as int, pos as int));
                        return false;
                    }
                    j += 1;
                }
                assert(url_scheme_at(runes@, i as int));
                return true;
            }
        }
        i += 1;
    }
    assert(!url_from(runes@, pos as int, i as int));
    false
}

// ---------------------------------------------------------------------------
// Chinese context
// ---------------------------------------------------------------------------

/// Non-whitespace characters in `[lo, hi)` other than `pos`.
pub open spec fn window_total(s: Seq<char>, pos: int, lo: int, hi: int) -> int
    decreases hi - lo,
{
    if hi <= lo {
        0
    } else {
        window_total(s, pos, lo, hi - 1) + if hi - 1 != pos && !white_space(s[hi - 1]) {
            1int
        } else {
            0int
        }
    }
}

/// Chinese-like characters in `[lo, hi)` other than `pos`.
pub open spec fn window_chinese(s: Seq<char>, pos: int, lo: int, hi: int) -> int
    decreases hi - lo,
{
    if hi <= lo {
        0
    } else {
        window_chinese(s, pos, lo, hi - 1) + if hi - 1 != pos && !white_space(s[hi - 1])
            && chinese_like(s[hi - 1]) {
            1int
        } else {
            0int
        }
    }
}

pub open spec fn context_lo(pos: int) -> int {
    if pos >= 5 { pos - 5 } else { 0 }
}

pub open spec fn context_hi(s: Seq<char>, pos: int) -> int {
    if pos + 6 <= s.len() { pos + 6 } else { s.len() as int }
}

/// Within five characters on either side of `pos`, Chinese-like characters
/// make up more than a fifth of the non-whitespace characters.
pub open spec fn chinese_context(s: Seq<char>, pos: int) -> bool {
    let total = window_total(s, pos, context_lo(pos), context_hi(s, pos));
    let chinese = window_chinese(s, pos, context_lo(pos), context_hi(s, pos));
    total > 0 && 5 * chinese > total
}

proof fn lemma_window_bounds(s: Seq<char>, pos: int, lo: int, hi: int)
    requires
        lo <= hi,
    ensures
        0 <= window_chinese(s, pos, lo, hi) <= window_total(s, pos, lo, hi) <= hi - lo,
    decreases hi - lo,
{
    if hi > lo {
        lemma_window_bounds(s, pos, lo, hi - 1);
    }
}

fn has_chinese_context(runes: &Vec<char>, pos: usize) -> (r: bool)
    requires
        pos < runes@.len(),
    ensures
        r == chinese_context(runes@, pos as int),
{
    let n = runes.len();
    let start: usize = if pos >= 5 { pos - 5 } else { 0 };
    let end: usize = if n - pos >= 6 { pos + 6 } else { n };
    let mut chinese_count: usize = 0;
    let mut total_chars: usize = 0;
    let mut i: usize = start;
    while i < end
        invariant
            start <= i <= end <= n,
            n == runes@.len(),
            start == context_lo(pos as int),
            end == context_hi(runes@, pos as int),
            total_chars == window_total(runes@, pos as int, start as int, i as int),
            chinese_count == window_chinese(runes@, pos as int, start as int, i as int),
        decreases end - i,
    {
        proof {
            lemma_window_bounds(runes@, pos as int, start as int, i as int);
        }
        let ch = runes[i];
        if i != pos && ch != '\n' && ch != '\r' && !is_white_space(ch) {
            total_chars += 1;
            if is_chinese(ch) || is_cjk_punctuation_or_fullwidth(ch) {
                chinese_count += 1;
            }
        }
        i += 1;
    }
    proof {
        lemma_window_bounds(runes@, pos as int, start as int, end as int);
    }
    total_chars > 0 && chinese_count * 5 > total_chars
}

} // verus!

verus! {

// ---------------------------------------------------------------------------
// Quote pairing
// ---------------------------------------------------------------------------

/// Three backticks start at `i`.
pub open spec fn fence_at(s: Seq<char>, i: int) -> bool {
    0 <= i && i + 2 < s.len() && s[i] == '`' && s[i + 1] == '`' && s[i + 2] == '`'
}

/// Positions of quote character `q` from `i` on, outside code fences and URLs;
/// apostrophes are left out when `skip_apostrophe` holds.
pub open spec fn quote_positions_from(
    s: Seq<char>,
    q: char,
    skip_apostrophe: bool,
    i: int,
    in_code: bool,
) -> Seq<int>
    decreases s.len() - i,
{
    if i >= s.len() || i < 0 {
        seq![]
    } else if fence_at(s, i) {
        quote_positions_from(s, q, skip_apostrophe, i + 3, !in_code)
    } else if in_code || in_url(s, i) {
        quote_positions_from(s, q, skip_apostrophe, i + 1, in_code)
    } else if s[i] == q && !(skip_apostrophe && apostrophe_at(s, i)) {
        seq![i] + quote_positions_from(s, q, skip_apostrophe, i + 1, in_code)
    } else {
        quote_positions_from(s, q, skip_apostrophe, i + 1, in_code)
    }
}

pub open spec fn quote_positions(s: Seq<char>, q: char, skip_apostrophe: bool) -> Seq<int> {
    quote_positions_from(s, q, skip_apostrophe, 0, false)
}

proof fn lemma_quote_positions_bounds(
    s: Seq<char>,
    q: char,
    skip_apostrophe: bool,
    i: int,
    in_code: bool,
)
    requires
        0 <= i,
    ensures
        forall|k: int|
            0 <= k < quote_positions_from(s, q, skip_apostrophe, i, in_code).len() ==> i
                <= #[trigger] quote_positions_from(s, q, skip_apostrophe, i, in_code)[k] < s.len(),
    decreases s.len() - i,
{
    if i < s.len() {
        if fence_at(s, i) {
            lemma_quote_positions_bounds(s, q, skip_apostrophe, i + 3, !in_code);
            let rest = quote_positions_from(s, q, skip_apostrophe, i + 3, !in_code);
            let all = quote_positions_from(s, q, skip_apostrophe, i, in_code);
            assert(all == rest);
            assert forall|k: int| 0 <= k < all.len() implies i <= #[trigger] all[k] < s.len() by {
                assert(all[k] == rest[k]);
            }
        } else {
            lemma_quote_positions_bounds(s, q, skip_apostrophe, i + 1, in_code);
            let rest = quote_positions_from(s, q, skip_apostrophe, i + 1, in_code);
            let all = quote_positions_from(s, q, skip_apostrophe, i, in_code);
            assert forall|k: int| 0 <= k < all.len() implies i <= #[trigger] all[k] < s.len() by {
                if all != rest {
                    assert(all == seq![i] + rest);
                    if k > 0 {
                        assert(all[k] == rest[k - 1]);
                    }
                }
            }
        }
    }
}

pub open spec fn as_ints(v: Seq<usize>) -> Seq<int> {
    v.map_values(|x: usize| x as int)
}

fn collect_quote_positions(runes: &Vec<char>, quote_char: char, skip_apostrophe: bool) -> (r: Vec<
    usize,
>)
    ensures
        as_ints(r@) == quote_positions(runes@, quote_char, skip_apostrophe),
        forall|k: int| 0 <= k < r@.len() ==> r@[k] < runes@.len(),
{
    let n = runes.len();
    let mut positions: Vec<usize> = Vec::new();
    let mut in_code_block = false;
    let mut i: usize = 0;
    while i < n
        invariant
            n == runes@.len(),
            i <= n + 2,
            as_ints(positions@) + quote_positions_from(
                runes@,
                quote_char,
                skip_apostrophe,
                i as int,
                in_code_block,
            ) == quote_positions(runes@, quote_char, skip_apostrophe),
        decreases n + 3 - i,
    {
        let ch = runes[i];
        if ch == '`' && n >= 3 && i < n - 2 && runes[i + 1] == '`' && runes[i + 2] == '`' {
            in_code_block = !in_code_block;
            i += 3;
            continue;
        }
        if in_code_block || is_in_url(runes, i) {
            i += 1;
            continue;
        }
        if ch == quote_char && !(skip_apostrophe && is_apostrophe(runes, i)) {
            let ghost prev = positions@;
            positions.push(i);
            proof {
                assert(as_ints(positions@) =~= as_ints(prev) + seq![i as int]);
                assert(as_ints(positions@) + quote_positions_from(
                    runes@,
                    quote_char,
                    skip_apostrophe,
                    i + 1,
                    in_code_block,
                ) =~= as_ints(prev) + quote_positions_from(
                    runes@,
                    quote_char,
                    skip_apostrophe,
                    i as int,
                    in_code_block,
                ));
            }
        }
        i += 1;
    }
    proof {
        assert(as_ints(positions@) =~= quote_positions(runes@, quote_char, skip_apostrophe));
        lemma_quote_positions_bounds(runes@, quote_char, skip_apostrophe, 0, false);
        assert forall|k: int| 0 <= k < positions@.len() implies positions@[k] < runes@.len() by {
            assert(as_ints(positions@)[k] == positions@[k] as int);
        }
    }
    positions
}

} // verus!

verus! {

/// A quote pair `(a, b)` is converted when either end stands in Chinese
/// context or a Chinese-like character lies strictly between them.
pub open spec fn pair_converts(s: Seq<char>, a: int, b: int) -> bool {
    chinese_context(s, a) || chinese_context(s, b) || exists|j: int|
        a < j < b && 0 <= j < s.len() && #[trigger] chinese_like(s[j])
}

/// Position `x` is one of the converted quotes among `p[k..]`, paired two at a time.
pub open spec fn converted_from(s: Seq<char>, p: Seq<int>, k: int, x: int) -> bool
    decreases p.len() - k,
{
    if k >= p.len() || k < 0 {
        false
    } else if k + 1 < p.len() {
        (pair_converts(s, p[k], p[k + 1]) && (x == p[k] || x == p[k + 1])) || converted_from(
            s,
            p,
            k + 2,
            x,
        )
    } else {
        chinese_context(s, p[k]) && x == p[k]
    }
}

fn has_chinese_between(runes: &Vec<char>, a: usize, b: usize) -> (r: bool)
    requires
        b < runes@.len(),
    ensures
        r == exists|j: int| a < j < b && 0 <= j < runes@.len() && #[trigger] chinese_like(runes@[j]),
{
    if a >= b {
        return false;
    }
    let mut j: usize = a + 1;
    while j < b
        invariant
            a < j,
            b < runes@.len(),
            forall|jj: int| a < jj < j ==> !chinese_like(#[trigger] runes@[jj]),
        decreases b - j,
    {
        if is_chinese(runes[j]) || is_cjk_punctuation_or_fullwidth(runes[j]) {
            assert(chinese_like(runes@[j as int]));
            return true;
        }
        j += 1;
    }
    false
}

/// Marks, by position, the quotes among `positions` that are converted.
fn decide_convert_quote_positions(runes: &Vec<char>, positions: &Vec<usize>) -> (r: Vec<bool>)
    requires
        forall|k: int| 0 <= k < positions@.len() ==> positions@[k] < runes@.len(),
    ensures
        r@.len() == runes@.len(),
        forall|x: int|
            0 <= x < runes@.len() ==> r@[x] == converted_from(runes@, as_ints(positions@), 0, x),
{
    let n = runes.len();
    let ghost p = as_ints(positions@);
    let mut to_convert: Vec<bool> = Vec::new();
    let mut m: usize = 0;
    while m < n
        invariant
            m <= n,
            to_convert@.len() == m,
            forall|x: int| 0 <= x < m ==> !to_convert@[x],
        decreases n - m,
    {
        to_convert.push(false);
        m += 1;
    }
    let mut i: usize = 0;
    while i < positions.len()
        invariant
            n == runes@.len(),
            to_convert@.len() == n,
            p == as_ints(positions@),
            forall|k: int| 0 <= k < positions@.len() ==> positions@[k] < n,
            forall|x: int|
                0 <= x < n ==> converted_from(runes@, p, 0, x) == (to_convert@[x]
                    || converted_from(runes@, p, i as int, x)),
        decreases positions.len() + 2 - i,
    {
        let open_pos = positions[i];
        let ghost i0 = i as int;
        let ghost before = to_convert@;
        assert(forall|x: int| 0 <= x < n ==> converted_from(runes@, p, 0, x) == (before[x]
            || converted_from(runes@, p, i0, x)));
        assert(p[i as int] == open_pos as int);
        if i + 1 < positions.len() {
            let close_pos = positions[i + 1];
            assert(p[i + 1] == close_pos as int);
            let convert = has_chinese_context(runes, open_pos) || has_chinese_context(
                runes,
                close_pos,
            ) || has_chinese_between(runes, open_pos, close_pos);
            assert(convert == pair_converts(runes@, p[i as int], p[i + 1]));
            if convert {
                to_convert.set(open_pos, true);
                to_convert.set(close_pos, true);
            }
            i += 2;
            assert forall|x: int| 0 <= x < n implies converted_from(runes@, p, i0, x) == ((
            convert && (x == p[i0] || x == p[i0 + 1])) || converted_from(runes@, p, i0 + 2, x)) by {
            }
            assert forall|x: int| 0 <= x < n implies to_convert@[x] == (before[x] || (convert && (x
                == p[i0] || x == p[i0 + 1]))) by {}
            assert forall|x: int| 0 <= x < n implies converted_from(runes@, p, 0, x) == (
            to_convert@[x] || converted_from(runes@, p, i as int, x)) by {
                assert(converted_from(runes@, p, 0, x) == (before[x] || converted_from(
                    runes@,
                    p,
                    i0,
                    x,
                )));
            }
        } else {
            let c = has_chinese_context(runes, open_pos);
            if c {
                to_convert.set(open_pos, true);
            }
            i = positions.len();
            assert forall|x: int| 0 <= x < n implies converted_from(runes@, p, i0, x) == (c && x
                == p[i0]) by {}
            assert forall|x: int| 0 <= x < n implies !converted_from(runes@, p, i as int, x) by {}
            assert forall|x: int| 0 <= x < n implies to_convert@[x] == (before[x] || (c && x
                == p[i0])) by {}
            assert forall|x: int| 0 <= x < n implies converted_from(runes@, p, 0, x) == (
            to_convert@[x] || converted_from(runes@, p, i as int, x)) by {
                assert(converted_from(runes@, p, 0, x) == (before[x] || converted_from(
                    runes@,
                    p,
                    i0,
                    x,
                )));
            }
        }
    }
    to_convert
}

} // verus!

verus! {

// ---------------------------------------------------------------------------
// The normalization pass
// ---------------------------------------------------------------------------

pub open spec fn double_converted(s: Seq<char>, x: int) -> bool {
    converted_from(s, quote_positions(s, '"', false), 0, x)
}

pub open spec fn single_converted(s: Seq<char>, x: int) -> bool {
    converted_from(s, quote_positions(s, '\'', true), 0, x)
}

pub open spec fn curly_double(open: bool) -> char {
    if open { '\u{201C}' } else { '\u{201D}' }
}

pub open spec fn curly_single(open: bool) -> char {
    if open { '\u{2018}' } else { '\u{2019}' }
}

/// Output of the pass from position `i` on, given whether a code fence is open
/// and whether the next converted double / single quote opens.
pub open spec fn render_from(
    s: Seq<char>,
    i: int,
    in_code: bool,
    double_open: bool,
    single_open: bool,
) -> Seq<char>
    decreases s.len() - i,
{
    if i >= s.len() || i < 0 {
        seq![]
    } else if fence_at(s, i) {
        seq!['`', '`', '`'] + render_from(s, i + 3, !in_code, double_open, single_open)
    } else if in_code || in_url(s, i) {
        seq![s[i]] + render_from(s, i + 1, in_code, double_open, single_open)
    } else if s[i] == '"' && double_converted(s, i) {
        seq![curly_double(double_open)] + render_from(s, i + 1, in_code, !double_open, single_open)
    } else if s[i] == '\'' && single_converted(s, i) {
        seq![curly_single(single_open)] + render_from(s, i + 1, in_code, double_open, !single_open)
    } else if s[i] == ',' && chinese_context(s, i) {
        seq!['\u{FF0C}'] + render_from(s, i + 1, in_code, double_open, single_open)
    } else {
        seq![s[i]] + render_from(s, i + 1, in_code, double_open, single_open)
    }
}

/// The normalization pass over a whole text without excluded regions.
pub open spec fn normalize_text(s: Seq<char>) -> Seq<char> {
    render_from(s, 0, false, true, true)
}

fn normalize_punctuation_internal(runes: &Vec<char>) -> (r: Vec<char>)
    ensures
        r@ == normalize_text(runes@),
{
    let n = runes.len();
    if n == 0 {
        return Vec::new();
    }
    let double_quote_positions = collect_quote_positions(runes, '"', false);
    let single_quote_positions = collect_quote_positions(runes, '\'', true);
    let double_quotes_to_convert = decide_convert_quote_positions(runes, &double_quote_positions);
    let single_quotes_to_convert = decide_convert_quote_positions(runes, &single_quote_positions);

    let mut out: Vec<char> = Vec::new();
    let mut in_code_block = false;
    let mut double_is_open = true;
    let mut single_is_open = true;
    let mut i: usize = 0;
    while i < n
        invariant
            n == runes@.len(),
            i <= n + 2,
            double_quotes_to_convert@.len() == n,
            single_quotes_to_convert@.len() == n,
            forall|x: int| 0 <= x < n ==> double_quotes_to_convert@[x] == double_converted(runes@, x),
            forall|x: int| 0 <= x < n ==> single_quotes_to_convert@[x] == single_converted(runes@, x),
            out@ + render_from(runes@, i as int, in_code_block, double_is_open, single_is_open)
                == normalize_text(runes@),
        decreases n + 3 - i,
    {
        let ghost prev = out@;
        let ghost i0 = i as int;
        let ghost c0 = in_code_block;
        let ghost d0 = double_is_open;
        let ghost s0 = single_is_open;
        let ch = runes[i];
        if ch == '`' && n >= 3 && i < n - 2 && runes[i + 1] == '`' && runes[i + 2] == '`' {
            in_code_block = !in_code_block;
            out.push('`');
            out.push('`');
            out.push('`');
            i += 3;
        } else if in_code_block || is_in_url(runes, i) {
            out.push(ch);
            i += 1;
        } else if ch == '"' && double_quotes_to_convert[i] {
            out.push(if double_is_open { '\u{201C}' } else { '\u{201D}' });
            double_is_open = !double_is_open;
            i += 1;
        } else if ch == '\'' && single_quotes_to_convert[i] {
            out.push(if single_is_open { '\u{2018}' } else { '\u{2019}' });
            single_is_open = !single_is_open;
            i += 1;
        } else if ch == ',' && has_chinese_context(runes, i) {
            out.push('\u{FF0C}');
            i += 1;
        } else {
            out.push(ch);
            i += 1;
        }
        proof {
            let emitted = out@.subrange(prev.len() as int, out@.len() as int);
            assert(out@ =~= prev + emitted);
            assert(render_from(runes@, i0, c0, d0, s0) == emitted + render_from(
                runes@,
                i as int,
                in_code_block,
                double_is_open,
                single_is_open,
            ));
            assert(out@ + render_from(runes@, i as int, in_code_block, double_is_open, single_is_open)
                =~= prev + render_from(runes@, i0, c0, d0, s0));
        }
    }
    out
}

} // verus!

verus! {

// ---------------------------------------------------------------------------
// Exclusion tags
// ---------------------------------------------------------------------------

pub open spec fn trim_start(s: Seq<char>) -> Seq<char>
    decreases s.len(),
{
    if s.len() > 0 && white_space(s[0]) {
        trim_start(s.drop_first())
    } else {
        s
    }
}

pub open spec fn trim_end(s: Seq<char>) -> Seq<char>
    decreases s.len(),
{
    if s.len() > 0 && white_space(s.last()) {
        trim_end(s.drop_last())
    } else {
        s
    }
}

/// Leading and trailing whitespace removed, as `str::trim` does.
pub open spec fn trim(s: Seq<char>) -> Seq<char> {
    trim_end(trim_start(s))
}

/// The pieces of `s` between commas, as `str::split(',')` yields them.
pub open spec fn split_commas(s: Seq<char>) -> Seq<Seq<char>>
    decreases s.len(),
{
    if s.len() == 0 {
        seq![seq![]]
    } else {
        let prev = split_commas(s.drop_last());
        if s.last() == ',' {
            prev.push(seq![])
        } else {
            prev.update(prev.len() - 1, prev.last().push(s.last()))
        }
    }
}

/// The trimmed pieces that are not empty, in order.
pub open spec fn nonempty_trimmed(ps: Seq<Seq<char>>) -> Seq<Seq<char>>
    decreases ps.len(),
{
    if ps.len() == 0 {
        seq![]
    } else if trim(ps.last()).len() > 0 {
        nonempty_trimmed(ps.drop_last()).push(trim(ps.last()))
    } else {
        nonempty_trimmed(ps.drop_last())
    }
}

pub open spec fn default_exclude_tags() -> Seq<Seq<char>> {
    seq![
        seq!['c', 'o', 'd', 'e'],
        seq!['p', 'r', 'e'],
        seq!['s', 'c', 'r', 'i', 'p', 't'],
        seq!['s', 't', 'y', 'l', 'e'],
    ]
}

/// The tag names of a comma-separated list; the defaults when it names none.
pub open spec fn exclude_tags(raw: Seq<char>) -> Seq<Seq<char>> {
    let tags = nonempty_trimmed(split_commas(raw));
    if tags.len() == 0 {
        default_exclude_tags()
    } else {
        tags
    }
}

pub open spec fn char_views(v: Seq<Vec<char>>) -> Seq<Seq<char>> {
    v.map_values(|x: Vec<char>| x@)
}

proof fn lemma_split_commas_nonempty(s: Seq<char>)
    ensures
        split_commas(s).len() > 0,
    decreases s.len(),
{
    if s.len() > 0 {
        lemma_split_commas_nonempty(s.drop_last());
    }
}

pub(crate) fn trim_chars(s: &Vec<char>) -> (r: Vec<char>)
    ensures
        r@ == trim(s@),
{
    let n = s.len();
    let mut a: usize = 0;
    assert(s@.subrange(0, n as int) =~= s@);
    while a < n && is_white_space(s[a])
        invariant
            a <= n == s@.len(),
            trim_start(s@) == trim_start(s@.subrange(a as int, n as int)),
        decreases n - a,
    {
        assert(s@.subrange(a as int, n as int).drop_first() =~= s@.subrange(a + 1, n as int));
        a += 1;
    }
    assert(trim_start(s@) == s@.subrange(a as int, n as int));
    let mut b: usize = n;
    while b > a && is_white_space(s[b - 1])
        invariant
            a <= b <= n == s@.len(),
            trim(s@) == trim_end(s@.subrange(a as int, b as int)),
        decreases b,
    {
        assert(s@.subrange(a as int, b as int).drop_last() =~= s@.subrange(a as int, b - 1));
        b -= 1;
    }
    let mut r: Vec<char> = Vec::new();
    let mut k: usize = a;
    while k < b
        invariant
            a <= k <= b <= n == s@.len(),
            r@ =~= s@.subrange(a as int, k as int),
        decreases b - k,
    {
        r.push(s[k]);
        k += 1;
    }
    r
}

fn parse_exclude_tags(exclude_tags_raw: &str) -> (r: Vec<Vec<char>>)
    ensures
        char_views(r@) == exclude_tags(exclude_tags_raw@),
{
    let raw = crate::chars::chars_of(exclude_tags_raw);
    let n = raw.len();
    let mut tags: Vec<Vec<char>> = Vec::new();
    let mut cur: Vec<char> = Vec::new();
    let mut i: usize = 0;
    proof {
        assert(raw@.subrange(0, 0) =~= Seq::<char>::empty());
    }
    while i < n
        invariant
            i <= n == raw@.len(),
            split_commas(raw@.subrange(0, i as int)).len() > 0,
            char_views(tags@) == nonempty_trimmed(
                split_commas(raw@.subrange(0, i as int)).drop_last(),
            ),
            cur@ == split_commas(raw@.subrange(0, i as int)).last(),
        decreases n - i,
    {
        let ghost prefix = raw@.subrange(0, i as int);
        let ghost next = raw@.subrange(0, i + 1);
        assert(next.drop_last() =~= prefix);
        assert(next.last() == raw@[i as int]);
        let c = raw[i];
        if c == ',' {
            let t = trim_chars(&cur);
            let ghost old_tags = tags@;
            if t.len() > 0 {
                tags.push(t);
                assert(char_views(tags@) =~= char_views(old_tags).push(t@));
            }
            cur = Vec::new();
            assert(split_commas(next).drop_last() =~= split_commas(prefix));
            assert(split_commas(prefix) =~= split_commas(prefix).drop_last().push(
                split_commas(prefix).last(),
            ));
        } else {
            cur.push(c);
            assert(split_commas(next).drop_last() =~= split_commas(prefix).drop_last());
        }
        i += 1;
        proof {
            lemma_split_commas_nonempty(next);
        }
    }
    let t = trim_chars(&cur);
    let ghost old_tags = tags@;
    proof {
        let all = split_commas(raw@);
        assert(raw@.subrange(0, n as int) =~= raw@);
        assert(all =~= all.drop_last().push(all.last()));
    }
    if t.len() > 0 {
        tags.push(t);
        assert(char_views(tags@) =~= char_views(old_tags).push(t@));
    }
    if tags.len() == 0 {
        let mut d: Vec<Vec<char>> = Vec::new();
        d.push(vec!['c', 'o', 'd', 'e']);
        d.push(vec!['p', 'r', 'e']);
        d.push(vec!['s', 'c', 'r', 'i', 'p', 't']);
        d.push(vec!['s', 't', 'y', 'l', 'e']);
        assert(char_views(d@) =~= default_exclude_tags());
        return d;
    }
    tags
}

} // verus!

verus! {

// ---------------------------------------------------------------------------
// Excluded spans
// ---------------------------------------------------------------------------

pub open spec fn match_at(t: Seq<char>, p: Seq<char>, k: int) -> bool {
    0 <= k && k + p.len() <= t.len() && t.subrange(k, k + p.len()) == p
}

/// The first occurrence of `p` in `t` at or after `k`.
pub open spec fn find_from(t: Seq<char>, p: Seq<char>, k: int) -> Option<int>
    decreases t.len() + 1 - k,
{
    if k < 0 || k + p.len() > t.len() {
        None
    } else if match_at(t, p, k) {
        Some(k)
    } else {
        find_from(t, p, k + 1)
    }
}

pub open spec fn open_tag(tag: Seq<char>) -> Seq<char> {
    seq!['<'] + tag + seq!['>']
}

pub open spec fn close_tag(tag: Seq<char>) -> Seq<char> {
    seq!['<', '/'] + tag + seq!['>']
}

/// Position `i` lies in one of the `<tag>...</tag>` spans found by searching
/// from `pos`: each span runs from an opening tag to the first closing tag
/// after it, and the search resumes after that closing tag.
pub open spec fn in_tag_span(t: Seq<char>, tag: Seq<char>, pos: int, i: int) -> bool
    decreases t.len() - pos,
{
    if pos < 0 || pos >= t.len() {
        false
    } else {
        match find_from(t, open_tag(tag), pos) {
            None => false,
            Some(s) => match find_from(t, close_tag(tag), s + open_tag(tag).len()) {
                None => false,
                Some(c) => {
                    let e = c + close_tag(tag).len();
                    if e <= pos || e > t.len() {
                        false
                    } else {
                        (s <= i < e) || in_tag_span(t, tag, e, i)
                    }
                },
            },
        }
    }
}

/// Position `i` lies in a span of one of `tags`.
pub open spec fn excluded_at(t: Seq<char>, tags: Seq<Seq<char>>, i: int) -> bool {
    exists|k: int| 0 <= k < tags.len() && #[trigger] in_tag_span(t, tags[k], 0, i)
}

proof fn lemma_find_from(t: Seq<char>, p: Seq<char>, k: int)
    ensures
        find_from(t, p, k) matches Some(j) ==> k <= j && match_at(t, p, j),
    decreases t.len() + 1 - k,
{
    if !(k < 0 || k + p.len() > t.len()) && !match_at(t, p, k) {
        lemma_find_from(t, p, k + 1);
    }
}

fn match_chars_at(t: &Vec<char>, p: &Vec<char>, k: usize) -> (r: bool)
    requires
        k + p@.len() <= t@.len(),
    ensures
        r == match_at(t@, p@, k as int),
{
    let m = p.len();
    let n = t.len();
    let mut j: usize = 0;
    while j < m
        invariant
            j <= m == p@.len(),
            n == t@.len(),
            k + m <= n,
            forall|jj: int| 0 <= jj < j ==> t@[k + jj] == p@[jj],
        decreases m - j,
    {
        if t[k + j] != p[j] {
            assert(t@.subrange(k as int, k + m)[j as int] != p@[j as int]);
            return false;
        }
        j += 1;
    }
    assert(t@.subrange(k as int, k + m) =~= p@);
    true
}

pub(crate) fn find_chars(t: &Vec<char>, p: &Vec<char>, from: usize) -> (r: Option<usize>)
    ensures
        r matches Some(j) ==> find_from(t@, p@, from as int) == Some(j as int),
        r is None ==> find_from(t@, p@, from as int) is None,
{
    let n = t.len();
    let m = p.len();
    if m > n {
        return None;
    }
    if m == 0 {
        if from <= n {
            assert(t@.subrange(from as int, from as int) =~= p@);
            return Some(from);
        }
        return None;
    }
    let mut k: usize = from;
    while k <= n - m
        invariant
            1 <= m <= n == t@.len(),
            m == p@.len(),
            from <= k,
            find_from(t@, p@, from as int) == find_from(t@, p@, k as int),
        decreases n - k,
    {
        if match_chars_at(t, p, k) {
            return Some(k);
        }
        k += 1;
    }
    None
}

fn tag_with(prefix: &Vec<char>, tag: &Vec<char>) -> (r: Vec<char>)
    ensures
        r@ == prefix@ + tag@ + seq!['>'],
{
    let mut r: Vec<char> = Vec::new();
    let mut k: usize = 0;
    while k < prefix.len()
        invariant
            k <= prefix@.len(),
            r@ =~= prefix@.subrange(0, k as int),
        decreases prefix@.len() - k,
    {
        r.push(prefix[k]);
        k += 1;
    }
    let mut k: usize = 0;
    while k < tag.len()
        invariant
            k <= tag@.len(),
            r@ =~= prefix@ + tag@.subrange(0, k as int),
        decreases tag@.len() - k,
    {
        r.push(tag[k]);
        k += 1;
    }
    r.push('>');
    assert(r@ =~= prefix@ + tag@ + seq!['>']);
    r
}

/// Marks each position of `text` that lies in a span of one of `tags`.
fn find_exclude_ranges_by_tags(text: &Vec<char>, tags: &Vec<Vec<char>>) -> (r: Vec<bool>)
    ensures
        r@.len() == text@.len(),
        forall|i: int| 0 <= i < text@.len() ==> r@[i] == excluded_at(text@, char_views(tags@), i),
{
    let n = text.len();
    let ghost tv = char_views(tags@);
    let mut mask: Vec<bool> = vec![false; n];
    let mut k: usize = 0;
    while k < tags.len()
        invariant
            n == text@.len(),
            mask@.len() == n,
            k <= tags@.len(),
            tv == char_views(tags@),
            forall|i: int|
                0 <= i < n ==> mask@[i] == exists|kk: int|
                    0 <= kk < k && #[trigger] in_tag_span(text@, tv[kk], 0, i),
        decreases tags@.len() - k,
    {
        let tag = &tags[k];
        assert(tag@ == tv[k as int]);
        let open = tag_with(&vec!['<'], tag);
        let close = tag_with(&vec!['<', '/'], tag);
        assert(open@ =~= open_tag(tag@));
        assert(close@ =~= close_tag(tag@));
        let ghost base = mask@;
        let mut search_pos: usize = 0;
        while search_pos < n
            invariant
                n == text@.len(),
                mask@.len() == n,
                base.len() == n,
                open@ == open_tag(tag@),
                close@ == close_tag(tag@),
                forall|i: int|
                    0 <= i < n ==> (base[i] || in_tag_span(text@, tag@, 0, i)) == (mask@[i]
                        || in_tag_span(text@, tag@, search_pos as int, i)),
            ensures
                forall|i: int| 0 <= i < n ==> !in_tag_span(text@, tag@, search_pos as int, i),
            decreases n - search_pos,
        {
            let start_idx = match find_chars(text, &open, search_pos) {
                Some(s) => s,
                None => {
                    break;
                },
            };
            proof {
                lemma_find_from(text@, open@, search_pos as int);
            }
            let close_search_start = start_idx + open.len();
            let close_idx = match find_chars(text, &close, close_search_start) {
                Some(c) => c,
                None => {
                    break;
                },
            };
            proof {
                lemma_find_from(text@, close@, close_search_start as int);
            }
            let end_idx = close_idx + close.len();
            let ghost mask0 = mask@;
            let ghost old_pos = search_pos as int;
            let mut j: usize = start_idx;
            while j < end_idx
                invariant
                    start_idx <= j <= end_idx <= n,
                    mask@.len() == n,
                    mask0.len() == n,
                    forall|i: int|
                        0 <= i < n ==> mask@[i] == (mask0[i] || (start_idx <= i < j)),
                decreases end_idx - j,
            {
                mask.set(j, true);
                j += 1;
            }
            assert forall|i: int| 0 <= i < n implies in_tag_span(
                text@,
                tag@,
                search_pos as int,
                i,
            ) == ((start_idx <= i < end_idx) || in_tag_span(text@, tag@, end_idx as int, i)) by {}
            search_pos = end_idx;
            assert forall|i: int| 0 <= i < n implies (base[i] || in_tag_span(text@, tag@, 0, i)) == (
            mask@[i] || in_tag_span(text@, tag@, search_pos as int, i)) by {
                assert((base[i] || in_tag_span(text@, tag@, 0, i)) == (mask0[i] || in_tag_span(
                    text@,
                    tag@,
                    old_pos,
                    i,
                )));
                assert(mask@[i] == (mask0[i] || (start_idx <= i < end_idx)));
                assert(in_tag_span(text@, tag@, old_pos, i) == ((start_idx <= i < end_idx)
                    || in_tag_span(text@, tag@, end_idx as int, i)));
            }
        }
        assert forall|i: int| 0 <= i < n implies mask@[i] == exists|kk: int|
            0 <= kk < k + 1 && #[trigger] in_tag_span(text@, tv[kk], 0, i) by {
            assert(mask@[i] == (base[i] || in_tag_span(text@, tag@, 0, i)));
            assert(base[i] == exists|kk: int|
                0 <= kk < k && #[trigger] in_tag_span(text@, tv[kk], 0, i));
            if in_tag_span(text@, tv[k as int], 0, i) {
                assert(exists|kk: int|
                    0 <= kk < k + 1 && #[trigger] in_tag_span(text@, tv[kk], 0, i));
            }
        }
        k += 1;
    }
    mask
}

} // verus!

verus! {

// ---------------------------------------------------------------------------
// Whole-text normalization
// ---------------------------------------------------------------------------

/// Which positions of `t` lie in a span of an excluded tag named by `raw`.
pub open spec fn exclusion_mask(t: Seq<char>, raw: Seq<char>) -> Seq<bool> {
    Seq::new(t.len(), |i: int| excluded_at(t, exclude_tags(raw), i))
}

/// End of the run of unmasked positions that starts at `i`.
pub open spec fn gap_end(mask: Seq<bool>, i: int) -> int
    decreases mask.len() - i,
{
    if i >= mask.len() || i < 0 || mask[i] {
        i
    } else {
        gap_end(mask, i + 1)
    }
}

/// Masked characters copied as they are; each maximal unmasked run normalized
/// on its own.
pub open spec fn assemble_from(t: Seq<char>, mask: Seq<bool>, i: int) -> Seq<char>
    decreases t.len() - i,
{
    if i >= t.len() || i < 0 || mask.len() != t.len() {
        seq![]
    } else if mask[i] {
        seq![t[i]] + assemble_from(t, mask, i + 1)
    } else {
        let j = gap_end(mask, i);
        if j <= i || j > t.len() {
            seq![]
        } else {
            normalize_text(t.subrange(i, j)) + assemble_from(t, mask, j)
        }
    }
}

/// The normalized form of text `t` with the exclusion-tag list `raw`.
pub open spec fn normalize_punctuation(t: Seq<char>, raw: Seq<char>) -> Seq<char> {
    assemble_from(t, exclusion_mask(t, raw), 0)
}

proof fn lemma_gap_end(mask: Seq<bool>, i: int)
    requires
        0 <= i <= mask.len(),
    ensures
        i <= gap_end(mask, i) <= mask.len(),
        i < mask.len() && !mask[i] ==> i < gap_end(mask, i),
        forall|k: int| i <= k < gap_end(mask, i) ==> !mask[k],
        gap_end(mask, i) < mask.len() ==> mask[gap_end(mask, i)],
    decreases mask.len() - i,
{
    if i < mask.len() && !mask[i] {
        lemma_gap_end(mask, i + 1);
    }
}

/// Normalizes `text`, leaving code fences, URLs and the `<tag>...</tag>`
/// spans of the tags listed in `exclude_tags_raw` (comma separated; `code`,
/// `pre`, `script` and `style` when it names none) untouched.
pub fn normalize_punctuation_with_tags(text: &str, exclude_tags_raw: &str) -> (r: String)
    ensures
        r@ == normalize_punctuation(text@, exclude_tags_raw@),
{
    let runes = crate::chars::chars_of(text);
    let n = runes.len();
    let tags = parse_exclude_tags(exclude_tags_raw);
    let mask = find_exclude_ranges_by_tags(&runes, &tags);
    let ghost m = exclusion_mask(text@, exclude_tags_raw@);
    assert(mask@ =~= m);
    let mut result: Vec<char> = Vec::new();
    let mut i: usize = 0;
    while i < n
        invariant
            n == runes@.len(),
            runes@ == text@,
            mask@ == m,
            m.len() == n,
            i <= n,
            result@ + assemble_from(runes@, m, i as int) == assemble_from(runes@, m, 0),
        decreases n - i,
    {
        let ghost prev = result@;
        let ghost i0 = i as int;
        if mask[i] {
            result.push(runes[i]);
            i += 1;
            assert(assemble_from(runes@, m, i0) == seq![runes@[i0]] + assemble_from(
                runes@,
                m,
                i as int,
            ));
            assert(result@ + assemble_from(runes@, m, i as int) =~= prev + assemble_from(
                runes@,
                m,
                i0,
            ));
        } else {
            let mut j: usize = i;
            while j < n && !mask[j]
                invariant
                    i <= j <= n,
                    mask@ == m,
                    m.len() == n,
                    gap_end(m, i as int) == gap_end(m, j as int),
                decreases n - j,
            {
                j += 1;
            }
            proof {
                lemma_gap_end(m, i as int);
            }
            let mut segment: Vec<char> = Vec::new();
            let mut k: usize = i;
            while k < j
                invariant
                    i <= k <= j <= n == runes@.len(),
                    segment@ =~= runes@.subrange(i as int, k as int),
                decreases j - k,
            {
                segment.push(runes[k]);
                k += 1;
            }
            let mut normalized = normalize_punctuation_internal(&segment);
            result.append(&mut normalized);
            i = j;
            assert(assemble_from(runes@, m, i0) == normalize_text(runes@.subrange(i0, i as int))
                + assemble_from(runes@, m, i as int));
            assert(result@ + assemble_from(runes@, m, i as int) =~= prev + assemble_from(
                runes@,
                m,
                i0,
            ));
        }
    }
    assert(result@ =~= assemble_from(runes@, m, 0));
    crate::chars::string_of(&result)
}

} // verus!

verus! {

// ---------------------------------------------------------------------------
// Laws
// ---------------------------------------------------------------------------

/// No ASCII comma and no straight quote occurs in `s`.
pub open spec fn free_of_marks(s: Seq<char>) -> bool {
    forall|k: int| 0 <= k < s.len() ==> s[k] != ',' && s[k] != '"' && s[k] != '\''
}

proof fn lemma_render_len(s: Seq<char>, i: int, c: bool, d: bool, q: bool)
    requires
        0 <= i <= s.len(),
    ensures
        render_from(s, i, c, d, q).len() == s.len() - i,
    decreases s.len() - i,
{
    if i < s.len() {
        if fence_at(s, i) {
            lemma_render_len(s, i + 3, !c, d, q);
        } else if c || in_url(s, i) {
            lemma_render_len(s, i + 1, c, d, q);
        } else if s[i] == '"' && double_converted(s, i) {
            lemma_render_len(s, i + 1, c, !d, q);
        } else if s[i] == '\'' && single_converted(s, i) {
            lemma_render_len(s, i + 1, c, d, !q);
        } else {
            lemma_render_len(s, i + 1, c, d, q);
        }
    }
}

proof fn lemma_render_identity(s: Seq<char>, i: int, c: bool, d: bool, q: bool)
    requires
        0 <= i <= s.len(),
        free_of_marks(s),
    ensures
        render_from(s, i, c, d, q) == s.subrange(i, s.len() as int),
    decreases s.len() - i,
{
    if i < s.len() {
        if fence_at(s, i) {
            lemma_render_identity(s, i + 3, !c, d, q);
            assert(s.subrange(i, s.len() as int) =~= seq!['`', '`', '`'] + s.subrange(
                i + 3,
                s.len() as int,
            ));
        } else {
            lemma_render_identity(s, i + 1, c, d, q);
            assert(s.subrange(i, s.len() as int) =~= seq![s[i]] + s.subrange(
                i + 1,
                s.len() as int,
            ));
        }
    } else {
        assert(s.subrange(i, s.len() as int) =~= Seq::<char>::empty());
    }
}

proof fn lemma_assemble_keeps_masked(t: Seq<char>, mask: Seq<bool>, i: int)
    requires
        0 <= i <= t.len(),
        mask.len() == t.len(),
    ensures
        assemble_from(t, mask, i).len() == t.len() - i,
        forall|k: int| i <= k < t.len() && mask[k] ==> assemble_from(t, mask, i)[k - i] == t[k],
    decreases t.len() - i,
{
    if i < t.len() {
        if mask[i] {
            lemma_assemble_keeps_masked(t, mask, i + 1);
        } else {
            let j = gap_end(mask, i);
            lemma_gap_end(mask, i);
            lemma_assemble_keeps_masked(t, mask, j);
            lemma_render_len(t.subrange(i, j), 0, false, true, true);
            let a = normalize_text(t.subrange(i, j));
            let rest = assemble_from(t, mask, j);
            assert forall|k: int| i <= k < t.len() && mask[k] implies assemble_from(t, mask, i)[k
                - i] == t[k] by {
                assert(k >= j);
                assert((a + rest)[k - i] == rest[k - j]);
            }
        }
    }
}

proof fn lemma_assemble_identity(t: Seq<char>, mask: Seq<bool>, i: int)
    requires
        0 <= i <= t.len(),
        mask.len() == t.len(),
        free_of_marks(t),
    ensures
        assemble_from(t, mask, i) == t.subrange(i, t.len() as int),
    decreases t.len() - i,
{
    if i < t.len() {
        if mask[i] {
            lemma_assemble_identity(t, mask, i + 1);
            assert(t.subrange(i, t.len() as int) =~= seq![t[i]] + t.subrange(
                i + 1,
                t.len() as int,
            ));
        } else {
            let j = gap_end(mask, i);
            lemma_gap_end(mask, i);
            lemma_assemble_identity(t, mask, j);
            let seg = t.subrange(i, j);
            assert(free_of_marks(seg));
            lemma_render_identity(seg, 0, false, true, true);
            assert(seg.subrange(0, seg.len() as int) =~= seg);
            assert(t.subrange(i, t.len() as int) =~= seg + t.subrange(j, t.len() as int));
        }
    } else {
        assert(t.subrange(i, t.len() as int) =~= Seq::<char>::empty());
    }
}

/// Normalization keeps the length of the text, and every character inside a
/// span of an excluded tag comes out exactly as it went in.
pub proof fn lemma_excluded_spans_verbatim(t: Seq<char>, raw: Seq<char>)
    ensures
        normalize_punctuation(t, raw).len() == t.len(),
        forall|i: int|
            0 <= i < t.len() && excluded_at(t, exclude_tags(raw), i) ==> normalize_punctuation(
                t,
                raw,
            )[i] == t[i],
{
    lemma_assemble_keeps_masked(t, exclusion_mask(t, raw), 0);
}

/// A text with no ASCII comma and no straight quote is left unchanged.
pub proof fn lemma_mark_free_unchanged(t: Seq<char>, raw: Seq<char>)
    requires
        free_of_marks(t),
    ensures
        normalize_punctuation(t, raw) == t,
{
    lemma_assemble_identity(t, exclusion_mask(t, raw), 0);
    assert(t.subrange(0, t.len() as int) =~= t);
}

/// Normalizing twice gives the same text as normalizing once whenever the
/// first pass leaves no ASCII comma and no straight quote behind, or leaves
/// the text as it was.
pub proof fn lemma_normalize_idempotent(t: Seq<char>, raw: Seq<char>)
    requires
        free_of_marks(normalize_punctuation(t, raw)) || normalize_punctuation(t, raw) == t,
    ensures
        normalize_punctuation(normalize_punctuation(t, raw), raw) == normalize_punctuation(t, raw),
{
    if free_of_marks(normalize_punctuation(t, raw)) {
        lemma_mark_free_unchanged(normalize_punctuation(t, raw), raw);
    }
}

} // verus!
