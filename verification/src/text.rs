//! Character-level text handling: the subset of `str` behaviour that the
//! command-output parsers rely on (whitespace trimming, line splitting,
//! prefix tests, searching, integer parsing and decimal formatting), each
//! stated over `Seq<char>` and implemented over windows `[lo, hi)` of a
//! `Vec<char>`.
use vstd::prelude::*;
use vstd::string::*;

verus! {

// ---------------------------------------------------------------------------
// Specifications
// ---------------------------------------------------------------------------

/// Unicode `White_Space`, the set that `char::is_whitespace` and `str::trim` use.
pub open spec fn is_ws(c: char) -> bool {
    let u = c as u32;
    ||| 9 <= u <= 13
    ||| u == 32
    ||| u == 0x85
    ||| u == 0xA0
    ||| u == 0x1680
    ||| 0x2000 <= u <= 0x200A
    ||| u == 0x2028
    ||| u == 0x2029
    ||| u == 0x202F
    ||| u == 0x205F
    ||| u == 0x3000
}

/// `s` without its leading whitespace.
pub open spec fn trim_start(s: Seq<char>) -> Seq<char>
    decreases s.len(),
{
    if s.len() > 0 && is_ws(s[0]) {
        trim_start(s.drop_first())
    } else {
        s
    }
}

/// `s` without its trailing whitespace.
pub open spec fn trim_end(s: Seq<char>) -> Seq<char>
    decreases s.len(),
{
    if s.len() > 0 && is_ws(s.last()) {
        trim_end(s.drop_last())
    } else {
        s
    }
}

/// `s` without leading and trailing whitespace (`str::trim`).
pub open spec fn trim(s: Seq<char>) -> Seq<char> {
    trim_end(trim_start(s))
}

/// `s` without every leading occurrence of `c` (`str::trim_start_matches(c)`).
pub open spec fn trim_start_char(s: Seq<char>, c: char) -> Seq<char>
    decreases s.len(),
{
    if s.len() > 0 && s[0] == c {
        trim_start_char(s.drop_first(), c)
    } else {
        s
    }
}

/// `s` without every trailing occurrence of `c` (`str::trim_end_matches(c)`).
pub open spec fn trim_end_char(s: Seq<char>, c: char) -> Seq<char>
    decreases s.len(),
{
    if s.len() > 0 && s.last() == c {
        trim_end_char(s.drop_last(), c)
    } else {
        s
    }
}

/// `s` starts with `p`.
pub open spec fn starts_with(s: Seq<char>, p: Seq<char>) -> bool {
    p.len() <= s.len() && s.subrange(0, p.len() as int) == p
}

/// `p` occurs in `s` as a contiguous piece.
pub open spec fn contains(s: Seq<char>, p: Seq<char>) -> bool {
    exists|i: int| 0 <= i && i + p.len() <= s.len() && #[trigger] s.subrange(i, i + p.len()) == p
}

/// `i` is the position of the first `c` in `s`.
pub open spec fn is_first(s: Seq<char>, c: char, i: int) -> bool {
    &&& 0 <= i < s.len()
    &&& s[i] == c
    &&& forall|j: int| 0 <= j < i ==> s[j] != c
}

/// Position of the first `c` in `s` (`str::find(c)`, counted in characters).
pub open spec fn index_of(s: Seq<char>, c: char) -> Option<int> {
    if exists|i: int| 0 <= i < s.len() && s[i] == c {
        Some(choose|i: int| is_first(s, c, i))
    } else {
        None
    }
}

/// The pieces of `s` between occurrences of `c` (`str::split(c)`).
pub open spec fn split(s: Seq<char>, c: char) -> Seq<Seq<char>>
    decreases s.len(),
{
    if s.len() == 0 {
        seq![Seq::<char>::empty()]
    } else {
        let p = split(s.drop_last(), c);
        if s.last() == c {
            p.push(Seq::<char>::empty())
        } else {
            p.update(p.len() - 1, p.last().push(s.last()))
        }
    }
}

/// `t` without one trailing carriage return.
pub open spec fn strip_cr(t: Seq<char>) -> Seq<char> {
    if t.len() > 0 && t.last() == '\r' {
        t.drop_last()
    } else {
        t
    }
}

/// The lines of `s` (`str::lines`): split at `\n`, a `\r` just before a `\n`
/// dropped, and no empty line after a final `\n`.
#[verifier::opaque]
pub open spec fn lines(s: Seq<char>) -> Seq<Seq<char>> {
    let ps = split(s, '\n');
    if s.len() == 0 {
        Seq::empty()
    } else if s.last() == '\n' {
        ps.drop_last().map_values(|t: Seq<char>| strip_cr(t))
    } else {
        ps.drop_last().map_values(|t: Seq<char>| strip_cr(t)).push(ps.last())
    }
}

/// The piece of `s` after its last `c`, or all of `s` (`s.rsplit(c).next()`).
pub open spec fn last_segment(s: Seq<char>, c: char) -> Seq<char>
    decreases s.len(),
{
    if s.len() == 0 {
        s
    } else if s.last() == c {
        Seq::empty()
    } else {
        last_segment(s.drop_last(), c).push(s.last())
    }
}

pub open spec fn is_digit(c: char) -> bool {
    '0' <= c <= '9'
}

pub open spec fn digit_val(c: char) -> nat {
    (c as u32 - '0' as u32) as nat
}

/// Value of a string of decimal digits.
pub open spec fn digits_value(s: Seq<char>) -> nat
    decreases s.len(),
{
    if s.len() == 0 {
        0
    } else {
        digits_value(s.drop_last()) * 10 + digit_val(s.last())
    }
}

/// `s` with one leading `+` removed, as integer parsing does.
pub open spec fn unsigned_digits(s: Seq<char>) -> Seq<char> {
    if s.len() > 0 && s[0] == '+' {
        s.drop_first()
    } else {
        s
    }
}

/// What `s.parse::<u32>()` gives: an optional `+`, then at least one ASCII
/// digit and nothing else, with a value that fits in `u32`.
pub open spec fn parse_u32(s: Seq<char>) -> Option<u32> {
    let d = unsigned_digits(s);
    if d.len() > 0 && (forall|i: int| 0 <= i < d.len() ==> is_digit(#[trigger] d[i])) && digits_value(d)
        <= u32::MAX {
        Some(digits_value(d) as u32)
    } else {
        None
    }
}

/// `char::is_ascii_hexdigit`.
pub open spec fn is_hex_digit(c: char) -> bool {
    ('0' <= c <= '9') || ('a' <= c <= 'f') || ('A' <= c <= 'F')
}

pub open spec fn hex_val(c: char) -> nat {
    if '0' <= c <= '9' {
        (c as u32 - '0' as u32) as nat
    } else if 'a' <= c <= 'f' {
        (c as u32 - 'a' as u32 + 10) as nat
    } else {
        (c as u32 - 'A' as u32 + 10) as nat
    }
}

/// Value of a string of hexadecimal digits.
pub open spec fn hex_value(s: Seq<char>) -> nat
    decreases s.len(),
{
    if s.len() == 0 {
        0
    } else {
        hex_value(s.drop_last()) * 16 + hex_val(s.last())
    }
}

/// What `u8::from_str_radix(s, 16)` gives.
pub open spec fn parse_hex_u8(s: Seq<char>) -> Option<u8> {
    let d = unsigned_digits(s);
    if d.len() > 0 && (forall|i: int| 0 <= i < d.len() ==> is_hex_digit(#[trigger] d[i]))
        && hex_value(d) <= u8::MAX {
        Some(hex_value(d) as u8)
    } else {
        None
    }
}

pub open spec fn digit_char(d: nat) -> char {
    if d == 0 {
        '0'
    } else if d == 1 {
        '1'
    } else if d == 2 {
        '2'
    } else if d == 3 {
        '3'
    } else if d == 4 {
        '4'
    } else if d == 5 {
        '5'
    } else if d == 6 {
        '6'
    } else if d == 7 {
        '7'
    } else if d == 8 {
        '8'
    } else {
        '9'
    }
}

/// Decimal representation of `n`, as `format!("{}", n)` writes it.
pub open spec fn dec(n: nat) -> Seq<char>
    decreases n,
{
    if n < 10 {
        seq![digit_char(n)]
    } else {
        dec(n / 10).push(digit_char(n % 10))
    }
}

/// The pieces of `parts` joined with `sep` between them (`join`).
pub open spec fn join(parts: Seq<Seq<char>>, sep: Seq<char>) -> Seq<char>
    decreases parts.len(),
{
    if parts.len() == 0 {
        Seq::empty()
    } else if parts.len() == 1 {
        parts[0]
    } else {
        join(parts.drop_last(), sep) + sep + parts.last()
    }
}

/// Result of `to_lowercase` on a string (Unicode case mapping).
pub uninterp spec fn lowercase(s: Seq<char>) -> Seq<char>;

/// Calls `str::to_lowercase` (Unicode lowercase mapping of every character).
/// Its result is stated only as `lowercase` of the argument's characters.
#[verifier::external_body]
pub(crate) fn to_lowercase(s: &str) -> (r: String)
    ensures
        r@ == lowercase(s@),
{
    s.to_lowercase()
}

/// The message of the error that `str::parse::<u32>` returns for `s`.
pub uninterp spec fn int_error_text(s: Seq<char>) -> Seq<char>;

/// Calls `str::parse::<u32>`. As its documentation says, it accepts an
/// optional `+` followed by decimal digits whose value fits in a `u32`
/// (`parse_u32`); the text of the error it returns otherwise is only named
/// (`int_error_text`), not stated.
#[verifier::external_body]
pub(crate) fn parse_u32_std(s: &str) -> (r: Result<u32, String>)
    ensures
        match r {
            Ok(n) => parse_u32(s@) == Some(n),
            Err(m) => parse_u32(s@) is None && m@ == int_error_text(s@),
        },
{
    match s.parse::<u32>() {
        Ok(n) => Ok(n),
        Err(e) => Err(e.to_string()),
    }
}

// ---------------------------------------------------------------------------
// Lemmas
// ---------------------------------------------------------------------------

pub proof fn lemma_index_of_first(s: Seq<char>, c: char, i: int)
    requires
        is_first(s, c, i),
    ensures
        index_of(s, c) == Some(i),
{
    assert(exists|k: int| 0 <= k < s.len() && s[k] == c);
    let k = choose|k: int| is_first(s, c, k);
    assert(is_first(s, c, i));
    if k < i {
        assert(s[k] != c);
    } else if k > i {
        assert(s[i] != c);
    }
}

pub proof fn lemma_index_of_none(s: Seq<char>, c: char)
    requires
        forall|j: int| 0 <= j < s.len() ==> s[j] != c,
    ensures
        index_of(s, c) is None,
{
}

pub proof fn lemma_split_len(s: Seq<char>, c: char)
    ensures
        split(s, c).len() >= 1,
    decreases s.len(),
{
    if s.len() > 0 {
        lemma_split_len(s.drop_last(), c);
    }
}

// ---------------------------------------------------------------------------
// Executable helpers over windows of a character vector
// ---------------------------------------------------------------------------

/// The characters of `s`.
pub fn chars_of(s: &str) -> (v: Vec<char>)
    ensures
        v@ == s@,
{
    let mut v: Vec<char> = Vec::new();
    for c in it: s.chars()
        invariant
            v@ == it.seq().take(it.index() as int),
            it.seq() == s@,
    {
        v.push(c);
    }
    v
}

/// The window `[lo, hi)` of `s` as an owned string.
pub fn substring(s: &str, lo: usize, hi: usize) -> (r: String)
    requires
        lo <= hi <= s@.len(),
    ensures
        r@ == s@.subrange(lo as int, hi as int),
{
    s.substring_char(lo, hi).to_owned()
}

/// `char::is_whitespace`.
pub fn is_whitespace(c: char) -> (b: bool)
    ensures
        b == is_ws(c),
{
    let u = c as u32;
    (9 <= u && u <= 13) || u == 32 || u == 0x85 || u == 0xA0 || u == 0x1680 || (0x2000 <= u && u
        <= 0x200A) || u == 0x2028 || u == 0x2029 || u == 0x202F || u == 0x205F || u == 0x3000
}

/// Start of `trim_start` of the window.
pub fn skip_ws(v: &Vec<char>, lo: usize, hi: usize) -> (r: usize)
    requires
        lo <= hi <= v.len(),
    ensures
        lo <= r <= hi,
        v@.subrange(r as int, hi as int) == trim_start(v@.subrange(lo as int, hi as int)),
{
    let mut i = lo;
    while i < hi && is_whitespace(v[i])
        invariant
            lo <= i <= hi <= v.len(),
            trim_start(v@.subrange(lo as int, hi as int)) == trim_start(
                v@.subrange(i as int, hi as int),
            ),
        decreases hi - i,
    {
        assert(v@.subrange(i as int, hi as int).drop_first() =~= v@.subrange(
            i + 1,
            hi as int,
        ));
        i = i + 1;
    }
    i
}

/// End of `trim_end` of the window.
pub fn rskip_ws(v: &Vec<char>, lo: usize, hi: usize) -> (r: usize)
    requires
        lo <= hi <= v.len(),
    ensures
        lo <= r <= hi,
        v@.subrange(lo as int, r as int) == trim_end(v@.subrange(lo as int, hi as int)),
{
    let mut j = hi;
    while j > lo && is_whitespace(v[j - 1])
        invariant
            lo <= j <= hi <= v.len(),
            trim_end(v@.subrange(lo as int, hi as int)) == trim_end(
                v@.subrange(lo as int, j as int),
            ),
        decreases j - lo,
    {
        assert(v@.subrange(lo as int, j as int).drop_last() =~= v@.subrange(
            lo as int,
            j - 1,
        ));
        j = j - 1;
    }
    j
}

/// The window of `trim` applied to the window.
pub fn trim_window(v: &Vec<char>, lo: usize, hi: usize) -> (r: (usize, usize))
    requires
        lo <= hi <= v.len(),
    ensures
        lo <= r.0 <= r.1 <= hi,
        v@.subrange(r.0 as int, r.1 as int) == trim(v@.subrange(lo as int, hi as int)),
{
    let a = skip_ws(v, lo, hi);
    let b = rskip_ws(v, a, hi);
    (a, b)
}

/// Start of `trim_start_matches(c)` of the window.
pub fn skip_char(v: &Vec<char>, lo: usize, hi: usize, c: char) -> (r: usize)
    requires
        lo <= hi <= v.len(),
    ensures
        lo <= r <= hi,
        v@.subrange(r as int, hi as int) == trim_start_char(
            v@.subrange(lo as int, hi as int),
            c,
        ),
{
    let mut i = lo;
    while i < hi && v[i] == c
        invariant
            lo <= i <= hi <= v.len(),
            trim_start_char(v@.subrange(lo as int, hi as int), c) == trim_start_char(
                v@.subrange(i as int, hi as int),
                c,
            ),
        decreases hi - i,
    {
        assert(v@.subrange(i as int, hi as int).drop_first() =~= v@.subrange(
            i + 1,
            hi as int,
        ));
        i = i + 1;
    }
    i
}

/// End of `trim_end_matches(c)` of the window.
pub fn rskip_char(v: &Vec<char>, lo: usize, hi: usize, c: char) -> (r: usize)
    requires
        lo <= hi <= v.len(),
    ensures
        lo <= r <= hi,
        v@.subrange(lo as int, r as int) == trim_end_char(v@.subrange(lo as int, hi as int), c),
{
    let mut j = hi;
    while j > lo && v[j - 1] == c
        invariant
            lo <= j <= hi <= v.len(),
            trim_end_char(v@.subrange(lo as int, hi as int), c) == trim_end_char(
                v@.subrange(lo as int, j as int),
                c,
            ),
        decreases j - lo,
    {
        assert(v@.subrange(lo as int, j as int).drop_last() =~= v@.subrange(
            lo as int,
            j - 1,
        ));
        j = j - 1;
    }
    j
}

/// Whether the window starts with `p`.
pub fn starts_with_at(v: &Vec<char>, lo: usize, hi: usize, p: &Vec<char>) -> (b: bool)
    requires
        lo <= hi <= v.len(),
    ensures
        b == starts_with(v@.subrange(lo as int, hi as int), p@),
{
    let ghost s = v@.subrange(lo as int, hi as int);
    if p.len() > hi - lo {
        return false;
    }
    let mut k: usize = 0;
    while k < p.len()
        invariant
            p.len() <= hi - lo,
            lo <= hi <= v.len(),
            s == v@.subrange(lo as int, hi as int),
            k <= p.len(),
            forall|j: int| 0 <= j < k ==> v@[lo + j] == p@[j],
        decreases p.len() - k,
    {
        if v[lo + k] != p[k] {
            assert(s.subrange(0, p@.len() as int)[k as int] != p@[k as int]);
            return false;
        }
        k = k + 1;
    }
    assert(s.subrange(0, p@.len() as int) =~= p@);
    true
}

/// Whether `p` occurs in the window.
pub fn contains_at(v: &Vec<char>, lo: usize, hi: usize, p: &Vec<char>) -> (b: bool)
    requires
        lo <= hi <= v.len(),
    ensures
        b == contains(v@.subrange(lo as int, hi as int), p@),
{
    let ghost s = v@.subrange(lo as int, hi as int);
    if p.len() > hi - lo {
        return false;
    }
    let last = hi - p.len();
    let mut i: usize = lo;
    loop
        invariant
            p.len() <= hi - lo,
            last == hi - p.len(),
            lo <= i <= last,
            lo <= hi <= v.len(),
            s == v@.subrange(lo as int, hi as int),
            forall|k: int|
                0 <= k && k + p@.len() <= s.len() && k < i - lo ==> #[trigger] s.subrange(
                    k,
                    k + p@.len(),
                ) != p@,
        decreases last - i,
    {
        assert(s.subrange(i - lo, i - lo + p@.len()) =~= v@.subrange(i as int, hi as int).subrange(
            0,
            p@.len() as int,
        ));
        if starts_with_at(v, i, hi, p) {
            return true;
        }
        if i == last {
            return false;
        }
        i = i + 1;
    }
}

/// Absolute position of the first `c` in the window.
pub fn find_char_at(v: &Vec<char>, lo: usize, hi: usize, c: char) -> (r: Option<usize>)
    requires
        lo <= hi <= v.len(),
    ensures
        match r {
            Some(i) => lo <= i < hi && index_of(v@.subrange(lo as int, hi as int), c) == Some(
                i - lo,
            ),
            None => index_of(v@.subrange(lo as int, hi as int), c) is None,
        },
{
    let ghost s = v@.subrange(lo as int, hi as int);
    let mut i = lo;
    while i < hi
        invariant
            lo <= i <= hi <= v.len(),
            s == v@.subrange(lo as int, hi as int),
            forall|j: int| 0 <= j < i - lo ==> s[j] != c,
        decreases hi - i,
    {
        if v[i] == c {
            proof {
                lemma_index_of_first(s, c, i - lo);
            }
            return Some(i);
        }
        i = i + 1;
    }
    proof {
        lemma_index_of_none(s, c);
    }
    None
}

/// The windows of the lines of `v`.
pub fn line_windows(v: &Vec<char>) -> (ws: Vec<(usize, usize)>)
    ensures
        ws.len() == lines(v@).len(),
        forall|k: int|
            0 <= k < ws.len() ==> {
                &&& (#[trigger] ws@[k]).0 <= ws@[k].1 <= v.len()
                &&& v@.subrange(ws@[k].0 as int, ws@[k].1 as int) == lines(v@)[k]
            },
{
    let n = v.len();
    let mut ws: Vec<(usize, usize)> = Vec::new();
    let mut start: usize = 0;
    let mut i: usize = 0;
    while i < n
        invariant
            n == v.len(),
            start <= i <= n,
            ({
                let p = split(v@.take(i as int), '\n');
                &&& p.len() == ws.len() + 1
                &&& p.last() == v@.subrange(start as int, i as int)
                &&& forall|k: int|
                    0 <= k < ws.len() ==> {
                        &&& (#[trigger] ws@[k]).0 <= ws@[k].1 <= n
                        &&& v@.subrange(ws@[k].0 as int, ws@[k].1 as int) == strip_cr(p[k])
                    }
            }),
        decreases n - i,
    {
        proof {
            lemma_split_len(v@.take(i as int), '\n');
            assert(v@.take(i + 1).drop_last() =~= v@.take(i as int));
        }
        let ghost p = split(v@.take(i as int), '\n');
        if v[i] == '\n' {
            let end = if i > start && v[i - 1] == '\r' {
                i - 1
            } else {
                i
            };
            proof {
                let t = v@.subrange(start as int, i as int);
                if i > start && v@[i - 1] == '\r' {
                    assert(t.drop_last() =~= v@.subrange(start as int, end as int));
                }
            }
            ws.push((start, end));
            start = i + 1;
            proof {
                let q = split(v@.take(i + 1), '\n');
                assert(q == p.push(Seq::<char>::empty()));
                assert(v@.subrange(start as int, i + 1) =~= Seq::<char>::empty());
                assert forall|k: int| 0 <= k < ws.len() implies {
                    &&& (#[trigger] ws@[k]).0 <= ws@[k].1 <= n
                    &&& v@.subrange(ws@[k].0 as int, ws@[k].1 as int) == strip_cr(q[k])
                } by {
                    if k < ws.len() - 1 {
                        assert(q[k] == p[k]);
                    }
                }
            }
        } else {
            proof {
                let q = split(v@.take(i + 1), '\n');
                assert(q == p.update(p.len() - 1, p.last().push(v@[i as int])));
                assert(v@.subrange(start as int, i + 1) =~= p.last().push(v@[i as int]));
                assert forall|k: int| 0 <= k < ws.len() implies {
                    &&& (#[trigger] ws@[k]).0 <= ws@[k].1 <= n
                    &&& v@.subrange(ws@[k].0 as int, ws@[k].1 as int) == strip_cr(q[k])
                } by {
                    assert(q[k] == p[k]);
                }
            }
        }
        i = i + 1;
    }
    proof {
        assert(v@.take(n as int) =~= v@);
    }
    let ghost p = split(v@, '\n');
    proof {
        reveal(lines);
    }
    if n > 0 && v[n - 1] != '\n' {
        ws.push((start, n));
        proof {
            let l = lines(v@);
            assert(l == p.drop_last().map_values(|t: Seq<char>| strip_cr(t)).push(p.last()));
            assert forall|k: int| 0 <= k < ws.len() implies {
                &&& (#[trigger] ws@[k]).0 <= ws@[k].1 <= v.len()
                &&& v@.subrange(ws@[k].0 as int, ws@[k].1 as int) == l[k]
            } by {
                if k < ws.len() - 1 {
                    assert(l[k] == strip_cr(p[k]));
                }
            }
        }
    } else if n > 0 {
        proof {
            let l = lines(v@);
            assert(p.last() =~= Seq::<char>::empty());
            assert(l == p.drop_last().map_values(|t: Seq<char>| strip_cr(t)));
            assert forall|k: int| 0 <= k < ws.len() implies {
                &&& (#[trigger] ws@[k]).0 <= ws@[k].1 <= v.len()
                &&& v@.subrange(ws@[k].0 as int, ws@[k].1 as int) == l[k]
            } by {
                assert(l[k] == strip_cr(p[k]));
            }
        }
    }
    ws
}

} // verus!

verus! {

/// Start of `last_segment` of the window.
pub fn last_segment_start(v: &Vec<char>, lo: usize, hi: usize, c: char) -> (r: usize)
    requires
        lo <= hi <= v.len(),
    ensures
        lo <= r <= hi,
        v@.subrange(r as int, hi as int) == last_segment(v@.subrange(lo as int, hi as int), c),
{
    let mut j = hi;
    while j > lo && v[j - 1] != c
        invariant
            lo <= j <= hi <= v.len(),
            last_segment(v@.subrange(lo as int, hi as int), c) == last_segment(
                v@.subrange(lo as int, j as int),
                c,
            ) + v@.subrange(j as int, hi as int),
        decreases j - lo,
    {
        proof {
            let t = v@.subrange(lo as int, j as int);
            assert(t.drop_last() =~= v@.subrange(lo as int, j - 1));
            assert(last_segment(t, c) == last_segment(t.drop_last(), c).push(t.last()));
            assert(last_segment(t.drop_last(), c).push(t.last()) + v@.subrange(j as int, hi as int)
                =~= last_segment(t.drop_last(), c) + v@.subrange(j - 1, hi as int));
        }
        j = j - 1;
    }
    proof {
        let t = v@.subrange(lo as int, j as int);
        assert(last_segment(t, c) =~= Seq::<char>::empty());
        assert(Seq::<char>::empty() + v@.subrange(j as int, hi as int) =~= v@.subrange(
            j as int,
            hi as int,
        ));
    }
    j
}

/// The windows of the pieces of the window split at `c`.
pub fn split_windows(v: &Vec<char>, lo: usize, hi: usize, c: char) -> (ws: Vec<(usize, usize)>)
    requires
        lo <= hi <= v.len(),
    ensures
        ws.len() == split(v@.subrange(lo as int, hi as int), c).len(),
        forall|k: int|
            0 <= k < ws.len() ==> {
                &&& lo <= (#[trigger] ws@[k]).0 <= ws@[k].1 <= hi
                &&& v@.subrange(ws@[k].0 as int, ws@[k].1 as int) == split(
                    v@.subrange(lo as int, hi as int),
                    c,
                )[k]
            },
{
    let ghost s = v@.subrange(lo as int, hi as int);
    let mut ws: Vec<(usize, usize)> = Vec::new();
    let mut start: usize = lo;
    let mut i: usize = lo;
    while i < hi
        invariant
            lo <= start <= i <= hi <= v.len(),
            s == v@.subrange(lo as int, hi as int),
            ({
                let p = split(s.take(i - lo), c);
                &&& p.len() == ws.len() + 1
                &&& p.last() == v@.subrange(start as int, i as int)
                &&& forall|k: int|
                    0 <= k < ws.len() ==> {
                        &&& lo <= (#[trigger] ws@[k]).0 <= ws@[k].1 <= hi
                        &&& v@.subrange(ws@[k].0 as int, ws@[k].1 as int) == p[k]
                    }
            }),
        decreases hi - i,
    {
        proof {
            lemma_split_len(s.take(i - lo), c);
            assert(s.take(i - lo + 1).drop_last() =~= s.take(i - lo));
            assert(s.take(i - lo + 1).last() == v@[i as int]);
        }
        let ghost p = split(s.take(i - lo), c);
        if v[i] == c {
            ws.push((start, i));
            start = i + 1;
            proof {
                let q = split(s.take(i - lo + 1), c);
                assert(q == p.push(Seq::<char>::empty()));
                assert(v@.subrange(start as int, i + 1) =~= Seq::<char>::empty());
                assert forall|k: int| 0 <= k < ws.len() implies {
                    &&& lo <= (#[trigger] ws@[k]).0 <= ws@[k].1 <= hi
                    &&& v@.subrange(ws@[k].0 as int, ws@[k].1 as int) == q[k]
                } by {
                    if k < ws.len() - 1 {
                        assert(q[k] == p[k]);
                    }
                }
            }
        } else {
            proof {
                let q = split(s.take(i - lo + 1), c);
                assert(q == p.update(p.len() - 1, p.last().push(v@[i as int])));
                assert(v@.subrange(start as int, i + 1) =~= p.last().push(v@[i as int]));
                assert forall|k: int| 0 <= k < ws.len() implies {
                    &&& lo <= (#[trigger] ws@[k]).0 <= ws@[k].1 <= hi
                    &&& v@.subrange(ws@[k].0 as int, ws@[k].1 as int) == q[k]
                } by {
                    assert(q[k] == p[k]);
                }
            }
        }
        i = i + 1;
    }
    ws.push((start, hi));
    proof {
        assert(s.take(hi - lo) =~= s);
        let p = split(s, c);
        assert forall|k: int| 0 <= k < ws.len() implies {
            &&& lo <= (#[trigger] ws@[k]).0 <= ws@[k].1 <= hi
            &&& v@.subrange(ws@[k].0 as int, ws@[k].1 as int) == p[k]
        } by {
        }
    }
    ws
}

/// `s.parse::<u32>()` of the window.
pub fn parse_u32_at(v: &Vec<char>, lo: usize, hi: usize) -> (r: Option<u32>)
    requires
        lo <= hi <= v.len(),
    ensures
        r == parse_u32(v@.subrange(lo as int, hi as int)),
{
    let ghost s = v@.subrange(lo as int, hi as int);
    let start = if lo < hi && v[lo] == '+' {
        lo + 1
    } else {
        lo
    };
    let ghost d = v@.subrange(start as int, hi as int);
    assert(d =~= unsigned_digits(s));
    if start == hi {
        return None;
    }
    let mut val: u64 = 0;
    let mut over = false;
    let mut i = start;
    while i < hi
        invariant
            start <= i <= hi <= v.len(),
            d == v@.subrange(start as int, hi as int),
            d == unsigned_digits(s),
            s == v@.subrange(lo as int, hi as int),
            forall|j: int| 0 <= j < i - start ==> is_digit(#[trigger] d[j]),
            !over ==> val == digits_value(d.take(i - start)) && val <= u32::MAX,
            over ==> digits_value(d.take(i - start)) > u32::MAX,
        decreases hi - i,
    {
        let ch = v[i];
        if !('0' <= ch && ch <= '9') {
            assert(d[i - start] == ch);
            assert(!is_digit(d[i - start]));
            assert(!(forall|j: int| 0 <= j < d.len() ==> is_digit(#[trigger] d[j])));
            assert(parse_u32(s) is None);
            return None;
        }
        proof {
            assert(d.take(i - start + 1).drop_last() =~= d.take(i - start));
            assert(d.take(i - start + 1).last() == ch);
        }
        let dv = (ch as u32 - '0' as u32) as u64;
        if !over {
            val = val * 10 + dv;
            if val > 4294967295 {
                over = true;
            }
        }
        i = i + 1;
    }
    assert(d.take(hi - start) =~= d);
    if over {
        None
    } else {
        Some(val as u32)
    }
}

/// `char::is_ascii_hexdigit`.
pub fn is_ascii_hexdigit(c: char) -> (b: bool)
    ensures
        b == is_hex_digit(c),
{
    ('0' <= c && c <= '9') || ('a' <= c && c <= 'f') || ('A' <= c && c <= 'F')
}

/// `u8::from_str_radix(s, 16)` of the window.
pub fn parse_hex_u8_at(v: &Vec<char>, lo: usize, hi: usize) -> (r: Option<u8>)
    requires
        lo <= hi <= v.len(),
    ensures
        r == parse_hex_u8(v@.subrange(lo as int, hi as int)),
{
    let ghost s = v@.subrange(lo as int, hi as int);
    let start = if lo < hi && v[lo] == '+' {
        lo + 1
    } else {
        lo
    };
    let ghost d = v@.subrange(start as int, hi as int);
    assert(d =~= unsigned_digits(s));
    if start == hi {
        return None;
    }
    let mut val: u64 = 0;
    let mut over = false;
    let mut i = start;
    while i < hi
        invariant
            start <= i <= hi <= v.len(),
            d == v@.subrange(start as int, hi as int),
            d == unsigned_digits(s),
            s == v@.subrange(lo as int, hi as int),
            forall|j: int| 0 <= j < i - start ==> is_hex_digit(#[trigger] d[j]),
            !over ==> val == hex_value(d.take(i - start)) && val <= u8::MAX,
            over ==> hex_value(d.take(i - start)) > u8::MAX,
        decreases hi - i,
    {
        let ch = v[i];
        if !is_ascii_hexdigit(ch) {
            assert(d[i - start] == ch);
            assert(!is_hex_digit(d[i - start]));
            assert(!(forall|j: int| 0 <= j < d.len() ==> is_hex_digit(#[trigger] d[j])));
            assert(parse_hex_u8(s) is None);
            return None;
        }
        proof {
            assert(d.take(i - start + 1).drop_last() =~= d.take(i - start));
            assert(d.take(i - start + 1).last() == ch);
        }
        let hv: u64 = if '0' <= ch && ch <= '9' {
            (ch as u32 - '0' as u32) as u64
        } else if 'a' <= ch && ch <= 'f' {
            (ch as u32 - 'a' as u32 + 10) as u64
        } else {
            (ch as u32 - 'A' as u32 + 10) as u64
        };
        if !over {
            val = val * 16 + hv;
            if val > 255 {
                over = true;
            }
        }
        i = i + 1;
    }
    assert(d.take(hi - start) =~= d);
    if over {
        None
    } else {
        Some(val as u8)
    }
}

/// The one-character string of decimal digit `d`.
fn digit_str(d: u64) -> (r: &'static str)
    requires
        d < 10,
    ensures
        r@ == seq![digit_char(d as nat)],
{
    proof {
        reveal_strlit("0");
        reveal_strlit("1");
        reveal_strlit("2");
        reveal_strlit("3");
        reveal_strlit("4");
        reveal_strlit("5");
        reveal_strlit("6");
        reveal_strlit("7");
        reveal_strlit("8");
        reveal_strlit("9");
    }
    if d == 0 {
        "0"
    } else if d == 1 {
        "1"
    } else if d == 2 {
        "2"
    } else if d == 3 {
        "3"
    } else if d == 4 {
        "4"
    } else if d == 5 {
        "5"
    } else if d == 6 {
        "6"
    } else if d == 7 {
        "7"
    } else if d == 8 {
        "8"
    } else {
        "9"
    }
}

/// Appends the decimal representation of `n` to `out`.
pub fn push_decimal(out: &mut String, n: u64)
    ensures
        final(out)@ == old(out)@ + dec(n as nat),
    decreases n,
{
    if n >= 10 {
        push_decimal(out, n / 10);
        out.append(digit_str(n % 10));
        proof {
            assert(dec(n as nat) == dec((n / 10) as nat).push(digit_char((n % 10) as nat)));
            assert(old(out)@ + dec((n / 10) as nat) + seq![digit_char((n % 10) as nat)] =~= old(
                out,
            )@ + dec(n as nat));
        }
    } else {
        out.append(digit_str(n));
        assert(old(out)@ + seq![digit_char(n as nat)] =~= old(out)@ + dec(n as nat));
    }
}

/// The decimal representation of `n`.
pub fn decimal(n: u64) -> (r: String)
    ensures
        r@ == dec(n as nat),
{
    let mut r = String::new();
    push_decimal(&mut r, n);
    assert(Seq::<char>::empty() + dec(n as nat) =~= dec(n as nat));
    r
}

} // verus!

verus! {

/// The views of a sequence of strings.
pub open spec fn views(v: Seq<String>) -> Seq<Seq<char>> {
    v.map_values(|s: String| s@)
}

/// The strings of `parts` joined with `sep` (`parts.join(sep)`).
pub fn join_strings(parts: &Vec<String>, sep: &str) -> (r: String)
    ensures
        r@ == join(views(parts@), sep@),
{
    let mut r = String::new();
    let ghost vs = views(parts@);
    let mut i: usize = 0;
    while i < parts.len()
        invariant
            i <= parts.len(),
            vs == views(parts@),
            r@ == join(vs.take(i as int), sep@),
        decreases parts.len() - i,
    {
        proof {
            assert(vs.take(i + 1).drop_last() =~= vs.take(i as int));
            assert(vs.take(i + 1).last() == parts@[i as int]@);
        }
        if i > 0 {
            r.append(sep);
        } else {
            assert(join(vs.take(0), sep@) =~= Seq::<char>::empty());
        }
        r.append(parts[i].as_str());
        proof {
            if i == 0 {
                assert(vs.take(1) =~= seq![vs[0]]);
                assert(Seq::<char>::empty() + parts@[0]@ =~= parts@[0]@);
            }
        }
        i = i + 1;
    }
    assert(vs.take(parts.len() as int) =~= vs);
    r
}

} // verus!

verus! {

/// Whether the window equals `p`.
pub fn eq_at(v: &Vec<char>, lo: usize, hi: usize, p: &Vec<char>) -> (b: bool)
    requires
        lo <= hi <= v.len(),
    ensures
        b == (v@.subrange(lo as int, hi as int) == p@),
{
    let r = hi - lo == p.len() && starts_with_at(v, lo, hi, p);
    proof {
        let s = v@.subrange(lo as int, hi as int);
        if hi - lo == p.len() {
            assert(s.subrange(0, p@.len() as int) =~= s);
        }
    }
    r
}

} // verus!

verus! {

/// Number of bytes of the UTF-8 encoding of `s` (what `str::len` counts).
pub open spec fn utf8_len(s: Seq<char>) -> nat {
    vstd::utf8::encode_utf8(s).len()
}

/// Number of bytes of the UTF-8 encoding of `c`.
pub open spec fn char_width(c: char) -> nat {
    if c as u32 <= 0x7F {
        1
    } else if c as u32 <= 0x7FF {
        2
    } else if c as u32 <= 0xFFFF {
        3
    } else {
        4
    }
}

pub proof fn lemma_utf8_len_push(s: Seq<char>, c: char)
    ensures
        utf8_len(s.push(c)) == utf8_len(s) + char_width(c),
    decreases s.len(),
{
    vstd::utf8::char_is_scalar(c);
    if s.len() == 0 {
        assert(s.push(c).drop_first() =~= Seq::<char>::empty());
        assert(vstd::utf8::encode_utf8(Seq::<char>::empty()) =~= Seq::<u8>::empty());
    } else {
        lemma_utf8_len_push(s.drop_first(), c);
        assert(s.push(c).drop_first() =~= s.drop_first().push(c));
        assert(s.push(c)[0] == s[0]);
    }
}

/// Byte width of `c` in UTF-8.
pub fn char_width_of(c: char) -> (r: usize)
    ensures
        r == char_width(c),
{
    let u = c as u32;
    if u <= 0x7F {
        1
    } else if u <= 0x7FF {
        2
    } else if u <= 0xFFFF {
        3
    } else {
        4
    }
}

} // verus!

verus! {

/// `s` has a character boundary after `k` bytes.
pub open spec fn has_boundary(s: Seq<char>, k: nat) -> bool {
    exists|j: int| 0 <= j <= s.len() && #[trigger] utf8_len(s.take(j)) == k
}

/// Number of characters in the first `k` bytes of `s`.
pub open spec fn boundary(s: Seq<char>, k: nat) -> int {
    choose|j: int| 0 <= j <= s.len() && #[trigger] utf8_len(s.take(j)) == k
}

pub proof fn lemma_boundary_unique(s: Seq<char>, k: nat, j: int)
    requires
        0 <= j <= s.len(),
        utf8_len(s.take(j)) == k,
    ensures
        boundary(s, k) == j,
{
    let b = boundary(s, k);
    assert(has_boundary(s, k));
    if b < j {
        lemma_utf8_len_strict(s, b, j);
    } else if b > j {
        lemma_utf8_len_strict(s, j, b);
    }
}

pub proof fn lemma_utf8_len_strict(s: Seq<char>, a: int, b: int)
    requires
        0 <= a < b <= s.len(),
    ensures
        utf8_len(s.take(a)) < utf8_len(s.take(b)),
    decreases b - a,
{
    assert(s.take(b) =~= s.take(b - 1).push(s[b - 1]));
    lemma_utf8_len_push(s.take(b - 1), s[b - 1]);
    if a < b - 1 {
        lemma_utf8_len_strict(s, a, b - 1);
    }
}

/// Number of characters of `v[a..]` that make up its first `k` bytes.
pub fn byte_offset(v: &Vec<char>, a: usize, k: usize) -> (j: usize)
    requires
        a <= v.len(),
        has_boundary(v@.subrange(a as int, v.len() as int), k as nat),
        k <= 6,
    ensures
        j <= v.len() - a,
        utf8_len(v@.subrange(a as int, v.len() as int).take(j as int)) == k,
{
    let ghost d = v@.subrange(a as int, v.len() as int);
    let mut bytes: usize = 0;
    let mut i: usize = 0;
    assert(d.take(0) =~= Seq::<char>::empty());
    while i < v.len() - a && bytes < k
        invariant
            a <= v.len(),
            k <= 6,
            d == v@.subrange(a as int, v.len() as int),
            i <= v.len() - a,
            bytes == utf8_len(d.take(i as int)),
            forall|j: int| 0 <= j < i ==> #[trigger] utf8_len(d.take(j)) < k,
        decreases v.len() - a - i,
    {
        let w = char_width_of(v[a + i]);
        proof {
            assert(d.take(i + 1) =~= d.take(i as int).push(v@[a + i]));
            lemma_utf8_len_push(d.take(i as int), v@[a + i]);
        }
        bytes = bytes + w;
        i = i + 1;
    }
    proof {
        let j = choose|j: int| 0 <= j <= d.len() && #[trigger] utf8_len(d.take(j)) == k;
        if j > i {
            lemma_utf8_len_strict(d, i as int, j);
        }
    }
    i
}

} // verus!

verus! {

/// A copy of the window.
pub fn window_vec(v: &Vec<char>, lo: usize, hi: usize) -> (w: Vec<char>)
    requires
        lo <= hi <= v.len(),
    ensures
        w@ == v@.subrange(lo as int, hi as int),
{
    let mut w: Vec<char> = Vec::new();
    let mut i = lo;
    while i < hi
        invariant
            lo <= i <= hi <= v.len(),
            w@ == v@.subrange(lo as int, i as int),
        decreases hi - i,
    {
        w.push(v[i]);
        i = i + 1;
        assert(w@ =~= v@.subrange(lo as int, i as int));
    }
    w
}

} // verus!

verus! {

/// Whether `v` has a character boundary after `k` bytes.
pub fn has_boundary_at(v: &Vec<char>, k: usize) -> (b: bool)
    requires
        k <= 6,
    ensures
        b == has_boundary(v@, k as nat),
{
    let mut bytes: usize = 0;
    let mut i: usize = 0;
    assert(v@.take(0) =~= Seq::<char>::empty());
    while i < v.len() && bytes < k
        invariant
            k <= 6,
            i <= v.len(),
            bytes == utf8_len(v@.take(i as int)),
            forall|j: int| 0 <= j < i ==> #[trigger] utf8_len(v@.take(j)) < k,
        decreases v.len() - i,
    {
        proof {
            assert(v@.take(i + 1) =~= v@.take(i as int).push(v@[i as int]));
            lemma_utf8_len_push(v@.take(i as int), v@[i as int]);
        }
        bytes = bytes + char_width_of(v[i]);
        i = i + 1;
    }
    proof {
        if bytes != k && has_boundary(v@, k as nat) {
            let j = choose|j: int| 0 <= j <= v@.len() && #[trigger] utf8_len(v@.take(j)) == k;
            if j > i {
                lemma_utf8_len_strict(v@, i as int, j);
            }
        }
    }
    bytes == k
}

} // verus!

verus! {

/// Whether two strings are equal.
pub fn str_eq(a: &str, b: &str) -> (r: bool)
    ensures
        r == (a@ == b@),
{
    let va = chars_of(a);
    let vb = chars_of(b);
    assert(va@.subrange(0, va.len() as int) =~= va@);
    eq_at(&va, 0, va.len(), &vb)
}

} // verus!

verus! {

/// The UTF-8 length of the window when it is at most `cap`, otherwise some
/// number above `cap`.
pub fn utf8_len_up_to(v: &Vec<char>, lo: usize, hi: usize, cap: usize) -> (n: usize)
    requires
        lo <= hi <= v.len(),
        cap <= usize::MAX - 4,
    ensures
        n <= cap ==> n == utf8_len(v@.subrange(lo as int, hi as int)),
        n > cap ==> utf8_len(v@.subrange(lo as int, hi as int)) > cap,
{
    let ghost d = v@.subrange(lo as int, hi as int);
    let mut n: usize = 0;
    let mut i: usize = lo;
    assert(d.take(0) =~= Seq::<char>::empty());
    while i < hi && n <= cap
        invariant
            lo <= i <= hi <= v.len(),
            cap <= usize::MAX - 4,
            d == v@.subrange(lo as int, hi as int),
            n == utf8_len(d.take(i - lo)),
            n <= cap + 4,
        decreases hi - i,
    {
        proof {
            assert(d.take(i - lo + 1) =~= d.take(i - lo).push(v@[i as int]));
            lemma_utf8_len_push(d.take(i - lo), v@[i as int]);
        }
        n = n + char_width_of(v[i]);
        i = i + 1;
    }
    proof {
        if i < hi {
            lemma_utf8_len_strict(d, i - lo, d.len() as int);
        }
        assert(d.take(d.len() as int) =~= d);
    }
    n
}

} // verus!
