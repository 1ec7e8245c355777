//! The `asusctl` tool: the commands that change settings, and the parsers
//! of what its query commands print.
use vstd::prelude::*;

use crate::command::{command, owned, run_result, Command, CommandView, ProcessOutput};
use crate::error::AppError;
use crate::text::{
    chars_of, contains, contains_at, dec, eq_at, decimal, find_char_at, index_of, join, join_strings,
    last_segment, last_segment_start, line_windows, lines, parse_hex_u8, parse_hex_u8_at,
    parse_u32, parse_u32_at, parse_u32_std, int_error_text, rskip_char, skip_char, split, split_windows, starts_with,
    starts_with_at, substring, trim, trim_end_char, trim_start_char, trim_window, views, utf8_len,
    lemma_utf8_len_push, char_width, char_width_of, has_boundary, boundary, byte_offset,
    lemma_boundary_unique, lemma_utf8_len_strict,
};

verus! {

// ---------------------------------------------------------------------------
// Line search
// ---------------------------------------------------------------------------

/// Position of the first line satisfying `f`.
pub open spec fn first_where(ls: Seq<Seq<char>>, f: spec_fn(Seq<char>) -> bool) -> Option<int> {
    if exists|i: int| 0 <= i < ls.len() && f(ls[i]) {
        Some(choose|i: int| 0 <= i < ls.len() && f(ls[i]) && forall|j: int| 0 <= j < i ==> !f(ls[j]))
    } else {
        None
    }
}

/// Lines that start with `p`.
pub open spec fn begins(p: Seq<char>) -> spec_fn(Seq<char>) -> bool {
    |l: Seq<char>| starts_with(l, p)
}

/// Lines that contain `p`.
pub open spec fn mentions(p: Seq<char>) -> spec_fn(Seq<char>) -> bool {
    |l: Seq<char>| contains(l, p)
}

proof fn lemma_first_where(ls: Seq<Seq<char>>, f: spec_fn(Seq<char>) -> bool, i: int)
    requires
        0 <= i < ls.len(),
        f(ls[i]),
        forall|j: int| 0 <= j < i ==> !f(ls[j]),
    ensures
        first_where(ls, f) == Some(i),
{
    let k = choose|k: int| 0 <= k < ls.len() && f(ls[k]) && forall|j: int| 0 <= j < k ==> !f(ls[j]);
    if k < i {
        assert(!f(ls[k]));
    } else if k > i {
        assert(!f(ls[i]));
    }
}

/// Index of the first line window whose text satisfies the test; the test is
/// `starts_with p` when `prefix`, otherwise `contains p`.
fn first_line_at(v: &Vec<char>, ws: &Vec<(usize, usize)>, p: &Vec<char>, prefix: bool) -> (r: Option<
    usize,
>)
    requires
        ws.len() == lines(v@).len(),
        forall|k: int|
            0 <= k < ws.len() ==> {
                &&& (#[trigger] ws@[k]).0 <= ws@[k].1 <= v.len()
                &&& v@.subrange(ws@[k].0 as int, ws@[k].1 as int) == lines(v@)[k]
            },
    ensures
        match r {
            Some(i) => i < ws.len() && first_where(
                lines(v@),
                if prefix {
                    begins(p@)
                } else {
                    mentions(p@)
                },
            ) == Some(i as int) && (if prefix {
                starts_with(lines(v@)[i as int], p@)
            } else {
                contains(lines(v@)[i as int], p@)
            }),
            None => first_where(
                lines(v@),
                if prefix {
                    begins(p@)
                } else {
                    mentions(p@)
                },
            ) is None,
        },
{
    let ghost f = if prefix {
        begins(p@)
    } else {
        mentions(p@)
    };
    let ghost ls = lines(v@);
    let mut k: usize = 0;
    while k < ws.len()
        invariant
            k <= ws.len(),
            ws.len() == ls.len(),
            ls == lines(v@),
            f == (if prefix {
                begins(p@)
            } else {
                mentions(p@)
            }),
            forall|k: int|
                0 <= k < ws.len() ==> {
                    &&& (#[trigger] ws@[k]).0 <= ws@[k].1 <= v.len()
                    &&& v@.subrange(ws@[k].0 as int, ws@[k].1 as int) == ls[k]
                },
            forall|j: int| 0 <= j < k ==> !f(ls[j]),
        decreases ws.len() - k,
    {
        let (a, b) = ws[k];
        let hit = if prefix {
            starts_with_at(v, a, b, p)
        } else {
            contains_at(v, a, b, p)
        };
        assert(hit == f(ls[k as int]));
        if hit {
            proof {
                lemma_first_where(ls, f, k as int);
            }
            return Some(k);
        }
        k = k + 1;
    }
    None
}

// ---------------------------------------------------------------------------
// Profile, keyboard brightness, charge limit
// ---------------------------------------------------------------------------

/// The active profile named in the output of `asusctl profile get`: the text
/// after `Active profile:` on the first line that starts with it, trimmed.
pub open spec fn profile_of(out: Seq<char>) -> Option<Seq<char>> {
    let ls = lines(out);
    match first_where(ls, begins("Active profile:"@)) {
        Some(i) => Some(trim(ls[i].skip(15))),
        None => None,
    }
}

/// The brightness named in the output of `asusctl leds get`: the text after
/// the last `:` of the first line that mentions `brightness`, trimmed.
pub open spec fn brightness_of(out: Seq<char>) -> Option<Seq<char>> {
    let ls = lines(out);
    match first_where(ls, mentions("brightness"@)) {
        Some(i) => Some(trim(last_segment(ls[i], ':'))),
        None => None,
    }
}

/// The charge limit named in the output of `asusctl battery info`: the
/// number after the last `:` of the first line that mentions `charge limit`,
/// with a trailing `%` allowed.
pub open spec fn charge_limit_of(out: Seq<char>) -> Option<u32> {
    let ls = lines(out);
    match first_where(ls, mentions("charge limit"@)) {
        Some(i) => parse_u32(trim(trim_end_char(trim(last_segment(ls[i], ':')), '%'))),
        None => None,
    }
}

/// Parses the output of `asusctl profile get` into the active profile.
pub fn get_profile(output: &str) -> (r: Result<String, AppError>)
    ensures
        match profile_of(output@) {
            Some(p) => r matches Ok(s) && s@ == p,
            None => r matches Err(AppError::Parse(m)) && m@ == "Could not parse active profile"@,
        },
{
    proof {
        reveal_strlit("Active profile:");
    }
    let v = chars_of(output);
    let ws = line_windows(&v);
    let p = chars_of("Active profile:");
    let ghost ls = lines(v@);
    match first_line_at(&v, &ws, &p, true) {
        Some(k) => {
            let (a, b) = ws[k];
            assert(v@.subrange(a as int, b as int) == ls[k as int]);
            assert(p@.len() == 15);
            assert(b - a >= 15);
            let (x, y) = trim_window(&v, a + 15, b);
            proof {
                let l = v@.subrange(a as int, b as int);
                assert(l.skip(15) =~= v@.subrange(a + 15, b as int));
            }
            Ok(substring(output, x, y))
        },
        None => Err(AppError::Parse(owned("Could not parse active profile"))),
    }
}

/// Parses the output of `asusctl leds get` into the keyboard brightness.
pub fn get_keyboard_brightness(output: &str) -> (r: Result<String, AppError>)
    ensures
        match brightness_of(output@) {
            Some(p) => r matches Ok(s) && s@ == p,
            None => r matches Err(AppError::Parse(m)) && m@
                == "Could not parse keyboard brightness"@,
        },
{
    let v = chars_of(output);
    let ws = line_windows(&v);
    let p = chars_of("brightness");
    match first_line_at(&v, &ws, &p, false) {
        Some(k) => {
            let (a, b) = ws[k];
            let c = last_segment_start(&v, a, b, ':');
            let (x, y) = trim_window(&v, c, b);
            Ok(substring(output, x, y))
        },
        None => Err(AppError::Parse(owned("Could not parse keyboard brightness"))),
    }
}

/// Parses the output of `asusctl battery info` into the charge limit.
pub fn get_battery_info(output: &str) -> (r: Result<u32, AppError>)
    ensures
        match charge_limit_of(output@) {
            Some(n) => r == Ok::<u32, AppError>(n),
            None => r matches Err(AppError::Parse(m)) && m@
                == "Could not parse battery charge limit"@,
        },
{
    let v = chars_of(output);
    let ws = line_windows(&v);
    let p = chars_of("charge limit");
    match first_line_at(&v, &ws, &p, false) {
        Some(k) => {
            let (a, b) = ws[k];
            let c = last_segment_start(&v, a, b, ':');
            let (x, y) = trim_window(&v, c, b);
            let z = rskip_char(&v, x, y, '%');
            let (x2, y2) = trim_window(&v, x, z);
            match parse_u32_at(&v, x2, y2) {
                Some(n) => Ok(n),
                None => Err(AppError::Parse(owned("Could not parse battery charge limit"))),
            }
        },
        None => Err(AppError::Parse(owned("Could not parse battery charge limit"))),
    }
}

} // verus!

verus! {

// ---------------------------------------------------------------------------
// Fan curves
// ---------------------------------------------------------------------------

/// A fan curve: eight (temperature, PWM duty) points of one fan.
#[derive(Debug, Clone)]
pub struct FanCurve {
    pub fan: String,
    /// PWM duty of each point, 0 to 255.
    pub pwm: [u32; 8],
    /// Temperature of each point, in degrees Celsius.
    pub temp: [u32; 8],
    pub enabled: bool,
}

/// The plain value of a [`FanCurve`].
pub struct FanCurveView {
    pub fan: Seq<char>,
    pub pwm: Seq<u32>,
    pub temp: Seq<u32>,
    pub enabled: bool,
}

impl View for FanCurve {
    type V = FanCurveView;

    open spec fn view(&self) -> FanCurveView {
        FanCurveView { fan: self.fan@, pwm: self.pwm@, temp: self.temp@, enabled: self.enabled }
    }
}

/// The views of a sequence of fan curves.
pub open spec fn curve_views(cs: Seq<FanCurve>) -> Seq<FanCurveView> {
    cs.map_values(|c: FanCurve| c@)
}

/// A PWM duty (0 to 255) as a percentage, rounded to the nearest whole
/// number (`(pwm / 255 * 100).round()`; no duty lies half-way).
pub open spec fn percent_of(pwm: u32) -> nat {
    ((pwm as nat) * 100 + 127) / 255
}

/// One point of a curve in the data format of `asusctl`: `<temp>c:<percent>%`.
pub open spec fn point_text(c: FanCurveView, i: int) -> Seq<char> {
    dec(c.temp[i] as nat) + "c:"@ + dec(percent_of(c.pwm[i])) + "%"@
}

/// A curve in the data format of `asusctl`: its eight points joined by `,`.
pub open spec fn data_string(c: FanCurveView) -> Seq<char> {
    join(Seq::new(8, |i: int| point_text(c, i)), ","@)
}

impl FanCurve {
    /// PWM duty of point `idx` as a percentage.
    pub fn pwm_percent(&self, idx: usize) -> (r: u32)
        requires
            idx < 8,
        ensures
            r == percent_of(self.pwm@[idx as int]),
            r * 255 <= self.pwm@[idx as int] * 100 + 127 < (r + 1) * 255,
    {
        let p = self.pwm[idx] as u64;
        let r = (p * 100 + 127) / 255;
        assert(r * 255 <= p * 100 + 127 < (r + 1) * 255) by (nonlinear_arith)
            requires
                r == (p * 100 + 127) / 255,
        ;
        r as u32
    }

    /// The curve in the data format of `asusctl`: `30c:1%,49c:2%,...`.
    pub fn to_data_string(&self) -> (r: String)
        ensures
            r@ == data_string(self@),
    {
        let mut parts: Vec<String> = Vec::new();
        let mut i: usize = 0;
        while i < 8
            invariant
                i <= 8,
                parts@.len() == i,
                forall|j: int| 0 <= j < i ==> (#[trigger] parts@[j])@ == point_text(self@, j),
            decreases 8 - i,
        {
            let mut s = decimal(self.temp[i] as u64);
            s.append("c:");
            let pc = decimal(self.pwm_percent(i) as u64);
            s.append(pc.as_str());
            s.append("%");
            parts.push(s);
            i = i + 1;
        }
        assert(views(parts@) =~= Seq::new(8, |i: int| point_text(self@, i)));
        join_strings(&parts, ",")
    }
}

/// The body of a tuple such as `(1, 2, 3),`: trimmed, trailing commas
/// removed, then the parentheses.
pub open spec fn tuple_body(s: Seq<char>) -> Seq<char> {
    trim_end_char(trim_start_char(trim_end_char(trim(s), ','), '('), ')')
}

/// Piece `i` is the first of `ps` that is not a number.
pub open spec fn first_bad_piece(ps: Seq<Seq<char>>, i: int) -> bool {
    &&& 0 <= i < ps.len()
    &&& parse_u32(trim(ps[i])) is None
    &&& forall|j: int| 0 <= j < i ==> (#[trigger] parse_u32(trim(ps[j]))) is Some
}

/// A tuple line read as eight values: the pieces between commas, trimmed,
/// each a number. Otherwise the message of the error: for the first piece
/// that is not a number, `tuple value: ` and the number parser's message;
/// when all are numbers but not eight, how many there are.
pub open spec fn tuple_parse(s: Seq<char>) -> Result<Seq<u32>, Seq<char>> {
    let ps = split(tuple_body(s), ',');
    if exists|i: int| first_bad_piece(ps, i) {
        let i = choose|i: int| first_bad_piece(ps, i);
        Err("tuple value: "@ + int_error_text(trim(ps[i])))
    } else if ps.len() != 8 {
        Err("Expected 8 values, got "@ + dec(ps.len()))
    } else {
        Ok(Seq::new(8, |i: int| parse_u32(trim(ps[i])).unwrap()))
    }
}

/// Parses the window, a line of `text`, as a tuple of eight values.
fn parse_tuple_values(text: &str, v: &Vec<char>, lo: usize, hi: usize) -> (r: Result<[u32; 8], AppError>)
    requires
        v@ == text@,
        lo <= hi <= v.len(),
    ensures
        match tuple_parse(v@.subrange(lo as int, hi as int)) {
            Ok(t) => r matches Ok(a) && a@ == t,
            Err(m) => r matches Err(AppError::Parse(e)) && e@ == m,
        },
{
    let ghost s = v@.subrange(lo as int, hi as int);
    let (a, b) = trim_window(v, lo, hi);
    let b1 = rskip_char(v, a, b, ',');
    let a2 = skip_char(v, a, b1, '(');
    let b2 = rskip_char(v, a2, b1, ')');
    assert(v@.subrange(a2 as int, b2 as int) == tuple_body(s));
    let ws = split_windows(v, a2, b2, ',');
    let ghost ps = split(tuple_body(s), ',');
    let mut vals: Vec<u32> = Vec::new();
    let mut k: usize = 0;
    while k < ws.len()
        invariant
            k <= ws.len(),
            ws.len() == ps.len(),
            v@ == text@,
            s == v@.subrange(lo as int, hi as int),
            ps == split(tuple_body(s), ','),
            lo <= hi <= v.len(),
            a2 <= b2 <= v.len(),
            forall|j: int|
                0 <= j < ws.len() ==> {
                    &&& a2 <= (#[trigger] ws@[j]).0 <= ws@[j].1 <= b2
                    &&& v@.subrange(ws@[j].0 as int, ws@[j].1 as int) == ps[j]
                },
            vals@.len() == k,
            forall|j: int|
                0 <= j < k ==> #[trigger] parse_u32(trim(ps[j])) == Some(vals@[j]),
        decreases ws.len() - k,
    {
        let (x, y) = ws[k];
        let (x2, y2) = trim_window(v, x, y);
        assert(v@.subrange(x2 as int, y2 as int) == trim(ps[k as int]));
        let piece = substring(text, x2, y2);
        match parse_u32_std(piece.as_str()) {
            Ok(n) => {
                vals.push(n);
            },
            Err(e) => {
                proof {
                    assert(first_bad_piece(ps, k as int));
                    let c = choose|i: int| first_bad_piece(ps, i);
                    if c < k {
                        assert(parse_u32(trim(ps[c])) == Some(vals@[c]));
                    } else if c > k {
                        assert(parse_u32(trim(ps[k as int])) is Some);
                    }
                }
                let mut m = owned("tuple value: ");
                m.append(e.as_str());
                return Err(AppError::Parse(m));
            },
        }
        k = k + 1;
    }
    assert(!exists|i: int| first_bad_piece(ps, i)) by {
        assert forall|i: int| !first_bad_piece(ps, i) by {
            if 0 <= i < ps.len() {
                assert(parse_u32(trim(ps[i])) == Some(vals@[i]));
            }
        }
    }
    if vals.len() != 8 {
        let mut m = owned("Expected 8 values, got ");
        let n = decimal(vals.len() as u64);
        m.append(n.as_str());
        return Err(AppError::Parse(m));
    }
    let arr: [u32; 8] = [vals[0], vals[1], vals[2], vals[3], vals[4], vals[5], vals[6], vals[7]];
    assert(arr@ =~= Seq::new(8, |i: int| parse_u32(trim(ps[i])).unwrap()));
    Ok(arr)
}

/// State while reading the output of `asusctl fan-curve`.
pub struct FanParse {
    pub curves: Seq<FanCurveView>,
    pub fan: Seq<char>,
    pub pwm: Seq<u32>,
    pub temp: Seq<u32>,
}

pub open spec fn zeros8() -> Seq<u32> {
    seq![0u32, 0u32, 0u32, 0u32, 0u32, 0u32, 0u32, 0u32]
}

pub open spec fn fan_parse_start() -> FanParse {
    FanParse { curves: Seq::empty(), fan: Seq::empty(), pwm: zeros8(), temp: zeros8() }
}

/// One line of the output of `asusctl fan-curve`, trimmed: `fan:` names the
/// fan, `pwm:` and `temp:` give the eight points, and `enabled:` completes a
/// curve with the values seen so far. Other lines are skipped; a bad tuple
/// fails the whole parse with its message.
pub open spec fn fan_parse_step(st: FanParse, line: Seq<char>) -> Result<FanParse, Seq<char>> {
    let l = trim(line);
    if starts_with(l, "fan:"@) {
        Ok(FanParse { fan: trim_end_char(trim(l.skip(4)), ','), ..st })
    } else if starts_with(l, "pwm:"@) {
        match tuple_parse(l.skip(4)) {
            Ok(p) => Ok(FanParse { pwm: p, ..st }),
            Err(m) => Err(m),
        }
    } else if starts_with(l, "temp:"@) {
        match tuple_parse(l.skip(5)) {
            Ok(t) => Ok(FanParse { temp: t, ..st }),
            Err(m) => Err(m),
        }
    } else if starts_with(l, "enabled:"@) {
        let val = trim_end_char(trim(l.skip(8)), ',');
        Ok(
            FanParse {
                curves: st.curves.push(
                    FanCurveView { fan: st.fan, pwm: st.pwm, temp: st.temp, enabled: val == "true"@ },
                ),
                ..st
            },
        )
    } else {
        Ok(st)
    }
}

pub open spec fn fan_parse_lines(ls: Seq<Seq<char>>) -> Result<FanParse, Seq<char>>
    decreases ls.len(),
{
    if ls.len() == 0 {
        Ok(fan_parse_start())
    } else {
        match fan_parse_lines(ls.drop_last()) {
            Ok(st) => fan_parse_step(st, ls.last()),
            Err(m) => Err(m),
        }
    }
}

/// The fan curves in the output of `asusctl fan-curve`, in order, or the
/// message of the first `pwm:` or `temp:` line that does not hold eight
/// numbers.
pub open spec fn fan_curves_of(out: Seq<char>) -> Result<Seq<FanCurveView>, Seq<char>> {
    match fan_parse_lines(lines(out)) {
        Ok(st) => Ok(st.curves),
        Err(m) => Err(m),
    }
}

/// Parses the output of `asusctl fan-curve --mod-profile <profile>`.
pub fn parse_fan_curves(output: &str) -> (r: Result<Vec<FanCurve>, AppError>)
    ensures
        match fan_curves_of(output@) {
            Ok(cs) => r matches Ok(v) && curve_views(v@) == cs,
            Err(m) => r matches Err(AppError::Parse(e)) && e@ == m,
        },
{
    proof {
        reveal_strlit("fan:");
        reveal_strlit("pwm:");
        reveal_strlit("temp:");
        reveal_strlit("enabled:");
        reveal_strlit("true");
    }
    let v = chars_of(output);
    let ws = line_windows(&v);
    let ghost ls = lines(v@);
    let p_fan = chars_of("fan:");
    let p_pwm = chars_of("pwm:");
    let p_temp = chars_of("temp:");
    let p_enabled = chars_of("enabled:");
    let t_true = chars_of("true");
    let mut curves: Vec<FanCurve> = Vec::new();
    let mut current_fan = String::new();
    let mut pwm: [u32; 8] = [0, 0, 0, 0, 0, 0, 0, 0];
    let mut temp: [u32; 8] = [0, 0, 0, 0, 0, 0, 0, 0];
    assert(pwm@ =~= zeros8());
    assert(temp@ =~= zeros8());
    assert(ls.take(0) =~= Seq::<Seq<char>>::empty());
    assert(curve_views(curves@) =~= Seq::<FanCurveView>::empty());
    let mut k: usize = 0;
    while k < ws.len()
        invariant
            k <= ws.len(),
            v@ == output@,
            ws.len() == ls.len(),
            ls == lines(v@),
            p_fan@ == "fan:"@,
            p_pwm@ == "pwm:"@,
            p_temp@ == "temp:"@,
            p_enabled@ == "enabled:"@,
            t_true@ == "true"@,
            p_fan@.len() == 4,
            p_pwm@.len() == 4,
            p_temp@.len() == 5,
            p_enabled@.len() == 8,
            t_true@.len() == 4,
            forall|j: int|
                0 <= j < ws.len() ==> {
                    &&& (#[trigger] ws@[j]).0 <= ws@[j].1 <= v.len()
                    &&& v@.subrange(ws@[j].0 as int, ws@[j].1 as int) == ls[j]
                },
            fan_parse_lines(ls.take(k as int)) == Ok::<FanParse, Seq<char>>(
                FanParse {
                    curves: curve_views(curves@),
                    fan: current_fan@,
                    pwm: pwm@,
                    temp: temp@,
                },
            ),
        decreases ws.len() - k,
    {
        proof {
            assert(ls.take(k + 1).drop_last() =~= ls.take(k as int));
            assert(ls.take(k + 1).last() == ls[k as int]);
        }
        let ghost st = FanParse {
            curves: curve_views(curves@),
            fan: current_fan@,
            pwm: pwm@,
            temp: temp@,
        };
        let (a0, b0) = ws[k];
        let (a, b) = trim_window(&v, a0, b0);
        let ghost l = v@.subrange(a as int, b as int);
        assert(l == trim(ls[k as int]));
        if starts_with_at(&v, a, b, &p_fan) {
            let (x, y) = trim_window(&v, a + 4, b);
            let y2 = rskip_char(&v, x, y, ',');
            assert(l.skip(4) =~= v@.subrange(a + 4, b as int));
            current_fan = substring(output, x, y2);
            assert(fan_parse_step(st, ls[k as int]) == Ok::<FanParse, Seq<char>>(FanParse { fan: current_fan@, ..st }));
        } else if starts_with_at(&v, a, b, &p_pwm) {
            assert(l.skip(4) =~= v@.subrange(a + 4, b as int));
            match parse_tuple_values(output, &v, a + 4, b) {
                Ok(t) => {
                    pwm = t;
                    assert(fan_parse_step(st, ls[k as int]) == Ok::<FanParse, Seq<char>>(FanParse { pwm: pwm@, ..st }));
                },
                Err(e) => {
                    proof {
                        let m = e->Parse_0@;
                        assert(fan_parse_lines(ls.take(k + 1)) == Err::<FanParse, Seq<char>>(m));
                        lemma_fan_parse_stays_failed(ls, (k + 1) as nat, m);
                    }
                    return Err(e);
                },
            }
        } else if starts_with_at(&v, a, b, &p_temp) {
            assert(l.skip(5) =~= v@.subrange(a + 5, b as int));
            match parse_tuple_values(output, &v, a + 5, b) {
                Ok(t) => {
                    temp = t;
                    assert(fan_parse_step(st, ls[k as int]) == Ok::<FanParse, Seq<char>>(FanParse { temp: temp@, ..st }));
                },
                Err(e) => {
                    proof {
                        let m = e->Parse_0@;
                        assert(fan_parse_lines(ls.take(k + 1)) == Err::<FanParse, Seq<char>>(m));
                        lemma_fan_parse_stays_failed(ls, (k + 1) as nat, m);
                    }
                    return Err(e);
                },
            }
        } else if starts_with_at(&v, a, b, &p_enabled) {
            let (x, y) = trim_window(&v, a + 8, b);
            let y2 = rskip_char(&v, x, y, ',');
            assert(l.skip(8) =~= v@.subrange(a + 8, b as int));
            let is_true = starts_with_at(&v, x, y2, &t_true) && y2 - x == 4;
            proof {
                let val = v@.subrange(x as int, y2 as int);
                assert(val == trim_end_char(trim(l.skip(8)), ','));
                if y2 - x == 4 {
                    assert(val.subrange(0, 4) =~= val);
                }
                assert(is_true == (val == "true"@));
            }
            let c = FanCurve { fan: current_fan.clone(), pwm, temp, enabled: is_true };
            curves.push(c);
            proof {
                assert(curve_views(curves@) =~= st.curves.push(c@));
            }
            assert(fan_parse_step(st, ls[k as int]) == Ok::<FanParse, Seq<char>>(FanParse { curves: curve_views(curves@), ..st }));
        } else {
            assert(fan_parse_step(st, ls[k as int]) == Ok::<FanParse, Seq<char>>(st));
        }
        k = k + 1;
    }
    assert(ls.take(ws.len() as int) =~= ls);
    Ok(curves)
}

proof fn lemma_fan_parse_stays_failed(ls: Seq<Seq<char>>, k: nat, m: Seq<char>)
    requires
        k <= ls.len(),
        fan_parse_lines(ls.take(k as int)) == Err::<FanParse, Seq<char>>(m),
    ensures
        fan_parse_lines(ls) == Err::<FanParse, Seq<char>>(m),
    decreases ls.len() - k,
{
    if k < ls.len() {
        assert(ls.take((k + 1) as int).drop_last() =~= ls.take(k as int));
        lemma_fan_parse_stays_failed(ls, k + 1, m);
    } else {
        assert(ls.take(k as int) =~= ls);
    }
}

} // verus!

verus! {

// ---------------------------------------------------------------------------
// Armoury attributes
// ---------------------------------------------------------------------------

/// Firmware attributes read with `asusctl armoury list`.
#[derive(Debug, Clone, Copy, PartialEq, Eq, Structural)]
pub struct ArmouryAttrs {
    pub boot_sound: bool,
    pub panel_overdrive: bool,
    pub ppt_apu: u32,
    pub ppt_platform: u32,
}

impl Default for ArmouryAttrs {
    fn default() -> (r: Self)
        ensures
            r == (ArmouryAttrs { boot_sound: false, panel_overdrive: false, ppt_apu: 0, ppt_platform: 0 }),
    {
        ArmouryAttrs { boot_sound: false, panel_overdrive: false, ppt_apu: 0, ppt_platform: 0 }
    }
}

/// Reading the bracketed value of `s` is defined: when both `[` and `]`
/// occur, the first `]` comes after the first `[`.
pub open spec fn bracket_ok(s: Seq<char>) -> bool {
    match (index_of(s, '['), index_of(s, ']')) {
        (Some(a), Some(b)) => a < b,
        _ => true,
    }
}

/// The number between the first `[` and the first `]` of `s`, as in
/// `15..[15]..80`.
pub open spec fn bracket_value(s: Seq<char>) -> Option<u32> {
    match index_of(s, '[') {
        None => None,
        Some(a) => match index_of(s, ']') {
            None => None,
            Some(b) => parse_u32(s.subrange(a + 1, b)),
        },
    }
}

/// Reads the bracketed value of the window.
fn extract_bracket_value(v: &Vec<char>, lo: usize, hi: usize) -> (r: Option<u32>)
    requires
        lo <= hi <= v.len(),
        bracket_ok(v@.subrange(lo as int, hi as int)),
    ensures
        r == bracket_value(v@.subrange(lo as int, hi as int)),
{
    let ghost s = v@.subrange(lo as int, hi as int);
    let start = match find_char_at(v, lo, hi, '[') {
        Some(i) => i,
        None => {
            return None;
        },
    };
    let end = match find_char_at(v, lo, hi, ']') {
        Some(i) => i,
        None => {
            return None;
        },
    };
    assert(s.subrange(start - lo + 1, end - lo) =~= v@.subrange(start + 1, end as int));
    parse_u32_at(v, start + 1, end)
}

/// State while reading the output of `asusctl armoury list`.
pub struct ArmouryParse {
    pub attrs: ArmouryAttrs,
    pub current: Seq<char>,
}

/// One line of the output of `asusctl armoury list`, trimmed: a line ending
/// in `:` (other than a `current:` line) names the attribute that the next
/// `current:` lines describe. `None` where the value cannot be read.
pub open spec fn armoury_step(st: ArmouryParse, line: Seq<char>) -> Option<ArmouryParse> {
    let t = trim(line);
    if t.len() > 0 && !starts_with(t, "current:"@) && t.last() == ':' {
        Some(ArmouryParse { attrs: st.attrs, current: trim_end_char(t, ':') })
    } else if starts_with(t, "current:"@) {
        let val = trim(t.skip(8));
        if st.current == "boot_sound"@ {
            Some(
                ArmouryParse {
                    attrs: ArmouryAttrs { boot_sound: contains(val, "(1)"@), ..st.attrs },
                    ..st
                },
            )
        } else if st.current == "panel_overdrive"@ {
            Some(
                ArmouryParse {
                    attrs: ArmouryAttrs { panel_overdrive: contains(val, "(1)"@), ..st.attrs },
                    ..st
                },
            )
        } else if st.current == "ppt_apu_sppt"@ {
            if !bracket_ok(val) {
                None
            } else {
                match bracket_value(val) {
                    Some(n) => Some(
                        ArmouryParse { attrs: ArmouryAttrs { ppt_apu: n, ..st.attrs }, ..st },
                    ),
                    None => Some(st),
                }
            }
        } else if st.current == "ppt_platform_sppt"@ {
            if !bracket_ok(val) {
                None
            } else {
                match bracket_value(val) {
                    Some(n) => Some(
                        ArmouryParse { attrs: ArmouryAttrs { ppt_platform: n, ..st.attrs }, ..st },
                    ),
                    None => Some(st),
                }
            }
        } else {
            Some(st)
        }
    } else {
        Some(st)
    }
}

pub open spec fn armoury_start() -> ArmouryParse {
    ArmouryParse {
        attrs: ArmouryAttrs { boot_sound: false, panel_overdrive: false, ppt_apu: 0, ppt_platform: 0 },
        current: Seq::empty(),
    }
}

pub open spec fn armoury_lines(ls: Seq<Seq<char>>) -> Option<ArmouryParse>
    decreases ls.len(),
{
    if ls.len() == 0 {
        Some(armoury_start())
    } else {
        match armoury_lines(ls.drop_last()) {
            Some(st) => armoury_step(st, ls.last()),
            None => None,
        }
    }
}

/// The attributes in the output of `asusctl armoury list`, or `None` when a
/// power-limit value has `]` before `[` (reading it is not defined).
pub open spec fn armoury_of(out: Seq<char>) -> Option<ArmouryAttrs> {
    match armoury_lines(lines(out)) {
        Some(st) => Some(st.attrs),
        None => None,
    }
}

proof fn lemma_armoury_stays_failed(ls: Seq<Seq<char>>, k: nat)
    requires
        k <= ls.len(),
        armoury_lines(ls.take(k as int)) is None,
    ensures
        armoury_lines(ls) is None,
    decreases ls.len() - k,
{
    if k < ls.len() {
        assert(ls.take((k + 1) as int).drop_last() =~= ls.take(k as int));
        lemma_armoury_stays_failed(ls, k + 1);
    } else {
        assert(ls.take(k as int) =~= ls);
    }
}

fn armoury_scan(output: &str) -> (r: Option<ArmouryAttrs>)
    ensures
        r == armoury_of(output@),
{
    proof {
        reveal_strlit("current:");
        reveal_strlit("boot_sound");
        reveal_strlit("panel_overdrive");
        reveal_strlit("ppt_apu_sppt");
        reveal_strlit("ppt_platform_sppt");
        reveal_strlit("(1)");
    }
    let v = chars_of(output);
    let ws = line_windows(&v);
    let ghost ls = lines(v@);
    let p_current = chars_of("current:");
    let n_boot = chars_of("boot_sound");
    let n_od = chars_of("panel_overdrive");
    let n_apu = chars_of("ppt_apu_sppt");
    let n_plat = chars_of("ppt_platform_sppt");
    let sel = chars_of("(1)");
    let mut attrs = ArmouryAttrs::default();
    let mut ca: usize = 0;
    let mut cb: usize = 0;
    assert(v@.subrange(0, 0) =~= Seq::<char>::empty());
    assert(ls.take(0) =~= Seq::<Seq<char>>::empty());
    let mut k: usize = 0;
    while k < ws.len()
        invariant
            k <= ws.len(),
            v@ == output@,
            ws.len() == ls.len(),
            ls == lines(v@),
            p_current@ == "current:"@,
            p_current@.len() == 8,
            n_boot@ == "boot_sound"@,
            n_od@ == "panel_overdrive"@,
            n_apu@ == "ppt_apu_sppt"@,
            n_plat@ == "ppt_platform_sppt"@,
            sel@ == "(1)"@,
            ca <= cb <= v.len(),
            forall|j: int|
                0 <= j < ws.len() ==> {
                    &&& (#[trigger] ws@[j]).0 <= ws@[j].1 <= v.len()
                    &&& v@.subrange(ws@[j].0 as int, ws@[j].1 as int) == ls[j]
                },
            armoury_lines(ls.take(k as int)) == Some(
                ArmouryParse { attrs, current: v@.subrange(ca as int, cb as int) },
            ),
        decreases ws.len() - k,
    {
        proof {
            assert(ls.take(k + 1).drop_last() =~= ls.take(k as int));
            assert(ls.take(k + 1).last() == ls[k as int]);
        }
        let ghost st = ArmouryParse { attrs, current: v@.subrange(ca as int, cb as int) };
        let (a0, b0) = ws[k];
        let (a, b) = trim_window(&v, a0, b0);
        let ghost t = v@.subrange(a as int, b as int);
        assert(t == trim(ls[k as int]));
        let is_current = starts_with_at(&v, a, b, &p_current);
        if a < b && !is_current && v[b - 1] == ':' {
            let e = rskip_char(&v, a, b, ':');
            ca = a;
            cb = e;
            assert(armoury_step(st, ls[k as int]) == Some(
                ArmouryParse { attrs, current: v@.subrange(ca as int, cb as int) },
            ));
        } else if is_current {
            let (x, y) = trim_window(&v, a + 8, b);
            assert(t.skip(8) =~= v@.subrange(a + 8, b as int));
            if eq_at(&v, ca, cb, &n_boot) {
                attrs.boot_sound = contains_at(&v, x, y, &sel);
            } else if eq_at(&v, ca, cb, &n_od) {
                attrs.panel_overdrive = contains_at(&v, x, y, &sel);
            } else if eq_at(&v, ca, cb, &n_apu) || eq_at(&v, ca, cb, &n_plat) {
                let apu = eq_at(&v, ca, cb, &n_apu);
                let ok = match (find_char_at(&v, x, y, '['), find_char_at(&v, x, y, ']')) {
                    (Some(i), Some(j)) => i < j,
                    _ => true,
                };
                if !ok {
                    proof {
                        assert(armoury_lines(ls.take(k + 1)) is None);
                        lemma_armoury_stays_failed(ls, (k + 1) as nat);
                    }
                    return None;
                }
                match extract_bracket_value(&v, x, y) {
                    Some(n) => {
                        if apu {
                            attrs.ppt_apu = n;
                        } else {
                            attrs.ppt_platform = n;
                        }
                    },
                    None => {},
                }
            }
            assert(armoury_step(st, ls[k as int]) == Some(
                ArmouryParse { attrs, current: v@.subrange(ca as int, cb as int) },
            ));
        } else {
            assert(armoury_step(st, ls[k as int]) == Some(st));
        }
        k = k + 1;
    }
    assert(ls.take(ws.len() as int) =~= ls);
    Some(attrs)
}

/// Whether the output of `asusctl armoury list` can be read: no power-limit
/// value with `]` before `[`.
pub fn armoury_output_ok(output: &str) -> (r: bool)
    ensures
        r == armoury_of(output@) is Some,
{
    armoury_scan(output).is_some()
}

/// Parses the output of `asusctl armoury list`: `boot_sound` and
/// `panel_overdrive` are on when their `current:` value marks `(1)`; the
/// power limits are the bracketed values of theirs. Attributes not listed
/// keep their defaults.
pub fn parse_armoury(output: &str) -> (r: Result<ArmouryAttrs, AppError>)
    requires
        armoury_of(output@) is Some,
    ensures
        r == Ok::<ArmouryAttrs, AppError>(armoury_of(output@).unwrap()),
{
    match armoury_scan(output) {
        Some(a) => Ok(a),
        None => Ok(ArmouryAttrs::default()),
    }
}

} // verus!

verus! {

// ---------------------------------------------------------------------------
// Commands
// ---------------------------------------------------------------------------

/// An `asusctl` invocation with `args`; its exit status is checked.
pub open spec fn asusctl(args: Seq<Seq<char>>, notify_waybar: bool) -> CommandView {
    CommandView { program: "asusctl"@, args, check_status: true, notify_waybar }
}

fn asusctl_command(args: Vec<String>, notify_waybar: bool) -> (c: Command)
    ensures
        c@ == asusctl(views(args@), notify_waybar),
{
    command("asusctl", args, true, notify_waybar)
}

/// `asusctl profile get`.
pub fn profile_get_command() -> (c: Command)
    ensures
        c@ == asusctl(seq!["profile"@, "get"@], false),
{
    let args = vec![owned("profile"), owned("get")];
    assert(views(args@) =~= seq!["profile"@, "get"@]);
    asusctl_command(args, false)
}

/// Sets the power profile; the status bar is signalled afterwards.
pub fn set_profile(profile: &str) -> (c: Command)
    ensures
        c@ == asusctl(seq!["profile"@, "set"@, profile@], true),
{
    let args = vec![owned("profile"), owned("set"), owned(profile)];
    assert(views(args@) =~= seq!["profile"@, "set"@, profile@]);
    asusctl_command(args, true)
}

/// Reads the fan curves of a profile (`asusctl fan-curve --mod-profile <profile>`).
pub fn get_fan_curves(profile: &str) -> (c: Command)
    ensures
        c@ == asusctl(seq!["fan-curve"@, "--mod-profile"@, profile@], false),
{
    let args = vec![owned("fan-curve"), owned("--mod-profile"), owned(profile)];
    assert(views(args@) =~= seq!["fan-curve"@, "--mod-profile"@, profile@]);
    asusctl_command(args, false)
}

/// The fan curves of `profile`, from a run of the command of
/// [`get_fan_curves`]: a run that could not start or failed is a command
/// error and nothing is parsed; otherwise the curves of its output.
pub fn fan_curves_result(profile: &str, out: ProcessOutput) -> (r: Result<Vec<FanCurve>, AppError>)
    ensures
        match run_result(asusctl(seq!["fan-curve"@, "--mod-profile"@, profile@], false), out) {
            Ok(s) => match fan_curves_of(s) {
                Ok(cs) => r matches Ok(v) && curve_views(v@) == cs,
                Err(m) => r matches Err(AppError::Parse(e)) && e@ == m,
            },
            Err((cmd, msg)) => r matches Err(AppError::Command { cmd: c, msg: m }) && c@ == cmd
                && m@ == msg,
        },
{
    let c = get_fan_curves(profile);
    match c.finish(out) {
        Ok(o) => parse_fan_curves(o.as_str()),
        Err(e) => Err(e),
    }
}

/// Writes the curve of one fan of a profile.
pub fn set_fan_curve(profile: &str, fan: &str, data: &str) -> (c: Command)
    ensures
        c@ == asusctl(
            seq!["fan-curve"@, "--mod-profile"@, profile@, "--fan"@, fan@, "--data"@, data@],
            false,
        ),
{
    let args = vec![
        owned("fan-curve"),
        owned("--mod-profile"),
        owned(profile),
        owned("--fan"),
        owned(fan),
        owned("--data"),
        owned(data),
    ];
    assert(views(args@) =~= seq![
        "fan-curve"@,
        "--mod-profile"@,
        profile@,
        "--fan"@,
        fan@,
        "--data"@,
        data@,
    ]);
    asusctl_command(args, false)
}

/// Restores the default fan curves.
pub fn reset_fan_curve() -> (c: Command)
    ensures
        c@ == asusctl(seq!["fan-curve"@, "--default"@], false),
{
    let args = vec![owned("fan-curve"), owned("--default")];
    assert(views(args@) =~= seq!["fan-curve"@, "--default"@]);
    asusctl_command(args, false)
}

/// `asusctl leds get`.
pub fn leds_get_command() -> (c: Command)
    ensures
        c@ == asusctl(seq!["leds"@, "get"@], false),
{
    let args = vec![owned("leds"), owned("get")];
    assert(views(args@) =~= seq!["leds"@, "get"@]);
    asusctl_command(args, false)
}

/// Steps the keyboard brightness to its next level.
pub fn next_keyboard_brightness() -> (c: Command)
    ensures
        c@ == asusctl(seq!["leds"@, "next"@], false),
{
    let args = vec![owned("leds"), owned("next")];
    assert(views(args@) =~= seq!["leds"@, "next"@]);
    asusctl_command(args, false)
}

/// `asusctl battery info`.
pub fn battery_info_command() -> (c: Command)
    ensures
        c@ == asusctl(seq!["battery"@, "info"@], false),
{
    let args = vec![owned("battery"), owned("info")];
    assert(views(args@) =~= seq!["battery"@, "info"@]);
    asusctl_command(args, false)
}

/// Sets the battery charge limit; the status bar is signalled afterwards.
pub fn set_battery_limit(limit: u32) -> (c: Command)
    ensures
        c@ == asusctl(seq!["battery"@, "limit"@, dec(limit as nat)], true),
{
    let args = vec![owned("battery"), owned("limit"), decimal(limit as u64)];
    assert(views(args@) =~= seq!["battery"@, "limit"@, dec(limit as nat)]);
    asusctl_command(args, true)
}

/// Charges the battery fully once.
pub fn battery_oneshot() -> (c: Command)
    ensures
        c@ == asusctl(seq!["battery"@, "oneshot"@], false),
{
    let args = vec![owned("battery"), owned("oneshot")];
    assert(views(args@) =~= seq!["battery"@, "oneshot"@]);
    asusctl_command(args, false)
}

/// Lists the firmware attributes (`asusctl armoury list`).
pub fn get_armoury_attrs() -> (c: Command)
    ensures
        c@ == asusctl(seq!["armoury"@, "list"@], false),
{
    let args = vec![owned("armoury"), owned("list")];
    assert(views(args@) =~= seq!["armoury"@, "list"@]);
    asusctl_command(args, false)
}

/// The firmware attributes, from a run of the command of
/// [`get_armoury_attrs`]: a run that could not start or failed is a command
/// error; otherwise the attributes in its output.
pub fn armoury_attrs_result(out: ProcessOutput) -> (r: Result<ArmouryAttrs, AppError>)
    requires
        run_result(asusctl(seq!["armoury"@, "list"@], false), out) matches Ok(s) ==> armoury_of(
            s,
        ) is Some,
    ensures
        match run_result(asusctl(seq!["armoury"@, "list"@], false), out) {
            Ok(s) => r == Ok::<ArmouryAttrs, AppError>(armoury_of(s).unwrap()),
            Err((cmd, msg)) => r matches Err(AppError::Command { cmd: c, msg: m }) && c@ == cmd
                && m@ == msg,
        },
{
    let c = get_armoury_attrs();
    match c.finish(out) {
        Ok(o) => parse_armoury(o.as_str()),
        Err(e) => Err(e),
    }
}

/// Sets a firmware attribute.
pub fn set_armoury(attr: &str, value: &str) -> (c: Command)
    ensures
        c@ == asusctl(seq!["armoury"@, "set"@, attr@, value@], false),
{
    let args = vec![owned("armoury"), owned("set"), owned(attr), owned(value)];
    assert(views(args@) =~= seq!["armoury"@, "set"@, attr@, value@]);
    asusctl_command(args, false)
}

/// Sets a keyboard lighting effect.
pub fn set_aura_effect(effect: &str) -> (c: Command)
    ensures
        c@ == asusctl(seq!["aura"@, "effect"@, effect@], false),
{
    let args = vec![owned("aura"), owned("effect"), owned(effect)];
    assert(views(args@) =~= seq!["aura"@, "effect"@, effect@]);
    asusctl_command(args, false)
}

/// The hex digits of a colour: every leading `#` removed.
pub open spec fn color_digits(color: Seq<char>) -> Seq<char> {
    trim_start_char(color, '#')
}

/// A colour can be split into three two-byte channels: the digits are at
/// least six bytes long with character boundaries after bytes 2, 4 and 6.
pub open spec fn color_splittable(color: Seq<char>) -> bool {
    let d = color_digits(color);
    has_boundary(d, 2) && has_boundary(d, 4) && has_boundary(d, 6)
}

/// A channel of the colour: bytes `[lo, hi)` of the digits read as
/// hexadecimal, 255 when they are not a number.
pub open spec fn channel(color: Seq<char>, lo: nat, hi: nat) -> nat {
    let d = color_digits(color);
    match parse_hex_u8(d.subrange(boundary(d, lo), boundary(d, hi))) {
        Some(n) => n as nat,
        None => 255,
    }
}

/// `r,g,b` of the colour, in decimal.
pub open spec fn rgb_text(color: Seq<char>) -> Seq<char> {
    dec(channel(color, 0, 2)) + ","@ + dec(channel(color, 2, 4)) + ","@ + dec(channel(color, 4, 6))
}

/// Sets a lighting effect with a colour given as `#rrggbb` or `rrggbb`; a
/// channel that is not hexadecimal counts as 255.
pub fn set_aura_effect_with_color(effect: &str, color: &str) -> (c: Command)
    requires
        color_splittable(color@),
    ensures
        c@ == asusctl(seq!["aura"@, "effect"@, effect@, "-c1"@, rgb_text(color@)], false),
{
    let rgb = color_rgb(color);
    let args = vec![owned("aura"), owned("effect"), owned(effect), owned("-c1"), rgb];
    assert(views(args@) =~= seq!["aura"@, "effect"@, effect@, "-c1"@, rgb_text(color@)]);
    asusctl_command(args, false)
}

/// The channels of a colour as `r,g,b`.
fn color_rgb(color: &str) -> (rgb: String)
    requires
        color_splittable(color@),
    ensures
        rgb@ == rgb_text(color@),
{
    let v = chars_of(color);
    let a = skip_char(&v, 0, v.len(), '#');
    let ghost d = v@.subrange(a as int, v.len() as int);
    assert(v@.subrange(0, v.len() as int) =~= v@);
    assert(d == color_digits(color@));
    let p2 = byte_offset(&v, a, 2);
    let p4 = byte_offset(&v, a, 4);
    let p6 = byte_offset(&v, a, 6);
    proof {
        lemma_boundary_unique(d, 2, p2 as int);
        lemma_boundary_unique(d, 4, p4 as int);
        lemma_boundary_unique(d, 6, p6 as int);
        assert(d.take(0) =~= Seq::<char>::empty());
        lemma_boundary_unique(d, 0, 0);
        if p2 > p4 {
            lemma_utf8_len_strict(d, p4 as int, p2 as int);
        }
        if p4 > p6 {
            lemma_utf8_len_strict(d, p6 as int, p4 as int);
        }
    }
    let r = match parse_hex_u8_at(&v, a, a + p2) {
        Some(n) => n,
        None => 255,
    };
    let g = match parse_hex_u8_at(&v, a + p2, a + p4) {
        Some(n) => n,
        None => 255,
    };
    let b = match parse_hex_u8_at(&v, a + p4, a + p6) {
        Some(n) => n,
        None => 255,
    };
    assert(d.subrange(0, p2 as int) =~= v@.subrange(a as int, a + p2));
    assert(d.subrange(p2 as int, p4 as int) =~= v@.subrange(a + p2, a + p4));
    assert(d.subrange(p4 as int, p6 as int) =~= v@.subrange(a + p4, a + p6));
    let mut rgb = decimal(r as u64);
    rgb.append(",");
    let gs = decimal(g as u64);
    rgb.append(gs.as_str());
    rgb.append(",");
    let bs = decimal(b as u64);
    rgb.append(bs.as_str());
    assert(r as nat == channel(color@, 0, 2));
    assert(g as nat == channel(color@, 2, 4));
    assert(b as nat == channel(color@, 4, 6));
    rgb
}

/// Whether a colour can be split into three two-byte channels.
pub fn color_is_splittable(color: &str) -> (b: bool)
    ensures
        b == color_splittable(color@),
{
    let v = chars_of(color);
    let a = skip_char(&v, 0, v.len(), '#');
    assert(v@.subrange(0, v.len() as int) =~= v@);
    let d = crate::text::window_vec(&v, a, v.len());
    crate::text::has_boundary_at(&d, 2) && crate::text::has_boundary_at(&d, 4)
        && crate::text::has_boundary_at(&d, 6)
}

} // verus!
