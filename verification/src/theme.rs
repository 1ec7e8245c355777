//! Colour palette: the built-in one, and one read from the `colors.toml`
//! file of the active desktop theme.
use vstd::prelude::*;

use crate::text::{
    boundary, byte_offset, chars_of, eq_at, find_char_at, has_boundary, index_of,
    lemma_boundary_unique, lemma_utf8_len_push, lemma_utf8_len_strict, line_windows, lines,
    lowercase, parse_hex_u8, parse_hex_u8_at, rskip_char, skip_char, starts_with, to_lowercase,
    trim, trim_end_char, trim_start_char, trim_window, utf8_len, char_width_of, window_vec,
    has_boundary_at,
};

verus! {

/// A colour as red, green and blue.
#[derive(Debug, Clone, Copy, PartialEq, Eq, Structural)]
pub struct Rgb {
    pub r: u8,
    pub g: u8,
    pub b: u8,
}

/// The colours the interface is drawn with.
#[derive(Debug, Clone, Copy, PartialEq, Eq, Structural)]
pub struct ThemePalette {
    pub bg: Rgb,
    pub fg: Rgb,
    pub surface: Rgb,
    pub border: Rgb,
    pub muted: Rgb,
    pub teal: Rgb,
    pub yellow: Rgb,
    pub red: Rgb,
    pub green: Rgb,
    pub blue: Rgb,
    pub mauve: Rgb,
    pub peach: Rgb,
    pub sky: Rgb,
    pub pink: Rgb,
}

pub open spec fn rgb(r: u8, g: u8, b: u8) -> Rgb {
    Rgb { r, g, b }
}

/// The built-in palette (Tokyo Night and Catppuccin Mocha colours).
pub open spec fn default_colors() -> ThemePalette {
    ThemePalette {
        bg: rgb(0x1a, 0x1b, 0x26),
        fg: rgb(0xa9, 0xb1, 0xd6),
        surface: rgb(0x24, 0x28, 0x3b),
        border: rgb(0x3b, 0x40, 0x61),
        muted: rgb(0x56, 0x5f, 0x89),
        teal: rgb(0x94, 0xe2, 0xd5),
        yellow: rgb(0xf9, 0xe2, 0xaf),
        red: rgb(0xf3, 0x8b, 0xa8),
        green: rgb(0xa6, 0xe3, 0xa1),
        blue: rgb(0x89, 0xb4, 0xfa),
        mauve: rgb(0xcb, 0xa6, 0xf7),
        peach: rgb(0xfa, 0xb3, 0x87),
        sky: rgb(0x89, 0xdc, 0xeb),
        pink: rgb(0xf5, 0xc2, 0xe7),
    }
}

/// The built-in palette.
pub fn default_palette() -> (p: ThemePalette)
    ensures
        p == default_colors(),
{
    ThemePalette {
        bg: Rgb { r: 0x1a, g: 0x1b, b: 0x26 },
        fg: Rgb { r: 0xa9, g: 0xb1, b: 0xd6 },
        surface: Rgb { r: 0x24, g: 0x28, b: 0x3b },
        border: Rgb { r: 0x3b, g: 0x40, b: 0x61 },
        muted: Rgb { r: 0x56, g: 0x5f, b: 0x89 },
        teal: Rgb { r: 0x94, g: 0xe2, b: 0xd5 },
        yellow: Rgb { r: 0xf9, g: 0xe2, b: 0xaf },
        red: Rgb { r: 0xf3, g: 0x8b, b: 0xa8 },
        green: Rgb { r: 0xa6, g: 0xe3, b: 0xa1 },
        blue: Rgb { r: 0x89, g: 0xb4, b: 0xfa },
        mauve: Rgb { r: 0xcb, g: 0xa6, b: 0xf7 },
        peach: Rgb { r: 0xfa, g: 0xb3, b: 0x87 },
        sky: Rgb { r: 0x89, g: 0xdc, b: 0xeb },
        pink: Rgb { r: 0xf5, g: 0xc2, b: 0xe7 },
    }
}

// ---------------------------------------------------------------------------
// Hex colours
// ---------------------------------------------------------------------------

/// Reading `#rrggbb` is defined: when the digits are six bytes long, bytes 2
/// and 4 fall on character boundaries.
pub open spec fn hex_readable(s: Seq<char>) -> bool {
    let d = trim_start_char(s, '#');
    utf8_len(d) == 6 ==> has_boundary(d, 2) && has_boundary(d, 4)
}

/// The colour written `#rrggbb` (or `rrggbb`; every leading `#` is dropped):
/// six bytes, each pair hexadecimal.
pub open spec fn hex_color(s: Seq<char>) -> Option<Rgb> {
    let d = trim_start_char(s, '#');
    if utf8_len(d) != 6 {
        None
    } else {
        match (
            parse_hex_u8(d.subrange(0, boundary(d, 2))),
            parse_hex_u8(d.subrange(boundary(d, 2), boundary(d, 4))),
            parse_hex_u8(d.subrange(boundary(d, 4), d.len() as int)),
        ) {
            (Some(r), Some(g), Some(b)) => Some(rgb(r, g, b)),
            _ => None,
        }
    }
}

proof fn lemma_total_len(d: Seq<char>)
    ensures
        utf8_len(d.take(d.len() as int)) == utf8_len(d),
{
    assert(d.take(d.len() as int) =~= d);
}

/// Whether the window is exactly six bytes long in UTF-8.
fn six_bytes_at(v: &Vec<char>, lo: usize, hi: usize) -> (b: bool)
    requires
        lo <= hi <= v.len(),
    ensures
        b == (utf8_len(v@.subrange(lo as int, hi as int)) == 6),
{
    let ghost d = v@.subrange(lo as int, hi as int);
    let mut n: usize = 0;
    let mut i: usize = lo;
    assert(d.take(0) =~= Seq::<char>::empty());
    while i < hi && n <= 6
        invariant
            lo <= i <= hi <= v.len(),
            d == v@.subrange(lo as int, hi as int),
            n == utf8_len(d.take(i - lo)),
            n <= 10,
        decreases hi - i,
    {
        proof {
            assert(d.take(i - lo + 1) =~= d.take(i - lo).push(v@[i as int]));
            lemma_utf8_len_push(d.take(i - lo), v@[i as int]);
        }
        n = n + char_width_of(v[i]);
        i = i + 1;
    }
    proof {
        lemma_total_len(d);
        if i < hi {
            lemma_utf8_len_strict(d, i - lo, d.len() as int);
        } else {
            assert(d.take(hi - lo) =~= d);
        }
    }
    i == hi && n == 6
}

/// Reads `#rrggbb` from the window.
fn parse_hex_at(v: &Vec<char>, lo: usize, hi: usize) -> (r: Option<Rgb>)
    requires
        lo <= hi <= v.len(),
        hex_readable(v@.subrange(lo as int, hi as int)),
    ensures
        r == hex_color(v@.subrange(lo as int, hi as int)),
{
    let ghost s = v@.subrange(lo as int, hi as int);
    let a = skip_char(v, lo, hi, '#');
    let ghost d = v@.subrange(a as int, hi as int);
    if !six_bytes_at(v, a, hi) {
        return None;
    }
    let w = window_vec(v, a, hi);
    assert(w@ == d);
    assert(w@.subrange(0, w@.len() as int) =~= w@);
    let p2 = byte_offset(&w, 0, 2);
    let p4 = byte_offset(&w, 0, 4);
    proof {
        assert(w@.subrange(0, w@.len() as int) =~= w@);
        lemma_boundary_unique(d, 2, p2 as int);
        lemma_boundary_unique(d, 4, p4 as int);
        if p2 > p4 {
            lemma_utf8_len_strict(d, p4 as int, p2 as int);
        }
        lemma_total_len(d);
        if p4 > d.len() {
            assert(false);
        }
    }
    let r = parse_hex_u8_at(&w, 0, p2);
    let g = parse_hex_u8_at(&w, p2, p4);
    let b = parse_hex_u8_at(&w, p4, w.len());
    match (r, g, b) {
        (Some(r), Some(g), Some(b)) => Some(Rgb { r, g, b }),
        _ => None,
    }
}

/// Reads a colour written `#rrggbb` or `rrggbb`.
pub fn parse_hex(s: &str) -> (r: Option<Rgb>)
    requires
        hex_readable(s@),
    ensures
        r == hex_color(s@),
{
    let v = chars_of(s);
    assert(v@.subrange(0, v.len() as int) =~= v@);
    parse_hex_at(&v, 0, v.len())
}

} // verus!

verus! {

// ---------------------------------------------------------------------------
// The colours file
// ---------------------------------------------------------------------------

/// `s` without every leading and trailing `c` (`str::trim_matches(c)`).
pub open spec fn trim_both_char(s: Seq<char>, c: char) -> Seq<char> {
    trim_end_char(trim_start_char(s, c), c)
}

/// A `key = value` line of the colours file: trimmed, neither blank nor a
/// `#` comment, split at its first `=`; the key trimmed, the value trimmed
/// and stripped of quotes.
pub open spec fn entry_of(line: Seq<char>) -> Option<(Seq<char>, Seq<char>)> {
    let t = trim(line);
    if t.len() == 0 || t[0] == '#' {
        None
    } else {
        match index_of(t, '=') {
            None => None,
            Some(i) => Some((trim(t.take(i)), trim_both_char(trim(t.skip(i + 1)), '"'))),
        }
    }
}

/// The value of `key` in the lines: the last entry with that key wins.
pub open spec fn lookup(ls: Seq<Seq<char>>, key: Seq<char>) -> Option<Seq<char>>
    decreases ls.len(),
{
    if ls.len() == 0 {
        None
    } else {
        match entry_of(ls.last()) {
            Some((k, val)) => if k == key {
                Some(val)
            } else {
                lookup(ls.drop_last(), key)
            },
            None => lookup(ls.drop_last(), key),
        }
    }
}

/// The keys the palette is read from, in the order they are read.
pub open spec fn color_keys() -> Seq<Seq<char>> {
    seq![
        "background"@,
        "foreground"@,
        "color0"@,
        "color8"@,
        "color7"@,
        "accent"@,
        "color1"@,
        "color2"@,
        "color3"@,
        "color4"@,
        "color5"@,
        "color11"@,
        "color13"@,
        "color14"@,
    ]
}

/// What reading colours from a file comes to.
pub enum Loaded {
    /// Reading a value is not defined (see [`hex_readable`]).
    Unreadable,
    /// A key is missing or its value is not a colour.
    Missing,
    /// The colours of the keys, in order.
    Colors(Seq<Rgb>),
}

/// Reads the colours of `keys` in order, stopping at the first key that is
/// missing or not a colour.
pub open spec fn read_colors(ls: Seq<Seq<char>>, keys: Seq<Seq<char>>) -> Loaded
    decreases keys.len(),
{
    if keys.len() == 0 {
        Loaded::Colors(Seq::empty())
    } else {
        match lookup(ls, keys[0]) {
            None => Loaded::Missing,
            Some(val) => if !hex_readable(val) {
                Loaded::Unreadable
            } else {
                match hex_color(val) {
                    None => Loaded::Missing,
                    Some(c) => match read_colors(ls, keys.drop_first()) {
                        Loaded::Colors(cs) => Loaded::Colors(seq![c] + cs),
                        other => other,
                    },
                }
            },
        }
    }
}

/// The outcome of reading the palette from the contents of a colours file.
pub open spec fn theme_of(content: Seq<char>) -> Loaded {
    read_colors(lines(content), color_keys())
}

/// The palette made of the colours read, in the order of [`color_keys`].
pub open spec fn palette_of(cs: Seq<Rgb>) -> ThemePalette {
    ThemePalette {
        bg: cs[0],
        fg: cs[1],
        surface: cs[2],
        border: cs[3],
        muted: cs[4],
        teal: cs[5],
        red: cs[6],
        green: cs[7],
        yellow: cs[8],
        blue: cs[9],
        mauve: cs[10],
        peach: cs[11],
        pink: cs[12],
        sky: cs[13],
    }
}

/// The entry of the window, as windows of key and value.
fn entry_at(v: &Vec<char>, lo: usize, hi: usize) -> (r: Option<((usize, usize), (usize, usize))>)
    requires
        lo <= hi <= v.len(),
    ensures
        match entry_of(v@.subrange(lo as int, hi as int)) {
            None => r is None,
            Some((k, val)) => r matches Some(((ka, kb), (va, vb))) && ka <= kb <= v.len() && va
                <= vb <= v.len() && v@.subrange(ka as int, kb as int) == k && v@.subrange(
                va as int,
                vb as int,
            ) == val,
        },
{
    let (a, b) = trim_window(v, lo, hi);
    let ghost t = v@.subrange(a as int, b as int);
    if a == b || v[a] == '#' {
        return None;
    }
    match find_char_at(v, a, b, '=') {
        None => None,
        Some(e) => {
            assert(t.take(e - a) =~= v@.subrange(a as int, e as int));
            assert(t.skip(e - a + 1) =~= v@.subrange(e + 1, b as int));
            let (ka, kb) = trim_window(v, a, e);
            let (x, y) = trim_window(v, e + 1, b);
            let x2 = skip_char(v, x, y, '"');
            let y2 = rskip_char(v, x2, y, '"');
            Some(((ka, kb), (x2, y2)))
        },
    }
}

/// The value of `key` among the line windows.
fn lookup_at(v: &Vec<char>, ws: &Vec<(usize, usize)>, key: &Vec<char>) -> (r: Option<(usize, usize)>)
    requires
        ws.len() == lines(v@).len(),
        forall|k: int|
            0 <= k < ws.len() ==> {
                &&& (#[trigger] ws@[k]).0 <= ws@[k].1 <= v.len()
                &&& v@.subrange(ws@[k].0 as int, ws@[k].1 as int) == lines(v@)[k]
            },
    ensures
        match lookup(lines(v@), key@) {
            None => r is None,
            Some(val) => r matches Some((a, b)) && a <= b <= v.len() && v@.subrange(a as int, b as int)
                == val,
        },
{
    let ghost ls = lines(v@);
    let mut k = ws.len();
    assert(ls.take(ws.len() as int) =~= ls);
    while k > 0
        invariant
            k <= ws.len(),
            ws.len() == ls.len(),
            ls == lines(v@),
            forall|j: int|
                0 <= j < ws.len() ==> {
                    &&& (#[trigger] ws@[j]).0 <= ws@[j].1 <= v.len()
                    &&& v@.subrange(ws@[j].0 as int, ws@[j].1 as int) == ls[j]
                },
            lookup(ls, key@) == lookup(ls.take(k as int), key@),
        decreases k,
    {
        let (a, b) = ws[k - 1];
        proof {
            assert(ls.take(k as int).drop_last() =~= ls.take(k - 1));
            assert(ls.take(k as int).last() == ls[k - 1]);
        }
        match entry_at(v, a, b) {
            Some(((ka, kb), (va, vb))) => {
                if eq_at(v, ka, kb, key) {
                    return Some((va, vb));
                }
            },
            None => {},
        }
        k = k - 1;
    }
    None
}

/// Reads the colours of the file: `None` where reading is not defined,
/// `Some(None)` where a colour is missing.
fn read_colors_at(content: &str) -> (r: Option<Option<Vec<Rgb>>>)
    ensures
        match theme_of(content@) {
            Loaded::Unreadable => r is None,
            Loaded::Missing => r == Some(None::<Vec<Rgb>>),
            Loaded::Colors(cs) => r matches Some(Some(v)) && v@ == cs,
        },
{
    let v = chars_of(content);
    let ws = line_windows(&v);
    let ghost ls = lines(v@);
    let names: [&str; 14] = [
        "background",
        "foreground",
        "color0",
        "color8",
        "color7",
        "accent",
        "color1",
        "color2",
        "color3",
        "color4",
        "color5",
        "color11",
        "color13",
        "color14",
    ];
    let ghost keys = color_keys();
    assert(forall|i: int| 0 <= i < 14 ==> (#[trigger] names@[i])@ == keys[i]);
    let mut cs: Vec<Rgb> = Vec::new();
    let mut i: usize = 0;
    assert(keys.skip(0) =~= keys);
    assert(cs@ + Seq::<Rgb>::empty() =~= cs@);
    while i < 14
        invariant
            i <= 14,
            v@ == content@,
            ws.len() == ls.len(),
            ls == lines(v@),
            keys == color_keys(),
            forall|j: int| 0 <= j < 14 ==> (#[trigger] names@[j])@ == keys[j],
            forall|j: int|
                0 <= j < ws.len() ==> {
                    &&& (#[trigger] ws@[j]).0 <= ws@[j].1 <= v.len()
                    &&& v@.subrange(ws@[j].0 as int, ws@[j].1 as int) == ls[j]
                },
            cs@.len() == i,
            read_colors(ls, keys) == match read_colors(ls, keys.skip(i as int)) {
                Loaded::Colors(rest) => Loaded::Colors(cs@ + rest),
                other => other,
            },
        decreases 14 - i,
    {
        let ghost tail = keys.skip(i as int);
        assert(tail[0] == keys[i as int]);
        assert(tail.drop_first() =~= keys.skip(i + 1));
        let key = chars_of(names[i]);
        match lookup_at(&v, &ws, &key) {
            None => {
                return Some(None);
            },
            Some((a, b)) => {
                let ok = {
                    let a2 = skip_char(&v, a, b, '#');
                    let six = six_bytes_at(&v, a2, b);
                    if six {
                        let w = window_vec(&v, a2, b);
                        assert(w@.subrange(0, w@.len() as int) =~= w@);
                        has_boundary_at(&w, 2) && has_boundary_at(&w, 4)
                    } else {
                        true
                    }
                };
                if !ok {
                    return None;
                }
                match parse_hex_at(&v, a, b) {
                    None => {
                        return Some(None);
                    },
                    Some(c) => {
                        proof {
                            let val = v@.subrange(a as int, b as int);
                            assert(read_colors(ls, tail) == match read_colors(ls, tail.drop_first()) {
                                Loaded::Colors(rest) => Loaded::Colors(seq![c] + rest),
                                other => other,
                            });
                            match read_colors(ls, keys.skip(i + 1)) {
                                Loaded::Colors(rest) => {
                                    assert(cs@.push(c) + rest =~= cs@ + (seq![c] + rest));
                                },
                                _ => {},
                            }
                        }
                        cs.push(c);
                    },
                }
            },
        }
        i = i + 1;
    }
    proof {
        assert(keys.skip(14) =~= Seq::<Seq<char>>::empty());
        assert(cs@ + Seq::<Rgb>::empty() =~= cs@);
    }
    Some(Some(cs))
}

} // verus!

verus! {

/// The colour written for `key` in a colours file.
pub open spec fn key_color(content: Seq<char>, key: Seq<char>) -> Rgb {
    hex_color(lookup(lines(content), key).unwrap()).unwrap()
}

/// Each colour of the palette is the one written for its own key: background
/// and foreground, `color0` the surface, `color8` the border, `color7` the
/// muted text, `accent` teal, `color1` red, `color2` green, `color3` yellow,
/// `color4` blue, `color5` mauve, `color11` peach, `color13` pink and
/// `color14` sky.
pub open spec fn colors_by_key(p: ThemePalette, content: Seq<char>) -> bool {
    &&& p.bg == key_color(content, "background"@)
    &&& p.fg == key_color(content, "foreground"@)
    &&& p.surface == key_color(content, "color0"@)
    &&& p.border == key_color(content, "color8"@)
    &&& p.muted == key_color(content, "color7"@)
    &&& p.teal == key_color(content, "accent"@)
    &&& p.red == key_color(content, "color1"@)
    &&& p.green == key_color(content, "color2"@)
    &&& p.yellow == key_color(content, "color3"@)
    &&& p.blue == key_color(content, "color4"@)
    &&& p.mauve == key_color(content, "color5"@)
    &&& p.peach == key_color(content, "color11"@)
    &&& p.pink == key_color(content, "color13"@)
    &&& p.sky == key_color(content, "color14"@)
}

proof fn lemma_read_colors_each(ls: Seq<Seq<char>>, keys: Seq<Seq<char>>, i: int)
    requires
        read_colors(ls, keys) is Colors,
        0 <= i < keys.len(),
    ensures
        lookup(ls, keys[i]) is Some,
        hex_color(lookup(ls, keys[i]).unwrap()) == Some(read_colors(ls, keys)->Colors_0[i]),
    decreases keys.len(),
{
    if i > 0 {
        lemma_read_colors_each(ls, keys.drop_first(), i - 1);
        assert(keys.drop_first()[i - 1] == keys[i]);
        let c = hex_color(lookup(ls, keys[0]).unwrap()).unwrap();
        let cs = read_colors(ls, keys.drop_first())->Colors_0;
        lemma_read_colors_len(ls, keys.drop_first());
        assert(read_colors(ls, keys)->Colors_0 == seq![c] + cs);
        assert((seq![c] + cs)[i] == cs[i - 1]);
    }
}

/// A palette read from a colours file takes each colour from its own key
/// (see [`colors_by_key`]).
pub proof fn lemma_palette_from_keys(content: Seq<char>)
    requires
        theme_of(content) is Colors,
    ensures
        colors_by_key(palette_of(theme_of(content)->Colors_0), content),
{
    let ls = lines(content);
    let ks = color_keys();
    lemma_read_colors_len(ls, ks);
    lemma_read_colors_each(ls, ks, 0);
    lemma_read_colors_each(ls, ks, 1);
    lemma_read_colors_each(ls, ks, 2);
    lemma_read_colors_each(ls, ks, 3);
    lemma_read_colors_each(ls, ks, 4);
    lemma_read_colors_each(ls, ks, 5);
    lemma_read_colors_each(ls, ks, 6);
    lemma_read_colors_each(ls, ks, 7);
    lemma_read_colors_each(ls, ks, 8);
    lemma_read_colors_each(ls, ks, 9);
    lemma_read_colors_each(ls, ks, 10);
    lemma_read_colors_each(ls, ks, 11);
    lemma_read_colors_each(ls, ks, 12);
    lemma_read_colors_each(ls, ks, 13);
}

/// Whether reading the palette from the colours file is defined.
pub fn colors_file_ok(content: &str) -> (b: bool)
    ensures
        b == !(theme_of(content@) is Unreadable),
{
    read_colors_at(content).is_some()
}

/// The palette of a colours file (`key = "#rrggbb"` lines), or `None` when
/// one of the fourteen colours is missing or malformed.
pub fn load_omarchy(content: &str) -> (r: Option<ThemePalette>)
    requires
        !(theme_of(content@) is Unreadable),
    ensures
        match theme_of(content@) {
            Loaded::Colors(cs) => r == Some(palette_of(cs)),
            _ => r is None,
        },
        r matches Some(p) ==> colors_by_key(p, content@),
{
    proof {
        if theme_of(content@) is Colors {
            lemma_palette_from_keys(content@);
        }
    }
    match read_colors_at(content) {
        Some(Some(cs)) => {
            proof {
                assert(color_keys().len() == 14);
                lemma_read_colors_len(lines(content@), color_keys());
            }
            Some(
                ThemePalette {
                    bg: cs[0],
                    fg: cs[1],
                    surface: cs[2],
                    border: cs[3],
                    muted: cs[4],
                    teal: cs[5],
                    red: cs[6],
                    green: cs[7],
                    yellow: cs[8],
                    blue: cs[9],
                    mauve: cs[10],
                    peach: cs[11],
                    pink: cs[12],
                    sky: cs[13],
                },
            )
        },
        _ => None,
    }
}

proof fn lemma_read_colors_len(ls: Seq<Seq<char>>, keys: Seq<Seq<char>>)
    ensures
        read_colors(ls, keys) matches Loaded::Colors(cs) ==> cs.len() == keys.len(),
    decreases keys.len(),
{
    if keys.len() > 0 {
        lemma_read_colors_len(ls, keys.drop_first());
    }
}

/// The palette the interface starts with: the one in the active theme's
/// colours file when that file was read and holds every colour, otherwise
/// the built-in one.
pub fn init(colors_file: Option<&str>) -> (p: ThemePalette)
    requires
        colors_file matches Some(c) ==> !(theme_of(c@) is Unreadable),
    ensures
        p == match colors_file {
            Some(c) => match theme_of(c@) {
                Loaded::Colors(cs) => palette_of(cs),
                _ => default_colors(),
            },
            None => default_colors(),
        },
        colors_file matches Some(c) ==> (theme_of(c@) is Colors ==> colors_by_key(p, c@)),
{
    match colors_file {
        Some(c) => match load_omarchy(c) {
            Some(p) => p,
            None => default_palette(),
        },
        None => default_palette(),
    }
}

/// The colour of a power profile named in lower case: quiet teal, balanced
/// yellow, performance red, anything else the text colour.
pub open spec fn lowercase_profile_color_of(palette: ThemePalette, l: Seq<char>) -> Rgb {
    if l == "quiet"@ {
        palette.teal
    } else if l == "balanced"@ {
        palette.yellow
    } else if l == "performance"@ {
        palette.red
    } else {
        palette.fg
    }
}

/// The colour of a power profile, whatever the case of its name.
pub open spec fn profile_color_of(palette: ThemePalette, profile: Seq<char>) -> Rgb {
    lowercase_profile_color_of(palette, lowercase(profile))
}

/// The colour of a power profile whose name is already in lower case.
pub fn lowercase_profile_color(palette: &ThemePalette, lowered: &str) -> (c: Rgb)
    ensures
        c == lowercase_profile_color_of(*palette, lowered@),
{
    let v = chars_of(lowered);
    let quiet = chars_of("quiet");
    let balanced = chars_of("balanced");
    let performance = chars_of("performance");
    assert(v@.subrange(0, v.len() as int) =~= v@);
    if eq_at(&v, 0, v.len(), &quiet) {
        palette.teal
    } else if eq_at(&v, 0, v.len(), &balanced) {
        palette.yellow
    } else if eq_at(&v, 0, v.len(), &performance) {
        palette.red
    } else {
        palette.fg
    }
}

/// The colour a power profile is shown in.
pub fn profile_color(palette: &ThemePalette, profile: &str) -> (c: Rgb)
    ensures
        c == profile_color_of(*palette, profile@),
{
    let l = to_lowercase(profile);
    lowercase_profile_color(palette, l.as_str())
}

} // verus!
