//! The `supergfxctl` tool: GPU mode queries and switching.
use vstd::prelude::*;

use crate::command::{command, owned, Command, CommandView};
use crate::text::{
    chars_of, rskip_char, skip_char, split, split_windows, substring, trim, trim_end_char,
    trim_start_char, trim_window, views,
};

verus! {

/// A `supergfxctl` invocation with `args`.
pub open spec fn supergfxctl(args: Seq<Seq<char>>, check_status: bool, notify_waybar: bool) -> CommandView {
    CommandView { program: "supergfxctl"@, args, check_status, notify_waybar }
}

/// `supergfxctl -g`.
pub fn get_mode_command() -> (c: Command)
    ensures
        c@ == supergfxctl(seq!["-g"@], true, false),
{
    let args = vec![owned("-g")];
    assert(views(args@) =~= seq!["-g"@]);
    command("supergfxctl", args, true, false)
}

/// `supergfxctl -s`; its exit status is not checked.
pub fn get_supported_modes_command() -> (c: Command)
    ensures
        c@ == supergfxctl(seq!["-s"@], false, false),
{
    let args = vec![owned("-s")];
    assert(views(args@) =~= seq!["-s"@]);
    command("supergfxctl", args, false, false)
}

/// Switches the GPU mode; the status bar is signalled afterwards.
pub fn set_mode(mode: &str) -> (c: Command)
    ensures
        c@ == supergfxctl(seq!["-m"@, mode@], true, true),
{
    let args = vec![owned("-m"), owned(mode)];
    assert(views(args@) =~= seq!["-m"@, mode@]);
    command("supergfxctl", args, true, true)
}

/// The current GPU mode: the output of `supergfxctl -g`, trimmed.
pub fn get_mode(output: &str) -> (r: String)
    ensures
        r@ == trim(output@),
{
    let v = chars_of(output);
    let (a, b) = trim_window(&v, 0, v.len());
    assert(v@.subrange(0, v.len() as int) =~= v@);
    substring(output, a, b)
}

/// The list inside the brackets of `[Integrated, Hybrid, AsusMuxDgpu]`.
pub open spec fn modes_body(out: Seq<char>) -> Seq<char> {
    trim_end_char(trim_start_char(trim(out), '['), ']')
}

/// The supported modes listed by `supergfxctl -s`: the bracketed list split
/// at commas, each entry trimmed.
pub open spec fn supported_modes_of(out: Seq<char>) -> Seq<Seq<char>> {
    split(modes_body(out), ',').map_values(|p: Seq<char>| trim(p))
}

/// Parses the output of `supergfxctl -s`.
pub fn get_supported_modes(output: &str) -> (r: Vec<String>)
    ensures
        views(r@) == supported_modes_of(output@),
{
    let v = chars_of(output);
    assert(v@.subrange(0, v.len() as int) =~= v@);
    let (a, b) = trim_window(&v, 0, v.len());
    let a2 = skip_char(&v, a, b, '[');
    let b2 = rskip_char(&v, a2, b, ']');
    assert(v@.subrange(a2 as int, b2 as int) == modes_body(output@));
    let ws = split_windows(&v, a2, b2, ',');
    let ghost ps = split(modes_body(output@), ',');
    let mut r: Vec<String> = Vec::new();
    let mut k: usize = 0;
    while k < ws.len()
        invariant
            k <= ws.len(),
            v@ == output@,
            ws.len() == ps.len(),
            a2 <= b2 <= v.len(),
            forall|j: int|
                0 <= j < ws.len() ==> {
                    &&& a2 <= (#[trigger] ws@[j]).0 <= ws@[j].1 <= b2
                    &&& v@.subrange(ws@[j].0 as int, ws@[j].1 as int) == ps[j]
                },
            r@.len() == k,
            forall|j: int| 0 <= j < k ==> (#[trigger] r@[j])@ == trim(ps[j]),
        decreases ws.len() - k,
    {
        let (x, y) = ws[k];
        let (x2, y2) = trim_window(&v, x, y);
        r.push(substring(output, x2, y2));
        k = k + 1;
    }
    assert(views(r@) =~= supported_modes_of(output@));
    r
}

} // verus!
