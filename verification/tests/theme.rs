use rog_control_center::theme::{
    colors_file_ok, default_palette, init, load_omarchy, lowercase_profile_color, parse_hex,
    profile_color, Rgb,
};

const COLORS: &str = "# theme\n\
accent = \"#89b4fa\"\n\
background = \"#1e1e2e\"\n\
foreground = \"#cdd6f4\"\n\
color0 = \"#45475a\"\n\
color1 = \"#f38ba8\"\n\
color2 = \"#a6e3a1\"\n\
color3 = \"#f9e2af\"\n\
color4 = \"#89b4fa\"\n\
color5 = \"#f5c2e7\"\n\
color7 = \"#bac2de\"\n\
color8 = \"#585b70\"\n\
color11 = \"#fab387\"\n\
color13 = \"#f5c2e7\"\n\
color14 = \"#94e2d5\"\n\
background = '#000000'\n";

#[test]
fn hex_colors() {
    assert_eq!(parse_hex("#ff8000"), Some(Rgb { r: 255, g: 128, b: 0 }));
    assert_eq!(parse_hex("a9b1d6"), Some(Rgb { r: 0xa9, g: 0xb1, b: 0xd6 }));
    assert_eq!(parse_hex("##010203"), Some(Rgb { r: 1, g: 2, b: 3 }));
    assert_eq!(parse_hex("#fff"), None);
    assert_eq!(parse_hex("#gg0000"), None);
    assert_eq!(parse_hex("#+f+f+f"), Some(Rgb { r: 15, g: 15, b: 15 }));
}

#[test]
fn palette_from_colors_file() {
    assert!(colors_file_ok(COLORS));
    // the last line gives background a value that is not a colour
    assert_eq!(load_omarchy(COLORS), None);
    let fixed = COLORS.replace("background = '#000000'\n", "");
    let p = load_omarchy(&fixed).expect("complete palette");
    assert_eq!(p.bg, Rgb { r: 0x1e, g: 0x1e, b: 0x2e });
    assert_eq!(p.teal, Rgb { r: 0x89, g: 0xb4, b: 0xfa });
    assert_eq!(p.fg, Rgb { r: 0xcd, g: 0xd6, b: 0xf4 });
    assert_eq!(p.sky, Rgb { r: 0x94, g: 0xe2, b: 0xd5 });
    assert_eq!(p.pink, Rgb { r: 0xf5, g: 0xc2, b: 0xe7 });
}

#[test]
fn quoted_last_entry_wins() {
    let text = COLORS.replace("background = '#000000'\n", "background = \"#010203\"\n");
    let p = load_omarchy(&text).unwrap();
    assert_eq!(p.bg, Rgb { r: 1, g: 2, b: 3 });
}

#[test]
fn incomplete_file_falls_back() {
    let text = "background = \"#000000\"\n";
    assert_eq!(load_omarchy(text), None);
    assert_eq!(init(Some(text)), default_palette());
    assert_eq!(init(None), default_palette());
    assert_eq!(default_palette().bg, Rgb { r: 0x1a, g: 0x1b, b: 0x26 });
}

#[test]
fn profile_colors() {
    let p = default_palette();
    assert_eq!(profile_color(&p, "Quiet"), p.teal);
    assert_eq!(profile_color(&p, "BALANCED"), p.yellow);
    assert_eq!(profile_color(&p, "performance"), p.red);
    assert_eq!(profile_color(&p, "custom"), p.fg);
}

#[test]
fn lowercase_profile_colors() {
    let p = default_palette();
    assert_eq!(lowercase_profile_color(&p, "balanced"), p.yellow);
    assert_eq!(lowercase_profile_color(&p, "BALANCED"), p.fg);
    assert_eq!(lowercase_profile_color(&p, ""), p.fg);
}
