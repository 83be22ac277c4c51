use tiss_greetd::palette::{
    apply_overrides, default_palette, parse_hex_color, parse_int, to_hex, Palette,
};

fn pair(k: &str, v: &str) -> (String, String) {
    (k.to_string(), v.to_string())
}

#[test]
fn default_colours() {
    assert_eq!(
        default_palette(),
        Palette {
            accent: "#7cc7ff".to_string(),
            bg: "#0e0f12".to_string(),
            fg: "#f2f4f8".to_string(),
            subfg: "#c2c8d2".to_string(),
            card_bg: "#121620".to_string(),
            card_border: "#232a3a".to_string(),
            shadow: "#12151a".to_string(),
        }
    );
}

#[test]
fn colours_are_read() {
    assert_eq!(parse_hex_color("#7cc7ff"), Some([0x7c, 0xc7, 0xff]));
    assert_eq!(parse_hex_color("7CC7FF"), Some([0x7c, 0xc7, 0xff]));
    assert_eq!(parse_hex_color("  #000000\n"), Some([0, 0, 0]));
    assert_eq!(parse_hex_color("#FfFfFf"), Some([255, 255, 255]));
    assert_eq!(parse_hex_color("#0a0B0c"), Some([10, 11, 12]));
    assert_eq!(parse_hex_color("#+f+0+a"), Some([15, 0, 10]));
}

#[test]
fn what_is_no_colour_is_refused() {
    for s in [
        "", "#", "#fff", "#fffffff", "##ffffff", "#gggggg", "#12 456", "# 123456", "#-1-1-1",
        "#f+f+ff", "fffff", "#ffff\u{e9}", "#aé123", "0x123456",
    ] {
        assert_eq!(parse_hex_color(s), None, "{:?}", s);
    }
}

#[test]
fn colours_are_written() {
    assert_eq!(to_hex([0, 0, 0]), "#000000");
    assert_eq!(to_hex([255, 255, 255]), "#ffffff");
    assert_eq!(to_hex([0x7c, 0xc7, 0xff]), "#7cc7ff");
    assert_eq!(to_hex([1, 10, 16]), "#010a10");
    assert_eq!(to_hex([242, 244, 248]), format!("#{:02x}{:02x}{:02x}", 242, 244, 248));
}

#[test]
fn what_is_written_is_read_back() {
    for c in [[0u8, 0, 0], [1, 2, 3], [9, 10, 15], [16, 127, 128], [254, 255, 0]] {
        assert_eq!(parse_hex_color(&to_hex(c)), Some(c));
    }
}

#[test]
fn overrides_replace_colours_that_they_name() {
    let mut p = default_palette();
    apply_overrides(
        &mut p,
        &vec![
            pair("accent", "FF0000"),
            pair("bg", " #00ff00 "),
            pair("card_bg", "#ABCDEF"),
            pair("shadow", "#010203"),
        ],
    );
    assert_eq!(p.accent, "#ff0000");
    assert_eq!(p.bg, "#00ff00");
    assert_eq!(p.card_bg, "#abcdef");
    assert_eq!(p.shadow, "#010203");
    assert_eq!(p.fg, "#f2f4f8");
    assert_eq!(p.subfg, "#c2c8d2");
    assert_eq!(p.card_border, "#232a3a");
}

#[test]
fn overrides_that_are_no_colours_change_nothing() {
    let mut p = default_palette();
    apply_overrides(
        &mut p,
        &vec![pair("fg", "white"), pair("subfg", ""), pair("card_border", "#12345"), pair("error", "#ff0000")],
    );
    assert_eq!(p, default_palette());
    apply_overrides(&mut p, &vec![]);
    assert_eq!(p, default_palette());
}

#[test]
fn every_colour_can_be_overridden() {
    let mut p = default_palette();
    apply_overrides(
        &mut p,
        &vec![
            pair("accent", "#000001"),
            pair("bg", "#000002"),
            pair("fg", "#000003"),
            pair("subfg", "#000004"),
            pair("card_bg", "#000005"),
            pair("card_border", "#000006"),
            pair("shadow", "#000007"),
        ],
    );
    assert_eq!(
        p,
        Palette {
            accent: "#000001".to_string(),
            bg: "#000002".to_string(),
            fg: "#000003".to_string(),
            subfg: "#000004".to_string(),
            card_bg: "#000005".to_string(),
            card_border: "#000006".to_string(),
            shadow: "#000007".to_string(),
        }
    );
}

#[test]
fn whole_numbers_on_the_command_line() {
    assert_eq!(parse_int("2"), Ok(2));
    assert_eq!(parse_int(" 15 "), Ok(15));
    assert_eq!(parse_int("+3"), Ok(3));
    assert_eq!(parse_int("0"), Ok(0));
    assert_eq!(parse_int("two"), Err("invalid number: two".to_string()));
    assert_eq!(parse_int(" -1 "), Err("invalid number:  -1 ".to_string()));
    assert_eq!(parse_int(""), Err("invalid number: ".to_string()));
    assert_eq!(parse_int("1.5"), Err("invalid number: 1.5".to_string()));
}
