use lxp::clidef::Send;
use lxp::logger::default_level;
use lxp::lxptypes::{ColorPrint, Mode, Ship};
use lxp::text::{blank, chars_of, compare_chars, hex, push_decimal, same_text, Order};

#[test]
fn decimal_rendering() {
    for (n, expected) in [(0u64, "0"), (7, "7"), (10, "10"), (12345, "12345"), (u64::MAX, "18446744073709551615")] {
        let mut s = "x".to_string();
        push_decimal(&mut s, n);
        assert_eq!(s, format!("x{expected}"));
    }
}

#[test]
fn hex_rendering() {
    assert_eq!(hex(&[]), "");
    assert_eq!(hex(&[0x00, 0x0f, 0xbe, 0xef, 0xff]), "000fbeefff");
}

#[test]
fn blank_matches_trim() {
    for s in ["", " ", "\t\n\r\u{0b}\u{0c}", "\u{85}\u{a0}\u{1680}\u{2000}\u{200a}\u{2028}\u{2029}\u{202f}\u{205f}\u{3000}", "a", " a ", "\u{200b}", "\u{feff}"] {
        assert_eq!(blank(s), s.trim().is_empty(), "{s:?}");
    }
}

#[test]
fn code_point_order_matches_str_order() {
    let words = ["", "a", "B", "ab", "abc", "b", "é", "z", "\u{1F600}", "aa"];
    for x in words {
        for y in words {
            let expected = match x.cmp(y) {
                std::cmp::Ordering::Less => Order::Less,
                std::cmp::Ordering::Equal => Order::Equal,
                std::cmp::Ordering::Greater => Order::Greater,
            };
            assert_eq!(compare_chars(&chars_of(x), &chars_of(y)), expected, "{x:?} {y:?}");
            assert_eq!(same_text(x, y), x == y);
        }
    }
}

#[test]
fn print_options_follow_flags() {
    let send = |color, black_and_white, international, duplex| Send {
        path: "letter.pdf".to_string(),
        color,
        black_and_white,
        international,
        duplex,
    };
    assert_eq!(
        send(false, false, false, false).print_options(),
        (ColorPrint::BlackAndWhite, Mode::Simplex, Ship::National)
    );
    assert_eq!(
        send(true, false, false, true).print_options(),
        (ColorPrint::Color, Mode::Duplex, Ship::National)
    );
    assert_eq!(
        send(true, true, true, false).print_options(),
        (ColorPrint::BlackAndWhite, Mode::Simplex, Ship::International)
    );
    assert_eq!(
        send(false, true, false, false).print_options(),
        (ColorPrint::BlackAndWhite, Mode::Simplex, Ship::National)
    );
}

#[test]
fn verbosity_levels() {
    assert_eq!(default_level(0), "info");
    assert_eq!(default_level(1), "debug");
    assert_eq!(default_level(2), "trace");
    assert_eq!(default_level(255), "trace");
}
