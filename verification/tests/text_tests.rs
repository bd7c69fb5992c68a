use pid_fan_controller::text::{decimal, parse_reading};

fn next(seed: &mut u64) -> u64 {
    *seed = seed
        .wrapping_mul(6364136223846793005)
        .wrapping_add(1442695040888963407);
    *seed ^ (*seed >> 29)
}

#[test]
fn decimal_writes_the_digits_and_nothing_else() {
    assert_eq!(decimal(0), "0");
    assert_eq!(decimal(7), "7");
    assert_eq!(decimal(10), "10");
    assert_eq!(decimal(125), "125");
    assert_eq!(decimal(245), "245");
    assert_eq!(decimal(1000), "1000");
    assert_eq!(decimal(4294967295), "4294967295");
}

#[test]
fn decimal_agrees_with_the_standard_library() {
    let mut seed = 21;
    for _ in 0..50_000 {
        let v = (next(&mut seed) >> 32) as u32;
        assert_eq!(decimal(v), v.to_string());
    }
    for v in 0..3000u32 {
        assert_eq!(decimal(v), v.to_string());
    }
}

#[test]
fn what_is_written_reads_back() {
    let mut seed = 22;
    for _ in 0..50_000 {
        let v = (next(&mut seed) >> 32) as u32;
        assert_eq!(parse_reading(&decimal(v)), Some(v as u64));
    }
    assert_eq!(parse_reading(&decimal(0)), Some(0));
    assert_eq!(parse_reading(&decimal(u32::MAX)), Some(u32::MAX as u64));
}

#[test]
fn a_reading_is_an_unsigned_integer() {
    assert_eq!(parse_reading("0"), Some(0));
    assert_eq!(parse_reading("45000"), Some(45000));
    assert_eq!(parse_reading("45000\n"), Some(45000));
    assert_eq!(parse_reading("45000 \t\r\n"), Some(45000));
    assert_eq!(parse_reading("+45000\n"), Some(45000));
    assert_eq!(parse_reading("00045"), Some(45));
    assert_eq!(parse_reading("18446744073709551615"), Some(u64::MAX));
    assert_eq!(parse_reading("018446744073709551615\n"), Some(u64::MAX));
}

#[test]
fn what_is_no_unsigned_integer_is_no_reading() {
    for text in [
        "",
        "\n",
        "   ",
        "+",
        "-",
        "+\n",
        "-5",
        "-0",
        "++5",
        "4 5",
        " 45",
        "\n45",
        "45.0",
        "45e3",
        "0x10",
        "abc",
        "45a",
        "a45",
        "18446744073709551616",
        "99999999999999999999999",
        "４５",
        "45\u{0}",
    ] {
        assert_eq!(parse_reading(text), None, "{:?}", text);
    }
}

#[test]
fn white_space_of_every_kind_is_set_aside_at_the_end_only() {
    for c in [
        '\u{9}', '\u{A}', '\u{B}', '\u{C}', '\u{D}', ' ', '\u{85}', '\u{A0}', '\u{1680}',
        '\u{2000}', '\u{2005}', '\u{200A}', '\u{2028}', '\u{2029}', '\u{202F}', '\u{205F}',
        '\u{3000}',
    ] {
        assert!(c.is_whitespace());
        assert_eq!(parse_reading(&format!("12{}", c)), Some(12), "{:?}", c);
        assert_eq!(parse_reading(&format!("12{}{}", c, c)), Some(12), "{:?}", c);
        assert_eq!(parse_reading(&format!("{}12", c)), None, "{:?}", c);
        assert_eq!(parse_reading(&format!("1{}2", c)), None, "{:?}", c);
    }
    for c in ['\u{8}', '\u{E}', '\u{1F}', '\u{200B}', '\u{180E}', '\u{FEFF}', '\u{2060}'] {
        assert!(!c.is_whitespace());
        assert_eq!(parse_reading(&format!("12{}", c)), None, "{:?}", c);
    }
}

#[test]
fn white_space_is_what_the_standard_library_calls_so() {
    for code in 0..0x11_0000u32 {
        if let Some(c) = char::from_u32(code) {
            let text = format!("3{}", c);
            let expected = text.trim_end().parse::<u64>().ok();
            assert_eq!(parse_reading(&text), expected, "{:?}", c);
        }
    }
}

#[test]
fn parse_reading_agrees_with_the_standard_library() {
    let alphabet = [
        '0', '1', '2', '5', '9', '9', '9', '+', '-', ' ', '\n', 'a', '.', '\u{A0}',
    ];
    let mut seed = 23;
    for _ in 0..200_000 {
        let len = next(&mut seed) % 24;
        let mut text = String::new();
        for _ in 0..len {
            let digit_heavy = next(&mut seed) % 4 != 0;
            let c = if digit_heavy {
                alphabet[(next(&mut seed) % 7) as usize]
            } else {
                alphabet[(next(&mut seed) % alphabet.len() as u64) as usize]
            };
            text.push(c);
        }
        let expected = text.trim_end().parse::<u64>().ok();
        assert_eq!(parse_reading(&text), expected, "{:?}", text);
    }
}
