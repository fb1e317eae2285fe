use ljbox::seed::{parse_seed, seed_from_argument, SeedChoice, DEFAULT_SEED};

#[test]
fn decimal_seeds_are_read() {
    assert_eq!(parse_seed("0"), Some(0));
    assert_eq!(parse_seed("7"), Some(7));
    assert_eq!(parse_seed("42"), Some(42));
    assert_eq!(parse_seed("007"), Some(7));
    assert_eq!(parse_seed("+15"), Some(15));
    assert_eq!(parse_seed("1234567890123456789"), Some(1234567890123456789));
}

#[test]
fn largest_seed_is_read_and_the_next_is_refused() {
    assert_eq!(parse_seed("18446744073709551615"), Some(u64::MAX));
    assert_eq!(parse_seed("+18446744073709551615"), Some(u64::MAX));
    assert_eq!(parse_seed("000018446744073709551615"), Some(u64::MAX));
    assert_eq!(parse_seed("18446744073709551616"), None);
    assert_eq!(parse_seed("18446744073709551620"), None);
    assert_eq!(parse_seed("99999999999999999999"), None);
    assert_eq!(parse_seed("184467440737095516150"), None);
}

#[test]
fn texts_that_name_no_seed_are_refused() {
    for text in ["", "+", "-", "-1", "-0", "++1", "+-1", "1+", " 1", "1 ", "1.0", "1e3", "0x10", "1_000", "abc", "١٢", "１"] {
        assert_eq!(parse_seed(text), None, "{:?}", text);
    }
}

#[test]
fn seeds_agree_with_the_standard_library_on_every_short_text() {
    let alphabet = ['0', '1', '9', '+', '-', ' ', 'a', '.', '٣'];
    let mut texts: Vec<String> = vec![String::new()];
    let mut start = 0;
    for _length in 1..=5 {
        let end = texts.len();
        for k in start..end {
            for c in alphabet {
                let mut longer = texts[k].clone();
                longer.push(c);
                texts.push(longer);
            }
        }
        start = end;
    }
    for text in &texts {
        assert_eq!(parse_seed(text), text.parse::<u64>().ok(), "{:?}", text);
    }
}

#[test]
fn seeds_agree_with_the_standard_library_near_the_limit() {
    let limit = u64::MAX as u128;
    for value in (limit - 300)..(limit + 300) {
        let text = format!("{}", value);
        assert_eq!(parse_seed(&text), text.parse::<u64>().ok(), "{:?}", text);
    }
    let mut state: u64 = 1;
    for _ in 0..20000 {
        state = state.wrapping_mul(6364136223846793005).wrapping_add(1442695040888963407);
        let digits = 1 + (state >> 59) as usize % 24;
        let mut text = String::new();
        let mut draw = state;
        for _ in 0..digits {
            draw = draw.wrapping_mul(6364136223846793005).wrapping_add(1442695040888963407);
            text.push(char::from_digit((draw >> 40) as u32 % 10, 10).unwrap());
        }
        assert_eq!(parse_seed(&text), text.parse::<u64>().ok(), "{:?}", text);
    }
}

#[test]
fn run_without_a_seed_uses_the_default() {
    assert_eq!(DEFAULT_SEED, 0);
    assert_eq!(seed_from_argument(None), SeedChoice { seed: 0, fallback: false });
}

#[test]
fn run_with_a_seed_uses_it() {
    assert_eq!(seed_from_argument(Some("12345")), SeedChoice { seed: 12345, fallback: false });
    assert_eq!(seed_from_argument(Some("0")), SeedChoice { seed: 0, fallback: false });
}

#[test]
fn run_with_a_refused_seed_falls_back_to_the_default() {
    assert_eq!(seed_from_argument(Some("twelve")), SeedChoice { seed: 0, fallback: true });
    assert_eq!(seed_from_argument(Some("-3")), SeedChoice { seed: 0, fallback: true });
    assert_eq!(seed_from_argument(Some("")), SeedChoice { seed: 0, fallback: true });
    assert_eq!(
        seed_from_argument(Some("18446744073709551616")),
        SeedChoice { seed: 0, fallback: true }
    );
}
