use ljbox::number::is_numeric;

fn by_standard_library(text: &str) -> bool {
    text.parse::<f64>().is_ok()
}

#[test]
fn plain_decimals_are_numbers() {
    for text in ["0", "7", "42", "007", "1.5", "1.", ".5", "0.0", "123456789.987654321", "00.00"] {
        assert!(is_numeric(text), "{:?}", text);
    }
}

#[test]
fn signs_and_exponents_are_accepted() {
    for text in ["+1", "-1", "-0.5", "+.5", "-5.", "1e5", "1E5", "1e+5", "1e-5", "-1.25e-10", ".5e0", "5.e3", "3e007"] {
        assert!(is_numeric(text), "{:?}", text);
    }
}

#[test]
fn infinities_and_not_a_number_are_accepted_in_any_case() {
    for text in ["inf", "INF", "Inf", "+inf", "-inf", "infinity", "Infinity", "INFINITY", "-iNfInItY", "nan", "NaN", "NAN", "+nan", "-NaN"] {
        assert!(is_numeric(text), "{:?}", text);
    }
}

#[test]
fn texts_without_a_digit_are_refused() {
    for text in ["", "+", "-", ".", "+.", "-.", "e", "e5", ".e5", "+e5", "-.e1"] {
        assert!(!is_numeric(text), "{:?}", text);
    }
}

#[test]
fn broken_exponents_are_refused() {
    for text in ["1e", "1e+", "1e-", "1ee5", "1e5e5", "1e5.", "1e.5", "1e5.0", "1e++5", "1e 5"] {
        assert!(!is_numeric(text), "{:?}", text);
    }
}

#[test]
fn other_texts_are_refused() {
    for text in [
        "1..2", "1.2.3", "++1", "--1", "+-1", "1+", "1-", " 1", "1 ", "1_000", "0x10", "1f", "1.0f64",
        "abc", "O", "in", "infi", "infinit", "infinityy", "na", "nann", "n", "i", "1inf", "inf1",
        "+ inf", "١", "１", "1,5", "½", "1e５",
    ] {
        assert!(!is_numeric(text), "{:?}", text);
    }
}

#[test]
fn notation_agrees_with_the_standard_library_on_samples() {
    let samples = [
        "0", "-0", "+0", "1.5", ".5", "5.", ".", "1e5", "1e", "e1", "1.e1", ".1e1", ".e1", "inf",
        "-inf", "+infinity", "nan", "-nan", "NaN", "Infinity", "INFINITY", "iNf", "infinit", "nane",
        "1e400", "1e-400", "123456789012345678901234567890", "0.000000000000000000000000000001",
        "1.7976931348623157e308", "4.9e-324", "2.5E+10", "+.e", "-", "+", "", " ", "1 2", "1\t",
        "\u{a0}1", "1\u{85}", "٣", "1e٣", "Ｅ", "1Ｅ5", "İnf", "ınf", "\u{212a}", "infinıty",
    ];
    for text in samples {
        assert_eq!(is_numeric(text), by_standard_library(text), "{:?}", text);
    }
}

#[test]
fn notation_agrees_with_the_standard_library_on_every_short_text() {
    let alphabet = [
        '0', '5', '9', '.', 'e', 'E', '+', '-', 'i', 'n', 'f', 'a', 'N', 'y', '_', ' ', 'x', 'é',
    ];
    let mut texts: Vec<String> = vec![String::new()];
    let mut start = 0;
    for _length in 1..=4 {
        let end = texts.len();
        for k in start..end {
            for c in alphabet {
                let mut longer = texts[k].clone();
                longer.push(c);
                texts.push(longer);
            }
        }
        start = end;
    }
    assert_eq!(texts.len(), 1 + 18 + 18 * 18 + 18 * 18 * 18 + 18 * 18 * 18 * 18);
    for text in &texts {
        assert_eq!(is_numeric(text), by_standard_library(text), "{:?}", text);
    }
}

#[test]
fn notation_agrees_with_the_standard_library_on_longer_texts() {
    let alphabet: Vec<char> = "0123456789.eE+-infatyINFATY".chars().collect();
    let mut state: u64 = 0x2545_f491_4f6c_dd1d;
    for _ in 0..60000 {
        state = state.wrapping_mul(6364136223846793005).wrapping_add(1442695040888963407);
        let length = 1 + (state >> 60) as usize;
        let mut text = String::new();
        let mut draw = state;
        for _ in 0..length {
            draw = draw.wrapping_mul(6364136223846793005).wrapping_add(1442695040888963407);
            // Mostly digits, so that many texts are numbers.
            let pick = (draw >> 33) as usize % (alphabet.len() + 30);
            text.push(if pick < alphabet.len() { alphabet[pick] } else { alphabet[pick % 10] });
        }
        assert_eq!(is_numeric(&text), by_standard_library(&text), "{:?}", text);
    }
}
