use qrkit::encoder::EccLevel;
use qrkit::options::OutputType;

#[test]
fn ecc_letters_in_either_case() {
    assert_eq!(EccLevel::from_str("L"), Ok(EccLevel::Low));
    assert_eq!(EccLevel::from_str("l"), Ok(EccLevel::Low));
    assert_eq!(EccLevel::from_str("M"), Ok(EccLevel::Medium));
    assert_eq!(EccLevel::from_str("m"), Ok(EccLevel::Medium));
    assert_eq!(EccLevel::from_str("Q"), Ok(EccLevel::Quartile));
    assert_eq!(EccLevel::from_str("q"), Ok(EccLevel::Quartile));
    assert_eq!(EccLevel::from_str("H"), Ok(EccLevel::High));
    assert_eq!(EccLevel::from_str("h"), Ok(EccLevel::High));
}

#[test]
fn ecc_other_words_are_refused() {
    let message = "Invalid error correction level. Use L, M, Q, or H.".to_string();
    for word in ["", "x", "LL", "low", " l", "l ", "1", "\u{212a}", "\u{13d}"] {
        assert_eq!(EccLevel::from_str(word), Err(message.clone()));
    }
}

#[test]
fn ecc_agrees_with_unicode_lowercase() {
    for word in ["L", "l", "M", "Q", "h", "K", "\u{212a}", "\u{130}", "lm", "", "Hh"] {
        let expected = match word.to_lowercase().as_str() {
            "l" => Some(EccLevel::Low),
            "m" => Some(EccLevel::Medium),
            "q" => Some(EccLevel::Quartile),
            "h" => Some(EccLevel::High),
            _ => None,
        };
        assert_eq!(EccLevel::from_str(word).ok(), expected);
    }
}

#[test]
fn output_type_words_in_any_case() {
    assert_eq!(OutputType::from_str("Text"), Ok(OutputType::TXT));
    assert_eq!(OutputType::from_str("text"), Ok(OutputType::TXT));
    assert_eq!(OutputType::from_str("TEXT"), Ok(OutputType::TXT));
    assert_eq!(OutputType::from_str("tExT"), Ok(OutputType::TXT));
    assert_eq!(OutputType::from_str("SVG"), Ok(OutputType::SVG));
    assert_eq!(OutputType::from_str("svg"), Ok(OutputType::SVG));
    assert_eq!(OutputType::from_str("PNG"), Ok(OutputType::PNG));
    assert_eq!(OutputType::from_str("Png"), Ok(OutputType::PNG));
}

#[test]
fn output_type_other_words_are_refused_with_the_word() {
    assert_eq!(
        OutputType::from_str("jpeg"),
        Err("Unknown output type: jpeg. Use Text, SVG or PNG".to_string())
    );
    assert_eq!(
        OutputType::from_str(""),
        Err("Unknown output type: . Use Text, SVG or PNG".to_string())
    );
    assert_eq!(
        OutputType::from_str("TXT"),
        Err("Unknown output type: TXT. Use Text, SVG or PNG".to_string())
    );
    assert_eq!(
        OutputType::from_str("te\u{d7}t"),
        Err("Unknown output type: te\u{d7}t. Use Text, SVG or PNG".to_string())
    );
    assert_eq!(
        OutputType::from_str("text "),
        Err("Unknown output type: text . Use Text, SVG or PNG".to_string())
    );
}
