use cpf_cnpj::models::DocumentType;
use cpf_cnpj::validation::{
    format_document, get_cpf_region, is_valid, normalize_and_classify, validate_cnpj,
    validate_cpf, validate_document,
};

fn with_digit(s: &str, position: usize, digit: char) -> String {
    s.chars().enumerate().map(|(i, c)| if i == position { digit } else { c }).collect()
}

#[test]
fn from_length_knows_the_two_lengths() {
    assert_eq!(DocumentType::from_length(11), DocumentType::Cpf);
    assert_eq!(DocumentType::from_length(14), DocumentType::Cnpj);
    for len in [0usize, 1, 10, 12, 13, 15, 100, usize::MAX] {
        assert_eq!(DocumentType::from_length(len), DocumentType::Invalid);
    }
}

#[test]
fn normalize_strips_punctuation() {
    let (digits, class) = normalize_and_classify("123.456.789-09");
    assert_eq!(digits, "12345678909");
    assert_eq!(class, DocumentType::Cpf);
    let (digits, class) = normalize_and_classify("11.222.333/0001-81");
    assert_eq!(digits, "11222333000181");
    assert_eq!(class, DocumentType::Cnpj);
}

#[test]
fn normalize_accepts_any_input() {
    assert_eq!(normalize_and_classify(""), (String::new(), DocumentType::Invalid));
    assert_eq!(normalize_and_classify("abc"), (String::new(), DocumentType::Invalid));
    assert_eq!(normalize_and_classify(" \n\t-./"), (String::new(), DocumentType::Invalid));
    assert_eq!(normalize_and_classify("1234567890"), ("1234567890".to_string(), DocumentType::Invalid));
    assert_eq!(
        normalize_and_classify("123456789012"),
        ("123456789012".to_string(), DocumentType::Invalid)
    );
    assert_eq!(
        normalize_and_classify("1234567890123"),
        ("1234567890123".to_string(), DocumentType::Invalid)
    );
    assert_eq!(
        normalize_and_classify("123456789012345"),
        ("123456789012345".to_string(), DocumentType::Invalid)
    );
}

#[test]
fn normalize_keeps_only_ascii_digits() {
    // Arabic-Indic and full-width digits are digits to Unicode, not here.
    let (digits, class) = normalize_and_classify("\u{0661}\u{0662}123\u{ff11}45678909é");
    assert_eq!(digits, "12345678909");
    assert_eq!(class, DocumentType::Cpf);
}

#[test]
fn normalize_keeps_the_order_of_digits() {
    let (digits, _) = normalize_and_classify("9a8b7c6d5e4f3g2h1i0");
    assert_eq!(digits, "9876543210");
}

#[test]
fn normalize_agrees_with_filtering_ascii_digits() {
    let alphabet: Vec<char> = "019 .-/\n$aZ\u{0660}\u{0669}\u{ff10}é€\u{1d7ce}".chars().collect();
    let mut state: u64 = 0x2545f4914f6cdd1d;
    for round in 0..500 {
        let mut raw = String::new();
        for _ in 0..(round % 40) {
            state ^= state << 13;
            state ^= state >> 7;
            state ^= state << 17;
            raw.push(alphabet[(state % alphabet.len() as u64) as usize]);
        }
        let expected: String = raw.chars().filter(|c| ('0'..='9').contains(c)).collect();
        let (digits, class) = normalize_and_classify(&raw);
        assert_eq!(digits, expected, "{:?}", raw);
        assert_eq!(class, DocumentType::from_length(expected.len()));
    }
}

#[test]
fn normalize_is_deterministic() {
    for raw in ["", "abc", "123.456.789-09", "11.222.333/0001-81", "x1y2z3"] {
        assert_eq!(normalize_and_classify(raw), normalize_and_classify(raw));
    }
}

#[test]
fn normalize_is_idempotent() {
    for raw in ["", "abc", "123.456.789-09", "11.222.333/0001-81", "x1y2z3", "00000000000"] {
        let (once, class) = normalize_and_classify(raw);
        let (twice, class_again) = normalize_and_classify(&once);
        assert_eq!(once, twice);
        assert_eq!(class, class_again);
    }
}

#[test]
fn cpf_with_right_check_digits_is_valid() {
    assert!(validate_cpf("12345678909"));
    assert!(validate_cpf("52998224725"));
    assert!(validate_cpf("00007127103"));
}

#[test]
fn cpf_with_wrong_check_digits_is_invalid() {
    assert!(!validate_cpf("12345678900"));
    assert!(!validate_cpf("12345678919"));
    assert!(!validate_cpf("52998224724"));
    assert!(!validate_cpf("52998224735"));
}

#[test]
fn cpf_of_one_repeated_digit_is_invalid() {
    for digit in "0123456789".chars() {
        let cpf: String = std::iter::repeat(digit).take(11).collect();
        assert!(!validate_cpf(&cpf), "{}", cpf);
    }
}

#[test]
fn cpf_check_digits_follow_the_weighted_sums() {
    // 5*10 + 2*9 + 9*8 + 9*7 + 8*6 + 2*5 + 2*4 + 4*3 + 7*2 = 295, 295 % 11 = 9, 11 - 9 = 2.
    // 5*11 + 2*10 + 9*9 + 9*8 + 8*7 + 2*6 + 2*5 + 4*4 + 7*3 + 2*2 = 347, 347 % 11 = 6, 11 - 6 = 5.
    assert!(validate_cpf("52998224725"));
    for first in "0123456789".chars() {
        for second in "0123456789".chars() {
            let cpf = format!("529982247{}{}", first, second);
            assert_eq!(validate_cpf(&cpf), first == '2' && second == '5', "{}", cpf);
        }
    }
}

#[test]
fn nine_digits_completed_with_their_check_digits_are_valid() {
    let check = |sum: u32| if sum % 11 < 2 { 0 } else { 11 - sum % 11 };
    for n in (0..1_000_000_000u32).step_by(7_654_321) {
        let mut digits: Vec<u32> = format!("{:09}", n).chars().map(|c| c as u32 - 48).collect();
        let first = check((0..9).map(|i| digits[i] * (10 - i as u32)).sum());
        digits.push(first);
        let second = check((0..10).map(|i| digits[i] * (11 - i as u32)).sum());
        digits.push(second);
        let cpf: String = digits.iter().map(|d| char::from(b'0' + *d as u8)).collect();
        let repeated = digits.iter().all(|d| *d == digits[0]);
        assert_eq!(validate_cpf(&cpf), !repeated, "{}", cpf);
    }
    // Completing 111111111 gives eleven ones, which the guard refuses.
    assert!(!validate_cpf("11111111111"));
}

#[test]
fn cpf_remainder_below_two_calls_for_zero() {
    // 1*10 + 2*9 + ... + 9*2 = 210, 210 % 11 = 1: the first check digit is 0.
    // 1*11 + 2*10 + ... + 9*3 + 0*2 = 255, 255 % 11 = 2: the second is 9.
    assert!(validate_cpf("12345678909"));
    assert!(!validate_cpf("12345678919"));
}

#[test]
fn changing_one_digit_of_a_cpf_is_detected() {
    let cpf = "52998224725";
    for position in 0..9 {
        for digit in "0123456789".chars() {
            let changed = with_digit(cpf, position, digit);
            assert_eq!(validate_cpf(&changed), changed == cpf, "{}", changed);
        }
    }
}

#[test]
fn some_changes_of_one_digit_go_unseen() {
    // The first remainder moves from 1 to 0, and the first digit has the
    // weight 11 in the second sum.
    assert!(validate_cpf("12345678909"));
    assert!(validate_cpf("22345678909"));
    // Both remainders move between 0 and 1.
    assert!(validate_cpf("00047514000"));
    assert!(validate_cpf("00047714000"));
}

#[test]
fn cnpj_with_right_check_digits_is_valid() {
    assert!(validate_cnpj("11222333000181"));
    assert!(validate_cnpj("11444777000161"));
}

#[test]
fn cnpj_with_wrong_check_digits_is_invalid() {
    assert!(!validate_cnpj("11222333000182"));
    assert!(!validate_cnpj("11222333000191"));
    assert!(!validate_cnpj("12345678901234"));
}

#[test]
fn cnpj_check_digits_follow_the_weight_table() {
    for first in "0123456789".chars() {
        for second in "0123456789".chars() {
            let cnpj = format!("112223330001{}{}", first, second);
            assert_eq!(validate_cnpj(&cnpj), first == '8' && second == '1', "{}", cnpj);
        }
    }
}

#[test]
fn cnpj_of_repeated_zeros_is_not_singled_out() {
    assert!(validate_cnpj("00000000000000"));
    assert!(!validate_cnpj("11111111111111"));
}

#[test]
fn is_valid_goes_by_the_class() {
    assert!(is_valid("12345678909", DocumentType::Cpf));
    assert!(!is_valid("12345678900", DocumentType::Cpf));
    assert!(is_valid("11222333000181", DocumentType::Cnpj));
    assert!(!is_valid("11222333000182", DocumentType::Cnpj));
}

#[test]
fn format_document_punctuates_by_class() {
    assert_eq!(format_document("12345678909", DocumentType::Cpf), "123.456.789-09");
    assert_eq!(format_document("11222333000181", DocumentType::Cnpj), "11.222.333/0001-81");
    assert_eq!(format_document("12345", DocumentType::Invalid), "12345");
    assert_eq!(format_document("", DocumentType::Invalid), "");
}

#[test]
fn format_document_counts_characters() {
    assert_eq!(format_document("123é5678909", DocumentType::Cpf), "123.é56.789-09");
}

#[test]
fn region_is_read_from_the_ninth_digit() {
    let labels = [
        "RS",
        "DF, GO, MS, MT ou TO",
        "AC, AM, AP, PA, RO ou RR",
        "CE, MA ou PI",
        "AL, PB, PE ou RN",
        "BA ou SE",
        "MG",
        "ES ou RJ",
        "SP",
        "PR ou SC",
    ];
    for (digit, label) in labels.iter().enumerate() {
        let cpf = format!("12345678{}09", digit);
        assert_eq!(get_cpf_region(&cpf), Some(label.to_string()));
    }
}

#[test]
fn region_is_absent_without_a_ninth_digit() {
    assert_eq!(get_cpf_region(""), None);
    assert_eq!(get_cpf_region("12345678"), None);
    assert_eq!(get_cpf_region("12345678x09"), None);
    assert_eq!(get_cpf_region("12345678\u{0661}09"), None);
    assert_eq!(get_cpf_region("123456789"), Some("PR ou SC".to_string()));
}

#[test]
fn valid_cpf_with_defaults() {
    let response = validate_document("123.456.789-09", None, None, None).unwrap();
    assert!(response.valid);
    assert_eq!(response.kind, "CPF");
    assert_eq!(response.number, "12345678909");
    assert_eq!(response.formatted, "123.456.789-09");
    assert_eq!(response.anonymized, "***.***.***-**");
    assert_eq!(
        response.anonymized_key,
        Some("cpf_79b5f54918628cc7f6a900a386d14a04".to_string())
    );
    assert!(response.anonymized_key.unwrap().starts_with("cpf_"));
    assert_eq!(response.custom_anonymized, Some("***********".to_string()));
    assert_eq!(response.region, Some("PR ou SC".to_string()));
}

#[test]
fn valid_cnpj_with_defaults() {
    let response = validate_document("11.222.333/0001-81", None, None, None).unwrap();
    assert!(response.valid);
    assert_eq!(response.kind, "CNPJ");
    assert_eq!(response.number, "11222333000181");
    assert_eq!(response.formatted, "11.222.333/0001-81");
    assert_eq!(response.anonymized, "**.***.***/****-**");
    assert_eq!(
        response.anonymized_key,
        Some("cnpj_600a3e5abb3d982ab28186db9de1eb45".to_string())
    );
    assert_eq!(response.custom_anonymized, Some("**************".to_string()));
    assert_eq!(response.region, None);
}

#[test]
fn cnpj_failing_its_checksum_is_reported_invalid() {
    let response = validate_document("11.222.333/0001-82", None, None, None).unwrap();
    assert!(!response.valid);
    assert_eq!(response.kind, "CNPJ");
    assert_eq!(response.number, "11222333000182");
    assert_eq!(response.formatted, "11.222.333/0001-82");
}

#[test]
fn cpf_failing_its_checksum_still_gets_a_response() {
    let response = validate_document("111.111.111-11", None, None, None).unwrap();
    assert!(!response.valid);
    assert_eq!(response.kind, "CPF");
    assert_eq!(response.formatted, "111.111.111-11");
    assert_eq!(response.region, Some("DF, GO, MS, MT ou TO".to_string()));
}

#[test]
fn input_without_a_class_gets_no_response() {
    assert!(validate_document("abc", None, None, None).is_none());
    assert!(validate_document("", None, None, None).is_none());
    assert!(validate_document("1234567890", None, None, None).is_none());
    assert!(validate_document("123456789012", None, None, None).is_none());
    assert!(validate_document("123456789012345", None, None, None).is_none());
}

#[test]
fn validation_reveals_the_ranges_asked_for() {
    let response = validate_document(
        "529.982.247-25",
        Some(vec![(0, 2), (9, 10)]),
        Some('#'),
        Some("sha1"),
    )
    .unwrap();
    assert!(response.valid);
    assert_eq!(response.custom_anonymized, Some("529######25".to_string()));
    assert_eq!(response.anonymized, "529.###.###-25");
    assert_eq!(response.formatted, "529.982.247-25");
}

#[test]
fn absent_selector_means_md5_and_unknown_selector_means_no_key() {
    let absent = validate_document("12345678909", None, None, None).unwrap();
    assert_eq!(absent.anonymized_key, Some("cpf_79b5f54918628cc7f6a900a386d14a04".to_string()));
    let named = validate_document("12345678909", None, None, Some("MD5")).unwrap();
    assert_eq!(named.anonymized_key, absent.anonymized_key);
    let unknown = validate_document("12345678909", None, None, Some("crc32")).unwrap();
    assert_eq!(unknown.anonymized_key, None);
    let empty = validate_document("12345678909", None, None, Some("")).unwrap();
    assert_eq!(empty.anonymized_key, None);
}
