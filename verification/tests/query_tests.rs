use jobsuche::params::ParamMap;
use jobsuche::text::{parse_u64, u64_to_string};
use jobsuche::{Angebotsart, Arbeitszeit, Befristung, Param, SearchOptions};

#[test]
fn query_lists_parameters_by_name() {
    let options = SearchOptions::builder()
        .zeitarbeit(false)
        .wo("Berlin")
        .was("Softwareentwickler")
        .veroeffentlichtseit(30)
        .umkreis(50)
        .size(25)
        .page(1)
        .corona(true)
        .berufsfeld("Informatik")
        .behinderung(false)
        .befristung(vec![Befristung::Befristet, Befristung::Unbefristet])
        .arbeitszeit(vec![Arbeitszeit::Vollzeit, Arbeitszeit::Minijob])
        .arbeitgeber("Deutsche Bahn AG")
        .angebotsart(Angebotsart::PraktikumTrainee)
        .build();

    assert_eq!(
        options.serialize().unwrap(),
        "angebotsart=34&arbeitgeber=Deutsche+Bahn+AG&arbeitszeit=vz%3Bmj&befristung=1%3B2\
         &behinderung=false&berufsfeld=Informatik&corona=true&page=1&size=25&umkreis=50\
         &veroeffentlichtseit=30&was=Softwareentwickler&wo=Berlin&zeitarbeit=false"
    );
}

#[test]
fn insertion_order_does_not_show() {
    let one = SearchOptions::builder()
        .was("Rust")
        .wo("Köln")
        .size(10)
        .page(3)
        .build();
    let other = SearchOptions::builder()
        .page(3)
        .size(10)
        .wo("Köln")
        .was("Rust")
        .build();

    assert_eq!(one.serialize(), other.serialize());
    assert_eq!(
        one.serialize().unwrap(),
        "page=3&size=10&was=Rust&wo=K%C3%B6ln"
    );
}

#[test]
fn later_assignment_replaces_earlier() {
    let options = SearchOptions::builder()
        .was("first")
        .page(1)
        .was("second")
        .build();

    assert_eq!(options.serialize().unwrap(), "page=1&was=second");
}

#[test]
fn form_encoding_of_reserved_bytes() {
    let options = SearchOptions::builder()
        .was("a b+c&d=e/f?g%h*i-j.k_l~m")
        .build();

    assert_eq!(
        options.serialize().unwrap(),
        "was=a+b%2Bc%26d%3De%2Ff%3Fg%25h*i-j.k_l%7Em"
    );
}

#[test]
fn empty_values_still_make_a_query() {
    let options = SearchOptions::builder().was("").build();
    assert_eq!(options.serialize().unwrap(), "was=");

    let none: Vec<Arbeitszeit> = Vec::new();
    let options = SearchOptions::builder().arbeitszeit(none).build();
    assert_eq!(options.serialize().unwrap(), "arbeitszeit=");
}

#[test]
fn size_cap_at_the_edge() {
    assert_eq!(SearchOptions::builder().size(100).build().size(), Some(100));
    assert_eq!(SearchOptions::builder().size(101).build().size(), Some(100));
    assert_eq!(SearchOptions::builder().size(99).build().size(), Some(99));
    assert_eq!(SearchOptions::builder().size(0).build().size(), Some(0));
    assert_eq!(
        SearchOptions::builder().size(u64::MAX).build().serialize().unwrap(),
        "size=100"
    );
}

#[test]
fn page_and_radius_are_not_capped() {
    let options = SearchOptions::builder().page(u64::MAX).umkreis(250).build();
    assert_eq!(options.page(), Some(u64::MAX));
    assert_eq!(
        options.serialize().unwrap(),
        "page=18446744073709551615&umkreis=250"
    );
}

#[test]
fn build_copies_what_is_staged() {
    let mut builder = SearchOptions::builder();
    builder.was("one");
    let first = builder.build();
    builder.was("two").wo("Bonn");
    let second = builder.build();

    assert_eq!(first.serialize().unwrap(), "was=one");
    assert_eq!(second.serialize().unwrap(), "was=two&wo=Bonn");
}

#[test]
fn as_builder_leaves_the_criteria_alone() {
    let first = SearchOptions::builder().was("Developer").size(10).build();
    let changed = first.as_builder().was("Tester").size(500).build();

    assert_eq!(first.serialize().unwrap(), "size=10&was=Developer");
    assert_eq!(changed.serialize().unwrap(), "size=100&was=Tester");
    assert_eq!(first.clone().serialize(), first.serialize());
}

#[test]
fn param_map_keeps_one_value_per_name() {
    let map = ParamMap::new();
    assert!(map.is_empty());
    assert!(map.get(Param::Was).is_none());

    let map = map
        .with(Param::Wo, "Ulm".to_string())
        .with(Param::Angebotsart, "1".to_string())
        .with(Param::Wo, "Jena".to_string());

    assert!(!map.is_empty());
    assert_eq!(map.get(Param::Wo).map(|v| v.as_str()), Some("Jena"));
    assert_eq!(map.get(Param::Angebotsart).map(|v| v.as_str()), Some("1"));
    assert!(map.get(Param::Zeitarbeit).is_none());
    assert_eq!(
        map.pairs(),
        vec![
            ("angebotsart".to_string(), "1".to_string()),
            ("wo".to_string(), "Jena".to_string()),
        ]
    );
}

#[test]
fn param_names_stand_in_dictionary_order() {
    let all = [
        Param::Angebotsart,
        Param::Arbeitgeber,
        Param::Arbeitszeit,
        Param::Befristung,
        Param::Behinderung,
        Param::Berufsfeld,
        Param::Corona,
        Param::Page,
        Param::Size,
        Param::Umkreis,
        Param::Veroeffentlichtseit,
        Param::Was,
        Param::Wo,
        Param::Zeitarbeit,
    ];
    for (i, param) in all.iter().enumerate() {
        assert_eq!(param.index() as usize, i);
    }
    for pair in all.windows(2) {
        assert!(pair[0].name() < pair[1].name());
    }
}

#[test]
fn decimal_text_of_numbers() {
    assert_eq!(u64_to_string(0), "0");
    assert_eq!(u64_to_string(7), "7");
    assert_eq!(u64_to_string(10), "10");
    assert_eq!(u64_to_string(1234567890), "1234567890");
    assert_eq!(u64_to_string(u64::MAX), "18446744073709551615");
}

#[test]
fn numbers_read_from_text() {
    assert_eq!(parse_u64("0"), Some(0));
    assert_eq!(parse_u64("60"), Some(60));
    assert_eq!(parse_u64("+60"), Some(60));
    assert_eq!(parse_u64("007"), Some(7));
    assert_eq!(parse_u64("18446744073709551615"), Some(u64::MAX));
    assert_eq!(parse_u64("18446744073709551616"), None);
    assert_eq!(parse_u64("99999999999999999999999"), None);
    assert_eq!(parse_u64(""), None);
    assert_eq!(parse_u64("+"), None);
    assert_eq!(parse_u64("++1"), None);
    assert_eq!(parse_u64("-1"), None);
    assert_eq!(parse_u64(" 1"), None);
    assert_eq!(parse_u64("1 "), None);
    assert_eq!(parse_u64("1_000"), None);
    assert_eq!(parse_u64("12a"), None);
    assert_eq!(parse_u64("١٢"), None);
}

#[test]
fn numbers_read_as_std_reads_them() {
    let samples = [
        "0", "1", "+1", "-1", "", "+", "00", "0x10", "1e3", "18446744073709551615",
        "18446744073709551616", " 5", "5 ", "٣", "12345678901234567890123", "+0",
    ];
    for text in samples {
        assert_eq!(parse_u64(text), text.parse::<u64>().ok(), "{:?}", text);
    }
    for n in [0u64, 9, 10, 99, 100, 101, 65535, 4294967296, u64::MAX - 1, u64::MAX] {
        assert_eq!(u64_to_string(n), n.to_string());
        assert_eq!(parse_u64(&u64_to_string(n)), Some(n));
    }
}

/// The form encoding of one byte, by the rule.
fn expected_form_byte(byte: u8) -> String {
    match byte {
        b'*' | b'-' | b'.' | b'_' | b'0'..=b'9' | b'A'..=b'Z' | b'a'..=b'z' => {
            (byte as char).to_string()
        }
        b' ' => "+".to_string(),
        _ => format!("%{:02X}", byte),
    }
}

#[test]
fn form_encoding_of_every_ascii_character() {
    for byte in 0u8..128 {
        let value = (byte as char).to_string();
        let options = SearchOptions::builder().wo(&value).build();
        assert_eq!(
            options.serialize().unwrap(),
            format!("wo={}", expected_form_byte(byte)),
            "byte {}",
            byte
        );
    }
}

#[test]
fn form_encoding_goes_by_utf8_bytes() {
    for value in ["München", "Köln/Bonn", "€", "日本", "😀 job", "a\u{80}\u{7ff}\u{800}\u{ffff}"] {
        let expected: String = value.bytes().map(expected_form_byte).collect();
        let options = SearchOptions::builder().arbeitgeber(value).build();
        assert_eq!(
            options.serialize().unwrap(),
            format!("arbeitgeber={}", expected)
        );
    }
}
