use jobsuche::endpoints::{employer_logo_url, job_details_url, search_url};
use jobsuche::{decode_refnr, encode_refnr, ClientCore, Credentials, Error, SearchOptions};

const HOST: &str = "https://rest.arbeitsagentur.de/jobboerse/jobsuche-service";

#[test]
fn test_encode_refnr() {
    let refnr = "10001-1001601666-S";
    let encoded = encode_refnr(refnr);
    assert_eq!(encoded, "MTAwMDEtMTAwMTYwMTY2Ni1T");
}

#[test]
fn test_decode_refnr() {
    let encoded = "MTAwMDEtMTAwMTYwMTY2Ni1T";
    let decoded = decode_refnr(encoded).unwrap();
    assert_eq!(decoded, "10001-1001601666-S");
}

#[test]
fn test_roundtrip() {
    let refnr = "10000-1184867112-S";
    let encoded = encode_refnr(refnr);
    let decoded = decode_refnr(&encoded).unwrap();
    assert_eq!(refnr, decoded);
}

#[test]
fn test_refnr_encoding() {
    let refnr = "10001-1001601666-S";
    let encoded = encode_refnr(refnr);
    assert_eq!(encoded, "MTAwMDEtMTAwMTYwMTY2Ni1T");

    let decoded = decode_refnr(&encoded).unwrap();
    assert_eq!(decoded, refnr);
}

#[test]
fn test_unit_base64_encoding() {
    let refnr = "10001-1001601666-S";
    let encoded = encode_refnr(refnr);
    assert_eq!(encoded, "MTAwMDEtMTAwMTYwMTY2Ni1T");

    let decoded = decode_refnr(&encoded).unwrap();
    assert_eq!(decoded, refnr);
}

#[test]
fn refnr_roundtrip_over_printable_ascii() {
    let all: String = (0x20u8..0x7f).map(|b| b as char).collect();
    assert_eq!(decode_refnr(&encode_refnr(&all)).unwrap(), all);

    for len in 0..all.len() {
        let part = &all[..len];
        assert_eq!(decode_refnr(&encode_refnr(part)).unwrap(), part);
        let part = &all[len..];
        assert_eq!(decode_refnr(&encode_refnr(part)).unwrap(), part);
    }
    assert_eq!(decode_refnr(&encode_refnr("Bäcker/in 10€")).unwrap(), "Bäcker/in 10€");
}

#[test]
fn refnr_padding() {
    assert_eq!(encode_refnr(""), "");
    assert_eq!(encode_refnr("a"), "YQ==");
    assert_eq!(encode_refnr("ab"), "YWI=");
    assert_eq!(encode_refnr("abc"), "YWJj");
    assert_eq!(encode_refnr("~~~"), "fn5+");
    assert_eq!(encode_refnr("???"), "Pz8/");

    assert_eq!(decode_refnr("").unwrap(), "");
    assert_eq!(decode_refnr("YQ==").unwrap(), "a");
    assert_eq!(decode_refnr("YWI=").unwrap(), "ab");
}

#[test]
fn refnr_that_is_no_base64() {
    for text in ["YQ", "YQ=", "Y", "YQ==YQ==", "YW J", "fn5-", "YR=="] {
        match decode_refnr(text) {
            Err(Error::Base64Error(_)) => {}
            other => panic!("Expected Base64Error for {:?}, got: {:?}", text, other),
        }
    }
}

#[test]
fn refnr_bytes_that_are_no_text() {
    // "/w==" stands for the single byte 0xFF.
    assert_eq!(decode_refnr("/w==").unwrap(), "\u{FFFD}");
    // 'a', 0xFF, 'b'
    assert_eq!(decode_refnr("Yf9i").unwrap(), "a\u{FFFD}b");
}

#[test]
fn test_with_core() {
    let core = ClientCore::new(HOST, Credentials::default());
    assert!(core.is_ok());
}

#[test]
fn test_with_config_and_core() {
    let core = ClientCore::new(HOST, Credentials::default()).unwrap();
    assert_eq!(core.host, HOST);
    assert_eq!(core.api_key(), "jobboerse-jobsuche");
}

#[test]
fn test_client_creation() {
    let core = ClientCore::new(HOST, Credentials::default());
    assert!(core.is_ok());
}

#[test]
fn test_invalid_url() {
    let core = ClientCore::new("not a url", Credentials::default());
    assert!(core.is_err());
    assert!(matches!(core.unwrap_err(), Error::ParseError(_)));
}

#[test]
fn host_is_kept_as_the_url_reads() {
    let core = ClientCore::new("HTTPS://Example.COM", Credentials::default()).unwrap();
    assert_eq!(core.host, "https://example.com/");

    let own = Credentials::ApiKey("secret-key".to_string());
    let core = ClientCore::new("http://localhost:8080/base", own).unwrap();
    assert_eq!(core.host, "http://localhost:8080/base");
    assert_eq!(core.api_key(), "secret-key");
    let copy = core.clone();
    assert_eq!(copy.host, core.host);
    assert_eq!(copy.api_key(), "secret-key");
}

#[test]
fn path_appends_segments() {
    let core = ClientCore::new(HOST, Credentials::default()).unwrap();
    assert!(core.can_have_path());
    assert!(core.fits(&["pc", "v4", "jobs"]));
    assert_eq!(
        core.path(&["pc", "v4", "jobs"]),
        "https://rest.arbeitsagentur.de/jobboerse/jobsuche-service/pc/v4/jobs"
    );
    assert_eq!(core.path(&[]), HOST);
    assert_eq!(
        core.try_path(&["a b", "c/d", "e%f"]).unwrap(),
        "https://rest.arbeitsagentur.de/jobboerse/jobsuche-service/a%20b/c%2Fd/e%25f"
    );

    let root = ClientCore::new("http://127.0.0.1:1234", Credentials::default()).unwrap();
    assert_eq!(root.path(&["pc", "v4"]), "http://127.0.0.1:1234/pc/v4");
}

#[test]
fn host_without_a_path() {
    let core = ClientCore::new("mailto:jobs@example.com", Credentials::default()).unwrap();
    assert!(!core.can_have_path());
    assert_eq!(core.try_path(&["pc"]), None);
    assert_eq!(search_url(&core, &SearchOptions::default()), None);
    assert_eq!(job_details_url(&core, "x"), None);
    assert_eq!(employer_logo_url(&core, "x"), None);

    let broken = ClientCore {
        host: "no url at all".to_string(),
        credentials: Credentials::default(),
    };
    assert!(!broken.can_have_path());
    assert_eq!(broken.try_path(&["pc"]), None);
}

#[test]
fn segments_that_are_too_long() {
    let core = ClientCore::new(HOST, Credentials::default()).unwrap();
    let long = "x".repeat(0x1000_0000);
    assert!(!core.fits(&[long.as_str()]));
    assert_eq!(core.try_path(&[long.as_str()]), None);
    assert_eq!(employer_logo_url(&core, &long), None);
    let longer = "x".repeat(0x1000_0001);
    assert_eq!(job_details_url(&core, &longer), None);
}

#[test]
fn test_search_with_mock() {
    let core = ClientCore::new("http://127.0.0.1:1234", Credentials::default()).unwrap();
    let options = SearchOptions::builder()
        .was("Rust Developer")
        .size(10)
        .build();

    assert_eq!(
        search_url(&core, &options).unwrap(),
        "http://127.0.0.1:1234/pc/v4/jobs?size=10&was=Rust+Developer"
    );
}

#[test]
fn test_search_with_filters_mock() {
    let core = ClientCore::new("http://127.0.0.1:1234", Credentials::default()).unwrap();
    let options = SearchOptions::builder()
        .was("Developer")
        .wo("Hamburg")
        .umkreis(50)
        .arbeitszeit(vec![jobsuche::Arbeitszeit::Vollzeit])
        .build();

    assert_eq!(
        search_url(&core, &options).unwrap(),
        "http://127.0.0.1:1234/pc/v4/jobs?arbeitszeit=vz&umkreis=50&was=Developer&wo=Hamburg"
    );
}

#[test]
fn search_without_criteria_has_no_query() {
    let core = ClientCore::new(HOST, Credentials::default()).unwrap();
    assert_eq!(
        search_url(&core, &SearchOptions::default()).unwrap(),
        "https://rest.arbeitsagentur.de/jobboerse/jobsuche-service/pc/v4/jobs"
    );
}

#[test]
fn test_job_details_mock() {
    let core = ClientCore::new("http://127.0.0.1:1234", Credentials::default()).unwrap();

    // The refnr will be base64 encoded
    let encoded_ref = "MTAwMDEtREVUQUlMUy1T"; // base64("10001-DETAILS-S")

    assert_eq!(
        job_details_url(&core, "10001-DETAILS-S").unwrap(),
        format!("http://127.0.0.1:1234/pc/v4/jobdetails/{}", encoded_ref)
    );
}

#[test]
fn job_details_url_escapes_what_base64_brings() {
    let core = ClientCore::new("http://127.0.0.1:1234", Credentials::default()).unwrap();
    // "???" is "Pz8/" in base64, and the slash must not open a new segment.
    assert_eq!(
        job_details_url(&core, "???").unwrap(),
        "http://127.0.0.1:1234/pc/v4/jobdetails/Pz8%2F"
    );
    assert_eq!(
        job_details_url(&core, "a").unwrap(),
        "http://127.0.0.1:1234/pc/v4/jobdetails/YQ=="
    );
}

#[test]
fn test_employer_logo_success() {
    let core = ClientCore::new("http://127.0.0.1:1234", Credentials::default()).unwrap();
    assert_eq!(
        employer_logo_url(&core, "test-hash").unwrap(),
        "http://127.0.0.1:1234/ed/v1/arbeitgeberlogo/test-hash"
    );
}

#[test]
fn credentials_default_is_the_public_key() {
    assert_eq!(Credentials::default().key(), "jobboerse-jobsuche");
    let own = Credentials::ApiKey("k".to_string());
    assert_eq!(own.clone().key(), "k");
}

#[test]
fn headers_of_requests() {
    let own = Credentials::ApiKey("secret-key".to_string());
    let core = ClientCore::new("http://localhost:8080", own).unwrap();
    assert_eq!(
        jobsuche::endpoints::json_headers(&core),
        vec![
            ("X-API-Key", "secret-key".to_string()),
            ("Content-Type", "application/json".to_string()),
            ("Accept", "application/json".to_string()),
        ]
    );
    assert_eq!(
        jobsuche::endpoints::logo_headers(&core),
        vec![
            ("X-API-Key", "secret-key".to_string()),
            ("Accept", "image/png".to_string()),
        ]
    );
}

#[test]
fn test_create_client() {
    let core = ClientCore::new(
        "https://rest.arbeitsagentur.de/jobboerse/jobsuche-service",
        Credentials::default(),
    );
    assert!(core.is_ok());
}
