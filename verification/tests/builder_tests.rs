use jobsuche::{Angebotsart, Arbeitszeit, Befristung, SearchOptions};

#[test]
fn test_builder_basic() {
    let options = SearchOptions::builder()
        .was("Softwareentwickler")
        .wo("Berlin")
        .page(1)
        .size(25)
        .build();

    let query = options.serialize().unwrap();
    assert!(query.contains("was=Softwareentwickler"));
    assert!(query.contains("wo=Berlin"));
    assert!(query.contains("page=1"));
    assert!(query.contains("size=25"));
}

#[test]
fn test_builder_arbeitszeit() {
    let options = SearchOptions::builder()
        .arbeitszeit(vec![Arbeitszeit::Vollzeit, Arbeitszeit::Teilzeit])
        .build();

    let query = options.serialize().unwrap();
    assert!(query.contains("arbeitszeit=vz%3Btz"));
}

#[test]
fn test_size_capping() {
    let options = SearchOptions::builder()
        .size(200) // Should be capped at 100
        .build();

    assert_eq!(options.size(), Some(100));
}

#[test]
fn test_berufsfeld() {
    let options = SearchOptions::builder().berufsfeld("Informatik").build();

    let query = options.serialize().unwrap();
    assert!(query.contains("berufsfeld=Informatik"));
}

#[test]
fn test_arbeitgeber() {
    let options = SearchOptions::builder()
        .arbeitgeber("Deutsche Bahn AG")
        .build();

    let query = options.serialize().unwrap();
    assert!(query.contains("arbeitgeber=Deutsche+Bahn+AG"));
}

#[test]
fn test_veroeffentlichtseit() {
    let options = SearchOptions::builder().veroeffentlichtseit(7).build();

    let query = options.serialize().unwrap();
    assert!(query.contains("veroeffentlichtseit=7"));
}

#[test]
fn test_veroeffentlichtseit_capping() {
    let options = SearchOptions::builder()
        .veroeffentlichtseit(150) // Should be capped at 100
        .build();

    let query = options.serialize().unwrap();
    assert!(query.contains("veroeffentlichtseit=100"));
}

#[test]
fn test_zeitarbeit_true() {
    let options = SearchOptions::builder().zeitarbeit(true).build();

    let query = options.serialize().unwrap();
    assert!(query.contains("zeitarbeit=true"));
}

#[test]
fn test_zeitarbeit_false() {
    let options = SearchOptions::builder().zeitarbeit(false).build();

    let query = options.serialize().unwrap();
    assert!(query.contains("zeitarbeit=false"));
}

#[test]
fn test_angebotsart() {
    let options = SearchOptions::builder()
        .angebotsart(Angebotsart::Arbeit)
        .build();

    let query = options.serialize().unwrap();
    assert!(query.contains("angebotsart=1"));
}

#[test]
fn test_angebotsart_ausbildung() {
    let options = SearchOptions::builder()
        .angebotsart(Angebotsart::Ausbildung)
        .build();

    let query = options.serialize().unwrap();
    assert!(query.contains("angebotsart=4"));
}

#[test]
fn test_befristung_single() {
    let options = SearchOptions::builder()
        .befristung(vec![Befristung::Unbefristet])
        .build();

    let query = options.serialize().unwrap();
    assert!(query.contains("befristung=2"));
}

#[test]
fn test_befristung_multiple() {
    let options = SearchOptions::builder()
        .befristung(vec![Befristung::Befristet, Befristung::Unbefristet])
        .build();

    let query = options.serialize().unwrap();
    assert!(query.contains("befristung=1%3B2"));
}

#[test]
fn test_behinderung() {
    let options = SearchOptions::builder().behinderung(true).build();

    let query = options.serialize().unwrap();
    assert!(query.contains("behinderung=true"));
}

#[test]
fn test_corona() {
    let options = SearchOptions::builder().corona(true).build();

    let query = options.serialize().unwrap();
    assert!(query.contains("corona=true"));
}

#[test]
fn test_umkreis() {
    let options = SearchOptions::builder().wo("Frankfurt").umkreis(50).build();

    let query = options.serialize().unwrap();
    assert!(query.contains("umkreis=50"));
}

#[test]
fn test_as_builder() {
    let original = SearchOptions::builder()
        .was("Developer")
        .wo("Berlin")
        .size(10)
        .build();

    let modified = original
        .as_builder()
        .page(2) // Add page to existing options
        .build();

    let query = modified.serialize().unwrap();
    assert!(query.contains("was=Developer"));
    assert!(query.contains("wo=Berlin"));
    assert!(query.contains("size=10"));
    assert!(query.contains("page=2"));
}

#[test]
fn test_page_getter() {
    let options = SearchOptions::builder().page(5).build();
    assert_eq!(options.page(), Some(5));
}

#[test]
fn test_size_getter() {
    let options = SearchOptions::builder().size(25).build();
    assert_eq!(options.size(), Some(25));
}

#[test]
fn test_page_getter_none() {
    let options = SearchOptions::builder().was("test").build();
    assert_eq!(options.page(), None);
}

#[test]
fn test_size_getter_none() {
    let options = SearchOptions::builder().was("test").build();
    assert_eq!(options.size(), None);
}

#[test]
fn test_serialize_empty() {
    let options = SearchOptions::builder().build();
    assert_eq!(options.serialize(), None);
}

#[test]
fn test_default_search_options() {
    let options = SearchOptions::default();
    assert_eq!(options.serialize(), None);
}

#[test]
fn test_combined_filters() {
    let options = SearchOptions::builder()
        .was("Software Engineer")
        .wo("Munich")
        .arbeitszeit(vec![Arbeitszeit::Vollzeit])
        .befristung(vec![Befristung::Unbefristet])
        .angebotsart(Angebotsart::Arbeit)
        .umkreis(25)
        .size(50)
        .page(1)
        .build();

    let query = options.serialize().unwrap();
    assert!(query.contains("was=Software+Engineer"));
    assert!(query.contains("wo=Munich"));
    assert!(query.contains("arbeitszeit=vz"));
    assert!(query.contains("befristung=2"));
    assert!(query.contains("angebotsart=1"));
    assert!(query.contains("umkreis=25"));
    assert!(query.contains("size=50"));
    assert!(query.contains("page=1"));
}

#[test]
fn test_multiple_arbeitszeit() {
    let options = SearchOptions::builder()
        .arbeitszeit(vec![
            Arbeitszeit::Vollzeit,
            Arbeitszeit::Teilzeit,
            Arbeitszeit::HeimTelearbeit,
        ])
        .build();

    let query = options.serialize().unwrap();
    assert!(query.contains("arbeitszeit=vz%3Btz%3Bho"));
}

#[test]
fn test_arbeitszeit_minijob() {
    let options = SearchOptions::builder()
        .arbeitszeit(vec![Arbeitszeit::Minijob])
        .build();

    let query = options.serialize().unwrap();
    assert!(query.contains("arbeitszeit=mj"));
}

#[test]
fn test_arbeitszeit_schicht() {
    let options = SearchOptions::builder()
        .arbeitszeit(vec![Arbeitszeit::SchichtNachtarbeitWochenende])
        .build();

    let query = options.serialize().unwrap();
    assert!(query.contains("arbeitszeit=snw"));
}

#[test]
fn test_search_options() {
    let options = SearchOptions::builder()
        .was("Developer")
        .wo("Berlin")
        .size(10)
        .build();

    let query = options.serialize();
    assert!(query.is_some());
    let query_str = query.unwrap();
    assert!(query_str.contains("was=Developer"));
    assert!(query_str.contains("wo=Berlin"));
    assert!(query_str.contains("size=10"));
}

#[test]
fn test_unit_search_options_builder() {
    let options = SearchOptions::builder()
        .was("Developer")
        .wo("Berlin")
        .umkreis(50)
        .arbeitszeit(vec![Arbeitszeit::Vollzeit, Arbeitszeit::Teilzeit])
        .page(1)
        .size(25)
        .build();

    let query = options.serialize().unwrap();
    assert!(query.contains("was=Developer"));
    assert!(query.contains("wo=Berlin"));
    assert!(query.contains("umkreis=50"));
    assert!(query.contains("page=1"));
    assert!(query.contains("size=25"));
}
