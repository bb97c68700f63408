use jobsuche::rep::{Angebotsart, Arbeitszeit, Befristung};

#[test]
fn test_angebotsart_as_str() {
    assert_eq!(Angebotsart::Arbeit.as_str(), "1");
    assert_eq!(Angebotsart::Selbstaendigkeit.as_str(), "2");
    assert_eq!(Angebotsart::Ausbildung.as_str(), "4");
    assert_eq!(Angebotsart::PraktikumTrainee.as_str(), "34");
}

#[test]
fn test_befristung_as_str() {
    assert_eq!(Befristung::Befristet.as_str(), "1");
    assert_eq!(Befristung::Unbefristet.as_str(), "2");
}

#[test]
fn test_arbeitszeit_as_str() {
    assert_eq!(Arbeitszeit::Vollzeit.as_str(), "vz");
    assert_eq!(Arbeitszeit::Teilzeit.as_str(), "tz");
    assert_eq!(Arbeitszeit::SchichtNachtarbeitWochenende.as_str(), "snw");
    assert_eq!(Arbeitszeit::HeimTelearbeit.as_str(), "ho");
    assert_eq!(Arbeitszeit::Minijob.as_str(), "mj");
}

#[test]
fn test_angebotsart_equality() {
    assert_eq!(Angebotsart::Arbeit, Angebotsart::Arbeit);
    assert_ne!(Angebotsart::Arbeit, Angebotsart::Ausbildung);
}

#[test]
fn test_befristung_equality() {
    assert_eq!(Befristung::Befristet, Befristung::Befristet);
    assert_ne!(Befristung::Befristet, Befristung::Unbefristet);
}

#[test]
fn test_arbeitszeit_equality() {
    assert_eq!(Arbeitszeit::Vollzeit, Arbeitszeit::Vollzeit);
    assert_ne!(Arbeitszeit::Vollzeit, Arbeitszeit::Teilzeit);
}
