//! The closed sets of values that enumerated search filters can take, each
//! with the text that stands for it on the wire.

use vstd::prelude::*;

verus! {

/// Kind of offer a search is restricted to.
#[derive(Debug, Clone, Copy, PartialEq, Eq, Structural)]
pub enum Angebotsart {
    /// Regular employment.
    Arbeit,
    /// Self-employment.
    Selbstaendigkeit,
    /// Apprenticeship or dual study.
    Ausbildung,
    /// Internship or trainee position.
    PraktikumTrainee,
}

impl Angebotsart {
    /// The wire text of the variant.
    pub open spec fn wire(self) -> Seq<char> {
        match self {
            Angebotsart::Arbeit => "1"@,
            Angebotsart::Selbstaendigkeit => "2"@,
            Angebotsart::Ausbildung => "4"@,
            Angebotsart::PraktikumTrainee => "34"@,
        }
    }

    pub fn as_str(&self) -> (out: &'static str)
        ensures
            out@ == self.wire(),
    {
        match self {
            Angebotsart::Arbeit => "1",
            Angebotsart::Selbstaendigkeit => "2",
            Angebotsart::Ausbildung => "4",
            Angebotsart::PraktikumTrainee => "34",
        }
    }
}

/// Whether a contract is limited in time.
#[derive(Debug, Clone, Copy, PartialEq, Eq, Structural)]
pub enum Befristung {
    /// Fixed-term contract.
    Befristet,
    /// Permanent contract.
    Unbefristet,
}

impl Befristung {
    /// The wire text of the variant.
    pub open spec fn wire(self) -> Seq<char> {
        match self {
            Befristung::Befristet => "1"@,
            Befristung::Unbefristet => "2"@,
        }
    }

    pub fn as_str(&self) -> (out: &'static str)
        ensures
            out@ == self.wire(),
    {
        match self {
            Befristung::Befristet => "1",
            Befristung::Unbefristet => "2",
        }
    }
}

/// Working-time model.
#[derive(Debug, Clone, Copy, PartialEq, Eq, Structural)]
pub enum Arbeitszeit {
    /// Full-time.
    Vollzeit,
    /// Part-time.
    Teilzeit,
    /// Shift, night or weekend work.
    SchichtNachtarbeitWochenende,
    /// Home office or remote work.
    HeimTelearbeit,
    /// Mini job.
    Minijob,
}

impl Arbeitszeit {
    /// The wire text of the variant.
    pub open spec fn wire(self) -> Seq<char> {
        match self {
            Arbeitszeit::Vollzeit => "vz"@,
            Arbeitszeit::Teilzeit => "tz"@,
            Arbeitszeit::SchichtNachtarbeitWochenende => "snw"@,
            Arbeitszeit::HeimTelearbeit => "ho"@,
            Arbeitszeit::Minijob => "mj"@,
        }
    }

    pub fn as_str(&self) -> (out: &'static str)
        ensures
            out@ == self.wire(),
    {
        match self {
            Arbeitszeit::Vollzeit => "vz",
            Arbeitszeit::Teilzeit => "tz",
            Arbeitszeit::SchichtNachtarbeitWochenende => "snw",
            Arbeitszeit::HeimTelearbeit => "ho",
            Arbeitszeit::Minijob => "mj",
        }
    }
}

} // verus!
