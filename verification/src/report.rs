use vstd::prelude::*;

verus! {

/// The outcome of an audit.
#[derive(Debug, Clone)]
pub struct ScanResult {
    pub url: String,
    /// The country code given for the energy mix, as given.
    pub country: Option<String>,
    /// Emission factor used, in milligrams of CO2eq per kWh.
    pub emission_factor_mg: u64,
    pub metrics: Metrics,
    /// EcoIndex score in hundredths of a point, from 0 to 10000.
    pub ecoindex_score: u32,
    pub grade: Grade,
    pub production_ready: bool,
    /// The heaviest resources, heaviest first.
    pub heaviest_resources: Vec<ResourceInfo>,
    /// Local time of the audit, `YYYY-MM-DD HH:MM:SS`.
    pub timestamp: String,
}

/// What was measured of a page.
#[derive(Debug, Clone)]
pub struct Metrics {
    /// Total weight of the page and its resources, in bytes.
    pub page_size_bytes: usize,
    pub nb_requests: usize,
    pub dom_size: usize,
    /// Estimated carbon footprint, in 1/1024 of a nanogram of CO2eq.
    pub estimated_carbon: u128,
}

/// One resource of a page, with its type and the advice for it.
#[derive(Debug, Clone)]
pub struct ResourceInfo {
    pub url: String,
    pub size_bytes: usize,
    pub resource_type: String,
    pub recommendation: String,
}

/// EcoIndex grade, from `A` (best) to `F` (worst).
#[derive(Debug, Clone, Copy, PartialEq, Eq, Structural)]
pub enum Grade {
    A,
    B,
    C,
    D,
    E,
    F,
}

/// Position of a grade in the scale: 0 for `A` up to 5 for `F`.
pub open spec fn grade_rank(g: Grade) -> int {
    match g {
        Grade::A => 0,
        Grade::B => 1,
        Grade::C => 2,
        Grade::D => 3,
        Grade::E => 4,
        Grade::F => 5,
    }
}

/// The grade of a score given in hundredths of a point (8000 stands for 80.00).
pub open spec fn grade_of_score(score: int) -> Grade {
    if score >= 8000 {
        Grade::A
    } else if score >= 6500 {
        Grade::B
    } else if score >= 5000 {
        Grade::C
    } else if score >= 3500 {
        Grade::D
    } else if score >= 2000 {
        Grade::E
    } else {
        Grade::F
    }
}

/// Whether a page of this grade may go to production.
pub open spec fn grade_allows_production(g: Grade) -> bool {
    g == Grade::A || g == Grade::B
}

pub open spec fn grade_label(g: Grade) -> Seq<char> {
    match g {
        Grade::A => "A"@,
        Grade::B => "B"@,
        Grade::C => "C"@,
        Grade::D => "D"@,
        Grade::E => "E"@,
        Grade::F => "F"@,
    }
}

pub open spec fn grade_message(g: Grade) -> Seq<char> {
    match g {
        Grade::A => "EXCELLENT - Empreinte minimale"@,
        Grade::B => "BON - Quelques optimisations possibles"@,
        Grade::C => "MOYEN - Impact notable"@,
        Grade::D => "MEDIOCRE - Forte empreinte carbone"@,
        Grade::E => "MAUVAIS - Impact environnemental critique"@,
        Grade::F => "CRITIQUE - Catastrophe ecologique numerique"@,
    }
}

pub open spec fn grade_production_text(g: Grade) -> Seq<char> {
    match g {
        Grade::A => "Autorise pour la production."@,
        Grade::B => "Autorise pour la production."@,
        Grade::C => "Optimisez avant la mise en production."@,
        Grade::D => "Deconseille sans refonte."@,
        Grade::E => "Interdiction de deploiement."@,
        Grade::F => "Refonte totale requise."@,
    }
}

impl Grade {
    /// Grade of an EcoIndex score given in hundredths of a point:
    /// A from 80, B from 65, C from 50, D from 35, E from 20, F below.
    pub fn from_score(score: u32) -> (g: Grade)
        ensures
            g == grade_of_score(score as int),
    {
        if score >= 8000 {
            Grade::A
        } else if score >= 6500 {
            Grade::B
        } else if score >= 5000 {
            Grade::C
        } else if score >= 3500 {
            Grade::D
        } else if score >= 2000 {
            Grade::E
        } else {
            Grade::F
        }
    }

    /// The grade's letter.
    pub fn label(&self) -> (s: &'static str)
        ensures
            s@ == grade_label(*self),
    {
        match self {
            Grade::A => "A",
            Grade::B => "B",
            Grade::C => "C",
            Grade::D => "D",
            Grade::E => "E",
            Grade::F => "F",
        }
    }

    /// The grade's appraisal.
    pub fn message(&self) -> (s: &'static str)
        ensures
            s@ == grade_message(*self),
    {
        match self {
            Grade::A => "EXCELLENT - Empreinte minimale",
            Grade::B => "BON - Quelques optimisations possibles",
            Grade::C => "MOYEN - Impact notable",
            Grade::D => "MEDIOCRE - Forte empreinte carbone",
            Grade::E => "MAUVAIS - Impact environnemental critique",
            Grade::F => "CRITIQUE - Catastrophe ecologique numerique",
        }
    }

    /// The deployment advice for the grade, and whether production is allowed.
    pub fn production_message(&self) -> (r: (&'static str, bool))
        ensures
            r.0@ == grade_production_text(*self),
            r.1 == grade_allows_production(*self),
    {
        match self {
            Grade::A => ("Autorise pour la production.", true),
            Grade::B => ("Autorise pour la production.", true),
            Grade::C => ("Optimisez avant la mise en production.", false),
            Grade::D => ("Deconseille sans refonte.", false),
            Grade::E => ("Interdiction de deploiement.", false),
            Grade::F => ("Refonte totale requise.", false),
        }
    }
}

} // verus!
