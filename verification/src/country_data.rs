//! Emission factors of the energy mix of each country.
use vstd::prelude::*;

use crate::text::{same_text, to_uppercase, unicode_uppercase, ascii_upper};
use vstd::utf8::is_ascii_chars;

verus! {

/// Emission factors in milligrams of CO2eq per kWh: one per ISO country
/// code, and the world average for every other code.
pub struct CountryFactors {
    countries: Vec<(String, u64)>,
    world_average: u64,
}

/// The codes of the entries are pairwise distinct.
pub open spec fn codes_distinct(entries: Seq<(String, u64)>) -> bool {
    forall|i: int, j: int|
        0 <= i < entries.len() && 0 <= j < entries.len() && i != j ==> #[trigger] entries[i].0@
            != #[trigger] entries[j].0@
}

/// The map from code to factor that a list of entries stands for.
pub open spec fn entries_map(entries: Seq<(String, u64)>) -> Map<Seq<char>, u64> {
    Map::new(
        |code: Seq<char>| exists|i: int| 0 <= i < entries.len() && #[trigger] entries[i].0@ == code,
        |code: Seq<char>|
            entries[choose|i: int| 0 <= i < entries.len() && #[trigger] entries[i].0@ == code].1,
    )
}

/// With distinct codes, each entry is what the map holds for its code.
proof fn lemma_entry_in_map(entries: Seq<(String, u64)>, i: int)
    requires
        codes_distinct(entries),
        0 <= i < entries.len(),
    ensures
        entries_map(entries).contains_key(entries[i].0@),
        entries_map(entries)[entries[i].0@] == entries[i].1,
{
    let code = entries[i].0@;
    assert(entries_map(entries).dom().contains(code));
    let j = choose|j: int| 0 <= j < entries.len() && #[trigger] entries[j].0@ == code;
    assert(entries[j].0@ == code);
}

/// Writing the entry `(code, factor)` at position `i` of distinct entries,
/// where `i` is the position of `code` or, when no entry has that code, the
/// end, keeps the codes distinct and updates the map at `code`.
proof fn lemma_insert_entry(
    before: Seq<(String, u64)>,
    after: Seq<(String, u64)>,
    i: int,
    code: Seq<char>,
    factor: u64,
)
    requires
        codes_distinct(before),
        0 <= i <= before.len(),
        i < before.len() ==> before[i].0@ == code,
        i == before.len() ==> forall|j: int| 0 <= j < before.len() ==> before[j].0@ != code,
        after.len() == if i < before.len() {
            before.len() as int
        } else {
            before.len() + 1 as int
        },
        after[i].0@ == code,
        after[i].1 == factor,
        forall|j: int| 0 <= j < before.len() && j != i ==> after[j] == before[j],
    ensures
        codes_distinct(after),
        entries_map(after) == entries_map(before).insert(code, factor),
{
    assert forall|a: int, b: int|
        0 <= a < after.len() && 0 <= b < after.len() && a != b implies #[trigger] after[a].0@
            != #[trigger] after[b].0@ by {
        if a != i && b != i {
            assert(after[a] == before[a] && after[b] == before[b]);
        } else if a == i {
            assert(after[b] == before[b]);
        } else {
            assert(after[a] == before[a]);
        }
    }
    let target = entries_map(before).insert(code, factor);
    assert forall|k: Seq<char>| #[trigger] entries_map(after).contains_key(k) == target.contains_key(k) by {
        if entries_map(after).contains_key(k) {
            let j = choose|j: int| 0 <= j < after.len() && #[trigger] after[j].0@ == k;
            if j != i {
                assert(before[j].0@ == k);
            }
        }
        if target.contains_key(k) && k != code {
            let j = choose|j: int| 0 <= j < before.len() && #[trigger] before[j].0@ == k;
            assert(j != i);
            assert(after[j].0@ == k);
        }
        if k == code {
            assert(after[i].0@ == k);
        }
    }
    assert forall|k: Seq<char>| #[trigger] entries_map(after).contains_key(k) implies entries_map(
        after,
    )[k] == target[k] by {
        let j = choose|j: int| 0 <= j < after.len() && #[trigger] after[j].0@ == k;
        lemma_entry_in_map(after, j);
        if j != i {
            assert(after[j] == before[j]);
            lemma_entry_in_map(before, j);
        }
    }
    assert(entries_map(after) =~= target);
}

impl View for CountryFactors {
    type V = Map<Seq<char>, u64>;

    closed spec fn view(&self) -> Map<Seq<char>, u64> {
        entries_map(self.countries@)
    }
}

impl CountryFactors {
    #[verifier::type_invariant]
    closed spec fn well_formed(self) -> bool {
        codes_distinct(self.countries@)
    }

    /// The factor used for codes with no entry.
    pub closed spec fn average(self) -> u64 {
        self.world_average
    }

    /// No country yet, and the given world average.
    pub fn new(world_average: u64) -> (f: CountryFactors)
        ensures
            f@ == Map::<Seq<char>, u64>::empty(),
            f.average() == world_average,
    {
        let f = CountryFactors { countries: Vec::new(), world_average };
        assert(f@ =~= Map::<Seq<char>, u64>::empty());
        f
    }

    /// Each country code with its factor.
    pub fn entries(&self) -> (e: &Vec<(String, u64)>)
        ensures
            entries_map(e@) == self@,
            codes_distinct(e@),
    {
        proof {
            use_type_invariant(self);
        }
        &self.countries
    }

    /// The world average factor.
    pub fn world_average(&self) -> (w: u64)
        ensures
            w == self.average(),
    {
        self.world_average
    }

    /// Sets the factor of a country code, replacing any earlier one.
    pub fn insert(&mut self, code: String, factor: u64)
        ensures
            final(self)@ == old(self)@.insert(code@, factor),
            final(self).average() == old(self).average(),
    {
        proof {
            use_type_invariant(&*self);
        }
        let ghost before = self.countries@;
        let n = self.countries.len();
        let mut i: usize = 0;
        while i < n
            invariant
                n == self.countries@.len(),
                self.countries@ == before,
                before == old(self).countries@,
                self.world_average == old(self).world_average,
                codes_distinct(before),
                i <= n,
                forall|j: int| 0 <= j < i ==> before[j].0@ != code@,
            ensures
                n == self.countries@.len(),
                self.countries@ == before,
                self.world_average == old(self).world_average,
                i <= n,
                forall|j: int| 0 <= j < i ==> before[j].0@ != code@,
                i < n ==> before[i as int].0@ == code@,
            decreases n - i,
        {
            if same_text(self.countries[i].0.as_str(), code.as_str()) {
                break;
            }
            i = i + 1;
        }
        let mut entries: Vec<(String, u64)> = Vec::new();
        std::mem::swap(&mut entries, &mut self.countries);
        if i < n {
            entries.set(i, (code, factor));
        } else {
            entries.push((code, factor));
        }
        proof {
            lemma_insert_entry(before, entries@, i as int, code@, factor);
        }
        self.countries = entries;
    }
}

impl CountryFactors {
    /// The factor recorded for exactly this code, if any (the code is
    /// compared as it is, without any change of case).
    pub fn factor_for(&self, code: &str) -> (r: Option<u64>)
        ensures
            r == (if self@.contains_key(code@) {
                Some(self@[code@])
            } else {
                None
            }),
    {
        proof {
            use_type_invariant(self);
        }
        let n = self.countries.len();
        let mut i: usize = 0;
        while i < n
            invariant
                n == self.countries@.len(),
                codes_distinct(self.countries@),
                i <= n,
                forall|j: int| 0 <= j < i ==> self.countries@[j].0@ != code@,
            decreases n - i,
        {
            if same_text(self.countries[i].0.as_str(), code) {
                proof {
                    lemma_entry_in_map(self.countries@, i as int);
                }
                return Some(self.countries[i].1);
            }
            i = i + 1;
        }
        proof {
            if self@.contains_key(code@) {
                let j = choose|j: int|
                    0 <= j < self.countries@.len() && #[trigger] self.countries@[j].0@ == code@;
                assert(self.countries@[j].0@ == code@);
            }
        }
        None
    }
}

/// The factor that applies to an upper-case country code: its own if it has
/// one, the world average otherwise.
pub open spec fn factor_of_code(factors: CountryFactors, code_upper: Seq<char>) -> u64 {
    if factors@.contains_key(code_upper) {
        factors@[code_upper]
    } else {
        factors.average()
    }
}

/// Emission factor for an ISO country code, in any case (the code is put in
/// upper case with `str::to_uppercase`); the world average if the country is
/// not known.
pub fn get_emission_factor(factors: &CountryFactors, country_code: &str) -> (f: u64)
    ensures
        f == factor_of_code(*factors, unicode_uppercase(country_code@)),
        is_ascii_chars(country_code@) ==> f == factor_of_code(*factors, ascii_upper(country_code@)),
{
    let code = to_uppercase(country_code);
    match factors.factor_for(code.as_str()) {
        Some(f) => f,
        None => factors.world_average(),
    }
}


} // verus!
