//! Where a transaction took place: city, state and country.

use crate::text::{lemma_text_before_connected, lemma_text_before_transitive, str_before, text_before};
use std::cmp::Ordering;
use vstd::prelude::*;
use vstd::std_specs::cmp::{PartialEqSpecImpl, PartialOrdSpecImpl};

verus! {

/// A place, as three free texts.
#[derive(Debug, Eq, Ord)]
pub struct Location {
    city: String,
    state: String,
    country: String,
}

/// What a `Location` holds.
pub struct LocationModel {
    pub city: Seq<char>,
    pub state: Seq<char>,
    pub country: Seq<char>,
}

impl View for Location {
    type V = LocationModel;

    closed spec fn view(&self) -> LocationModel {
        LocationModel { city: self.city@, state: self.state@, country: self.country@ }
    }
}

/// The order of places: by city, then by state, then by country, each as
/// text.
pub open spec fn location_before(a: LocationModel, b: LocationModel) -> bool {
    if a.city != b.city {
        text_before(a.city, b.city)
    } else if a.state != b.state {
        text_before(a.state, b.state)
    } else {
        text_before(a.country, b.country)
    }
}

/// A place as it is written: its three texts in square brackets, with
/// commas between them.
pub open spec fn location_text(l: LocationModel) -> Seq<char> {
    seq!['['] + l.city + seq![','] + l.state + seq![','] + l.country + seq![']']
}

/// Of two different places exactly one comes before the other, and no
/// place comes before itself.
pub proof fn lemma_location_before_connected(a: LocationModel, b: LocationModel)
    ensures
        a != b ==> (location_before(a, b) <==> !location_before(b, a)),
        a == b ==> !location_before(a, b) && !location_before(b, a),
{
    lemma_text_before_connected(a.city, b.city);
    lemma_text_before_connected(a.state, b.state);
    lemma_text_before_connected(a.country, b.country);
}

/// The order of places is transitive.
pub proof fn lemma_location_before_transitive(a: LocationModel, b: LocationModel, c: LocationModel)
    requires
        location_before(a, b),
        location_before(b, c),
    ensures
        location_before(a, c),
{
    lemma_text_before_connected(a.city, c.city);
    lemma_text_before_connected(a.state, c.state);
    if text_before(a.city, b.city) && text_before(b.city, c.city) {
        lemma_text_before_transitive(a.city, b.city, c.city);
    }
    if text_before(a.state, b.state) && text_before(b.state, c.state) {
        lemma_text_before_transitive(a.state, b.state, c.state);
    }
    if text_before(a.country, b.country) && text_before(b.country, c.country) {
        lemma_text_before_transitive(a.country, b.country, c.country);
    }
}

impl Location {
    /// Sets the city.
    pub fn city<'a, 'b>(&'a mut self, city: &'b str) -> (ret: &'a mut Self)
        ensures
            ret@ == (LocationModel { city: city@, ..old(self)@ }),
            *final(self) == *final(ret),
    {
        self.city = city.to_owned();
        self
    }

    pub fn get_city(&self) -> (city: &str)
        ensures
            city@ == self@.city,
    {
        self.city.as_str()
    }

    /// Sets the state.
    pub fn state<'a, 'b>(&'a mut self, state: &'b str) -> (ret: &'a mut Self)
        ensures
            ret@ == (LocationModel { state: state@, ..old(self)@ }),
            *final(self) == *final(ret),
    {
        self.state = state.to_owned();
        self
    }

    pub fn get_state(&self) -> (state: &str)
        ensures
            state@ == self@.state,
    {
        self.state.as_str()
    }

    /// Sets the country.
    pub fn country<'a, 'b>(&'a mut self, country: &'b str) -> (ret: &'a mut Self)
        ensures
            ret@ == (LocationModel { country: country@, ..old(self)@ }),
            *final(self) == *final(ret),
    {
        self.country = country.to_owned();
        self
    }

    pub fn get_country(&self) -> (country: &str)
        ensures
            country@ == self@.country,
    {
        self.country.as_str()
    }

    /// The place as text, as in `[Naperville,IL,USA]`.
    pub fn to_string(&self) -> (s: String)
        ensures
            s@ == location_text(self@),
    {
        let mut s = String::from_str("[");
        s.append(self.city.as_str());
        s.append(",");
        s.append(self.state.as_str());
        s.append(",");
        s.append(self.country.as_str());
        s.append("]");
        proof {
            reveal_strlit("[");
            reveal_strlit(",");
            reveal_strlit("]");
        }
        s
    }
}

impl Default for Location {
    fn default() -> (l: Self)
        ensures
            l@ == (LocationModel { city: seq![], state: seq![], country: seq![] }),
    {
        Location { city: String::new(), state: String::new(), country: String::new() }
    }
}

impl Clone for Location {
    fn clone(&self) -> (l: Self)
        ensures
            l@ == self@,
    {
        Location {
            city: self.city.clone(),
            state: self.state.clone(),
            country: self.country.clone(),
        }
    }
}

impl PartialEq for Location {
    fn eq(&self, other: &Self) -> (r: bool) {
        self.city == other.city && self.state == other.state && self.country == other.country
    }
}

impl PartialEqSpecImpl for Location {
    open spec fn obeys_eq_spec() -> bool {
        true
    }

    open spec fn eq_spec(&self, other: &Self) -> bool {
        self@ == other@
    }
}

impl PartialOrd for Location {
    fn partial_cmp(&self, other: &Self) -> (r: Option<Ordering>) {
        let before = if self.city != other.city {
            str_before(self.city.as_str(), other.city.as_str())
        } else if self.state != other.state {
            str_before(self.state.as_str(), other.state.as_str())
        } else if self.country != other.country {
            str_before(self.country.as_str(), other.country.as_str())
        } else {
            proof {
                lemma_location_before_connected(self@, other@);
            }
            return Some(Ordering::Equal);
        };
        if before {
            Some(Ordering::Less)
        } else {
            Some(Ordering::Greater)
        }
    }
}

impl PartialOrdSpecImpl for Location {
    open spec fn obeys_partial_cmp_spec() -> bool {
        true
    }

    open spec fn partial_cmp_spec(&self, other: &Self) -> Option<Ordering> {
        if location_before(self@, other@) {
            Some(Ordering::Less)
        } else if self@ == other@ {
            Some(Ordering::Equal)
        } else {
            Some(Ordering::Greater)
        }
    }
}

} // verus!
