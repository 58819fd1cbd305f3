use vstd::prelude::*;

verus! {

/// The address block of a provider candidate.
#[derive(Clone, Debug, PartialEq)]
pub struct RawAddress {
    pub country_name: Option<String>,
    pub state: Option<String>,
    pub county: Option<String>,
    pub city: Option<String>,
    pub district: Option<String>,
    pub street: Option<String>,
    pub postal_code: Option<String>,
    pub house_number: Option<String>,
}

/// The position block of a provider candidate, in units of 1e-7 degree.
#[derive(Clone, Copy, Debug, PartialEq)]
pub struct RawPosition {
    pub lat: Option<i64>,
    pub lng: Option<i64>,
}

/// One provider result. The query score is given in millionths.
#[derive(Clone, Debug, PartialEq)]
pub struct RawCandidate {
    pub address: Option<RawAddress>,
    pub position: Option<RawPosition>,
    pub query_score: Option<u64>,
}

/// The normalized location record; every field is independently optional.
/// Latitude and longitude are in units of 1e-7 degree.
#[derive(Debug, PartialEq)]
pub struct GeocodeParsedResult {
    pub quarter: Option<String>,
    pub street: Option<String>,
    pub house_number: Option<String>,
    pub zipcode: Option<String>,
    pub latitude: Option<i64>,
    pub longitude: Option<i64>,
    pub city: Option<String>,
    pub state: Option<String>,
    pub county: Option<String>,
    pub country: Option<String>,
}

/// The record with every field absent: no usable location.
pub open spec fn empty_result() -> GeocodeParsedResult {
    GeocodeParsedResult {
        quarter: None,
        street: None,
        house_number: None,
        zipcode: None,
        latitude: None,
        longitude: None,
        city: None,
        state: None,
        county: None,
        country: None,
    }
}

/// A candidate is usable when it has both an address and a position.
pub open spec fn is_complete(c: RawCandidate) -> bool {
    c.address is Some && c.position is Some
}

/// The ranking of a candidate: a missing score ranks below every present one.
pub open spec fn rank(c: RawCandidate) -> int {
    match c.query_score {
        Some(s) => s as int + 1,
        None => 0,
    }
}

/// Index `i` holds the winner: complete, of maximal rank among complete
/// candidates, and the first such in input order.
pub open spec fn is_choice(s: Seq<RawCandidate>, i: int) -> bool {
    &&& 0 <= i < s.len()
    &&& is_complete(s[i])
    &&& forall|j: int| 0 <= j < s.len() && is_complete(s[j]) ==> rank(#[trigger] s[j]) <= rank(s[i])
    &&& forall|j: int| 0 <= j < i && is_complete(s[j]) ==> rank(#[trigger] s[j]) < rank(s[i])
}

pub open spec fn has_complete(s: Seq<RawCandidate>) -> bool {
    exists|j: int| 0 <= j < s.len() && is_complete(#[trigger] s[j])
}

/// The fixed field correspondence from a complete candidate to a record.
pub open spec fn normalized(c: RawCandidate) -> GeocodeParsedResult {
    let a = c.address.unwrap();
    let p = c.position.unwrap();
    GeocodeParsedResult {
        quarter: a.district,
        street: a.street,
        house_number: a.house_number,
        zipcode: a.postal_code,
        latitude: p.lat,
        longitude: p.lng,
        city: a.city,
        state: a.state,
        county: a.county,
        country: a.country_name,
    }
}

impl Clone for GeocodeParsedResult {
    fn clone(&self) -> (r: Self)
        ensures
            r == *self,
    {
        GeocodeParsedResult {
            quarter: self.quarter.clone(),
            street: self.street.clone(),
            house_number: self.house_number.clone(),
            zipcode: self.zipcode.clone(),
            latitude: self.latitude,
            longitude: self.longitude,
            city: self.city.clone(),
            state: self.state.clone(),
            county: self.county.clone(),
            country: self.country.clone(),
        }
    }
}

impl GeocodeParsedResult {
    pub fn empty() -> (r: Self)
        ensures
            r == empty_result(),
    {
        GeocodeParsedResult {
            quarter: None,
            street: None,
            house_number: None,
            zipcode: None,
            latitude: None,
            longitude: None,
            city: None,
            state: None,
            county: None,
            country: None,
        }
    }
}

pub fn candidate_is_complete(c: &RawCandidate) -> (r: bool)
    ensures
        r == is_complete(*c),
{
    c.address.is_some() && c.position.is_some()
}

fn score_rank(c: &RawCandidate) -> (r: u128)
    ensures
        r as int == rank(*c),
{
    match c.query_score {
        Some(s) => s as u128 + 1,
        None => 0,
    }
}

/// The index of the first complete candidate of highest score, if any is complete.
pub fn get_max_qs_item(items: &Vec<RawCandidate>) -> (r: Option<usize>)
    ensures
        match r {
            None => !has_complete(items@),
            Some(i) => is_choice(items@, i as int),
        },
{
    let mut best: Option<usize> = None;
    let mut i: usize = 0;
    while i < items.len()
        invariant
            i <= items@.len(),
            match best {
                None => forall|j: int| 0 <= j < i ==> !is_complete(#[trigger] items@[j]),
                Some(b) => b < i && is_complete(items@[b as int])
                    && (forall|j: int| 0 <= j < i && is_complete(#[trigger] items@[j]) ==> rank(items@[j]) <= rank(items@[b as int]))
                    && (forall|j: int| 0 <= j < b && is_complete(#[trigger] items@[j]) ==> rank(items@[j]) < rank(items@[b as int])),
            },
        decreases items@.len() - i,
    {
        let c = &items[i];
        if candidate_is_complete(c) {
            match best {
                None => {
                    best = Some(i);
                },
                Some(b) => {
                    if score_rank(c) > score_rank(&items[b]) {
                        best = Some(i);
                    }
                },
            }
        }
        i = i + 1;
    }
    best
}

/// Maps the chosen candidate into a record, or gives the empty record.
pub fn get_result(chosen: Option<&RawCandidate>) -> (r: GeocodeParsedResult)
    requires
        chosen matches Some(c) ==> is_complete(*c),
    ensures
        r == match chosen {
            Some(c) => normalized(*c),
            None => empty_result(),
        },
{
    match chosen {
        Some(c) => {
            let a = c.address.as_ref().unwrap();
            let p = c.position.as_ref().unwrap();
            GeocodeParsedResult {
                quarter: a.district.clone(),
                street: a.street.clone(),
                house_number: a.house_number.clone(),
                zipcode: a.postal_code.clone(),
                latitude: p.lat,
                longitude: p.lng,
                city: a.city.clone(),
                state: a.state.clone(),
                county: a.county.clone(),
                country: a.country_name.clone(),
            }
        },
        None => GeocodeParsedResult::empty(),
    }
}

/// Picks the best complete candidate and normalizes it; the empty record
/// when no candidate is complete.
pub fn select(items: &Vec<RawCandidate>) -> (r: GeocodeParsedResult)
    ensures
        !has_complete(items@) ==> r == empty_result(),
        has_complete(items@) ==> exists|i: int| is_choice(items@, i) && r == normalized(#[trigger] items@[i]),
        forall|i: int| is_choice(items@, i) ==> r == normalized(#[trigger] items@[i]),
{
    match get_max_qs_item(items) {
        Some(i) => {
            proof {
                lemma_choice_unique(items@, i as int);
            }
            get_result(Some(&items[i]))
        },
        None => get_result(None),
    }
}

/// At most one index is the winner.
pub proof fn lemma_choice_unique(s: Seq<RawCandidate>, i: int)
    requires
        is_choice(s, i),
    ensures
        forall|k: int| #[trigger] is_choice(s, k) ==> k == i,
{
    assert forall|k: int| #[trigger] is_choice(s, k) implies k == i by {
        if k < i {
            assert(rank(s[k]) < rank(s[i]));
            assert(rank(s[i]) <= rank(s[k]));
        } else if i < k {
            assert(rank(s[i]) < rank(s[k]));
            assert(rank(s[k]) <= rank(s[i]));
        }
    }
}

} // verus!
