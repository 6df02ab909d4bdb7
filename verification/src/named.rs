//! Plants addressed by their name: the `Plant` and `Water` tables and the
//! answers to `GET /plant`, `GET /plant/{name}`, `GET /water/{plant}` and
//! `PUT /water/{plant}/{humidity}`.
//!
//! Names are matched as the database's `UPPER(name) = UPPER(?)` does (see
//! [`crate::names`]); the latest watering is the one with the greatest stamp.

use crate::clock::{now_stamp, Stamp};
use crate::error::{not_found, RequestError};
use crate::humidity::Humidity;
use crate::ids::{next_id, next_id_of};
use crate::names::{names_match, same_name};
use vstd::prelude::*;

verus! {

/// A row of the `Plant` table.
#[derive(Debug, PartialEq, Eq)]
pub struct Plant {
    pub id: i64,
    pub name: String,
}

impl Plant {
    /// A plant with the given id and name.
    pub fn new(id: i64, name: &str) -> (plant: Plant)
        ensures
            plant.id == id,
            plant.name@ == name@,
    {
        Plant { id, name: name.to_owned() }
    }
}

impl Clone for Plant {
    fn clone(&self) -> (copy: Self)
        ensures
            copy == *self,
    {
        Plant { id: self.id, name: self.name.clone() }
    }
}

/// A row of the `Water` table: one humidity reading of the plant with id
/// `plant`, taken at `stamp`.
#[derive(Debug, Clone, Copy, PartialEq, Eq)]
pub struct Water {
    pub id: i64,
    pub plant: i64,
    pub humidity: Humidity,
    pub stamp: Stamp,
}

/// The two tables, rows in the order in which they were stored.
pub struct Store {
    pub plants: Vec<Plant>,
    pub waters: Vec<Water>,
}

/// The message of a refused `GET /plant/{name}`.
pub open spec fn no_such_plant_message(name: Seq<char>) -> Seq<char> {
    "No such Plant with name "@ + name
}

/// The message of a refused `GET /water/{plant}` or `PUT /water/..`.
pub open spec fn no_such_watered_plant_message(name: Seq<char>) -> Seq<char> {
    "No such plant with name "@ + name
}

/// Plant `i` is the first row whose name matches `name`.
pub open spec fn is_first_named(plants: Seq<Plant>, name: Seq<char>, i: int) -> bool {
    &&& 0 <= i < plants.len()
    &&& same_name(plants[i].name@, name)
    &&& forall|j: int| 0 <= j < i ==> !same_name(#[trigger] plants[j].name@, name)
}

/// Some plant has a name that matches `name`.
pub open spec fn has_named(plants: Seq<Plant>, name: Seq<char>) -> bool {
    exists|k: int| 0 <= k < plants.len() && same_name(#[trigger] plants[k].name@, name)
}

/// Plant id `id` belongs to a plant whose name matches `name`.
pub open spec fn id_named(plants: Seq<Plant>, id: i64, name: Seq<char>) -> bool {
    exists|k: int| 0 <= k < plants.len() && #[trigger] plants[k].id == id && same_name(plants[k].name@, name)
}

/// Among the first `n` waterings, watering `i` is the latest one of a plant
/// named `name`: no watering of such a plant has a greater stamp, and each
/// one stored after it has a smaller stamp.
pub open spec fn is_latest_upto(plants: Seq<Plant>, waters: Seq<Water>, name: Seq<char>, i: int, n: int) -> bool {
    &&& 0 <= i < n <= waters.len()
    &&& id_named(plants, waters[i].plant, name)
    &&& forall|j: int| 0 <= j < n && id_named(plants, #[trigger] waters[j].plant, name) ==> {
        &&& waters[j].stamp <= waters[i].stamp
        &&& (i < j ==> waters[j].stamp < waters[i].stamp)
    }
}

/// Watering `i` is the latest one of a plant named `name`.
pub open spec fn is_latest(plants: Seq<Plant>, waters: Seq<Water>, name: Seq<char>, i: int) -> bool {
    is_latest_upto(plants, waters, name, i, waters.len() as int)
}

/// Some watering belongs to a plant named `name`.
pub open spec fn has_watering(plants: Seq<Plant>, waters: Seq<Water>, name: Seq<char>) -> bool {
    exists|j: int| 0 <= j < waters.len() && id_named(plants, #[trigger] waters[j].plant, name)
}

/// The latest watering is unique.
pub proof fn lemma_latest_unique(plants: Seq<Plant>, waters: Seq<Water>, name: Seq<char>, i: int, k: int)
    requires
        is_latest(plants, waters, name, i),
        is_latest(plants, waters, name, k),
    ensures
        i == k,
{
    if i < k {
        assert(waters[k].stamp < waters[i].stamp);
        assert(waters[i].stamp <= waters[k].stamp);
    } else if k < i {
        assert(waters[i].stamp < waters[k].stamp);
        assert(waters[k].stamp <= waters[i].stamp);
    }
}

/// A plant that matches `name` is found exactly when one exists, and the
/// one found comes no later in the table than any other match.
pub proof fn lemma_first_named_is_earliest(plants: Seq<Plant>, name: Seq<char>)
    ensures
        has_named(plants, name) <==> exists|i: int| is_first_named(plants, name, i),
        forall|i: int, j: int| #[trigger] is_first_named(plants, name, i) && 0 <= j < plants.len()
            && same_name(#[trigger] plants[j].name@, name) ==> i <= j,
    decreases plants.len(),
{
    if has_named(plants, name) {
        let rest = plants.drop_last();
        if has_named(rest, name) {
            lemma_first_named_is_earliest(rest, name);
            let i = choose|i: int| is_first_named(rest, name, i);
            assert(rest[i] == plants[i]);
            assert forall|j: int| 0 <= j < i implies !same_name(#[trigger] plants[j].name@, name) by {
                assert(rest[j] == plants[j]);
            }
            assert(is_first_named(plants, name, i));
        } else {
            let n = plants.len() - 1;
            let k = choose|k: int| 0 <= k < plants.len() && same_name(#[trigger] plants[k].name@, name);
            if k < n {
                assert(rest[k] == plants[k]);
            }
            assert forall|j: int| 0 <= j < n implies !same_name(#[trigger] plants[j].name@, name) by {
                assert(rest[j] == plants[j]);
            }
            assert(is_first_named(plants, name, n));
        }
    }
}

/// The answer to a water request is a watering of some plant whose name
/// matches, and no watering of any plant whose name matches (not only the
/// first such plant) has a later stamp.
pub proof fn lemma_latest_characterised(plants: Seq<Plant>, waters: Seq<Water>, name: Seq<char>, i: int)
    requires
        is_latest(plants, waters, name, i),
    ensures
        exists|k: int| 0 <= k < plants.len() && #[trigger] plants[k].id == waters[i].plant
            && same_name(plants[k].name@, name),
        forall|j: int, k: int| 0 <= j < waters.len() && 0 <= k < plants.len()
            && #[trigger] plants[k].id == #[trigger] waters[j].plant && same_name(plants[k].name@, name)
            ==> waters[j].stamp <= waters[i].stamp,
{
    assert forall|j: int, k: int| 0 <= j < waters.len() && 0 <= k < plants.len()
        && #[trigger] plants[k].id == #[trigger] waters[j].plant && same_name(plants[k].name@, name)
        implies waters[j].stamp <= waters[i].stamp by {
        assert(id_named(plants, waters[j].plant, name));
    }
}

/// Names are matched without regard to the case of ASCII letters: two names
/// that agree after upper-casing find the same plant and the same latest
/// watering.
pub proof fn lemma_names_ignore_case(plants: Seq<Plant>, waters: Seq<Water>, a: Seq<char>, b: Seq<char>)
    requires
        same_name(a, b),
    ensures
        has_named(plants, a) == has_named(plants, b),
        forall|i: int| is_first_named(plants, a, i) == is_first_named(plants, b, i),
        has_watering(plants, waters, a) == has_watering(plants, waters, b),
        forall|i: int| is_latest(plants, waters, a, i) == is_latest(plants, waters, b, i),
{
    assert forall|x: Seq<char>| same_name(x, a) == same_name(x, b) by {}
    assert forall|id: i64| id_named(plants, id, a) == id_named(plants, id, b) by {}
}

/// Once a watering of the first plant named `name` is stored, asking for
/// the water of any spelling that matches `name` finds one, whatever the
/// clock said.
pub proof fn lemma_put_then_found(plants: Seq<Plant>, waters: Seq<Water>, w: Water, name: Seq<char>, query: Seq<char>)
    requires
        exists|i: int| is_first_named(plants, name, i) && w.plant == plants[i].id,
        same_name(name, query),
    ensures
        has_watering(plants, waters.push(w), query),
{
    let after = waters.push(w);
    let i = choose|i: int| is_first_named(plants, name, i) && w.plant == plants[i].id;
    assert(id_named(plants, w.plant, query));
    assert(after[waters.len() as int] == w);
}

/// What is written is read back: after a watering `w` of the first plant
/// named `name` is stored, and no earlier watering of a plant so named has
/// a later stamp, the latest watering for any spelling of `name` that
/// matches it is `w`, and no other.
pub proof fn lemma_put_then_get(plants: Seq<Plant>, waters: Seq<Water>, w: Water, name: Seq<char>, query: Seq<char>)
    requires
        exists|i: int| is_first_named(plants, name, i) && w.plant == plants[i].id,
        same_name(name, query),
        forall|j: int| 0 <= j < waters.len() && id_named(plants, #[trigger] waters[j].plant, query)
            ==> waters[j].stamp <= w.stamp,
    ensures
        is_latest(plants, waters.push(w), query, waters.len() as int),
        has_watering(plants, waters.push(w), query),
        forall|k: int| is_latest(plants, waters.push(w), query, k) ==> k == waters.len(),
{
    let after = waters.push(w);
    let n = waters.len() as int;
    let i = choose|i: int| is_first_named(plants, name, i) && w.plant == plants[i].id;
    assert(id_named(plants, w.plant, query));
    assert(after[n] == w);
    assert forall|j: int| 0 <= j < after.len() && id_named(plants, #[trigger] after[j].plant, query) implies {
        &&& after[j].stamp <= after[n].stamp
        &&& (n < j ==> after[j].stamp < after[n].stamp)
    } by {
        if j < n {
            assert(after[j] == waters[j]);
        }
    }
    assert(is_latest(plants, after, query, n));
    assert forall|k: int| is_latest(plants, after, query, k) implies k == n by {
        lemma_latest_unique(plants, after, query, k, n);
    }
}

/// Storing a watering of one plant leaves the answer for every name that
/// does not denote that plant as it was.
pub proof fn lemma_put_keeps_others(plants: Seq<Plant>, waters: Seq<Water>, w: Water, query: Seq<char>)
    requires
        !id_named(plants, w.plant, query),
    ensures
        has_watering(plants, waters.push(w), query) == has_watering(plants, waters, query),
        forall|k: int| is_latest(plants, waters.push(w), query, k) == is_latest(plants, waters, query, k),
{
    let after = waters.push(w);
    let n = waters.len() as int;
    assert forall|j: int| 0 <= j < n implies #[trigger] after[j] == waters[j] by {}
    if has_watering(plants, after, query) {
        let j = choose|j: int| 0 <= j < after.len() && id_named(plants, #[trigger] after[j].plant, query);
        assert(j < n);
        assert(id_named(plants, waters[j].plant, query));
    }
    if has_watering(plants, waters, query) {
        let j = choose|j: int| 0 <= j < waters.len() && id_named(plants, #[trigger] waters[j].plant, query);
        assert(id_named(plants, after[j].plant, query));
    }
    assert forall|k: int| is_latest(plants, after, query, k) == is_latest(plants, waters, query, k) by {
        if is_latest(plants, after, query, k) {
            assert(k < n);
            assert forall|j: int| 0 <= j < n && id_named(plants, #[trigger] waters[j].plant, query) implies {
                &&& waters[j].stamp <= waters[k].stamp
                &&& (k < j ==> waters[j].stamp < waters[k].stamp)
            } by {
                assert(after[j] == waters[j]);
            }
        }
        if is_latest(plants, waters, query, k) {
            assert forall|j: int| 0 <= j < after.len() && id_named(plants, #[trigger] after[j].plant, query) implies {
                &&& after[j].stamp <= after[k].stamp
                &&& (k < j ==> after[j].stamp < after[k].stamp)
            } by {
                if j == n {
                    assert(after[j] == w);
                }
            }
        }
    }
}

/// The ids of the waterings, in table order.
pub open spec fn water_ids(waters: Seq<Water>) -> Seq<i64> {
    waters.map_values(|w: Water| w.id)
}

impl Store {
    /// The answer to `GET /plant`: every plant, in table order.
    pub fn get_plants(&self) -> (plants: Vec<Plant>)
        ensures
            plants@ == self.plants@,
    {
        let mut plants: Vec<Plant> = Vec::new();
        for i in 0..self.plants.len()
            invariant
                plants@ == self.plants@.take(i as int),
        {
            plants.push(self.plants[i].clone());
            assert(plants@ =~= self.plants@.take(i + 1));
        }
        assert(self.plants@.take(self.plants@.len() as int) =~= self.plants@);
        plants
    }

    /// The index of the first plant whose name matches `name`.
    fn find_named(&self, name: &str) -> (found: Option<usize>)
        ensures
            found matches Some(i) ==> is_first_named(self.plants@, name@, i as int),
            found is None <==> !has_named(self.plants@, name@),
    {
        for i in 0..self.plants.len()
            invariant
                forall|j: int| 0 <= j < i ==> !same_name(#[trigger] self.plants@[j].name@, name@),
        {
            if names_match(self.plants[i].name.as_str(), name) {
                return Some(i);
            }
        }
        None
    }

    /// The answer to `GET /plant/{name}`: the first plant whose name matches
    /// `name` without regard to the case of ASCII letters, or a 404 error.
    pub fn get_plant(&self, name: &str) -> (answer: Result<Plant, RequestError>)
        ensures
            match answer {
                Ok(plant) => exists|i: int| is_first_named(self.plants@, name@, i) && plant == self.plants@[i],
                Err(e) => !has_named(self.plants@, name@) && e is NotFound
                    && e->NotFound_0@ == no_such_plant_message(name@),
            },
            answer is Ok <==> has_named(self.plants@, name@),
    {
        match self.find_named(name) {
            Some(i) => Ok(self.plants[i].clone()),
            None => Err(not_found("No such Plant with name ", name)),
        }
    }

    /// The ids of the plants whose name matches `name`.
    fn ids_named(&self, name: &str) -> (ids: Vec<i64>)
        ensures
            forall|id: i64| ids@.contains(id) <==> id_named(self.plants@, id, name@),
    {
        let mut ids: Vec<i64> = Vec::new();
        for i in 0..self.plants.len()
            invariant
                forall|id: i64| ids@.contains(id) <==> exists|k: int|
                    0 <= k < i && #[trigger] self.plants@[k].id == id && same_name(self.plants@[k].name@, name@),
        {
            if names_match(self.plants[i].name.as_str(), name) {
                let ghost before = ids@;
                ids.push(self.plants[i].id);
                assert forall|id: i64| ids@.contains(id) <==> exists|k: int|
                    0 <= k < i + 1 && #[trigger] self.plants@[k].id == id && same_name(self.plants@[k].name@, name@) by {
                    if ids@.contains(id) && id != self.plants@[i as int].id {
                        let m = choose|m: int| 0 <= m < ids@.len() && ids@[m] == id;
                        assert(before[m] == id);
                        assert(before.contains(id));
                    }
                    if id == self.plants@[i as int].id {
                        assert(ids@[before.len() as int] == id);
                    }
                    if id != self.plants@[i as int].id && (exists|k: int|
                        0 <= k < i + 1 && #[trigger] self.plants@[k].id == id && same_name(self.plants@[k].name@, name@)) {
                        let k = choose|k: int|
                            0 <= k < i + 1 && #[trigger] self.plants@[k].id == id && same_name(self.plants@[k].name@, name@);
                        assert(k < i);
                        assert(before.contains(id));
                        let m = choose|m: int| 0 <= m < before.len() && before[m] == id;
                        assert(ids@[m] == id);
                    }
                }
            } else {
                assert forall|id: i64| (exists|k: int|
                    0 <= k < i + 1 && #[trigger] self.plants@[k].id == id && same_name(self.plants@[k].name@, name@))
                    implies ids@.contains(id) by {
                    let k = choose|k: int|
                        0 <= k < i + 1 && #[trigger] self.plants@[k].id == id && same_name(self.plants@[k].name@, name@);
                    assert(k < i);
                }
            }
        }
        ids
    }

    /// The index of the latest watering of a plant named `name`.
    fn find_latest(&self, name: &str) -> (found: Option<usize>)
        ensures
            found matches Some(i) ==> is_latest(self.plants@, self.waters@, name@, i as int),
            found is None <==> !has_watering(self.plants@, self.waters@, name@),
    {
        let ids = self.ids_named(name);
        let mut best: Option<usize> = None;
        for i in 0..self.waters.len()
            invariant
                forall|id: i64| ids@.contains(id) <==> id_named(self.plants@, id, name@),
                best matches Some(b) ==> is_latest_upto(self.plants@, self.waters@, name@, b as int, i as int),
                best is None ==> forall|j: int| 0 <= j < i ==> !id_named(self.plants@, #[trigger] self.waters@[j].plant, name@),
        {
            let w = self.waters[i];
            if contains_id(&ids, w.plant) {
                match best {
                    None => {
                        best = Some(i);
                    },
                    Some(b) => {
                        if self.waters[b].stamp <= w.stamp {
                            best = Some(i);
                        }
                    },
                }
            }
        }
        best
    }

    /// The answer to `GET /water/{plant}`: the humidity of the latest
    /// watering of a plant whose name matches `plant`, or a 404 error when
    /// no such plant has ever been watered.
    pub fn get_water(&self, plant: &str) -> (answer: Result<Humidity, RequestError>)
        ensures
            match answer {
                Ok(h) => exists|i: int| is_latest(self.plants@, self.waters@, plant@, i) && h == self.waters@[i].humidity,
                Err(e) => !has_watering(self.plants@, self.waters@, plant@) && e is NotFound
                    && e->NotFound_0@ == no_such_watered_plant_message(plant@),
            },
            answer is Ok <==> has_watering(self.plants@, self.waters@, plant@),
    {
        match self.find_latest(plant) {
            Some(i) => Ok(self.waters[i].humidity),
            None => Err(not_found("No such plant with name ", plant)),
        }
    }

    /// The id for the next watering (see [`next_id`]).
    pub fn next_water_id(&self) -> (id: Option<i64>)
        ensures
            id == next_id(water_ids(self.waters@)),
    {
        let mut ids: Vec<i64> = Vec::new();
        for i in 0..self.waters.len()
            invariant
                ids@ == water_ids(self.waters@.take(i as int)),
        {
            ids.push(self.waters[i].id);
            assert(ids@ =~= water_ids(self.waters@.take(i + 1)));
        }
        assert(self.waters@.take(self.waters@.len() as int) =~= self.waters@);
        next_id_of(&ids)
    }

    /// Stores a watering of the first plant whose name matches `plant`,
    /// stamped `stamp`, and returns it. A 404 error when no plant matches, a
    /// 500 error when no id is left; the store is then unchanged.
    pub fn put_water_at(&mut self, plant: &str, humidity: Humidity, stamp: Stamp) -> (answer: Result<Water, RequestError>)
        ensures
            final(self).plants@ == old(self).plants@,
            match answer {
                Ok(w) => {
                    &&& exists|i: int| is_first_named(old(self).plants@, plant@, i) && w.plant == old(self).plants@[i].id
                    &&& w.humidity == humidity
                    &&& w.stamp == stamp
                    &&& Some(w.id) == next_id(water_ids(old(self).waters@))
                    &&& final(self).waters@ == old(self).waters@.push(w)
                },
                Err(e) => {
                    &&& final(self).waters@ == old(self).waters@
                    &&& !has_named(old(self).plants@, plant@) ==> e is NotFound
                        && e->NotFound_0@ == no_such_watered_plant_message(plant@)
                    &&& has_named(old(self).plants@, plant@) ==> e is Internal
                        && next_id(water_ids(old(self).waters@)) is None
                },
            },
            answer is Ok <==> has_named(old(self).plants@, plant@) && next_id(water_ids(old(self).waters@)) is Some,
    {
        match self.find_named(plant) {
            None => Err(not_found("No such plant with name ", plant)),
            Some(i) => {
                match self.next_water_id() {
                    None => Err(RequestError::Internal),
                    Some(id) => {
                        let w = Water { id, plant: self.plants[i].id, humidity, stamp };
                        self.waters.push(w);
                        Ok(w)
                    },
                }
            },
        }
    }

    /// The answer to `PUT /water/{plant}/{humidity}`: [`Store::put_water_at`]
    /// with the current time ([`now_stamp`]) as the stamp. A 404 error when no
    /// plant matches, a 500 error when no id is left; the store is then
    /// unchanged.
    pub fn put_water(&mut self, plant: &str, humidity: Humidity) -> (answer: Result<Water, RequestError>)
        ensures
            final(self).plants@ == old(self).plants@,
            match answer {
                Ok(w) => {
                    &&& exists|i: int| is_first_named(old(self).plants@, plant@, i) && w.plant == old(self).plants@[i].id
                    &&& w.humidity == humidity
                    &&& Some(w.id) == next_id(water_ids(old(self).waters@))
                    &&& final(self).waters@ == old(self).waters@.push(w)
                },
                Err(e) => {
                    &&& final(self).waters@ == old(self).waters@
                    &&& !has_named(old(self).plants@, plant@) ==> e is NotFound
                        && e->NotFound_0@ == no_such_watered_plant_message(plant@)
                    &&& has_named(old(self).plants@, plant@) ==> e is Internal
                        && next_id(water_ids(old(self).waters@)) is None
                },
            },
            answer is Ok <==> has_named(old(self).plants@, plant@) && next_id(water_ids(old(self).waters@)) is Some,
    {
        let stamp = now_stamp();
        self.put_water_at(plant, humidity, stamp)
    }
}

/// Whether `id` occurs in `ids`.
fn contains_id(ids: &Vec<i64>, id: i64) -> (found: bool)
    ensures
        found == ids@.contains(id),
{
    for i in 0..ids.len()
        invariant
            forall|j: int| 0 <= j < i ==> ids@[j] != id,
    {
        if ids[i] == id {
            return true;
        }
    }
    false
}

} // verus!
