//! Plants addressed by device and sensor: the answers to `GET /plant/{iot}`,
//! `GET /plant/{iot}/{sensor}`, `GET /water/{iot}/{sensor}` and `PUT /water`.

use crate::clock::{now_stamp, Stamp};
use crate::error::RequestError;
use crate::humidity::{is_nan, spec_is_nan, Humidity};
use crate::ids::{next_id, next_id_of};
use crate::types::{Measurement, Observation, Plant};
use vstd::prelude::*;

verus! {

/// The `Plant` and `Observation` tables, rows in the order in which they
/// were stored.
pub struct Garden {
    pub plants: Vec<Plant>,
    pub observations: Vec<Observation>,
}

/// The message of every 404 answer about a device's sensor.
pub open spec fn no_such_plant_message() -> Seq<char> {
    "No such plant"@
}

/// The plants of device `iot`, in table order.
pub open spec fn plants_of_iot(plants: Seq<Plant>, iot: i64) -> Seq<Plant> {
    plants.filter(|p: Plant| p.iot == iot)
}

/// Plant `i` is the first one watched by sensor `sensor` of device `iot`.
pub open spec fn is_first_at(plants: Seq<Plant>, iot: i64, sensor: i64, i: int) -> bool {
    &&& 0 <= i < plants.len()
    &&& plants[i].iot == iot && plants[i].sensor == sensor
    &&& forall|j: int| 0 <= j < i ==> !(#[trigger] plants[j].iot == iot && plants[j].sensor == sensor)
}

/// Some plant is watched by sensor `sensor` of device `iot`.
pub open spec fn has_plant_at(plants: Seq<Plant>, iot: i64, sensor: i64) -> bool {
    exists|k: int| 0 <= k < plants.len() && #[trigger] plants[k].iot == iot && plants[k].sensor == sensor
}

/// Among the first `n` readings, reading `i` is the latest one of the plant
/// named `name`: no reading of it has a greater stamp, and each one stored
/// after it has a smaller stamp.
pub open spec fn is_latest_upto(observations: Seq<Observation>, name: Seq<char>, i: int, n: int) -> bool {
    &&& 0 <= i < n <= observations.len()
    &&& observations[i].plant@ == name
    &&& forall|j: int| 0 <= j < n && (#[trigger] observations[j]).plant@ == name ==> {
        &&& observations[j].stamp <= observations[i].stamp
        &&& (i < j ==> observations[j].stamp < observations[i].stamp)
    }
}

/// Reading `i` is the latest one of the plant named `name`.
pub open spec fn is_latest(observations: Seq<Observation>, name: Seq<char>, i: int) -> bool {
    is_latest_upto(observations, name, i, observations.len() as int)
}

/// Some reading belongs to the plant named `name`.
pub open spec fn has_observation(observations: Seq<Observation>, name: Seq<char>) -> bool {
    exists|j: int| 0 <= j < observations.len() && (#[trigger] observations[j]).plant@ == name
}

/// The ids of the readings, in table order.
pub open spec fn observation_ids(observations: Seq<Observation>) -> Seq<i64> {
    observations.map_values(|o: Observation| o.id)
}

/// The latest reading of a plant is unique.
pub proof fn lemma_latest_unique(observations: Seq<Observation>, name: Seq<char>, i: int, k: int)
    requires
        is_latest(observations, name, i),
        is_latest(observations, name, k),
    ensures
        i == k,
{
    if i < k {
        assert(observations[k].stamp < observations[i].stamp);
    } else if k < i {
        assert(observations[i].stamp < observations[k].stamp);
    }
}

/// The list for a device holds exactly its plants: every listed plant
/// belongs to the device and is in the table, and every plant of the
/// device in the table is listed.
pub proof fn lemma_plants_of_iot(plants: Seq<Plant>, iot: i64)
    ensures
        forall|k: int| 0 <= k < plants_of_iot(plants, iot).len() ==> {
            &&& (#[trigger] plants_of_iot(plants, iot)[k]).iot == iot
            &&& plants.contains(plants_of_iot(plants, iot)[k])
        },
        forall|p: Plant| #[trigger] plants.contains(p) && p.iot == iot ==> plants_of_iot(plants, iot).contains(p),
        plants_of_iot(plants, iot).len() <= plants.len(),
{
    let pred = |p: Plant| p.iot == iot;
    let listed = plants_of_iot(plants, iot);
    assert forall|k: int| 0 <= k < listed.len() implies {
        &&& (#[trigger] listed[k]).iot == iot
        &&& plants.contains(listed[k])
    } by {
        plants.lemma_filter_pred(pred, k);
        assert(listed.contains(listed[k]));
        plants.lemma_filter_contains_rev(pred, listed[k]);
    }
    assert forall|p: Plant| #[trigger] plants.contains(p) && p.iot == iot implies listed.contains(p) by {
        let i = choose|i: int| 0 <= i < plants.len() && plants[i] == p;
        plants.lemma_filter_contains(pred, i);
    }
    plants.lemma_filter_len(pred);
}

/// The list for a device is exactly the device's rows, in table order, each
/// listed once. The result is a witness: a strictly increasing choice of
/// table positions, one per listed plant, each holding that plant, and the
/// positions chosen are exactly those of the rows whose device is `iot`.
pub proof fn lemma_plants_of_iot_positions(plants: Seq<Plant>, iot: i64) -> (idx: Seq<int>)
    ensures
        idx.len() == plants_of_iot(plants, iot).len(),
        forall|k: int| 0 <= k < idx.len() ==> {
            &&& 0 <= #[trigger] idx[k] < plants.len()
            &&& plants_of_iot(plants, iot)[k] == plants[idx[k]]
        },
        forall|k1: int, k2: int| 0 <= k1 < k2 < idx.len() ==> #[trigger] idx[k1] < #[trigger] idx[k2],
        forall|j: int| 0 <= j < plants.len() ==> ((#[trigger] plants[j]).iot == iot <==> idx.contains(j)),
    decreases plants.len(),
{
    reveal_with_fuel(Seq::<_>::filter, 1);
    if plants.len() == 0 {
        Seq::empty()
    } else {
        let rest = plants.drop_last();
        let n = plants.len() - 1;
        let before = lemma_plants_of_iot_positions(rest, iot);
        assert forall|j: int| 0 <= j < n implies #[trigger] rest[j] == plants[j] by {}
        if plants.last().iot == iot {
            let idx = before.push(n);
            assert(plants_of_iot(plants, iot) == plants_of_iot(rest, iot).push(plants.last()));
            assert forall|j: int| 0 <= j < plants.len() implies ((#[trigger] plants[j]).iot == iot <==> idx.contains(j)) by {
                if j < n {
                    assert(rest[j] == plants[j]);
                    if before.contains(j) {
                        let k = choose|k: int| 0 <= k < before.len() && before[k] == j;
                        assert(idx[k] == j);
                    }
                    if idx.contains(j) {
                        let k = choose|k: int| 0 <= k < idx.len() && idx[k] == j;
                        assert(k < before.len());
                        assert(before[k] == j);
                    }
                } else {
                    assert(idx[before.len() as int] == n);
                }
            }
            idx
        } else {
            assert(plants_of_iot(plants, iot) == plants_of_iot(rest, iot));
            assert forall|j: int| 0 <= j < plants.len() implies ((#[trigger] plants[j]).iot == iot <==> before.contains(j)) by {
                if j < n {
                    assert(rest[j] == plants[j]);
                } else {
                    if before.contains(j) {
                        let k = choose|k: int| 0 <= k < before.len() && before[k] == j;
                        assert(before[k] < rest.len());
                    }
                }
            }
            before
        }
    }
}

/// A plant watched by the sensor is found exactly when one exists, and the
/// one found comes no later in the table than any other plant of that
/// sensor.
pub proof fn lemma_first_at_is_earliest(plants: Seq<Plant>, iot: i64, sensor: i64)
    ensures
        has_plant_at(plants, iot, sensor) <==> exists|i: int| is_first_at(plants, iot, sensor, i),
        forall|i: int, j: int| #[trigger] is_first_at(plants, iot, sensor, i) && 0 <= j < plants.len()
            && (#[trigger] plants[j]).iot == iot && plants[j].sensor == sensor ==> i <= j,
    decreases plants.len(),
{
    if has_plant_at(plants, iot, sensor) {
        let rest = plants.drop_last();
        if has_plant_at(rest, iot, sensor) {
            lemma_first_at_is_earliest(rest, iot, sensor);
            let i = choose|i: int| is_first_at(rest, iot, sensor, i);
            assert(rest[i] == plants[i]);
            assert forall|j: int| 0 <= j < i implies !(#[trigger] plants[j].iot == iot && plants[j].sensor == sensor) by {
                assert(rest[j] == plants[j]);
            }
            assert(is_first_at(plants, iot, sensor, i));
        } else {
            let n = plants.len() - 1;
            let k = choose|k: int| 0 <= k < plants.len() && #[trigger] plants[k].iot == iot && plants[k].sensor == sensor;
            if k < n {
                assert(rest[k] == plants[k]);
            }
            assert forall|j: int| 0 <= j < n implies !(#[trigger] plants[j].iot == iot && plants[j].sensor == sensor) by {
                assert(rest[j] == plants[j]);
            }
            assert(is_first_at(plants, iot, sensor, n));
        }
    }
}

/// The answer to a water request is a reading of that plant, and no reading
/// of that plant has a later stamp.
pub proof fn lemma_latest_characterised(observations: Seq<Observation>, name: Seq<char>, i: int)
    requires
        is_latest(observations, name, i),
    ensures
        0 <= i < observations.len(),
        observations[i].plant@ == name,
        forall|j: int| 0 <= j < observations.len() && (#[trigger] observations[j]).plant@ == name
            ==> observations[j].stamp <= observations[i].stamp,
{
}

/// The plant that a sensor watches is listed among the plants of its
/// device.
pub proof fn lemma_plant_is_listed(plants: Seq<Plant>, iot: i64, sensor: i64, i: int)
    requires
        is_first_at(plants, iot, sensor, i),
    ensures
        plants_of_iot(plants, iot).contains(plants[i]),
{
    lemma_plants_of_iot(plants, iot);
    assert(plants.contains(plants[i]));
}

/// Once a reading of a plant is stored, the plant has a latest reading,
/// whatever the clock said.
pub proof fn lemma_record_then_found(observations: Seq<Observation>, o: Observation)
    ensures
        has_observation(observations.push(o), o.plant@),
{
    assert(observations.push(o)[observations.len() as int] == o);
}

/// What a sensor sends is read back: after a reading `o` of the plant
/// watched by sensor `sensor` of device `iot` is stored, and no earlier
/// reading of that plant has a later stamp, the latest reading of it is
/// `o`, and no other.
pub proof fn lemma_record_then_latest(
    plants: Seq<Plant>,
    observations: Seq<Observation>,
    o: Observation,
    iot: i64,
    sensor: i64,
    p: int,
)
    requires
        is_first_at(plants, iot, sensor, p),
        o.plant@ == plants[p].name@,
        forall|j: int| 0 <= j < observations.len() && (#[trigger] observations[j]).plant@ == o.plant@
            ==> observations[j].stamp <= o.stamp,
    ensures
        is_latest(observations.push(o), plants[p].name@, observations.len() as int),
        has_observation(observations.push(o), plants[p].name@),
        forall|k: int| is_latest(observations.push(o), plants[p].name@, k) ==> k == observations.len(),
{
    let after = observations.push(o);
    let n = observations.len() as int;
    let name = plants[p].name@;
    assert(after[n] == o);
    assert forall|j: int| 0 <= j < after.len() && (#[trigger] after[j]).plant@ == name implies {
        &&& after[j].stamp <= after[n].stamp
        &&& (n < j ==> after[j].stamp < after[n].stamp)
    } by {
        if j < n {
            assert(after[j] == observations[j]);
        }
    }
    assert(is_latest(after, name, n));
    assert forall|k: int| is_latest(after, name, k) implies k == n by {
        lemma_latest_unique(after, name, k, n);
    }
}

/// Storing a reading of one plant leaves the latest reading of every other
/// plant as it was.
pub proof fn lemma_record_keeps_others(observations: Seq<Observation>, o: Observation, name: Seq<char>)
    requires
        o.plant@ != name,
    ensures
        has_observation(observations.push(o), name) == has_observation(observations, name),
        forall|k: int| is_latest(observations.push(o), name, k) == is_latest(observations, name, k),
{
    let after = observations.push(o);
    let n = observations.len() as int;
    assert forall|j: int| 0 <= j < n implies #[trigger] after[j] == observations[j] by {}
    if has_observation(after, name) {
        let j = choose|j: int| 0 <= j < after.len() && (#[trigger] after[j]).plant@ == name;
        assert(j < n);
        assert(observations[j].plant@ == name);
    }
    if has_observation(observations, name) {
        let j = choose|j: int| 0 <= j < observations.len() && (#[trigger] observations[j]).plant@ == name;
        assert(after[j].plant@ == name);
    }
    assert forall|k: int| is_latest(after, name, k) == is_latest(observations, name, k) by {
        if is_latest(after, name, k) {
            assert(k < n);
            assert forall|j: int| 0 <= j < n && (#[trigger] observations[j]).plant@ == name implies {
                &&& observations[j].stamp <= observations[k].stamp
                &&& (k < j ==> observations[j].stamp < observations[k].stamp)
            } by {
                assert(after[j] == observations[j]);
            }
        }
        if is_latest(observations, name, k) {
            assert forall|j: int| 0 <= j < after.len() && (#[trigger] after[j]).plant@ == name implies {
                &&& after[j].stamp <= after[k].stamp
                &&& (k < j ==> after[j].stamp < after[k].stamp)
            } by {
                if j == n {
                    assert(after[j] == o);
                }
            }
        }
    }
}

impl Garden {
    /// The answer to `GET /plant/{iot}`: the plants of device `iot`, in
    /// table order (an empty list when it has none).
    pub fn plants_of(&self, iot: i64) -> (plants: Vec<Plant>)
        ensures
            plants@ == plants_of_iot(self.plants@, iot),
    {
        let mut plants: Vec<Plant> = Vec::new();
        for i in 0..self.plants.len()
            invariant
                plants@ == plants_of_iot(self.plants@.take(i as int), iot),
        {
            proof {
                reveal_with_fuel(Seq::<_>::filter, 1);
                assert(self.plants@.take(i + 1).drop_last() =~= self.plants@.take(i as int));
            }
            if self.plants[i].iot == iot {
                plants.push(self.plants[i].clone());
            }
        }
        assert(self.plants@.take(self.plants@.len() as int) =~= self.plants@);
        plants
    }

    /// The index of the first plant watched by sensor `sensor` of `iot`.
    fn find_at(&self, iot: i64, sensor: i64) -> (found: Option<usize>)
        ensures
            found matches Some(i) ==> is_first_at(self.plants@, iot, sensor, i as int),
            found is None <==> !has_plant_at(self.plants@, iot, sensor),
    {
        for i in 0..self.plants.len()
            invariant
                forall|j: int| 0 <= j < i ==> !(#[trigger] self.plants@[j].iot == iot && self.plants@[j].sensor == sensor),
        {
            if self.plants[i].iot == iot && self.plants[i].sensor == sensor {
                return Some(i);
            }
        }
        None
    }

    /// The answer to `GET /plant/{iot}/{sensor}`: the plant watched by that
    /// sensor, or a 404 error.
    pub fn plant(&self, iot: i64, sensor: i64) -> (answer: Result<Plant, RequestError>)
        ensures
            match answer {
                Ok(plant) => exists|i: int| is_first_at(self.plants@, iot, sensor, i) && plant == self.plants@[i],
                Err(e) => !has_plant_at(self.plants@, iot, sensor) && e is NotFound
                    && e->NotFound_0@ == no_such_plant_message(),
            },
            answer is Ok <==> has_plant_at(self.plants@, iot, sensor),
    {
        match self.find_at(iot, sensor) {
            Some(i) => Ok(self.plants[i].clone()),
            None => Err(RequestError::NotFound("No such plant".to_owned())),
        }
    }

    /// The index of the latest reading of the plant named `name`.
    fn find_latest(&self, name: &String) -> (found: Option<usize>)
        ensures
            found matches Some(i) ==> is_latest(self.observations@, name@, i as int),
            found is None <==> !has_observation(self.observations@, name@),
    {
        let mut best: Option<usize> = None;
        for i in 0..self.observations.len()
            invariant
                best matches Some(b) ==> is_latest_upto(self.observations@, name@, b as int, i as int),
                best is None ==> forall|j: int| 0 <= j < i ==> (#[trigger] self.observations@[j]).plant@ != name@,
        {
            if self.observations[i].plant == *name {
                match best {
                    None => {
                        best = Some(i);
                    },
                    Some(b) => {
                        if self.observations[b].stamp <= self.observations[i].stamp {
                            best = Some(i);
                        }
                    },
                }
            }
        }
        best
    }

    /// The answer to `GET /water/{iot}/{sensor}`: the humidity of the latest
    /// reading of the plant watched by that sensor; a 404 error when there
    /// is no such plant or it was never measured.
    pub fn latest_humidity(&self, iot: i64, sensor: i64) -> (answer: Result<Humidity, RequestError>)
        ensures
            match answer {
                Ok(h) => exists|p: int, i: int| {
                    &&& is_first_at(self.plants@, iot, sensor, p)
                    &&& is_latest(self.observations@, self.plants@[p].name@, i)
                    &&& h == self.observations@[i].humidity
                },
                Err(e) => e is NotFound && e->NotFound_0@ == no_such_plant_message(),
            },
            answer is Ok <==> exists|p: int| {
                &&& is_first_at(self.plants@, iot, sensor, p)
                &&& has_observation(self.observations@, self.plants@[p].name@)
            },
    {
        match self.find_at(iot, sensor) {
            None => Err(RequestError::NotFound("No such plant".to_owned())),
            Some(p) => match self.find_latest(&self.plants[p].name) {
                None => Err(RequestError::NotFound("No such plant".to_owned())),
                Some(i) => Ok(self.observations[i].humidity),
            },
        }
    }

    /// The id for the next reading (see [`next_id`]).
    pub fn next_observation_id(&self) -> (id: Option<i64>)
        ensures
            id == next_id(observation_ids(self.observations@)),
    {
        let mut ids: Vec<i64> = Vec::new();
        for i in 0..self.observations.len()
            invariant
                ids@ == observation_ids(self.observations@.take(i as int)),
        {
            ids.push(self.observations[i].id);
            assert(ids@ =~= observation_ids(self.observations@.take(i + 1)));
        }
        assert(self.observations@.take(self.observations@.len() as int) =~= self.observations@);
        next_id_of(&ids)
    }

    /// Stores the sensor's reading as a new observation of the plant it
    /// watches, stamped `stamp`, and returns it. A NaN reading is refused
    /// with a 400 error, a sensor that watches no plant with a 404 error, and
    /// a table without a free id with a 500 error; the garden is then
    /// unchanged.
    pub fn record_at(&mut self, measurement: &Measurement, stamp: Stamp) -> (answer: Result<Observation, RequestError>)
        ensures
            final(self).plants@ == old(self).plants@,
            match answer {
                Ok(o) => {
                    &&& exists|p: int| is_first_at(old(self).plants@, measurement.id, measurement.sensor, p)
                        && o.plant@ == old(self).plants@[p].name@
                    &&& o.humidity == measurement.humidity
                    &&& o.stamp == stamp
                    &&& Some(o.id) == next_id(observation_ids(old(self).observations@))
                    &&& final(self).observations@ == old(self).observations@.push(o)
                },
                Err(e) => {
                    &&& final(self).observations@ == old(self).observations@
                    &&& spec_is_nan(measurement.humidity) ==> e is BadRequest
                    &&& !spec_is_nan(measurement.humidity) && !has_plant_at(old(self).plants@, measurement.id, measurement.sensor)
                        ==> e is NotFound && e->NotFound_0@ == no_such_plant_message()
                    &&& !spec_is_nan(measurement.humidity) && has_plant_at(old(self).plants@, measurement.id, measurement.sensor)
                        ==> e is Internal && next_id(observation_ids(old(self).observations@)) is None
                },
            },
            answer is Ok <==> {
                &&& !spec_is_nan(measurement.humidity)
                &&& has_plant_at(old(self).plants@, measurement.id, measurement.sensor)
                &&& next_id(observation_ids(old(self).observations@)) is Some
            },
    {
        if is_nan(measurement.humidity) {
            return Err(RequestError::BadRequest);
        }
        match self.find_at(measurement.id, measurement.sensor) {
            None => Err(RequestError::NotFound("No such plant".to_owned())),
            Some(p) => match self.next_observation_id() {
                None => Err(RequestError::Internal),
                Some(id) => {
                    let observation = Observation::stamped(id, self.plants[p].name.as_str(), measurement.humidity, stamp);
                    self.observations.push(observation.clone());
                    Ok(observation)
                },
            },
        }
    }

    /// The answer to `PUT /water`: [`Garden::record_at`] with the current
    /// time ([`now_stamp`]) as the stamp. A NaN reading is refused with a 400
    /// error, a sensor that watches no plant with a 404 error, and a table
    /// without a free id with a 500 error; the garden is then unchanged.
    pub fn record(&mut self, measurement: &Measurement) -> (answer: Result<Observation, RequestError>)
        ensures
            final(self).plants@ == old(self).plants@,
            match answer {
                Ok(o) => {
                    &&& exists|p: int| is_first_at(old(self).plants@, measurement.id, measurement.sensor, p)
                        && o.plant@ == old(self).plants@[p].name@
                    &&& o.humidity == measurement.humidity
                    &&& Some(o.id) == next_id(observation_ids(old(self).observations@))
                    &&& final(self).observations@ == old(self).observations@.push(o)
                },
                Err(e) => {
                    &&& final(self).observations@ == old(self).observations@
                    &&& spec_is_nan(measurement.humidity) ==> e is BadRequest
                    &&& !spec_is_nan(measurement.humidity) && !has_plant_at(old(self).plants@, measurement.id, measurement.sensor)
                        ==> e is NotFound && e->NotFound_0@ == no_such_plant_message()
                    &&& !spec_is_nan(measurement.humidity) && has_plant_at(old(self).plants@, measurement.id, measurement.sensor)
                        ==> e is Internal && next_id(observation_ids(old(self).observations@)) is None
                },
            },
            answer is Ok <==> {
                &&& !spec_is_nan(measurement.humidity)
                &&& has_plant_at(old(self).plants@, measurement.id, measurement.sensor)
                &&& next_id(observation_ids(old(self).observations@)) is Some
            },
    {
        let stamp = now_stamp();
        self.record_at(measurement, stamp)
    }
}

} // verus!
