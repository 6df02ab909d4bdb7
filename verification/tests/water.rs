use slothy::error::RequestError;
use slothy::garden::Garden;
use slothy::humidity::is_nan;
use slothy::named::{self, Store, Water};
use slothy::types::{Measurement, Observation, Plant};

fn h(x: f64) -> u64 {
    x.to_bits()
}

fn observation(id: i64, plant: &str, humidity: f64, stamp: i64) -> Observation {
    Observation { id, plant: plant.to_string(), humidity: h(humidity), stamp }
}

fn sensor_garden() -> Garden {
    Garden {
        plants: vec![
            Plant::new(0, 0, "Minze"),
            Plant::new(0, 1, "Schnittlauch"),
            Plant::new(0, 2, "Paprika"),
        ],
        observations: vec![
            observation(1, "Minze", 0.17, 1_700_000_000),
            observation(2, "Schnittlauch", 0.55, 1_700_000_100),
            observation(3, "Minze", 0.42, 1_700_000_200),
        ],
    }
}

fn named_store() -> Store {
    Store {
        plants: vec![
            named::Plant::new(0, "Minze"),
            named::Plant::new(1, "Schnittlauch"),
            named::Plant::new(2, "Paprika"),
        ],
        waters: vec![
            Water { id: 1, plant: 0, humidity: h(0.17), stamp: 1_700_000_000 },
            Water { id: 2, plant: 1, humidity: h(0.55), stamp: 1_700_000_100 },
            Water { id: 3, plant: 0, humidity: h(0.42), stamp: 1_700_000_200 },
        ],
    }
}

fn now() -> i64 {
    chrono::Utc::now().timestamp()
}

// Plants addressed by device and sensor.

#[test]
fn sensor_get_water_for_plant_404s_if_no_such_plant_exist() {
    let g = sensor_garden();
    assert_eq!(g.latest_humidity(7, 0).unwrap_err().status(), 404);
}

#[test]
fn sensor_get_water_for_plant_yields_latest_humidity() {
    let g = sensor_garden();
    let water = f64::from_bits(g.latest_humidity(0, 0).unwrap());
    assert_eq!(0.42, water);
}

#[test]
fn sensor_get_water_for_plant_404s_if_no_measurement_ever_taken_for_plant() {
    let g = sensor_garden();
    assert_eq!(
        g.latest_humidity(0, 2),
        Err(RequestError::NotFound("No such plant".to_string()))
    );
}

#[test]
fn put_water_adds_humidity() {
    let mut g = sensor_garden();
    let humidity = 0.88;
    let (iot, sensor) = (0, 1);
    let start = now();
    let measurement = g
        .record(&Measurement { id: iot, sensor, humidity: h(humidity) })
        .unwrap();
    let end = now();
    let plant = g.plant(iot, sensor).unwrap();
    assert_eq!(measurement.plant, plant.name);
    assert!(start <= measurement.stamp && measurement.stamp <= end);
    assert_eq!(f64::from_bits(measurement.humidity), humidity);
    assert_eq!(measurement.id, 4);
    assert_eq!(g.observations.len(), 4);
    assert_eq!(g.observations[3], measurement);
    assert_eq!(f64::from_bits(g.latest_humidity(iot, sensor).unwrap()), humidity);
}

#[test]
fn put_water_404s_if_plant_does_not_exist() {
    let mut g = sensor_garden();
    let answer = g.record(&Measurement { id: 0, sensor: 17, humidity: h(0.123) });
    assert_eq!(answer.unwrap_err().status(), 404);
    assert_eq!(g.observations.len(), 3);
}

#[test]
fn put_water_ignores_nan_values() {
    let mut g = sensor_garden();
    let answer = g.record(&Measurement { id: 0, sensor: 0, humidity: h(f64::NAN) });
    assert_eq!(answer, Err(RequestError::BadRequest));
    assert_eq!(answer.unwrap_err().status(), 400);
    assert_eq!(g.observations.len(), 3);
    let unknown = g.record(&Measurement { id: 5, sensor: 5, humidity: h(-f64::NAN) });
    assert_eq!(unknown, Err(RequestError::BadRequest));
}

#[test]
fn put_water_accepts_infinities_and_zero() {
    let mut g = sensor_garden();
    for x in [f64::INFINITY, f64::NEG_INFINITY, 0.0, -0.0, f64::MIN_POSITIVE] {
        assert!(g.record(&Measurement { id: 0, sensor: 2, humidity: h(x) }).is_ok());
    }
    assert_eq!(g.observations.len(), 8);
}

#[test]
fn record_keeps_other_plants_latest() {
    let mut g = sensor_garden();
    g.record(&Measurement { id: 0, sensor: 1, humidity: h(0.9) }).unwrap();
    assert_eq!(f64::from_bits(g.latest_humidity(0, 0).unwrap()), 0.42);
}

#[test]
fn latest_of_equal_stamps_is_the_last_stored() {
    let mut g = sensor_garden();
    g.observations.push(observation(4, "Minze", 0.61, 1_700_000_200));
    g.observations.push(observation(5, "Minze", 0.05, 1_600_000_000));
    assert_eq!(f64::from_bits(g.latest_humidity(0, 0).unwrap()), 0.61);
}

#[test]
fn record_refuses_when_ids_are_exhausted() {
    let mut g = sensor_garden();
    g.observations.push(observation(i64::MAX, "Paprika", 0.1, 1));
    assert_eq!(g.next_observation_id(), None);
    let answer = g.record(&Measurement { id: 0, sensor: 0, humidity: h(0.3) });
    assert_eq!(answer, Err(RequestError::Internal));
    assert_eq!(RequestError::Internal.status(), 500);
    assert_eq!(g.observations.len(), 4);
}

#[test]
fn observation_new_stamps_the_current_second() {
    let start = now();
    let o = Observation::new(9, "Minze", h(0.5));
    let end = now();
    assert_eq!(o.id, 9);
    assert_eq!(o.plant, "Minze");
    assert_eq!(o.humidity, h(0.5));
    assert!(start <= o.stamp && o.stamp <= end);
}

#[test]
fn nan_is_recognised_by_its_bits() {
    assert!(is_nan(h(f64::NAN)));
    assert!(is_nan(0x7ff0_0000_0000_0001));
    assert!(is_nan(0xfff8_0000_0000_0000));
    assert!(!is_nan(h(f64::INFINITY)));
    assert!(!is_nan(h(f64::NEG_INFINITY)));
    assert!(!is_nan(h(0.42)));
    assert!(!is_nan(0));
    assert!(!is_nan(0x7fef_ffff_ffff_ffff));
}

// Plants addressed by name.

#[test]
fn water_get_water_for_plant_404s_if_no_such_plant_exist() {
    let s = named_store();
    let answer = s.get_water("unknown_plant");
    assert_eq!(
        answer,
        Err(RequestError::NotFound("No such plant with name unknown_plant".to_string()))
    );
    assert_eq!(answer.unwrap_err().status(), 404);
}

#[test]
fn water_get_water_for_plant_yields_latest_humidity() {
    let s = named_store();
    let water = f64::from_bits(s.get_water("minze").unwrap());
    assert_eq!(0.42, water);
}

#[test]
fn water_get_water_for_plant_404s_if_no_measurement_ever_taken_for_plant() {
    let s = named_store();
    assert_eq!(s.get_water("paprika").unwrap_err().status(), 404);
}

#[test]
fn put_water_for_plant_adds_humidity() {
    let mut s = named_store();
    let humidity = 0.88;
    let plant = "minze";
    let plant_id = s.get_plant(plant).unwrap().id;
    let start = now();
    let measurement = s.put_water(plant, h(humidity)).unwrap();
    let end = now();
    assert_eq!(measurement.plant, plant_id);
    assert!(start <= measurement.stamp && measurement.stamp <= end);
    assert_eq!(measurement.id, 4);
    assert_eq!(s.waters.last(), Some(&measurement));
    assert_eq!(f64::from_bits(s.get_water("MINZE").unwrap()), humidity);
    assert_eq!(f64::from_bits(s.get_water("Schnittlauch").unwrap()), 0.55);
}

#[test]
fn put_water_for_plants_404s_if_plant_does_not_exist() {
    let mut s = named_store();
    let answer = s.put_water("unknown_plant", h(42.0));
    assert_eq!(
        answer,
        Err(RequestError::NotFound("No such plant with name unknown_plant".to_string()))
    );
    assert_eq!(s.waters.len(), 3);
}

#[test]
fn get_plants_lists_every_plant() {
    let s = named_store();
    let plants = s.get_plants();
    assert_eq!(plants, s.plants);
    assert_eq!(plants.len(), 3);
}

#[test]
fn get_plant_ignores_ascii_case() {
    let s = named_store();
    assert_eq!(s.get_plant("mInZe").unwrap(), named::Plant::new(0, "Minze"));
    assert_eq!(s.get_plant("SCHNITTLAUCH").unwrap().id, 1);
    assert_eq!(
        s.get_plant("Minz"),
        Err(RequestError::NotFound("No such Plant with name Minz".to_string()))
    );
}

#[test]
fn name_matching_folds_only_ascii_letters() {
    let mut s = named_store();
    s.plants.push(named::Plant::new(3, "Kürbis"));
    assert_eq!(s.get_plant("KüRBIS").unwrap().id, 3);
    assert!(s.get_plant("KÜRBIS").is_err());
    assert!(slothy::names::names_match("a-b_1", "A-B_1"));
    assert!(!slothy::names::names_match("a[", "A{"));
    assert!(!slothy::names::names_match("ab", "abc"));
    assert!(slothy::names::names_match("", ""));
}

#[test]
fn get_water_joins_every_plant_of_that_name() {
    let mut s = named_store();
    s.plants.push(named::Plant::new(7, "MINZE"));
    s.waters.push(Water { id: 4, plant: 7, humidity: h(0.7), stamp: 1_700_000_300 });
    assert_eq!(f64::from_bits(s.get_water("minze").unwrap()), 0.7);
    let w = s.put_water("Minze", h(0.2)).unwrap();
    assert_eq!(w.plant, 0);
    assert_eq!(w.id, 5);
}

#[test]
fn empty_water_table_starts_ids_at_one() {
    let mut s = named_store();
    s.waters.clear();
    assert_eq!(s.next_water_id(), Some(1));
    assert_eq!(s.put_water("Paprika", h(0.3)).unwrap().id, 1);
    assert_eq!(slothy::ids::next_id_of(&vec![5, -3, 9, 2]), Some(10));
    assert_eq!(slothy::ids::next_id_of(&vec![i64::MAX]), None);
}

#[test]
fn not_found_message_is_prefix_and_name() {
    let e = slothy::error::not_found("No such plant with name ", "Rose");
    assert_eq!(e, RequestError::NotFound("No such plant with name Rose".to_string()));
    assert_eq!(RequestError::BadRequest.status(), 400);
}

#[test]
fn observation_stamped_keeps_every_field() {
    let o = Observation::stamped(3, "Minze", h(0.25), 1_700_000_123);
    assert_eq!(o, observation(3, "Minze", 0.25, 1_700_000_123));
    assert_eq!(o, Observation::stamped(3, "Minze", h(0.25), 1_700_000_123));
}

#[test]
fn now_stamp_is_the_current_whole_second() {
    let start = now();
    let stamp = slothy::clock::now_stamp();
    let end = now();
    assert!(start <= stamp && stamp <= end);
}

#[test]
fn record_at_stores_the_given_stamp() {
    let mut g = sensor_garden();
    let o = g
        .record_at(&Measurement { id: 0, sensor: 2, humidity: h(0.33) }, 1_700_000_500)
        .unwrap();
    assert_eq!(o, observation(4, "Paprika", 0.33, 1_700_000_500));
    assert_eq!(g.observations[3], o);
    assert_eq!(f64::from_bits(g.latest_humidity(0, 2).unwrap()), 0.33);
    let older = g
        .record_at(&Measurement { id: 0, sensor: 2, humidity: h(0.99) }, 1_600_000_000)
        .unwrap();
    assert_eq!(older.id, 5);
    assert_eq!(f64::from_bits(g.latest_humidity(0, 2).unwrap()), 0.33);
}

#[test]
fn put_water_at_stores_the_given_stamp() {
    let mut s = named_store();
    let w = s.put_water_at("PAPRIKA", h(0.61), 1_700_000_400).unwrap();
    assert_eq!(w, Water { id: 4, plant: 2, humidity: h(0.61), stamp: 1_700_000_400 });
    assert_eq!(s.waters[3], w);
    assert_eq!(f64::from_bits(s.get_water("paprika").unwrap()), 0.61);
    assert_eq!(s.put_water_at("Rose", h(0.1), 1), Err(RequestError::NotFound("No such plant with name Rose".to_string())));
}
