use slothy::error::RequestError;
use slothy::garden::Garden;
use slothy::named::{self, Store};
use slothy::types::Plant;

fn fixture_plants() -> Vec<Plant> {
    vec![
        Plant::new(0, 0, "Minze"),
        Plant::new(0, 1, "Schnittlauch"),
        Plant::new(0, 2, "Paprika"),
    ]
}

fn garden(plants: Vec<Plant>) -> Garden {
    Garden { plants, observations: Vec::new() }
}

#[test]
fn get_plants_index_yields_list() {
    let g = garden(fixture_plants());
    let plants = g.plants_of(0);
    assert_eq!(
        vec![
            Plant::new(0, 0, "Minze"),
            Plant::new(0, 1, "Schnittlauch"),
            Plant::new(0, 2, "Paprika")
        ],
        plants
    );
}

#[test]
fn get_plants_index_yields_empty_list_if_none_ever_created() {
    let g = garden(Vec::new());
    let plants = g.plants_of(0);
    assert_eq!(plants, vec![]);
}

#[test]
fn get_plant_route_looksup_name_by_iot_and_sensor() {
    let g = garden(fixture_plants());
    for (iot, sensor, name) in [(0, 0, "Minze"), (0, 1, "Schnittlauch"), (0, 2, "Paprika")] {
        let plant = g.plant(iot, sensor).unwrap();
        assert_eq!(plant, Plant::new(iot, sensor, name),);
    }
}

#[test]
fn get_plant_route_404s_if_name_not_given() {
    let g = garden(fixture_plants());
    let answer = g.plant(0, 17);
    assert_eq!(answer.unwrap_err().status(), 404);
    let store = Store {
        plants: vec![
            named::Plant::new(0, "Minze"),
            named::Plant::new(1, "Schnittlauch"),
            named::Plant::new(2, "Paprika"),
        ],
        waters: Vec::new(),
    };
    let answer = store.get_plant("unknown_plant");
    assert_eq!(
        answer,
        Err(RequestError::NotFound("No such Plant with name unknown_plant".to_string()))
    );
    assert_eq!(answer.unwrap_err().status(), 404);
}

#[test]
fn plants_of_other_device_are_not_listed() {
    let mut plants = fixture_plants();
    plants.push(Plant::new(1, 0, "Basilikum"));
    plants.push(Plant::new(0, 3, "Thymian"));
    let g = garden(plants);
    assert_eq!(
        g.plants_of(0).iter().map(|p| p.name.as_str()).collect::<Vec<_>>(),
        vec!["Minze", "Schnittlauch", "Paprika", "Thymian"]
    );
    assert_eq!(g.plants_of(1), vec![Plant::new(1, 0, "Basilikum")]);
    assert_eq!(g.plants_of(2), vec![]);
}

#[test]
fn plant_lookup_takes_the_first_of_equal_sensors() {
    let mut plants = fixture_plants();
    plants.push(Plant::new(0, 0, "Zweitminze"));
    let g = garden(plants);
    assert_eq!(g.plant(0, 0).unwrap(), Plant::new(0, 0, "Minze"));
}

#[test]
fn plant_error_message() {
    let g = garden(fixture_plants());
    let e = g.plant(3, 0).unwrap_err();
    assert_eq!(e, slothy::error::RequestError::NotFound("No such plant".to_string()));
}
