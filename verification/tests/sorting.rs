use vehicle_filter::sorting::sort_by_license_plate;
use vehicle_filter::vehicle::Origin;
use vehicle_filter::vehicle::VehicleWithHash;

fn record(make: &str, plate: &str) -> VehicleWithHash {
    VehicleWithHash {
        make: make.to_string(),
        model: "m".to_string(),
        license_plate: plate.to_string(),
        origin: Origin { country: "DE".to_string(), year: 2000 },
        make_model_hash: "00".to_string(),
    }
}

fn plates(list: &[VehicleWithHash]) -> Vec<&str> {
    list.iter().map(|v| v.license_plate.as_str()).collect()
}

fn makes(list: &[VehicleWithHash]) -> Vec<&str> {
    list.iter().map(|v| v.make.as_str()).collect()
}

#[test]
fn two_plates_out_of_order_are_swapped() {
    let mut list = vec![record("b", "B0-A0-X"), record("a", "A0-A0-X")];
    sort_by_license_plate(&mut list);
    assert_eq!(plates(&list), ["A0-A0-X", "B0-A0-X"]);
    assert_eq!(makes(&list), ["a", "b"]);
}

#[test]
fn sorted_list_stays_as_it_is() {
    let mut list = vec![record("a", "A-0"), record("b", "A-1"), record("c", "B-0")];
    let before = list.clone();
    sort_by_license_plate(&mut list);
    assert_eq!(list, before);
}

#[test]
fn reversed_list_is_reversed() {
    let mut list = vec![record("d", "D-0"), record("c", "C-0"), record("b", "B-0"), record("a", "A-0")];
    sort_by_license_plate(&mut list);
    assert_eq!(makes(&list), ["a", "b", "c", "d"]);
}

#[test]
fn empty_and_single_lists() {
    let mut none: Vec<VehicleWithHash> = Vec::new();
    sort_by_license_plate(&mut none);
    assert!(none.is_empty());
    let mut one = vec![record("a", "A-0")];
    sort_by_license_plate(&mut one);
    assert_eq!(makes(&one), ["a"]);
}

#[test]
fn equal_plates_keep_their_order() {
    let mut list = vec![
        record("first", "B-0"),
        record("x", "C-0"),
        record("second", "B-0"),
        record("y", "A-0"),
        record("third", "B-0"),
    ];
    sort_by_license_plate(&mut list);
    assert_eq!(plates(&list), ["A-0", "B-0", "B-0", "B-0", "C-0"]);
    assert_eq!(makes(&list), ["y", "first", "second", "third", "x"]);
}

#[test]
fn order_is_that_of_the_standard_stable_sort() {
    let keys = ["A0-A0-X", "a-0", "A-10", "A-9", "", "Ä-0", "A", "B0-A0-X", "A-10", "é-0", "A-0-"];
    let mut list: Vec<VehicleWithHash> =
        keys.iter().enumerate().map(|(i, k)| record(&i.to_string(), k)).collect();
    let mut expected = list.clone();
    expected.sort_by_key(|v| v.license_plate.clone());
    sort_by_license_plate(&mut list);
    assert_eq!(list, expected);
}
