use vehicle_filter::error::PipelineError;
use vehicle_filter::invocation::data_file_path;
use vehicle_filter::invocation::run;
use vehicle_filter::invocation::DATA_FILE_VARIABLE;
use vehicle_filter::invocation::DEFAULT_DATA_DIR;
use vehicle_filter::vehicle::Origin;
use vehicle_filter::vehicle::Vehicle;

fn vehicle(make: &str, model: &str, plate: &str) -> Vehicle {
    Vehicle {
        make: make.to_string(),
        model: model.to_string(),
        license_plate: plate.to_string(),
        origin: Origin { country: "DE".to_string(), year: 2020 },
    }
}

#[test]
fn path_is_the_name_behind_the_directory() {
    assert_eq!(data_file_path("/opt/", Some("cars.json")), Ok("/opt/cars.json".to_string()));
    assert_eq!(data_file_path(DEFAULT_DATA_DIR, Some("cars.json")), Ok("/opt/cars.json".to_string()));
}

#[test]
fn path_gets_no_separator_of_its_own() {
    assert_eq!(data_file_path("/data", Some("cars.json")), Ok("/datacars.json".to_string()));
    assert_eq!(data_file_path("", Some("")), Ok(String::new()));
}

#[test]
fn configuration_names() {
    assert_eq!(DATA_FILE_VARIABLE, "TEST_DATA_FILE");
    assert_eq!(DEFAULT_DATA_DIR, "/opt/");
}

#[test]
fn missing_name_is_a_configuration_error() {
    assert_eq!(data_file_path("/opt/", None), Err(PipelineError::ConfigurationMissing));
}

#[test]
fn missing_dataset_is_an_input_error() {
    assert_eq!(run(None), Err(PipelineError::InputUnreadable));
}

#[test]
fn loaded_dataset_is_processed() {
    let records = vec![vehicle("Audi", "A4", "AT-001-B"), vehicle("VW", "Golf", "A-924-VW")];
    let expected = vehicle_filter::report::process(&records).unwrap();
    let report = run(Some(records)).unwrap();
    assert_eq!(report, expected);
    assert_eq!(report.vehicles.len(), 1);
    assert_eq!(report.source_count, 2);
}

#[test]
fn malformed_plate_in_a_loaded_dataset_is_reported() {
    assert_eq!(run(Some(vec![vehicle("Opel", "Corsa", "ABC")])), Err(PipelineError::MalformedPlate));
}

#[test]
fn each_error_has_its_name() {
    assert_eq!(PipelineError::ConfigurationMissing.name(), "ConfigurationMissing");
    assert_eq!(PipelineError::InputUnreadable.name(), "InputUnreadable");
    assert_eq!(PipelineError::MalformedPlate.name(), "MalformedPlate");
}

#[test]
fn each_error_has_its_sentence() {
    assert_eq!(
        PipelineError::ConfigurationMissing.message(),
        "the data file name is not configured"
    );
    assert_eq!(
        PipelineError::InputUnreadable.message(),
        "the data file cannot be read as a dataset"
    );
    assert_eq!(
        PipelineError::MalformedPlate.message(),
        "a license plate has fewer than two sections"
    );
}
