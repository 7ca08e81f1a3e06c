use starlark_bench::config::{BenchRequest, EngineName, Size, WorkloadName};
use starlark_bench::errors::{check_script_present, BenchError};

#[test]
fn size_labels_resolve_to_n() {
    assert_eq!(Size::S.to_n(), 1_000);
    assert_eq!(Size::M.to_n(), 50_000);
    assert_eq!(Size::L.to_n(), 500_000);
}

#[test]
fn size_labels() {
    assert_eq!(Size::S.label(), "S");
    assert_eq!(Size::M.label(), "M");
    assert_eq!(Size::L.label(), "L");
}

#[test]
fn engine_labels() {
    assert_eq!(EngineName::Starlark.label(), "starlark");
    assert_eq!(EngineName::Python.label(), "python");
}

#[test]
fn workload_file_stems() {
    assert_eq!(WorkloadName::Arithmetic.file_stem(), "arithmetic");
    assert_eq!(WorkloadName::DataStructures.file_stem(), "data_structures");
    assert_eq!(WorkloadName::StringParsing.file_stem(), "string_parsing");
    assert_eq!(WorkloadName::JsonBuilding.file_stem(), "json_building");
    assert_eq!(WorkloadName::FunctionCalls.file_stem(), "function_calls");
}

#[test]
fn script_paths_per_engine() {
    let p = starlark_bench::config::rel_script_path(&EngineName::Starlark, &WorkloadName::Arithmetic);
    assert_eq!(p, b"starlark/arithmetic.star".to_vec());
    let p = starlark_bench::config::rel_script_path(&EngineName::Python, &WorkloadName::DataStructures);
    assert_eq!(p, b"python/data_structures.py".to_vec());
}

#[test]
fn request_resolves_size_label() {
    let q = BenchRequest::new(
        EngineName::Starlark,
        WorkloadName::Arithmetic,
        Size::S,
        None,
        42,
        1,
        2,
    )
    .unwrap();
    assert_eq!(q.n, 1_000);
    assert_eq!(q.seed, 42);
    assert_eq!(q.warmup, 1);
    assert_eq!(q.iters, 2);
}

#[test]
fn request_override_wins() {
    let q = BenchRequest::new(
        EngineName::Python,
        WorkloadName::JsonBuilding,
        Size::L,
        Some(7),
        1,
        0,
        3,
    )
    .unwrap();
    assert_eq!(q.n, 7);
}

#[test]
fn request_rejects_zero_n() {
    let q = BenchRequest::new(
        EngineName::Python,
        WorkloadName::JsonBuilding,
        Size::L,
        Some(0),
        1,
        0,
        3,
    );
    assert!(q.is_none());
}

#[test]
fn missing_script_is_configuration_error() {
    let r = check_script_present(false, String::from("scripts/starlark/arithmetic.star"));
    match r {
        Err(BenchError::Configuration(p)) => {
            assert_eq!(p, "scripts/starlark/arithmetic.star");
        }
        _ => panic!("expected a configuration error"),
    }
    assert!(check_script_present(true, String::from("x")).is_ok());
}
