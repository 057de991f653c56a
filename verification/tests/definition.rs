use kuttl_gen::error::GenerationError;
use kuttl_gen::test_definition::{Dimension, TestDefinition};

fn texts(items: &[&str]) -> Vec<String> {
    items.iter().map(|item| item.to_string()).collect()
}

fn dimension(name: &str, values: &[&str]) -> Dimension {
    Dimension { name: name.to_string(), values: texts(values) }
}

#[test]
fn dimensions_are_found_by_name() {
    let definition = TestDefinition {
        dimensions: vec![
            dimension("zookeeper", &["3.7.0", "3.8.0"]),
            dimension("jdk", &["11", "17", "21"]),
        ],
        tests: vec![],
    };
    let table = definition.dimensions_as_map().unwrap();
    assert_eq!(table.len(), 2);
    assert_eq!(table.get("zookeeper"), Some(&texts(&["3.7.0", "3.8.0"])));
    assert_eq!(table.get("jdk"), Some(&texts(&["11", "17", "21"])));
    assert_eq!(table.get("kafka"), None);
}

#[test]
fn table_is_refused_for_a_shared_name() {
    let definition = TestDefinition {
        dimensions: vec![dimension("db", &["v1"]), dimension("db", &["v2", "v3"])],
        tests: vec![],
    };
    assert_eq!(
        definition.dimensions_as_map().err(),
        Some(GenerationError::DuplicateDimension { name: "db".to_string() })
    );
}

#[test]
fn table_is_refused_for_a_dimension_without_values() {
    let definition = TestDefinition {
        dimensions: vec![dimension("db", &["v1"]), dimension("os", &[]), dimension("db", &[])],
        tests: vec![],
    };
    assert_eq!(
        definition.dimensions_as_map().err(),
        Some(GenerationError::EmptyDimension { name: "os".to_string() })
    );
}

#[test]
fn no_dimensions_give_an_empty_table() {
    let definition = TestDefinition { dimensions: vec![], tests: vec![] };
    assert!(definition.dimensions_as_map().unwrap().is_empty());
    assert_eq!(definition.check_dimensions(), Ok(()));
}

#[test]
fn well_formed_dimensions_pass_the_check() {
    let definition = TestDefinition {
        dimensions: vec![dimension("db", &["v1"]), dimension("os", &["linux", "mac"])],
        tests: vec![],
    };
    assert_eq!(definition.check_dimensions(), Ok(()));
}

#[test]
fn check_reports_a_duplicate_name() {
    let definition = TestDefinition {
        dimensions: vec![dimension("db", &["v1"]), dimension("db", &["v2"])],
        tests: vec![],
    };
    assert_eq!(
        definition.check_dimensions(),
        Err(GenerationError::DuplicateDimension { name: "db".to_string() })
    );
}

#[test]
fn check_reports_a_dimension_without_values() {
    let definition = TestDefinition {
        dimensions: vec![dimension("db", &[]), dimension("db", &["v2"])],
        tests: vec![],
    };
    assert_eq!(
        definition.check_dimensions(),
        Err(GenerationError::EmptyDimension { name: "db".to_string() })
    );
}
