use kuttl_gen::error::{ErrorKind, GenerationError};
use kuttl_gen::naming::Binding;
use kuttl_gen::test_definition::{Dimension, Test, TestDefinition};
use kuttl_gen::test_generation::TestGeneration;

fn texts(items: &[&str]) -> Vec<String> {
    items.iter().map(|item| item.to_string()).collect()
}

fn dimension(name: &str, values: &[&str]) -> Dimension {
    Dimension { name: name.to_string(), values: texts(values) }
}

fn test(name: &str, dimensions: &[&str]) -> Test {
    Test { name: name.to_string(), dimensions: texts(dimensions) }
}

fn scenario_names(generation: &TestGeneration, test: usize) -> Vec<String> {
    generation.tests()[test].scenarios().iter().map(|s| s.name().to_string()).collect()
}

fn binding(name: &str, value: &str) -> Binding {
    Binding { name: name.to_string(), value: value.to_string() }
}

#[test]
fn test_without_dimensions_has_one_plain_scenario() {
    let definition = TestDefinition {
        dimensions: vec![dimension("db", &["v1", "v2"])],
        tests: vec![test("smoke", &[])],
    };
    let generation = TestGeneration::new("out", "templates", definition, "kuttl.j2").unwrap();
    let scenarios = generation.tests()[0].scenarios();
    assert_eq!(scenarios.len(), 1);
    assert_eq!(scenarios[0].name(), "smoke");
    assert_eq!(scenarios[0].test_name(), "smoke");
    assert!(scenarios[0].bindings().is_empty());
    assert_eq!(scenarios[0].out_dir(), "out/smoke/smoke");
}

#[test]
fn two_dimensions_of_two_values_give_four_scenarios() {
    let definition = TestDefinition {
        dimensions: vec![dimension("db", &["v1", "v2"]), dimension("os", &["linux", "mac"])],
        tests: vec![test("upgrade", &["db", "os"])],
    };
    let generation = TestGeneration::new("out", "templates", definition, "kuttl.j2").unwrap();
    assert_eq!(
        scenario_names(&generation, 0),
        texts(&[
            "upgrade_db-v1_os-linux",
            "upgrade_db-v1_os-mac",
            "upgrade_db-v2_os-linux",
            "upgrade_db-v2_os-mac",
        ])
    );
}

#[test]
fn scenario_count_is_the_product_of_the_value_counts() {
    let definition = TestDefinition {
        dimensions: vec![
            dimension("a", &["1", "2", "3"]),
            dimension("b", &["x"]),
            dimension("c", &["p", "q"]),
            dimension("d", &["s", "t", "u", "v"]),
        ],
        tests: vec![test("all", &["a", "b", "c", "d"]), test("some", &["d", "a"])],
    };
    let generation = TestGeneration::new("out", "templates", definition, "kuttl.j2").unwrap();
    assert_eq!(generation.tests()[0].scenarios().len(), 3 * 1 * 2 * 4);
    assert_eq!(generation.tests()[1].scenarios().len(), 4 * 3);
}

#[test]
fn last_dimension_varies_fastest() {
    let definition = TestDefinition {
        dimensions: vec![dimension("a", &["1", "2"]), dimension("b", &["x", "y", "z"])],
        tests: vec![test("t", &["b", "a"])],
    };
    let generation = TestGeneration::new("out", "templates", definition, "kuttl.j2").unwrap();
    assert_eq!(
        scenario_names(&generation, 0),
        texts(&["t_b-x_a-1", "t_b-x_a-2", "t_b-y_a-1", "t_b-y_a-2", "t_b-z_a-1", "t_b-z_a-2"])
    );
}

#[test]
fn six_scenarios_have_six_distinct_names() {
    let definition = TestDefinition {
        dimensions: vec![
            dimension("zookeeper", &["3.7.0", "3.8.0"]),
            dimension("jdk", &["11", "17", "21"]),
        ],
        tests: vec![test("cluster", &["zookeeper", "jdk"])],
    };
    let generation = TestGeneration::new("out", "templates", definition, "kuttl.j2").unwrap();
    let names = scenario_names(&generation, 0);
    assert_eq!(names.len(), 6);
    for (i, first) in names.iter().enumerate() {
        for second in names.iter().skip(i + 1) {
            assert_ne!(first, second);
        }
    }
    let mut expected = Vec::new();
    for zookeeper in ["3.7.0", "3.8.0"] {
        for jdk in ["11", "17", "21"] {
            expected.push(format!("cluster_zookeeper-{}_jdk-{}", zookeeper, jdk));
        }
    }
    assert_eq!(names, expected);
}

#[test]
fn bindings_follow_the_order_of_the_test() {
    let definition = TestDefinition {
        dimensions: vec![dimension("db", &["v1"]), dimension("os", &["linux"])],
        tests: vec![test("t", &["os", "db"])],
    };
    let generation = TestGeneration::new("out", "templates", definition, "kuttl.j2").unwrap();
    let scenario = &generation.tests()[0].scenarios()[0];
    assert_eq!(scenario.bindings(), &vec![binding("os", "linux"), binding("db", "v1")]);
    assert_eq!(scenario.name(), "t_os-linux_db-v1");
}

#[test]
fn expanding_twice_gives_the_same_names() {
    let make = || TestDefinition {
        dimensions: vec![dimension("db", &["v1", "v2"]), dimension("os", &["linux", "mac"])],
        tests: vec![test("upgrade", &["db", "os"]), test("smoke", &[])],
    };
    let first = TestGeneration::new("out", "templates", make(), "kuttl.j2").unwrap();
    let second = TestGeneration::new("out", "templates", make(), "kuttl.j2").unwrap();
    assert_eq!(scenario_names(&first, 0), scenario_names(&second, 0));
    assert_eq!(scenario_names(&first, 1), scenario_names(&second, 1));
    assert_eq!(first, second);
}

#[test]
fn generation_lays_tests_out_in_the_output_directory() {
    let definition = TestDefinition {
        dimensions: vec![dimension("db", &["v1"])],
        tests: vec![test("smoke", &["db"])],
    };
    let generation =
        TestGeneration::new("out", "templates", definition, "conf/kuttl.j2").unwrap();
    assert_eq!(generation.out_dir(), "out");
    assert_eq!(generation.kuttl_test(), "conf/kuttl.j2");
    let smoke = &generation.tests()[0];
    assert_eq!(smoke.test_name(), "smoke");
    assert_eq!(smoke.out_dir(), "out/smoke");
    assert_eq!(smoke.template_dir(), "templates/smoke");
    assert_eq!(smoke.scenarios()[0].out_dir(), "out/smoke/smoke_db-v1");
}

#[test]
fn unknown_dimension_is_a_configuration_error() {
    let definition = TestDefinition {
        dimensions: vec![dimension("db", &["v1", "v2"])],
        tests: vec![test("smoke", &["db"]), test("upgrade", &["db", "os", "arch"])],
    };
    let error = TestGeneration::new("out", "templates", definition, "kuttl.j2").unwrap_err();
    assert_eq!(
        error,
        GenerationError::UnknownDimension {
            test: "upgrade".to_string(),
            dimension: "os".to_string()
        }
    );
    assert_eq!(error.kind(), ErrorKind::Configuration);
}

#[test]
fn duplicate_dimension_is_a_configuration_error() {
    let definition = TestDefinition {
        dimensions: vec![
            dimension("db", &["v1"]),
            dimension("os", &["linux"]),
            dimension("db", &["v2"]),
        ],
        tests: vec![test("smoke", &["db"])],
    };
    let error = TestGeneration::new("out", "templates", definition, "kuttl.j2").unwrap_err();
    assert_eq!(error, GenerationError::DuplicateDimension { name: "db".to_string() });
    assert_eq!(error.kind(), ErrorKind::Configuration);
}

#[test]
fn dimension_without_values_is_a_configuration_error() {
    let definition = TestDefinition {
        dimensions: vec![dimension("db", &["v1"]), dimension("os", &[])],
        tests: vec![test("smoke", &["db"])],
    };
    let error = TestGeneration::new("out", "templates", definition, "kuttl.j2").unwrap_err();
    assert_eq!(error, GenerationError::EmptyDimension { name: "os".to_string() });
    assert_eq!(error.kind(), ErrorKind::Configuration);
}

#[test]
fn first_problem_of_the_definition_is_reported() {
    let definition = TestDefinition {
        dimensions: vec![
            dimension("db", &["v1"]),
            dimension("db", &[]),
            dimension("os", &[]),
        ],
        tests: vec![test("smoke", &["arch"])],
    };
    let error = TestGeneration::new("out", "templates", definition, "kuttl.j2").unwrap_err();
    assert_eq!(error, GenerationError::EmptyDimension { name: "db".to_string() });
}

#[test]
fn adding_scenarios_for_an_unknown_dimension_adds_nothing() {
    let definition = TestDefinition {
        dimensions: vec![dimension("db", &["v1", "v2"])],
        tests: vec![],
    };
    let table = definition.dimensions_as_map().unwrap();
    let mut test = kuttl_gen::test_generation::Test::new("out", "templates", "smoke");
    let error = test.add_scenarios_for_values(&texts(&["db", "os"]), &table).unwrap_err();
    assert_eq!(
        error,
        GenerationError::UnknownDimension {
            test: "smoke".to_string(),
            dimension: "os".to_string()
        }
    );
    assert!(test.scenarios().is_empty());
    test.add_scenarios_for_values(&texts(&["db"]), &table).unwrap();
    assert_eq!(test.scenarios().len(), 2);
    test.add_scenarios_for_values(&texts(&[]), &table).unwrap();
    assert_eq!(test.scenarios().len(), 3);
    assert_eq!(test.scenarios()[2].name(), "smoke");
}

#[test]
fn dimension_selected_twice_is_bound_twice() {
    let definition = TestDefinition {
        dimensions: vec![dimension("db", &["v1", "v2"])],
        tests: vec![test("t", &["db", "db"])],
    };
    let generation = TestGeneration::new("out", "templates", definition, "kuttl.j2").unwrap();
    assert_eq!(
        scenario_names(&generation, 0),
        texts(&["t_db-v1_db-v1", "t_db-v1_db-v2", "t_db-v2_db-v1", "t_db-v2_db-v2"])
    );
    let second = &generation.tests()[0].scenarios()[1];
    assert_eq!(second.bindings(), &vec![binding("db", "v1"), binding("db", "v2")]);
    let mut expected = tera::Context::new();
    expected.insert("db", "v2");
    let values = std::collections::HashMap::from([("db", "v2")]);
    expected.insert("test_scenario", &std::collections::HashMap::from([("values", values)]));
    assert_eq!(second.context(), expected);
}

#[test]
fn unknown_dimension_after_a_repeated_one_is_named() {
    let definition = TestDefinition {
        dimensions: vec![dimension("db", &["v1", "v2"])],
        tests: vec![test("t", &["db", "db", "os"])],
    };
    let error = TestGeneration::new("out", "templates", definition, "kuttl.j2").unwrap_err();
    assert_eq!(
        error,
        GenerationError::UnknownDimension { test: "t".to_string(), dimension: "os".to_string() }
    );
}

#[test]
fn values_that_continue_each_other_can_share_a_name() {
    let definition = TestDefinition {
        dimensions: vec![dimension("a", &["x", "x_b-y"]), dimension("b", &["y", "y_b-y"])],
        tests: vec![test("t", &["a", "b"])],
    };
    let generation = TestGeneration::new("out", "templates", definition, "kuttl.j2").unwrap();
    let names = scenario_names(&generation, 0);
    assert_eq!(names[1], "t_a-x_b-y_b-y");
    assert_eq!(names[2], "t_a-x_b-y_b-y");
}
