use kuttl_gen::naming::{dir_name, Binding};
use kuttl_gen::paths::{is_template, join, without_template_suffix};
use kuttl_gen::test_generation::TestScenario;

fn binding(name: &str, value: &str) -> Binding {
    Binding { name: name.to_string(), value: value.to_string() }
}

#[test]
fn directory_name_without_bindings_is_the_test_name() {
    assert_eq!(dir_name("smoke", &vec![]), "smoke");
}

#[test]
fn directory_name_lists_the_bindings_in_order() {
    let bindings = vec![binding("zookeeper", "3.8.0"), binding("jdk", "17")];
    assert_eq!(dir_name("cluster", &bindings), "cluster_zookeeper-3.8.0_jdk-17");
    let reversed = vec![binding("jdk", "17"), binding("zookeeper", "3.8.0")];
    assert_eq!(dir_name("cluster", &reversed), "cluster_jdk-17_zookeeper-3.8.0");
}

#[test]
fn directory_name_keeps_any_character() {
    let bindings = vec![binding("größe", "klein_1"), binding("", "")];
    assert_eq!(dir_name("tëst", &bindings), "tëst_größe-klein_1_-");
}

#[test]
fn scenario_is_placed_below_the_directory_of_its_test() {
    let scenario =
        TestScenario::new("out/smoke", "smoke", vec![binding("version", "3.8.0")]);
    assert_eq!(scenario.name(), "smoke_version-3.8.0");
    assert_eq!(scenario.out_dir(), "out/smoke/smoke_version-3.8.0");
    assert_eq!(scenario.test_name(), "smoke");
    assert_eq!(scenario.bindings(), &vec![binding("version", "3.8.0")]);
}

#[test]
fn join_writes_one_separator() {
    assert_eq!(join("out", "smoke"), "out/smoke");
    assert_eq!(join("out/smoke", "a/b.yaml"), "out/smoke/a/b.yaml");
    assert_eq!(join("", "x"), "/x");
    assert_eq!(join("x", ""), "x/");
}

#[test]
fn template_suffix_is_recognized() {
    assert!(is_template("config.yaml.j2"));
    assert!(is_template("dir/00-install.yaml.j2"));
    assert!(is_template(".j2"));
    assert!(!is_template("config.yaml"));
    assert!(!is_template("j2"));
    assert!(!is_template("a.j2/b"));
    assert!(!is_template("config.J2"));
    assert!(!is_template(""));
    assert!(is_template("größe.j2"));
}

#[test]
fn template_suffix_is_stripped() {
    assert_eq!(without_template_suffix("config.yaml.j2"), "config.yaml");
    assert_eq!(without_template_suffix("dir/00-install.yaml.j2"), "dir/00-install.yaml");
    assert_eq!(without_template_suffix("config.yaml"), "config.yaml");
    assert_eq!(without_template_suffix(".j2"), "");
    assert_eq!(without_template_suffix("größe.j2.j2"), "größe.j2");
}
