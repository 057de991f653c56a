use kuttl_gen::entry::{EntryKind, TemplateEntry};
use kuttl_gen::error::{ErrorKind, GenerationError};
use kuttl_gen::naming::Binding;
use kuttl_gen::operation::FileOperation;
use kuttl_gen::plan::{Plan, PlanStep, RenderRequest};
use kuttl_gen::test_definition::{Dimension, Test, TestDefinition};
use kuttl_gen::test_generation::{check_templates, TestGeneration, TestScenario};

fn texts(items: &[&str]) -> Vec<String> {
    items.iter().map(|item| item.to_string()).collect()
}

fn definition() -> TestDefinition {
    TestDefinition {
        dimensions: vec![Dimension {
            name: "version".to_string(),
            values: texts(&["3.7.0", "3.8.0"]),
        }],
        tests: vec![
            Test { name: "smoke".to_string(), dimensions: texts(&["version"]) },
            Test { name: "plain".to_string(), dimensions: vec![] },
        ],
    }
}

fn create_dir(path: &str) -> PlanStep {
    PlanStep::Perform(FileOperation::CreateDir { path: path.to_string() })
}

fn create_dir_all(path: &str) -> PlanStep {
    PlanStep::Perform(FileOperation::CreateDirAll { path: path.to_string() })
}

fn copy(from: &str, to: &str) -> PlanStep {
    PlanStep::Perform(FileOperation::CopyFile { from: from.to_string(), to: to.to_string() })
}

fn render(template: &str, scenario: &TestScenario, path: &str) -> PlanStep {
    PlanStep::Render(RenderRequest::new(
        template,
        Some(scenario.name()),
        path.to_string(),
        scenario.context(),
    ))
}

fn template_names(plan: &Plan) -> Vec<String> {
    let mut names: Vec<String> =
        plan.engine().get_template_names().map(|name| name.to_string()).collect();
    names.sort();
    names
}

fn file(path: &str, relative: &str) -> TemplateEntry {
    TemplateEntry::new(path, relative, false, true).unwrap()
}

#[test]
fn root_and_special_nodes_are_no_entries() {
    assert_eq!(TemplateEntry::new("templates/smoke", "", true, false), None);
    assert_eq!(TemplateEntry::new("templates/smoke/pipe", "pipe", false, false), None);
    assert_eq!(TemplateEntry::new("templates/smoke/pipe.j2", "pipe.j2", false, false), None);
}

#[test]
fn entries_are_classified() {
    let directory = TemplateEntry::new("templates/smoke/sub", "sub", true, false).unwrap();
    assert_eq!(directory.kind(), EntryKind::Directory);
    assert_eq!(directory.path(), "templates/smoke/sub");
    assert_eq!(directory.relative_path(), "sub");
    assert_eq!(directory.source(), "");
    let odd = TemplateEntry::new("templates/smoke/sub.j2", "sub.j2", true, true).unwrap();
    assert_eq!(odd.kind(), EntryKind::Directory);
    let template = file("templates/smoke/sub/a.yaml.j2", "sub/a.yaml.j2");
    assert_eq!(template.kind(), EntryKind::TemplatedFile);
    let plain = file("templates/smoke/sub/a.yaml", "sub/a.yaml");
    assert_eq!(plain.kind(), EntryKind::PlainFile);
}

#[test]
fn source_is_attached_to_an_entry() {
    let entry = file("t/a.j2", "a.j2").with_source("v={{ version }}".to_string());
    assert_eq!(entry.source(), "v={{ version }}");
    assert_eq!(entry.kind(), EntryKind::TemplatedFile);
    assert_eq!(entry.path(), "t/a.j2");
    assert_eq!(entry.relative_path(), "a.j2");
}

#[test]
fn scenario_operations_lie_in_its_directory() {
    let scenario = TestScenario::new(
        "out/smoke",
        "smoke",
        vec![Binding { name: "version".to_string(), value: "3.8.0".to_string() }],
    );
    assert_eq!(
        scenario.create_base_directory(),
        FileOperation::CreateDir { path: "out/smoke/smoke_version-3.8.0".to_string() }
    );
    assert_eq!(
        scenario.create_directory("sub/dir"),
        FileOperation::CreateDir { path: "out/smoke/smoke_version-3.8.0/sub/dir".to_string() }
    );
    assert_eq!(
        scenario.copy_file("templates/smoke/sub/a.yaml", "sub/a.yaml"),
        FileOperation::CopyFile {
            from: "templates/smoke/sub/a.yaml".to_string(),
            to: "out/smoke/smoke_version-3.8.0/sub/a.yaml".to_string()
        }
    );
    let request = scenario.render_template("templates/smoke/a.j2", "a");
    assert_eq!(request.template(), "templates/smoke/a.j2");
    assert_eq!(request.path(), "out/smoke/smoke_version-3.8.0/a");
    assert_eq!(request.context(), &scenario.context());
}

#[test]
fn test_plan_mirrors_the_template_tree_in_every_scenario() {
    let generation = TestGeneration::new("out", "templates", definition(), "kuttl.j2").unwrap();
    let entries = vec![
        TemplateEntry::new("templates/smoke/sub", "sub", true, false).unwrap(),
        file("templates/smoke/sub/data.bin", "sub/data.bin"),
        file("templates/smoke/sub/conf.yaml.j2", "sub/conf.yaml.j2")
            .with_source("version: {{ version }}\n".to_string()),
    ];
    let test = &generation.tests()[0];
    let plan = test.generate(&entries).unwrap();
    let first = "out/smoke/smoke_version-3.7.0";
    let second = "out/smoke/smoke_version-3.8.0";
    let template = "templates/smoke/sub/conf.yaml.j2";
    assert_eq!(
        plan.steps(),
        &vec![
            create_dir_all("out/smoke"),
            create_dir(first),
            create_dir(second),
            create_dir(&format!("{}/sub", first)),
            create_dir(&format!("{}/sub", second)),
            copy("templates/smoke/sub/data.bin", &format!("{}/sub/data.bin", first)),
            copy("templates/smoke/sub/data.bin", &format!("{}/sub/data.bin", second)),
            render(template, &test.scenarios()[0], &format!("{}/sub/conf.yaml", first)),
            render(template, &test.scenarios()[1], &format!("{}/sub/conf.yaml", second)),
        ]
    );
    assert_eq!(template_names(&plan), texts(&[template]));
}

#[test]
fn every_plain_file_is_copied_into_every_scenario() {
    let generation = TestGeneration::new("out", "templates", definition(), "kuttl.j2").unwrap();
    let entries = vec![
        file("templates/smoke/a.txt", "a.txt"),
        TemplateEntry::new("templates/smoke/d", "d", true, false).unwrap(),
        file("templates/smoke/d/b.txt", "d/b.txt"),
    ];
    let test = &generation.tests()[0];
    let plan = test.generate(&entries).unwrap();
    let steps = plan.steps();
    for scenario in test.scenarios() {
        let files = [("templates/smoke/a.txt", "a.txt"), ("templates/smoke/d/b.txt", "d/b.txt")];
        for (source, relative) in files {
            let expected = copy(source, &format!("{}/{}", scenario.out_dir(), relative));
            assert!(steps.contains(&expected));
        }
        let place = |step: PlanStep| steps.iter().position(|other| *other == step).unwrap();
        let base = place(PlanStep::Perform(scenario.create_base_directory()));
        let sub = place(PlanStep::Perform(scenario.create_directory("d")));
        let file = place(PlanStep::Perform(
            scenario.copy_file("templates/smoke/d/b.txt", "d/b.txt"),
        ));
        assert!(base < sub && sub < file);
    }
}

#[test]
fn planned_targets_lie_in_the_directory_of_the_test() {
    let generation = TestGeneration::new("out", "templates", definition(), "kuttl.j2").unwrap();
    let entries = vec![
        TemplateEntry::new("templates/smoke/d", "d", true, false).unwrap(),
        file("templates/smoke/d/b.txt", "d/b.txt"),
        file("templates/smoke/d/c.j2", "d/c.j2"),
    ];
    let plan = generation.tests()[0].generate(&entries).unwrap();
    for step in plan.steps() {
        let target = match step {
            PlanStep::Perform(operation) => operation.target(),
            PlanStep::Render(request) => request.path(),
        };
        assert!(target == "out/smoke" || target.starts_with("out/smoke/"));
    }
}

#[test]
fn test_without_entries_only_makes_its_directories() {
    let generation = TestGeneration::new("out", "templates", definition(), "kuttl.j2").unwrap();
    let plan = generation.tests()[1].generate(&vec![]).unwrap();
    assert_eq!(plan.steps(), &vec![create_dir_all("out/plain"), create_dir("out/plain/plain")]);
    assert!(template_names(&plan).is_empty());
}

#[test]
fn whole_generation_is_planned_in_order() {
    let generation =
        TestGeneration::new("out", "templates", definition(), "conf/kuttl.j2").unwrap();
    let walks = vec![
        vec![file("templates/smoke/a.j2", "a.j2")
            .with_source("{{ test_scenario.values.version }}".to_string())],
        vec![file("templates/plain/b", "b")],
        vec![file("templates/extra/c", "c")],
    ];
    let plans = generation
        .generate("{% for name in test_names %}- {{ name }}\n{% endfor %}", &walks)
        .unwrap();
    assert_eq!(plans.len(), 3);
    let listing = PlanStep::Render(RenderRequest::new(
        "conf/kuttl.j2",
        None,
        "out/kuttl-test.yaml".to_string(),
        generation.kuttl_context(),
    ));
    assert_eq!(plans[0].steps(), &vec![create_dir_all("out"), listing]);
    assert_eq!(template_names(&plans[0]), texts(&["conf/kuttl.j2"]));
    let smoke = &generation.tests()[0];
    let template = "templates/smoke/a.j2";
    assert_eq!(
        plans[1].steps(),
        &vec![
            create_dir_all("out/smoke"),
            create_dir("out/smoke/smoke_version-3.7.0"),
            create_dir("out/smoke/smoke_version-3.8.0"),
            render(template, &smoke.scenarios()[0], "out/smoke/smoke_version-3.7.0/a"),
            render(template, &smoke.scenarios()[1], "out/smoke/smoke_version-3.8.0/a"),
        ]
    );
    assert_eq!(
        plans[2].steps(),
        &vec![
            create_dir_all("out/plain"),
            create_dir("out/plain/plain"),
            copy("templates/plain/b", "out/plain/plain/b"),
        ]
    );
}

#[test]
fn test_without_a_walk_is_refused() {
    let generation = TestGeneration::new("out", "templates", definition(), "kuttl.j2").unwrap();
    let error = generation.generate("{{ broken", &vec![vec![]]).unwrap_err();
    assert_eq!(
        error,
        GenerationError::TemplateWalk {
            path: "templates/plain".to_string(),
            cause: "the template tree was not walked".to_string()
        }
    );
    assert_eq!(error.kind(), ErrorKind::TemplateWalk);
}

#[test]
fn templated_file_found_twice_is_refused() {
    let generation = TestGeneration::new("out", "templates", definition(), "kuttl.j2").unwrap();
    let entries = vec![
        file("templates/smoke/a.j2", "a.j2").with_source("{{ broken".to_string()),
        file("templates/smoke/b.txt", "b.txt"),
        file("templates/smoke/b.txt", "b.txt"),
        file("templates/smoke/c.j2", "c.j2"),
        file("templates/smoke/a.j2", "x/a.j2"),
        file("templates/smoke/c.j2", "c.j2"),
    ];
    let expected = GenerationError::RepeatedTemplate { path: "templates/smoke/a.j2".to_string() };
    assert_eq!(check_templates(&entries), Err(expected));
    let error = generation.tests()[0].generate(&entries).unwrap_err();
    assert_eq!(
        error,
        GenerationError::RepeatedTemplate { path: "templates/smoke/a.j2".to_string() }
    );
    assert_eq!(error.kind(), ErrorKind::TemplateWalk);
    let error = generation.generate("", &vec![entries, vec![]]).unwrap_err();
    assert_eq!(
        error,
        GenerationError::RepeatedTemplate { path: "templates/smoke/a.j2".to_string() }
    );
}

#[test]
fn repeated_plain_files_and_directories_pass_the_check() {
    let entries = vec![
        file("templates/smoke/b.txt", "b.txt"),
        file("templates/smoke/b.txt", "b.txt"),
        TemplateEntry::new("templates/smoke/a.j2", "a.j2", true, false).unwrap(),
        file("templates/smoke/a.j2", "a.j2"),
    ];
    assert_eq!(check_templates(&entries), Ok(()));
    assert_eq!(check_templates(&vec![]), Ok(()));
}

#[test]
fn refused_operations_become_failures() {
    let operation = FileOperation::CreateDir { path: "out/smoke/smoke_version-3.8.0".to_string() };
    let conflict = operation.failure(true, "File exists (os error 17)");
    assert_eq!(
        conflict,
        GenerationError::OutputConflict { path: "out/smoke/smoke_version-3.8.0".to_string() }
    );
    assert_eq!(conflict.kind(), ErrorKind::Io);
    let copying =
        FileOperation::CopyFile { from: "templates/a".to_string(), to: "out/a".to_string() };
    let denied = copying.failure(false, "Permission denied (os error 13)");
    assert_eq!(
        denied,
        GenerationError::CopyFile {
            from: "templates/a".to_string(),
            to: "out/a".to_string(),
            cause: "Permission denied (os error 13)".to_string()
        }
    );
    assert_eq!(denied.kind(), ErrorKind::Io);
    assert_eq!(
        copying.failure(true, "File exists (os error 17)"),
        GenerationError::OutputConflict { path: "out/a".to_string() }
    );
    let making = FileOperation::CreateDir { path: "out/d".to_string() };
    assert_eq!(
        making.failure(false, "Permission denied (os error 13)"),
        GenerationError::Io {
            path: "out/d".to_string(),
            cause: "Permission denied (os error 13)".to_string()
        }
    );
    let writing = FileOperation::WriteFile { path: "out/b".to_string(), content: "t".to_string() };
    assert_eq!(writing.target(), "out/b");
    assert_eq!(FileOperation::CreateDirAll { path: "out".to_string() }.target(), "out");
    assert_eq!(
        writing.failure(true, "exists"),
        GenerationError::OutputConflict { path: "out/b".to_string() }
    );
}

#[test]
fn failures_are_told_in_one_line() {
    let text = |value: &str| value.to_string();
    assert_eq!(
        GenerationError::DuplicateDimension { name: text("db") }.message(),
        "configuration: dimension 'db' is declared twice"
    );
    assert_eq!(
        GenerationError::EmptyDimension { name: text("db") }.message(),
        "configuration: dimension 'db' has no values"
    );
    assert_eq!(
        GenerationError::UnknownDimension { test: text("smoke"), dimension: text("os") }.message(),
        "configuration: test 'smoke' selects the unknown dimension 'os'"
    );
    assert_eq!(
        GenerationError::CopyFile { from: text("t/a"), to: text("out/a"), cause: text("denied") }
            .message(),
        "file system: copying t/a to out/a: denied"
    );
    assert_eq!(
        GenerationError::Io { path: text("out/a"), cause: text("denied") }.message(),
        "file system: out/a: denied"
    );
    assert_eq!(
        GenerationError::OutputConflict { path: text("out/a") }.message(),
        "file system: out/a exists already"
    );
    assert_eq!(
        GenerationError::TemplateRender {
            template: text("t/a.j2"),
            scenario: Some(text("smoke_db-v1")),
            cause: text("no variable")
        }
        .message(),
        "render: template 't/a.j2' for scenario 'smoke_db-v1': no variable"
    );
    assert_eq!(
        GenerationError::TemplateRender {
            template: text("t/a.j2"),
            scenario: None,
            cause: text("no end")
        }
        .message(),
        "render: template 't/a.j2': no end"
    );
    assert_eq!(
        GenerationError::TemplateWalk { path: text("t/smoke"), cause: text("gone") }.message(),
        "walk: t/smoke: gone"
    );
    assert_eq!(
        GenerationError::RepeatedTemplate { path: text("t/smoke/a.j2") }.message(),
        "walk: t/smoke/a.j2 was found more than once"
    );
}
