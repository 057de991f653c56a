//! Generation of the test directories. The layout is:
//!
//! ```text
//! out_dir/
//!   kuttl-test.yaml
//!   test/
//!     test_scenario1/
//!     test_scenario2/
//!     ...
//!   test2/
//!     ...
//! ```
//!
//! Every test is expanded into its scenarios when the generation is set up.
//! What the scenarios need on disk is then planned from the entries of the
//! test's template tree, entry by entry and, for each entry, scenario by
//! scenario.

use crate::entry::{EntryKind, TemplateEntry, TemplateEntryView};
use crate::error::{GenerationError, GenerationErrorView};
use crate::naming::{
    bound_values, dir_name, scenario_dir_name, zip_bindings, Binding, BindingView,
};
use crate::operation::{FileOperation, FileOperationView};
use crate::paths::{join, joined, rendered_path, without_template_suffix};
use crate::plan::{Plan, PlanStep, PlanStepView, PlanView, RenderRequest, RenderRequestView};
use crate::product::{cartesian_product, lemma_product_items, multi_cartesian_product};
use crate::rendering::{is_outcome, parse_template, parsing_result};
use crate::template::{
    context_entries, insert_list, insert_table, insert_text, new_context, new_engine, no_entries,
    no_names, references_resolved, template_names, template_refusal, ContextValue,
};
use crate::test_definition::{
    all_known, clone_texts, dimensions_well_formed, first_unknown, first_unknown_dimension,
    is_first_problem, lemma_first_problem, lookup, selected_values, table_content, well_formed,
    TestDefinition, TestDefinitionView,
};
use vstd::hash_map::StringHashMap;
use vstd::prelude::*;
use vstd::string::StringExecFns;

verus! {

/// The name under which a template finds all bindings of its scenario.
pub open spec fn aggregate_name() -> Seq<char> {
    "test_scenario"@
}

/// The name under which the aggregate holds the bindings.
pub open spec fn aggregate_field() -> Seq<char> {
    "values"@
}

/// Each dimension's name bound to the value that holds for it.
pub open spec fn binding_entries(bindings: Seq<BindingView>) -> Map<Seq<char>, ContextValue> {
    bound_values(bindings).map_values(|value: Seq<char>| ContextValue::Text(value))
}

/// What a template of a scenario with `bindings` can refer to: each
/// dimension by its name, and all of them as `test_scenario.values`.
pub open spec fn scenario_entries(bindings: Seq<BindingView>) -> Map<Seq<char>, ContextValue> {
    binding_entries(bindings).insert(
        aggregate_name(),
        ContextValue::Table(
            no_entries().insert(
                aggregate_field(),
                ContextValue::Table(binding_entries(bindings)),
            ),
        ),
    )
}

/// One instance of a test, with one value for each of the test's dimensions.
#[derive(Debug, PartialEq)]
pub struct TestScenario {
    out_dir: String,
    test_name: String,
    name: String,
    bindings: Vec<Binding>,
}

/// The mathematical content of a [`TestScenario`].
pub struct TestScenarioView {
    /// The name of the test that the scenario belongs to.
    pub test_name: Seq<char>,
    /// The dimensions and their values, in the order of the test's dimensions.
    pub bindings: Seq<BindingView>,
    /// The directory that holds the scenario's files.
    pub out_dir: Seq<char>,
}

impl TestScenarioView {
    /// The name of the scenario, which is the name of its directory.
    pub open spec fn name(self) -> Seq<char> {
        scenario_dir_name(self.test_name, self.bindings)
    }

    /// The bindings as a mapping: the value that holds for each dimension.
    /// Where the test selects a dimension more than once, the value of the
    /// last selection holds.
    pub open spec fn bound(self) -> Map<Seq<char>, Seq<char>> {
        bound_values(self.bindings)
    }

    /// What the scenario's templates can refer to, by name.
    pub open spec fn context(self) -> Map<Seq<char>, ContextValue> {
        scenario_entries(self.bindings)
    }
}

/// The scenario of `test_name` with `bindings`, placed below `test_base_dir`.
pub open spec fn scenario_of(
    test_base_dir: Seq<char>,
    test_name: Seq<char>,
    bindings: Seq<BindingView>,
) -> TestScenarioView {
    TestScenarioView {
        test_name,
        bindings,
        out_dir: joined(test_base_dir, scenario_dir_name(test_name, bindings)),
    }
}

impl View for TestScenario {
    type V = TestScenarioView;

    closed spec fn view(&self) -> TestScenarioView {
        TestScenarioView {
            test_name: self.test_name@,
            bindings: self.bindings.deep_view(),
            out_dir: self.out_dir@,
        }
    }
}

impl DeepView for TestScenario {
    type V = TestScenarioView;

    open spec fn deep_view(&self) -> TestScenarioView {
        self@
    }
}

impl TestScenario {
    /// The stored name is the name of the scenario's directory.
    #[verifier::type_invariant]
    spec fn well_formed(self) -> bool {
        self.name@ == scenario_dir_name(self.test_name@, self.bindings.deep_view())
    }

    /// The scenario of the test `test_name` with `bindings`. Its directory
    /// lies below `test_base_dir` and is named after the test and the
    /// bindings, in their order.
    pub fn new(test_base_dir: &str, test_name: &str, bindings: Vec<Binding>) -> (scenario:
        TestScenario)
        ensures
            scenario@ == scenario_of(test_base_dir@, test_name@, bindings.deep_view()),
    {
        let name = dir_name(test_name, &bindings);
        let out_dir = join(test_base_dir, name.as_str());
        TestScenario { out_dir, test_name: String::from_str(test_name), name, bindings }
    }

    /// The operation that creates the scenario's directory.
    pub fn create_base_directory(&self) -> (operation: FileOperation)
        ensures
            operation@ == (FileOperationView::CreateDir { path: self@.out_dir }),
    {
        FileOperation::CreateDir { path: self.out_dir.clone() }
    }

    /// The operation that creates the directory `path` of the template tree
    /// inside the scenario's directory.
    pub fn create_directory(&self, path: &str) -> (operation: FileOperation)
        ensures
            operation@ == (FileOperationView::CreateDir { path: joined(self@.out_dir, path@) }),
    {
        FileOperation::CreateDir { path: join(self.out_dir.as_str(), path) }
    }

    /// The operation that copies the file at `full_source_path` to
    /// `partial_target_path` inside the scenario's directory.
    pub fn copy_file(&self, full_source_path: &str, partial_target_path: &str) -> (operation:
        FileOperation)
        ensures
            operation@ == (FileOperationView::CopyFile {
                from: full_source_path@,
                to: joined(self@.out_dir, partial_target_path@),
            }),
    {
        FileOperation::CopyFile {
            from: String::from_str(full_source_path),
            to: join(self.out_dir.as_str(), partial_target_path),
        }
    }

    /// What the scenario's templates are rendered with: each dimension bound
    /// to its value under its name, and all of them as `test_scenario.values`.
    pub fn context(&self) -> (context: tera::Context)
        ensures
            context_entries(context) == self@.context(),
    {
        let ghost all = self.bindings.deep_view();
        let mut context = new_context();
        let mut values = new_context();
        let mut i: usize = 0;
        assert(all.take(0) =~= Seq::empty());
        assert(binding_entries(all.take(0)) =~= no_entries());
        while i < self.bindings.len()
            invariant
                i <= self.bindings.len(),
                all == self.bindings.deep_view(),
                context_entries(context) == binding_entries(all.take(i as int)),
                context_entries(values) == binding_entries(all.take(i as int)),
            decreases self.bindings.len() - i,
        {
            let binding = &self.bindings[i];
            proof {
                assert(all.take(i as int + 1).drop_last() =~= all.take(i as int));
                assert(all.take(i as int + 1).last() == binding@);
                assert(binding_entries(all.take(i as int + 1)) =~= binding_entries(
                    all.take(i as int),
                ).insert(binding@.name, ContextValue::Text(binding@.value)));
            }
            insert_text(&mut context, binding.name.as_str(), binding.value.as_str());
            insert_text(&mut values, binding.name.as_str(), binding.value.as_str());
            i = i + 1;
        }
        assert(all.take(self.bindings.len() as int) =~= all);
        let mut aggregate = new_context();
        insert_table(&mut aggregate, "values", values);
        insert_table(&mut context, "test_scenario", aggregate);
        context
    }

    /// The request to render the template kept under `template_name` for
    /// this scenario: with the scenario's context, and with the text going to
    /// `partial_output_path` inside the scenario's directory.
    pub fn render_template(&self, template_name: &str, partial_output_path: &str) -> (request:
        RenderRequest)
        ensures
            request@ == (RenderRequestView {
                template: template_name@,
                scenario: Some(self@.name()),
                path: joined(self@.out_dir, partial_output_path@),
                context: self@.context(),
            }),
    {
        proof {
            use_type_invariant(self);
        }
        RenderRequest::new(
            template_name,
            Some(self.name.as_str()),
            join(self.out_dir.as_str(), partial_output_path),
            self.context(),
        )
    }

    /// The directory that holds the scenario's files.
    pub fn out_dir(&self) -> (path: &str)
        ensures
            path@ == self@.out_dir,
    {
        self.out_dir.as_str()
    }

    /// The name of the scenario, which is the name of its directory.
    pub fn name(&self) -> (name: &str)
        ensures
            name@ == self@.name(),
    {
        proof {
            use_type_invariant(self);
        }
        self.name.as_str()
    }

    /// The name of the test that the scenario belongs to.
    pub fn test_name(&self) -> (name: &str)
        ensures
            name@ == self@.test_name,
    {
        self.test_name.as_str()
    }

    /// The dimensions and their values, in the order of the test's dimensions.
    pub fn bindings(&self) -> (bindings: &Vec<Binding>)
        ensures
            bindings.deep_view() == self@.bindings,
    {
        &self.bindings
    }
}

/// The scenarios of a test: one for each combination of the values in `lists`,
/// which are the values of the dimensions `names`. The combinations come with
/// the last dimension varying fastest.
pub open spec fn expansion(
    test_out_dir: Seq<char>,
    test_name: Seq<char>,
    names: Seq<Seq<char>>,
    lists: Seq<Seq<Seq<char>>>,
) -> Seq<TestScenarioView> {
    let combinations = cartesian_product(lists);
    Seq::new(
        combinations.len(),
        |k: int| scenario_of(test_out_dir, test_name, zip_bindings(names, combinations[k])),
    )
}

/// A test with its scenarios. The scenarios differ only in the values of the
/// dimensions that the test selects: there is one scenario for every
/// combination of them.
#[derive(Debug, PartialEq)]
pub struct Test {
    out_dir: String,
    template_dir: String,
    test_name: String,
    scenarios: Vec<TestScenario>,
}

/// The mathematical content of a [`Test`].
pub struct TestView {
    /// The directory that holds the directories of the scenarios.
    pub out_dir: Seq<char>,
    /// The root of the test's template tree.
    pub template_dir: Seq<char>,
    pub test_name: Seq<char>,
    pub scenarios: Seq<TestScenarioView>,
}

impl TestView {
    /// Every scenario belongs to the test, and its directory lies in the
    /// directory of the test under the scenario's name.
    pub open spec fn well_placed(self) -> bool {
        forall|k: int|
            0 <= k < self.scenarios.len() ==> #[trigger] self.scenarios[k] == scenario_of(
                self.out_dir,
                self.test_name,
                self.scenarios[k].bindings,
            )
    }
}

impl View for Test {
    type V = TestView;

    closed spec fn view(&self) -> TestView {
        TestView {
            out_dir: self.out_dir@,
            template_dir: self.template_dir@,
            test_name: self.test_name@,
            scenarios: self.scenarios.deep_view(),
        }
    }
}

impl DeepView for Test {
    type V = TestView;

    open spec fn deep_view(&self) -> TestView {
        self@
    }
}

/// The bindings of `names` to `values`, position by position.
fn make_bindings(names: &Vec<String>, values: &Vec<String>) -> (bindings: Vec<Binding>)
    requires
        names.len() == values.len(),
    ensures
        bindings.deep_view() == zip_bindings(names.deep_view(), values.deep_view()),
{
    let mut bindings: Vec<Binding> = Vec::new();
    let mut j: usize = 0;
    while j < names.len()
        invariant
            j <= names.len(),
            names.len() == values.len(),
            bindings.len() == j,
            forall|i: int|
                0 <= i < j ==> (#[trigger] bindings[i])@ == (BindingView {
                    name: names[i]@,
                    value: values[i]@,
                }),
        decreases names.len() - j,
    {
        bindings.push(Binding { name: names[j].clone(), value: values[j].clone() });
        j = j + 1;
    }
    assert(bindings.deep_view() =~= zip_bindings(names.deep_view(), values.deep_view()));
    bindings
}

/// What the entry asks for in the scenario: a directory is created, a
/// templated file is rendered with the scenario's context and written under
/// its path without the template suffix, any other file is copied under its
/// own path.
pub open spec fn entry_step(scenario: TestScenarioView, entry: TemplateEntryView) -> PlanStepView {
    match entry.kind {
        EntryKind::Directory => PlanStepView::Perform(
            FileOperationView::CreateDir { path: joined(scenario.out_dir, entry.relative_path) },
        ),
        EntryKind::TemplatedFile => PlanStepView::Render(
            RenderRequestView {
                template: entry.path,
                scenario: Some(scenario.name()),
                path: joined(scenario.out_dir, rendered_path(entry.relative_path)),
                context: scenario.context(),
            },
        ),
        EntryKind::PlainFile => PlanStepView::Perform(
            FileOperationView::CopyFile {
                from: entry.path,
                to: joined(scenario.out_dir, entry.relative_path),
            },
        ),
    }
}

/// What the entry asks for: its step in every scenario, in the order of the
/// scenarios.
pub open spec fn entry_steps(
    scenarios: Seq<TestScenarioView>,
    entry: TemplateEntryView,
) -> Seq<PlanStepView> {
    Seq::new(scenarios.len(), |k: int| entry_step(scenarios[k], entry))
}

/// What the entries ask for, entry after entry.
pub open spec fn tree_steps(
    scenarios: Seq<TestScenarioView>,
    entries: Seq<TemplateEntryView>,
) -> Seq<PlanStepView>
    decreases entries.len(),
{
    if entries.len() == 0 {
        Seq::empty()
    } else {
        tree_steps(scenarios, entries.drop_last()) + entry_steps(scenarios, entries.last())
    }
}

/// The steps that make the directory of the test and, in it, the directory
/// of every scenario.
pub open spec fn base_steps(test: TestView) -> Seq<PlanStepView> {
    seq![PlanStepView::Perform(FileOperationView::CreateDirAll { path: test.out_dir })] + Seq::new(
        test.scenarios.len(),
        |k: int|
            PlanStepView::Perform(FileOperationView::CreateDir { path: test.scenarios[k].out_dir }),
    )
}

/// Everything that the test asks for: first the directories of the test and
/// of its scenarios, then what the entries of the template tree ask for.
pub open spec fn test_steps(test: TestView, entries: Seq<TemplateEntryView>) -> Seq<PlanStepView> {
    base_steps(test) + tree_steps(test.scenarios, entries)
}

/// None of the entries is a templated file.
pub open spec fn no_templates(entries: Seq<TemplateEntryView>) -> bool {
    forall|i: int|
        0 <= i < entries.len() ==> (#[trigger] entries[i]).kind != EntryKind::TemplatedFile
}

/// Entry `j` is a templated file at the place of an earlier templated file.
pub open spec fn repeated_template(entries: Seq<TemplateEntryView>, j: int) -> bool {
    &&& entries[j].kind == EntryKind::TemplatedFile
    &&& exists|i: int|
        0 <= i < j && (#[trigger] entries[i]).kind == EntryKind::TemplatedFile && entries[i].path
            == entries[j].path
}

/// Entry `j` is the first templated file at the place of an earlier one.
pub open spec fn first_repeated_template(entries: Seq<TemplateEntryView>, j: int) -> bool {
    &&& 0 <= j < entries.len()
    &&& repeated_template(entries, j)
    &&& forall|i: int| 0 <= i < j ==> !repeated_template(entries, i)
}

/// No two templated files among the entries are found at the same place.
pub open spec fn templates_distinct(entries: Seq<TemplateEntryView>) -> bool {
    forall|j: int| 0 <= j < entries.len() ==> !repeated_template(entries, j)
}

/// The places of the templated files among the entries.
pub open spec fn template_paths(entries: Seq<TemplateEntryView>) -> Set<Seq<char>> {
    Set::new(
        |path: Seq<char>|
            exists|i: int|
                0 <= i < entries.len() && (#[trigger] entries[i]).kind == EntryKind::TemplatedFile
                    && entries[i].path == path,
    )
}

/// What the parser says against entry `i`, parsed after the entries before
/// it: nothing if the entry is no templated file or if its text is accepted.
pub open spec fn entry_refusal(entries: Seq<TemplateEntryView>, i: int) -> Option<Seq<Seq<char>>> {
    if entries[i].kind == EntryKind::TemplatedFile {
        template_refusal(template_paths(entries.take(i)), entries[i].path, entries[i].source)
    } else {
        None
    }
}

/// The parser accepts the text of every templated file among the entries,
/// each parsed after the entries before it.
pub open spec fn all_accepted(entries: Seq<TemplateEntryView>) -> bool {
    forall|i: int| 0 <= i < entries.len() ==> (#[trigger] entry_refusal(entries, i)).is_none()
}

/// Entry `i` is the first whose text the parser refuses.
pub open spec fn first_refused(entries: Seq<TemplateEntryView>, i: int) -> bool {
    &&& 0 <= i < entries.len()
    &&& entry_refusal(entries, i).is_some()
    &&& forall|j: int| 0 <= j < i ==> (#[trigger] entry_refusal(entries, j)).is_none()
}

/// The entries can be planned: no two templated files are found at the same
/// place, and the parser accepts the text of each.
pub open spec fn plannable(entries: Seq<TemplateEntryView>) -> bool {
    templates_distinct(entries) && all_accepted(entries)
}

/// `error` is the failure that entries are refused with: that of the first
/// templated file found at the place of an earlier one or, if there is none,
/// that of the first templated file whose text the parser refuses.
pub open spec fn is_test_failure(
    error: GenerationErrorView,
    entries: Seq<TemplateEntryView>,
) -> bool {
    if !templates_distinct(entries) {
        is_repetition_failure(error, entries)
    } else {
        exists|i: int|
            #[trigger] first_refused(entries, i) && parsing_result(
                entries[i].path,
                entry_refusal(entries, i),
            ) == Err::<(), GenerationErrorView>(error)
    }
}

/// `error` is the failure of the first templated file that is found at the
/// place of an earlier one.
pub open spec fn is_repetition_failure(
    error: GenerationErrorView,
    entries: Seq<TemplateEntryView>,
) -> bool {
    exists|j: int|
        #[trigger] first_repeated_template(entries, j) && error
            == (GenerationErrorView::RepeatedTemplate { path: entries[j].path })
}

/// The places of the templated files among the entries up to and with entry
/// `i` are those among the entries before it and, if entry `i` is a
/// templated file, its own.
pub proof fn lemma_template_paths_step(entries: Seq<TemplateEntryView>, i: int)
    requires
        0 <= i < entries.len(),
    ensures
        template_paths(entries.take(i + 1)) == if entries[i].kind == EntryKind::TemplatedFile {
            template_paths(entries.take(i)).insert(entries[i].path)
        } else {
            template_paths(entries.take(i))
        },
        entries[i].kind == EntryKind::TemplatedFile && !repeated_template(entries, i)
            ==> !template_paths(entries.take(i)).contains(entries[i].path),
{
    let before = entries.take(i);
    let with = entries.take(i + 1);
    let expected = if entries[i].kind == EntryKind::TemplatedFile {
        template_paths(before).insert(entries[i].path)
    } else {
        template_paths(before)
    };
    assert forall|path: Seq<char>| template_paths(with).contains(path) <==> expected.contains(
        path,
    ) by {
        if template_paths(with).contains(path) {
            let x = choose|x: int|
                0 <= x < with.len() && (#[trigger] with[x]).kind == EntryKind::TemplatedFile
                    && with[x].path == path;
            if x < i {
                assert(before[x] == with[x]);
            }
        }
        if expected.contains(path) {
            if template_paths(before).contains(path) {
                let x = choose|x: int|
                    0 <= x < before.len() && (#[trigger] before[x]).kind
                        == EntryKind::TemplatedFile && before[x].path == path;
                assert(with[x] == before[x]);
            } else {
                assert(with[i] == entries[i]);
            }
        }
    }
    assert(template_paths(with) =~= expected);
    if entries[i].kind == EntryKind::TemplatedFile && template_paths(before).contains(
        entries[i].path,
    ) {
        let x = choose|x: int|
            0 <= x < before.len() && (#[trigger] before[x]).kind == EntryKind::TemplatedFile
                && before[x].path == entries[i].path;
        assert(entries[x] == before[x]);
        assert(repeated_template(entries, i));
    }
}

/// Checks that no two templated files among the entries are found at the
/// same place, and reports the first one that repeats an earlier one.
pub fn check_templates(entries: &Vec<TemplateEntry>) -> (result: Result<(), GenerationError>)
    ensures
        result.is_ok() == templates_distinct(entries.deep_view()),
        result matches Err(error) ==> is_repetition_failure(error@, entries.deep_view()),
{
    let ghost all = entries.deep_view();
    let mut seen: StringHashMap<()> = StringHashMap::new();
    let mut j: usize = 0;
    proof {
        assert forall|x: int| first_repeated_template(all, x) implies !templates_distinct(all) by {
            assert(repeated_template(all, x));
        }
    }
    while j < entries.len()
        invariant
            j <= entries.len(),
            all == entries.deep_view(),
            forall|i: int| 0 <= i < j ==> !repeated_template(all, i),
            forall|path: Seq<char>|
                seen@.contains_key(path) <==> exists|i: int|
                    0 <= i < j && (#[trigger] all[i]).kind == EntryKind::TemplatedFile
                        && all[i].path == path,
        decreases entries.len() - j,
    {
        let entry = &entries[j];
        assert(all[j as int] == entry@);
        match entry.kind() {
            EntryKind::TemplatedFile => {
                if seen.contains_key(entry.path()) {
                    assert(first_repeated_template(all, j as int));
                    return Err(
                        GenerationError::RepeatedTemplate { path: String::from_str(entry.path()) },
                    );
                }
                seen.insert(String::from_str(entry.path()), ());
                proof {
                    assert forall|path: Seq<char>|
                        seen@.contains_key(path) <==> exists|i: int|
                            0 <= i < j + 1 && (#[trigger] all[i]).kind == EntryKind::TemplatedFile
                                && all[i].path == path by {
                        if seen@.contains_key(path) {
                            if path == entry@.path {
                                assert(all[j as int].path == path);
                            } else {
                                let i = choose|i: int|
                                    0 <= i < j && (#[trigger] all[i]).kind
                                        == EntryKind::TemplatedFile && all[i].path == path;
                                assert(all[i].path == path);
                            }
                        }
                    }
                }
            },
            _ => {
                proof {
                    assert forall|path: Seq<char>|
                        seen@.contains_key(path) <==> exists|i: int|
                            0 <= i < j + 1 && (#[trigger] all[i]).kind == EntryKind::TemplatedFile
                                && all[i].path == path by {
                        if seen@.contains_key(path) {
                            let i = choose|i: int|
                                0 <= i < j && (#[trigger] all[i]).kind == EntryKind::TemplatedFile
                                    && all[i].path == path;
                            assert(all[i].path == path);
                        }
                    }
                }
            },
        }
        j = j + 1;
    }
    Ok(())
}

impl Test {
    /// Every scenario lies in the directory of the test.
    #[verifier::type_invariant]
    spec fn placed(self) -> bool {
        self@.well_placed()
    }

    /// The test `test_name` without scenarios. Its output goes to the
    /// directory of its name below `out_base_dir`, and its templates are read
    /// from the directory of its name below `template_base_dir`.
    pub fn new(out_base_dir: &str, template_base_dir: &str, test_name: &str) -> (test: Test)
        ensures
            test@ == (TestView {
                out_dir: joined(out_base_dir@, test_name@),
                template_dir: joined(template_base_dir@, test_name@),
                test_name: test_name@,
                scenarios: Seq::empty(),
            }),
    {
        let scenarios: Vec<TestScenario> = Vec::new();
        assert(scenarios.deep_view() =~= Seq::empty());
        Test {
            out_dir: join(out_base_dir, test_name),
            template_dir: join(template_base_dir, test_name),
            test_name: String::from_str(test_name),
            scenarios,
        }
    }

    /// The values that `dimension_values` holds for each of
    /// `used_dimensions`, or the failure of the first dimension that is not
    /// found.
    fn select_values(
        &self,
        used_dimensions: &Vec<String>,
        dimension_values: &StringHashMap<Vec<String>>,
    ) -> (result: Result<Vec<Vec<String>>, GenerationError>)
        ensures
            result.is_ok() == all_known(
                used_dimensions.deep_view(),
                table_content(*dimension_values),
            ),
            match result {
                Ok(lists) => lists.deep_view() == selected_values(
                    used_dimensions.deep_view(),
                    table_content(*dimension_values),
                ),
                Err(error) => exists|j: int|
                    #[trigger] first_unknown(
                        used_dimensions.deep_view(),
                        table_content(*dimension_values),
                        j,
                    ) && error@ == (GenerationErrorView::UnknownDimension {
                        test: self@.test_name,
                        dimension: used_dimensions.deep_view()[j],
                    }),
            },
    {
        let ghost names = used_dimensions.deep_view();
        let ghost table = table_content(*dimension_values);
        let ghost selected = selected_values(names, table);
        let mut lists: Vec<Vec<String>> = Vec::new();
        let mut j: usize = 0;
        while j < used_dimensions.len()
            invariant
                j <= used_dimensions.len(),
                names == used_dimensions.deep_view(),
                table == table_content(*dimension_values),
                selected == selected_values(names, table),
                lists.len() == j,
                forall|i: int| 0 <= i < j ==> table.contains_key(#[trigger] names[i]),
                forall|i: int| 0 <= i < j ==> (#[trigger] lists[i]).deep_view() == selected[i],
            decreases used_dimensions.len() - j,
        {
            let name = &used_dimensions[j];
            assert(names[j as int] == name@);
            match dimension_values.get(name.as_str()) {
                Some(values) => {
                    lists.push(clone_texts(values));
                },
                None => {
                    assert(first_unknown(names, table, j as int));
                    return Err(
                        GenerationError::UnknownDimension {
                            test: self.test_name.clone(),
                            dimension: name.clone(),
                        },
                    );
                },
            }
            j = j + 1;
        }
        assert(lists.deep_view() =~= selected);
        Ok(lists)
    }

    /// Adds one scenario for every combination of the values that
    /// `dimension_values` holds for `used_dimensions`, taken as they are
    /// listed. With no dimension this is the one scenario without bindings;
    /// a dimension that is listed twice is bound twice, and the later value
    /// holds for it. Fails, and adds nothing, if a dimension is not found:
    /// the failure names the first such dimension.
    pub fn add_scenarios_for_values(
        &mut self,
        used_dimensions: &Vec<String>,
        dimension_values: &StringHashMap<Vec<String>>,
    ) -> (result: Result<(), GenerationError>)
        ensures
            result.is_ok() == all_known(
                used_dimensions.deep_view(),
                table_content(*dimension_values),
            ),
            match result {
                Ok(()) => final(self)@ == (TestView {
                    scenarios: old(self)@.scenarios + expansion(
                        old(self)@.out_dir,
                        old(self)@.test_name,
                        used_dimensions.deep_view(),
                        selected_values(
                            used_dimensions.deep_view(),
                            table_content(*dimension_values),
                        ),
                    ),
                    ..old(self)@
                }),
                Err(error) => {
                    &&& final(self)@ == old(self)@
                    &&& exists|j: int|
                        #[trigger] first_unknown(
                            used_dimensions.deep_view(),
                            table_content(*dimension_values),
                            j,
                        ) && error@ == (GenerationErrorView::UnknownDimension {
                            test: old(self)@.test_name,
                            dimension: used_dimensions.deep_view()[j],
                        })
                },
            },
            final(self)@.well_placed(),
    {
        proof {
            use_type_invariant(&*self);
        }
        let ghost names = used_dimensions.deep_view();
        let ghost selected = selected_values(names, table_content(*dimension_values));
        let lists = self.select_values(used_dimensions, dimension_values)?;
        let combinations = multi_cartesian_product(&lists);
        let ghost product = cartesian_product(selected);
        let ghost expanded = expansion(old(self)@.out_dir, old(self)@.test_name, names, selected);
        let mut scenarios: Vec<TestScenario> = Vec::new();
        assert(scenarios.deep_view() =~= Seq::empty());
        core::mem::swap(&mut self.scenarios, &mut scenarios);
        let mut k: usize = 0;
        assert(scenarios.deep_view() =~= old(self)@.scenarios + expanded.take(0));
        while k < combinations.len()
            invariant
                k <= combinations.len(),
                names == used_dimensions.deep_view(),
                selected.len() == names.len(),
                product == cartesian_product(selected),
                combinations.deep_view() == product,
                expanded == expansion(old(self)@.out_dir, old(self)@.test_name, names, selected),
                self.out_dir@ == old(self)@.out_dir,
                self.template_dir@ == old(self)@.template_dir,
                self.test_name@ == old(self)@.test_name,
                scenarios.deep_view() == old(self)@.scenarios + expanded.take(k as int),
                forall|x: int|
                    0 <= x < scenarios.len() ==> #[trigger] scenarios.deep_view()[x]
                        == scenario_of(
                        self.out_dir@,
                        self.test_name@,
                        scenarios.deep_view()[x].bindings,
                    ),
            decreases combinations.len() - k,
        {
            let values = &combinations[k];
            proof {
                lemma_product_items(selected, k as int);
                assert(product[k as int] == values.deep_view());
                assert(values.deep_view().len() == values.len());
            }
            let bindings = make_bindings(used_dimensions, values);
            let scenario = TestScenario::new(
                self.out_dir.as_str(),
                self.test_name.as_str(),
                bindings,
            );
            let ghost before = scenarios.deep_view();
            let ghost added = scenario@;
            assert(added == expanded[k as int]);
            scenarios.push(scenario);
            proof {
                assert(scenarios.deep_view() =~= before.push(added));
                assert(expanded.take(k as int + 1) =~= expanded.take(k as int).push(
                    expanded[k as int],
                ));
                assert(scenarios.deep_view() =~= old(self)@.scenarios + expanded.take(
                    k as int + 1,
                ));
                let after = scenarios.deep_view();
                assert forall|x: int| 0 <= x < after.len() implies #[trigger] after[x]
                    == scenario_of(self.out_dir@, self.test_name@, after[x].bindings) by {
                    if x < before.len() {
                        assert(after[x] == before[x]);
                    }
                }
            }
            k = k + 1;
        }
        assert(expanded.take(combinations.len() as int) =~= expanded);
        self.scenarios = scenarios;
        Ok(())
    }

    /// The steps that make the directory of the test and, in it, the
    /// directory of every scenario.
    fn base_plan(&self) -> (plan: Vec<PlanStep>)
        ensures
            plan.deep_view() == base_steps(self@),
    {
        let mut plan: Vec<PlanStep> = Vec::new();
        plan.push(PlanStep::Perform(FileOperation::CreateDirAll { path: self.out_dir.clone() }));
        let mut k: usize = 0;
        while k < self.scenarios.len()
            invariant
                k <= self.scenarios.len(),
                plan.len() == k + 1,
                plan[0]@ == PlanStepView::Perform(
                    FileOperationView::CreateDirAll { path: self@.out_dir },
                ),
                forall|i: int|
                    0 <= i < k ==> (#[trigger] plan[i + 1])@ == PlanStepView::Perform(
                        FileOperationView::CreateDir { path: self@.scenarios[i].out_dir },
                    ),
            decreases self.scenarios.len() - k,
        {
            let operation = self.scenarios[k].create_base_directory();
            assert(self@.scenarios[k as int] == self.scenarios[k as int]@);
            plan.push(PlanStep::Perform(operation));
            k = k + 1;
        }
        proof {
            let expected = base_steps(self@);
            assert(expected.len() == plan.len());
            assert forall|i: int| 0 <= i < plan.len() implies plan.deep_view()[i]
                == expected[i] by {
                if i > 0 {
                    assert(plan[(i - 1) + 1]@ == PlanStepView::Perform(
                        FileOperationView::CreateDir { path: self@.scenarios[i - 1].out_dir },
                    ));
                }
            }
            assert(plan.deep_view() =~= expected);
        }
        plan
    }

    /// What one entry asks for: its step in every scenario. A templated file
    /// is parsed once and is kept in `engine` under its path.
    fn entry_plan(&self, engine: &mut tera::Tera, entry: &TemplateEntry) -> (result: Result<
        Vec<PlanStep>,
        GenerationError,
    >)
        requires
            references_resolved(*old(engine)),
            entry@.kind == EntryKind::TemplatedFile ==> !template_names(*old(engine)).contains(
                entry@.path,
            ),
        ensures
            match result {
                Ok(plan) => {
                    &&& entry@.kind == EntryKind::TemplatedFile ==> template_refusal(
                        template_names(*old(engine)),
                        entry@.path,
                        entry@.source,
                    ).is_none()
                    &&& plan.deep_view() == entry_steps(self@.scenarios, entry@)
                    &&& references_resolved(*final(engine))
                    &&& template_names(*final(engine)) == if entry@.kind
                        == EntryKind::TemplatedFile {
                        template_names(*old(engine)).insert(entry@.path)
                    } else {
                        template_names(*old(engine))
                    }
                },
                Err(error) => {
                    &&& entry@.kind == EntryKind::TemplatedFile
                    &&& template_refusal(
                        template_names(*old(engine)),
                        entry@.path,
                        entry@.source,
                    ).is_some()
                    &&& parsing_result(
                        entry@.path,
                        template_refusal(template_names(*old(engine)), entry@.path, entry@.source),
                    ) == Err::<(), GenerationErrorView>(error@)
                },
            },
    {
        let kind = entry.kind();
        let target = match kind {
            EntryKind::TemplatedFile => {
                parse_template(engine, entry.path(), entry.path(), entry.source())?;
                without_template_suffix(entry.relative_path())
            },
            _ => String::from_str(entry.relative_path()),
        };
        let mut plan: Vec<PlanStep> = Vec::new();
        let mut k: usize = 0;
        while k < self.scenarios.len()
            invariant
                k <= self.scenarios.len(),
                kind == entry@.kind,
                target@ == if kind == EntryKind::TemplatedFile {
                    rendered_path(entry@.relative_path)
                } else {
                    entry@.relative_path
                },
                plan.len() == k,
                forall|i: int|
                    0 <= i < k ==> (#[trigger] plan[i])@ == entry_step(self@.scenarios[i], entry@),
            decreases self.scenarios.len() - k,
        {
            let scenario = &self.scenarios[k];
            assert(self@.scenarios[k as int] == scenario@);
            let step = match kind {
                EntryKind::Directory => PlanStep::Perform(
                    scenario.create_directory(target.as_str()),
                ),
                EntryKind::PlainFile => PlanStep::Perform(
                    scenario.copy_file(entry.path(), target.as_str()),
                ),
                EntryKind::TemplatedFile => PlanStep::Render(
                    scenario.render_template(entry.path(), target.as_str()),
                ),
            };
            plan.push(step);
            k = k + 1;
        }
        assert(plan.deep_view() =~= entry_steps(self@.scenarios, entry@));
        Ok(plan)
    }

    /// Plans everything that the test asks for, given the entries of its
    /// template tree in the order in which the tree was walked: the directory
    /// of the test, the directory of every scenario, and then, entry by
    /// entry, what the entry asks for in every scenario. The templated files
    /// are parsed in the order of the entries and come with the plan, each
    /// kept under its path.
    ///
    /// Entries with two templated files at one place are refused before
    /// anything is parsed. Apart from that the plan fails exactly if the
    /// parser refuses the text of a templated file, with the failure of the
    /// first such file.
    pub fn generate(&self, entries: &Vec<TemplateEntry>) -> (result: Result<Plan, GenerationError>)
        ensures
            self@.well_placed(),
            result.is_ok() == plannable(entries.deep_view()),
            match result {
                Ok(plan) => plan@ == (PlanView {
                    templates: template_paths(entries.deep_view()),
                    steps: test_steps(self@, entries.deep_view()),
                }),
                Err(error) => is_test_failure(error@, entries.deep_view()),
            },
            no_templates(entries.deep_view()) ==> result.is_ok(),
    {
        proof {
            use_type_invariant(self);
        }
        let ghost all = entries.deep_view();
        proof {
            if no_templates(all) {
                assert forall|j: int| 0 <= j < all.len() implies !repeated_template(all, j) by {
                    assert(all[j].kind != EntryKind::TemplatedFile);
                }
                assert forall|j: int| 0 <= j < all.len() implies (#[trigger] entry_refusal(
                    all,
                    j,
                )).is_none() by {
                    assert(all[j].kind != EntryKind::TemplatedFile);
                }
            }
            assert forall|x: int| first_refused(all, x) implies !all_accepted(all) by {
                assert(entry_refusal(all, x).is_some());
            }
        }
        check_templates(entries)?;
        let mut plan = self.base_plan();
        let mut engine = new_engine();
        let mut i: usize = 0;
        proof {
            assert(all.take(0) =~= Seq::empty());
            assert(plan.deep_view() =~= test_steps(self@, all.take(0)));
            assert(template_paths(all.take(0)) =~= no_names());
        }
        while i < entries.len()
            invariant
                i <= entries.len(),
                all == entries.deep_view(),
                templates_distinct(all),
                self@.well_placed(),
                references_resolved(engine),
                template_names(engine) == template_paths(all.take(i as int)),
                plan.deep_view() == test_steps(self@, all.take(i as int)),
                forall|j: int| 0 <= j < i ==> (#[trigger] entry_refusal(all, j)).is_none(),
                forall|x: int| first_refused(all, x) ==> !all_accepted(all),
            decreases entries.len() - i,
        {
            let entry = &entries[i];
            proof {
                assert(all[i as int] == entry@);
                assert(!repeated_template(all, i as int));
                lemma_template_paths_step(all, i as int);
            }
            let ghost before = plan.deep_view();
            match self.entry_plan(&mut engine, entry) {
                Ok(mut steps) => {
                    let ghost added = steps.deep_view();
                    plan.append(&mut steps);
                    proof {
                        assert(entry_refusal(all, i as int).is_none());
                        assert(plan.deep_view() =~= before + added);
                        assert(all.take(i as int + 1).drop_last() =~= all.take(i as int));
                        assert(all.take(i as int + 1).last() == entry@);
                        assert(plan.deep_view() =~= test_steps(self@, all.take(i as int + 1)));
                    }
                },
                Err(error) => {
                    proof {
                        assert(entry_refusal(all, i as int).is_some());
                        assert(first_refused(all, i as int));
                        assert(is_test_failure(error@, all));
                    }
                    return Err(error);
                },
            }
            i = i + 1;
        }
        assert(all.take(entries.len() as int) =~= all);
        Ok(Plan::new(engine, plan))
    }

    /// The scenarios of the test, in the order of their generation. Each
    /// lies in the directory of the test.
    pub fn scenarios(&self) -> (scenarios: &Vec<TestScenario>)
        ensures
            scenarios.deep_view() == self@.scenarios,
            self@.well_placed(),
    {
        proof {
            use_type_invariant(self);
        }
        &self.scenarios
    }

    /// The name of the test.
    pub fn test_name(&self) -> (name: &str)
        ensures
            name@ == self@.test_name,
    {
        self.test_name.as_str()
    }

    /// The directory that holds the directories of the scenarios.
    pub fn out_dir(&self) -> (path: &str)
        ensures
            path@ == self@.out_dir,
    {
        self.out_dir.as_str()
    }

    /// The root of the test's template tree.
    pub fn template_dir(&self) -> (path: &str)
        ensures
            path@ == self@.template_dir,
    {
        self.template_dir.as_str()
    }
}

/// The name of the file, in the output directory, that lists the tests.
pub open spec fn kuttl_file_name() -> Seq<char> {
    "kuttl-test.yaml"@
}

/// The name under which the template of that file finds the names of the tests.
pub open spec fn test_names_key() -> Seq<char> {
    "test_names"@
}

/// Why a test is refused whose template tree was not handed in.
pub open spec fn unwalked_cause() -> Seq<char> {
    "the template tree was not walked"@
}

/// The generation of a whole definition.
#[derive(Debug, PartialEq)]
pub struct TestGeneration {
    tests: Vec<Test>,
    kuttl_test: String,
    out_dir: String,
}

/// The mathematical content of a [`TestGeneration`].
pub struct TestGenerationView {
    /// The tests with their scenarios, in the order of the definition.
    pub tests: Seq<TestView>,
    /// Where the template of the file that lists the tests is found.
    pub kuttl_test: Seq<char>,
    /// The directory that everything is generated into.
    pub out_dir: Seq<char>,
}

impl View for TestGeneration {
    type V = TestGenerationView;

    closed spec fn view(&self) -> TestGenerationView {
        TestGenerationView {
            tests: self.tests.deep_view(),
            kuttl_test: self.kuttl_test@,
            out_dir: self.out_dir@,
        }
    }
}

/// The test of the definition with its scenarios: one for every combination
/// of the values that `table` holds for the test's dimensions. The test lies
/// in the directory of its name below `out_dir`.
pub open spec fn generated_test(
    out_dir: Seq<char>,
    template_base_dir: Seq<char>,
    test: crate::test_definition::TestView,
    table: Map<Seq<char>, Seq<Seq<char>>>,
) -> TestView {
    TestView {
        out_dir: joined(out_dir, test.name),
        template_dir: joined(template_base_dir, test.name),
        test_name: test.name,
        scenarios: expansion(
            joined(out_dir, test.name),
            test.name,
            test.dimensions,
            selected_values(test.dimensions, table),
        ),
    }
}

/// The tests of the definition with their scenarios, in their order.
pub open spec fn generated_tests(
    out_dir: Seq<char>,
    template_base_dir: Seq<char>,
    definition: TestDefinitionView,
) -> Seq<TestView> {
    Seq::new(
        definition.tests.len(),
        |a: int|
            generated_test(
                out_dir,
                template_base_dir,
                definition.tests[a],
                lookup(definition.dimensions),
            ),
    )
}

/// The generation of `definition` into `out_dir`, with the templates of each
/// test below `template_base_dir`.
pub open spec fn generation_of(
    out_dir: Seq<char>,
    template_base_dir: Seq<char>,
    definition: TestDefinitionView,
    kuttl_test: Seq<char>,
) -> TestGenerationView {
    TestGenerationView {
        tests: generated_tests(out_dir, template_base_dir, definition),
        kuttl_test,
        out_dir,
    }
}

/// The names of the tests, in their order.
pub open spec fn test_names(tests: Seq<TestView>) -> Seq<Seq<char>> {
    Seq::new(tests.len(), |a: int| tests[a].test_name)
}

/// What the template of the file that lists the tests can refer to: the
/// names of the tests, in their order, as `test_names`.
pub open spec fn kuttl_entries(generation: TestGenerationView) -> Map<Seq<char>, ContextValue> {
    no_entries().insert(test_names_key(), ContextValue::List(test_names(generation.tests)))
}

/// The step that renders the file that lists the tests. Its template is
/// kept under the place where it was found.
pub open spec fn kuttl_step(generation: TestGenerationView) -> PlanStepView {
    PlanStepView::Render(
        RenderRequestView {
            template: generation.kuttl_test,
            scenario: None,
            path: joined(generation.out_dir, kuttl_file_name()),
            context: kuttl_entries(generation),
        },
    )
}

/// The steps of the first plan of a generation: the output directory, and
/// the file that lists the tests.
pub open spec fn listing_steps(generation: TestGenerationView) -> Seq<PlanStepView> {
    seq![
        PlanStepView::Perform(FileOperationView::CreateDirAll { path: generation.out_dir }),
        kuttl_step(generation),
    ]
}

/// The plans of a generation: the one that makes the output directory and
/// the file that lists the tests, and then one for each test, in order.
/// `walks[a]` holds the entries of the template tree of test `a`.
pub open spec fn generation_plans(
    generation: TestGenerationView,
    walks: Seq<Seq<TemplateEntryView>>,
) -> Seq<PlanView> {
    Seq::new(
        1 + generation.tests.len(),
        |x: int|
            if x == 0 {
                PlanView {
                    templates: no_names().insert(generation.kuttl_test),
                    steps: listing_steps(generation),
                }
            } else {
                PlanView {
                    templates: template_paths(walks[x - 1]),
                    steps: test_steps(generation.tests[x - 1], walks[x - 1]),
                }
            },
    )
}

/// What the parser says against the text of the template of the file that
/// lists the tests: nothing if it accepts the text.
pub open spec fn listing_refusal(
    generation: TestGenerationView,
    source: Seq<char>,
) -> Option<Seq<Seq<char>>> {
    template_refusal(no_names(), generation.kuttl_test, source)
}

/// The whole generation can be planned: the parser accepts the text of the
/// template of the file that lists the tests, and the entries of every test
/// can be planned.
pub open spec fn generation_plannable(
    generation: TestGenerationView,
    source: Seq<char>,
    walks: Seq<Seq<TemplateEntryView>>,
) -> bool {
    &&& listing_refusal(generation, source).is_none()
    &&& forall|a: int| 0 <= a < generation.tests.len() ==> plannable(#[trigger] walks[a])
}

/// Test `a` is the first whose entries cannot be planned.
pub open spec fn first_unplannable(
    generation: TestGenerationView,
    walks: Seq<Seq<TemplateEntryView>>,
    a: int,
) -> bool {
    &&& 0 <= a < generation.tests.len()
    &&& !plannable(walks[a])
    &&& forall|b: int| 0 <= b < a ==> plannable(#[trigger] walks[b])
}

/// `error` is the failure that a generation is refused with: that of the
/// template of the file that lists the tests or, if the parser accepts that,
/// that of the first test whose entries cannot be planned.
pub open spec fn is_generation_failure(
    error: GenerationErrorView,
    generation: TestGenerationView,
    source: Seq<char>,
    walks: Seq<Seq<TemplateEntryView>>,
) -> bool {
    if listing_refusal(generation, source).is_some() {
        parsing_result(generation.kuttl_test, listing_refusal(generation, source)) == Err::<
            (),
            GenerationErrorView,
        >(error)
    } else {
        exists|a: int|
            #[trigger] first_unplannable(generation, walks, a) && is_test_failure(error, walks[a])
    }
}

impl TestGeneration {
    /// Sets up the generation of `test_definition` into `out_dir`: every test
    /// gets a directory of its name below `out_dir`, with one scenario for
    /// every combination of the values of its dimensions. The templates of a
    /// test are expected in the directory of its name below
    /// `template_base_dir`; `kuttl_test` is where the template of the file
    /// that lists the tests is found.
    ///
    /// A definition that is not well formed is rejected with its first
    /// problem, before anything is planned.
    pub fn new(
        out_dir: &str,
        template_base_dir: &str,
        test_definition: TestDefinition,
        kuttl_test: &str,
    ) -> (result: Result<TestGeneration, GenerationError>)
        ensures
            result.is_ok() == well_formed(test_definition@),
            match result {
                Ok(generation) => generation@ == generation_of(
                    out_dir@,
                    template_base_dir@,
                    test_definition@,
                    kuttl_test@,
                ),
                Err(error) => is_first_problem(test_definition@, error@),
            },
    {
        let ghost definition = test_definition@;
        proof {
            assert forall|problem: GenerationErrorView|
                is_first_problem(definition, problem) implies !well_formed(definition) by {
                lemma_first_problem(definition, problem);
            }
        }
        let dimension_values = test_definition.dimensions_as_map()?;
        let ghost expected = generated_tests(out_dir@, template_base_dir@, definition);
        let mut tests: Vec<Test> = Vec::new();
        let mut a: usize = 0;
        assert(tests.deep_view() =~= expected.take(0));
        while a < test_definition.tests.len()
            invariant
                a <= test_definition.tests.len(),
                definition == test_definition@,
                dimensions_well_formed(definition.dimensions),
                table_content(dimension_values) == lookup(definition.dimensions),
                expected == generated_tests(out_dir@, template_base_dir@, definition),
                tests.deep_view() == expected.take(a as int),
                forall|b: int|
                    0 <= b < a ==> all_known(
                        (#[trigger] definition.tests[b]).dimensions,
                        lookup(definition.dimensions),
                    ),
            decreases test_definition.tests.len() - a,
        {
            let test_def = &test_definition.tests[a];
            assert(definition.tests[a as int] == test_def@);
            let mut test = Test::new(out_dir, template_base_dir, test_def.name.as_str());
            match test.add_scenarios_for_values(&test_def.dimensions, &dimension_values) {
                Ok(()) => {},
                Err(error) => {
                    proof {
                        let j = choose|j: int|
                            #[trigger] first_unknown(
                                test_def@.dimensions,
                                lookup(definition.dimensions),
                                j,
                            ) && error@ == (GenerationErrorView::UnknownDimension {
                                test: test_def@.name,
                                dimension: test_def@.dimensions[j],
                            });
                        assert(first_unknown_dimension(definition, a as int, j));
                    }
                    return Err(error);
                },
            }
            let ghost before = tests.deep_view();
            proof {
                assert(test@.scenarios =~= expected[a as int].scenarios);
                assert(test@ == expected[a as int]);
            }
            tests.push(test);
            proof {
                assert(tests.deep_view() =~= before.push(expected[a as int]));
                assert(expected.take(a as int + 1) =~= expected.take(a as int).push(
                    expected[a as int],
                ));
            }
            a = a + 1;
        }
        assert(expected.take(test_definition.tests.len() as int) =~= expected);
        Ok(
            TestGeneration {
                tests,
                kuttl_test: String::from_str(kuttl_test),
                out_dir: String::from_str(out_dir),
            },
        )
    }

    /// What the template of the file that lists the tests can refer to: the
    /// names of the tests, in their order, as `test_names`.
    pub fn kuttl_context(&self) -> (context: tera::Context)
        ensures
            context_entries(context) == kuttl_entries(self@),
    {
        let mut names: Vec<String> = Vec::new();
        let mut a: usize = 0;
        while a < self.tests.len()
            invariant
                a <= self.tests.len(),
                names.len() == a,
                forall|b: int| 0 <= b < a ==> (#[trigger] names[b])@ == self@.tests[b].test_name,
            decreases self.tests.len() - a,
        {
            assert(self@.tests[a as int] == self.tests[a as int]@);
            names.push(String::from_str(self.tests[a].test_name()));
            a = a + 1;
        }
        assert(names.deep_view() =~= test_names(self@.tests));
        let mut context = new_context();
        insert_list(&mut context, "test_names", &names);
        context
    }

    /// Parses `source`, the text of the template of the file that lists the
    /// tests, and plans the rendering of that file. Fails exactly if the
    /// parser refuses the text; the failure names the place of the template.
    pub fn generate_kuttl_file(&self, source: &str) -> (result: Result<Plan, GenerationError>)
        ensures
            result.is_ok() == listing_refusal(self@, source@).is_none(),
            match result {
                Ok(plan) => plan@ == (PlanView {
                    templates: no_names().insert(self@.kuttl_test),
                    steps: seq![kuttl_step(self@)],
                }),
                Err(error) => parsing_result(self@.kuttl_test, listing_refusal(self@, source@))
                    == Err::<(), GenerationErrorView>(error@),
            },
    {
        let mut engine = new_engine();
        parse_template(&mut engine, self.kuttl_test.as_str(), self.kuttl_test.as_str(), source)?;
        let request = RenderRequest::new(
            self.kuttl_test.as_str(),
            None,
            join(self.out_dir.as_str(), "kuttl-test.yaml"),
            self.kuttl_context(),
        );
        let mut steps: Vec<PlanStep> = Vec::new();
        steps.push(PlanStep::Render(request));
        assert(steps.deep_view() =~= seq![kuttl_step(self@)]);
        Ok(Plan::new(engine, steps))
    }

    /// Plans the whole generation: first the output directory and the file
    /// that lists the tests, with its template parsed from `kuttl_source`,
    /// and then, test by test, what the test asks for. `walks` holds, for
    /// each test in order, the entries of the test's template tree; walks
    /// beyond the last test are not read.
    ///
    /// A test without a walk is refused before anything is parsed. Apart
    /// from that the plan fails exactly if the template of the file that
    /// lists the tests is refused or the entries of a test cannot be
    /// planned, with the failure of the first of these.
    pub fn generate(&self, kuttl_source: &str, walks: &Vec<Vec<TemplateEntry>>) -> (result: Result<
        Vec<Plan>,
        GenerationError,
    >)
        ensures
            walks.len() < self@.tests.len() ==> result.is_err() && result.unwrap_err()@ == (
            GenerationErrorView::TemplateWalk {
                path: self@.tests[walks.len() as int].template_dir,
                cause: unwalked_cause(),
            }),
            walks.len() >= self@.tests.len() ==> result.is_ok() == generation_plannable(
                self@,
                kuttl_source@,
                walks.deep_view(),
            ),
            walks.len() >= self@.tests.len() ==> match result {
                Ok(plans) => plans.deep_view() == generation_plans(self@, walks.deep_view()),
                Err(error) => is_generation_failure(
                    error@,
                    self@,
                    kuttl_source@,
                    walks.deep_view(),
                ),
            },
    {
        if walks.len() < self.tests.len() {
            let test = &self.tests[walks.len()];
            assert(self@.tests[walks.len() as int] == test@);
            return Err(
                GenerationError::TemplateWalk {
                    path: String::from_str(test.template_dir()),
                    cause: String::from_str("the template tree was not walked"),
                },
            );
        }
        let ghost all = self@.tests;
        let ghost entries = walks.deep_view();
        let ghost expected = generation_plans(self@, entries);
        proof {
            assert forall|x: int|
                first_unplannable(self@, entries, x) implies !generation_plannable(
                self@,
                kuttl_source@,
                entries,
            ) by {
                assert(!plannable(entries[x]));
            }
        }
        let listing = self.generate_kuttl_file(kuttl_source)?;
        let parts = listing.into_parts();
        let engine = parts.0;
        let mut rendering = parts.1;
        let ghost requests = rendering.deep_view();
        let mut steps: Vec<PlanStep> = Vec::new();
        steps.push(PlanStep::Perform(FileOperation::CreateDirAll { path: self.out_dir.clone() }));
        let ghost first = steps.deep_view();
        steps.append(&mut rendering);
        proof {
            assert(requests =~= seq![kuttl_step(self@)]);
            assert(first =~= seq![
                PlanStepView::Perform(FileOperationView::CreateDirAll { path: self@.out_dir }),
            ]);
            assert(steps.deep_view() =~= first + requests);
            assert(steps.deep_view() =~= listing_steps(self@));
        }
        let mut plans: Vec<Plan> = Vec::new();
        plans.push(Plan::new(engine, steps));
        let mut a: usize = 0;
        assert(plans.deep_view() =~= expected.take(1));
        while a < self.tests.len()
            invariant
                a <= self.tests.len(),
                self.tests.len() <= walks.len(),
                all == self@.tests,
                entries == walks.deep_view(),
                expected == generation_plans(self@, entries),
                plans.deep_view() == expected.take(a as int + 1),
                listing_refusal(self@, kuttl_source@).is_none(),
                forall|b: int| 0 <= b < a ==> plannable(#[trigger] entries[b]),
                forall|x: int|
                    first_unplannable(self@, entries, x) ==> !generation_plannable(
                        self@,
                        kuttl_source@,
                        entries,
                    ),
            decreases self.tests.len() - a,
        {
            let test = &self.tests[a];
            assert(all[a as int] == test@);
            assert(entries[a as int] == walks[a as int].deep_view());
            let ghost before = plans.deep_view();
            match test.generate(&walks[a]) {
                Ok(plan) => {
                    proof {
                        assert(plan@ == expected[a as int + 1]);
                    }
                    plans.push(plan);
                    proof {
                        assert(plans.deep_view() =~= before.push(expected[a as int + 1]));
                        assert(expected.take(a as int + 2) =~= expected.take(a as int + 1).push(
                            expected[a as int + 1],
                        ));
                    }
                },
                Err(error) => {
                    proof {
                        assert(first_unplannable(self@, entries, a as int));
                        assert(is_generation_failure(error@, self@, kuttl_source@, entries));
                    }
                    return Err(error);
                },
            }
            a = a + 1;
        }
        assert(expected.take(self.tests.len() as int + 1) =~= expected);
        Ok(plans)
    }

    /// The tests with their scenarios, in the order of the definition.
    pub fn tests(&self) -> (tests: &Vec<Test>)
        ensures
            tests.deep_view() == self@.tests,
    {
        &self.tests
    }

    /// The directory that everything is generated into.
    pub fn out_dir(&self) -> (path: &str)
        ensures
            path@ == self@.out_dir,
    {
        self.out_dir.as_str()
    }

    /// Where the template of the file that lists the tests is found.
    pub fn kuttl_test(&self) -> (path: &str)
        ensures
            path@ == self@.kuttl_test,
    {
        self.kuttl_test.as_str()
    }
}

} // verus!
