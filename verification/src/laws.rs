//! What holds of every generation.

use crate::entry::{EntryKind, TemplateEntryView};
use crate::naming::{
    continues, lemma_dir_name_without_bindings, lemma_dir_names_differ, separable, zip_bindings,
};
use crate::operation::FileOperationView;
use crate::paths::{joined, lemma_joined_injective, lemma_joined_lies_in, lies_in, rendered_path};
use crate::plan::{PlanStepView, RenderRequestView};
use crate::product::{
    cartesian_product, distinct, lemma_product_distinct, lemma_product_items, lemma_product_len,
    product_of_lengths,
};
use crate::test_definition::{lookup, selected_values, TestDefinitionView};
use crate::test_generation::{
    base_steps, entry_step, entry_steps, expansion, generation_of, scenario_of, test_steps,
    tree_steps, TestGenerationView, TestScenarioView, TestView,
};
use vstd::prelude::*;

verus! {

/// A test without dimensions has exactly one scenario. The scenario has no
/// bindings, and its directory is named as the test.
pub proof fn lemma_no_dimensions(test_out_dir: Seq<char>, test_name: Seq<char>)
    ensures
        expansion(test_out_dir, test_name, Seq::empty(), Seq::empty()) == seq![
            scenario_of(test_out_dir, test_name, Seq::empty()),
        ],
        scenario_of(test_out_dir, test_name, Seq::empty()).bindings.len() == 0,
        scenario_of(test_out_dir, test_name, Seq::empty()).name() == test_name,
        scenario_of(test_out_dir, test_name, Seq::empty()).out_dir == joined(
            test_out_dir,
            test_name,
        ),
{
    let none = Seq::<Seq<char>>::empty();
    let lists = Seq::<Seq<Seq<char>>>::empty();
    let scenarios = expansion(test_out_dir, test_name, none, lists);
    assert(cartesian_product(lists) =~= seq![Seq::<Seq<char>>::empty()]);
    assert(zip_bindings(none, cartesian_product(lists)[0]) =~= Seq::empty());
    assert(scenarios =~= seq![scenario_of(test_out_dir, test_name, Seq::empty())]);
    lemma_dir_name_without_bindings(test_name);
}

/// A test has as many scenarios as the numbers of values of its dimensions
/// multiply to.
pub proof fn lemma_scenario_count(
    test_out_dir: Seq<char>,
    test_name: Seq<char>,
    names: Seq<Seq<char>>,
    lists: Seq<Seq<Seq<char>>>,
)
    ensures
        expansion(test_out_dir, test_name, names, lists).len() == product_of_lengths(lists),
{
    lemma_product_len(lists);
}

/// In the generation of a definition, test `a` has as many scenarios as the
/// numbers of values of the dimensions it selects multiply to, the
/// dimensions taken in the order in which the test selects them.
pub proof fn lemma_generated_scenario_count(
    out_dir: Seq<char>,
    template_base_dir: Seq<char>,
    definition: TestDefinitionView,
    kuttl_test: Seq<char>,
    a: int,
)
    requires
        0 <= a < definition.tests.len(),
    ensures
        generation_of(out_dir, template_base_dir, definition, kuttl_test).tests[a].scenarios.len()
            == product_of_lengths(
            selected_values(definition.tests[a].dimensions, lookup(definition.dimensions)),
        ),
{
    lemma_product_len(
        selected_values(definition.tests[a].dimensions, lookup(definition.dimensions)),
    );
}

/// Two scenarios of a test have different names and different directories,
/// provided that the values of each dimension can be told apart inside a
/// name: no value occurs twice in its dimension, and none is another value
/// of the dimension followed by `_`.
pub proof fn lemma_scenario_names_unique(
    test_out_dir: Seq<char>,
    test_name: Seq<char>,
    names: Seq<Seq<char>>,
    lists: Seq<Seq<Seq<char>>>,
    a: int,
    b: int,
)
    requires
        names.len() == lists.len(),
        forall|j: int| 0 <= j < lists.len() ==> separable(#[trigger] lists[j]),
        0 <= a < expansion(test_out_dir, test_name, names, lists).len(),
        0 <= b < expansion(test_out_dir, test_name, names, lists).len(),
        a != b,
    ensures
        expansion(test_out_dir, test_name, names, lists)[a].name() != expansion(
            test_out_dir,
            test_name,
            names,
            lists,
        )[b].name(),
        expansion(test_out_dir, test_name, names, lists)[a].out_dir != expansion(
            test_out_dir,
            test_name,
            names,
            lists,
        )[b].out_dir,
{
    let product = cartesian_product(lists);
    let scenarios = expansion(test_out_dir, test_name, names, lists);
    assert forall|j: int| 0 <= j < lists.len() implies distinct(#[trigger] lists[j]) by {
        assert(separable(lists[j]));
    }
    lemma_product_distinct(lists);
    assert(product[a] != product[b]) by {
        if a < b {
            assert(product[a] != product[b]);
        } else {
            assert(product[b] != product[a]);
        }
    }
    lemma_product_items(lists, a);
    lemma_product_items(lists, b);
    assert forall|j: int| 0 <= j < names.len() implies !continues(
        #[trigger] product[a][j],
        product[b][j],
    ) && !continues(product[b][j], product[a][j]) by {
        assert(separable(lists[j]));
        assert(lists[j].contains(product[a][j]));
        assert(lists[j].contains(product[b][j]));
        let x = choose|x: int| 0 <= x < lists[j].len() && lists[j][x] == product[a][j];
        let y = choose|y: int| 0 <= y < lists[j].len() && lists[j][y] == product[b][j];
        if x != y {
            assert(!continues(lists[j][x], lists[j][y]));
            assert(!continues(lists[j][y], lists[j][x]));
        }
    }
    lemma_dir_names_differ(test_name, names, product[a], product[b]);
    if scenarios[a].out_dir == scenarios[b].out_dir {
        lemma_joined_injective(test_out_dir, scenarios[a].name(), scenarios[b].name());
    }
}

/// The entries of a template tree ask for one step per entry and scenario.
pub proof fn lemma_tree_steps_len(
    scenarios: Seq<TestScenarioView>,
    entries: Seq<TemplateEntryView>,
)
    ensures
        tree_steps(scenarios, entries).len() == entries.len() * scenarios.len(),
    decreases entries.len(),
{
    if entries.len() > 0 {
        lemma_tree_steps_len(scenarios, entries.drop_last());
        let e = entries.len() as int;
        let s = scenarios.len() as int;
        assert((e - 1) * s + s == e * s) by (nonlinear_arith);
    }
}

/// What entry `i` asks for in scenario `k` stands in the plan of the tree
/// after everything that earlier entries ask for, and after what the entry
/// asks for in earlier scenarios.
pub proof fn lemma_tree_step_at(
    scenarios: Seq<TestScenarioView>,
    entries: Seq<TemplateEntryView>,
    i: int,
    k: int,
)
    requires
        0 <= i < entries.len(),
        0 <= k < scenarios.len(),
    ensures
        0 <= i * scenarios.len() + k < tree_steps(scenarios, entries).len(),
        tree_steps(scenarios, entries)[i * scenarios.len() + k] == entry_step(
            scenarios[k],
            entries[i],
        ),
    decreases entries.len(),
{
    let front = entries.drop_last();
    let e = entries.len() as int;
    let s = scenarios.len() as int;
    lemma_tree_steps_len(scenarios, entries);
    lemma_tree_steps_len(scenarios, front);
    assert(0 <= i * s && i * s + s <= e * s && (e - 1) * s + s == e * s) by (nonlinear_arith)
        requires
            0 <= i < e,
            0 <= s,
    ;
    if i == e - 1 {
        assert(tree_steps(scenarios, entries)[i * s + k] == entry_steps(
            scenarios,
            entries.last(),
        )[k]);
    } else {
        assert(i * s + s <= (e - 1) * s) by (nonlinear_arith)
            requires
                0 <= i < e - 1,
                0 <= s,
        ;
        lemma_tree_step_at(scenarios, front, i, k);
        assert(front[i] == entries[i]);
    }
}

/// Every step that the entries ask for is what one entry asks for in one
/// scenario.
pub proof fn lemma_tree_step_origin(
    scenarios: Seq<TestScenarioView>,
    entries: Seq<TemplateEntryView>,
    x: int,
) -> (origin: (int, int))
    requires
        0 <= x < tree_steps(scenarios, entries).len(),
    ensures
        0 <= origin.0 < entries.len(),
        0 <= origin.1 < scenarios.len(),
        tree_steps(scenarios, entries)[x] == entry_step(scenarios[origin.1], entries[origin.0]),
    decreases entries.len(),
{
    let front = tree_steps(scenarios, entries.drop_last());
    if x < front.len() {
        let origin = lemma_tree_step_origin(scenarios, entries.drop_last(), x);
        assert(entries.drop_last()[origin.0] == entries[origin.0]);
        origin
    } else {
        assert(tree_steps(scenarios, entries)[x] == entry_steps(scenarios, entries.last())[x
            - front.len()]);
        (entries.len() - 1, x - front.len())
    }
}

/// Every plain file of a test's template tree is copied to its own relative
/// path in the directory of every scenario of the test.
pub proof fn lemma_plain_files_copied(
    test: TestView,
    entries: Seq<TemplateEntryView>,
    i: int,
    k: int,
)
    requires
        0 <= i < entries.len(),
        entries[i].kind == EntryKind::PlainFile,
        0 <= k < test.scenarios.len(),
    ensures
        test_steps(test, entries).contains(
            PlanStepView::Perform(
                FileOperationView::CopyFile {
                    from: entries[i].path,
                    to: joined(test.scenarios[k].out_dir, entries[i].relative_path),
                },
            ),
        ),
{
    lemma_tree_step_at(test.scenarios, entries, i, k);
    let base = base_steps(test);
    let tree = tree_steps(test.scenarios, entries);
    let at = i * test.scenarios.len() + k;
    assert(test_steps(test, entries)[base.len() + at] == tree[at]);
}

/// Every templated file of a test's template tree is rendered for every
/// scenario of the test: with the bindings of that scenario, and to the
/// file's relative path without the template suffix in the scenario's
/// directory.
pub proof fn lemma_templates_rendered(
    test: TestView,
    entries: Seq<TemplateEntryView>,
    i: int,
    k: int,
)
    requires
        0 <= i < entries.len(),
        entries[i].kind == EntryKind::TemplatedFile,
        0 <= k < test.scenarios.len(),
    ensures
        test_steps(test, entries).contains(
            PlanStepView::Render(
                RenderRequestView {
                    template: entries[i].path,
                    scenario: Some(test.scenarios[k].name()),
                    path: joined(
                        test.scenarios[k].out_dir,
                        rendered_path(entries[i].relative_path),
                    ),
                    context: test.scenarios[k].context(),
                },
            ),
        ),
{
    lemma_tree_step_at(test.scenarios, entries, i, k);
    let base = base_steps(test);
    let tree = tree_steps(test.scenarios, entries);
    let at = i * test.scenarios.len() + k;
    assert(test_steps(test, entries)[base.len() + at] == tree[at]);
}

/// The directory of every scenario is created before anything that an entry
/// of the template tree asks for in it.
pub proof fn lemma_scenario_directory_first(
    test: TestView,
    entries: Seq<TemplateEntryView>,
    i: int,
    k: int,
)
    requires
        0 <= i < entries.len(),
        0 <= k < test.scenarios.len(),
    ensures
        test_steps(test, entries)[1 + k] == PlanStepView::Perform(
            FileOperationView::CreateDir { path: test.scenarios[k].out_dir },
        ),
        1 + k < 1 + test.scenarios.len() + i * test.scenarios.len() + k < test_steps(
            test,
            entries,
        ).len(),
        test_steps(test, entries)[1 + test.scenarios.len() + i * test.scenarios.len() + k]
            == entry_step(test.scenarios[k], entries[i]),
{
    lemma_tree_step_at(test.scenarios, entries, i, k);
    let s = test.scenarios.len() as int;
    assert(0 <= i * s) by (nonlinear_arith)
        requires
            0 <= i,
            0 <= s,
    ;
    let base = base_steps(test);
    let tree = tree_steps(test.scenarios, entries);
    assert(base.len() == 1 + s);
    assert(test_steps(test, entries)[base.len() + (i * s + k)] == tree[i * s + k]);
    assert(test_steps(test, entries)[1 + k] == base[1 + k]);
}

/// Nothing that a test asks for lies outside the directory of the test.
pub proof fn lemma_plan_stays_inside(test: TestView, entries: Seq<TemplateEntryView>, x: int)
    requires
        test.well_placed(),
        0 <= x < test_steps(test, entries).len(),
    ensures
        lies_in(test.out_dir, test_steps(test, entries)[x].target()),
{
    let base = base_steps(test);
    let step = test_steps(test, entries)[x];
    if x == 0 {
        assert(step == base[0]);
    } else if x < base.len() {
        let scenario = test.scenarios[x - 1];
        assert(step == base[x]);
        assert(scenario == scenario_of(test.out_dir, test.test_name, scenario.bindings));
        lemma_joined_lies_in(test.out_dir, scenario.name(), Seq::empty());
    } else {
        let origin = lemma_tree_step_origin(test.scenarios, entries, x - base.len());
        let scenario = test.scenarios[origin.1];
        let entry = entries[origin.0];
        assert(step == entry_step(scenario, entry));
        assert(scenario == scenario_of(test.out_dir, test.test_name, scenario.bindings));
        lemma_joined_lies_in(test.out_dir, scenario.name(), entry.relative_path);
        lemma_joined_lies_in(test.out_dir, scenario.name(), rendered_path(entry.relative_path));
    }
}

/// In the generation of a definition every scenario lies in the directory
/// of its test, and every test in the output directory.
pub proof fn lemma_generated_tests_well_placed(
    out_dir: Seq<char>,
    template_base_dir: Seq<char>,
    definition: TestDefinitionView,
    kuttl_test: Seq<char>,
    a: int,
)
    requires
        0 <= a < definition.tests.len(),
    ensures
        generation_of(out_dir, template_base_dir, definition, kuttl_test).tests[a].well_placed(),
        generation_of(out_dir, template_base_dir, definition, kuttl_test).tests[a].out_dir
            == joined(out_dir, definition.tests[a].name),
{
}

/// Expanding the same definition twice gives the same tests with the same
/// scenarios, under the same names and in the same order.
pub proof fn lemma_expansion_repeatable(
    first: TestGenerationView,
    second: TestGenerationView,
    out_dir: Seq<char>,
    template_base_dir: Seq<char>,
    definition: TestDefinitionView,
    kuttl_test: Seq<char>,
)
    requires
        first == generation_of(out_dir, template_base_dir, definition, kuttl_test),
        second == generation_of(out_dir, template_base_dir, definition, kuttl_test),
    ensures
        first == second,
        first.tests.len() == definition.tests.len(),
        forall|a: int, k: int|
            0 <= a < first.tests.len() && 0 <= k < first.tests[a].scenarios.len() ==> (
            #[trigger] first.tests[a].scenarios[k]).name() == second.tests[a].scenarios[k].name(),
{
}

} // verus!
