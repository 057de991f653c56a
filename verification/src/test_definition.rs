//! The definition of what to generate: dimensions and tests.
//!
//! A dimension is a named axis of variation with an ordered list of values. A
//! test names the dimensions it varies over. A definition is well formed if no
//! two dimensions share a name, every dimension has a value, and every test
//! selects declared dimensions only.

use crate::error::{GenerationError, GenerationErrorView};
use vstd::hash_map::StringHashMap;
use vstd::prelude::*;

verus! {

/// A dimension that can take several values, such as a dependency and its
/// versions. A test that selects the dimension is generated once per value.
#[derive(Debug, PartialEq, Eq)]
pub struct Dimension {
    pub name: String,
    pub values: Vec<String>,
}

/// The mathematical content of a [`Dimension`].
pub struct DimensionView {
    pub name: Seq<char>,
    pub values: Seq<Seq<char>>,
}

impl View for Dimension {
    type V = DimensionView;

    open spec fn view(&self) -> DimensionView {
        DimensionView { name: self.name@, values: self.values.deep_view() }
    }
}

impl DeepView for Dimension {
    type V = DimensionView;

    open spec fn deep_view(&self) -> DimensionView {
        self@
    }
}

/// A test: its name, and the names of the dimensions it varies over, in the
/// order in which they are bound.
#[derive(Debug, PartialEq, Eq)]
pub struct Test {
    pub name: String,
    pub dimensions: Vec<String>,
}

/// The mathematical content of a [`Test`].
pub struct TestView {
    pub name: Seq<char>,
    pub dimensions: Seq<Seq<char>>,
}

impl View for Test {
    type V = TestView;

    open spec fn view(&self) -> TestView {
        TestView { name: self.name@, dimensions: self.dimensions.deep_view() }
    }
}

impl DeepView for Test {
    type V = TestView;

    open spec fn deep_view(&self) -> TestView {
        self@
    }
}

/// The whole definition: the dimensions and the tests.
#[derive(Debug, PartialEq, Eq)]
pub struct TestDefinition {
    pub dimensions: Vec<Dimension>,
    pub tests: Vec<Test>,
}

/// The mathematical content of a [`TestDefinition`].
pub struct TestDefinitionView {
    pub dimensions: Seq<DimensionView>,
    pub tests: Seq<TestView>,
}

impl View for TestDefinition {
    type V = TestDefinitionView;

    open spec fn view(&self) -> TestDefinitionView {
        TestDefinitionView {
            dimensions: self.dimensions.deep_view(),
            tests: self.tests.deep_view(),
        }
    }
}

/// The values of each dimension by the dimension's name.
pub open spec fn lookup(dimensions: Seq<DimensionView>) -> Map<Seq<char>, Seq<Seq<char>>>
    decreases dimensions.len(),
{
    if dimensions.len() == 0 {
        Map::empty()
    } else {
        lookup(dimensions.drop_last()).insert(dimensions.last().name, dimensions.last().values)
    }
}

/// What a table of dimension values holds, as plain lists of texts.
pub open spec fn table_content(table: StringHashMap<Vec<String>>) -> Map<
    Seq<char>,
    Seq<Seq<char>>,
> {
    table@.map_values(|values: Vec<String>| values.deep_view())
}

/// Dimension `i` has no value, or has the name of an earlier dimension.
pub open spec fn invalid_dimension(dimensions: Seq<DimensionView>, i: int) -> bool {
    ||| dimensions[i].values.len() == 0
    ||| exists|j: int| 0 <= j < i && #[trigger] dimensions[j].name == dimensions[i].name
}

/// The failure that dimension `i` stands for, if it is invalid.
pub open spec fn dimension_problem(dimensions: Seq<DimensionView>, i: int) -> GenerationErrorView {
    if dimensions[i].values.len() == 0 {
        GenerationErrorView::EmptyDimension { name: dimensions[i].name }
    } else {
        GenerationErrorView::DuplicateDimension { name: dimensions[i].name }
    }
}

/// Dimension `i` is the first invalid one.
pub open spec fn first_invalid_dimension(dimensions: Seq<DimensionView>, i: int) -> bool {
    &&& 0 <= i < dimensions.len()
    &&& invalid_dimension(dimensions, i)
    &&& forall|j: int| 0 <= j < i ==> !invalid_dimension(dimensions, j)
}

/// No two dimensions share a name, and every dimension has a value.
pub open spec fn dimensions_well_formed(dimensions: Seq<DimensionView>) -> bool {
    forall|i: int| 0 <= i < dimensions.len() ==> !invalid_dimension(dimensions, i)
}

/// Every one of `names` is found in `table`.
pub open spec fn all_known(names: Seq<Seq<char>>, table: Map<Seq<char>, Seq<Seq<char>>>) -> bool {
    forall|j: int| 0 <= j < names.len() ==> table.contains_key(#[trigger] names[j])
}

/// `names[j]` is the first of `names` that is not found in `table`.
pub open spec fn first_unknown(
    names: Seq<Seq<char>>,
    table: Map<Seq<char>, Seq<Seq<char>>>,
    j: int,
) -> bool {
    &&& 0 <= j < names.len()
    &&& !table.contains_key(names[j])
    &&& forall|i: int| 0 <= i < j ==> table.contains_key(#[trigger] names[i])
}

/// The values found in `table` for each of `names`, in the order of `names`.
pub open spec fn selected_values(
    names: Seq<Seq<char>>,
    table: Map<Seq<char>, Seq<Seq<char>>>,
) -> Seq<Seq<Seq<char>>> {
    Seq::new(names.len(), |j: int| table[names[j]])
}

/// Every test selects declared dimensions only.
pub open spec fn tests_well_formed(definition: TestDefinitionView) -> bool {
    forall|a: int|
        0 <= a < definition.tests.len() ==> all_known(
            (#[trigger] definition.tests[a]).dimensions,
            lookup(definition.dimensions),
        )
}

/// The definition is consistent: no two dimensions share a name, every
/// dimension has a value, and every test selects declared dimensions only.
pub open spec fn well_formed(definition: TestDefinitionView) -> bool {
    dimensions_well_formed(definition.dimensions) && tests_well_formed(definition)
}

/// Dimension `j` of test `a` is the first undeclared dimension that a test
/// selects, going through the tests in their order.
pub open spec fn first_unknown_dimension(definition: TestDefinitionView, a: int, j: int) -> bool {
    &&& 0 <= a < definition.tests.len()
    &&& first_unknown(definition.tests[a].dimensions, lookup(definition.dimensions), j)
    &&& forall|b: int|
        0 <= b < a ==> all_known(
            (#[trigger] definition.tests[b]).dimensions,
            lookup(definition.dimensions),
        )
}

/// `problem` is the failure that the definition is rejected with: that of its
/// first invalid dimension or, if the dimensions are in order, that of the
/// first undeclared dimension that a test selects.
pub open spec fn is_first_problem(
    definition: TestDefinitionView,
    problem: GenerationErrorView,
) -> bool {
    if !dimensions_well_formed(definition.dimensions) {
        exists|i: int|
            #[trigger] first_invalid_dimension(definition.dimensions, i) && problem
                == dimension_problem(definition.dimensions, i)
    } else {
        exists|a: int, j: int|
            #[trigger] first_unknown_dimension(definition, a, j) && problem
                == (GenerationErrorView::UnknownDimension {
                test: definition.tests[a].name,
                dimension: definition.tests[a].dimensions[j],
            })
    }
}

/// A definition that is rejected is not well formed, and the failure is one
/// of configuration.
pub proof fn lemma_first_problem(definition: TestDefinitionView, problem: GenerationErrorView)
    requires
        is_first_problem(definition, problem),
    ensures
        !well_formed(definition),
        problem.kind() == crate::error::ErrorKind::Configuration,
{
    if dimensions_well_formed(definition.dimensions) {
        let (a, j) = choose|a: int, j: int|
            #[trigger] first_unknown_dimension(definition, a, j) && problem
                == (GenerationErrorView::UnknownDimension {
                test: definition.tests[a].name,
                dimension: definition.tests[a].dimensions[j],
            });
        assert(!lookup(definition.dimensions).contains_key(definition.tests[a].dimensions[j]));
        assert(!all_known(definition.tests[a].dimensions, lookup(definition.dimensions)));
    }
}

/// A name is found in the table of the dimensions exactly if a dimension has it.
pub proof fn lemma_lookup_domain(dimensions: Seq<DimensionView>, name: Seq<char>)
    ensures
        lookup(dimensions).contains_key(name) <==> exists|i: int|
            0 <= i < dimensions.len() && #[trigger] dimensions[i].name == name,
    decreases dimensions.len(),
{
    if dimensions.len() > 0 {
        let front = dimensions.drop_last();
        lemma_lookup_domain(front, name);
        if lookup(dimensions).contains_key(name) {
            if dimensions.last().name == name {
                assert(dimensions[dimensions.len() - 1].name == name);
            } else {
                let i = choose|i: int| 0 <= i < front.len() && #[trigger] front[i].name == name;
                assert(dimensions[i].name == name);
            }
        }
        if exists|i: int| 0 <= i < dimensions.len() && #[trigger] dimensions[i].name == name {
            let i = choose|i: int|
                0 <= i < dimensions.len() && #[trigger] dimensions[i].name == name;
            if i < front.len() {
                assert(front[i].name == name);
            }
        }
    }
}

/// In a well-formed list of dimensions, each dimension's values are found
/// under its name.
pub proof fn lemma_lookup_well_formed(dimensions: Seq<DimensionView>, i: int)
    requires
        dimensions_well_formed(dimensions),
        0 <= i < dimensions.len(),
    ensures
        lookup(dimensions).contains_key(dimensions[i].name),
        lookup(dimensions)[dimensions[i].name] == dimensions[i].values,
        dimensions[i].values.len() > 0,
    decreases dimensions.len(),
{
    let front = dimensions.drop_last();
    let last = dimensions.len() - 1;
    assert(!invalid_dimension(dimensions, i));
    if i < last {
        assert forall|k: int| 0 <= k < front.len() implies !invalid_dimension(front, k) by {
            assert(!invalid_dimension(dimensions, k));
            if exists|j: int| 0 <= j < k && #[trigger] front[j].name == front[k].name {
                let j = choose|j: int| 0 <= j < k && #[trigger] front[j].name == front[k].name;
                assert(dimensions[j].name == dimensions[k].name);
            }
        }
        lemma_lookup_well_formed(front, i);
        assert(!invalid_dimension(dimensions, last));
        assert(dimensions[i].name != dimensions[last].name);
    }
}

/// A copy of a list of texts.
pub(crate) fn clone_texts(texts: &Vec<String>) -> (copy: Vec<String>)
    ensures
        copy.deep_view() == texts.deep_view(),
{
    let mut copy: Vec<String> = Vec::new();
    let mut i: usize = 0;
    while i < texts.len()
        invariant
            i <= texts.len(),
            copy.len() == i,
            forall|k: int| 0 <= k < i ==> copy[k]@ == texts[k]@,
        decreases texts.len() - i,
    {
        copy.push(texts[i].clone());
        i = i + 1;
    }
    assert(copy.deep_view() =~= texts.deep_view());
    copy
}

impl TestDefinition {
    /// The values of each dimension by the dimension's name. Fails if two
    /// dimensions share a name or if a dimension has no value: the failure is
    /// that of the first dimension that breaks this.
    pub fn dimensions_as_map(&self) -> (result: Result<StringHashMap<Vec<String>>, GenerationError>)
        ensures
            result.is_ok() == dimensions_well_formed(self@.dimensions),
            match result {
                Ok(table) => table_content(table) == lookup(self@.dimensions),
                Err(e) => exists|i: int|
                    #[trigger] first_invalid_dimension(self@.dimensions, i) && e@
                        == dimension_problem(self@.dimensions, i),
            },
    {
        proof {
            assert forall|i: int| first_invalid_dimension(self@.dimensions, i) implies
                !dimensions_well_formed(self@.dimensions) by {
                assert(invalid_dimension(self@.dimensions, i));
            }
        }
        self.check_dimensions()?;
        let ghost all = self@.dimensions;
        let mut table: StringHashMap<Vec<String>> = StringHashMap::new();
        let mut i: usize = 0;
        assert(all.take(0) =~= Seq::empty());
        assert(table_content(table) =~= lookup(all.take(0)));
        while i < self.dimensions.len()
            invariant
                i <= self.dimensions.len(),
                all == self@.dimensions,
                table_content(table) == lookup(all.take(i as int)),
            decreases self.dimensions.len() - i,
        {
            let dimension = &self.dimensions[i];
            let ghost before = table_content(table);
            let values = clone_texts(&dimension.values);
            table.insert(dimension.name.clone(), values);
            proof {
                assert(all[i as int] == dimension@);
                assert(all.take(i as int + 1).drop_last() =~= all.take(i as int));
                assert(all.take(i as int + 1).last() == all[i as int]);
                assert(table_content(table) =~= before.insert(
                    dimension@.name,
                    dimension@.values,
                ));
            }
            i = i + 1;
        }
        assert(all.take(self.dimensions.len() as int) =~= all);
        Ok(table)
    }

    /// Checks that no two dimensions share a name and that every dimension
    /// has a value, and reports the first dimension that breaks this.
    pub fn check_dimensions(&self) -> (result: Result<(), GenerationError>)
        ensures
            match result {
                Ok(()) => dimensions_well_formed(self@.dimensions),
                Err(e) => exists|i: int|
                    #[trigger] first_invalid_dimension(self@.dimensions, i) && e@
                        == dimension_problem(self@.dimensions, i),
            },
    {
        let ghost all = self@.dimensions;
        let mut seen: StringHashMap<()> = StringHashMap::new();
        let mut i: usize = 0;
        while i < self.dimensions.len()
            invariant
                i <= self.dimensions.len(),
                all == self@.dimensions,
                forall|k: int| 0 <= k < i ==> !invalid_dimension(all, k),
                forall|name: Seq<char>|
                    seen@.contains_key(name) <==> exists|k: int|
                        0 <= k < i && #[trigger] all[k].name == name,
            decreases self.dimensions.len() - i,
        {
            let dimension = &self.dimensions[i];
            assert(all[i as int] == dimension@);
            if dimension.values.len() == 0 {
                assert(first_invalid_dimension(all, i as int));
                return Err(GenerationError::EmptyDimension { name: dimension.name.clone() });
            }
            if seen.contains_key(dimension.name.as_str()) {
                assert(first_invalid_dimension(all, i as int));
                return Err(GenerationError::DuplicateDimension { name: dimension.name.clone() });
            }
            seen.insert(dimension.name.clone(), ());
            proof {
                assert forall|name: Seq<char>|
                    seen@.contains_key(name) <==> exists|k: int|
                        0 <= k < i + 1 && #[trigger] all[k].name == name by {
                    if seen@.contains_key(name) {
                        if name == dimension@.name {
                            assert(all[i as int].name == name);
                        } else {
                            let k = choose|k: int| 0 <= k < i && #[trigger] all[k].name == name;
                            assert(all[k].name == name);
                        }
                    }
                }
            }
            i = i + 1;
        }
        Ok(())
    }
}

} // verus!
