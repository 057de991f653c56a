//! Bindings of dimensions to values, and the directory names made of them.
//!
//! A scenario's directory is named after its test and its bindings: the test's
//! name, then for each binding, in order, `_`, the dimension's name, `-` and
//! the chosen value, with nothing in between.

use vstd::prelude::*;
use vstd::string::StringExecFns;

verus! {

/// One dimension bound to one of its values.
#[derive(Debug, PartialEq, Eq)]
pub struct Binding {
    pub name: String,
    pub value: String,
}

/// The mathematical content of a [`Binding`].
pub struct BindingView {
    pub name: Seq<char>,
    pub value: Seq<char>,
}

impl View for Binding {
    type V = BindingView;

    open spec fn view(&self) -> BindingView {
        BindingView { name: self.name@, value: self.value@ }
    }
}

impl DeepView for Binding {
    type V = BindingView;

    open spec fn deep_view(&self) -> BindingView {
        self@
    }
}

/// The bindings of `names` to `values`, position by position.
pub open spec fn zip_bindings(names: Seq<Seq<char>>, values: Seq<Seq<char>>) -> Seq<BindingView> {
    Seq::new(names.len(), |j: int| BindingView { name: names[j], value: values[j] })
}

/// The bindings as a mapping: the value that holds for each name. Where a
/// name is bound more than once, the last of its bindings holds.
pub open spec fn bound_values(bindings: Seq<BindingView>) -> Map<Seq<char>, Seq<char>>
    decreases bindings.len(),
{
    if bindings.len() == 0 {
        Map::empty()
    } else {
        bound_values(bindings.drop_last()).insert(bindings.last().name, bindings.last().value)
    }
}

/// A name has a value exactly if a binding binds it.
pub proof fn lemma_bound_names(bindings: Seq<BindingView>, name: Seq<char>)
    ensures
        bound_values(bindings).contains_key(name) <==> exists|i: int|
            0 <= i < bindings.len() && (#[trigger] bindings[i]).name == name,
    decreases bindings.len(),
{
    if bindings.len() > 0 {
        let front = bindings.drop_last();
        let last = bindings.len() - 1;
        lemma_bound_names(front, name);
        if bound_values(bindings).contains_key(name) {
            if bindings.last().name == name {
                assert(bindings[last].name == name);
            } else {
                let i = choose|i: int| 0 <= i < front.len() && (#[trigger] front[i]).name == name;
                assert(bindings[i].name == name);
            }
        }
        if exists|i: int| 0 <= i < bindings.len() && (#[trigger] bindings[i]).name == name {
            let i = choose|i: int|
                0 <= i < bindings.len() && (#[trigger] bindings[i]).name == name;
            if i < last {
                assert(front[i].name == name);
            }
        }
    }
}

/// The value that holds for a name is that of the last binding of the name.
pub proof fn lemma_bound_last(bindings: Seq<BindingView>, i: int)
    requires
        0 <= i < bindings.len(),
        forall|j: int| i < j < bindings.len() ==> (#[trigger] bindings[j]).name != bindings[i].name,
    ensures
        bound_values(bindings).contains_key(bindings[i].name),
        bound_values(bindings)[bindings[i].name] == bindings[i].value,
    decreases bindings.len(),
{
    let front = bindings.drop_last();
    let last = bindings.len() - 1;
    if i < last {
        assert(bindings[last].name != bindings[i].name);
        assert(front[i] == bindings[i]);
        assert forall|j: int| i < j < front.len() implies (#[trigger] front[j]).name
            != front[i].name by {
            assert(front[j] == bindings[j]);
        }
        lemma_bound_last(front, i);
    }
}

/// The part of a directory name that stands for one binding.
pub open spec fn segment(binding: BindingView) -> Seq<char> {
    seq!['_'] + binding.name + seq!['-'] + binding.value
}

/// The segments of the bindings, one after the other.
pub open spec fn segments(bindings: Seq<BindingView>) -> Seq<char>
    decreases bindings.len(),
{
    if bindings.len() == 0 {
        Seq::empty()
    } else {
        segment(bindings[0]) + segments(bindings.drop_first())
    }
}

/// The name of the directory of the scenario of `test_name` with `bindings`.
pub open spec fn scenario_dir_name(test_name: Seq<char>, bindings: Seq<BindingView>) -> Seq<char> {
    test_name + segments(bindings)
}

/// `long` goes on after `short` with the character that starts a segment.
pub open spec fn continues(short: Seq<char>, long: Seq<char>) -> bool {
    &&& short.len() < long.len()
    &&& long.take(short.len() as int) == short
    &&& long[short.len() as int] == '_'
}

/// The values can be told apart inside a directory name: no value occurs
/// twice, and none is another one followed by the start of a segment.
pub open spec fn separable(values: Seq<Seq<char>>) -> bool {
    forall|i: int, j: int|
        #![trigger values[i], values[j]]
        0 <= i < values.len() && 0 <= j < values.len() && i != j ==> values[i] != values[j]
            && !continues(values[i], values[j])
}

/// The segments of a list with one more binding at its end.
pub proof fn lemma_segments_push(bindings: Seq<BindingView>, last: BindingView)
    ensures
        segments(bindings.push(last)) == segments(bindings) + segment(last),
    decreases bindings.len(),
{
    let extended = bindings.push(last);
    if bindings.len() == 0 {
        assert(extended.drop_first() =~= Seq::empty());
        assert(segments(extended.drop_first()) =~= Seq::empty());
        assert(segments(extended) =~= segment(last));
    } else {
        lemma_segments_push(bindings.drop_first(), last);
        assert(extended.drop_first() =~= bindings.drop_first().push(last));
        assert(extended[0] == bindings[0]);
        assert(segments(extended) =~= segments(bindings) + segment(last));
    }
}

/// A scenario without bindings is named as its test.
pub proof fn lemma_dir_name_without_bindings(test_name: Seq<char>)
    ensures
        scenario_dir_name(test_name, Seq::empty()) == test_name,
{
    assert(scenario_dir_name(test_name, Seq::empty()) =~= test_name);
}

/// Two texts that start alike end alike.
proof fn lemma_cancel_prefix(prefix: Seq<char>, a: Seq<char>, b: Seq<char>)
    requires
        prefix + a == prefix + b,
    ensures
        a == b,
{
    assert((prefix + a).len() == prefix.len() + a.len());
    assert((prefix + b).len() == prefix.len() + b.len());
    assert forall|i: int| 0 <= i < a.len() implies a[i] == b[i] by {
        assert(a[i] == (prefix + a)[prefix.len() + i]);
        assert(b[i] == (prefix + b)[prefix.len() + i]);
    }
    assert(a =~= b);
}

/// Two lists of values for the same dimensions give different directory names
/// if the lists differ and no value is continued by the other value in its
/// place.
pub proof fn lemma_dir_names_differ(
    test_name: Seq<char>,
    names: Seq<Seq<char>>,
    a: Seq<Seq<char>>,
    b: Seq<Seq<char>>,
)
    requires
        a.len() == names.len(),
        b.len() == names.len(),
        a != b,
        forall|j: int|
            0 <= j < names.len() ==> !continues(#[trigger] a[j], b[j]) && !continues(b[j], a[j]),
    ensures
        scenario_dir_name(test_name, zip_bindings(names, a)) != scenario_dir_name(
            test_name,
            zip_bindings(names, b),
        ),
{
    if scenario_dir_name(test_name, zip_bindings(names, a)) == scenario_dir_name(
        test_name,
        zip_bindings(names, b),
    ) {
        lemma_cancel_prefix(
            test_name,
            segments(zip_bindings(names, a)),
            segments(zip_bindings(names, b)),
        );
        lemma_segments_differ(names, a, b);
    }
}

/// The inductive core of [`lemma_dir_names_differ`].
proof fn lemma_segments_differ(names: Seq<Seq<char>>, a: Seq<Seq<char>>, b: Seq<Seq<char>>)
    requires
        a.len() == names.len(),
        b.len() == names.len(),
        forall|j: int|
            0 <= j < names.len() ==> !continues(#[trigger] a[j], b[j]) && !continues(b[j], a[j]),
        segments(zip_bindings(names, a)) == segments(zip_bindings(names, b)),
    ensures
        a == b,
    decreases names.len(),
{
    if names.len() == 0 {
        assert(a =~= b);
    } else {
        let za = zip_bindings(names, a);
        let zb = zip_bindings(names, b);
        let rest_names = names.drop_first();
        let rest_a = a.drop_first();
        let rest_b = b.drop_first();
        assert(za.drop_first() =~= zip_bindings(rest_names, rest_a));
        assert(zb.drop_first() =~= zip_bindings(rest_names, rest_b));
        let tail_a = segments(zip_bindings(rest_names, rest_a));
        let tail_b = segments(zip_bindings(rest_names, rest_b));
        let lead = seq!['_'] + names[0] + seq!['-'];
        assert(segments(za) =~= lead + (a[0] + tail_a));
        assert(segments(zb) =~= lead + (b[0] + tail_b));
        lemma_cancel_prefix(lead, a[0] + tail_a, b[0] + tail_b);
        lemma_split_value(a[0], tail_a, b[0], tail_b, rest_names.len() > 0);
        assert forall|j: int| 0 <= j < rest_names.len() implies !continues(
            #[trigger] rest_a[j],
            rest_b[j],
        ) && !continues(rest_b[j], rest_a[j]) by {
            assert(rest_a[j] == a[j + 1]);
            assert(rest_b[j] == b[j + 1]);
        }
        if rest_names.len() > 0 {
            lemma_segments_start(zip_bindings(rest_names, rest_a));
            lemma_segments_start(zip_bindings(rest_names, rest_b));
        } else {
            assert(tail_a =~= Seq::empty());
            assert(tail_b =~= Seq::empty());
        }
        lemma_segments_differ(rest_names, rest_a, rest_b);
        assert(a =~= seq![a[0]] + rest_a);
        assert(b =~= seq![b[0]] + rest_b);
    }
}

/// The segments of at least one binding start a segment.
proof fn lemma_segments_start(bindings: Seq<BindingView>)
    requires
        bindings.len() > 0,
    ensures
        segments(bindings).len() > 0,
        segments(bindings)[0] == '_',
{
    assert(segment(bindings[0])[0] == '_');
}

/// Where a value and what follows it read the same as another value and what
/// follows that, and what follows is empty or the start of a segment, the two
/// values are the same unless one is continued by the other.
proof fn lemma_split_value(
    a: Seq<char>,
    tail_a: Seq<char>,
    b: Seq<char>,
    tail_b: Seq<char>,
    more: bool,
)
    requires
        a + tail_a == b + tail_b,
        !continues(a, b),
        !continues(b, a),
        more ==> tail_a.len() > 0 && tail_a[0] == '_' && tail_b.len() > 0 && tail_b[0] == '_',
        !more ==> tail_a.len() == 0 && tail_b.len() == 0,
    ensures
        a == b,
        tail_a == tail_b,
{
    let whole = a + tail_a;
    assert(whole.len() == a.len() + tail_a.len());
    assert((b + tail_b).len() == b.len() + tail_b.len());
    if a.len() < b.len() {
        assert(more);
        assert(b.take(a.len() as int) =~= a) by {
            assert forall|i: int| 0 <= i < a.len() implies b[i] == a[i] by {
                assert(whole[i] == a[i]);
                assert((b + tail_b)[i] == b[i]);
            }
        }
        assert(whole[a.len() as int] == tail_a[0]);
        assert((b + tail_b)[a.len() as int] == b[a.len() as int]);
        assert(continues(a, b));
    } else if b.len() < a.len() {
        assert(more);
        assert(a.take(b.len() as int) =~= b) by {
            assert forall|i: int| 0 <= i < b.len() implies a[i] == b[i] by {
                assert(whole[i] == a[i]);
                assert((b + tail_b)[i] == b[i]);
            }
        }
        assert((b + tail_b)[b.len() as int] == tail_b[0]);
        assert(whole[b.len() as int] == a[b.len() as int]);
        assert(continues(b, a));
    } else {
        assert forall|i: int| 0 <= i < a.len() implies a[i] == b[i] by {
            assert(whole[i] == a[i]);
            assert((b + tail_b)[i] == b[i]);
        }
        assert(a =~= b);
        lemma_cancel_prefix(a, tail_a, tail_b);
    }
}

/// The name of the directory of the scenario of `test_name` with `bindings`.
pub fn dir_name(test_name: &str, bindings: &Vec<Binding>) -> (name: String)
    ensures
        name@ == scenario_dir_name(test_name@, bindings.deep_view()),
{
    let ghost all = bindings.deep_view();
    let mut name = String::from_str(test_name);
    let mut i: usize = 0;
    assert(all.take(0) =~= Seq::empty());
    assert(name@ =~= scenario_dir_name(test_name@, all.take(0)));
    while i < bindings.len()
        invariant
            i <= bindings.len(),
            all == bindings.deep_view(),
            name@ == scenario_dir_name(test_name@, all.take(i as int)),
        decreases bindings.len() - i,
    {
        let binding = &bindings[i];
        proof {
            reveal_strlit("_");
            reveal_strlit("-");
            lemma_segments_push(all.take(i as int), all[i as int]);
            assert(all.take(i as int + 1) =~= all.take(i as int).push(all[i as int]));
            assert(all[i as int] == binding@);
            assert("_"@ =~= seq!['_']);
            assert("-"@ =~= seq!['-']);
        }
        name.append("_");
        name.append(binding.name.as_str());
        name.append("-");
        name.append(binding.value.as_str());
        assert(name@ =~= scenario_dir_name(test_name@, all.take(i as int + 1)));
        i = i + 1;
    }
    assert(all.take(bindings.len() as int) =~= all);
    name
}

} // verus!
