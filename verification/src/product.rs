//! Cartesian products of lists of values.

use itertools::Itertools;
use vstd::prelude::*;

verus! {

/// The number of ways to take one item from each list.
pub open spec fn product_of_lengths<T>(lists: Seq<Seq<T>>) -> nat
    decreases lists.len(),
{
    if lists.len() == 0 {
        1
    } else {
        lists[0].len() * product_of_lengths(lists.drop_first())
    }
}

/// Every way to take one item from each list, in the order of the lists.
///
/// The combinations are enumerated with the last list varying fastest. No list
/// at all gives the one empty combination; an empty list among the lists gives
/// no combination.
pub open spec fn cartesian_product<T>(lists: Seq<Seq<T>>) -> Seq<Seq<T>>
    decreases lists.len(),
{
    if lists.len() == 0 {
        seq![Seq::empty()]
    } else {
        let first = lists[0];
        let rest = cartesian_product(lists.drop_first());
        Seq::new(
            first.len() * rest.len(),
            |k: int| seq![first[k / (rest.len() as int)]] + rest[k % (rest.len() as int)],
        )
    }
}

/// No item occurs twice in the list.
pub open spec fn distinct<T>(list: Seq<T>) -> bool {
    forall|i: int, j: int|
        #![trigger list[i], list[j]]
        0 <= i < j < list.len() ==> list[i] != list[j]
}

/// The product has as many combinations as the lengths of the lists multiply to.
pub proof fn lemma_product_len<T>(lists: Seq<Seq<T>>)
    ensures
        cartesian_product(lists).len() == product_of_lengths(lists),
    decreases lists.len(),
{
    if lists.len() > 0 {
        lemma_product_len(lists.drop_first());
    }
}

/// Combination `k` of a product over at least one list starts with an item of
/// the first list and goes on with a combination of the other lists.
pub proof fn lemma_product_step<T>(lists: Seq<Seq<T>>, k: int)
    requires
        lists.len() > 0,
        0 <= k < cartesian_product(lists).len(),
    ensures
        cartesian_product(lists.drop_first()).len() > 0,
        0 <= k / (cartesian_product(lists.drop_first()).len() as int) < lists[0].len(),
        cartesian_product(lists)[k] == seq![
            lists[0][k / (cartesian_product(lists.drop_first()).len() as int)],
        ] + cartesian_product(lists.drop_first())[k % (cartesian_product(
            lists.drop_first(),
        ).len() as int)],
{
    let first = lists[0].len() as int;
    let rest = cartesian_product(lists.drop_first()).len() as int;
    assert(0 <= k < first * rest);
    assert(rest > 0 && 0 <= k / rest < first) by (nonlinear_arith)
        requires
            0 <= k < first * rest,
            0 <= first,
            0 <= rest,
    ;
}

/// Every combination takes one item from each list, in the order of the lists.
pub proof fn lemma_product_items<T>(lists: Seq<Seq<T>>, k: int)
    requires
        0 <= k < cartesian_product(lists).len(),
    ensures
        cartesian_product(lists)[k].len() == lists.len(),
        forall|j: int|
            0 <= j < lists.len() ==> lists[j].contains(#[trigger] cartesian_product(lists)[k][j]),
    decreases lists.len(),
{
    if lists.len() > 0 {
        let tail = lists.drop_first();
        let rest = cartesian_product(tail);
        lemma_product_step(lists, k);
        let outer = k / (rest.len() as int);
        let inner = k % (rest.len() as int);
        lemma_product_items(tail, inner);
        let combination = cartesian_product(lists)[k];
        assert forall|j: int| 0 <= j < lists.len() implies lists[j].contains(
            #[trigger] combination[j],
        ) by {
            if j == 0 {
                assert(combination[0] == lists[0][outer]);
            } else {
                assert(combination[j] == rest[inner][j - 1]);
                assert(tail[j - 1] == lists[j]);
                assert(tail[j - 1].contains(rest[inner][j - 1]));
            }
        }
    }
}

/// Where no list holds an item twice, no combination occurs twice.
pub proof fn lemma_product_distinct<T>(lists: Seq<Seq<T>>)
    requires
        forall|j: int| 0 <= j < lists.len() ==> distinct(#[trigger] lists[j]),
    ensures
        distinct(cartesian_product(lists)),
    decreases lists.len(),
{
    let product = cartesian_product(lists);
    if lists.len() > 0 {
        let tail = lists.drop_first();
        let rest = cartesian_product(tail);
        assert forall|j: int| 0 <= j < tail.len() implies distinct(#[trigger] tail[j]) by {
            assert(tail[j] == lists[j + 1]);
        }
        lemma_product_distinct(tail);
        assert forall|a: int, b: int| 0 <= a < b < product.len() implies product[a]
            != product[b] by {
            lemma_product_step(lists, a);
            lemma_product_step(lists, b);
            let n = rest.len() as int;
            if product[a] == product[b] {
                // Equal combinations start with the same item and go on in
                // the same way, so they stand at the same place.
                assert(product[a][0] == product[b][0]);
                assert(lists[0][a / n] == lists[0][b / n]);
                assert(a / n == b / n);
                assert(product[a].drop_first() =~= rest[a % n]);
                assert(product[b].drop_first() =~= rest[b % n]);
                assert(a % n == b % n);
                assert(a == n * (a / n) + a % n) by (nonlinear_arith)
                    requires
                        n > 0,
                ;
                assert(b == n * (b / n) + b % n) by (nonlinear_arith)
                    requires
                        n > 0,
                ;
                assert(a == b);
            }
        }
    }
}

/// The combinations of `lists`, computed by `multi_cartesian_product` of the
/// crate `itertools`.
///
/// The contract states what that adaptor yields when it is run to its end over
/// clones of the lists: each combination once, the rightmost list advancing
/// first, a single empty combination for no list, and nothing if a list is
/// empty. It is taken on trust.
#[verifier::external_body]
pub(crate) fn multi_cartesian_product(lists: &Vec<Vec<String>>) -> (combinations: Vec<Vec<String>>)
    ensures
        combinations.deep_view() == cartesian_product(lists.deep_view()),
{
    lists.iter().map(|list| list.iter().cloned()).multi_cartesian_product().collect()
}

} // verus!
