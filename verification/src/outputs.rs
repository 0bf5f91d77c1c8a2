//! The outputs that still listen to a session.

use vstd::prelude::*;

verus! {

/// The names that a list of outputs holds, in order.
pub open spec fn names_of(outputs: Seq<String>) -> Seq<Seq<char>> {
    outputs.map_values(|name: String| name@)
}

/// What is left of `outputs` once every name listed in `gone` has left: the
/// names that `gone` does not hold, in their old order.
pub open spec fn without(outputs: Seq<Seq<char>>, gone: Seq<Seq<char>>) -> Seq<Seq<char>> {
    outputs.filter(|name: Seq<char>| !gone.contains(name))
}

/// Removing outputs never adds one, keeps the order of those that stay, and
/// leaves none that was named.
pub proof fn lemma_without_shrinks(outputs: Seq<Seq<char>>, gone: Seq<Seq<char>>)
    ensures
        without(outputs, gone).len() <= outputs.len(),
        forall|name: Seq<char>| #[trigger]
            without(outputs, gone).contains(name) <==> outputs.contains(name) && !gone.contains(
                name,
            ),
{
    let keep = |name: Seq<char>| !gone.contains(name);
    let left = outputs.filter(keep);
    outputs.lemma_filter_len(keep);
    assert forall|name: Seq<char>| #[trigger]
        without(outputs, gone).contains(name) <==> outputs.contains(name) && !gone.contains(
            name,
        ) by {
        if left.contains(name) {
            let at = choose|at: int| 0 <= at < left.len() && left[at] == name;
            outputs.lemma_filter_pred(keep, at);
            outputs.lemma_filter_contains_rev(keep, name);
        }
        if outputs.contains(name) && !gone.contains(name) {
            let at = choose|at: int| 0 <= at < outputs.len() && outputs[at] == name;
            outputs.lemma_filter_contains(keep, at);
        }
    }
}

/// Tells whether `names` holds `name`.
pub fn is_listed(names: &Vec<String>, name: &String) -> (found: bool)
    ensures
        found == names_of(names@).contains(name@),
{
    let mut at: usize = 0;
    while at < names.len()
        invariant
            at <= names.len(),
            forall|k: int| 0 <= k < at ==> names_of(names@)[k] != name@,
        decreases names.len() - at,
    {
        if names[at] == *name {
            assert(names_of(names@)[at as int] == name@);
            return true;
        }
        at += 1;
    }
    false
}

/// Takes out of `outputs` every output that `gone` names and keeps the others
/// in their order.
pub fn remove_outputs(outputs: &mut Vec<String>, gone: &Vec<String>)
    ensures
        names_of(final(outputs)@) == without(names_of(old(outputs)@), names_of(gone@)),
{
    let ghost before = names_of(outputs@);
    let ghost keep = |name: Seq<char>| !names_of(gone@).contains(name);
    let mut kept: Vec<String> = Vec::new();
    let mut at: usize = 0;
    proof {
        assert(before.take(0) =~= Seq::<Seq<char>>::empty());
        assert(names_of(kept@) =~= Seq::<Seq<char>>::empty());
        assert(before.take(0).filter(keep) =~= Seq::<Seq<char>>::empty()) by {
            before.take(0).lemma_filter_len(keep);
        }
    }
    while at < outputs.len()
        invariant
            at <= outputs.len(),
            before == names_of(outputs@),
            keep == |name: Seq<char>| !names_of(gone@).contains(name),
            names_of(kept@) == before.take(at as int).filter(keep),
        decreases outputs.len() - at,
    {
        let ghost earlier = names_of(kept@);
        let stays = !is_listed(gone, &outputs[at]);
        proof {
            let head = before.take(at as int);
            let name = before[at as int];
            assert(before.take(at + 1) =~= head.push(name));
            lemma_filter_push(head, name, keep);
        }
        if stays {
            kept.push(outputs[at].clone());
            assert(names_of(kept@) =~= earlier.push(before[at as int]));
        }
        at += 1;
    }
    assert(before.take(at as int) =~= before);
    *outputs = kept;
}

/// Filtering a sequence that ends in `last` filters what comes before it and
/// then keeps or drops `last`.
proof fn lemma_filter_push(
    head: Seq<Seq<char>>,
    last: Seq<char>,
    keep: spec_fn(Seq<char>) -> bool,
)
    ensures
        head.push(last).filter(keep) == if keep(last) {
            head.filter(keep).push(last)
        } else {
            head.filter(keep)
        },
{
    reveal(Seq::filter);
    assert(head.push(last).drop_last() =~= head);
}

} // verus!
