//! Suites. The tests of `suite "x" { test "y" { ... } ... }` become functions
//! beside each other, and the suite is dropped.

use crate::ast::{Item, Module};
use vstd::prelude::*;

verus! {

/// What an item becomes: a suite its tests, any other item itself.
pub open spec fn flattened_item(item: Item) -> Seq<Item> {
    match item {
        Item::Suite(s) => Seq::new(s.tests@.len(), |k: int| Item::Fn(s.tests@[k])),
        _ => seq![item],
    }
}

/// What the first `n` items become.
pub open spec fn flattened(items: Seq<Item>, n: int) -> Seq<Item>
    decreases n,
{
    if n <= 0 {
        Seq::empty()
    } else {
        flattened(items, n - 1) + flattened_item(items[n - 1])
    }
}

/// Replaces every suite of the module by its tests.
pub fn desugar_suite(module: Module) -> (r: Module)
    ensures
        r.span == module.span,
        r.items@ == flattened(module.items@, module.items@.len() as int),
{
    let mut out: Vec<Item> = Vec::new();
    let ghost items = module.items@;
    let span = module.span;
    for item in it: module.items
        invariant
            it.seq() == items,
            out@ == flattened(items, it.index() as int),
    {
        let ghost before = out@;
        let ghost entry = item;
        assert(entry == items[it.index() as int]);
        match item {
            Item::Suite(s) => {
                let ghost tests = s.tests@;
                for t in inner: s.tests
                    invariant
                        inner.seq() == tests,
                        out@ == before + Seq::new(
                            inner.index() as nat,
                            |k: int| Item::Fn(tests[k]),
                        ),
                {
                    let ghost so_far = out@;
                    out.push(Item::Fn(t));
                    assert(out@ =~= before + Seq::new(
                        (inner.index() + 1) as nat,
                        |k: int| Item::Fn(tests[k]),
                    ));
                }
                assert(out@ =~= before + flattened_item(entry));
            },
            other => {
                out.push(other);
                assert(out@ =~= before + flattened_item(entry));
            },
        }
    }
    Module { items: out, span }
}

/// After flattening, no suite is left.
pub proof fn law_no_suite_remains(items: Seq<Item>, n: int, j: int)
    requires
        0 <= n <= items.len(),
        0 <= j < flattened(items, n).len(),
    ensures
        !(flattened(items, n)[j] is Suite),
    decreases n,
{
    let before = flattened(items, n - 1);
    if j < before.len() {
        law_no_suite_remains(items, n - 1, j);
    } else {
        assert(flattened(items, n)[j] == flattened_item(items[n - 1])[j - before.len()]);
    }
}

/// A module without a suite passes through unchanged.
pub proof fn law_suiteless_unchanged(items: Seq<Item>)
    requires
        forall|i: int| 0 <= i < items.len() ==> !(#[trigger] items[i] is Suite),
    ensures
        flattened(items, items.len() as int) == items,
{
    lemma_suiteless(items, items.len() as int);
    assert(items.take(items.len() as int) =~= items);
}

proof fn lemma_suiteless(items: Seq<Item>, n: int)
    requires
        0 <= n <= items.len(),
        forall|i: int| 0 <= i < items.len() ==> !(#[trigger] items[i] is Suite),
    ensures
        flattened(items, n) == items.take(n),
    decreases n,
{
    if n > 0 {
        lemma_suiteless(items, n - 1);
        assert(!(items[n - 1] is Suite));
        assert(items.take(n - 1) + seq![items[n - 1]] =~= items.take(n));
    } else {
        assert(items.take(0) =~= Seq::<Item>::empty());
    }
}

} // verus!
