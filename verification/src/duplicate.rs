//! Copies that say the same as what they were made from.

use vstd::prelude::*;

verus! {

/// A type whose values can be copied without loss.
pub trait Duplicate: DeepView + Sized {
    /// A copy that says the same.
    fn duplicate(&self) -> (r: Self)
        ensures
            r.deep_view() == self.deep_view(),
    ;
}

impl Duplicate for String {
    fn duplicate(&self) -> (r: String) {
        self.clone()
    }
}

/// Pushing an item pushes its view.
pub proof fn lemma_pushed<T: DeepView>(before: Vec<T>, after: Vec<T>, item: T)
    requires
        after@ == before@.push(item),
    ensures
        after.deep_view() == before.deep_view().push(item.deep_view()),
{
}

/// The items from `from` up to `to`, copied.
pub fn copy_range<T: Duplicate>(items: &Vec<T>, from: usize, to: usize) -> (r: Vec<T>)
    requires
        from <= to <= items@.len(),
    ensures
        r.deep_view() == items.deep_view().subrange(from as int, to as int),
{
    let mut out: Vec<T> = Vec::new();
    let mut i: usize = from;
    while i < to
        invariant
            from <= i <= to <= items@.len(),
            out.deep_view() == items.deep_view().subrange(from as int, i as int),
        decreases to - i,
    {
        let item = items[i].duplicate();
        let ghost before = out;
        out.push(item);
        i = i + 1;
        proof {
            lemma_pushed(before, out, item);
        }
        assert(out.deep_view() == items.deep_view().subrange(from as int, i as int));
    }
    out
}

/// All the items, copied.
pub fn copy_all<T: Duplicate>(items: &Vec<T>) -> (r: Vec<T>)
    ensures
        r.deep_view() == items.deep_view(),
{
    let r = copy_range(items, 0, items.len());
    assert(items.deep_view().subrange(0, items@.len() as int) == items.deep_view());
    r
}

/// The item, copied, where there is one.
pub fn copy_option<T: Duplicate>(item: &Option<T>) -> (r: Option<T>)
    ensures
        r.deep_view() == item.deep_view(),
{
    match item {
        Some(item) => Some(item.duplicate()),
        None => None,
    }
}

}
