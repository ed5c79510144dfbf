//! The middleware chain around a tool call.

use vstd::prelude::*;

verus! {

/// The remainder of the middleware chain, ending at the tool itself: `at` is
/// the place of the next middleware, of `len` in all.
#[derive(Debug, Clone, Copy, PartialEq, Eq, Structural)]
pub struct ToolNext {
    pub at: usize,
    pub len: usize,
}

impl ToolNext {
    /// The whole chain.
    pub open spec fn whole(len: usize) -> ToolNext {
        ToolNext { at: 0, len }
    }

    /// The next middleware and what remains behind it, or nothing where the
    /// tool itself is next.
    pub open spec fn split(self) -> Option<(usize, ToolNext)> {
        if self.at < self.len {
            Some((self.at, ToolNext { at: (self.at + 1) as usize, len: self.len }))
        } else {
            None
        }
    }

    /// The middleware that a call passes on its way to the tool, if each passes
    /// it on.
    pub open spec fn passed(self) -> Seq<usize>
        decreases self.len - self.at,
    {
        match self.split() {
            Some((head, rest)) => if self.at < self.len {
                seq![head] + rest.passed()
            } else {
                Seq::empty()
            },
            None => Seq::empty(),
        }
    }

    /// The whole chain.
    pub fn new(len: usize) -> (r: ToolNext)
        ensures
            r == ToolNext::whole(len),
    {
        ToolNext { at: 0, len }
    }

    /// The next middleware and what remains behind it, or nothing where the
    /// tool itself is next.
    pub fn run(self) -> (r: Option<(usize, ToolNext)>)
        ensures
            r == self.split(),
    {
        if self.at < self.len {
            Some((self.at, ToolNext { at: self.at + 1, len: self.len }))
        } else {
            None
        }
    }
}

proof fn lemma_passed(next: ToolNext)
    requires
        next.at <= next.len,
    ensures
        next.passed() == Seq::new((next.len - next.at) as nat, |i: int| (next.at + i) as usize),
    decreases next.len - next.at,
{
    if next.at < next.len {
        let rest = ToolNext { at: (next.at + 1) as usize, len: next.len };
        lemma_passed(rest);
        assert(next.passed() == Seq::new(
            (next.len - next.at) as nat,
            |i: int| (next.at + i) as usize,
        ));
    } else {
        assert(next.passed() == Seq::new(0, |i: int| (next.at + i) as usize));
    }
}

/// A call that every middleware passes on goes through each of them once, from
/// the first to the last, and then to the tool.
pub proof fn law_every_middleware_is_passed_in_order(len: usize)
    ensures
        ToolNext::whole(len).passed() == Seq::new(len as nat, |i: int| i as usize),
{
    lemma_passed(ToolNext::whole(len));
    assert(ToolNext::whole(len).passed() == Seq::new(len as nat, |i: int| i as usize));
}

}
