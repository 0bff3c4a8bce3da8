use vstd::prelude::*;

verus! {

/// Identifier of a game object, unique within one game state.
#[derive(PartialEq, Eq, Structural, Clone, Copy, Debug, Hash)]
pub struct Id(u64);

impl Id {
    pub closed spec fn spec_raw(&self) -> u64 {
        self.0
    }

    /// The raw number behind the identifier.
    pub fn raw(&self) -> (r: u64)
        ensures
            r == self.spec_raw(),
    {
        self.0
    }

    /// The identifier with raw number `raw`, as a saved game stores it.
    pub fn from_raw(raw: u64) -> (r: Id)
        ensures
            r.spec_raw() == raw,
    {
        Id(raw)
    }
}

/// Hands out identifiers in increasing order, starting at zero.
#[derive(Clone, Debug, PartialEq, Eq, Structural)]
pub struct Gen {
    next_id: u64,
}

impl Gen {
    /// The raw value of the identifier that the next call of `gen` returns.
    pub closed spec fn next(&self) -> u64 {
        self.next_id
    }

    pub fn new() -> (g: Self)
        ensures
            g.next() == 0,
    {
        Self { next_id: 0 }
    }

    /// A generator whose next identifier is `next_id`, as a saved game
    /// stores it.
    pub fn starting_at(next_id: u64) -> (g: Self)
        ensures
            g.next() == next_id,
    {
        Self { next_id }
    }

    /// The raw value of the identifier that the next call of `gen` returns.
    pub fn next_raw(&self) -> (r: u64)
        ensures
            r == self.next(),
    {
        self.next_id
    }

    pub fn gen(&mut self) -> (id: Id)
        requires
            old(self).next() < u64::MAX,
        ensures
            id.spec_raw() == old(self).next(),
            final(self).next() == old(self).next() + 1,
    {
        let id = Id(self.next_id);
        self.next_id = self.next_id + 1;
        id
    }
}

/// Two identifiers drawn one after the other from the same generator differ,
/// and the later one is larger.
pub proof fn lemma_gen_distinct(first: Id, second: Id, g0: Gen, g1: Gen, g2: Gen)
    requires
        first.spec_raw() == g0.next(),
        g1.next() == g0.next() + 1,
        second.spec_raw() == g1.next(),
        g2.next() == g1.next() + 1,
    ensures
        first != second,
        first.spec_raw() < second.spec_raw(),
{
}

} // verus!
