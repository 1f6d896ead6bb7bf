//! The set of characters already written during one run.
use vstd::prelude::*;

verus! {

/// Characters already written in this run, each held once, in the order in
/// which they were recorded. It only ever grows.
pub struct Ledger {
    entries: Vec<String>,
}

impl Ledger {
    /// The recorded characters, in the order of recording.
    pub closed spec fn entries(&self) -> Seq<Seq<char>> {
        self.entries@.map_values(|e: String| e@)
    }

    /// The set of recorded characters.
    pub open spec fn view(&self) -> Set<Seq<char>> {
        self.entries().to_set()
    }

    /// No character is held twice.
    pub open spec fn wf(&self) -> bool {
        self.entries().no_duplicates()
    }

    /// An empty ledger.
    pub fn new() -> (r: Ledger)
        ensures
            r.wf(),
            r@ == Set::<Seq<char>>::empty(),
            r.entries() == Seq::<Seq<char>>::empty(),
    {
        let r = Ledger { entries: Vec::new() };
        assert(r.entries() =~= Seq::<Seq<char>>::empty());
        assert(r@ =~= Set::<Seq<char>>::empty());
        r
    }

    /// Whether `hanzi` was recorded.
    pub fn contains(&self, hanzi: &String) -> (r: bool)
        ensures
            r == self@.contains(hanzi@),
    {
        let mut i: usize = 0;
        while i < self.entries.len()
            invariant
                i <= self.entries@.len(),
                forall|j: int| 0 <= j < i ==> self.entries()[j] != hanzi@,
            decreases self.entries@.len() - i,
        {
            if self.entries[i] == *hanzi {
                assert(self.entries()[i as int] == hanzi@);
                return true;
            }
            i = i + 1;
        }
        false
    }

    /// Records `hanzi`; a character recorded before is not added again.
    pub fn record(&mut self, hanzi: &String)
        requires
            old(self).wf(),
        ensures
            final(self).wf(),
            final(self)@ == old(self)@.insert(hanzi@),
            old(self)@.contains(hanzi@) ==> final(self).entries() == old(self).entries(),
            !old(self)@.contains(hanzi@) ==> final(self).entries() == old(self).entries().push(
                hanzi@,
            ),
    {
        if !self.contains(hanzi) {
            self.entries.push(hanzi.clone());
            assert(self.entries() =~= old(self).entries().push(hanzi@));
            assert(self@ =~= old(self)@.insert(hanzi@)) by {
                assert forall|k: Seq<char>| self@.contains(k) <==> old(self)@.insert(hanzi@).contains(k) by {
                    if old(self)@.contains(k) {
                        let j = choose|j: int| 0 <= j < old(self).entries().len() && old(self).entries()[j] == k;
                        assert(self.entries()[j] == k);
                    }
                    if k == hanzi@ {
                        assert(self.entries()[self.entries().len() - 1] == k);
                    }
                }
            }
        } else {
            assert(old(self)@.insert(hanzi@) =~= old(self)@);
        }
    }

    /// The number of recorded characters.
    pub fn len(&self) -> (r: usize)
        requires
            self.wf(),
        ensures
            r == self@.len(),
            r == self.entries().len(),
    {
        proof {
            self.entries().unique_seq_to_set();
        }
        self.entries.len()
    }
}

} // verus!
