//! Minimal rich-text capture: an ordered list of text runs.
//!
//! Structured text beyond plain paragraph runs is out of the decoder's scope;
//! this type only holds what was captured.

use vstd::prelude::*;

verus! {

pub struct TextVec {
    runs: Vec<String>,
}

impl View for TextVec {
    type V = Seq<Seq<char>>;

    closed spec fn view(&self) -> Seq<Seq<char>> {
        self.runs.deep_view()
    }
}

impl TextVec {
    pub fn new() -> (r: TextVec)
        ensures
            r@ == Seq::<Seq<char>>::empty(),
    {
        let r = TextVec { runs: Vec::new() };
        proof {
            assert(r@ =~= Seq::<Seq<char>>::empty());
        }
        r
    }

    pub fn push(&mut self, run: String)
        ensures
            final(self)@ == old(self)@.push(run@),
    {
        let ghost r = run@;
        self.runs.push(run);
        proof {
            assert(self@ =~= old(self)@.push(r));
        }
    }

    pub fn len(&self) -> (n: usize)
        ensures
            n == self@.len(),
    {
        self.runs.len()
    }

    pub fn run(&self, i: usize) -> (r: &String)
        requires
            i < self@.len(),
        ensures
            r@ == self@[i as int],
    {
        &self.runs[i]
    }

    /// A copy with the same runs.
    pub fn dup(&self) -> (r: TextVec)
        ensures
            r@ == self@,
    {
        let runs = self.runs.clone();
        proof {
            assert forall|j: int| 0 <= j < runs@.len() implies runs@[j] == self.runs@[j] by {
                assert(vstd::pervasive::cloned::<String>(self.runs@[j], runs@[j]));
            }
            assert(runs@ =~= self.runs@);
            assert(runs.deep_view() =~= self.runs.deep_view());
        }
        TextVec { runs }
    }
}

} // verus!
