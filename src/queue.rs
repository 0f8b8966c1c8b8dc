//! The ordered queue of command lines waiting to be sent.
use vstd::prelude::*;
use std::collections::VecDeque;

verus! {

/// The text of each string, in order.
pub open spec fn views_of(v: Seq<String>) -> Seq<Seq<char>> {
    v.map_values(|s: String| s@)
}

/// Command lines waiting to be sent, front first.
pub struct CommandQueue {
    items: VecDeque<String>,
}

impl View for CommandQueue {
    type V = Seq<Seq<char>>;

    closed spec fn view(&self) -> Seq<Seq<char>> {
        views_of(self.items@)
    }
}

impl CommandQueue {
    pub fn new() -> (r: CommandQueue)
        ensures
            r@ == Seq::<Seq<char>>::empty(),
    {
        let r = CommandQueue { items: VecDeque::new() };
        assert(r@ =~= Seq::<Seq<char>>::empty());
        r
    }

    pub fn len(&self) -> (r: usize)
        ensures
            r == self@.len(),
    {
        self.items.len()
    }

    pub fn is_empty(&self) -> (r: bool)
        ensures
            r == (self@.len() == 0),
    {
        self.items.len() == 0
    }

    /// Appends a line at the back.
    pub fn push_back(&mut self, line: String)
        ensures
            final(self)@ == old(self)@.push(line@),
    {
        self.items.push_back(line);
        assert(self@ =~= old(self)@.push(line@));
    }

    /// Puts a line in front of all others.
    pub fn push_front(&mut self, line: String)
        ensures
            final(self)@ == seq![line@] + old(self)@,
    {
        self.items.push_front(line);
        assert(self@ =~= seq![line@] + old(self)@);
    }

    /// Takes the front line out, if there is one.
    pub fn pop_front(&mut self) -> (r: Option<String>)
        ensures
            old(self)@.len() == 0 ==> r is None && final(self)@ == old(self)@,
            old(self)@.len() > 0 ==> (r matches Some(s) && s@ == old(self)@[0] && final(self)@
                == old(self)@.drop_first()),
    {
        let r = self.items.pop_front();
        assert(self@ =~= old(self)@.drop_first() || old(self)@.len() == 0);
        r
    }

    /// Removes every line.
    pub fn clear(&mut self)
        ensures
            final(self)@ == Seq::<Seq<char>>::empty(),
    {
        self.items.clear();
        assert(self@ =~= Seq::<Seq<char>>::empty());
    }

    /// Whether the front line is exactly `line`.
    pub fn front_is(&self, line: &str) -> (r: bool)
        ensures
            r == (self@.len() > 0 && self@[0] == line@),
    {
        if self.items.len() == 0 {
            return false;
        }
        let front = &self.items[0];
        let v = crate::text::chars_of(front.as_str());
        let t = crate::text::chars_of(line);
        if v.len() != t.len() {
            return false;
        }
        let mut k: usize = 0;
        while k < v.len()
            invariant
                v@ == self@[0],
                t@ == line@,
                v@.len() == t@.len(),
                k <= v@.len(),
                forall|j: int| 0 <= j < k ==> v@[j] == t@[j],
            decreases v.len() - k,
        {
            if v[k] != t[k] {
                return false;
            }
            k = k + 1;
        }
        assert(v@ =~= t@);
        true
    }

    /// The lines, front first.
    pub fn lines(&self) -> (r: Vec<String>)
        ensures
            views_of(r@) == self@,
    {
        let mut r: Vec<String> = Vec::new();
        let mut k: usize = 0;
        while k < self.items.len()
            invariant
                k <= self@.len(),
                r@.len() == k,
                views_of(r@) == self@.subrange(0, k as int),
            decreases self@.len() - k,
        {
            let line = self.items[k].clone();
            assert(line@ == self@[k as int]);
            let ghost before = r@;
            r.push(line);
            assert(r@ == before.push(line));
            assert forall|j: int| 0 <= j < k + 1 implies #[trigger] views_of(r@)[j]
                == self@.subrange(0, k + 1)[j] by {
                assert(views_of(r@)[j] == r@[j]@);
                if j < k {
                    assert(r@[j] == before[j]);
                    assert(views_of(before)[j] == before[j]@);
                    assert(views_of(before)[j] == self@.subrange(0, k as int)[j]);
                } else {
                    assert(r@[j] == line);
                }
            }
            assert(views_of(r@) =~= self@.subrange(0, k + 1));
            k = k + 1;
        }
        assert(self@.subrange(0, k as int) =~= self@);
        r
    }
}

} // verus!
