use vstd::prelude::*;
use crate::error::SessionError;

verus! {

/// Maps each recorded message id to its position in order of recording.
pub struct MessageIndex {
    ids: Vec<String>,
}

/// The ids of `s`, in order.
pub open spec fn ids_view(s: Seq<String>) -> Seq<Seq<char>> {
    s.map_values(|t: String| t@)
}

/// No id occurs twice.
pub open spec fn unique_ids(s: Seq<Seq<char>>) -> bool {
    forall|i: int, j: int| 0 <= i < s.len() && 0 <= j < s.len() && s[i] == s[j] ==> i == j
}

/// The ids after recording `id`: appended unless already there.
pub open spec fn recorded(s: Seq<Seq<char>>, id: Seq<char>) -> Seq<Seq<char>> {
    if s.contains(id) {
        s
    } else {
        s.push(id)
    }
}

impl View for MessageIndex {
    type V = Seq<Seq<char>>;

    closed spec fn view(&self) -> Seq<Seq<char>> {
        ids_view(self.ids@)
    }
}

impl MessageIndex {
    /// Each id is recorded once.
    pub closed spec fn wf(&self) -> bool {
        unique_ids(self@)
    }

    /// An index with no id.
    pub fn new() -> (r: MessageIndex)
        ensures
            r@ == Seq::<Seq<char>>::empty(),
            r.wf(),
    {
        let r = MessageIndex { ids: Vec::new() };
        assert(r@ =~= Seq::<Seq<char>>::empty());
        r
    }

    /// The number of recorded ids.
    pub fn len(&self) -> (r: usize)
        ensures
            r == self@.len(),
    {
        self.ids.len()
    }

    /// The position of `id`, or `NotFound` when it was never recorded.
    pub fn position(&self, id: &str) -> (r: Result<usize, SessionError>)
        ensures
            match r {
                Ok(i) => i < self@.len() && self@[i as int] == id@,
                Err(e) => e == SessionError::NotFound && !self@.contains(id@),
            },
            self.wf() && self@.contains(id@) ==> r is Ok,
    {
        let key = id.to_owned();
        let mut i: usize = 0;
        while i < self.ids.len()
            invariant
                i <= self.ids@.len(),
                key@ == id@,
                forall|j: int| 0 <= j < i ==> self@[j] != id@,
            decreases self.ids@.len() - i,
        {
            if self.ids[i] == key {
                return Ok(i);
            }
            i += 1;
        }
        assert forall|j: int| 0 <= j < self@.len() implies self@[j] != id@ by {}
        Err(SessionError::NotFound)
    }

    /// Records `id` at the next position unless it is already recorded.
    pub fn record(&mut self, id: &str)
        requires
            old(self).wf(),
        ensures
            final(self)@ == recorded(old(self)@, id@),
            final(self).wf(),
    {
        match self.position(id) {
            Ok(_) => {},
            Err(_) => {
                self.ids.push(id.to_owned());
                assert(self@ =~= old(self)@.push(id@));
            },
        }
    }
}

} // verus!
