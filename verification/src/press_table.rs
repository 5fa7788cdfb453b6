//! The keys currently held down while recorded events are replayed, each with
//! the instant of its latest press.
use crate::text::same_text;
use vstd::prelude::*;

verus! {

/// The instant recorded for `name` in `entries`: the latest entry wins.
pub open spec fn latest_press(entries: Seq<(String, i64)>, name: Seq<char>) -> Option<i64>
    decreases entries.len(),
{
    if entries.len() == 0 {
        None
    } else if entries.last().0@ == name {
        Some(entries.last().1)
    } else {
        latest_press(entries.drop_last(), name)
    }
}

/// `entries` without those for `name`.
pub open spec fn without_key(entries: Seq<(String, i64)>, name: Seq<char>) -> Seq<(String, i64)>
    decreases entries.len(),
{
    if entries.len() == 0 {
        Seq::empty()
    } else if entries.last().0@ == name {
        without_key(entries.drop_last(), name)
    } else {
        without_key(entries.drop_last(), name).push(entries.last())
    }
}

proof fn lemma_without_key(entries: Seq<(String, i64)>, name: Seq<char>, other: Seq<char>)
    ensures
        latest_press(without_key(entries, name), other) == if other == name {
            None
        } else {
            latest_press(entries, other)
        },
    decreases entries.len(),
{
    if entries.len() > 0 {
        lemma_without_key(entries.drop_last(), name, other);
        if entries.last().0@ != name {
            let w = without_key(entries.drop_last(), name);
            assert(w.push(entries.last()).drop_last() =~= w);
        }
    }
}

/// Keys held down, by name, with the instant of their latest press.  The
/// keys are texts; the table is a list searched by text equality, whose
/// view is the map from each name to its latest press, so that what a
/// press, a lookup and a release do is stated over that map.
pub struct PressTable {
    entries: Vec<(String, i64)>,
}

impl View for PressTable {
    type V = Map<Seq<char>, i64>;

    closed spec fn view(&self) -> Map<Seq<char>, i64> {
        Map::new(
            |k: Seq<char>| latest_press(self.entries@, k) is Some,
            |k: Seq<char>| latest_press(self.entries@, k)->0,
        )
    }
}

impl PressTable {
    /// No key held.
    pub fn new() -> (t: Self)
        ensures
            t@ == Map::<Seq<char>, i64>::empty(),
    {
        let t = PressTable { entries: Vec::new() };
        assert(t@ =~= Map::<Seq<char>, i64>::empty());
        t
    }

    /// Records that `name` was pressed at `at`.
    pub fn press(&mut self, name: &str, at: i64)
        ensures
            final(self)@ == old(self)@.insert(name@, at),
    {
        let ghost before = self.entries@;
        self.entries.push((String::from_str(name), at));
        assert(self.entries@.drop_last() =~= before);
        assert(self@ =~= old(self)@.insert(name@, at));
    }

    /// Whether `name` is held.
    pub fn is_held(&self, name: &str) -> (held: bool)
        ensures
            held == self@.contains_key(name@),
    {
        match self.pressed_at(name) {
            Some(_) => true,
            None => false,
        }
    }

    fn pressed_at(&self, name: &str) -> (at: Option<i64>)
        ensures
            at == latest_press(self.entries@, name@),
    {
        let mut i = self.entries.len();
        assert(self.entries@.subrange(0, i as int) =~= self.entries@);
        while i > 0
            invariant
                i <= self.entries.len(),
                latest_press(self.entries@, name@) == latest_press(
                    self.entries@.subrange(0, i as int),
                    name@,
                ),
            decreases i,
        {
            assert(self.entries@.subrange(0, i as int).drop_last() =~= self.entries@.subrange(
                0,
                i - 1,
            ));
            if same_text(self.entries[i - 1].0.as_str(), name) {
                return Some(self.entries[i - 1].1);
            }
            i -= 1;
        }
        None
    }

    /// Records that `name` was released: returns the instant of its latest
    /// press and forgets the key, or `None` when it was not held.
    pub fn release(&mut self, name: &str) -> (pressed_at: Option<i64>)
        ensures
            pressed_at == (if old(self)@.contains_key(name@) {
                Some(old(self)@[name@])
            } else {
                None::<i64>
            }),
            final(self)@ == old(self)@.remove(name@),
    {
        let at = self.pressed_at(name);
        let ghost before = self.entries@;
        let mut kept: Vec<(String, i64)> = Vec::new();
        let mut i: usize = 0;
        while i < self.entries.len()
            invariant
                i <= self.entries.len(),
                self.entries@ == before,
                kept@ == without_key(before.subrange(0, i as int), name@),
            decreases self.entries.len() - i,
        {
            assert(before.subrange(0, i + 1).drop_last() =~= before.subrange(0, i as int));
            let e = &self.entries[i];
            if !same_text(e.0.as_str(), name) {
                kept.push((e.0.clone(), e.1));
            }
            i += 1;
        }
        assert(before.subrange(0, before.len() as int) =~= before);
        self.entries = kept;
        proof {
            assert forall|k: Seq<char>| true implies latest_press(self.entries@, k) == if k
                == name@ {
                None
            } else {
                latest_press(before, k)
            } by {
                lemma_without_key(before, name@, k);
            }
        }
        assert(self@ =~= old(self)@.remove(name@));
        at
    }
}


/// Releasing a key reports the instant of its latest press, and a press
/// followed by the release of the same key leaves the other keys as they were.
pub proof fn lemma_release_reports_latest_press(held: Map<Seq<char>, i64>, name: Seq<char>, at: i64)
    ensures
        held.insert(name, at).contains_key(name),
        held.insert(name, at)[name] == at,
        held.insert(name, at).remove(name) == held.remove(name),
{
    assert(held.insert(name, at).remove(name) =~= held.remove(name));
}
} // verus!
