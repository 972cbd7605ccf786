//! A snapshot of the environment-variable table.
//!
//! The loader never touches the real process environment: it reads from an
//! [`Env`] value that the caller fills, so every load is deterministic in
//! its arguments.  An `Env` is a list of name/value pairs; setting a name
//! again overrides the earlier pair.

use vstd::prelude::*;

verus! {

/// An environment snapshot: name/value pairs, later pairs overriding
/// earlier ones on lookup.
#[derive(Debug, Clone, PartialEq)]
pub struct Env {
    entries: Vec<(String, String)>,
}

/// The value bound to `name`, searching from the most recent pair.
pub open spec fn spec_lookup(env: Seq<(Seq<char>, Seq<char>)>, name: Seq<char>) -> Option<
    Seq<char>,
>
    decreases env.len(),
{
    if env.len() == 0 {
        None
    } else if env.last().0 == name {
        Some(env.last().1)
    } else {
        spec_lookup(env.drop_last(), name)
    }
}

impl View for Env {
    type V = Seq<(Seq<char>, Seq<char>)>;

    closed spec fn view(&self) -> Seq<(Seq<char>, Seq<char>)> {
        Seq::new(self.entries@.len(), |i: int| (self.entries@[i].0@, self.entries@[i].1@))
    }
}

impl Env {
    /// An empty snapshot: no variable is present.
    pub fn new() -> (r: Env)
        ensures
            r@ == Seq::<(Seq<char>, Seq<char>)>::empty(),
    {
        let r = Env { entries: Vec::new() };
        proof {
            assert(r@ =~= Seq::<(Seq<char>, Seq<char>)>::empty());
        }
        r
    }

    /// Binds `name` to `value`, overriding any earlier binding.
    pub fn set(&mut self, name: String, value: String)
        ensures
            final(self)@ == old(self)@.push((name@, value@)),
    {
        let ghost n = name@;
        let ghost v = value@;
        self.entries.push((name, value));
        proof {
            assert(self@ =~= old(self)@.push((n, v)));
        }
    }

    /// Looks `name` up in the snapshot.
    pub fn get(&self, name: &String) -> (r: Option<String>)
        ensures
            match r {
                Some(v) => spec_lookup(self@, name@) == Some(v@),
                None => spec_lookup(self@, name@) is None,
            },
    {
        let mut i: usize = self.entries.len();
        proof {
            assert(self@.take(i as int) =~= self@);
        }
        while i > 0
            invariant
                i <= self.entries.len(),
                self@.len() == self.entries@.len(),
                forall|j: int| 0 <= j < self@.len() ==> #[trigger] self@[j]
                    == (self.entries@[j].0@, self.entries@[j].1@),
                spec_lookup(self@, name@) == spec_lookup(self@.take(i as int), name@),
            decreases i,
        {
            i -= 1;
            if self.entries[i].0 == *name {
                proof {
                    let t = self@.take(i as int + 1);
                    assert(t.last() == self@[i as int]);
                }
                return Some(self.entries[i].1.clone());
            }
            proof {
                let t = self@.take(i as int + 1);
                assert(t.last() == self@[i as int]);
                assert(t.drop_last() =~= self@.take(i as int));
            }
        }
        proof {
            assert(self@.take(0) =~= Seq::<(Seq<char>, Seq<char>)>::empty());
        }
        None
    }
}

} // verus!
