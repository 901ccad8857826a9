//! The binding environment of the `let` mechanism: a name-to-term-reference
//! environment with unconditional-overwrite writes and exact-match lookup.

use vstd::prelude::*;
use vstd::string::*;
use crate::terms::{TermReference, TermRefView};
use crate::text::str_eq;

verus! {

/// The environment is stored as a journal of writes; a later write to a
/// name shadows an earlier one.
pub struct Bindings {
    entries: Vec<(String, TermReference)>,
}

/// The environment a journal of writes denotes.
pub open spec fn journal_env(entries: Seq<(String, TermReference)>) -> Map<
    Seq<char>,
    TermRefView,
>
    decreases entries.len(),
{
    if entries.len() == 0 {
        Map::empty()
    } else {
        journal_env(entries.drop_last()).insert(entries.last().0@, entries.last().1@)
    }
}

impl View for Bindings {
    type V = Map<Seq<char>, TermRefView>;

    closed spec fn view(&self) -> Map<Seq<char>, TermRefView> {
        journal_env(self.entries@)
    }
}

/// The error a failed lookup reports, naming the identifier.
pub open spec fn lookup_err_msg(identifier: Seq<char>) -> Seq<char> {
    "No identifier named "@ + identifier + " in scope"@
}

impl Bindings {
    /// Binds `identifier`, overwriting any earlier binding of it.
    pub fn write(&mut self, identifier: String, term_ref: TermReference)
        ensures
            final(self)@ == old(self)@.insert(identifier@, term_ref@),
    {
        self.entries.push((identifier, term_ref));
        proof {
            assert(self.entries@.drop_last() =~= old(self).entries@);
        }
    }

    /// Looks `identifier` up; fails with an error naming it when absent.
    pub fn lookup(&self, identifier: &str) -> (r: Result<TermReference, String>)
        ensures
            match r {
                Result::Ok(term_ref) => self@.contains_key(identifier@) && term_ref@
                    == self@[identifier@],
                Result::Err(m) => !self@.contains_key(identifier@) && m@ == lookup_err_msg(
                    identifier@,
                ),
            },
    {
        let n = self.entries.len();
        let mut i: usize = n;
        proof {
            assert(self.entries@.take(n as int) =~= self.entries@);
        }
        while i > 0
            invariant
                i <= n,
                n == self.entries@.len(),
                journal_env(self.entries@).contains_key(identifier@) == journal_env(
                    self.entries@.take(i as int),
                ).contains_key(identifier@),
                journal_env(self.entries@).contains_key(identifier@) ==> journal_env(
                    self.entries@,
                )[identifier@] == journal_env(self.entries@.take(i as int))[identifier@],
            decreases i,
        {
            proof {
                assert(self.entries@.take(i as int).drop_last() =~= self.entries@.take(i - 1));
                assert(self.entries@.take(i as int).last() == self.entries@[i - 1]);
            }
            let entry = &self.entries[i - 1];
            if str_eq(entry.0.as_str(), identifier) {
                return Result::Ok(entry.1.clone());
            }
            i = i - 1;
        }
        proof {
            assert(self.entries@.take(0) =~= Seq::<(String, TermReference)>::empty());
        }
        let mut m = String::from_str("No identifier named ");
        m.append(identifier);
        m.append(" in scope");
        proof {
            assert(m@ =~= lookup_err_msg(identifier@));
        }
        Result::Err(m)
    }

    pub fn new() -> (r: Bindings)
        ensures
            r@ == Map::<Seq<char>, TermRefView>::empty(),
    {
        let b = Bindings { entries: Vec::new() };
        proof {
            assert(b.entries@.len() == 0);
        }
        b
    }
}

} // verus!
