//! A snapshot of the process environment, handed to the engine as a plain
//! value so that every decision that reads a variable is a function of its
//! inputs.  The host layer fills it from the real environment; tests fill it
//! directly.

use crate::strutil::str_eq;
use vstd::prelude::*;

verus! {

/// First-match lookup in a sequence of `(name, value)` pairs.
pub open spec fn env_lookup(vars: Seq<(Seq<char>, Seq<char>)>, name: Seq<char>) -> Option<Seq<char>>
    decreases vars.len(),
{
    if vars.len() == 0 {
        None
    } else if vars[0].0 == name {
        Some(vars[0].1)
    } else {
        env_lookup(vars.drop_first(), name)
    }
}

/// An immutable snapshot of environment variables.  Entries set later stand
/// in front, so they shadow earlier entries of the same name.
pub struct Env {
    /// The `(name, value)` pairs, first match winning on lookup.
    pub vars: Vec<(String, String)>,
}

impl View for Env {
    type V = Seq<(Seq<char>, Seq<char>)>;

    open spec fn view(&self) -> Seq<(Seq<char>, Seq<char>)> {
        self.vars.deep_view()
    }
}

impl Env {
    /// The value of `name` in this snapshot, if the variable is set.
    pub open spec fn spec_get(&self, name: Seq<char>) -> Option<Seq<char>> {
        env_lookup(self@, name)
    }

    /// An empty snapshot: no variable is set.
    pub fn new() -> (r: Env)
        ensures
            r@ == Seq::<(Seq<char>, Seq<char>)>::empty(),
    {
        let r = Env { vars: Vec::new() };
        assert(r@ =~= Seq::<(Seq<char>, Seq<char>)>::empty());
        r
    }

    /// The snapshot with `name` set to `value`, shadowing any earlier entry.
    pub fn set(self, name: &str, value: &str) -> (r: Env)
        ensures
            r@ == seq![(name@, value@)].add(self@),
    {
        let mut vars = self.vars;
        let ghost before = vars.deep_view();
        vars.insert(0, (name.to_owned(), value.to_owned()));
        let r = Env { vars };
        assert(r@ =~= seq![(name@, value@)].add(before));
        r
    }

    /// Looks the variable up, returning a copy of its value when it is set.
    pub fn get(&self, name: &str) -> (r: Option<String>)
        ensures
            match r {
                Some(v) => self.spec_get(name@) == Some(v@),
                None => self.spec_get(name@) is None,
            },
    {
        let n = self.vars.len();
        let mut i: usize = 0;
        assert(self@.skip(0) =~= self@);
        while i < n
            invariant
                n == self.vars.len(),
                i <= n,
                env_lookup(self@, name@) == env_lookup(self@.skip(i as int), name@),
            decreases n - i,
        {
            proof {
                assert(self@.skip(i as int)[0] == self@[i as int]);
                assert(self@.skip(i as int).drop_first() =~= self@.skip(i as int + 1));
                assert(self@[i as int].0 == self.vars[i as int].0@);
            }
            if str_eq(self.vars[i].0.as_str(), name) {
                let v = self.vars[i].1.clone();
                return Some(v);
            }
            i = i + 1;
        }
        assert(self@.skip(n as int) =~= Seq::<(Seq<char>, Seq<char>)>::empty());
        None
    }

    /// True when the variable is set to any value.
    pub fn is_set(&self, name: &str) -> (r: bool)
        ensures
            r == (self.spec_get(name@) is Some),
    {
        match self.get(name) {
            Some(_) => true,
            None => false,
        }
    }
}

} // verus!
