//! The process environment as a value: names and values, looked up by name.

use vstd::prelude::*;

use crate::text;

verus! {

/// Variables in the order they were set; a later one with the same name
/// replaces an earlier one.
pub struct Environment {
    pub vars: Vec<(String, String)>,
}

/// The variables as a map: of pairs with the same name the last one counts.
pub open spec fn variables(vars: Seq<(String, String)>) -> Map<Seq<char>, Seq<char>>
    decreases vars.len(),
{
    if vars.len() == 0 {
        Map::empty()
    } else {
        variables(vars.drop_last()).insert(vars.last().0@, vars.last().1@)
    }
}

impl View for Environment {
    type V = Map<Seq<char>, Seq<char>>;

    open spec fn view(&self) -> Map<Seq<char>, Seq<char>> {
        variables(self.vars@)
    }
}

/// Whether a looked up value is the one that the map holds.
pub open spec fn is_lookup(
    vars: Map<Seq<char>, Seq<char>>,
    name: Seq<char>,
    r: Option<String>,
) -> bool {
    match r {
        Some(value) => vars.contains_key(name) && value@ == vars[name],
        None => !vars.contains_key(name),
    }
}

impl Environment {
    /// An environment with the given variables.
    pub fn new(vars: Vec<(String, String)>) -> (env: Self)
        ensures
            env@ == variables(vars@),
    {
        Environment { vars }
    }

    /// The value of `name`, `None` when it is not set.
    pub fn get(&self, name: &str) -> (r: Option<String>)
        ensures
            is_lookup(self@, name@, r),
    {
        let mut i: usize = self.vars.len();
        proof {
            assert(self.vars@.take(i as int) =~= self.vars@);
        }
        while i > 0
            invariant
                i <= self.vars@.len(),
                self@.contains_key(name@) == variables(self.vars@.take(i as int)).contains_key(
                    name@,
                ),
                self@.contains_key(name@) ==> self@[name@] == variables(
                    self.vars@.take(i as int),
                )[name@],
            decreases i,
        {
            i = i - 1;
            proof {
                assert(self.vars@.take(i + 1).drop_last() =~= self.vars@.take(i as int));
            }
            if text::same(self.vars[i].0.as_str(), name) {
                return Some(self.vars[i].1.clone());
            }
        }
        None
    }

    /// The value of `name`; `None` when it is not set or empty.
    pub fn get_non_empty(&self, name: &str) -> (r: Option<String>)
        ensures
            match r {
                Some(value) => self@.contains_key(name@) && value@ == self@[name@] && value@.len()
                    > 0,
                None => !self@.contains_key(name@) || self@[name@].len() == 0,
            },
    {
        match self.get(name) {
            Some(value) => if value.as_str().is_empty() {
                None
            } else {
                Some(value)
            },
            None => None,
        }
    }
}

/// The last setting of a name counts, and a name that was never set has no
/// value.
pub proof fn law_last_setting_counts(env: Environment)
    ensures
        forall|i: int|
            0 <= i < env.vars@.len() && (forall|j: int|
                i < j < env.vars@.len() ==> (#[trigger] env.vars@[j]).0@ != env.vars@[i].0@)
                ==> env@.contains_key((#[trigger] env.vars@[i]).0@) && env@[env.vars@[i].0@]
                == env.vars@[i].1@,
        forall|name: Seq<char>| #[trigger]
            env@.contains_key(name) ==> exists|i: int|
                0 <= i < env.vars@.len() && (#[trigger] env.vars@[i]).0@ == name,
{
    lemma_last_setting(env.vars@);
}

proof fn lemma_last_setting(vars: Seq<(String, String)>)
    ensures
        forall|i: int|
            0 <= i < vars.len() && (forall|j: int|
                i < j < vars.len() ==> (#[trigger] vars[j]).0@ != vars[i].0@) ==> variables(
                vars,
            ).contains_key((#[trigger] vars[i]).0@) && variables(vars)[vars[i].0@] == vars[i].1@,
        forall|name: Seq<char>| #[trigger]
            variables(vars).contains_key(name) ==> exists|i: int|
                0 <= i < vars.len() && (#[trigger] vars[i]).0@ == name,
    decreases vars.len(),
{
    if vars.len() > 0 {
        let front = vars.drop_last();
        let n = vars.len() - 1;
        lemma_last_setting(front);
        assert forall|i: int|
            0 <= i < vars.len() && (forall|j: int|
                i < j < vars.len() ==> (#[trigger] vars[j]).0@ != vars[i].0@) implies variables(
            vars,
        ).contains_key((#[trigger] vars[i]).0@) && variables(vars)[vars[i].0@] == vars[i].1@ by {
            if i < n {
                assert(front[i] == vars[i]);
                assert forall|j: int| i < j < front.len() implies (#[trigger] front[j]).0@
                    != front[i].0@ by {
                    assert(front[j] == vars[j]);
                }
                assert(vars[n].0@ != vars[i].0@);
            }
        }
        assert forall|name: Seq<char>| #[trigger] variables(vars).contains_key(
            name,
        ) implies exists|i: int| 0 <= i < vars.len() && (#[trigger] vars[i]).0@ == name by {
            if variables(front).contains_key(name) {
                let i = choose|i: int| 0 <= i < front.len() && (#[trigger] front[i]).0@ == name;
                assert(vars[i] == front[i]);
            } else {
                assert(vars[n].0@ == name);
            }
        }
    }
}

/// A lookup finds the value that is set, and nothing where none is.
pub proof fn law_lookup_finds_what_is_set(
    vars: Map<Seq<char>, Seq<char>>,
    name: Seq<char>,
    r: Option<String>,
)
    requires
        is_lookup(vars, name, r),
    ensures
        vars.contains_key(name) ==> r is Some && r->0@ == vars[name],
        !vars.contains_key(name) ==> r is None,
{
}

} // verus!
