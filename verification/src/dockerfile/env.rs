//! The environment variables that a stage sets.

use vstd::prelude::*;
use vstd::string::*;
use crate::text::{concatenated, first_position, lemma_concatenated_next, lemma_first_position,
    lemma_first_position_none, lemma_first_position_some};

verus! {

/// The names of the variables, in order.
pub open spec fn keys(entries: Seq<(Seq<char>, Seq<char>)>) -> Seq<Seq<char>> {
    entries.map_values(|entry: (Seq<char>, Seq<char>)| entry.0)
}

/// No name occurs twice.
pub open spec fn unique_keys(entries: Seq<(Seq<char>, Seq<char>)>) -> bool {
    forall|i: int, j: int|
        0 <= i < j < entries.len() ==> (#[trigger] entries[i]).0 != (#[trigger] entries[j]).0
}

/// The variables after `key` is set to `value`: a variable that is there
/// already keeps its place and takes the new value, a new one goes to the end.
pub open spec fn with_variable(
    entries: Seq<(Seq<char>, Seq<char>)>,
    key: Seq<char>,
    value: Seq<char>,
) -> Seq<(Seq<char>, Seq<char>)> {
    match first_position(keys(entries), key) {
        Some(i) => entries.update(i, (key, value)),
        None => entries.push((key, value)),
    }
}

/// One variable inside the declaration: a blank, the name, `=` and the value.
pub open spec fn variable_text(entry: (Seq<char>, Seq<char>)) -> Seq<char> {
    " "@ + entry.0 + "="@ + entry.1
}

/// The variables inside the declaration, one after the other.
pub open spec fn variables_text(entries: Seq<(Seq<char>, Seq<char>)>) -> Seq<char> {
    concatenated(entries.map_values(|entry: (Seq<char>, Seq<char>)| variable_text(entry)))
}

/// The declaration that sets the variables: a single one for all of them, in
/// the order in which they were first set, and none at all where there are no
/// variables.
pub open spec fn env_text(entries: Seq<(Seq<char>, Seq<char>)>) -> Seq<char> {
    if entries.len() > 0 {
        "ENV"@ + variables_text(entries) + "\n"@
    } else {
        Seq::empty()
    }
}

/// Environment variables by name, in the order in which they were first set.
#[derive(Debug, PartialEq, Eq)]
pub struct Env {
    entries: Vec<(String, String)>,
}

impl View for Env {
    type V = Seq<(Seq<char>, Seq<char>)>;

    closed spec fn view(&self) -> Seq<(Seq<char>, Seq<char>)> {
        self.entries@.map_values(|entry: (String, String)| (entry.0@, entry.1@))
    }
}

impl Clone for Env {
    fn clone(&self) -> (copy: Self)
        ensures
            copy@ == self@,
    {
        proof {
            use_type_invariant(self);
        }
        let mut entries: Vec<(String, String)> = Vec::new();
        let mut i: usize = 0;
        while i < self.entries.len()
            invariant
                i <= self.entries.len(),
                entries@.len() == i,
                forall|k: int|
                    0 <= k < i ==> (#[trigger] entries@[k]).0@ == self.entries@[k].0@
                        && entries@[k].1@ == self.entries@[k].1@,
            decreases self.entries.len() - i,
        {
            entries.push((self.entries[i].0.clone(), self.entries[i].1.clone()));
            i += 1;
        }
        assert(entries@.map_values(|entry: (String, String)| (entry.0@, entry.1@)) =~= self@);
        Env { entries }
    }
}

impl Env {
    #[verifier::type_invariant]
    spec fn well_formed(&self) -> bool {
        unique_keys(self@)
    }

    /// No variables.
    pub fn new() -> (env: Env)
        ensures
            env@ == Seq::<(Seq<char>, Seq<char>)>::empty(),
    {
        let env = Env { entries: Vec::new() };
        assert(env@ =~= Seq::<(Seq<char>, Seq<char>)>::empty());
        env
    }

    /// How many variables there are.
    pub fn len(&self) -> (n: usize)
        ensures
            n == self@.len(),
            unique_keys(self@),
    {
        proof {
            use_type_invariant(self);
        }
        self.entries.len()
    }

    /// The name and the value of the variable at position `index`.
    pub fn get(&self, index: usize) -> (entry: Option<(&str, &str)>)
        ensures
            match entry {
                Some((key, value)) => index < self@.len() && self@[index as int] == (key@, value@),
                None => index >= self@.len(),
            },
    {
        if index < self.entries.len() {
            let entry = &self.entries[index];
            Some((entry.0.as_str(), entry.1.as_str()))
        } else {
            None
        }
    }

    /// Sets `key` to `value`.
    pub fn insert(&mut self, key: &str, value: &str)
        ensures
            final(self)@ == with_variable(old(self)@, key@, value@),
            unique_keys(final(self)@),
    {
        proof {
            use_type_invariant(&*self);
        }
        let ghost before = self@;
        let mut entries: Vec<(String, String)> = Vec::new();
        std::mem::swap(&mut entries, &mut self.entries);
        assert(entries@.map_values(|entry: (String, String)| (entry.0@, entry.1@)) == before);
        let wanted = String::from_str(key);
        let mut i: usize = 0;
        let mut found: Option<usize> = None;
        while i < entries.len()
            invariant_except_break
                found is None,
            invariant
                i <= entries.len(),
                wanted@ == key@,
                entries@.len() == before.len(),
                forall|k: int| 0 <= k < i ==> keys(before)[k] != key@,
                forall|k: int| 0 <= k < before.len() ==> before[k] == ((#[trigger] entries@[k]).0@, entries@[k].1@),
            ensures
                match found {
                    Some(p) => p < entries.len() && first_position(keys(before), key@) == Some(p as int),
                    None => first_position(keys(before), key@) is None,
                },
            decreases entries.len() - i,
        {
            if entries[i].0 == wanted {
                proof {
                    lemma_first_position(keys(before), key@, i as int);
                }
                found = Some(i);
                break;
            }
            i += 1;
        }
        proof {
            if found is None {
                lemma_first_position_none(keys(before), key@);
            } else {
                lemma_first_position_some(keys(before), key@);
            }
        }
        match found {
            Some(p) => {
                entries.set(p, (wanted, String::from_str(value)));
            },
            None => {
                entries.push((wanted, String::from_str(value)));
            },
        }
        let ghost after = entries@.map_values(|entry: (String, String)| (entry.0@, entry.1@));
        assert(after =~= with_variable(before, key@, value@));
        assert(unique_keys(after)) by {
            assert forall|a: int, b: int| 0 <= a < b < after.len() implies (#[trigger] after[a]).0 != (
            #[trigger] after[b]).0 by {
                match found {
                    Some(p) => {
                        assert(keys(before)[p as int] == key@);
                        if a != p && b != p {
                            assert(before[a].0 != before[b].0);
                        } else if a == p {
                            assert(before[a].0 != before[b].0);
                        } else {
                            assert(before[a].0 != before[b].0);
                        }
                    },
                    None => {
                        if b < before.len() {
                            assert(before[a].0 != before[b].0);
                        } else {
                            assert(keys(before)[a] != key@);
                        }
                    },
                }
            }
        }
        self.entries = entries;
    }

    /// Appends the declaration to `out`.
    pub fn write_to(&self, out: &mut String)
        ensures
            final(out)@ == old(out)@ + env_text(self@),
    {
        if self.entries.len() == 0 {
            assert(out@ =~= old(out)@ + env_text(self@));
            return ;
        }
        out.append("ENV");
        let ghost parts = self@.map_values(|entry: (Seq<char>, Seq<char>)| variable_text(entry));
        let mut i: usize = 0;
        while i < self.entries.len()
            invariant
                i <= self.entries.len(),
                parts == self@.map_values(|entry: (Seq<char>, Seq<char>)| variable_text(entry)),
                out@ == old(out)@ + "ENV"@ + concatenated(parts.take(i as int)),
            decreases self.entries.len() - i,
        {
            let entry = &self.entries[i];
            proof {
                lemma_concatenated_next(parts, i as int);
                assert(parts[i as int] == variable_text(self@[i as int]));
            }
            out.append(" ");
            out.append(entry.0.as_str());
            out.append("=");
            out.append(entry.1.as_str());
            assert(out@ =~= old(out)@ + "ENV"@ + concatenated(parts.take(i + 1)));
            i += 1;
        }
        assert(parts.take(i as int) =~= parts);
        out.append("\n");
        assert(out@ =~= old(out)@ + env_text(self@));
    }

    /// The declaration that sets the variables.
    pub fn to_string(&self) -> (text: String)
        ensures
            text@ == env_text(self@),
    {
        let mut out = String::new();
        self.write_to(&mut out);
        assert(out@ =~= env_text(self@));
        out
    }
}

} // verus!
