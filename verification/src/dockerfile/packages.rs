//! The packages that a stage installs.

use vstd::prelude::*;
use vstd::string::*;
use crate::text::{clone_strings, join, joined, texts};

verus! {

/// The clause that refreshes the package index, as root or through `sudo`.
pub open spec fn refresh_clause() -> Seq<char> {
    "RUN if [ \"$UID\" -eq 0 ]; then apt-get update -y; else sudo apt-get update -y; fi"@
}

/// The clause that installs the packages named in `list`, as root or through
/// `sudo`, joined to the clause before it by `&&`.
pub open spec fn install_clause(list: Seq<char>) -> Seq<char> {
    " && if [ \"$UID\" -eq 0 ]; then \\\n                    apt-get install -y "@ + list
        + "; \\\n                else \\\n                    sudo apt-get install -y "@ + list
        + "; \\\n                fi"@
}

/// The directive for a list of packages: always the refresh, and the install
/// clause only where there is something to install.
pub open spec fn packages_text(packages: Seq<Seq<char>>) -> Seq<char> {
    if packages.len() > 0 {
        refresh_clause() + install_clause(joined(packages, " "@)) + "\n"@
    } else {
        refresh_clause() + "\n"@
    }
}

/// The packages to install in one stage, in the order given. The list may be
/// empty: the package index is then refreshed and nothing is installed.
#[derive(Debug, PartialEq, Eq)]
pub struct Packages {
    packages: Vec<String>,
}

impl View for Packages {
    type V = Seq<Seq<char>>;

    closed spec fn view(&self) -> Seq<Seq<char>> {
        texts(self.packages@)
    }
}

impl Clone for Packages {
    fn clone(&self) -> (copy: Self)
        ensures
            copy@ == self@,
    {
        let packages = clone_strings(&self.packages);
        Packages { packages }
    }
}

impl Packages {
    /// The packages given as a sequence.
    pub fn new(packages: Vec<String>) -> (list: Packages)
        ensures
            list@ == texts(packages@),
    {
        Packages { packages }
    }

    /// How many packages there are.
    pub fn len(&self) -> (n: usize)
        ensures
            n == self@.len(),
    {
        self.packages.len()
    }

    /// The package at position `index`.
    pub fn get(&self, index: usize) -> (package: Option<&str>)
        ensures
            match package {
                Some(p) => index < self@.len() && p@ == self@[index as int],
                None => index >= self@.len(),
            },
    {
        if index < self.packages.len() {
            Some(self.packages[index].as_str())
        } else {
            None
        }
    }

    /// Appends the directive to `out`.
    pub fn write_to(&self, out: &mut String)
        ensures
            final(out)@ == old(out)@ + packages_text(self@),
    {
        out.append(
            "RUN if [ \"$UID\" -eq 0 ]; then apt-get update -y; else sudo apt-get update -y; fi",
        );
        if self.packages.len() > 0 {
            let list = join(&self.packages, " ");
            out.append(" && if [ \"$UID\" -eq 0 ]; then \\\n                    apt-get install -y ");
            out.append(list.as_str());
            out.append("; \\\n                else \\\n                    sudo apt-get install -y ");
            out.append(list.as_str());
            out.append("; \\\n                fi");
        }
        out.append("\n");
        assert(out@ =~= old(out)@ + packages_text(self@));
    }

    /// The directive that refreshes the package index and installs the packages.
    pub fn to_string(&self) -> (text: String)
        ensures
            text@ == packages_text(self@),
    {
        let mut out = String::new();
        self.write_to(&mut out);
        assert(out@ =~= packages_text(self@));
        out
    }
}

} // verus!
