//! Files added to an image from the build context.

use vstd::prelude::*;
use vstd::string::*;

verus! {

/// The mathematical value of an [`AddFile`].
pub struct AddFileView {
    pub from: Seq<char>,
    pub to: Seq<char>,
}

impl AddFileView {
    /// The declaration that adds the file.
    pub open spec fn text(self) -> Seq<char> {
        "ADD "@ + self.from + " "@ + self.to + "\n"@
    }
}

/// One file to add: where it comes from and where it goes.
#[derive(Debug, PartialEq, Eq)]
pub struct AddFile {
    pub from: String,
    pub to: String,
}

impl View for AddFile {
    type V = AddFileView;

    open spec fn view(&self) -> AddFileView {
        AddFileView { from: self.from@, to: self.to@ }
    }
}

impl Clone for AddFile {
    fn clone(&self) -> (copy: Self)
        ensures
            copy@ == self@,
    {
        AddFile { from: self.from.clone(), to: self.to.clone() }
    }
}

impl AddFile {
    /// An entry that adds `from` as `to`.
    pub fn new(from: &str, to: &str) -> (entry: AddFile)
        ensures
            entry@ == (AddFileView { from: from@, to: to@ }),
    {
        AddFile { from: String::from_str(from), to: String::from_str(to) }
    }

    /// Appends the declaration to `out`.
    pub fn write_to(&self, out: &mut String)
        ensures
            final(out)@ == old(out)@ + self@.text(),
    {
        out.append("ADD ");
        out.append(self.from.as_str());
        out.append(" ");
        out.append(self.to.as_str());
        out.append("\n");
        assert(out@ =~= old(out)@ + self@.text());
    }

    /// The declaration that adds the file.
    pub fn to_string(&self) -> (text: String)
        ensures
            text@ == self@.text(),
    {
        let mut out = String::new();
        self.write_to(&mut out);
        assert(out@ =~= self@.text());
        out
    }
}

} // verus!
