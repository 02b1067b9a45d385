//! Files copied into an image, from the build context or from an earlier stage.

use vstd::prelude::*;
use vstd::string::*;
use crate::text::{decimal_string, decimal_text};

verus! {

/// The mathematical value of a [`CopyFile`].
pub struct CopyFileView {
    pub from: Seq<char>,
    pub to: Seq<char>,
    pub stage: Option<nat>,
}

impl CopyFileView {
    /// The option that names the stage to copy from, with the blank behind it;
    /// empty where the file comes from the build context.
    pub open spec fn origin(self) -> Seq<char> {
        match self.stage {
            Some(index) => "--from="@ + decimal_text(index) + " "@,
            None => Seq::empty(),
        }
    }

    /// The declaration that copies the file.
    pub open spec fn text(self) -> Seq<char> {
        "COPY "@ + self.origin() + self.from + " "@ + self.to + "\n"@
    }
}

/// One file to copy: where it comes from, where it goes, and the index of the
/// earlier stage that holds it, if it is not taken from the build context.
#[derive(Debug, PartialEq, Eq)]
pub struct CopyFile {
    pub from: String,
    pub to: String,
    pub stage: Option<usize>,
}

impl View for CopyFile {
    type V = CopyFileView;

    open spec fn view(&self) -> CopyFileView {
        CopyFileView {
            from: self.from@,
            to: self.to@,
            stage: match self.stage {
                Some(index) => Some(index as nat),
                None => None,
            },
        }
    }
}

impl Clone for CopyFile {
    fn clone(&self) -> (copy: Self)
        ensures
            copy@ == self@,
    {
        CopyFile { from: self.from.clone(), to: self.to.clone(), stage: self.stage }
    }
}

impl CopyFile {
    /// An entry that copies `from` as `to`, out of the given stage if there is one.
    pub fn new(from: &str, to: &str, stage: Option<usize>) -> (entry: CopyFile)
        ensures
            entry.from@ == from@,
            entry.to@ == to@,
            entry.stage == stage,
    {
        CopyFile { from: String::from_str(from), to: String::from_str(to), stage }
    }

    /// Appends the declaration to `out`.
    pub fn write_to(&self, out: &mut String)
        ensures
            final(out)@ == old(out)@ + self@.text(),
    {
        out.append("COPY ");
        match self.stage {
            Some(index) => {
                out.append("--from=");
                let digits = decimal_string(index);
                out.append(digits.as_str());
                out.append(" ");
                assert(out@ =~= old(out)@ + "COPY "@ + self@.origin());
            },
            None => {
                assert(out@ =~= old(out)@ + "COPY "@ + self@.origin());
            },
        }
        out.append(self.from.as_str());
        out.append(" ");
        out.append(self.to.as_str());
        out.append("\n");
        assert(out@ =~= old(out)@ + self@.text());
    }

    /// The declaration that copies the file.
    pub fn to_string(&self) -> (text: String)
        ensures
            text@ == self@.text(),
    {
        let mut out = String::new();
        self.write_to(&mut out);
        assert(out@ =~= self@.text());
        out
    }
}

} // verus!
