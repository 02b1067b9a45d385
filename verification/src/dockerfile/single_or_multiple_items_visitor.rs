//! One item or many: the two shapes in which a list of strings may be written.

use vstd::prelude::*;
use vstd::string::*;
use crate::text::texts;

verus! {

/// Turns either shape of a list of strings, a single string or a sequence of
/// them, into the sequence that the rest of the crate works with.
pub struct SingleOrMultipleItemsVisitor;

impl SingleOrMultipleItemsVisitor {
    /// A single borrowed string stands for the sequence that holds just it.
    pub fn visit_str(self, value: &str) -> (items: Vec<String>)
        ensures
            texts(items@) == seq![value@],
    {
        let mut items: Vec<String> = Vec::new();
        items.push(String::from_str(value));
        assert(texts(items@) =~= seq![value@]);
        items
    }

    /// A single owned string stands for the sequence that holds just it.
    pub fn visit_string(self, value: String) -> (items: Vec<String>)
        ensures
            items@ == seq![value],
            texts(items@) == seq![value@],
    {
        let mut items: Vec<String> = Vec::new();
        items.push(value);
        assert(items@ =~= seq![value]);
        assert(texts(items@) =~= seq![value@]);
        items
    }
}

} // verus!
