use vstd::prelude::*;

verus! {

/// A name/value pair attached to an archival upload or read back from the
/// archive index.
#[derive(Clone, Debug, PartialEq, Eq)]
pub struct Tag {
    pub name: String,
    pub value: String,
}

impl Tag {
    pub fn new(name: &str, value: &str) -> (t: Tag)
        ensures
            t.name@ == name@,
            t.value@ == value@,
    {
        Tag { name: name.to_owned(), value: value.to_owned() }
    }
}

} // verus!
