use crate::tags::Tag;
use vstd::prelude::*;

verus! {

/// Holds the signing key for the archival uploader; with none set, the
/// transport falls back to the key in its environment.
#[derive(Clone, Debug)]
pub struct UploaderProvider {
    pub private_key: Option<String>,
}

impl UploaderProvider {
    pub fn new(private_key: Option<String>) -> (r: UploaderProvider)
        ensures
            r.private_key == private_key,
    {
        UploaderProvider { private_key }
    }
}

/// Prefixes the fixed protocol and payload-purpose tags ahead of the
/// caller's tags, in order: every archived payload carries them first.
pub fn prepare_upload_tags(mut param_tags: Vec<Tag>) -> (r: Vec<Tag>)
    ensures
        r@.len() == param_tags@.len() + 2,
        r@[0].name@ == "Protocol"@ && r@[0].value@ == "WeaveVM-ExEx"@,
        r@[1].name@ == "ExEx-Type"@ && r@[1].value@ == "Arweave-Data-Uploader"@,
        forall|i: int| 0 <= i < param_tags@.len() ==> r@[i + 2] == param_tags@[i],
{
    let mut tags: Vec<Tag> = Vec::new();
    tags.push(Tag::new("Protocol", "WeaveVM-ExEx"));
    tags.push(Tag::new("ExEx-Type", "Arweave-Data-Uploader"));
    tags.append(&mut param_tags);
    tags
}

/// A pending archival write: its tags, payload and optional signing key.
/// The builder only assembles the request; the transport that signs and
/// sends it lives outside the library.
#[derive(Clone, Debug)]
pub struct ArweaveRequest {
    pub tags: Vec<Tag>,
    pub data: Vec<u8>,
    pub private_key: Option<String>,
}

impl ArweaveRequest {
    pub fn new() -> (r: ArweaveRequest)
        ensures
            r.tags@ == Seq::<Tag>::empty(),
            r.data@ == Seq::<u8>::empty(),
            r.private_key is None,
    {
        ArweaveRequest { tags: Vec::new(), data: Vec::new(), private_key: None }
    }

    /// Appends one tag, keeping the ones already set.
    pub fn set_tag(self, name: &str, value: &str) -> (r: ArweaveRequest)
        ensures
            r.tags@.len() == self.tags@.len() + 1,
            forall|i: int| 0 <= i < self.tags@.len() ==> r.tags@[i] == self.tags@[i],
            r.tags@.last().name@ == name@,
            r.tags@.last().value@ == value@,
            r.data == self.data,
            r.private_key == self.private_key,
    {
        let mut tags = self.tags;
        tags.push(Tag::new(name, value));
        ArweaveRequest { tags, data: self.data, private_key: self.private_key }
    }

    pub fn set_data(self, data: Vec<u8>) -> (r: ArweaveRequest)
        ensures
            r.data == data,
            r.tags == self.tags,
            r.private_key == self.private_key,
    {
        ArweaveRequest { tags: self.tags, data, private_key: self.private_key }
    }

    pub fn set_private_key(self, data: String) -> (r: ArweaveRequest)
        ensures
            r.private_key == Some(data),
            r.tags == self.tags,
            r.data == self.data,
    {
        ArweaveRequest { tags: self.tags, data: self.data, private_key: Some(data) }
    }
}

} // verus!
