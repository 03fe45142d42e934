use vstd::prelude::*;

verus! {

/// What a message says of itself, as plain texts.
pub struct MetadataView {
    pub from: Seq<char>,
    pub to: Seq<Seq<char>>,
    pub subject: Option<Seq<char>>,
}

/// The sender, recipients and subject of one message.
#[derive(Debug, Clone, Default)]
pub struct MessageMetadata {
    from: String,
    to: Vec<String>,
    subject: Option<String>,
}

/// The text of an optional string.
pub open spec fn opt_view(s: Option<String>) -> Option<Seq<char>> {
    match s {
        Some(t) => Some(t@),
        None => None,
    }
}

impl View for MessageMetadata {
    type V = MetadataView;

    closed spec fn view(&self) -> MetadataView {
        MetadataView {
            from: self.from@,
            to: self.to@.map_values(|t: String| t@),
            subject: opt_view(self.subject),
        }
    }
}

impl MessageMetadata {
    pub fn new(from: String, to: Vec<String>, subject: Option<String>) -> (r: Self)
        ensures
            r@ == (MetadataView {
                from: from@,
                to: to@.map_values(|t: String| t@),
                subject: opt_view(subject),
            }),
    {
        MessageMetadata { from, to, subject }
    }

    pub fn from(&self) -> (r: &str)
        ensures
            r@ == self@.from,
    {
        self.from.as_str()
    }

    pub fn to(&self) -> (r: &[String])
        ensures
            r@.map_values(|t: String| t@) == self@.to,
    {
        self.to.as_slice()
    }

    pub fn subject(&self) -> (r: Option<&str>)
        ensures
            r matches Some(s) ==> self@.subject == Some(s@),
            r is None ==> self@.subject is None,
    {
        match &self.subject {
            Some(s) => Some(s.as_str()),
            None => None,
        }
    }
}

} // verus!
