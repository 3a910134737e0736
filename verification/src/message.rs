//! The message-creation event payload carried on the event channel.

use vstd::prelude::*;

verus! {

/// A newly created message: its id, an optional client-chosen nonce, the
/// channel it belongs to, its author and its content.
#[derive(Debug)]
pub struct Create {
    pub id: String,
    pub nonce: Option<String>,
    pub channel: String,
    pub author: String,
    pub content: String,
}

#[verifier::ext_equal]
pub ghost struct CreateView {
    pub id: Seq<char>,
    pub nonce: Option<Seq<char>>,
    pub channel: Seq<char>,
    pub author: Seq<char>,
    pub content: Seq<char>,
}

impl DeepView for Create {
    type V = CreateView;

    open spec fn deep_view(&self) -> CreateView {
        CreateView {
            id: self.id.deep_view(),
            nonce: self.nonce.deep_view(),
            channel: self.channel.deep_view(),
            author: self.author.deep_view(),
            content: self.content.deep_view(),
        }
    }
}

} // verus!
