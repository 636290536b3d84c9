//! What the operations of the library mean: laws over all inputs, stated of what goes in and what
//! comes out.
use crate::json::JsonView;
use vstd::prelude::*;

pub mod accounts;
pub mod events;
pub mod gathering;
pub mod handling;
pub mod listing;
pub mod outgoing;
pub mod quotas;
pub mod reading;
pub mod replies;
pub mod requests;
pub mod routing;
pub mod settings;
pub mod speaking;
pub mod streaming;
pub mod texts;

verus! {

/// Whether a text that is not empty stands under a name.
pub open spec fn says(v: JsonView, name: Seq<char>, text: Seq<char>) -> bool {
    v.get(name) == Some(JsonView::Str(text)) && text.len() > 0
}

/// Whether no text stands under a name, or an empty one.
pub open spec fn says_nothing(v: JsonView, name: Seq<char>) -> bool {
    match v.get(name) {
        Some(JsonView::Str(t)) => t.len() == 0,
        _ => true,
    }
}

/// Whether no text at all stands under a name.
pub open spec fn has_no_text(v: JsonView, name: Seq<char>) -> bool {
    match v.get(name) {
        Some(JsonView::Str(_)) => false,
        _ => true,
    }
}

/// The number under a name, where it is one without sign.
pub open spec fn number_at(v: JsonView, name: Seq<char>) -> Option<u64> {
    match v.get(name) {
        Some(x) => x.as_u64(),
        None => None,
    }
}

} // verus!
