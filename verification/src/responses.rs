//! What the host answers to a write and to dropping a database.

use crate::document::Revision;
use crate::error::{DecodingFailure, Error, ErrorView};
use crate::value::{RawValue, Tree};
use vstd::prelude::*;

verus! {

/// The answer to dropping a database.
#[derive(Clone, Copy, Debug, PartialEq, Eq, Structural)]
pub struct DestroyResponse {
    pub ok: bool,
}

/// The acknowledgement that a payload holds, where it holds one: its `ok`
/// member is a truth value.
pub open spec fn decoded_acknowledgement(value: Tree) -> Option<DestroyResponse> {
    match value.get("ok"@) {
        Tree::Bool(ok) => Some(DestroyResponse { ok }),
        _ => None,
    }
}

impl DestroyResponse {
    /// Reads the answer to dropping a database.
    pub fn try_from(value: &RawValue) -> (r: Result<DestroyResponse, Error>)
        ensures
            match r {
                Ok(response) => decoded_acknowledgement(value@) == Some(response),
                Err(e) => decoded_acknowledgement(value@) is None && e@ == ErrorView::Decoding(
                    DecodingFailure::Acknowledgement,
                ),
            },
    {
        match value.get("ok") {
            Some(RawValue::Bool(ok)) => Ok(DestroyResponse { ok: *ok }),
            _ => Err(Error::Decoding(DecodingFailure::Acknowledgement)),
        }
    }
}

/// The answer to a write: whether it went through, and the identifier and
/// the new revision of the document written.
#[derive(Debug, PartialEq, Eq)]
pub struct ChangeResponse {
    pub ok: bool,
    pub id: String,
    pub rev: Revision,
}

pub struct ChangeResponseView {
    pub ok: bool,
    pub id: Seq<char>,
    pub rev: Tree,
}

impl View for ChangeResponse {
    type V = ChangeResponseView;

    open spec fn view(&self) -> ChangeResponseView {
        ChangeResponseView { ok: self.ok, id: self.id@, rev: self.rev@ }
    }
}

/// The answer to a write that a payload holds, where it holds one: its `id`
/// is a text and it has a `rev`. It went through where the host counts its
/// `ok` as true.
pub open spec fn decoded_response(value: Tree) -> Option<ChangeResponseView> {
    match value.get("id"@) {
        Tree::Text(id) => if value.get("rev"@) is Undefined {
            None
        } else {
            Some(ChangeResponseView { ok: value.get("ok"@).truthy(), id, rev: value.get("rev"@) })
        },
        _ => None,
    }
}

impl ChangeResponse {
    /// Reads the answer to a write.
    pub fn try_from(value: &RawValue) -> (r: Result<ChangeResponse, Error>)
        ensures
            match r {
                Ok(response) => decoded_response(value@) == Some(response@),
                Err(e) => decoded_response(value@) is None && e@ == ErrorView::Decoding(
                    DecodingFailure::Response,
                ),
            },
    {
        let id = match value.get("id") {
            Some(RawValue::Text(id)) => id.clone(),
            _ => {
                return Err(Error::Decoding(DecodingFailure::Response));
            },
        };
        let ok = match value.get("ok") {
            Some(flag) => flag.is_truthy(),
            None => false,
        };
        match value.get("rev") {
            Some(rev) => if rev.is_undefined() {
                Err(Error::Decoding(DecodingFailure::Response))
            } else {
                Ok(ChangeResponse { ok, id, rev: Revision(rev.clone()) })
            },
            None => Err(Error::Decoding(DecodingFailure::Response)),
        }
    }
}

} // verus!
