//! What can go wrong between the application and the host.

use crate::value::{RawValue, Tree};
use vstd::prelude::*;

verus! {

/// The part of a host payload that did not have the expected shape.
#[derive(Clone, Copy, Debug, PartialEq, Eq, Structural)]
pub enum DecodingFailure {
    /// A document without a textual `_id`.
    DocumentId,
    /// A change record without a textual `id`, an array of `changes` or a
    /// `seq`.
    ChangeEvent,
    /// A batch of changes without its array of `results`.
    Results,
    /// A batch of changes without its `last_seq`.
    LastSeq,
    /// A listing that is no object.
    Rows,
    /// A write response without its `id` or `rev`.
    Response,
    /// A response to dropping a database without its `ok` flag.
    Acknowledgement,
    /// Attachment reads that do not match the attachments they were issued
    /// for, one for one.
    Reads,
}

/// Why a document could not be brought into its write shape.
#[derive(Debug)]
pub enum EncodingFailure {
    /// The document's own serializer failed, with this value.
    Serializer(RawValue),
    /// The document's body is no keyed object.
    Body,
}

pub enum EncodingFailureView {
    Serializer(Tree),
    Body,
}

impl View for EncodingFailure {
    type V = EncodingFailureView;

    open spec fn view(&self) -> EncodingFailureView {
        match self {
            EncodingFailure::Serializer(raised) => EncodingFailureView::Serializer(raised@),
            EncodingFailure::Body => EncodingFailureView::Body,
        }
    }
}

pub enum ErrorView {
    Js(Tree),
    Decoding(DecodingFailure),
    Encoding(EncodingFailureView),
}

#[derive(Debug)]
pub enum Error {
    /// The host failed an operation; the value is what it raised.
    Js(RawValue),
    /// A payload of the host did not have the expected shape.
    Decoding(DecodingFailure),
    /// A document could not be encoded for writing.
    Encoding(EncodingFailure),
}

impl View for Error {
    type V = ErrorView;

    open spec fn view(&self) -> ErrorView {
        match self {
            Error::Js(raised) => ErrorView::Js(raised@),
            Error::Decoding(failure) => ErrorView::Decoding(*failure),
            Error::Encoding(failure) => ErrorView::Encoding(failure@),
        }
    }
}

impl From<RawValue> for Error {
    fn from(v: RawValue) -> (r: Error) {
        Error::Js(v)
    }
}

impl vstd::std_specs::convert::FromSpecImpl<RawValue> for Error {
    open spec fn obeys_from_spec() -> bool {
        true
    }

    open spec fn from_spec(v: RawValue) -> Error {
        Error::Js(v)
    }
}

} // verus!
