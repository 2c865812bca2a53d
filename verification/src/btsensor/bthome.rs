//! The BTHome format, v1 and v2.

pub mod events;
pub mod v1;
pub mod v2;

use self::v1::DataType;
use vstd::prelude::*;

verus! {

/// An error encountered while decoding BTHome sensor data.
#[derive(Clone, Debug, Eq, PartialEq)]
pub enum DecodeError {
    /// Invalid data type.
    InvalidDataType(u8),
    /// Invalid property.
    InvalidProperty(u8),
    /// Premature end of data.
    PrematureEnd,
    /// Extra data.
    ExtraData(Vec<u8>),
    /// Unsupported format.
    UnsupportedFormat(DataType),
    /// Invalid event type.
    InvalidEventType(u8),
    /// Unsupported BTHome version.
    UnsupportedVersion(u8),
    /// Invalid boolean value.
    InvalidBooleanValue(u8),
}

/// A `DecodeError` with its bytes taken as a sequence.
pub enum DecodeErrorView {
    InvalidDataType(u8),
    InvalidProperty(u8),
    PrematureEnd,
    ExtraData(Seq<u8>),
    UnsupportedFormat(DataType),
    InvalidEventType(u8),
    UnsupportedVersion(u8),
    InvalidBooleanValue(u8),
}

impl View for DecodeError {
    type V = DecodeErrorView;

    open spec fn view(&self) -> DecodeErrorView {
        match self {
            DecodeError::InvalidDataType(v) => DecodeErrorView::InvalidDataType(*v),
            DecodeError::InvalidProperty(v) => DecodeErrorView::InvalidProperty(*v),
            DecodeError::PrematureEnd => DecodeErrorView::PrematureEnd,
            DecodeError::ExtraData(d) => DecodeErrorView::ExtraData(d@),
            DecodeError::UnsupportedFormat(f) => DecodeErrorView::UnsupportedFormat(*f),
            DecodeError::InvalidEventType(v) => DecodeErrorView::InvalidEventType(*v),
            DecodeError::UnsupportedVersion(v) => DecodeErrorView::UnsupportedVersion(*v),
            DecodeError::InvalidBooleanValue(v) => DecodeErrorView::InvalidBooleanValue(*v),
        }
    }
}

/// A decoding result with its error taken by its view.
pub open spec fn result_view<T>(r: Result<T, DecodeError>) -> Result<T, DecodeErrorView> {
    match r {
        Ok(v) => Ok(v),
        Err(e) => Err(e@),
    }
}

} // verus!
