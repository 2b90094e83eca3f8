use vstd::prelude::*;

verus! {

/// Why an envelope could not be decoded into an [`crate::events::Event`].
#[derive(Debug, Clone, PartialEq, Eq)]
pub enum Error {
    /// The envelope is not a contract event; holds its event type.
    UnsupportedSuiEvent(String),
    /// The contract event carries no field record.
    EventWithoutFields,
    /// The type tag holds no `::` separator.
    EventTypeSplit,
    /// The last segment of the type tag names no known event.
    UnsupportedEventType(String),
    /// A required field of a creation event is absent.
    MissingField(String),
    /// A field of a creation event is present with another shape.
    WrongFieldType(String),
    /// A field of an attach or detach event is absent or is not a string.
    WrongEventFieldName(String),
}

/// What an [`Error`] holds.
pub enum ErrorV {
    UnsupportedSuiEvent(Seq<char>),
    EventWithoutFields,
    EventTypeSplit,
    UnsupportedEventType(Seq<char>),
    MissingField(Seq<char>),
    WrongFieldType(Seq<char>),
    WrongEventFieldName(Seq<char>),
}

impl View for Error {
    type V = ErrorV;

    open spec fn view(&self) -> ErrorV {
        match self {
            Error::UnsupportedSuiEvent(s) => ErrorV::UnsupportedSuiEvent(s@),
            Error::EventWithoutFields => ErrorV::EventWithoutFields,
            Error::EventTypeSplit => ErrorV::EventTypeSplit,
            Error::UnsupportedEventType(s) => ErrorV::UnsupportedEventType(s@),
            Error::MissingField(s) => ErrorV::MissingField(s@),
            Error::WrongFieldType(s) => ErrorV::WrongFieldType(s@),
            Error::WrongEventFieldName(s) => ErrorV::WrongEventFieldName(s@),
        }
    }
}

} // verus!
