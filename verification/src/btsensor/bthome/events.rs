//! BTHome events, shared between v1 and v2.

use super::v1::Property;
use super::{DecodeError, DecodeErrorView};
use crate::text::push_u64;
use vstd::prelude::*;
use vstd::string::StringExecFns;

verus! {

/// The particular type of a button event, indicating how the button was pressed.
#[derive(Copy, Clone, Debug, Eq, PartialEq, Structural)]
pub enum ButtonEventType {
    Press,
    DoublePress,
    TriplePress,
    LongPress,
    LongDoublePress,
    LongTriplePress,
}

/// The button event type with the given code, if there is one.
pub open spec fn button_event_of(code: u8) -> Option<ButtonEventType> {
    if code == 0x01 {
        Some(ButtonEventType::Press)
    } else if code == 0x02 {
        Some(ButtonEventType::DoublePress)
    } else if code == 0x03 {
        Some(ButtonEventType::TriplePress)
    } else if code == 0x04 {
        Some(ButtonEventType::LongPress)
    } else if code == 0x05 {
        Some(ButtonEventType::LongDoublePress)
    } else if code == 0x06 {
        Some(ButtonEventType::LongTriplePress)
    } else {
        None
    }
}

/// What decoding the value bytes of a button event gives.
pub open spec fn button_from_bytes_spec(b: Seq<u8>) -> Result<Option<ButtonEventType>, DecodeErrorView> {
    if b.len() == 0 {
        Err(DecodeErrorView::PrematureEnd)
    } else if b.len() > 1 {
        Err(DecodeErrorView::ExtraData(b))
    } else if b[0] == 0 {
        Ok(None)
    } else {
        match button_event_of(b[0]) {
            Some(t) => Ok(Some(t)),
            None => Err(DecodeErrorView::InvalidEventType(b[0])),
        }
    }
}

/// What decoding the value bytes of a dimmer event gives.
pub open spec fn dimmer_from_bytes_spec(b: Seq<u8>) -> Result<Option<DimmerEventType>, DecodeErrorView> {
    if b.len() == 0 {
        Err(DecodeErrorView::PrematureEnd)
    } else if b.len() == 1 {
        if b[0] == 0 {
            Ok(None)
        } else {
            Err(DecodeErrorView::InvalidEventType(b[0]))
        }
    } else if b.len() == 2 && b[0] == 1 {
        Ok(Some(DimmerEventType::RotateLeft(b[1])))
    } else if b.len() == 2 && b[0] == 2 {
        Ok(Some(DimmerEventType::RotateRight(b[1])))
    } else {
        Err(DecodeErrorView::ExtraData(b))
    }
}

impl ButtonEventType {
    /// The code of the event type in the BTHome format.
    pub open spec fn spec_code(self) -> u8 {
        match self {
            ButtonEventType::Press => 0x01,
            ButtonEventType::DoublePress => 0x02,
            ButtonEventType::TriplePress => 0x03,
            ButtonEventType::LongPress => 0x04,
            ButtonEventType::LongDoublePress => 0x05,
            ButtonEventType::LongTriplePress => 0x06,
        }
    }

    /// The code of the event type in the BTHome format.
    pub fn code(self) -> (c: u8)
        ensures
            c == self.spec_code(),
            button_event_of(c) == Some(self),
    {
        match self {
            ButtonEventType::Press => 0x01,
            ButtonEventType::DoublePress => 0x02,
            ButtonEventType::TriplePress => 0x03,
            ButtonEventType::LongPress => 0x04,
            ButtonEventType::LongDoublePress => 0x05,
            ButtonEventType::LongTriplePress => 0x06,
        }
    }

    /// Decodes the value bytes of a button event: `None` for code 0, which means no press.
    pub fn from_bytes(bytes: &[u8]) -> (r: Result<Option<ButtonEventType>, DecodeError>)
        ensures
            super::result_view(r) == button_from_bytes_spec(bytes@),
    {
        if bytes.len() == 0 {
            Err(DecodeError::PrematureEnd)
        } else if bytes.len() > 1 {
            Err(DecodeError::ExtraData(vstd::slice::slice_to_vec(bytes)))
        } else {
            let v = bytes[0];
            if v == 0x00 {
                Ok(None)
            } else if v == 0x01 {
                Ok(Some(ButtonEventType::Press))
            } else if v == 0x02 {
                Ok(Some(ButtonEventType::DoublePress))
            } else if v == 0x03 {
                Ok(Some(ButtonEventType::TriplePress))
            } else if v == 0x04 {
                Ok(Some(ButtonEventType::LongPress))
            } else if v == 0x05 {
                Ok(Some(ButtonEventType::LongDoublePress))
            } else if v == 0x06 {
                Ok(Some(ButtonEventType::LongTriplePress))
            } else {
                Err(DecodeError::InvalidEventType(v))
            }
        }
    }

    /// A string describing how the button was pressed.
    pub fn as_str(&self) -> (s: &'static str)
        ensures
            s@ == self.spec_as_str(),
    {
        match self {
            ButtonEventType::Press => "press",
            ButtonEventType::DoublePress => "double press",
            ButtonEventType::TriplePress => "triple press",
            ButtonEventType::LongPress => "long press",
            ButtonEventType::LongDoublePress => "long double press",
            ButtonEventType::LongTriplePress => "long triple press",
        }
    }

    pub open spec fn spec_as_str(self) -> Seq<char> {
        match self {
            ButtonEventType::Press => "press"@,
            ButtonEventType::DoublePress => "double press"@,
            ButtonEventType::TriplePress => "triple press"@,
            ButtonEventType::LongPress => "long press"@,
            ButtonEventType::LongDoublePress => "long double press"@,
            ButtonEventType::LongTriplePress => "long triple press"@,
        }
    }
}

/// Details of a dimmer event: which direction it was rotated and by how many steps.
#[derive(Copy, Clone, Debug, Eq, PartialEq, Structural)]
pub enum DimmerEventType {
    RotateLeft(u8),
    RotateRight(u8),
}

impl DimmerEventType {
    /// Decodes the value bytes of a dimmer event: `None` for a single 0 byte, which means no
    /// rotation.
    pub fn from_bytes(bytes: &[u8]) -> (r: Result<Option<DimmerEventType>, DecodeError>)
        ensures
            super::result_view(r) == dimmer_from_bytes_spec(bytes@),
    {
        let n = bytes.len();
        if n == 0 {
            Err(DecodeError::PrematureEnd)
        } else if n == 1 {
            if bytes[0] == 0x00 {
                Ok(None)
            } else {
                Err(DecodeError::InvalidEventType(bytes[0]))
            }
        } else if n == 2 && bytes[0] == 0x01 {
            Ok(Some(DimmerEventType::RotateLeft(bytes[1])))
        } else if n == 2 && bytes[0] == 0x02 {
            Ok(Some(DimmerEventType::RotateRight(bytes[1])))
        } else {
            Err(DecodeError::ExtraData(vstd::slice::slice_to_vec(bytes)))
        }
    }

    pub open spec fn spec_to_string(self) -> Seq<char> {
        match self {
            DimmerEventType::RotateLeft(n) => "rotate left "@ + crate::text::dec_digits(n as nat) + " steps"@,
            DimmerEventType::RotateRight(n) => "rotate right "@ + crate::text::dec_digits(n as nat) + " steps"@,
        }
    }

    /// Appends the description of the event, e.g. "rotate left 3 steps".
    pub fn push_str(&self, s: &mut String)
        ensures
            final(s)@ == old(s)@ + self.spec_to_string(),
    {
        match self {
            DimmerEventType::RotateLeft(n) => {
                s.append("rotate left ");
                push_u64(s, *n as u64);
                s.append(" steps");
            },
            DimmerEventType::RotateRight(n) => {
                s.append("rotate right ");
                push_u64(s, *n as u64);
                s.append(" steps");
            },
        }
    }

    /// The description of the event, e.g. "rotate left 3 steps".
    pub fn to_string(&self) -> (s: String)
        ensures
            s@ == self.spec_to_string(),
    {
        let mut s = String::new();
        self.push_str(&mut s);
        s
    }
}

/// A BTHome event.
#[derive(Clone, Copy, Debug, Eq, PartialEq, Structural)]
pub enum Event {
    Button(Option<ButtonEventType>),
    Dimmer(Option<DimmerEventType>),
}

impl Event {
    /// The BTHome v1 property for the event.
    pub fn property(&self) -> (p: Property)
        ensures
            p == (match self {
                Event::Button(_) => Property::ButtonEvent,
                Event::Dimmer(_) => Property::DimmerEvent,
            }),
    {
        match self {
            Event::Button(_) => Property::ButtonEvent,
            Event::Dimmer(_) => Property::DimmerEvent,
        }
    }

    pub open spec fn spec_to_string(self) -> Seq<char> {
        match self {
            Event::Button(None) => "button: none"@,
            Event::Button(Some(t)) => "button: "@ + t.spec_as_str(),
            Event::Dimmer(None) => "dimmer: none"@,
            Event::Dimmer(Some(t)) => "dimmer: "@ + t.spec_to_string(),
        }
    }

    /// Appends the description of the event, e.g. "button: long double press".
    pub fn push_str(&self, s: &mut String)
        ensures
            final(s)@ == old(s)@ + self.spec_to_string(),
    {
        match self {
            Event::Button(None) => s.append("button: none"),
            Event::Button(Some(t)) => {
                s.append("button: ");
                s.append(t.as_str());
            },
            Event::Dimmer(None) => s.append("dimmer: none"),
            Event::Dimmer(Some(t)) => {
                s.append("dimmer: ");
                t.push_str(s);
            },
        }
    }

    /// The description of the event, e.g. "button: long double press".
    pub fn to_string(&self) -> (s: String)
        ensures
            s@ == self.spec_to_string(),
    {
        let mut s = String::new();
        self.push_str(&mut s);
        s
    }
}

} // verus!
