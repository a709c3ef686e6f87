use vstd::prelude::*;
use vstd::string::*;

use crate::text::{decimal_string, quoted_string};

verus! {

/// How to identify seats. The protocol guarantees that seats have unique string identifiers.
pub type SeatIdentifier = String;

/// Enum for which Seat a command should apply to
#[derive(Debug, Eq, PartialEq)]
pub enum SeatSpecification {
    /// The command applies to the first seat encountered
    Unspecified,
    /// The command applies to the seat with this name
    Specified(SeatIdentifier),
}

impl Clone for SeatSpecification {
    fn clone(&self) -> (r: SeatSpecification)
        ensures
            match *self {
                SeatSpecification::Unspecified => r is Unspecified,
                SeatSpecification::Specified(name) => r matches SeatSpecification::Specified(n)
                    && n@ == name@,
            },
    {
        match self {
            SeatSpecification::Unspecified => SeatSpecification::Unspecified,
            SeatSpecification::Specified(name) => SeatSpecification::Specified(name.clone()),
        }
    }
}

impl Default for SeatSpecification {
    fn default() -> (r: SeatSpecification)
        ensures
            r is Unspecified,
    {
        SeatSpecification::Unspecified
    }
}

impl SeatSpecification {
    /// How the specification is written in error messages.
    pub open spec fn debug_text(self) -> Seq<char> {
        match self {
            SeatSpecification::Unspecified => "Unspecified"@,
            SeatSpecification::Specified(name) => "Specified("@ + crate::text::quoted(name@)
                + ")"@,
        }
    }

    /// The specification the way it is written in error messages
    pub fn debug_string(&self) -> (r: String)
        ensures
            r@ == self.debug_text(),
    {
        match self {
            SeatSpecification::Unspecified => "Unspecified".to_owned(),
            SeatSpecification::Specified(name) => {
                let mut r = "Specified(".to_owned();
                let quoted_name = quoted_string(name);
                r.append(quoted_name.as_str());
                r.append(")");
                r
            },
        }
    }
}

/// By which number a device is known
pub type DeviceId = u64;

/// By which number an offer is known
pub type OfferId = u64;

/// By which number a source is known
pub type SourceId = u64;

/// An object of the compositor that is no longer needed and has to be destroyed
#[derive(Debug, Clone, Copy, PartialEq, Eq, Structural)]
pub enum Stale {
    Device(DeviceId),
    Offer(OfferId),
    Source(SourceId),
}

/// Enum representing the current state of a seat's clipboard
#[derive(Debug, Clone, Copy, PartialEq, Eq, Structural)]
pub enum ClipboardState {
    /// We have not yet received data about this seat's clipboard from the compositor
    Uninitialized,
    /// This seat doesn't have anything copied
    Unavailable,
    /// Another client owns the clipboard
    Offer(OfferId),
    /// We own the clipboard
    Source(SourceId),
}

impl Default for ClipboardState {
    fn default() -> (r: ClipboardState)
        ensures
            r == ClipboardState::Uninitialized,
    {
        ClipboardState::Uninitialized
    }
}

impl ClipboardState {
    /// The object that has to be destroyed when the state is left.
    pub open spec fn stale(self) -> Option<Stale> {
        match self {
            ClipboardState::Offer(offer) => Some(Stale::Offer(offer)),
            ClipboardState::Source(source) => Some(Stale::Source(source)),
            ClipboardState::Uninitialized | ClipboardState::Unavailable => None,
        }
    }

    /// The offer of another client, if there is one.
    pub open spec fn offered(self) -> Option<OfferId> {
        match self {
            ClipboardState::Offer(offer) => Some(offer),
            _ => None,
        }
    }

    /// The state in which a selection leaves a seat: another client's offer, or nothing.
    pub open spec fn selected(offer: Option<OfferId>) -> ClipboardState {
        match offer {
            Some(id) => ClipboardState::Offer(id),
            None => ClipboardState::Unavailable,
        }
    }
}

/// What a [`SeatData`] holds.
#[verifier::ext_equal]
pub struct SeatView {
    pub name: Option<Seq<char>>,
    pub numeric_name: u32,
    pub device: Option<DeviceId>,
    pub clipboard_state: ClipboardState,
}

impl SeatView {
    /// A seat of which nothing but its numeric name is known.
    pub open spec fn fresh(numeric_name: u32) -> SeatView {
        SeatView {
            name: None,
            numeric_name,
            device: None,
            clipboard_state: ClipboardState::Uninitialized,
        }
    }

    /// How the seat is called in messages.
    pub open spec fn display_text(self) -> Seq<char> {
        match self.name {
            Some(name) => name,
            None => "[unnamed]"@,
        }
    }

    /// How the seat is called in messages that also give its number.
    pub open spec fn debug_text(self) -> Seq<char> {
        self.display_text() + " (#"@ + crate::text::decimal(self.numeric_name as nat) + ")"@
    }
}

/// Struct containing data relating to a seat, for internal use by the
/// [`Clipboard`](crate::clipboard::Clipboard)
pub struct SeatData {
    /// The name of this seat, if any.
    pub name: Option<SeatIdentifier>,
    /// The numeric name assigned to this seat as a global
    pub numeric_name: u32,
    /// The data device of this seat, if any.
    pub device: Option<DeviceId>,
    /// Current state of this seat's clipboard. Do we or another client own it?
    pub clipboard_state: ClipboardState,
}

impl View for SeatData {
    type V = SeatView;

    open spec fn view(&self) -> SeatView {
        SeatView {
            name: match self.name {
                Some(name) => Some(name@),
                None => None,
            },
            numeric_name: self.numeric_name,
            device: self.device,
            clipboard_state: self.clipboard_state,
        }
    }
}

impl SeatData {
    /// A seat of which nothing but its numeric name is known
    pub fn new(numeric_name: u32) -> (r: SeatData)
        ensures
            r@ == SeatView::fresh(numeric_name),
    {
        SeatData {
            name: None,
            numeric_name,
            device: None,
            clipboard_state: ClipboardState::default(),
        }
    }

    /// Sets this seat's name.
    pub fn set_name(&mut self, name: SeatIdentifier)
        ensures
            final(self)@ == (SeatView { name: Some(name@), ..old(self)@ }),
    {
        self.name = Some(name);
    }

    /// Sets this seat's device.
    ///
    /// # Returns
    ///
    /// The old one, if any, which has to be destroyed.
    pub fn set_device(&mut self, device: Option<DeviceId>) -> (r: Option<Stale>)
        ensures
            final(self)@ == (SeatView { device, ..old(self)@ }),
            r == (match old(self)@.device {
                Some(id) => Some(Stale::Device(id)),
                None => None,
            }),
    {
        let old_device = self.device;
        self.device = device;
        match old_device {
            Some(id) => Some(Stale::Device(id)),
            None => None,
        }
    }

    /// Sets the state of this seat's clipboard.
    ///
    /// # Returns
    ///
    /// The offer or source of the old state, if any, which has to be destroyed.
    pub fn set_clipboard_state(&mut self, new_state: ClipboardState) -> (r: Option<Stale>)
        ensures
            final(self)@ == (SeatView { clipboard_state: new_state, ..old(self)@ }),
            r == old(self)@.clipboard_state.stale(),
    {
        let r = match self.clipboard_state {
            ClipboardState::Offer(offer) => Some(Stale::Offer(offer)),
            ClipboardState::Source(source) => Some(Stale::Source(source)),
            ClipboardState::Uninitialized | ClipboardState::Unavailable => None,
        };
        self.clipboard_state = new_state;
        r
    }

    /// Sets this seat's data offer, if another client has copied something.
    ///
    /// # Returns
    ///
    /// The offer or source of the old state, if any, which has to be destroyed.
    pub fn set_offer(&mut self, offer: Option<OfferId>) -> (r: Option<Stale>)
        ensures
            final(self)@ == (SeatView {
                clipboard_state: ClipboardState::selected(offer),
                ..old(self)@
            }),
            r == old(self)@.clipboard_state.stale(),
    {
        match offer {
            Some(id) => self.set_clipboard_state(ClipboardState::Offer(id)),
            None => self.set_clipboard_state(ClipboardState::Unavailable),
        }
    }

    /// This seat's data offer, if another client has copied something.
    pub fn offer(&self) -> (r: Option<OfferId>)
        ensures
            r == self@.clipboard_state.offered(),
    {
        match self.clipboard_state {
            ClipboardState::Offer(offer) => Some(offer),
            _ => None,
        }
    }

    /// How the seat is called in messages
    pub fn to_string(&self) -> (r: String)
        ensures
            r@ == self@.display_text(),
    {
        match &self.name {
            Some(name) => name.clone(),
            None => "[unnamed]".to_owned(),
        }
    }

    /// How the seat is called in messages that also give its number
    pub fn debug_string(&self) -> (r: String)
        ensures
            r@ == self@.debug_text(),
    {
        let mut r = self.to_string();
        r.append(" (#");
        let number = decimal_string(self.numeric_name);
        r.append(number.as_str());
        r.append(")");
        r
    }
}

} // verus!
