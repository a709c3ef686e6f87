use vstd::prelude::*;

use crate::seat::{
    ClipboardState, DeviceId, OfferId, SeatData, SeatIdentifier, SeatSpecification, SeatView, Stale,
};
use crate::text::{decimal, quoted};

verus! {

/// A specification is copied as it is, and specifies no seat by default.
pub proof fn law_specifications(
    spec: &SeatSpecification,
    cloned: SeatSpecification,
    default: SeatSpecification,
    text: String,
)
    requires
        call_ensures(<SeatSpecification as Clone>::clone, (spec,), cloned),
        call_ensures(<SeatSpecification as Default>::default, (), default),
        call_ensures(SeatSpecification::debug_string, (spec,), text),
    ensures
        spec is Unspecified <==> cloned is Unspecified,
        spec matches SeatSpecification::Specified(n) ==> (
        cloned matches SeatSpecification::Specified(m) && m@ == n@),
        default is Unspecified,
        spec is Unspecified ==> text@ == "Unspecified"@,
        spec matches SeatSpecification::Specified(n) ==> text@ == "Specified("@ + quoted(n@)
            + ")"@,
{
}

/// Of a new seat nothing is known but its numeric name.
pub proof fn law_new_seat(numeric_name: u32, r: SeatData, state: ClipboardState)
    requires
        call_ensures(SeatData::new, (numeric_name,), r),
        call_ensures(<ClipboardState as Default>::default, (), state),
    ensures
        r.name is None,
        r.numeric_name == numeric_name,
        r.device is None,
        r.clipboard_state is Uninitialized,
        state is Uninitialized,
{
}

/// A seat is called by the name that it was given last, and nothing else changes.
pub proof fn law_seat_is_named(seat: &mut SeatData, name: SeatIdentifier)
    requires
        call_ensures(SeatData::set_name, (seat, name), ()),
    ensures
        final(seat).name matches Some(n) && n@ == name@,
        final(seat).numeric_name == old(seat).numeric_name,
        final(seat).device == old(seat).device,
        final(seat).clipboard_state == old(seat).clipboard_state,
{
}

/// The name of a seat, as it stands in its view.
pub proof fn law_seat_is_viewed(seat: SeatData)
    ensures
        seat.name matches Some(n) ==> seat@.name == Some(n@),
        seat.name is None ==> seat@.name is None,
        seat@.numeric_name == seat.numeric_name,
        seat@.device == seat.device,
        seat@.clipboard_state == seat.clipboard_state,
{
}

/// A seat has the device that it was given last. The one before has to be destroyed. Nothing else
/// changes.
pub proof fn law_device_is_replaced(
    seat: &mut SeatData,
    device: Option<DeviceId>,
    r: Option<Stale>,
)
    requires
        call_ensures(SeatData::set_device, (seat, device), r),
    ensures
        final(seat).device == device,
        final(seat)@.name == old(seat)@.name,
        final(seat).numeric_name == old(seat).numeric_name,
        final(seat).clipboard_state == old(seat).clipboard_state,
        old(seat).device matches Some(d) ==> r == Some(Stale::Device(d)),
        old(seat).device is None ==> r is None,
{
}

/// A clipboard is in the state that it was put in last. The offer or source of the state before has
/// to be destroyed. Nothing else changes.
pub proof fn law_state_is_replaced(seat: &mut SeatData, state: ClipboardState, r: Option<Stale>)
    requires
        call_ensures(SeatData::set_clipboard_state, (seat, state), r),
    ensures
        final(seat).clipboard_state == state,
        final(seat)@.name == old(seat)@.name,
        final(seat).numeric_name == old(seat).numeric_name,
        final(seat).device == old(seat).device,
        r == old(seat).clipboard_state.stale(),
{
}

/// A seat has the offer that it was given last. The offer or source of the state before has to be
/// destroyed. Nothing else changes.
pub proof fn law_offer_is_replaced(
    seat: &mut SeatData,
    offer: Option<OfferId>,
    r: Option<Stale>,
    now: Option<OfferId>,
)
    requires
        call_ensures(SeatData::set_offer, (seat, offer), r),
        call_ensures(SeatData::offer, (&*final(seat),), now),
    ensures
        now == offer,
        offer matches Some(id) ==> final(seat).clipboard_state == ClipboardState::Offer(id),
        offer is None ==> final(seat).clipboard_state is Unavailable,
        final(seat)@.name == old(seat)@.name,
        final(seat).numeric_name == old(seat).numeric_name,
        final(seat).device == old(seat).device,
        r == old(seat).clipboard_state.stale(),
{
}

/// A seat has an offer if and only if another client owns its clipboard.
pub proof fn law_offer_is_that_of_another_client(seat: &SeatData, r: Option<OfferId>)
    requires
        call_ensures(SeatData::offer, (seat,), r),
    ensures
        seat.clipboard_state matches ClipboardState::Offer(id) ==> r == Some(id),
        !(seat.clipboard_state is Offer) ==> r is None,
{
}

/// What is read off a state: the offer of another client, and what has to be destroyed when the
/// state is left. A selection leads to the state with that offer, or to none.
pub proof fn law_states_are_read(state: ClipboardState, offer: OfferId)
    ensures
        state matches ClipboardState::Offer(id) ==> state.offered() == Some(id),
        !(state is Offer) ==> state.offered() is None,
        state matches ClipboardState::Offer(id) ==> state.stale() == Some(Stale::Offer(id)),
        state matches ClipboardState::Source(id) ==> state.stale() == Some(Stale::Source(id)),
        !(state is Offer) && !(state is Source) ==> state.stale() is None,
        ClipboardState::selected(Some(offer)) == ClipboardState::Offer(offer),
        ClipboardState::selected(None) == ClipboardState::Unavailable,
{
}

/// A seat is called by its name in messages, and by a placeholder if it has none. Its number may
/// follow.
pub proof fn law_seats_in_messages(seat: &SeatData, r: String, s: String)
    requires
        call_ensures(SeatData::to_string, (seat,), r),
        call_ensures(SeatData::debug_string, (seat,), s),
    ensures
        seat.name matches Some(n) ==> r@ == n@,
        seat.name is None ==> r@ == "[unnamed]"@,
        s@ == r@ + " (#"@ + decimal(seat.numeric_name as nat) + ")"@,
{
}

/// Of a fresh seat nothing is known but its numeric name.
pub proof fn law_fresh_seat(numeric_name: u32)
    ensures
        SeatView::fresh(numeric_name) == (SeatView {
            name: None,
            numeric_name,
            device: None,
            clipboard_state: ClipboardState::Uninitialized,
        }),
{
}

} // verus!
