use vstd::prelude::*;
use vstd::std_specs::iter::IteratorSpec;

use crate::address::{view_option, AddressView};
use crate::behaviour::register::law_dictionary_is_read_by_its_map;
use crate::error::Error;
use crate::laws::law_put_then_get;
use crate::pincer::{
    missing_mime_text, shift_backward, shift_forward, view_listing, Pincer, PincerView,
    SeatPincerMap,
};
use crate::register::{
    stored, summary, total, Contents, DataBuffer, MimeType, NumericT, Register, RegisterAddress,
    RegisterSummary,
};
use crate::seat::SeatIdentifier;

verus! {

/// The address that is meant: `"0` where none is given.
pub open spec fn meant(addr: Option<RegisterAddress>) -> AddressView {
    match addr {
        Some(a) => a@,
        None => AddressView::Numeric(0),
    }
}

/// There are ten numeric and twenty-six named registers. Each address reads its own register.
/// Where no address is given, or the register pointer is not set, `"0` is meant.
pub proof fn law_addresses_read_registers(p: PincerView, n: int, addr: AddressView)
    ensures
        p.register(AddressView::Numeric(n)) == p.numeric[n],
        p.register(AddressView::Named(n)) == p.named[n],
        AddressView::Numeric(n).valid() <==> 0 <= n < 10,
        AddressView::Named(n).valid() <==> 0 <= n < 26,
        p.wf() <==> p.numeric.len() == 10 && p.named.len() == 26 && (p.active matches Some(a)
            ==> a.valid()),
        AddressView::or_default(Some(addr)) == addr,
        AddressView::or_default(None) == AddressView::Numeric(0),
        p.active == Some(addr) ==> p.selected() == addr,
        p.active is None ==> p.selected() == AddressView::Numeric(0),
{
}

/// What a yank does to every register: the register yanked into holds what was yanked. If it is a
/// named one, every other register stays as it is. If it is a numeric one, every other numeric
/// register holds what was one place below it, `"0` what was in `"9`. The pointer stays.
pub proof fn law_yank_in_every_register(p: PincerView, addr: AddressView, contents: Contents, n: int)
    requires
        p.wf(),
        addr.valid(),
    ensures
        p.yanked(addr, contents).wf(),
        p.yanked(addr, contents).active == p.active,
        0 <= n < 10 ==> p.yanked(addr, contents).numeric[n] == (if addr == AddressView::Numeric(n) {
            contents
        } else if addr is Named {
            p.numeric[n]
        } else if n == 0 {
            p.numeric[9]
        } else {
            p.numeric[n - 1]
        }),
        0 <= n < 26 ==> p.yanked(addr, contents).named[n] == (if addr == AddressView::Named(n) {
            contents
        } else {
            p.named[n]
        }),
{
}

/// What a copy does to every register: `"0` and the register that the pointer is set to hold what
/// was copied, the other numeric registers hold what was one place below them, and the other named
/// registers stay as they are. So does the pointer.
pub proof fn law_copy_in_every_register(p: PincerView, contents: Contents, n: int)
    requires
        p.wf(),
    ensures
        p.clipped(contents).wf(),
        p.clipped(contents).active == p.active,
        p.clipped(contents).numeric[0] == contents,
        0 < n < 10 ==> p.clipped(contents).numeric[n] == (if p.active == Some(
            AddressView::Numeric(n),
        ) {
            contents
        } else {
            p.numeric[n - 1]
        }),
        0 <= n < 26 ==> p.clipped(contents).named[n] == (if p.active == Some(
            AddressView::Named(n),
        ) {
            contents
        } else {
            p.named[n]
        }),
{
}

/// A new Pincer has an empty register for every address, and no register pointer.
pub proof fn law_new_pincer_is_empty(p: Pincer, default: Pincer, n: int)
    requires
        call_ensures(Pincer::new, (), p),
        call_ensures(<Pincer as Default>::default, (), default),
    ensures
        p@.wf() && p@.active is None,
        0 <= n < 10 ==> p@.numeric[n] == Contents::empty(),
        0 <= n < 26 ==> p@.named[n] == Contents::empty(),
        default@ == p@,
{
}

/// The register pointer is what it was last set to. Setting it changes no register.
pub proof fn law_pointer_is_what_it_was_set_to(
    addr: RegisterAddress,
    set: &mut Pincer,
    unset: &mut Pincer,
    got: Option<RegisterAddress>,
    active: RegisterAddress,
    none: Option<RegisterAddress>,
    first: RegisterAddress,
)
    requires
        call_ensures(Pincer::set, (set, addr), ()),
        call_ensures(Pincer::get, (&*final(set),), got),
        call_ensures(Pincer::get_active, (&*final(set),), active),
        call_ensures(Pincer::unset, (unset,), ()),
        call_ensures(Pincer::get, (&*final(unset),), none),
        call_ensures(Pincer::get_active, (&*final(unset),), first),
    ensures
        final(set)@.active == Some(addr@),
        got matches Some(a) && a@ == addr@,
        active@ == addr@,
        final(set)@.numeric == old(set)@.numeric,
        final(set)@.named == old(set)@.named,
        final(unset)@.active is None,
        none is None,
        first@ == AddressView::Numeric(0),
        final(unset)@.numeric == old(unset)@.numeric,
        final(unset)@.named == old(unset)@.named,
{
}

/// The register pointer is told as it is.
pub proof fn law_pointer_is_told(
    p: &Pincer,
    got: Option<RegisterAddress>,
    active: RegisterAddress,
    addr: Option<RegisterAddress>,
    reg: &Register,
)
    requires
        call_ensures(Pincer::get, (p,), got),
        call_ensures(Pincer::get_active, (p,), active),
        call_ensures(Pincer::register, (p, addr), reg),
    ensures
        got is Some <==> p@.active is Some,
        got matches Some(a) ==> p@.active == Some(a@),
        p@.active matches Some(a) ==> active@ == a,
        p@.active is None ==> active@ == AddressView::Numeric(0),
        match meant(addr) {
            AddressView::Numeric(n) => reg@ == p@.numeric[n],
            AddressView::Named(n) => reg@ == p@.named[n],
        },
        p@.wf(),
{
}

/// A paste gives the data that the register holds under the MIME type, byte for byte. It is refused
/// if and only if there is none.
pub proof fn law_paste_gives_what_is_held(
    p: &Pincer,
    addr: Option<RegisterAddress>,
    mime: &MimeType,
    r: Result<&DataBuffer, Error>,
)
    requires
        call_ensures(Pincer::paste_from, (p, addr, mime), r),
    ensures
        ({
            let held = match meant(addr) {
                AddressView::Numeric(n) => p@.numeric[n],
                AddressView::Named(n) => p@.named[n],
            };
            &&& r is Ok <==> held.map.contains_key(mime@)
            &&& r matches Ok(data) ==> data@ == held.map[mime@]
            &&& r matches Err(e) ==> e@ == missing_mime_text(meant(addr), mime@)
        }),
{
}

/// A paste without an address reads the register that the pointer is set to, or `"0`.
pub proof fn law_paste_reads_the_active_register(
    p: &Pincer,
    mime: &MimeType,
    r: Result<&DataBuffer, Error>,
)
    requires
        call_ensures(Pincer::paste, (p, mime), r),
    ensures
        ({
            let addr = match p@.active {
                Some(a) => a,
                None => AddressView::Numeric(0),
            };
            let held = match addr {
                AddressView::Numeric(n) => p@.numeric[n],
                AddressView::Named(n) => p@.named[n],
            };
            &&& r is Ok <==> held.map.contains_key(mime@)
            &&& r matches Ok(data) ==> data@ == held.map[mime@]
            &&& r matches Err(e) ==> e@ == missing_mime_text(addr, mime@)
        }),
{
}

/// How a refused paste is explained.
pub proof fn law_refused_paste_is_explained(n: int, mime: Seq<char>)
    ensures
        0 <= n < 10 ==> missing_mime_text(AddressView::Numeric(n), mime)
            == "Register "@ + ("Numeric(Bounded("@ + seq![('0' as int + n) as char] + "))"@)
            + " does not contain MIME type "@ + mime,
        0 <= n < 26 ==> missing_mime_text(AddressView::Named(n), mime) == "Register "@ + (
        "Named(Bounded("@ + crate::text::decimal(n as nat) + "))"@) + " does not contain MIME type "@
            + mime,
{
}

/// A yank goes into the register with the given address, or into the active one where the call
/// takes none. Of several pastes all are stored. The number of bytes is told.
pub proof fn law_yanks_go_where_they_are_sent<T: Iterator<Item = (MimeType, DataBuffer)>>(
    into: &mut Pincer,
    addr: Option<RegisterAddress>,
    active: &mut Pincer,
    pastes: T,
    r: Result<usize, Error>,
    s: Result<usize, Error>,
)
    requires
        call_ensures(Pincer::yank_into::<T>, (into, addr, pastes), r),
        call_ensures(Pincer::yank::<T>, (active, pastes), s),
    ensures
        final(into)@ == old(into)@.yanked(meant(addr), stored(pastes.remaining())),
        final(active)@ == old(active)@.yanked(
            match old(active)@.active {
                Some(a) => a,
                None => AddressView::Numeric(0),
            },
            stored(pastes.remaining()),
        ),
        r matches Ok(n) && n == total(pastes.remaining()),
        s matches Ok(n) && n == total(pastes.remaining()),
{
}

/// Anything can be yanked or copied whose bytes can be counted.
pub proof fn law_anything_can_be_yanked<T: Iterator<Item = (MimeType, DataBuffer)>>(
    p: &mut Pincer,
    addr: Option<RegisterAddress>,
    pastes: T,
    paste: (MimeType, DataBuffer),
)
    requires
        pastes.obeys_prophetic_iter_laws(),
        pastes.decrease() is Some,
        total(pastes.remaining()) <= usize::MAX,
    ensures
        call_requires(Pincer::yank_into::<T>, (p, addr, pastes)),
        call_requires(Pincer::yank::<T>, (p, pastes)),
        call_requires(Pincer::clip::<T>, (p, pastes)),
        call_requires(Pincer::yank_one_into, (p, addr, paste)),
        call_requires(Pincer::yank_one, (p, paste)),
{
}

/// A copy goes where copies go. Of several pastes all are stored. The number of bytes is told.
pub proof fn law_copies_are_kept<T: Iterator<Item = (MimeType, DataBuffer)>>(
    p: &mut Pincer,
    pastes: T,
    r: Result<usize, Error>,
)
    requires
        call_ensures(Pincer::clip::<T>, (p, pastes), r),
    ensures
        final(p)@ == old(p)@.clipped(stored(pastes.remaining())),
        r matches Ok(n) && n == total(pastes.remaining()),
{
}

/// A yank of data of one MIME type puts that data in the register, and nothing else.
pub proof fn law_yank_of_one_type_goes_where_it_is_sent(
    into: &mut Pincer,
    addr: Option<RegisterAddress>,
    active: &mut Pincer,
    paste: (MimeType, DataBuffer),
    r: Result<usize, Error>,
    s: Result<usize, Error>,
)
    requires
        call_ensures(Pincer::yank_one_into, (into, addr, paste), r),
        call_ensures(Pincer::yank_one, (active, paste), s),
    ensures
        ({
            let one = Contents {
                map: Map::empty().insert(paste.0@, paste.1@),
                keys: seq![paste.0@],
            };
            &&& final(into)@ == old(into)@.yanked(meant(addr), one)
            &&& final(active)@ == old(active)@.yanked(
                match old(active)@.active {
                    Some(a) => a,
                    None => AddressView::Numeric(0),
                },
                one,
            )
        }),
        r matches Ok(n) && n == paste.1@.len(),
        s matches Ok(n) && n == paste.1@.len(),
{
    assert(Contents::empty().put(paste.0@, paste.1@).keys =~= seq![paste.0@]);
}

/// What is yanked into a register is pasted from it, byte for byte.
pub proof fn law_yanked_data_is_pasted(
    p: &mut Pincer,
    addr: Option<RegisterAddress>,
    paste: (MimeType, DataBuffer),
    yanked: Result<usize, Error>,
    r: Result<&DataBuffer, Error>,
)
    requires
        old(p)@.wf(),
        meant(addr).valid(),
        call_ensures(Pincer::yank_one_into, (p, addr, paste), yanked),
        call_ensures(Pincer::paste_from, (&*final(p), addr, &paste.0), r),
    ensures
        r matches Ok(data) && data@ == paste.1@,
{
}

/// Yanking into one named register does not change what is pasted from any other register.
pub proof fn law_named_yank_changes_no_other_paste(
    p: &mut Pincer,
    addr: RegisterAddress,
    paste: (MimeType, DataBuffer),
    yanked: Result<usize, Error>,
    other: Option<RegisterAddress>,
    mime: &MimeType,
    before: Result<&DataBuffer, Error>,
    after: Result<&DataBuffer, Error>,
)
    requires
        old(p)@.wf(),
        addr is Named,
        addr@.valid(),
        meant(other).valid(),
        meant(other) != addr@,
        call_ensures(Pincer::paste_from, (&*old(p), other, mime), before),
        call_ensures(Pincer::yank_one_into, (p, Some(addr), paste), yanked),
        call_ensures(Pincer::paste_from, (&*final(p), other, mime), after),
    ensures
        before is Ok <==> after is Ok,
        before matches Ok(data) ==> data@ == after->Ok_0@,
{
}

/// What a Pincer lists is a summary for every register that holds something.
pub proof fn law_list_is_the_listing(
    p: &Pincer,
    r: Result<Vec<(RegisterAddress, RegisterSummary)>, Error>,
    i: int,
)
    requires
        call_ensures(Pincer::list, (p,), r),
    ensures
        r matches Ok(list) && list@.len() == p@.listing().len() && (0 <= i < list@.len()
            ==> list@[i].0@ == p@.listing()[i].0 && list@[i].1@ == p@.listing()[i].1),
{
    let list = r->Ok_0;
    if 0 <= i < list@.len() {
        assert(view_listing(list@)[i] == (list@[i].0@, list@[i].1@));
    }
}

/// A register is listed if and only if it holds data under some MIME type.
pub proof fn law_listing_has_every_register_in_use(p: PincerView, addr: AddressView)
    requires
        p.wf(),
        addr.valid(),
        p.register(addr).wf(),
    ensures
        p.listing().contains((addr, summary(p.register(addr)))) <==> exists|mime: Seq<char>| #[trigger]
            p.register(addr).map.contains_key(mime),
{
    law_dictionary_is_read_by_its_map(p.register(addr), Seq::<char>::empty());
    crate::laws::law_listing_shows_what_is_held(p, addr, summary(p.register(addr)));
}

/// A list of summaries is read entry by entry.
pub proof fn law_list_is_read(l: Seq<(RegisterAddress, RegisterSummary)>, i: int)
    ensures
        view_listing(l).len() == l.len(),
        0 <= i < l.len() ==> view_listing(l)[i] == (l[i].0@, l[i].1@),
{
}

/// A seat that was given a Pincer has it, and every other seat has what it had before.
pub proof fn law_seats_get_pincers(
    seats: &mut SeatPincerMap,
    seat: SeatIdentifier,
    pincer: Pincer,
    replaced: Option<Pincer>,
    asked: &SeatIdentifier,
    before: Option<&Pincer>,
    after: Option<&Pincer>,
)
    requires
        old(seats)@.wf(),
        call_ensures(SeatPincerMap::get, (&*old(seats), asked), before),
        call_ensures(SeatPincerMap::insert, (seats, seat, pincer), replaced),
        call_ensures(SeatPincerMap::get, (&*final(seats), asked), after),
    ensures
        final(seats)@.wf(),
        asked@ == seat@ ==> {
            &&& after matches Some(p) && p@ == pincer@
            &&& before is Some <==> replaced is Some
            &&& before matches Some(p) ==> p@ == replaced->0@
        },
        asked@ != seat@ ==> {
            &&& before is Some <==> after is Some
            &&& before matches Some(p) ==> p@ == after->0@
        },
        final(seats)@.keys == (if old(seats)@.map.contains_key(seat@) {
            old(seats)@.keys
        } else {
            old(seats)@.keys.push(seat@)
        }),
{
    law_put_then_get(old(seats)@, seat@, pincer@, asked@);
    assert(old(seats)@.keys.contains(seat@) == old(seats)@.map.contains_key(seat@));
}

/// A seat whose Pincer was taken away has none, and every other seat has what it had before.
pub proof fn law_seats_lose_pincers(
    seats: &mut SeatPincerMap,
    seat: &SeatIdentifier,
    taken: Option<Pincer>,
    asked: &SeatIdentifier,
    before: Option<&Pincer>,
    after: Option<&Pincer>,
)
    requires
        old(seats)@.wf(),
        call_ensures(SeatPincerMap::get, (&*old(seats), asked), before),
        call_ensures(SeatPincerMap::remove, (seats, seat), taken),
        call_ensures(SeatPincerMap::get, (&*final(seats), asked), after),
    ensures
        final(seats)@.wf(),
        asked@ == seat@ ==> {
            &&& after is None
            &&& before is Some <==> taken is Some
            &&& before matches Some(p) ==> p@ == taken->0@
        },
        asked@ != seat@ ==> {
            &&& before is Some <==> after is Some
            &&& before matches Some(p) ==> p@ == after->0@
        },
        final(seats)@.keys == old(seats)@.without(seat@).keys,
{
    old(seats)@.lemma_without_wf(seat@);
}

/// At first no seat is managed. The number of managed seats is told, and each is found by name.
pub proof fn law_seats_are_found(
    none: SeatPincerMap,
    default: SeatPincerMap,
    seats: &SeatPincerMap,
    n: usize,
    asked: &SeatIdentifier,
    r: Option<&Pincer>,
)
    requires
        call_ensures(SeatPincerMap::new, (), none),
        call_ensures(<SeatPincerMap as Default>::default, (), default),
        call_ensures(SeatPincerMap::len, (seats,), n),
        call_ensures(SeatPincerMap::get, (seats, asked), r),
    ensures
        none@.keys.len() == 0 && !none@.map.contains_key(asked@),
        default@.keys.len() == 0 && !default@.map.contains_key(asked@),
        n == seats@.keys.len(),
        r is Some <==> seats@.map.contains_key(asked@),
        r matches Some(p) ==> p@ == seats@.map[asked@],
{
}

/// On the circle of numeric registers a step past `"9` leads to `"0`, and a step below `"0` to
/// `"9`.
pub proof fn law_steps_on_the_circle(x: NumericT, y: NumericT, up: NumericT, down: NumericT)
    requires
        0 <= x@ < 10,
        0 <= y@ < 10,
        call_ensures(shift_forward, (x, y), up),
        call_ensures(shift_backward, (x, y), down),
    ensures
        up@ == (if x@ + y@ < 10 {
            x@ + y@
        } else {
            x@ + y@ - 10
        }),
        down@ == (if x@ >= y@ {
            x@ - y@
        } else {
            x@ - y@ + 10
        }),
{
}

/// What an address stands for, where one is given.
pub proof fn law_given_addresses(addr: RegisterAddress)
    ensures
        view_option(Some(addr)) == Some(addr@),
        view_option(None) is None,
        meant(Some(addr)) == addr@,
        meant(None) == AddressView::Numeric(0),
        addr matches RegisterAddress::Numeric(n) ==> addr@ == AddressView::Numeric(n@),
        addr matches RegisterAddress::Named(n) ==> addr@ == AddressView::Named(n@),
{
}

} // verus!
