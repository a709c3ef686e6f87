use vstd::prelude::*;

use crate::address::AddressView;
use crate::assoc::{dict_of, keys_of, lemma_dict_of_entry, Dict};
use crate::clipboard::{
    collect_readable, device_of, grabbed, listen_step, readable, seat_called, seats_of,
    selections_of, some_of, values_of, view_selections, Clipboard, ClipboardView, Global,
    ListenEvent, ListenStep, PipeId, Released, Removal, SeatId, SendError, YankError,
};
use crate::laws::{clipped_all, law_removed_seats_are_forgotten};
use crate::pincer::{missing_mime_text, PincerView, SeatPincerMap};
use crate::register::{bytes_in, Contents, DataBuffer, MimeType, Register};
use crate::seat::{ClipboardState, DeviceId, OfferId, SeatIdentifier, SeatView, Stale};

verus! {

/// A global object is a seat that can be followed if and only if it has the interface `wl_seat` in
/// version 2 or later.
pub proof fn law_seats_among_globals(global: Global)
    ensures
        global.is_seat() <==> global.interface@ == "wl_seat"@ && global.version >= 2,
{
}

/// What is read off a clipboard: the name and the offer of a seat, and the pipes of an offer in the
/// order of its MIME types. Nothing is listed twice in it.
pub proof fn law_clipboards_are_read(clip: ClipboardView, seat: SeatId, offer: OfferId, i: int)
    ensures
        clip.seats.map.contains_key(seat) ==> clip.name_of(seat) == clip.seats.map[seat].name
            && clip.offer_of(seat) == (match clip.seats.map[seat].clipboard_state {
            ClipboardState::Offer(id) => Some(id),
            ClipboardState::Source(_) => None,
            ClipboardState::Unavailable => None,
            ClipboardState::Uninitialized => None,
        }),
        !clip.seats.map.contains_key(seat) ==> clip.name_of(seat) is None && clip.offer_of(
            seat,
        ) is None,
        clip.pipes_of(None).len() == 0,
        !clip.offers.map.contains_key(offer) ==> clip.pipes_of(Some(offer)).len() == 0,
        clip.offers.map.contains_key(offer) ==> {
            let pipes = clip.offers.map[offer];
            &&& clip.pipes_of(Some(offer)).len() == pipes.keys.len()
            &&& 0 <= i < pipes.keys.len() ==> clip.pipes_of(Some(offer))[i]
                == pipes.map[pipes.keys[i]]
        },
        clip.wf() <==> clip.seats.wf() && clip.offers.wf() && (forall|o: OfferId| #[trigger]
            clip.offers.map.contains_key(o) ==> clip.offers.map[o].wf()),
{
}

/// At most one object is to be destroyed: the one that there is. A seat's device is one.
pub proof fn law_stale_objects_are_listed(s: Stale, data: SeatView)
    ensures
        some_of(Some(s)).len() == 1 && some_of(Some(s))[0] == s,
        some_of(None).len() == 0,
        data.device matches Some(id) ==> device_of(data) == Some(Stale::Device(id)),
        data.device is None ==> device_of(data) is None,
{
}

/// After start-up a seat is known if and only if it is one of the compositor's global objects,
/// wherever it stands among them.
pub proof fn law_startup_finds_every_seat(globals: &Vec<Global>, r: Clipboard, seat: SeatId)
    requires
        call_ensures(Clipboard::new, (globals,), r),
    ensures
        r@.seats.map.contains_key(seat) <==> exists|i: int|
            0 <= i < globals@.len() && (#[trigger] globals@[i]).is_seat() && globals@[i].seat
                == seat,
        r@.offers.map =~= Map::<OfferId, Dict<Seq<char>, u64>>::empty(),
        r@.offers.keys.len() == 0,
        r@.seats.wf(),
{
    lemma_seats_of(globals@, seat);
    lemma_seats_of_wf(globals@);
}

/// After start-up nothing is known of a seat but its numeric name. That is the one of the last
/// global object that stands for the seat.
pub proof fn law_startup_knows_numeric_names(globals: &Vec<Global>, r: Clipboard, i: int)
    requires
        call_ensures(Clipboard::new, (globals,), r),
        0 <= i < globals@.len(),
        globals@[i].is_seat(),
        forall|j: int|
            i < j < globals@.len() && (#[trigger] globals@[j]).is_seat() ==> globals@[j].seat
                != globals@[i].seat,
    ensures
        r@.seats.map.contains_key(globals@[i].seat),
        r@.seats.map[globals@[i].seat] == (SeatView {
            name: None,
            numeric_name: globals@[i].name,
            device: None,
            clipboard_state: ClipboardState::Uninitialized,
        }),
{
    lemma_seat_data(globals@, i);
}

proof fn lemma_seats_of(globals: Seq<Global>, seat: SeatId)
    ensures
        seats_of(globals).map.contains_key(seat) <==> exists|i: int|
            0 <= i < globals.len() && (#[trigger] globals[i]).is_seat() && globals[i].seat == seat,
    decreases globals.len(),
{
    if globals.len() > 0 {
        let before = globals.drop_last();
        lemma_seats_of(before, seat);
        if seats_of(before).map.contains_key(seat) {
            let i = choose|i: int|
                0 <= i < before.len() && (#[trigger] before[i]).is_seat() && before[i].seat == seat;
            assert(globals[i] == before[i]);
        }
        if globals.last().is_seat() && globals.last().seat == seat {
            assert(globals[globals.len() - 1].is_seat());
        }
        if exists|i: int|
            0 <= i < globals.len() && (#[trigger] globals[i]).is_seat() && globals[i].seat == seat {
            let i = choose|i: int|
                0 <= i < globals.len() && (#[trigger] globals[i]).is_seat() && globals[i].seat
                    == seat;
            if i < before.len() {
                assert(before[i].is_seat());
            }
        }
    }
}

proof fn lemma_seats_of_wf(globals: Seq<Global>)
    ensures
        seats_of(globals).wf(),
    decreases globals.len(),
{
    if globals.len() > 0 {
        lemma_seats_of_wf(globals.drop_last());
        seats_of(globals.drop_last()).lemma_put_wf(
            globals.last().seat,
            SeatView::fresh(globals.last().name),
        );
    }
}

proof fn lemma_seat_data(globals: Seq<Global>, i: int)
    requires
        0 <= i < globals.len(),
        globals[i].is_seat(),
        forall|j: int|
            i < j < globals.len() && (#[trigger] globals[j]).is_seat() ==> globals[j].seat
                != globals[i].seat,
    ensures
        seats_of(globals).get(globals[i].seat) == Some(
            SeatView {
                name: None,
                numeric_name: globals[i].name,
                device: None,
                clipboard_state: ClipboardState::Uninitialized,
            },
        ),
    decreases globals.len(),
{
    let before = globals.drop_last();
    if i < before.len() {
        assert forall|j: int| i < j < before.len() && (#[trigger] before[j]).is_seat()
            implies before[j].seat
            != before[i].seat by {
            assert(globals[j].is_seat());
        }
        lemma_seat_data(before, i);
        if globals.last().is_seat() {
            assert(globals[globals.len() - 1].is_seat());
        }
    }
}

/// A selection that another client made is kept whole: for every MIME type, `"0` of the seat then
/// holds the data that was read, and so does the register that the seat's pointer is set to. What
/// was copied earlier moves up. No other seat changes.
pub proof fn law_grab_keeps_a_selection_whole(
    clip: &Clipboard,
    pincers: &mut SeatPincerMap,
    copied: Vec<(SeatIdentifier, OfferId, Register)>,
    r: Result<(), YankError>,
    n: int,
    other: Seq<char>,
)
    requires
        call_ensures(Clipboard::grab, (clip, pincers, copied), r),
        copied@.len() == 1,
        clip@.offers.map.contains_key(copied@[0].1),
        old(pincers)@.wf(),
        old(pincers)@.map.contains_key(copied@[0].0@),
        old(pincers)@.map[copied@[0].0@].wf(),
    ensures
        r is Ok,
        final(pincers)@.keys == old(pincers)@.keys,
        other != copied@[0].0@ ==> final(pincers)@.map.contains_key(other)
            == old(pincers)@.map.contains_key(other) && final(pincers)@.map[other]
            == old(pincers)@.map[other],
        final(pincers)@.map.contains_key(copied@[0].0@),
        ({
            let contents = copied@[0].2@;
            let before = old(pincers)@.map[copied@[0].0@];
            let after = final(pincers)@.map[copied@[0].0@];
            &&& after.wf()
            &&& after.active == before.active
            &&& after.numeric[0] == contents
            &&& before.active matches Some(addr) ==> after.register(addr) == contents
            &&& 0 < n < 10 && before.active != Some(AddressView::Numeric(n))
                ==> after.numeric[n] == before.numeric[n - 1]
            &&& 0 <= n < 26 && before.active != Some(AddressView::Named(n))
                ==> after.named[n] == before.named[n]
        }),
{
    let (seat, offer, contents) = copied@[0];
    assert(old(pincers)@.keys.contains(seat@));
    reveal_with_fuel(grabbed, 2);
}

/// What was copied on the seat with a name, in order.
pub open spec fn copied_on(
    copied: Seq<(SeatIdentifier, OfferId, Register)>,
    name: Seq<char>,
) -> Seq<Contents>
    decreases copied.len(),
{
    if copied.len() == 0 {
        Seq::empty()
    } else if copied.last().0@ == name {
        copied_on(copied.drop_last(), name).push(copied.last().2@)
    } else {
        copied_on(copied.drop_last(), name)
    }
}

/// What was copied on a seat is what was selected on it, in order.
pub proof fn law_copies_on_a_seat(
    copied: Seq<(SeatIdentifier, OfferId, Register)>,
    last: (SeatIdentifier, OfferId, Register),
    name: Seq<char>,
)
    ensures
        copied_on(Seq::empty(), name) == Seq::<Contents>::empty(),
        last.0@ == name ==> copied_on(copied.push(last), name) == copied_on(copied, name).push(
            last.2@,
        ),
        last.0@ != name ==> copied_on(copied.push(last), name) == copied_on(copied, name),
{
    assert(copied.push(last).drop_last() =~= copied);
}

/// Several copies are made one after the other.
pub proof fn law_copies_are_made_in_order(p: PincerView, clippings: Seq<Contents>, last: Contents)
    ensures
        clipped_all(p, Seq::empty()) == p,
        clipped_all(p, clippings.push(last)) == clipped_all(p, clippings).clipped(last),
{
    assert(clippings.push(last).drop_last() =~= clippings);
}

/// Selections are kept in order, up to the first one that is of no known offer or on no managed
/// seat. Each managed seat is left as after the copies, in order, of what was selected on it. The
/// error tells why the first selection that is not kept is refused.
pub proof fn law_grab_keeps_selections_in_order(
    clip: &Clipboard,
    pincers: &mut SeatPincerMap,
    copied: Vec<(SeatIdentifier, OfferId, Register)>,
    r: Result<(), YankError>,
    k: int,
    name: Seq<char>,
)
    requires
        call_ensures(Clipboard::grab, (clip, pincers, copied), r),
        old(pincers)@.wf(),
        0 <= k <= copied@.len(),
        forall|j: int|
            0 <= j < k ==> clip@.offers.map.contains_key((#[trigger] copied@[j]).1)
                && old(pincers)@.map.contains_key(copied@[j].0@),
        k < copied@.len() ==> !(clip@.offers.map.contains_key(copied@[k].1)
            && old(pincers)@.map.contains_key(copied@[k].0@)),
    ensures
        final(pincers)@.keys == old(pincers)@.keys,
        final(pincers)@.map.contains_key(name) <==> old(pincers)@.map.contains_key(name),
        old(pincers)@.map.contains_key(name) ==> final(pincers)@.map[name] == clipped_all(
            old(pincers)@.map[name],
            copied_on(copied@.take(k), name),
        ),
        k == copied@.len() ==> r is Ok,
        k < copied@.len() && !clip@.offers.map.contains_key(copied@[k].1) ==> r == Err::<(), _>(
            YankError::UnknownOffer,
        ),
        k < copied@.len() && clip@.offers.map.contains_key(copied@[k].1) ==> r == Err::<(), _>(
            YankError::Unmanaged,
        ),
{
    let start = old(pincers)@;
    assert(copied@.take(0) =~= Seq::empty());
    lemma_grabbed(clip@, start, start, copied@, 0, k, name);
}

proof fn lemma_grabbed(
    clip: ClipboardView,
    start: Dict<Seq<char>, PincerView>,
    now: Dict<Seq<char>, PincerView>,
    copied: Seq<(SeatIdentifier, OfferId, Register)>,
    i: int,
    k: int,
    name: Seq<char>,
)
    requires
        start.wf(),
        now.wf(),
        now.keys == start.keys,
        0 <= i <= k <= copied.len(),
        start.map.contains_key(name) ==> now.map[name] == clipped_all(
            start.map[name],
            copied_on(copied.take(i), name),
        ),
        forall|j: int|
            0 <= j < k ==> clip.offers.map.contains_key((#[trigger] copied[j]).1)
                && start.map.contains_key(copied[j].0@),
        k < copied.len() ==> !(clip.offers.map.contains_key(copied[k].1)
            && start.map.contains_key(copied[k].0@)),
    ensures
        ({
            let (after, r) = grabbed(clip, now, copied, i);
            &&& after.keys == start.keys
            &&& after.wf()
            &&& after.map.contains_key(name) <==> start.map.contains_key(name)
            &&& start.map.contains_key(name) ==> after.map[name] == clipped_all(
                start.map[name],
                copied_on(copied.take(k), name),
            )
            &&& k == copied.len() ==> r is Ok
            &&& k < copied.len() && !clip.offers.map.contains_key(copied[k].1) ==> r == Err::<
                (),
                _,
            >(YankError::UnknownOffer)
            &&& k < copied.len() && clip.offers.map.contains_key(copied[k].1) ==> r == Err::<(), _>(
                YankError::Unmanaged,
            )
        }),
    decreases k - i,
{
    assert(start.keys.contains(name) == start.map.contains_key(name));
    assert(now.keys.contains(name) == now.map.contains_key(name));
    if i < k {
        let (seat, offer, contents) = copied[i];
        assert(start.map.contains_key(seat@));
        assert(start.keys.contains(seat@));
        assert(now.keys.contains(seat@));
        assert(now.map.contains_key(seat@));
        let next = now.put(seat@, now.map[seat@].clipped(contents@));
        now.lemma_put_wf(seat@, now.map[seat@].clipped(contents@));
        assert(copied.take(i + 1).drop_last() =~= copied.take(i));
        assert(copied.take(i + 1).last() == copied[i]);
        let before = copied_on(copied.take(i), name);
        law_copies_are_made_in_order(start.map[name], before, contents@);
        lemma_grabbed(clip, start, next, copied, i + 1, k, name);
    } else if k < copied.len() {
        let (seat, offer, contents) = copied[k];
        assert(now.keys.contains(seat@) == start.keys.contains(seat@));
    }
}

/// Keeping selections in two parts leads where keeping them at once leads, unless the first part is
/// refused. Then that is where it ends.
pub proof fn law_grab_in_two_parts(
    clip: &Clipboard,
    first: &mut SeatPincerMap,
    second: &mut SeatPincerMap,
    whole: &mut SeatPincerMap,
    a: Vec<(SeatIdentifier, OfferId, Register)>,
    b: Vec<(SeatIdentifier, OfferId, Register)>,
    all: Vec<(SeatIdentifier, OfferId, Register)>,
    r: Result<(), YankError>,
    s: Result<(), YankError>,
    t: Result<(), YankError>,
)
    requires
        all@ == a@ + b@,
        old(whole)@ == old(first)@,
        old(second)@ == final(first)@,
        call_ensures(Clipboard::grab, (clip, first, a), r),
        call_ensures(Clipboard::grab, (clip, second, b), s),
        call_ensures(Clipboard::grab, (clip, whole, all), t),
    ensures
        r is Ok ==> final(whole)@ == final(second)@ && t == s,
        r is Err ==> final(whole)@ == final(first)@ && t == r,
{
    lemma_grabbed_first(clip@, old(first)@, a@, b@, 0);
    if r is Ok {
        lemma_grabbed_second(clip@, old(second)@, a@, b@, 0);
    }
}

proof fn lemma_grabbed_first(
    clip: ClipboardView,
    now: Dict<Seq<char>, PincerView>,
    a: Seq<(SeatIdentifier, OfferId, Register)>,
    b: Seq<(SeatIdentifier, OfferId, Register)>,
    i: int,
)
    requires
        0 <= i <= a.len(),
    ensures
        ({
            let (after, r) = grabbed(clip, now, a, i);
            grabbed(clip, now, a + b, i) == (if r is Ok {
                grabbed(clip, after, a + b, a.len() as int)
            } else {
                (after, r)
            })
        }),
    decreases a.len() - i,
{
    if i < a.len() {
        let (seat, _, contents) = a[i];
        assert((a + b)[i] == a[i]);
        if now.map.contains_key(seat@) {
            let next = now.put(seat@, now.map[seat@].clipped(contents@));
            lemma_grabbed_first(clip, next, a, b, i + 1);
        }
    }
}

proof fn lemma_grabbed_second(
    clip: ClipboardView,
    now: Dict<Seq<char>, PincerView>,
    a: Seq<(SeatIdentifier, OfferId, Register)>,
    b: Seq<(SeatIdentifier, OfferId, Register)>,
    i: int,
)
    requires
        0 <= i <= b.len(),
    ensures
        grabbed(clip, now, a + b, a.len() + i) == grabbed(clip, now, b, i),
    decreases b.len() - i,
{
    if i < b.len() {
        let (seat, _, contents) = b[i];
        assert((a + b)[a.len() + i] == b[i]);
        if now.map.contains_key(seat@) {
            let next = now.put(seat@, now.map[seat@].clipped(contents@));
            lemma_grabbed_second(clip, next, a, b, i + 1);
        }
    }
}

/// Seats are known in the order in which they first stand among the global objects.
pub proof fn law_startup_keeps_the_order_of_seats(
    globals: &Vec<Global>,
    r: Clipboard,
    i: int,
    j: int,
    h: int,
)
    requires
        call_ensures(Clipboard::new, (globals,), r),
        0 <= i < j < r@.seats.keys.len(),
        0 <= h < globals@.len(),
        globals@[h].is_seat(),
        globals@[h].seat == r@.seats.keys[j],
    ensures
        exists|g: int|
            0 <= g < h && (#[trigger] globals@[g]).is_seat() && globals@[g].seat
                == r@.seats.keys[i],
{
    lemma_seats_in_order(globals@, i, j, h);
}

proof fn lemma_seats_in_order(globals: Seq<Global>, i: int, j: int, h: int)
    requires
        0 <= i < j < seats_of(globals).keys.len(),
        0 <= h < globals.len(),
        globals[h].is_seat(),
        globals[h].seat == seats_of(globals).keys[j],
    ensures
        exists|g: int|
            0 <= g < h && (#[trigger] globals[g]).is_seat() && globals[g].seat == seats_of(
                globals,
            ).keys[i],
    decreases globals.len(),
{
    let first = globals.drop_last();
    let before = seats_of(first);
    let seat = seats_of(globals).keys[i];
    lemma_seats_of_wf(first);
    if h < globals.len() - 1 {
        assert(first[h].is_seat());
        lemma_seats_of(first, globals[h].seat);
        assert(before.keys.contains(globals[h].seat));
        if j >= before.keys.len() {
            assert(!before.keys.contains(globals.last().seat));
        }
        lemma_seats_in_order(first, i, j, h);
        let g = choose|g: int|
            0 <= g < h && (#[trigger] first[g]).is_seat() && first[g].seat == seat;
        assert(globals[g] == first[g]);
    } else {
        assert(before.keys.contains(before.keys[i]));
        assert(before.map.contains_key(seat));
        lemma_seats_of(first, seat);
        let g = choose|g: int|
            0 <= g < first.len() && (#[trigger] first[g]).is_seat() && first[g].seat == seat;
        assert(globals[g] == first[g]);
    }
}

/// A global object that appears is bound and known as a seat if and only if it is one that can be
/// followed. Nothing is known of it but its numeric name. No other seat changes, and no offer.
pub proof fn law_appearing_seat_is_known(
    clip: &mut Clipboard,
    global: &Global,
    r: bool,
    other: SeatId,
)
    requires
        old(clip)@.wf(),
        call_ensures(Clipboard::global, (clip, global), r),
    ensures
        r <==> global.is_seat(),
        !global.is_seat() ==> final(clip)@ == old(clip)@,
        global.is_seat() ==> final(clip)@.seats.map.contains_key(global.seat)
            && final(clip)@.seats.map[global.seat] == (SeatView {
            name: None,
            numeric_name: global.name,
            device: None,
            clipboard_state: ClipboardState::Uninitialized,
        }),
        other != global.seat ==> final(clip)@.seats.map.contains_key(other)
            == old(clip)@.seats.map.contains_key(other) && final(clip)@.seats.map[other]
            == old(clip)@.seats.map[other],
        final(clip)@.offers == old(clip)@.offers,
        global.is_seat() && !old(clip)@.seats.map.contains_key(global.seat)
            ==> final(clip)@.seats.keys == old(clip)@.seats.keys.push(global.seat),
        old(clip)@.seats.map.contains_key(global.seat) ==> final(clip)@.seats.keys
            == old(clip)@.seats.keys,
        final(clip)@.wf(),
{
    assert(old(clip)@.seats.keys.contains(global.seat) == old(clip)@.seats.map.contains_key(
        global.seat,
    ));
    old(clip)@.seats.lemma_put_wf(global.seat, SeatView::fresh(global.name));
}

/// Where a global object disappears, the seats with its numeric name are forgotten. Every other
/// seat stays as it is and where it is, and so does every offer.
pub proof fn law_disappearing_seat_is_forgotten(
    clip: &mut Clipboard,
    pincers: &mut SeatPincerMap,
    name: u32,
    r: Removal,
    seat: SeatId,
)
    requires
        old(clip)@.wf(),
        call_ensures(Clipboard::global_remove, (clip, pincers, name), r),
    ensures
        final(clip)@.seats.map.contains_key(seat) <==> old(clip)@.seats.map.contains_key(seat)
            && old(clip)@.seats.map[seat].numeric_name != name,
        final(clip)@.seats.map.contains_key(seat) ==> final(clip)@.seats.map[seat]
            == old(clip)@.seats.map[seat],
        final(clip)@.seats.keys == old(clip)@.seats.keys.filter(
            |k: SeatId| old(clip)@.seats.map[k].numeric_name != name,
        ),
        final(clip)@.offers == old(clip)@.offers,
        final(clip)@.seats.wf(),
{
    law_removed_seats_are_forgotten(old(clip)@.seats, name, seat);
    let seats = old(clip)@.seats;
    assert((|k: SeatId| seats.map[k].numeric_name != name) =~= (|k: SeatId|
        old(clip)@.seats.map[k].numeric_name != name));
}

/// Where a global object that is no known seat disappears, no clipboard is affected.
pub proof fn law_other_globals_disappear_unnoticed(
    clip: &mut Clipboard,
    pincers: &mut SeatPincerMap,
    name: u32,
    r: Removal,
)
    requires
        old(clip)@.wf(),
        call_ensures(Clipboard::global_remove, (clip, pincers, name), r),
        forall|k: SeatId| #[trigger]
            old(clip)@.seats.map.contains_key(k) ==> old(clip)@.seats.map[k].numeric_name != name,
    ensures
        r is NotASeat,
        final(pincers)@ == old(pincers)@,
{
    let seats = old(clip)@.seats;
    assert forall|j: int| 0 <= j < seats.keys.len()
        implies seats.map[#[trigger] seats.keys[j]].numeric_name
        != name by {
        assert(seats.keys.contains(seats.keys[j]));
        assert(seats.map.contains_key(seats.keys[j]));
    }
    lemma_seat_called(seats, name, 0, seats.keys.len() as int);
}

/// Where a seat disappears, its clipboard is no longer managed. Every other seat is managed as
/// before. It is told whether the clipboard was managed.
pub proof fn law_disappearing_seat_is_unmanaged(
    clip: &mut Clipboard,
    pincers: &mut SeatPincerMap,
    name: u32,
    r: Removal,
    i: int,
    other: Seq<char>,
)
    requires
        old(pincers)@.wf(),
        call_ensures(Clipboard::global_remove, (clip, pincers, name), r),
        0 <= i < old(clip)@.seats.keys.len(),
        old(clip)@.seats.map[old(clip)@.seats.keys[i]].numeric_name == name,
        forall|j: int|
            0 <= j < i ==> old(clip)@.seats.map[#[trigger] old(clip)@.seats.keys[j]].numeric_name
                != name,
    ensures
        match old(clip)@.seats.map[old(clip)@.seats.keys[i]].name {
            Some(n) => {
                &&& !final(pincers)@.map.contains_key(n)
                &&& final(pincers)@.keys == old(pincers)@.without(n).keys
                &&& other != n ==> final(pincers)@.map.contains_key(other)
                    == old(pincers)@.map.contains_key(other)
                    && (old(pincers)@.map.contains_key(other) ==> final(pincers)@.map[other]
                    == old(pincers)@.map[other])
                &&& old(pincers)@.map.contains_key(n) ==> r is Unmanaged
                &&& !old(pincers)@.map.contains_key(n) ==> r is NotManaged
            },
            None => r is NotManaged && final(pincers)@ == old(pincers)@,
        },
{
    lemma_seat_called(old(clip)@.seats, name, 0, i);
}

proof fn lemma_seat_called(seats: Dict<SeatId, SeatView>, name: u32, i: int, n: int)
    requires
        0 <= i <= n <= seats.keys.len(),
        forall|j: int|
            i <= j < n ==> seats.map[#[trigger] seats.keys[j]].numeric_name != name,
        n < seats.keys.len() ==> seats.map[seats.keys[n]].numeric_name == name,
    ensures
        seat_called(seats, name, i) == (if n < seats.keys.len() {
            Some(seats.map[seats.keys[n]])
        } else {
            None
        }),
    decreases n - i,
{
    if i < n {
        lemma_seat_called(seats, name, i + 1, n);
    }
}

/// A seat that tells its name is called by it. Its clipboard is then managed: by the Pincer that
/// the name had, with all it holds, or else by a new one. No other seat is affected.
pub proof fn law_named_seat_is_managed(
    clip: &mut Clipboard,
    pincers: &mut SeatPincerMap,
    seat: SeatId,
    name: SeatIdentifier,
    r: bool,
    other_seat: SeatId,
    other_name: Seq<char>,
)
    requires
        old(clip)@.wf(),
        old(pincers)@.wf(),
        old(clip)@.seats.map.contains_key(seat),
        call_ensures(Clipboard::seat_name, (clip, pincers, seat, name), r),
    ensures
        final(clip)@.seats.map.contains_key(seat),
        final(clip)@.seats.map[seat].name == Some(name@),
        final(clip)@.seats.map[seat].numeric_name == old(clip)@.seats.map[seat].numeric_name,
        final(clip)@.seats.map[seat].device == old(clip)@.seats.map[seat].device,
        final(clip)@.seats.map[seat].clipboard_state == old(clip)@.seats.map[seat].clipboard_state,
        final(clip)@.seats.keys == old(clip)@.seats.keys,
        other_seat != seat ==> final(clip)@.seats.map[other_seat]
            == old(clip)@.seats.map[other_seat],
        final(clip)@.offers == old(clip)@.offers,
        final(pincers)@.map.contains_key(name@),
        r <==> !old(pincers)@.map.contains_key(name@),
        !r ==> final(pincers)@ == old(pincers)@,
        r ==> final(pincers)@.map[name@].active is None && final(pincers)@.keys
            == old(pincers)@.keys.push(name@),
        r ==> forall|a: AddressView|
            a.valid() ==> #[trigger] final(pincers)@.map[name@].register(a) == Contents::empty(),
        r ==> final(pincers)@.map[name@].wf(),
        other_name != name@ ==> final(pincers)@.map.contains_key(other_name)
            == old(pincers)@.map.contains_key(other_name) && final(pincers)@.map[other_name]
            == old(pincers)@.map[other_name],
{
    assert(old(clip)@.seats.keys.contains(seat));
    assert(old(pincers)@.keys.contains(name@) == old(pincers)@.map.contains_key(name@));
}

/// The values of a dictionary stand in the order of its keys.
pub proof fn law_values_are_in_order<A, B>(d: Dict<A, B>, i: int)
    ensures
        values_of(d).len() == d.keys.len(),
        0 <= i < d.keys.len() ==> values_of(d)[i] == d.map[d.keys[i]],
{
}

/// An offer that is announced is known, at first without MIME types. The pipes of an earlier offer
/// by that number are handed back. No other offer changes, and no seat.
pub proof fn law_announced_offer_is_known(
    clip: &mut Clipboard,
    offer: OfferId,
    r: Vec<PipeId>,
    other: OfferId,
    i: int,
)
    requires
        old(clip)@.wf(),
        call_ensures(Clipboard::data_offer, (clip, offer), r),
    ensures
        final(clip)@.offers.map.contains_key(offer),
        final(clip)@.offers.map[offer] == Dict::<Seq<char>, PipeId>::empty(),
        other != offer ==> final(clip)@.offers.map.contains_key(other)
            == old(clip)@.offers.map.contains_key(other) && final(clip)@.offers.map[other]
            == old(clip)@.offers.map[other],
        final(clip)@.seats == old(clip)@.seats,
        !old(clip)@.offers.map.contains_key(offer) ==> r@.len() == 0,
        old(clip)@.offers.map.contains_key(offer) ==> ({
            let pipes = old(clip)@.offers.map[offer];
            r@.len() == pipes.keys.len() && (0 <= i < r@.len() ==> r@[i]
                == pipes.map[pipes.keys[i]])
        }),
{
}

/// A MIME type that a known offer has is known with its pipe, and the pipe that it had before is
/// handed back. No other MIME type changes, no other offer, and no seat. Of an unknown offer the
/// pipe itself is handed back.
pub proof fn law_offered_type_is_known(
    clip: &mut Clipboard,
    offer: OfferId,
    mime: MimeType,
    pipe: PipeId,
    r: Option<PipeId>,
    other: OfferId,
    other_mime: Seq<char>,
)
    requires
        old(clip)@.wf(),
        call_ensures(Clipboard::offer, (clip, offer, mime, pipe), r),
    ensures
        !old(clip)@.offers.map.contains_key(offer) ==> final(clip)@ == old(clip)@ && r == Some(
            pipe,
        ),
        old(clip)@.offers.map.contains_key(offer) ==> ({
            let before = old(clip)@.offers.map[offer];
            let after = final(clip)@.offers.map[offer];
            &&& final(clip)@.offers.map.contains_key(offer)
            &&& after.map.contains_key(mime@) && after.map[mime@] == pipe
            &&& other_mime != mime@ ==> after.map.contains_key(other_mime)
                == before.map.contains_key(other_mime) && after.map[other_mime]
                == before.map[other_mime]
            &&& before.map.contains_key(mime@) ==> r == Some(before.map[mime@]) && after.keys
                == before.keys
            &&& !before.map.contains_key(mime@) ==> r is None && after.keys == before.keys.push(
                mime@,
            )
        }),
        other != offer ==> final(clip)@.offers.map.contains_key(other)
            == old(clip)@.offers.map.contains_key(other) && final(clip)@.offers.map[other]
            == old(clip)@.offers.map[other],
        final(clip)@.offers.keys == old(clip)@.offers.keys,
        final(clip)@.seats == old(clip)@.seats,
{
    assert(old(clip)@.offers.keys.contains(offer) == old(clip)@.offers.map.contains_key(offer));
    if old(clip)@.offers.map.contains_key(offer) {
        let before = old(clip)@.offers.map[offer];
        assert(before.keys.contains(mime@) == before.map.contains_key(mime@));
    }
}

/// The MIME types of an offer are told with their pipes, all of them and in order, if and only if
/// the offer is known.
pub proof fn law_offer_is_told(
    clip: &Clipboard,
    offer: OfferId,
    r: Option<Vec<(MimeType, PipeId)>>,
    i: int,
)
    requires
        clip@.wf(),
        call_ensures(Clipboard::offer_pipes, (clip, offer), r),
    ensures
        r is Some <==> clip@.offers.map.contains_key(offer),
        r matches Some(pipes) ==> ({
            let known = clip@.offers.map[offer];
            pipes@.len() == known.keys.len() && (0 <= i < pipes@.len() ==> pipes@[i].0@
                == known.keys[i] && pipes@[i].1 == known.map[known.keys[i]])
        }),
{
    if let Some(pipes) = r {
        assert(dict_of(pipes@).keys == keys_of(pipes@));
        if 0 <= i < pipes@.len() {
            lemma_dict_of_entry(pipes@, i);
        }
    }
}

/// A seat has the selection that was set on it last. Its earlier offer is forgotten, its pipes and
/// what has to be destroyed are handed back. No other seat changes, and no other offer.
pub proof fn law_selection_is_set(
    clip: &mut Clipboard,
    seat: SeatId,
    offer: Option<OfferId>,
    r: Released,
    other: SeatId,
    other_offer: OfferId,
)
    requires
        old(clip)@.wf(),
        old(clip)@.seats.map.contains_key(seat),
        call_ensures(Clipboard::selection, (clip, seat, offer), r),
    ensures
        ({
            let before = old(clip)@.seats.map[seat];
            let after = final(clip)@.seats.map[seat];
            &&& final(clip)@.seats.map.contains_key(seat)
            &&& offer matches Some(id) ==> after.clipboard_state == ClipboardState::Offer(id)
            &&& offer is None ==> after.clipboard_state is Unavailable
            &&& after.name == before.name
            &&& after.numeric_name == before.numeric_name
            &&& after.device == before.device
            &&& r.stale@ == some_of(before.clipboard_state.stale())
            &&& before.clipboard_state matches ClipboardState::Offer(id)
                ==> !final(clip)@.offers.map.contains_key(id)
            &&& before.clipboard_state != ClipboardState::Offer(other_offer)
                ==> final(clip)@.offers.map.contains_key(other_offer)
                == old(clip)@.offers.map.contains_key(
                other_offer,
            ) && (old(clip)@.offers.map.contains_key(other_offer)
                ==> final(clip)@.offers.map[other_offer] == old(clip)@.offers.map[other_offer])
        }),
        other != seat ==> final(clip)@.seats.map.contains_key(other)
            == old(clip)@.seats.map.contains_key(other) && final(clip)@.seats.map[other]
            == old(clip)@.seats.map[other],
        final(clip)@.seats.keys == old(clip)@.seats.keys,
        r.closed@ == old(clip)@.pipes_of(old(clip)@.offer_of(seat)),
{
    assert(old(clip)@.seats.keys.contains(seat));
    assert(r.stale@ =~= some_of(old(clip)@.seats.map[seat].clipboard_state.stale()));
}

/// A seat whose device is finished has no device and no selection. Its earlier offer is forgotten,
/// its pipes and what has to be destroyed are handed back. No other seat changes, and no other
/// offer.
pub proof fn law_device_is_finished(
    clip: &mut Clipboard,
    seat: SeatId,
    r: Released,
    other: SeatId,
    other_offer: OfferId,
)
    requires
        old(clip)@.wf(),
        old(clip)@.seats.map.contains_key(seat),
        call_ensures(Clipboard::finished, (clip, seat), r),
    ensures
        ({
            let before = old(clip)@.seats.map[seat];
            let after = final(clip)@.seats.map[seat];
            &&& final(clip)@.seats.map.contains_key(seat)
            &&& after.clipboard_state is Unavailable
            &&& after.device is None
            &&& after.name == before.name
            &&& after.numeric_name == before.numeric_name
            &&& r.stale@ == some_of(device_of(before)) + some_of(before.clipboard_state.stale())
            &&& before.clipboard_state matches ClipboardState::Offer(id)
                ==> !final(clip)@.offers.map.contains_key(id)
            &&& before.clipboard_state != ClipboardState::Offer(other_offer)
                ==> final(clip)@.offers.map.contains_key(other_offer)
                == old(clip)@.offers.map.contains_key(
                other_offer,
            ) && (old(clip)@.offers.map.contains_key(other_offer)
                ==> final(clip)@.offers.map[other_offer] == old(clip)@.offers.map[other_offer])
        }),
        other != seat ==> final(clip)@.seats.map.contains_key(other)
            == old(clip)@.seats.map.contains_key(other) && final(clip)@.seats.map[other]
            == old(clip)@.seats.map[other],
        final(clip)@.seats.keys == old(clip)@.seats.keys,
        r.closed@ == old(clip)@.pipes_of(old(clip)@.offer_of(seat)),
{
    assert(old(clip)@.seats.keys.contains(seat));
    let before = old(clip)@.seats.map[seat];
    assert(r.stale@ =~= some_of(device_of(before)) + some_of(before.clipboard_state.stale()));
}

/// Events on a seat that is not known change nothing, and nothing has to be destroyed or closed.
pub proof fn law_unknown_seats_are_ignored(
    selected: &mut Clipboard,
    finished: &mut Clipboard,
    seat: SeatId,
    offer: Option<OfferId>,
    r: Released,
    s: Released,
)
    requires
        !old(selected)@.seats.map.contains_key(seat),
        !old(finished)@.seats.map.contains_key(seat),
        call_ensures(Clipboard::selection, (selected, seat, offer), r),
        call_ensures(Clipboard::finished, (finished, seat), s),
    ensures
        final(selected)@ == old(selected)@ && r.stale@.len() == 0 && r.closed@.len() == 0,
        final(finished)@ == old(finished)@ && s.stale@.len() == 0 && s.closed@.len() == 0,
{
}

/// All known seats are told, in order.
pub proof fn law_seats_are_told(clip: &Clipboard, r: Vec<SeatId>, i: int)
    requires
        call_ensures(Clipboard::seats, (clip,), r),
    ensures
        r@.len() == clip@.seats.keys.len(),
        0 <= i < r@.len() ==> r@[i] == clip@.seats.keys[i],
{
}

/// A seat is told after start-up if and only if it is one of the compositor's global objects.
pub proof fn law_startup_tells_every_seat(
    globals: &Vec<Global>,
    clip: Clipboard,
    r: Vec<SeatId>,
    seat: SeatId,
)
    requires
        call_ensures(Clipboard::new, (globals,), clip),
        call_ensures(Clipboard::seats, (&clip,), r),
    ensures
        r@.contains(seat) <==> exists|i: int|
            0 <= i < globals@.len() && (#[trigger] globals@[i]).is_seat() && globals@[i].seat
                == seat,
        r@.no_duplicates(),
{
    law_startup_finds_every_seat(globals, clip, seat);
    assert(clip@.seats.keys.contains(seat) == clip@.seats.map.contains_key(seat));
}

/// A seat has the device that was requested last. The one before has to be destroyed. Nothing else
/// changes.
pub proof fn law_requested_device_is_known(
    clip: &mut Clipboard,
    seat: SeatId,
    device: DeviceId,
    r: Option<Stale>,
    other: SeatId,
)
    requires
        old(clip)@.wf(),
        old(clip)@.seats.map.contains_key(seat),
        call_ensures(Clipboard::set_device, (clip, seat, device), r),
    ensures
        final(clip)@.seats.map.contains_key(seat),
        final(clip)@.seats.map[seat].device == Some(device),
        final(clip)@.seats.map[seat].name == old(clip)@.seats.map[seat].name,
        final(clip)@.seats.map[seat].numeric_name == old(clip)@.seats.map[seat].numeric_name,
        final(clip)@.seats.map[seat].clipboard_state == old(clip)@.seats.map[seat].clipboard_state,
        final(clip)@.seats.keys == old(clip)@.seats.keys,
        other != seat ==> final(clip)@.seats.map[other] == old(clip)@.seats.map[other],
        final(clip)@.offers == old(clip)@.offers,
        old(clip)@.seats.map[seat].device matches Some(d) ==> r == Some(Stale::Device(d)),
        old(clip)@.seats.map[seat].device is None ==> r is None,
{
    assert(old(clip)@.seats.keys.contains(seat));
}

spec fn has_selection(seats: Dict<SeatId, SeatView>, seat: SeatId) -> bool {
    seats.map[seat].name is Some && seats.map[seat].clipboard_state is Offer
}

/// Every seat that has a name and a selection is told, with the name and the offer, in order, and
/// no other seat is.
pub proof fn law_selections_are_told(
    clip: &Clipboard,
    r: Vec<(SeatIdentifier, OfferId)>,
    i: int,
)
    requires
        call_ensures(Clipboard::selections, (clip,), r),
    ensures
        ({
            let seats = clip@.seats.keys.filter(
                |k: SeatId|
                    clip@.seats.map[k].name is Some && clip@.seats.map[k].clipboard_state is Offer,
            );
            &&& r@.len() == seats.len()
            &&& 0 <= i < r@.len() ==> clip@.seats.map[seats[i]].name == Some(r@[i].0@)
                && clip@.seats.map[seats[i]].clipboard_state == ClipboardState::Offer(r@[i].1)
        }),
{
    let all = clip@.seats;
    lemma_selections_told(all, all.keys.len() as int);
    assert(all.keys.take(all.keys.len() as int) =~= all.keys);
    assert((|k: SeatId| has_selection(all, k)) =~= (|k: SeatId|
        clip@.seats.map[k].name is Some && clip@.seats.map[k].clipboard_state is Offer));
    if 0 <= i < r@.len() {
        assert(view_selections(r@)[i] == (r@[i].0@, r@[i].1));
    }
}

proof fn lemma_selections_told(all: Dict<SeatId, SeatView>, k: int)
    requires
        0 <= k <= all.keys.len(),
    ensures
        ({
            let seats = all.keys.take(k).filter(|s: SeatId| has_selection(all, s));
            let told = selections_of(all, k);
            &&& told.len() == seats.len()
            &&& forall|i: int|
                #![trigger told[i]]
                0 <= i < told.len() ==> all.map[seats[i]].name == Some(told[i].0)
                    && all.map[seats[i]].clipboard_state == ClipboardState::Offer(told[i].1)
        }),
    decreases k,
{
    reveal(Seq::filter);
    if k > 0 {
        lemma_selections_told(all, k - 1);
        assert(all.keys.take(k).drop_last() =~= all.keys.take(k - 1));
        assert(all.keys.take(k).last() == all.keys[k - 1]);
    }
}

/// What another client has copied on a managed seat is kept whole, as a copy on that seat. No other
/// seat changes. It is refused, without a change, if and only if the offer is unknown or the seat is
/// not managed.
pub proof fn law_selection_is_kept(
    clip: &Clipboard,
    pincers: &mut SeatPincerMap,
    seat: &SeatIdentifier,
    offer: OfferId,
    copied: Register,
    r: Result<(), YankError>,
    n: int,
    other: Seq<char>,
)
    requires
        old(pincers)@.wf(),
        call_ensures(Clipboard::yank_from_selection, (clip, pincers, seat, offer, copied), r),
    ensures
        !clip@.offers.map.contains_key(offer) ==> r == Err::<(), _>(YankError::UnknownOffer),
        clip@.offers.map.contains_key(offer) && !old(pincers)@.map.contains_key(seat@) ==> r
            == Err::<(), _>(YankError::Unmanaged),
        clip@.offers.map.contains_key(offer) && old(pincers)@.map.contains_key(seat@) ==> r is Ok,
        r is Err ==> final(pincers)@ == old(pincers)@,
        final(pincers)@.keys == old(pincers)@.keys,
        other != seat@ ==> final(pincers)@.map.contains_key(other)
            == old(pincers)@.map.contains_key(other) && final(pincers)@.map[other]
            == old(pincers)@.map[other],
        r is Ok && old(pincers)@.map[seat@].wf() ==> ({
            let before = old(pincers)@.map[seat@];
            let after = final(pincers)@.map[seat@];
            &&& final(pincers)@.map.contains_key(seat@)
            &&& after.wf()
            &&& after.active == before.active
            &&& after.numeric[0] == copied@
            &&& before.active matches Some(addr) ==> after.register(addr) == copied@
            &&& 0 < n < 10 && before.active != Some(AddressView::Numeric(n)) ==> after.numeric[n]
                == before.numeric[n - 1]
            &&& 0 <= n < 26 && before.active != Some(AddressView::Named(n)) ==> after.named[n]
                == before.named[n]
        }),
{
    assert(old(pincers)@.keys.contains(seat@) == old(pincers)@.map.contains_key(seat@));
}

/// A client that pastes on a seat gets the data of the MIME type in the register that the seat's
/// pointer is set to, or in `"0`, byte for byte. Nothing is sent if and only if there is none, or
/// the seat has no name or is not managed.
pub proof fn law_pasting_clients_get_what_is_held(
    clip: &Clipboard,
    pincers: &SeatPincerMap,
    seat: SeatId,
    mime: &MimeType,
    r: Result<&DataBuffer, SendError>,
)
    requires
        call_ensures(Clipboard::send, (clip, pincers, seat, mime), r),
    ensures
        !clip@.seats.map.contains_key(seat) || clip@.seats.map[seat].name is None ==> r == Err::<
            &DataBuffer,
            _,
        >(SendError::UnknownSeat),
        clip@.seats.map.contains_key(seat) ==> (clip@.seats.map[seat].name matches Some(name) ==> {
            &&& !pincers@.map.contains_key(name) ==> r == Err::<&DataBuffer, _>(
                SendError::Unmanaged,
            )
            &&& pincers@.map.contains_key(name) ==> ({
                let pincer = pincers@.map[name];
                let addr = match pincer.active {
                    Some(a) => a,
                    None => AddressView::Numeric(0),
                };
                let held = match addr {
                    AddressView::Numeric(n) => pincer.numeric[n],
                    AddressView::Named(n) => pincer.named[n],
                };
                &&& held.map.contains_key(mime@) ==> (r matches Ok(data) && data@
                    == held.map[mime@])
                &&& !held.map.contains_key(mime@) ==> (r matches Err(SendError::NoData(e)) && e@
                    == missing_mime_text(addr, mime@))
            })
        }),
{
}

/// What another client copies on a seat is what the next client pastes on it, whichever MIME type
/// it asks for and wherever the seat's pointer is set to.
pub proof fn law_copied_data_is_pasted(
    clip: &Clipboard,
    pincers: &mut SeatPincerMap,
    copied: Vec<(SeatIdentifier, OfferId, Register)>,
    grabbed: Result<(), YankError>,
    seat: SeatId,
    mime: &MimeType,
    r: Result<&DataBuffer, SendError>,
)
    requires
        call_ensures(Clipboard::grab, (clip, pincers, copied), grabbed),
        call_ensures(Clipboard::send, (clip, &*final(pincers), seat, mime), r),
        copied@.len() == 1,
        clip@.offers.map.contains_key(copied@[0].1),
        clip@.seats.map.contains_key(seat),
        clip@.seats.map[seat].name == Some(copied@[0].0@),
        old(pincers)@.wf(),
        old(pincers)@.map.contains_key(copied@[0].0@),
        old(pincers)@.map[copied@[0].0@].wf(),
    ensures
        copied@[0].2@.map.contains_key(mime@) ==> (r matches Ok(data) && data@
            == copied@[0].2@.map[mime@]),
        !copied@[0].2@.map.contains_key(mime@) ==> r matches Err(SendError::NoData(_)),
{
    law_grab_keeps_a_selection_whole(clip, pincers, copied, grabbed, 0, Seq::empty());
}

spec fn was_read(read: (MimeType, Option<DataBuffer>), mime: Seq<char>) -> bool {
    read.0@ == mime && read.1 is Some
}

/// Of an offer whose data was read, a MIME type is kept if and only if its data could be read.
pub proof fn law_readable_types_are_collected(
    reads: Vec<(MimeType, Option<DataBuffer>)>,
    r: Register,
    mime: Seq<char>,
)
    requires
        call_ensures(collect_readable, (reads,), r),
    ensures
        r@.wf(),
        r@.map.contains_key(mime) <==> exists|i: int|
            0 <= i < reads@.len() && (#[trigger] reads@[i]).0@ == mime && reads@[i].1 is Some,
{
    lemma_readable_types(reads@, mime);
    if exists|i: int|
        0 <= i < reads@.len() && (#[trigger] reads@[i]).0@ == mime && reads@[i].1 is Some {
        let i = choose|i: int|
            0 <= i < reads@.len() && (#[trigger] reads@[i]).0@ == mime && reads@[i].1 is Some;
        assert(was_read(reads@[i], mime));
    }
}

/// Of an offer whose data was read, the data that was read last is kept for each MIME type, byte for
/// byte.
pub proof fn law_readable_data_is_collected(
    reads: Vec<(MimeType, Option<DataBuffer>)>,
    r: Register,
    i: int,
)
    requires
        call_ensures(collect_readable, (reads,), r),
        0 <= i < reads@.len(),
        reads@[i].1 is Some,
        forall|j: int|
            i < j < reads@.len() && (#[trigger] reads@[j]).1 is Some ==> reads@[j].0@
                != reads@[i].0@,
    ensures
        r@.map.contains_key(reads@[i].0@),
        r@.map[reads@[i].0@] == reads@[i].1->0@,
{
    lemma_readable_data(reads@, i);
}

proof fn lemma_readable_types(reads: Seq<(MimeType, Option<DataBuffer>)>, mime: Seq<char>)
    ensures
        readable(reads).wf(),
        readable(reads).map.contains_key(mime) <==> exists|i: int|
            0 <= i < reads.len() && was_read(#[trigger] reads[i], mime),
    decreases reads.len(),
{
    if reads.len() > 0 {
        let first = reads.drop_last();
        lemma_readable_types(first, mime);
        if let Some(data) = reads.last().1 {
            readable(first).lemma_put_wf(reads.last().0@, data@);
        }
        if readable(first).map.contains_key(mime) {
            let i = choose|i: int| 0 <= i < first.len() && was_read(#[trigger] first[i], mime);
            assert(reads[i] == first[i]);
        }
        if was_read(reads.last(), mime) {
            assert(was_read(reads[reads.len() - 1], mime));
        }
        if exists|i: int| 0 <= i < reads.len() && was_read(#[trigger] reads[i], mime) {
            let i = choose|i: int| 0 <= i < reads.len() && was_read(#[trigger] reads[i], mime);
            if i < first.len() {
                assert(was_read(first[i], mime));
            }
        }
    }
}

proof fn lemma_readable_data(reads: Seq<(MimeType, Option<DataBuffer>)>, i: int)
    requires
        0 <= i < reads.len(),
        reads[i].1 is Some,
        forall|j: int| i < j < reads.len() ==> !was_read(#[trigger] reads[j], reads[i].0@),
    ensures
        readable(reads).get(reads[i].0@) == Some(reads[i].1->0@),
    decreases reads.len(),
{
    let first = reads.drop_last();
    if i < first.len() {
        assert forall|j: int| i < j < first.len() implies !was_read(
            #[trigger] first[j],
            first[i].0@,
        ) by {
            assert(!was_read(reads[j], reads[i].0@));
        }
        lemma_readable_data(first, i);
        assert(!was_read(reads[reads.len() - 1], reads[i].0@));
    }
}

/// A clipboard that listens dispatches what arrives, reports what could not be read, and stops only
/// when it is told to.
pub proof fn law_clipboard_listens_until_stopped(event: ListenEvent, r: ListenStep)
    requires
        call_ensures(listen_step, (event,), r),
    ensures
        event is Read ==> r is Dispatch,
        event is Cancelled ==> r is Stop,
        event is Failed ==> r is Warn,
{
}

/// Any selections can be kept whose data can be counted. Any known seat can tell its name and be
/// given a device.
pub proof fn law_any_selections_can_be_kept(
    clip: &Clipboard,
    pincers: &mut SeatPincerMap,
    copied: Vec<(SeatIdentifier, OfferId, Register)>,
    seat: &SeatIdentifier,
    offer: OfferId,
    one: Register,
    events: &mut Clipboard,
    id: SeatId,
    device: DeviceId,
)
    ensures
        old(events)@.seats.map.contains_key(id) ==> call_requires(
            Clipboard::seat_name,
            (events, pincers, id, *seat),
        ),
        old(events)@.seats.map.contains_key(id) ==> call_requires(
            Clipboard::set_device,
            (events, id, device),
        ),
        (forall|i: int|
            0 <= i < copied@.len() ==> bytes_in(#[trigger] copied@[i].2@) <= usize::MAX)
            ==> call_requires(Clipboard::grab, (clip, pincers, copied)),
        bytes_in(one@) <= usize::MAX ==> call_requires(
            Clipboard::yank_from_selection,
            (clip, pincers, seat, offer, one),
        ),
{
}

} // verus!
