use vstd::prelude::*;

use crate::address::{n_registers, view_option, AddressView};
use crate::assoc::Dict;
use crate::clipboard::{
    grabbed, seat_called, seats_not_called, selections_of, ClipboardView, SeatId,
};
use crate::daemon::{addressee, answers, RegisterCommand, RequestType, Response, ResponseType};
use crate::pincer::{missing_mime_text, shifted_back, shifted_up, PincerView};
use crate::register::{
    stored, summary, Contents, DataBuffer, MimeType, Register, RegisterAddress, SummaryView,
    N_NUMERIC,
};
use crate::seat::{ClipboardState, OfferId, SeatIdentifier, SeatSpecification, SeatView};

verus! {

/// Going up and down the same way on the circle of numeric registers leads back.
pub proof fn law_shifts_undo_each_other(x: int, y: int)
    requires
        0 <= x < N_NUMERIC,
        0 <= y < N_NUMERIC,
    ensures
        shifted_back(shifted_up(x, y), y) == x,
        shifted_up(shifted_back(x, y), y) == x,
{
}

/// What is stored under a key is found under it, and nothing else changes.
pub proof fn law_put_then_get<A, B>(d: Dict<A, B>, k: A, v: B, other: A)
    requires
        d.wf(),
    ensures
        d.put(k, v).wf(),
        d.put(k, v).get(k) == Some(v),
        other != k ==> d.put(k, v).get(other) == d.get(other),
        !d.put(k, v).is_empty(),
{
    d.lemma_put_wf(k, v);
    if d.keys.contains(k) {
        assert(d.keys.len() > 0);
    }
}

/// Whatever is stored in a register, every MIME type is listed once.
pub proof fn law_mime_types_are_listed_once(pastes: Seq<(MimeType, DataBuffer)>)
    ensures
        stored(pastes).wf(),
    decreases pastes.len(),
{
    if pastes.len() > 0 {
        law_mime_types_are_listed_once(pastes.drop_last());
        stored(pastes.drop_last()).lemma_put_wf(pastes.last().0@, pastes.last().1@);
    }
}

/// Of several pastes of one MIME type the last one stays.
pub proof fn law_last_paste_stays(pastes: Seq<(MimeType, DataBuffer)>, i: int)
    requires
        0 <= i < pastes.len(),
        forall|j: int| i < j < pastes.len() ==> #[trigger] pastes[j].0@ != pastes[i].0@,
    ensures
        stored(pastes).get(pastes[i].0@) == Some(pastes[i].1@),
    decreases pastes.len(),
{
    if i < pastes.len() - 1 {
        let before = pastes.drop_last();
        assert forall|j: int| i < j < before.len() implies #[trigger] before[j].0@ != before[i].0@ by {
            assert(pastes[j].0@ != pastes[i].0@);
        }
        law_last_paste_stays(before, i);
        assert(pastes[pastes.len() - 1].0@ != pastes[i].0@);
    }
}

/// A register holds no MIME types but those that were stored in it.
pub proof fn law_only_pastes_are_stored(pastes: Seq<(MimeType, DataBuffer)>, mime: Seq<char>)
    requires
        forall|j: int| 0 <= j < pastes.len() ==> #[trigger] pastes[j].0@ != mime,
    ensures
        stored(pastes).get(mime) is None,
    decreases pastes.len(),
{
    if pastes.len() > 0 {
        let before = pastes.drop_last();
        assert forall|j: int| 0 <= j < before.len() implies #[trigger] before[j].0@ != mime by {
            assert(pastes[j].0@ != mime);
        }
        law_only_pastes_are_stored(before, mime);
        assert(pastes[pastes.len() - 1].0@ != mime);
    }
}

/// No operation takes a register away or adds one, and the register pointer stays an address.
pub proof fn law_registers_stay(p: PincerView, addr: AddressView, contents: Contents)
    requires
        p.wf(),
        addr.valid(),
    ensures
        PincerView::fresh().wf(),
        p.yanked(addr, contents).wf(),
        p.clipped(contents).wf(),
        p.with_active(Some(addr)).wf(),
        p.with_active(None).wf(),
        p.selected().valid(),
{
}

/// What is yanked into a register is in it.
pub proof fn law_yank_then_read(p: PincerView, addr: AddressView, contents: Contents)
    requires
        p.wf(),
        addr.valid(),
    ensures
        p.yanked(addr, contents).register(addr) == contents,
{
}

/// A yank does not move the register pointer.
pub proof fn law_yank_keeps_pointer(p: PincerView, addr: AddressView, contents: Contents)
    ensures
        p.yanked(addr, contents).active == p.active,
        p.clipped(contents).active == p.active,
{
}

/// A yank into a named register changes no other register.
pub proof fn law_named_yank_changes_one_register(
    p: PincerView,
    n: int,
    contents: Contents,
    other: AddressView,
)
    requires
        p.wf(),
        AddressView::Named(n).valid(),
        other.valid(),
        other != AddressView::Named(n),
    ensures
        p.yanked(AddressView::Named(n), contents).register(other) == p.register(other),
{
}

/// A yank into a numeric register changes no named register. It pushes what the other numeric
/// registers hold to the next higher register.
pub proof fn law_numeric_yank_pushes_up(p: PincerView, n: int, contents: Contents, other: AddressView)
    requires
        p.wf(),
        AddressView::Numeric(n).valid(),
        other.valid(),
        other != AddressView::Numeric(n),
    ensures
        p.yanked(AddressView::Numeric(n), contents).register(other) == (match other {
            AddressView::Numeric(m) => if m == 0 {
                p.register(AddressView::Numeric(N_NUMERIC - 1))
            } else {
                p.register(AddressView::Numeric(m - 1))
            },
            AddressView::Named(_) => p.register(other),
        }),
{
}

/// A step on the circle pushes what every numeric register holds to the next higher one. What `"9`
/// held comes round to `"0`. Named registers and the register pointer stay as they are.
pub proof fn law_step_pushes_up(p: PincerView, n: int)
    requires
        p.wf(),
        0 <= n < N_NUMERIC,
    ensures
        p.shifted().wf(),
        p.shifted().register(AddressView::Numeric((n + 1) % (N_NUMERIC as int))) == p.register(
            AddressView::Numeric(n),
        ),
        p.shifted().named == p.named,
        p.shifted().active == p.active,
{
}

/// A Pincer after several steps on the circle of numeric registers.
pub open spec fn shifted_times(p: PincerView, steps: nat) -> PincerView
    decreases steps,
{
    if steps == 0 {
        p
    } else {
        shifted_times(p, (steps - 1) as nat).shifted()
    }
}

/// After any number of steps, a numeric register holds what the register that many places below it
/// on the circle held before.
pub proof fn law_steps_go_round(p: PincerView, steps: nat, n: int)
    requires
        p.wf(),
        0 <= n < N_NUMERIC,
    ensures
        shifted_times(p, steps).wf(),
        shifted_times(p, steps).register(AddressView::Numeric(n)) == p.register(
            AddressView::Numeric(shifted_back(n, steps as int)),
        ),
        shifted_times(p, steps).named == p.named,
        shifted_times(p, steps).active == p.active,
    decreases steps,
{
    if steps > 0 {
        let below = shifted_back(n, 1);
        law_steps_go_round(p, (steps - 1) as nat, below);
        law_step_pushes_up(shifted_times(p, (steps - 1) as nat), below);
    }
}

/// As many steps as there are numeric registers bring every register back.
pub proof fn law_full_circle_restores(p: PincerView)
    requires
        p.wf(),
    ensures
        shifted_times(p, N_NUMERIC as nat) == p,
{
    let q = shifted_times(p, N_NUMERIC as nat);
    law_steps_go_round(p, N_NUMERIC as nat, 0);
    assert forall|n: int| 0 <= n < N_NUMERIC implies q.numeric[n] == p.numeric[n] by {
        law_steps_go_round(p, N_NUMERIC as nat, n);
        assert(q.register(AddressView::Numeric(n)) == q.numeric[n]);
    }
    assert(q =~= p);
}

/// A yank into `"0` goes in at the front of the numeric registers, and the oldest clipping falls
/// out at the end.
pub proof fn law_yank_pushes_queue(p: PincerView, contents: Contents)
    requires
        p.wf(),
    ensures
        p.yanked(AddressView::Numeric(0), contents).numeric == seq![contents]
            + p.numeric.drop_last(),
        p.yanked(AddressView::Numeric(0), contents).named == p.named,
{
    assert(p.yanked(AddressView::Numeric(0), contents).numeric =~= seq![contents]
        + p.numeric.drop_last());
}

/// A Pincer after several yanks into `"0`.
pub open spec fn yanked_all(p: PincerView, clippings: Seq<Contents>) -> PincerView
    decreases clippings.len(),
{
    if clippings.len() == 0 {
        p
    } else {
        yanked_all(p, clippings.drop_last()).yanked(AddressView::Numeric(0), clippings.last())
    }
}

/// The numeric registers are a first-in-first-out queue: after any number of yanks into `"0`, the
/// last clipping is in `"0`, the one before it in `"1`, and so on; what was there before follows.
pub proof fn law_numeric_registers_are_a_queue(p: PincerView, clippings: Seq<Contents>, i: int)
    requires
        p.wf(),
        0 <= i < N_NUMERIC,
    ensures
        yanked_all(p, clippings).wf(),
        yanked_all(p, clippings).register(AddressView::Numeric(i)) == (if i < clippings.len() {
            clippings[clippings.len() - 1 - i]
        } else {
            p.register(AddressView::Numeric(i - clippings.len()))
        }),
        yanked_all(p, clippings).named == p.named,
    decreases clippings.len(),
{
    if clippings.len() > 0 {
        let before = yanked_all(p, clippings.drop_last());
        law_numeric_registers_are_a_queue(p, clippings.drop_last(), i);
        if i > 0 {
            law_numeric_registers_are_a_queue(p, clippings.drop_last(), i - 1);
        }
        law_yank_pushes_queue(before, clippings.last());
    }
}

/// Whatever is copied goes in `"0`. What was copied before is pushed to the next higher register,
/// except where the register pointer is set to that register.
pub proof fn law_copy_goes_in_first_register(p: PincerView, contents: Contents, i: int)
    requires
        p.wf(),
        0 < i < N_NUMERIC,
    ensures
        p.clipped(contents).register(AddressView::Numeric(0)) == contents,
        p.active != Some(AddressView::Numeric(i)) ==> p.clipped(contents).register(
            AddressView::Numeric(i),
        ) == p.register(AddressView::Numeric(i - 1)),
{
}

/// If the register pointer is set, whatever is copied is also stored in the register it is set
/// to. No other named register changes.
pub proof fn law_copy_also_goes_in_active_register(p: PincerView, contents: Contents, n: int)
    requires
        p.wf(),
        AddressView::Named(n).valid(),
    ensures
        p.active matches Some(addr) ==> p.clipped(contents).register(addr) == contents,
        p.active != Some(AddressView::Named(n)) ==> p.clipped(contents).register(
            AddressView::Named(n),
        ) == p.register(AddressView::Named(n)),
{
}

/// A Pincer after several copies.
pub open spec fn clipped_all(p: PincerView, clippings: Seq<Contents>) -> PincerView
    decreases clippings.len(),
{
    if clippings.len() == 0 {
        p
    } else {
        clipped_all(p, clippings.drop_last()).clipped(clippings.last())
    }
}

/// Copies queue up in the numeric registers the way yanks into `"0` do, unless the register
/// pointer is set to one of the registers `"1` through `"9`.
pub proof fn law_copies_are_a_queue(p: PincerView, clippings: Seq<Contents>)
    requires
        p.wf(),
        p.active matches Some(AddressView::Numeric(n)) ==> n == 0,
    ensures
        clipped_all(p, clippings).numeric == yanked_all(p, clippings).numeric,
        clipped_all(p, clippings).active == p.active,
        clipped_all(p, clippings).wf(),
    decreases clippings.len(),
{
    if clippings.len() > 0 {
        let before = clipped_all(p, clippings.drop_last());
        law_copies_are_a_queue(p, clippings.drop_last());
        law_numeric_registers_are_a_queue(p, clippings.drop_last(), 0);
        law_yank_pushes_queue(before, clippings.last());
        law_yank_pushes_queue(yanked_all(p, clippings.drop_last()), clippings.last());
        assert(clipped_all(p, clippings).numeric =~= yanked_all(p, clippings).numeric);
    }
}

/// With no register pointer set, copying is a yank into `"0`.
pub proof fn law_copy_without_pointer_is_a_yank(p: PincerView, contents: Contents)
    requires
        p.active is None,
    ensures
        p.clipped(contents) == p.yanked(p.selected(), contents),
{
}

/// What was just copied is what the next paste reads, wherever the register pointer is.
pub proof fn law_copy_then_paste(p: PincerView, contents: Contents)
    requires
        p.wf(),
    ensures
        p.clipped(contents).register(p.clipped(contents).selected()) == contents,
{
}

/// The register pointer chooses which register is read, and setting it changes no register.
pub proof fn law_pointer_selects(p: PincerView, addr: AddressView, other: AddressView)
    ensures
        p.with_active(Some(addr)).selected() == addr,
        p.with_active(None).selected() == AddressView::Numeric(0),
        p.with_active(Some(addr)).register(other) == p.register(other),
        p.with_active(None).register(other) == p.register(other),
{
}

/// Once the register pointer is set, the next copy goes to that register and the next paste reads
/// it from there.
pub proof fn law_select_then_copy_then_paste(p: PincerView, addr: AddressView, contents: Contents)
    requires
        p.wf(),
        addr.valid(),
    ensures
        ({
            let q = p.with_active(Some(addr)).clipped(contents);
            q.selected() == addr && q.register(addr) == contents
        }),
{
}

/// A register is listed if and only if it holds something, with the summary of what it holds.
pub proof fn law_listing_shows_what_is_held(p: PincerView, addr: AddressView, s: SummaryView)
    requires
        p.wf(),
        addr.valid(),
    ensures
        p.listing().contains((addr, s)) <==> !p.register(addr).is_empty() && s == summary(
            p.register(addr),
        ),
{
    lemma_listing_of(p, n_registers(), addr, s);
}

/// The addresses in a listing ascend, so that none is listed twice.
pub proof fn law_listing_ascends(p: PincerView, i: int, j: int)
    requires
        0 <= i < j < p.listing().len(),
    ensures
        p.listing()[i].0.rank() < p.listing()[j].0.rank(),
{
    lemma_listing_ascends(p, n_registers(), i, j);
}

proof fn lemma_listing_of(p: PincerView, k: int, addr: AddressView, s: SummaryView)
    requires
        p.wf(),
        0 <= k <= n_registers(),
        addr.valid(),
    ensures
        p.listing_of(k).contains((addr, s)) <==> addr.rank() < k && !p.register(addr).is_empty()
            && s == summary(p.register(addr)),
    decreases k,
{
    if k > 0 {
        lemma_listing_of(p, k - 1, addr, s);
        let before = p.listing_of(k - 1);
        let a = AddressView::nth(k - 1);
        if !p.register(a).is_empty() {
            let e = (a, summary(p.register(a)));
            let after = p.listing_of(k);
            assert(after == before.push(e));
            assert(after[before.len() as int] == e);
            if before.contains((addr, s)) {
                let i = before.index_of((addr, s));
                assert(after[i] == (addr, s));
            }
        }
    }
}

proof fn lemma_listing_ascends(p: PincerView, k: int, i: int, j: int)
    requires
        0 <= k <= n_registers(),
        0 <= i < p.listing_of(k).len(),
    ensures
        0 <= p.listing_of(k)[i].0.rank() < k,
        i < j < p.listing_of(k).len() ==> p.listing_of(k)[i].0.rank() < p.listing_of(
            k,
        )[j].0.rank(),
    decreases k,
{
    if k > 0 {
        let before = p.listing_of(k - 1);
        if i < before.len() {
            lemma_listing_ascends(p, k - 1, i, j);
        }
    }
}

/// What a request yanks into a register is what the next request shows of it.
pub proof fn law_yank_request_then_show(
    addr: Option<RegisterAddress>,
    reg: Register,
    p: PincerView,
    q: PincerView,
    after: PincerView,
    yank: Response,
    show: Response,
)
    requires
        p.wf(),
        AddressView::or_default(view_option(addr)).valid(),
        answers(RequestType::Yank(addr, reg), p, q, yank),
        answers(RequestType::Show(addr), q, after, show),
    ensures
        show matches Ok(ResponseType::Show(of, shown)) && shown@ == reg@ && of@
            == AddressView::or_default(view_option(addr)),
{
    law_yank_then_read(p, AddressView::or_default(view_option(addr)), reg@);
}

/// What a request yanks into a register, the next request pastes from it, if it asks for a MIME
/// type that was yanked. It is refused otherwise.
pub proof fn law_yank_request_then_paste(
    addr: Option<RegisterAddress>,
    reg: Register,
    mime: MimeType,
    p: PincerView,
    q: PincerView,
    after: PincerView,
    yank: Response,
    paste: Response,
)
    requires
        p.wf(),
        AddressView::or_default(view_option(addr)).valid(),
        answers(RequestType::Yank(addr, reg), p, q, yank),
        answers(RequestType::Paste(addr, mime), q, after, paste),
    ensures
        match reg@.get(mime@) {
            Some(held) => paste matches Ok(ResponseType::Paste(_, data)) && data@ == held,
            None => paste matches Err(e) && e@ == missing_mime_text(
                AddressView::or_default(view_option(addr)),
                mime@,
            ),
        },
{
    law_yank_then_read(p, AddressView::or_default(view_option(addr)), reg@);
}

/// After a register is selected it is the active one. After the register pointer is cleared, `"0`
/// is.
pub proof fn law_select_then_active(
    command: RegisterCommand,
    p: PincerView,
    q: PincerView,
    after: PincerView,
    first: Response,
    second: Response,
)
    requires
        answers(RequestType::Register(command), p, q, first),
        answers(RequestType::Register(RegisterCommand::Active {  }), q, after, second),
    ensures
        second matches Ok(ResponseType::Register(a)) && a@ == (match command {
            RegisterCommand::Select { address } => address@,
            RegisterCommand::Active {  } => p.selected(),
            RegisterCommand::Clear {  } => AddressView::Numeric(0),
        }),
        first matches Ok(ResponseType::Register(b)) && second matches Ok(ResponseType::Register(a))
            && a@ == b@,
{
}

/// Only a yank changes registers, and only a yank, a selection and a clearing change anything.
pub proof fn law_reading_changes_nothing(
    req: RequestType,
    p: PincerView,
    q: PincerView,
    resp: Response,
)
    requires
        answers(req, p, q, resp),
    ensures
        !(req is Yank) ==> q.numeric == p.numeric && q.named == p.named,
        !(req is Yank) && !(req is Register) ==> q == p,
        req matches RequestType::Register(command) && command is Active ==> q == p,
        resp is Err ==> q == p,
{
}

/// A request is only ever answered for a seat that is managed. It adds no seat, takes none away,
/// and leaves every other seat as it is.
pub proof fn law_request_touches_one_seat(
    seat: SeatSpecification,
    pincers: Dict<Seq<char>, PincerView>,
    after: PincerView,
    other: Seq<char>,
)
    requires
        pincers.wf(),
        addressee(seat, pincers) is Some,
        other != addressee(seat, pincers)->0,
    ensures
        pincers.map.contains_key(addressee(seat, pincers)->0),
        pincers.put(addressee(seat, pincers)->0, after).keys == pincers.keys,
        pincers.put(addressee(seat, pincers)->0, after).get(other) == pincers.get(other),
{
    let s = addressee(seat, pincers)->0;
    assert(pincers.keys.contains(s));
}

/// Where any seat is managed, a request that names no seat is answered.
pub proof fn law_some_seat_answers(pincers: Dict<Seq<char>, PincerView>)
    requires
        pincers.wf(),
    ensures
        addressee(SeatSpecification::Unspecified, pincers) is Some <==> exists|name: Seq<char>| #[trigger]
            pincers.map.contains_key(name),
{
    if pincers.keys.len() > 0 {
        assert(pincers.keys.contains(pincers.keys[0]));
        assert(pincers.map.contains_key(pincers.keys[0]));
    }
    if exists|name: Seq<char>| #[trigger] pincers.map.contains_key(name) {
        let name = choose|name: Seq<char>| #[trigger] pincers.map.contains_key(name);
        assert(pincers.keys.contains(name));
    }
}

/// What is copied on a seat is what other clients get when they paste on it.
pub proof fn law_copied_on_seat_is_sent(
    clip: ClipboardView,
    pincers: Dict<Seq<char>, PincerView>,
    seat: SeatId,
    name: Seq<char>,
    contents: Contents,
)
    requires
        clip.name_of(seat) == Some(name),
        pincers.map.contains_key(name),
        pincers.map[name].wf(),
    ensures
        ({
            let after = pincers.put(name, pincers.map[name].clipped(contents));
            &&& after.get(name) is Some
            &&& after.map[name].register(after.map[name].selected()) == contents
        }),
{
    law_copy_then_paste(pincers.map[name], contents);
}

/// Once a seat has told its name, it is known by it and no other seat is affected.
pub proof fn law_seat_keeps_its_name(
    clip: ClipboardView,
    seat: SeatId,
    name: Seq<char>,
    other: SeatId,
)
    requires
        clip.seats.map.contains_key(seat),
        other != seat,
    ensures
        ({
            let after = clip.with_seat(seat, SeatView { name: Some(name), ..clip.seats.map[seat] });
            &&& after.name_of(seat) == Some(name)
            &&& after.name_of(other) == clip.name_of(other)
            &&& after.offer_of(seat) == clip.offer_of(seat)
        }),
{
}

/// A seat is forgotten if and only if it has the numeric name that disappeared.
pub proof fn law_removed_seats_are_forgotten(
    seats: Dict<SeatId, SeatView>,
    name: u32,
    seat: SeatId,
)
    requires
        seats.wf(),
    ensures
        seats_not_called(seats, name).wf(),
        seats_not_called(seats, name).get(seat) == (match seats.get(seat) {
            Some(data) => if data.numeric_name == name {
                None
            } else {
                Some(data)
            },
            None => None,
        }),
        seat_called(seats_not_called(seats, name), name, 0) is None,
{
    let keep = |k: SeatId| seats.map[k].numeric_name != name;
    let after = seats_not_called(seats, name);
    lemma_filter_no_duplicates(seats.keys, keep);
    assert forall|k: SeatId| after.keys.contains(k) <==> after.map.contains_key(k) by {
        if after.keys.contains(k) {
            seats.keys.lemma_filter_pred(keep, after.keys.index_of(k));
            seats.keys.lemma_filter_contains_rev(keep, k);
        }
        if after.map.contains_key(k) {
            assert(seats.keys.contains(k));
            seats.keys.lemma_filter_contains(keep, seats.keys.index_of(k));
        }
    }
    assert forall|i: int| 0 <= i < after.keys.len() implies after.map[#[trigger] after.keys[i]].numeric_name
        != name by {
        assert(after.keys.contains(after.keys[i]));
    }
    lemma_no_seat_called(after, name, 0);
}

proof fn lemma_no_seat_called(seats: Dict<SeatId, SeatView>, name: u32, i: int)
    requires
        0 <= i <= seats.keys.len(),
        forall|j: int|
            0 <= j < seats.keys.len() ==> seats.map[#[trigger] seats.keys[j]].numeric_name != name,
    ensures
        seat_called(seats, name, i) is None,
    decreases seats.keys.len() - i,
{
    if i < seats.keys.len() {
        lemma_no_seat_called(seats, name, i + 1);
    }
}

proof fn lemma_filter_no_duplicates<A>(s: Seq<A>, keep: spec_fn(A) -> bool)
    requires
        s.no_duplicates(),
    ensures
        s.filter(keep).no_duplicates(),
    decreases s.len(),
{
    reveal(Seq::filter);
    if s.len() > 0 {
        let before = s.drop_last();
        lemma_filter_no_duplicates(before, keep);
        if before.filter(keep).contains(s.last()) {
            before.lemma_filter_contains_rev(keep, s.last());
            let i = before.index_of(s.last());
            assert(s[i] == s[s.len() - 1]);
        }
        let after = s.filter(keep);
        assert forall|i: int, j: int|
            0 <= i < after.len() && 0 <= j < after.len() && i != j implies after[i] != after[j] by {
            if i < before.filter(keep).len() {
                assert(before.filter(keep).contains(before.filter(keep)[i]));
            }
            if j < before.filter(keep).len() {
                assert(before.filter(keep).contains(before.filter(keep)[j]));
            }
        }
    }
}

/// A seat that disappeared is not managed any more. Every other seat is managed as before.
pub proof fn law_removed_seat_is_not_managed(
    pincers: Dict<Seq<char>, PincerView>,
    name: Seq<char>,
    other: Seq<char>,
)
    requires
        pincers.wf(),
        other != name,
    ensures
        pincers.without(name).get(name) is None,
        pincers.without(name).get(other) == pincers.get(other),
        pincers.without(name).wf(),
{
    pincers.lemma_without_wf(name);
}

/// After a selection is set on a seat, the seat has the offer that was selected, and the previous
/// offer is forgotten.
pub proof fn law_selection_replaces_offer(
    clip: ClipboardView,
    seat: SeatId,
    offer: Option<OfferId>,
    other: SeatId,
)
    requires
        clip.wf(),
        clip.seats.map.contains_key(seat),
        other != seat,
    ensures
        ({
            let data = SeatView {
                clipboard_state: ClipboardState::selected(offer),
                ..clip.seats.map[seat]
            };
            let after = clip.without_offer(clip.offer_of(seat)).with_seat(seat, data);
            &&& after.wf()
            &&& after.offer_of(seat) == offer
            &&& after.offer_of(other) == clip.offer_of(other)
            &&& clip.offer_of(seat) matches Some(previous) ==> after.offers.get(previous) is None
        }),
{
    let data = SeatView {
        clipboard_state: ClipboardState::selected(offer),
        ..clip.seats.map[seat]
    };
    clip.seats.lemma_put_wf(seat, data);
    if let Some(previous) = clip.offer_of(seat) {
        clip.offers.lemma_without_wf(previous);
    }
}

/// A selection is waiting to be read if and only if some seat has that name and that offer.
pub proof fn law_selections_are_those_of_seats(
    seats: Dict<SeatId, SeatView>,
    name: Seq<char>,
    offer: OfferId,
)
    requires
        seats.wf(),
    ensures
        selections_of(seats, seats.keys.len() as int).contains((name, offer)) <==> exists|seat: SeatId|
            #![trigger seats.map[seat]]
            seats.map.contains_key(seat) && seats.map[seat].name == Some(name)
                && seats.map[seat].clipboard_state.offered() == Some(offer),
{
    lemma_selections_of(seats, seats.keys.len() as int, name, offer);
    if exists|i: int| 0 <= i < seats.keys.len() && #[trigger] offers_selection(seats, i, name, offer) {
        let i = choose|i: int|
            0 <= i < seats.keys.len() && #[trigger] offers_selection(seats, i, name, offer);
        assert(seats.keys.contains(seats.keys[i]));
    }
    if exists|seat: SeatId|
        #![trigger seats.map[seat]]
        seats.map.contains_key(seat) && seats.map[seat].name == Some(name)
            && seats.map[seat].clipboard_state.offered() == Some(offer) {
        let seat = choose|seat: SeatId|
            #![trigger seats.map[seat]]
            seats.map.contains_key(seat) && seats.map[seat].name == Some(name)
                && seats.map[seat].clipboard_state.offered() == Some(offer);
        assert(seats.keys.contains(seat));
        assert(offers_selection(seats, seats.keys.index_of(seat), name, offer));
    }
}

spec fn offers_selection(
    seats: Dict<SeatId, SeatView>,
    i: int,
    name: Seq<char>,
    offer: OfferId,
) -> bool {
    let seat = seats.map[seats.keys[i]];
    seat.name == Some(name) && seat.clipboard_state.offered() == Some(offer)
}

proof fn lemma_selections_of(
    seats: Dict<SeatId, SeatView>,
    k: int,
    name: Seq<char>,
    offer: OfferId,
)
    requires
        0 <= k <= seats.keys.len(),
    ensures
        selections_of(seats, k).contains((name, offer)) <==> exists|i: int|
            0 <= i < k && #[trigger] offers_selection(seats, i, name, offer),
    decreases k,
{
    if k > 0 {
        lemma_selections_of(seats, k - 1, name, offer);
        let before = selections_of(seats, k - 1);
        let after = selections_of(seats, k);
        if before.contains((name, offer)) {
            let i = before.index_of((name, offer));
            assert(after[i] == (name, offer));
        }
        if offers_selection(seats, k - 1, name, offer) {
            assert(after[before.len() as int] == (name, offer));
        }
    }
}

/// All selections are kept if and only if every one of them is of a known offer and on a managed
/// seat. No seat is added or taken away.
pub proof fn law_grab_succeeds(
    clip: ClipboardView,
    pincers: Dict<Seq<char>, PincerView>,
    copied: Seq<(SeatIdentifier, OfferId, Register)>,
    i: int,
)
    requires
        pincers.wf(),
        0 <= i <= copied.len(),
    ensures
        grabbed(clip, pincers, copied, i).1 is Ok <==> forall|j: int|
            i <= j < copied.len() ==> clip.offers.map.contains_key(#[trigger] copied[j].1)
                && pincers.map.contains_key(copied[j].0@),
        grabbed(clip, pincers, copied, i).0.keys == pincers.keys,
        grabbed(clip, pincers, copied, i).0.wf(),
    decreases copied.len() - i,
{
    if i < copied.len() {
        let (seat, offer, contents) = copied[i];
        if clip.offers.map.contains_key(offer) && pincers.map.contains_key(seat@) {
            let next = pincers.put(seat@, pincers.map[seat@].clipped(contents@));
            assert(pincers.keys.contains(seat@));
            pincers.lemma_put_wf(seat@, pincers.map[seat@].clipped(contents@));
            assert(next.map.dom() =~= pincers.map.dom());
            law_grab_succeeds(clip, next, copied, i + 1);
            assert(grabbed(clip, pincers, copied, i) == grabbed(clip, next, copied, i + 1));
            if grabbed(clip, next, copied, i + 1).1 is Ok {
                assert forall|j: int| i <= j < copied.len() implies clip.offers.map.contains_key(
                    #[trigger] copied[j].1,
                ) && pincers.map.contains_key(copied[j].0@) by {
                    if j > i {
                        assert(clip.offers.map.contains_key(copied[j].1));
                        assert(next.map.contains_key(copied[j].0@));
                    }
                }
            } else {
                let j = choose|j: int|
                    i + 1 <= j < copied.len() && !(clip.offers.map.contains_key(
                        #[trigger] copied[j].1,
                    ) && next.map.contains_key(copied[j].0@));
                assert(i <= j < copied.len() && !(clip.offers.map.contains_key(copied[j].1)
                    && pincers.map.contains_key(copied[j].0@)));
            }
        } else {
            assert(grabbed(clip, pincers, copied, i).1 is Err);
            assert(!(clip.offers.map.contains_key(copied[i].1) && pincers.map.contains_key(
                copied[i].0@,
            )));
        }
    }
}

} // verus!
