use vstd::prelude::*;

use crate::address::{n_registers, AddressView};
use crate::behaviour::pincer::meant;
use crate::behaviour::register::law_dictionary_is_read_by_its_map;
use crate::daemon::{
    accept_step, answers, execute_request, handle_request, listen_step, AcceptEvent, AcceptStep,
    ListenEvent, ListenStep, ReceiveFault, RegisterCommand, Request, RequestType, Response,
    ResponseType,
};
use crate::laws::{law_listing_ascends, law_listing_shows_what_is_held};
use crate::pincer::{missing_mime_text, view_listing, Pincer, PincerView, SeatPincerMap};
use crate::register::{
    bytes_in, summary, MimeType, Register, RegisterAddress, RegisterSummary,
};
use crate::seat::{SeatIdentifier, SeatSpecification};
use crate::text::quoted;

verus! {

/// Every request to a Pincer is answered in one way, which also fixes the state it is left in.
pub proof fn law_requests_are_answered(req: RequestType, p: &mut Pincer, r: Response)
    requires
        call_ensures(execute_request, (req, p), r),
    ensures
        answers(req, old(p)@, final(p)@, r),
{
}

/// A yank request succeeds, and names the register and the number of bytes. The register then holds
/// what came with the request.
pub proof fn law_yank_request_fills_its_register(
    addr: Option<RegisterAddress>,
    reg: Register,
    before: PincerView,
    after: PincerView,
    r: Response,
)
    requires
        before.wf(),
        meant(addr).valid(),
        answers(RequestType::Yank(addr, reg), before, after, r),
    ensures
        after.wf(),
        after.active == before.active,
        match meant(addr) {
            AddressView::Numeric(n) => after.numeric[n] == reg@,
            AddressView::Named(n) => after.named[n] == reg@,
        },
        r matches Ok(ResponseType::Yank(to, _)) && to@ == meant(addr),
{
}

/// A yank request to a named register leaves every other register as it was, numeric or named.
pub proof fn law_yank_request_to_named_register_touches_no_other(
    addr: RegisterAddress,
    reg: Register,
    before: PincerView,
    after: PincerView,
    r: Response,
    other: int,
)
    requires
        before.wf(),
        addr@ is Named,
        addr@.valid(),
        answers(RequestType::Yank(Some(addr), reg), before, after, r),
    ensures
        after.numeric == before.numeric,
        0 <= other < 26 && addr@ != AddressView::Named(other) ==> after.named[other]
            == before.named[other],
        after.active == before.active,
{
}

/// A yank request to a numeric register leaves the named registers as they were. Every other
/// numeric register then holds what the register below it held, and `"0` what `"9` held.
pub proof fn law_yank_request_to_numeric_register_pushes_the_others(
    addr: Option<RegisterAddress>,
    reg: Register,
    before: PincerView,
    after: PincerView,
    r: Response,
    other: int,
)
    requires
        before.wf(),
        meant(addr) is Numeric,
        meant(addr).valid(),
        answers(RequestType::Yank(addr, reg), before, after, r),
    ensures
        after.named == before.named,
        0 < other < 10 && meant(addr) != AddressView::Numeric(other) ==> after.numeric[other]
            == before.numeric[other - 1],
        meant(addr) != AddressView::Numeric(0) ==> after.numeric[0] == before.numeric[9],
        after.active == before.active,
{
}

/// A list request is answered with a list, and changes nothing.
pub proof fn law_list_request_is_answered(before: PincerView, after: PincerView, r: Response)
    requires
        answers(RequestType::List(), before, after, r),
    ensures
        after == before,
        r matches Ok(ResponseType::List(_)),
{
}

/// The answer to a list request has an entry for a register, numeric or named, if and only if the
/// register holds something.
pub proof fn law_list_request_lists_every_register_in_use(
    before: PincerView,
    after: PincerView,
    list: Vec<(RegisterAddress, RegisterSummary)>,
    addr: AddressView,
)
    requires
        before.wf(),
        addr.valid(),
        before.register(addr).wf(),
        answers(RequestType::List(), before, after, Ok(ResponseType::List(list))),
    ensures
        (exists|i: int| 0 <= i < list@.len() && (#[trigger] list@[i]).0@ == addr) <==> (exists|
            mime: Seq<char>,
        | #[trigger]
            before.register(addr).map.contains_key(mime)),
{
    let seen = before.listing();
    let held = before.register(addr);
    law_dictionary_is_read_by_its_map(held, Seq::<char>::empty());
    lemma_listed(before, list@);
    if exists|mime: Seq<char>| #[trigger] held.map.contains_key(mime) {
        let e = (addr, summary(held));
        law_listing_shows_what_is_held(before, addr, summary(held));
        let i = seen.index_of(e);
        assert(list@[i].0@ == addr);
    }
    if exists|i: int| 0 <= i < list@.len() && (#[trigger] list@[i]).0@ == addr {
        let i = choose|i: int| 0 <= i < list@.len() && (#[trigger] list@[i]).0@ == addr;
        law_listing_shows_what_is_held(before, addr, list@[i].1@);
        assert(seen[i] == (addr, list@[i].1@));
        assert(!held.is_empty());
    }
}

/// An entry in the answer to a list request is that of a register, and shows the summary of what
/// the register holds.
pub proof fn law_list_request_summarizes(
    before: PincerView,
    after: PincerView,
    list: Vec<(RegisterAddress, RegisterSummary)>,
    i: int,
)
    requires
        before.wf(),
        0 <= i < list@.len(),
        answers(RequestType::List(), before, after, Ok(ResponseType::List(list))),
    ensures
        list@[i].0@.valid(),
        list@[i].1@ == summary(before.register(list@[i].0@)),
{
    let seen = before.listing();
    lemma_listed(before, list@);
    lemma_listed_are_valid(before, n_registers(), i);
    law_listing_shows_what_is_held(before, list@[i].0@, list@[i].1@);
    assert(seen.contains(seen[i]));
}

/// In the answer to a list request numeric registers come before named ones, and both in ascending
/// order. No register is listed twice.
pub proof fn law_list_request_ascends(
    before: PincerView,
    after: PincerView,
    list: Vec<(RegisterAddress, RegisterSummary)>,
    i: int,
    j: int,
)
    requires
        0 <= i < j < list@.len(),
        answers(RequestType::List(), before, after, Ok(ResponseType::List(list))),
    ensures
        match (list@[i].0@, list@[j].0@) {
            (AddressView::Numeric(a), AddressView::Numeric(b)) => a < b,
            (AddressView::Named(a), AddressView::Named(b)) => a < b,
            (AddressView::Numeric(_), AddressView::Named(_)) => true,
            (AddressView::Named(_), AddressView::Numeric(_)) => false,
        },
        list@[i].0@ != list@[j].0@,
{
    lemma_listed(before, list@);
    law_listing_ascends(before, i, j);
    lemma_listed_are_valid(before, n_registers(), i);
    lemma_listed_are_valid(before, n_registers(), j);
}

proof fn lemma_listed(p: PincerView, list: Seq<(RegisterAddress, RegisterSummary)>)
    requires
        view_listing(list) == p.listing(),
    ensures
        p.listing().len() == list.len(),
        forall|i: int|
            0 <= i < list.len() ==> p.listing()[i] == ((#[trigger] list[i]).0@, list[i].1@),
{
    assert forall|i: int| 0 <= i < list.len() implies p.listing()[i] == (
        (#[trigger] list[i]).0@,
        list[i].1@,
    ) by {
        assert(view_listing(list)[i] == (list[i].0@, list[i].1@));
    }
}

proof fn lemma_listed_are_valid(p: PincerView, k: int, i: int)
    requires
        0 <= k <= n_registers(),
        0 <= i < p.listing_of(k).len(),
    ensures
        p.listing_of(k)[i].0.valid(),
    decreases k,
{
    if k > 0 && i < p.listing_of(k - 1).len() {
        lemma_listed_are_valid(p, k - 1, i);
    }
}

/// A yank request is told the number of bytes that came with it.
pub proof fn law_yank_request_counts_bytes(
    addr: Option<RegisterAddress>,
    reg: Register,
    before: PincerView,
    after: PincerView,
    to: RegisterAddress,
    n: usize,
)
    requires
        answers(RequestType::Yank(addr, reg), before, after, Ok(ResponseType::Yank(to, n))),
    ensures
        n == bytes_in(reg@),
{
}

/// A paste request is answered with the data that the register holds under the MIME type, byte for
/// byte. It is refused if and only if there is none. Nothing changes.
pub proof fn law_paste_request_gives_what_is_held(
    addr: Option<RegisterAddress>,
    mime: MimeType,
    before: PincerView,
    after: PincerView,
    r: Response,
)
    requires
        answers(RequestType::Paste(addr, mime), before, after, r),
    ensures
        after == before,
        ({
            let held = match meant(addr) {
                AddressView::Numeric(n) => before.numeric[n],
                AddressView::Named(n) => before.named[n],
            };
            &&& held.map.contains_key(mime@) ==> (r matches Ok(ResponseType::Paste(from, data))
                && from@ == meant(addr) && data@ == held.map[mime@])
            &&& !held.map.contains_key(mime@) ==> (r matches Err(e) && e@ == missing_mime_text(
                meant(addr),
                mime@,
            ))
        }),
{
}

/// A show request is answered with the register and all it holds. Nothing changes.
pub proof fn law_show_request_gives_the_register(
    addr: Option<RegisterAddress>,
    before: PincerView,
    after: PincerView,
    r: Response,
)
    requires
        answers(RequestType::Show(addr), before, after, r),
    ensures
        after == before,
        r matches Ok(ResponseType::Show(of, reg)) && of@ == meant(addr) && reg@ == (match meant(
            addr,
        ) {
            AddressView::Numeric(n) => before.numeric[n],
            AddressView::Named(n) => before.named[n],
        }),
{
}

/// A request on the register pointer changes no register. It is answered with the address that is
/// active afterwards.
pub proof fn law_pointer_requests(
    command: RegisterCommand,
    before: PincerView,
    after: PincerView,
    r: Response,
)
    requires
        answers(RequestType::Register(command), before, after, r),
    ensures
        after.numeric == before.numeric,
        after.named == before.named,
        after.active == (match command {
            RegisterCommand::Select { address } => Some(address@),
            RegisterCommand::Active {  } => before.active,
            RegisterCommand::Clear {  } => None,
        }),
        r matches Ok(ResponseType::Register(a)) && a@ == (match after.active {
            Some(addr) => addr,
            None => AddressView::Numeric(0),
        }),
{
}

/// A request that yanks leaves a Pincer with a register for every address, as every request does.
pub proof fn law_requests_keep_registers(
    req: RequestType,
    before: PincerView,
    after: PincerView,
    r: Response,
)
    requires
        before.wf(),
        req matches RequestType::Yank(addr, _) ==> meant(addr).valid(),
        req matches RequestType::Register(RegisterCommand::Select { address }) ==> address@.valid(),
        answers(req, before, after, r),
    ensures
        after.wf(),
{
}

/// What is yanked into a named register by one request is not what the next one pastes from any
/// other register: that one gives what it gave before.
pub proof fn law_yank_request_changes_no_other_paste(
    addr: RegisterAddress,
    reg: Register,
    other: Option<RegisterAddress>,
    mime: MimeType,
    p: PincerView,
    q: PincerView,
    yank: Response,
    before: Response,
    after: Response,
    end: PincerView,
)
    requires
        p.wf(),
        addr@ is Named,
        addr@.valid(),
        meant(other).valid(),
        meant(other) != addr@,
        answers(RequestType::Paste(other, mime), p, p, before),
        answers(RequestType::Yank(Some(addr), reg), p, q, yank),
        answers(RequestType::Paste(other, mime), q, end, after),
    ensures
        before is Ok <==> after is Ok,
        before matches Ok(ResponseType::Paste(_, d)) ==> (after matches Ok(
            ResponseType::Paste(_, e),
        ) && e@ == d@),
{
}

/// Any request can be made whose data can be counted.
pub proof fn law_any_request_can_be_made(
    req: RequestType,
    p: &mut Pincer,
    seat: SeatSpecification,
    pincers: &mut SeatPincerMap,
)
    ensures
        !(req is Yank) ==> call_requires(execute_request, (req, p)),
        !(req is Yank) ==> call_requires(handle_request, (Request { seat, request: req }, pincers)),
        req matches RequestType::Yank(_, reg) ==> bytes_in(reg@) <= usize::MAX ==> call_requires(
            execute_request,
            (req, p),
        ),
        req matches RequestType::Yank(_, reg) ==> bytes_in(reg@) <= usize::MAX ==> call_requires(
            handle_request,
            (Request { seat, request: req }, pincers),
        ),
{
}

/// A request that names a seat is answered by that seat's Pincer. No other seat changes, and none
/// comes or goes.
pub proof fn law_named_seat_answers(
    name: SeatIdentifier,
    req: RequestType,
    pincers: &mut SeatPincerMap,
    r: Response,
    other: Seq<char>,
)
    requires
        old(pincers)@.wf(),
        old(pincers)@.map.contains_key(name@),
        call_ensures(
            handle_request,
            (Request { seat: SeatSpecification::Specified(name), request: req }, pincers),
            r,
        ),
    ensures
        answers(req, old(pincers)@.map[name@], final(pincers)@.map[name@], r),
        final(pincers)@.keys == old(pincers)@.keys,
        final(pincers)@.map.contains_key(other) == old(pincers)@.map.contains_key(other),
        other != name@ ==> final(pincers)@.map[other] == old(pincers)@.map[other],
{
    assert(old(pincers)@.keys.contains(name@));
}

/// A request that names no seat is answered by the Pincer of the first one. No other seat changes,
/// and none comes or goes.
pub proof fn law_first_seat_answers(
    req: RequestType,
    pincers: &mut SeatPincerMap,
    r: Response,
    other: Seq<char>,
)
    requires
        old(pincers)@.wf(),
        old(pincers)@.keys.len() > 0,
        call_ensures(
            handle_request,
            (Request { seat: SeatSpecification::Unspecified, request: req }, pincers),
            r,
        ),
    ensures
        answers(
            req,
            old(pincers)@.map[old(pincers)@.keys[0]],
            final(pincers)@.map[old(pincers)@.keys[0]],
            r,
        ),
        final(pincers)@.keys == old(pincers)@.keys,
        final(pincers)@.map.contains_key(other) == old(pincers)@.map.contains_key(other),
        other != old(pincers)@.keys[0] ==> final(pincers)@.map[other] == old(pincers)@.map[other],
{
    assert(old(pincers)@.keys.contains(old(pincers)@.keys[0]));
}

/// A request for a seat that is not managed is refused, and changes nothing.
pub proof fn law_unmanaged_seat_is_refused(req: Request, pincers: &mut SeatPincerMap, r: Response)
    requires
        call_ensures(handle_request, (req, pincers), r),
        match req.seat {
            SeatSpecification::Unspecified => old(pincers)@.keys.len() == 0,
            SeatSpecification::Specified(name) => !old(pincers)@.map.contains_key(name@),
        },
    ensures
        final(pincers)@ == old(pincers)@,
        r matches Err(e) && e@ == "Received request for seat "@ + (match req.seat {
            SeatSpecification::Unspecified => "Unspecified"@,
            SeatSpecification::Specified(name) => "Specified("@ + quoted(name@) + ")"@,
        }) + ", but its clipboard is not managed by this daemon"@,
{
}

/// A daemon that listens serves every client, and stops only when it is told to or when no
/// connection can be accepted, which it reports.
pub proof fn law_daemon_serves_until_stopped(event: ListenEvent, r: ListenStep)
    requires
        call_ensures(listen_step, (event,), r),
    ensures
        event is Connected ==> r is Serve,
        event is Cancelled ==> r is Stop,
        event is Failed ==> r is Abort,
{
}

/// A request that arrives is handled. A client that is gone, and the end of the daemon, are no
/// errors. Anything else is.
pub proof fn law_connections_are_served(event: AcceptEvent, r: AcceptStep)
    requires
        call_ensures(accept_step, (event,), r),
    ensures
        event is Received ==> r is Handle,
        event is Cancelled ==> r is Close,
        event == AcceptEvent::Fault(ReceiveFault::TimedOut) ==> r is Close,
        event == AcceptEvent::Fault(ReceiveFault::ConnectionReset) ==> r is Close,
        event == AcceptEvent::Fault(ReceiveFault::ConnectionAborted) ==> r is Close,
        event == AcceptEvent::Fault(ReceiveFault::InvalidData) ==> r is Fail,
        event == AcceptEvent::Fault(ReceiveFault::Other) ==> r is Fail,
{
}

} // verus!
