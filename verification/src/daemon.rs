use vstd::prelude::*;
use vstd::string::*;

use crate::address::{view_option, AddressView};
use crate::assoc::Dict;
use crate::error::Error;
use crate::pincer::{missing_mime_text, view_listing, Pincer, PincerView, SeatPincerMap};
use crate::register::{bytes_in, DataBuffer, MimeType, Register, RegisterAddress, RegisterSummary};
use crate::seat::SeatSpecification;

verus! {

/// Commands that manipulate the register pointer
#[derive(Debug)]
pub enum RegisterCommand {
    /// Set the register pointer
    Select { address: RegisterAddress },
    /// Tell which register is active
    Active {  },
    /// Unset the register pointer
    Clear {  },
}

#[derive(Debug)]
pub struct Request {
    pub seat: SeatSpecification,
    pub request: RequestType,
}

/// Possible requests to the daemon
#[derive(Debug)]
pub enum RequestType {
    Yank(Option<RegisterAddress>, Register),
    Paste(Option<RegisterAddress>, MimeType),
    Show(Option<RegisterAddress>),
    List(),
    Register(RegisterCommand),
}

pub type Response = Result<ResponseType, Error>;

/// Possible responses from the daemon
#[derive(Debug)]
pub enum ResponseType {
    Yank(RegisterAddress, usize),
    Paste(RegisterAddress, DataBuffer),
    Show(RegisterAddress, Register),
    /// The registers that hold something, in ascending order of their addresses
    List(Vec<(RegisterAddress, RegisterSummary)>),
    Register(RegisterAddress),
}

/// The data that comes with a request can be counted.
pub open spec fn countable(req: RequestType) -> bool {
    req matches RequestType::Yank(_, reg) ==> bytes_in(reg@) <= usize::MAX
}

/// How a Pincer answers a request, and in which state that leaves it.
pub open spec fn answers(
    req: RequestType,
    before: PincerView,
    after: PincerView,
    resp: Response,
) -> bool {
    match req {
        RequestType::Yank(addr, reg) => {
            let a = AddressView::or_default(view_option(addr));
            &&& resp matches Ok(ResponseType::Yank(to, n)) && to@ == a && n == bytes_in(reg@)
            &&& after == before.yanked(a, reg@)
        },
        RequestType::Paste(addr, mime) => {
            let a = AddressView::or_default(view_option(addr));
            &&& match before.register(a).get(mime@) {
                Some(held) => resp matches Ok(ResponseType::Paste(from, data)) && from@ == a
                    && data@ == held,
                None => resp matches Err(e) && e@ == missing_mime_text(a, mime@),
            }
            &&& after == before
        },
        RequestType::Show(addr) => {
            let a = AddressView::or_default(view_option(addr));
            &&& resp matches Ok(ResponseType::Show(of, reg)) && of@ == a && reg@
                == before.register(a)
            &&& after == before
        },
        RequestType::List() => {
            &&& resp matches Ok(ResponseType::List(list)) && view_listing(list@)
                == before.listing()
            &&& after == before
        },
        RequestType::Register(RegisterCommand::Select { address }) => {
            &&& resp matches Ok(ResponseType::Register(a)) && a@ == address@
            &&& after == before.with_active(Some(address@))
        },
        RequestType::Register(RegisterCommand::Active {  }) => {
            &&& resp matches Ok(ResponseType::Register(a)) && a@ == before.selected()
            &&& after == before
        },
        RequestType::Register(RegisterCommand::Clear {  }) => {
            &&& resp matches Ok(ResponseType::Register(a)) && a@ == AddressView::Numeric(0)
            &&& after == before.with_active(None)
        },
    }
}

/// Answer a request that is meant for one Pincer
pub fn execute_request(req: RequestType, pincer: &mut Pincer) -> (r: Response)
    requires
        countable(req),
    ensures
        answers(req, old(pincer)@, final(pincer)@, r),
{
    match req {
        RequestType::Yank(addr, reg) => match pincer.yank_into(addr, reg.into_iter()) {
            Ok(n) => Ok(ResponseType::Yank(RegisterAddress::or_default(addr), n)),
            Err(e) => Err(e),
        },
        RequestType::Paste(addr, mime) => match pincer.paste_from(addr, &mime) {
            Ok(data) => Ok(ResponseType::Paste(RegisterAddress::or_default(addr), data.clone())),
            Err(e) => Err(e),
        },
        RequestType::Show(addr) => Ok(
            ResponseType::Show(RegisterAddress::or_default(addr), pincer.register(addr).clone()),
        ),
        RequestType::List() => match pincer.list() {
            Ok(list) => Ok(ResponseType::List(list)),
            Err(e) => Err(e),
        },
        RequestType::Register(command) => {
            match command {
                RegisterCommand::Select { address } => {
                    pincer.set(address);
                },
                RegisterCommand::Active {  } => {},
                RegisterCommand::Clear {  } => {
                    pincer.unset();
                },
            }
            Ok(ResponseType::Register(pincer.get_active()))
        },
    }
}

/// The seat to which a request is addressed, if its clipboard is managed: the named one, or the
/// first one where none is named.
pub open spec fn addressee(seat: SeatSpecification, pincers: Dict<Seq<char>, PincerView>) -> Option<
    Seq<char>,
> {
    match seat {
        SeatSpecification::Unspecified => if pincers.keys.len() > 0 {
            Some(pincers.keys[0])
        } else {
            None
        },
        SeatSpecification::Specified(name) => if pincers.map.contains_key(name@) {
            Some(name@)
        } else {
            None
        },
    }
}

/// What is answered where the clipboard of the seat is not managed.
pub open spec fn unmanaged_text(seat: SeatSpecification) -> Seq<char> {
    "Received request for seat "@ + seat.debug_text()
        + ", but its clipboard is not managed by this daemon"@
}

/// Handle an arriving request
pub fn handle_request(req: Request, pincers: &mut SeatPincerMap) -> (r: Response)
    requires
        countable(req.request),
    ensures
        match addressee(req.seat, old(pincers)@) {
            Some(seat) => {
                let before = old(pincers)@.map[seat];
                let after = final(pincers)@.map[seat];
                &&& answers(req.request, before, after, r)
                &&& final(pincers)@ == old(pincers)@.put(seat, after)
            },
            None => {
                &&& r matches Err(e) && e@ == unmanaged_text(req.seat)
                &&& final(pincers)@ == old(pincers)@
            },
        },
{
    let mut map = pincers.take();
    let pincer = match &req.seat {
        SeatSpecification::Unspecified => if map.len() > 0 {
            Some(map.at_mut(0))
        } else {
            None
        },
        SeatSpecification::Specified(name) => map.get_mut(name),
    };
    let r = match pincer {
        Some(pincer) => execute_request(req.request, pincer),
        None => {
            let mut msg = "Received request for seat ".to_owned();
            let seat = req.seat.debug_string();
            msg.append(seat.as_str());
            msg.append(", but its clipboard is not managed by this daemon");
            Err(msg)
        },
    };
    *pincers = SeatPincerMap::from_map(map);
    r
}

/// What happens to a daemon that listens for connections
#[derive(Debug, Clone, Copy, PartialEq, Eq, Structural)]
pub enum ListenEvent {
    /// The daemon is told to stop
    Cancelled,
    /// A client connects
    Connected,
    /// No connection could be accepted
    Failed,
}

/// What a daemon that listens for connections does next
#[derive(Debug, Clone, Copy, PartialEq, Eq, Structural)]
pub enum ListenStep {
    /// Stop listening
    Stop,
    /// Serve the client, and listen on
    Serve,
    /// Stop listening, and report the error
    Abort,
}

/// Decide what a daemon that listens for connections does next
pub fn listen_step(event: ListenEvent) -> (r: ListenStep)
    ensures
        r is Stop <==> event is Cancelled,
        r is Serve <==> event is Connected,
        r is Abort <==> event is Failed,
{
    match event {
        ListenEvent::Cancelled => ListenStep::Stop,
        ListenEvent::Connected => ListenStep::Serve,
        ListenEvent::Failed => ListenStep::Abort,
    }
}

/// Why no request arrived on a connection
#[derive(Debug, Clone, Copy, PartialEq, Eq, Structural)]
pub enum ReceiveFault {
    TimedOut,
    ConnectionReset,
    ConnectionAborted,
    InvalidData,
    Other,
}

impl ReceiveFault {
    /// The client is gone, which is no error.
    pub open spec fn is_disconnect(self) -> bool {
        self is TimedOut || self is ConnectionReset || self is ConnectionAborted
    }
}

/// What happens on a connection
#[derive(Debug, Clone, Copy, PartialEq, Eq, Structural)]
pub enum AcceptEvent {
    /// The daemon is told to stop
    Cancelled,
    /// A request arrives
    Received,
    /// No request arrives
    Fault(ReceiveFault),
}

/// What is done with a connection
#[derive(Debug, Clone, Copy, PartialEq, Eq, Structural)]
pub enum AcceptStep {
    /// Nothing is left to do
    Close,
    /// Handle the request
    Handle,
    /// Report the error
    Fail,
}

/// Decide what is done with a connection
pub fn accept_step(event: AcceptEvent) -> (r: AcceptStep)
    ensures
        r == (match event {
            AcceptEvent::Cancelled => AcceptStep::Close,
            AcceptEvent::Received => AcceptStep::Handle,
            AcceptEvent::Fault(fault) => if fault.is_disconnect() {
                AcceptStep::Close
            } else {
                AcceptStep::Fail
            },
        }),
{
    match event {
        AcceptEvent::Cancelled => AcceptStep::Close,
        AcceptEvent::Received => AcceptStep::Handle,
        AcceptEvent::Fault(fault) => match fault {
            ReceiveFault::TimedOut
            | ReceiveFault::ConnectionReset
            | ReceiveFault::ConnectionAborted => AcceptStep::Close,
            // Malformed input is not a fatal error, the client could send valid data at a later
            // point
            ReceiveFault::InvalidData | ReceiveFault::Other => AcceptStep::Fail,
        },
    }
}

} // verus!
