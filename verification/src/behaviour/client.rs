use vstd::prelude::*;

use crate::behaviour::pincer::meant;
use crate::client::{handle_response, handle_yank, show, shows, Shown, YankNotice};
use crate::daemon::{answers, RequestType, Response, ResponseType};
use crate::error::Error;
use crate::pincer::{missing_mime_text, PincerView};
use crate::register::{
    summary, DataBuffer, MimeType, Register, RegisterAddress, RegisterSummary,
};

verus! {

/// What is shown of a paste is the data in the answer, byte for byte.
pub proof fn law_pasted_data_is_shown_whole(addr: RegisterAddress, data: DataBuffer, r: Shown)
    requires
        call_ensures(show, (ResponseType::Paste(addr, data),), r),
    ensures
        r matches Shown::Data(d) && d@.len() == data@.len() && forall|i: int|
            0 <= i < data@.len() ==> d@[i] == data@[i],
{
}

/// Data that is yanked into a register and then pasted, through the daemon and the client, comes
/// out as it went in.
pub proof fn law_yanked_data_comes_out_as_it_went_in(
    addr: Option<RegisterAddress>,
    reg: Register,
    mime: MimeType,
    p: PincerView,
    q: PincerView,
    after: PincerView,
    yank: Response,
    paste: Response,
    r: Result<Shown, Error>,
)
    requires
        p.wf(),
        meant(addr).valid(),
        reg@.map.contains_key(mime@),
        answers(RequestType::Yank(addr, reg), p, q, yank),
        answers(RequestType::Paste(addr, mime), q, after, paste),
        call_ensures(handle_response, (paste,), r),
    ensures
        r matches Ok(Shown::Data(d)) && d@ == reg@.map[mime@],
{
}

/// What is shown of a yank is the register and the number of bytes.
pub proof fn law_yank_is_shown(addr: RegisterAddress, bytes: usize, r: Shown, notice: YankNotice)
    requires
        call_ensures(show, (ResponseType::Yank(addr, bytes),), r),
        call_ensures(handle_yank, (addr, bytes), notice),
    ensures
        r matches Shown::Yanked(n) && n.address == addr && n.bytes == bytes,
        notice.address == addr && notice.bytes == bytes,
{
}

/// What is shown of a register is its address, all it holds, and the summary of that.
pub proof fn law_register_is_shown(addr: RegisterAddress, register: Register, r: Shown)
    requires
        call_ensures(show, (ResponseType::Show(addr, register),), r),
    ensures
        r matches Shown::Contents { address, register: shown, summary: s } && address == addr
            && shown@ == register@ && s@ == summary(register@),
{
}

/// What is shown of a listing is every entry of it, in order.
pub proof fn law_listing_is_shown(
    list: Vec<(RegisterAddress, RegisterSummary)>,
    r: Shown,
    i: int,
)
    requires
        call_ensures(show, (ResponseType::List(list),), r),
    ensures
        r matches Shown::Listing(l) && l@.len() == list@.len() && (0 <= i < list@.len() ==> l@[i].0@
            == list@[i].0@ && l@[i].1@ == list@[i].1@),
{
}

/// What is shown of the register pointer is the active register.
pub proof fn law_active_register_is_shown(addr: RegisterAddress, r: Shown)
    requires
        call_ensures(show, (ResponseType::Register(addr),), r),
    ensures
        r matches Shown::Active(a) && a == addr,
{
}

/// A refusal is passed on with its reason, and an answer is shown as such an answer is.
pub proof fn law_responses_are_passed_on(rsp: Response, r: Result<Shown, Error>)
    requires
        call_ensures(handle_response, (rsp,), r),
    ensures
        rsp matches Err(e) ==> (r matches Err(f) && f@ == e@),
        rsp matches Ok(answer) ==> (r matches Ok(shown) && shows(answer, shown)),
{
}

/// What is shown of an answer depends on the answer alone.
pub proof fn law_answers_are_shown_in_one_way(rsp: ResponseType, r: Shown, shown: Shown)
    requires
        shows(rsp, shown),
        call_ensures(show, (rsp,), r),
    ensures
        shows(rsp, r),
        match (r, shown) {
            (Shown::Yanked(a), Shown::Yanked(b)) => a == b,
            (Shown::Data(a), Shown::Data(b)) => a@ == b@,
            (Shown::Contents { address: a, register: c, summary: s }, Shown::Contents {
                address: b,
                register: d,
                summary: t,
            }) => a == b && c@ == d@ && s@ == t@,
            (Shown::Listing(a), Shown::Listing(b)) => a@ == b@,
            (Shown::Active(a), Shown::Active(b)) => a == b,
            _ => false,
        },
{
}

/// A refused paste is told to the user with the same reason.
pub proof fn law_refused_paste_is_told(
    addr: Option<RegisterAddress>,
    mime: MimeType,
    p: PincerView,
    after: PincerView,
    paste: Response,
    r: Result<Shown, Error>,
)
    requires
        !p.register(meant(addr)).map.contains_key(mime@),
        answers(RequestType::Paste(addr, mime), p, after, paste),
        call_ensures(handle_response, (paste,), r),
    ensures
        r matches Err(e) && e@ == missing_mime_text(meant(addr), mime@),
{
}

} // verus!
