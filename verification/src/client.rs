use vstd::prelude::*;

use crate::daemon::{Response, ResponseType};
use crate::error::Error;
use crate::register::{summary, DataBuffer, Register, RegisterAddress, RegisterSummary};

verus! {

/// What a user is told about a yank
#[derive(Debug)]
pub struct YankNotice {
    pub address: RegisterAddress,
    pub bytes: usize,
}

/// What a user is shown of an answer
#[derive(Debug)]
pub enum Shown {
    /// That something was yanked
    Yanked(YankNotice),
    /// The data that was asked for
    Data(DataBuffer),
    /// A register with a summary of its contents
    Contents { address: RegisterAddress, register: Register, summary: RegisterSummary },
    /// Registers with summaries of their contents
    Listing(Vec<(RegisterAddress, RegisterSummary)>),
    /// The active register
    Active(RegisterAddress),
}

/// What a user is to be shown of an answer, whichever answer it is.
pub open spec fn shows(rsp: ResponseType, shown: Shown) -> bool {
    match rsp {
        ResponseType::Yank(address, bytes) => shown == Shown::Yanked(
            YankNotice { address, bytes },
        ),
        ResponseType::Paste(_, data) => shown == Shown::Data(data),
        ResponseType::Show(address, register) => {
            &&& shown matches Shown::Contents { address: a, register: r, summary: s }
            &&& a == address
            &&& r == register
            &&& s@ == summary(register@)
        },
        ResponseType::List(list) => shown == Shown::Listing(list),
        ResponseType::Register(address) => shown == Shown::Active(address),
    }
}

/// Decide what a user is shown of an answer
pub fn show(rsp: ResponseType) -> (r: Shown)
    ensures
        shows(rsp, r),
{
    match rsp {
        ResponseType::Yank(address, bytes) => Shown::Yanked(handle_yank(address, bytes)),
        ResponseType::Paste(_, data) => Shown::Data(data),
        ResponseType::Show(address, register) => {
            let summary = register.summarize();
            Shown::Contents { address, register, summary }
        },
        ResponseType::List(list) => Shown::Listing(list),
        ResponseType::Register(address) => Shown::Active(address),
    }
}

/// Decide what a user is shown of a response
///
/// # Returns
///
/// `Ok(shown)` if the request was answered, and `Err` with the reason if it was refused.
pub fn handle_response(rsp: Response) -> (r: Result<Shown, Error>)
    ensures
        match rsp {
            Ok(answer) => r matches Ok(shown) && shows(answer, shown),
            Err(e) => r == Err::<Shown, Error>(e),
        },
{
    match rsp {
        Ok(answer) => Ok(show(answer)),
        Err(e) => Err(e),
    }
}

/// What a user is told after `n` bytes are yanked
pub fn handle_yank(addr: RegisterAddress, n: usize) -> (r: YankNotice)
    ensures
        r == (YankNotice { address: addr, bytes: n }),
{
    YankNotice { address: addr, bytes: n }
}

} // verus!
