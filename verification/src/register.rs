use vstd::prelude::*;
use vstd::std_specs::iter::IteratorSpec;
use vstd::string::*;
use vstd::utf8::{decode_utf8, valid_utf8};

pub use crate::address::{
    ascii_distance, ascii_shift, do_parse_address, NamedT, NumericT, RegisterAddress, ADDRESS_HELP,
    N_NAMED, N_NUMERIC,
};
use crate::assoc::{dict_of, keys_of, lemma_push, lemma_same_dict, Assoc, Dict};
use crate::text::{lossy_text, text_from_bytes};

verus! {

pub type MimeType = String;

pub type DataBuffer = Vec<u8>;

/// What a register holds: data by MIME type, in the order in which the MIME types
/// were first stored.
pub type Contents = Dict<Seq<char>, Seq<u8>>;

/// What a register holds after `pastes` are stored in it one after the other, if it
/// was empty before.
pub open spec fn stored(pastes: Seq<(MimeType, DataBuffer)>) -> Contents
    decreases pastes.len(),
{
    if pastes.len() == 0 {
        Dict::empty()
    } else {
        stored(pastes.drop_last()).put(pastes.last().0@, pastes.last().1@)
    }
}

/// The number of bytes in `pastes`.
pub open spec fn total(pastes: Seq<(MimeType, DataBuffer)>) -> nat
    decreases pastes.len(),
{
    if pastes.len() == 0 {
        0
    } else {
        total(pastes.drop_last()) + pastes.last().1@.len()
    }
}

/// The number of bytes under the first `n` MIME types.
pub open spec fn bytes_under(contents: Contents, n: int) -> nat
    decreases n,
{
    if n <= 0 {
        0
    } else {
        bytes_under(contents, n - 1) + contents.map[contents.keys[n - 1]].len()
    }
}

/// The number of bytes that a register holds.
pub open spec fn bytes_in(contents: Contents) -> nat {
    bytes_under(contents, contents.keys.len() as int)
}

/// A part of the pastes holds no more bytes than all of them.
pub proof fn lemma_total_prefix(
    first: Seq<(MimeType, DataBuffer)>,
    rest: Seq<(MimeType, DataBuffer)>,
)
    ensures
        total(first) <= total(first + rest),
    decreases rest.len(),
{
    if rest.len() == 0 {
        assert(first + rest =~= first);
    } else {
        lemma_total_prefix(first, rest.drop_last());
        assert((first + rest).drop_last() =~= first + rest.drop_last());
    }
}

/// Entries with distinct MIME types, stored one after the other, are what they stand
/// for, and hold as many bytes.
pub proof fn lemma_stored_entries(entries: Seq<(MimeType, DataBuffer)>)
    requires
        dict_of(entries).wf(),
    ensures
        stored(entries) == dict_of(entries),
        total(entries) == bytes_in(dict_of(entries)),
    decreases entries.len(),
{
    if entries.len() == 0 {
        assert(dict_of(entries) =~= Dict::empty());
    } else {
        let before = entries.drop_last();
        let (k, v) = entries.last();
        assert(keys_of(before) =~= keys_of(entries).drop_last());
        assert forall|x: Seq<char>| keys_of(before).contains(x) <==> dict_of(
            before,
        ).map.contains_key(x) by {}
        assert(dict_of(before).wf());
        assert(!keys_of(before).contains(k@)) by {
            assert(keys_of(entries)[entries.len() - 1] == k@);
            if keys_of(before).contains(k@) {
                let i = keys_of(before).index_of(k@);
                assert(keys_of(entries)[i] == k@);
            }
        }
        lemma_push(before, k, v);
        assert(before.push((k, v)) =~= entries);
        lemma_stored_entries(before);
        let d = dict_of(entries);
        lemma_bytes_under(dict_of(before), d, before.len() as int);
        assert(d.keys[before.len() as int] == k@);
    }
}

/// More MIME types hold no fewer bytes.
pub proof fn lemma_bytes_grow(c: Contents, m: int, n: int)
    requires
        m <= n,
    ensures
        bytes_under(c, m) <= bytes_under(c, n),
    decreases n - m,
{
    if m < n {
        lemma_bytes_grow(c, m, n - 1);
    }
}

/// The bytes under the first MIME types depend on these alone.
pub proof fn lemma_bytes_under(c: Contents, d: Contents, n: int)
    requires
        n <= c.keys.len(),
        n <= d.keys.len(),
        forall|i: int| #![trigger c.keys[i]] 0 <= i < n ==> c.keys[i] == d.keys[i],
        forall|i: int| #![trigger c.keys[i]] 0 <= i < n ==> c.map[c.keys[i]] == d.map[c.keys[i]],
    ensures
        bytes_under(c, n) == bytes_under(d, n),
    decreases n,
{
    if n > 0 {
        lemma_bytes_under(c, d, n - 1);
        assert(c.keys[n - 1] == d.keys[n - 1]);
    }
}

/// The MIME type of plain text
pub const TEXT_PLAIN: &'static str = "text/plain";

/// The number of characters of text that a summary shows at most
pub const SUMMARY_LENGTH: usize = 64;

/// What a summary shows of a text: all of it if it is short enough, else its start
/// and an ellipsis.
pub open spec fn ellipsized(text: Seq<char>) -> Seq<char> {
    if text.len() <= SUMMARY_LENGTH {
        text
    } else {
        text.take(SUMMARY_LENGTH - 3) + seq!['.', '.', '.']
    }
}

/// What a [`RegisterSummary`] stands for.
pub enum SummaryView {
    Text(Seq<char>, nat),
    Blob(Seq<char>, nat),
}

/// The summary of a register with these contents: of its text if it has any, else of
/// the data under the first of its MIME types. An empty register has no text.
pub open spec fn summary(contents: Contents) -> SummaryView {
    if contents.is_empty() {
        SummaryView::Text(Seq::empty(), 0)
    } else if contents.map.contains_key(TEXT_PLAIN@) {
        let data = contents.map[TEXT_PLAIN@];
        SummaryView::Text(ellipsized(lossy_text(data)), data.len())
    } else {
        SummaryView::Blob(contents.keys[0], contents.map[contents.keys[0]].len())
    }
}

#[derive(Debug)]
pub enum RegisterSummary {
    /// The register contains text/plain data, ellipsize but also store the length
    Text(String, usize),
    /// The register contains something else, summarize with its MIME type and length
    Blob(MimeType, usize),
}

impl View for RegisterSummary {
    type V = SummaryView;

    open spec fn view(&self) -> SummaryView {
        match self {
            RegisterSummary::Text(text, n) => SummaryView::Text(text@, *n as nat),
            RegisterSummary::Blob(mime, n) => SummaryView::Blob(mime@, *n as nat),
        }
    }
}

impl RegisterSummary {
    /// Summarize a text that takes `n` bytes
    pub fn of_text(text: String, n: usize) -> (r: RegisterSummary)
        ensures
            r@ == SummaryView::Text(ellipsized(text@), n as nat),
    {
        if text.as_str().unicode_len() <= SUMMARY_LENGTH {
            RegisterSummary::Text(text, n)
        } else {
            let mut start = text.as_str().substring_char(0, SUMMARY_LENGTH - 3).to_owned();
            start.append("...");
            proof {
                reveal_strlit("...");
                assert(start@ =~= ellipsized(text@));
            }
            RegisterSummary::Text(start, n)
        }
    }
}

/// A map from MIME types to data buffers
#[derive(Debug)]
pub struct Register {
    map: Assoc<MimeType, DataBuffer>,
}

impl View for Register {
    type V = Contents;

    closed spec fn view(&self) -> Contents {
        self.map@
    }
}

impl Register {
    /// Every MIME type is listed once.
    #[verifier::type_invariant]
    pub open spec fn wf(self) -> bool {
        self@.wf()
    }

    /// Create an empty register
    pub fn new() -> (r: Register)
        ensures
            r@ == Contents::empty(),
    {
        Register { map: Assoc::new() }
    }

    /// Take everything out of the register
    pub fn clear(&mut self)
        ensures
            final(self)@ == Contents::empty(),
    {
        self.map = Assoc::new();
    }

    /// Store data under a MIME type
    ///
    /// # Returns
    ///
    /// The data that was stored under the MIME type before, if any.
    pub fn insert(&mut self, mime: MimeType, data: DataBuffer) -> (r: Option<DataBuffer>)
        ensures
            final(self)@ == old(self)@.put(mime@, data@),
            match r {
                Some(before) => old(self)@.get(mime@) == Some(before@),
                None => old(self)@.get(mime@) is None,
            },
    {
        proof {
            use_type_invariant(&*self);
        }
        let mut map = Assoc::new();
        std::mem::swap(&mut map, &mut self.map);
        let r = map.insert(mime, data);
        self.map = map;
        r
    }

    /// Whether nothing is stored in the register
    pub fn is_empty(&self) -> (r: bool)
        ensures
            r == self@.is_empty(),
    {
        self.map.len() == 0
    }

    /// The data under a MIME type, if any
    pub fn get(&self, mime: &MimeType) -> (r: Option<&DataBuffer>)
        ensures
            match r {
                Some(data) => self@.get(mime@) == Some(data@),
                None => self@.get(mime@) is None,
            },
    {
        proof {
            use_type_invariant(self);
        }
        self.map.get(mime)
    }

    /// Summarize what is stored in the register
    pub fn summarize(&self) -> (r: RegisterSummary)
        ensures
            r@ == summary(self@),
            self@.map.contains_key(TEXT_PLAIN@) && valid_utf8(self@.map[TEXT_PLAIN@]) ==> r@
                == SummaryView::Text(
                ellipsized(decode_utf8(self@.map[TEXT_PLAIN@])),
                self@.map[TEXT_PLAIN@].len(),
            ),
    {
        proof {
            use_type_invariant(self);
        }
        match self.get(&TEXT_PLAIN.to_owned()) {
            Some(data) => {
                assert(self@.keys.contains(TEXT_PLAIN@));
                RegisterSummary::of_text(text_from_bytes(data), data.len())
            },
            None => {
                if self.is_empty() {
                    RegisterSummary::Text(String::new(), 0)
                } else {
                    let (mime, data) = self.map.at(0);
                    RegisterSummary::Blob(mime.clone(), data.len())
                }
            },
        }
    }

    /// The number of bytes in the register, unless it is too great for a `usize`
    pub fn byte_count(&self) -> (r: Option<usize>)
        ensures
            match r {
                Some(n) => n == bytes_in(self@),
                None => bytes_in(self@) > usize::MAX,
            },
    {
        proof {
            use_type_invariant(self);
        }
        let mut sum: usize = 0;
        let n = self.map.len();
        for i in 0..n
            invariant
                self.map.wf(),
                self.map@ == self@,
                n == self@.keys.len(),
                sum == bytes_under(self@, i as int),
        {
            let (_, data) = self.map.at(i);
            match sum.checked_add(data.len()) {
                Some(s) => {
                    sum = s;
                },
                None => {
                    proof {
                        lemma_bytes_grow(self@, i + 1, n as int);
                    }
                    return None;
                },
            }
        }
        Some(sum)
    }
}

impl Clone for Register {
    fn clone(&self) -> (r: Register)
        ensures
            r@ == self@,
    {
        proof {
            use_type_invariant(self);
            self.map.lemma_view();
        }
        let mut entries: Vec<(MimeType, DataBuffer)> = Vec::new();
        let n = self.map.len();
        for i in 0..n
            invariant
                self.map.wf(),
                n == self.map.entries().len(),
                n == self.map@.keys.len(),
                entries@.len() == i,
                forall|j: int|
                    #![trigger entries@[j]]
                    0 <= j < i ==> entries@[j].0@ == self.map.entries()[j].0@ && entries@[j].1@
                        == self.map.entries()[j].1@,
        {
            let (mime, data) = self.map.at(i);
            entries.push((mime.clone(), data.clone()));
        }
        proof {
            lemma_same_dict(entries@, self.map.entries());
        }
        Register { map: Assoc::from_entries(entries) }
    }
}

impl Default for Register {
    fn default() -> (r: Register)
        ensures
            r@ == Contents::empty(),
    {
        Register::new()
    }
}

impl IntoIterator for Register {
    type Item = (MimeType, DataBuffer);

    type IntoIter = std::vec::IntoIter<(MimeType, DataBuffer)>;

    fn into_iter(self) -> (r: std::vec::IntoIter<(MimeType, DataBuffer)>)
        ensures
            r.obeys_prophetic_iter_laws(),
            r.decrease() is Some,
            dict_of(r.remaining()) == self@,
            stored(r.remaining()) == self@,
            total(r.remaining()) == bytes_in(self@),
    {
        proof {
            use_type_invariant(&self);
            self.map.lemma_view();
            lemma_stored_entries(self.map.entries());
        }
        self.map.into_entries().into_iter()
    }
}

impl<'a> IntoIterator for &'a Register {
    type Item = (&'a MimeType, &'a DataBuffer);

    type IntoIter = std::vec::IntoIter<(&'a MimeType, &'a DataBuffer)>;

    fn into_iter(self) -> (r: std::vec::IntoIter<(&'a MimeType, &'a DataBuffer)>)
        ensures
            r.obeys_prophetic_iter_laws(),
            r.decrease() is Some,
            dict_of(r.remaining()) == self@,
    {
        proof {
            use_type_invariant(self);
            self.map.lemma_view();
        }
        let mut entries: Vec<(&'a MimeType, &'a DataBuffer)> = Vec::new();
        let n = self.map.len();
        for i in 0..n
            invariant
                self.map.wf(),
                n == self.map.entries().len(),
                n == self.map@.keys.len(),
                entries@.len() == i,
                forall|j: int|
                    #![trigger entries@[j]]
                    0 <= j < i ==> entries@[j].0@ == self.map.entries()[j].0@ && entries@[j].1@
                        == self.map.entries()[j].1@,
        {
            let (mime, data) = self.map.at(i);
            entries.push((mime, data));
        }
        proof {
            lemma_same_dict(entries@, self.map.entries());
        }
        entries.into_iter()
    }
}

} // verus!
