use vstd::prelude::*;

use crate::assoc::{dict_of, keys_of, lemma_dict_of_entry, Dict};
use crate::laws::{law_mime_types_are_listed_once, law_put_then_get};
use crate::register::{
    bytes_in, bytes_under, ellipsized, lemma_bytes_under, lemma_stored_entries, stored, summary,
    total, Contents, DataBuffer, MimeType, Register, RegisterSummary, SummaryView,
};
use crate::text::lossy_text;

verus! {

/// A dictionary is read by its map. It has no entries if and only if its map has no key.
pub proof fn law_dictionary_is_read_by_its_map<A, B>(d: Dict<A, B>, k: A)
    requires
        d.wf(),
    ensures
        d.map.contains_key(k) ==> d.get(k) == Some(d.map[k]),
        !d.map.contains_key(k) ==> d.get(k) is None,
        d.is_empty() <==> forall|x: A| !#[trigger] d.map.contains_key(x),
        Dict::<A, B>::empty().wf(),
        !Dict::<A, B>::empty().map.contains_key(k),
        Dict::<A, B>::empty().keys.len() == 0,
{
    if d.keys.len() > 0 {
        assert(d.keys.contains(d.keys[0]));
        assert(d.map.contains_key(d.keys[0]));
    }
    assert forall|x: A| d.is_empty() implies !#[trigger] d.map.contains_key(x) by {
        assert(d.keys.contains(x) == d.map.contains_key(x));
    }
}

/// A dictionary is well formed if and only if it lists every key of its map once, and nothing else.
pub proof fn law_well_formed_dictionaries<A, B>(d: Dict<A, B>)
    ensures
        d.wf() <==> (forall|i: int, j: int|
            0 <= i < j < d.keys.len() ==> #[trigger] d.keys[i] != #[trigger] d.keys[j]) && (forall|
            i: int,
        |
            0 <= i < d.keys.len() ==> d.map.contains_key(#[trigger] d.keys[i])) && (forall|k: A|
            d.map.contains_key(k) ==> #[trigger] d.keys.contains(k)),
{
    if d.wf() {
        assert forall|i: int| 0 <= i < d.keys.len() implies d.map.contains_key(
            #[trigger] d.keys[i],
        ) by {
            assert(d.keys.contains(d.keys[i]));
        }
    }
}

/// A dictionary lists every key of its map once, and nothing else.
pub proof fn law_dictionary_lists_its_keys<A, B>(d: Dict<A, B>, k: A, i: int, j: int)
    requires
        d.wf(),
    ensures
        d.map.contains_key(k) <==> exists|m: int|
            0 <= m < d.keys.len() && #[trigger] d.keys[m] == k,
        0 <= i < j < d.keys.len() ==> d.keys[i] != d.keys[j],
{
    assert(d.keys.contains(k) <==> d.map.contains_key(k));
}

/// A new key comes last, a known key stays where it is. No other key moves.
pub proof fn law_new_keys_come_last<A, B>(d: Dict<A, B>, k: A, v: B)
    requires
        d.wf(),
    ensures
        d.put(k, v).map == d.map.insert(k, v),
        d.map.contains_key(k) ==> d.put(k, v).keys == d.keys,
        !d.map.contains_key(k) ==> d.put(k, v).keys == d.keys.push(k),
{
    assert(d.keys.contains(k) == d.map.contains_key(k));
}

/// Where a key is taken out the later ones move up, and every other key keeps its value.
pub proof fn law_taken_out_keys_are_gone<A, B>(d: Dict<A, B>, k: A, i: int)
    requires
        d.wf(),
    ensures
        d.without(k).map == d.map.remove(k),
        0 <= i < d.keys.len() && d.keys[i] == k ==> d.without(k).keys == d.keys.remove(i),
        !d.map.contains_key(k) ==> d.without(k) == d,
{
    assert(d.keys.contains(k) == d.map.contains_key(k));
    if 0 <= i < d.keys.len() && d.keys[i] == k {
        assert(d.keys.index_of(k) == i);
    }
    if !d.map.contains_key(k) {
        assert(d.without(k).map =~= d.map);
    }
}

/// A new register holds nothing, and neither does one that was cleared.
pub proof fn law_new_registers_hold_nothing(
    created: Register,
    default: Register,
    cleared: &mut Register,
    mime: Seq<char>,
)
    requires
        call_ensures(Register::new, (), created),
        call_ensures(<Register as Default>::default, (), default),
        call_ensures(Register::clear, (cleared,), ()),
    ensures
        created@.wf() && !created@.map.contains_key(mime) && created@.keys.len() == 0,
        default@.wf() && !default@.map.contains_key(mime) && default@.keys.len() == 0,
        final(cleared)@.wf() && !final(cleared)@.map.contains_key(mime)
            && final(cleared)@.keys.len() == 0,
{
}

/// What is stored under a MIME type is found under it, and what was there before is handed back.
/// Under any other MIME type the same is found as before.
pub proof fn law_insert_then_get(
    reg: &mut Register,
    mime: MimeType,
    data: DataBuffer,
    replaced: Option<DataBuffer>,
    asked: &MimeType,
    before: Option<&DataBuffer>,
    after: Option<&DataBuffer>,
)
    requires
        old(reg)@.wf(),
        call_ensures(Register::get, (&*old(reg), asked), before),
        call_ensures(Register::insert, (reg, mime, data), replaced),
        call_ensures(Register::get, (&*final(reg), asked), after),
    ensures
        final(reg)@.wf(),
        asked@ == mime@ ==> {
            &&& after matches Some(d) && d@ == data@
            &&& before is Some <==> replaced is Some
            &&& before matches Some(d) ==> d@ == replaced->0@
        },
        asked@ != mime@ ==> {
            &&& before is Some <==> after is Some
            &&& before matches Some(d) ==> d@ == after->0@
        },
{
    law_put_then_get(old(reg)@, mime@, data@, asked@);
}

/// A register is read by the map from MIME types to data that it holds.
pub proof fn law_register_is_read(reg: &Register, mime: &MimeType, r: Option<&DataBuffer>, e: bool)
    requires
        reg@.wf(),
        call_ensures(Register::get, (reg, mime), r),
        call_ensures(Register::is_empty, (reg,), e),
    ensures
        r is Some <==> reg@.map.contains_key(mime@),
        r matches Some(d) ==> d@ == reg@.map[mime@],
        e <==> forall|x: Seq<char>| !#[trigger] reg@.map.contains_key(x),
{
    law_dictionary_is_read_by_its_map(reg@, mime@);
}

/// A copy of a register holds the same data under the same MIME types.
pub proof fn law_clone_holds_the_same(reg: &Register, r: Register)
    requires
        call_ensures(<Register as Clone>::clone, (reg,), r),
    ensures
        r@.map == reg@.map,
        r@.keys == reg@.keys,
{
}

/// Entries that stand for what a register holds give every MIME type with its data, each once and
/// in order. Stored one after the other they give the same again, with as many bytes.
pub proof fn law_entries_give_all_that_is_held(
    entries: Seq<(MimeType, DataBuffer)>,
    held: Contents,
    i: int,
)
    requires
        held.wf(),
        dict_of(entries) == held,
    ensures
        entries.len() == held.keys.len(),
        0 <= i < entries.len() ==> entries[i].0@ == held.keys[i] && entries[i].1@
            == held.map[held.keys[i]],
        stored(entries) == held,
        total(entries) == bytes_in(held),
{
    assert(dict_of(entries).keys == keys_of(entries));
    lemma_stored_entries(entries);
    if 0 <= i < entries.len() {
        lemma_dict_of_entry(entries, i);
    }
}

/// The number of bytes in a register: none where it is empty, and what is stored counts in place of
/// what it replaces.
pub proof fn law_bytes_are_counted(c: Contents, mime: Seq<char>, data: Seq<u8>)
    requires
        c.wf(),
    ensures
        bytes_in(Contents::empty()) == 0,
        c.map.contains_key(mime) ==> bytes_in(c.put(mime, data)) + c.map[mime].len() == bytes_in(c)
            + data.len(),
        !c.map.contains_key(mime) ==> bytes_in(c.put(mime, data)) == bytes_in(c) + data.len(),
{
    let d = c.put(mime, data);
    assert(c.keys.contains(mime) == c.map.contains_key(mime));
    if c.map.contains_key(mime) {
        let i = c.keys.index_of(mime);
        lemma_bytes_replaced(c, mime, data, i, c.keys.len() as int);
    } else {
        assert forall|j: int| #![trigger c.keys[j]] 0 <= j < c.keys.len() implies c.map[c.keys[j]]
            == d.map[c.keys[j]] by {
            assert(c.keys.contains(c.keys[j]));
        }
        lemma_bytes_under(c, d, c.keys.len() as int);
        assert(d.keys[c.keys.len() as int] == mime);
    }
}

proof fn lemma_bytes_replaced(c: Contents, mime: Seq<char>, data: Seq<u8>, i: int, n: int)
    requires
        c.wf(),
        0 <= i < c.keys.len(),
        c.keys[i] == mime,
        0 <= n <= c.keys.len(),
    ensures
        i < n ==> bytes_under(c.put(mime, data), n) + c.map[mime].len() == bytes_under(c, n)
            + data.len(),
        n <= i ==> bytes_under(c.put(mime, data), n) == bytes_under(c, n),
    decreases n,
{
    assert(c.keys.contains(mime));
    if n > 0 {
        lemma_bytes_replaced(c, mime, data, i, n - 1);
    }
}

/// The number of bytes is told unless it is too great.
pub proof fn law_byte_count_is_told(reg: &Register, r: Option<usize>)
    requires
        call_ensures(Register::byte_count, (reg,), r),
    ensures
        bytes_in(reg@) <= usize::MAX ==> (r matches Some(n) && n == bytes_in(reg@)),
        bytes_in(reg@) > usize::MAX ==> r is None,
{
}

/// Pastes hold as many bytes as their parts.
pub proof fn law_bytes_of_pastes_add_up(
    first: Seq<(MimeType, DataBuffer)>,
    last: (MimeType, DataBuffer),
)
    ensures
        total(Seq::empty()) == 0,
        total(first.push(last)) == total(first) + last.1@.len(),
{
    assert(first.push(last).drop_last() =~= first);
}

/// Pastes are stored one after the other, in a register that is empty at first.
pub proof fn law_pastes_are_stored_in_order(
    first: Seq<(MimeType, DataBuffer)>,
    last: (MimeType, DataBuffer),
)
    ensures
        stored(Seq::empty()) == Dict::<Seq<char>, Seq<u8>>::empty(),
        stored(first.push(last)).map == stored(first).map.insert(last.0@, last.1@),
        stored(first).map.contains_key(last.0@) ==> stored(first.push(last)).keys == stored(
            first,
        ).keys,
        !stored(first).map.contains_key(last.0@) ==> stored(first.push(last)).keys == stored(
            first,
        ).keys.push(last.0@),
{
    assert(first.push(last).drop_last() =~= first);
    law_mime_types_are_listed_once(first);
    assert(stored(first).keys.contains(last.0@) == stored(first).map.contains_key(last.0@));
}

/// A summary shows a text whole if it has at most 64 characters. A longer text is cut to that
/// length, three dots included.
pub proof fn law_long_text_is_cut(text: Seq<char>, i: int)
    ensures
        text.len() <= 64 ==> ellipsized(text) == text,
        text.len() > 64 ==> ellipsized(text).len() == 64,
        text.len() > 64 && 0 <= i < 61 ==> ellipsized(text)[i] == text[i],
        text.len() > 64 && 61 <= i < 64 ==> ellipsized(text)[i] == '.',
{
}

/// A register with text is summarized by that text and its length in bytes.
pub proof fn law_text_is_summarized(reg: &Register, r: RegisterSummary)
    requires
        reg@.wf(),
        reg@.map.contains_key("text/plain"@),
        call_ensures(Register::summarize, (reg,), r),
    ensures
        r matches RegisterSummary::Text(text, n) && n == reg@.map["text/plain"@].len()
            && text@ == ellipsized(lossy_text(reg@.map["text/plain"@])),
{
    assert(reg@.keys.contains("text/plain"@));
}

/// Text that is valid UTF-8 is shown as it is, up to the length of a summary.
pub proof fn law_utf8_text_is_summarized(reg: &Register, r: RegisterSummary)
    requires
        reg@.wf(),
        reg@.map.contains_key("text/plain"@),
        vstd::utf8::valid_utf8(reg@.map["text/plain"@]),
        call_ensures(Register::summarize, (reg,), r),
    ensures
        r matches RegisterSummary::Text(text, _) && text@ == ellipsized(
            vstd::utf8::decode_utf8(reg@.map["text/plain"@]),
        ),
{
}

/// A register without text is summarized by the first of its MIME types and the length of the data
/// under it, and an empty one by an empty text.
pub proof fn law_other_data_is_summarized(reg: &Register, r: RegisterSummary)
    requires
        reg@.wf(),
        !reg@.map.contains_key("text/plain"@),
        call_ensures(Register::summarize, (reg,), r),
    ensures
        reg@.keys.len() > 0 ==> (r matches RegisterSummary::Blob(mime, n) && mime@ == reg@.keys[0]
            && n == reg@.map[reg@.keys[0]].len()),
        reg@.keys.len() == 0 ==> (r matches RegisterSummary::Text(text, n) && text@.len() == 0 && n
            == 0),
{
}

/// The summary of some contents is one of a register that holds them.
pub proof fn law_summary_is_that_of_the_register(contents: Contents)
    requires
        contents.wf(),
    ensures
        contents.map.contains_key("text/plain"@) ==> {
            &&& summary(contents) matches SummaryView::Text(text, n)
            &&& n == contents.map["text/plain"@].len()
            &&& text == ellipsized(lossy_text(contents.map["text/plain"@]))
        },
        !contents.map.contains_key("text/plain"@) && contents.keys.len() > 0 ==> summary(contents)
            == SummaryView::Blob(contents.keys[0], contents.map[contents.keys[0]].len()),
        contents.keys.len() == 0 ==> summary(contents) == SummaryView::Text(Seq::empty(), 0),
{
    assert(contents.keys.contains("text/plain"@) == contents.map.contains_key("text/plain"@));
}

/// A text is summarized by what is shown of it and the number of bytes that is given.
pub proof fn law_given_text_is_summarized(text: String, n: usize, r: RegisterSummary)
    requires
        call_ensures(RegisterSummary::of_text, (text, n), r),
    ensures
        r matches RegisterSummary::Text(shown, m) && m == n && shown@ == ellipsized(text@),
{
}

} // verus!
