//! Reading the tokens of an XML text with `quick-xml`, and decoding the
//! bytes of a file as UTF-8.

use vstd::prelude::*;
use crate::model::pair_views;
use quick_xml::events::Event;
use crate::parser::document::{depth_after, well_formed_items};
use crate::parser::xml::{item_view, items_view, XmlItem, XmlItemView, XmlToken, XmlTokenView};

verus! {

#[verifier::external_type_specification]
#[verifier::external_body]
#[verifier::reject_recursive_types(R)]
pub struct ExXmlReader<R>(quick_xml::reader::Reader<R>);

#[verifier::external_type_specification]
#[verifier::external_body]
pub struct ExBytesStart<'a>(quick_xml::events::BytesStart<'a>);

#[verifier::external_type_specification]
#[verifier::external_body]
pub struct ExBytesText<'a>(quick_xml::events::BytesText<'a>);

#[verifier::external_type_specification]
#[verifier::external_body]
pub struct ExBytesCData<'a>(quick_xml::events::BytesCData<'a>);

/// What `Reader::read_event` returns, by variant, when called after `k`
/// earlier calls on a reader made by `Reader::from_str(text)` with white
/// space trimmed around text (event number `k`, counting from 0); a
/// reading error by its display text.
pub uninterp spec fn xml_event(text: Seq<char>, k: nat) -> XmlEventView;

/// `Reader::buffer_position` after `k` calls of `read_event` on such a reader.
pub uninterp spec fn xml_offset(text: Seq<char>, k: nat) -> u64;

/// `BytesStart::name`, as text, of the tag that event number `k` of such
/// a reader opens.
pub uninterp spec fn xml_element_name(text: Seq<char>, k: nat) -> Seq<char>;

/// `BytesStart::attributes` of that tag, as `element_attributes` takes them.
pub uninterp spec fn xml_element_attributes(text: Seq<char>, k: nat) -> Seq<(Seq<char>, Seq<char>)>;

/// `BytesText::unescape` of event number `k`, as `text_content` takes it.
pub uninterp spec fn xml_text_content(text: Seq<char>, k: nat) -> Seq<char>;

/// The bytes of the CDATA section of event number `k`, as text.
pub uninterp spec fn xml_cdata_content(text: Seq<char>, k: nat) -> Seq<char>;

/// The kind of an event, with the message of a reading error.
pub enum XmlEventView {
    Start,
    Empty,
    End,
    Text,
    CData,
    Eof,
    Other,
    Error(Seq<char>),
}

/// A reader over one text, with the number of events read from it so far.
/// Only `open_tokenizer` makes one and only `read_raw_event` reads from it,
/// so `reads` always counts the calls of `read_event` made on `reader`.
struct XmlTokenizer<'a> {
    reader: quick_xml::reader::Reader<&'a [u8]>,
    source: &'a str,
    reads: usize,
}

/// A start or empty tag, with the text it was read from and its event number.
struct TagEvent<'a> {
    tag: quick_xml::events::BytesStart<'a>,
    source: &'a str,
    index: usize,
}

/// A text event, with the text it was read from and its event number.
struct TextEvent<'a> {
    text: quick_xml::events::BytesText<'a>,
    source: &'a str,
    index: usize,
}

/// A CDATA event, with the text it was read from and its event number.
struct CDataEvent<'a> {
    cdata: quick_xml::events::BytesCData<'a>,
    source: &'a str,
    index: usize,
}

/// An event as the reader reports it, still borrowing the input.
enum RawEvent<'a> {
    Start(TagEvent<'a>),
    Empty(TagEvent<'a>),
    End,
    Text(TextEvent<'a>),
    CData(CDataEvent<'a>),
    Eof,
    Other,
    Error(String),
}

spec fn event_kind(e: RawEvent) -> XmlEventView {
    match e {
        RawEvent::Start(_) => XmlEventView::Start,
        RawEvent::Empty(_) => XmlEventView::Empty,
        RawEvent::End => XmlEventView::End,
        RawEvent::Text(_) => XmlEventView::Text,
        RawEvent::CData(_) => XmlEventView::CData,
        RawEvent::Eof => XmlEventView::Eof,
        RawEvent::Other => XmlEventView::Other,
        RawEvent::Error(m) => XmlEventView::Error(m@),
    }
}

/// The payload of `e`, if any, records text `src` and event number `k`.
spec fn event_from(e: RawEvent, src: Seq<char>, k: nat) -> bool {
    match e {
        RawEvent::Start(t) => t.source@ == src && t.index == k,
        RawEvent::Empty(t) => t.source@ == src && t.index == k,
        RawEvent::Text(t) => t.source@ == src && t.index == k,
        RawEvent::CData(c) => c.source@ == src && c.index == k,
        _ => true,
    }
}

/// Calls `quick_xml::reader::Reader::from_str` on `text` and sets the
/// reader to trim white space around text; no event has been read yet.
#[verifier::external_body]
fn open_tokenizer<'a>(text: &'a str) -> (t: XmlTokenizer<'a>)
    ensures
        t.source@ == text@,
        t.reads == 0,
{
    let mut reader = quick_xml::reader::Reader::from_str(text);
    reader.config_mut().trim_text(true);
    XmlTokenizer { reader, source: text, reads: 0 }
}

/// Calls `Reader::buffer_position`: the position after the events read
/// so far. It counts bytes consumed from the input (`source.as_bytes()`),
/// less one while a `<` has been consumed and its markup not yet read, so
/// it never exceeds the input's length.
#[verifier::external_body]
fn reader_position(t: &XmlTokenizer<'_>) -> (r: u64)
    ensures
        r == xml_offset(t.source@, t.reads as nat),
        r <= vstd::utf8::encode_utf8(t.source@).len(),
{
    t.reader.buffer_position()
}

/// Calls `Reader::read_event` and tells its variants apart; a reading
/// error becomes its display text. The event is the one numbered by the
/// count of earlier reads, which becomes `next`. Reading only moves the
/// reader forward, so the position does not decrease. With the default
/// configuration (`check_end_names` on, `allow_unmatched_ends` and
/// `expand_empty_elements` off) an end tag is reported as `End` only when
/// it closes a tag that a `Start` event opened and no earlier `End` or
/// mismatched end tag closed, so more `Start` than `End` events precede it.
#[verifier::external_body]
fn read_raw_event<'a>(t: &mut XmlTokenizer<'a>, next: usize) -> (r: RawEvent<'a>)
    requires
        next == old(t).reads + 1,
    ensures
        event_kind(r) == xml_event(old(t).source@, old(t).reads as nat),
        event_kind(r) is End ==> xml_depth(old(t).source@, old(t).reads as nat) > 0,
        xml_offset(old(t).source@, old(t).reads as nat) <= xml_offset(final(t).source@, final(t).reads as nat),
        event_from(r, old(t).source@, old(t).reads as nat),
        final(t).source@ == old(t).source@,
        final(t).reads == next,
{
    let (source, index) = (t.source, t.reads);
    let event = match t.reader.read_event() {
        Ok(Event::Start(tag)) => RawEvent::Start(TagEvent { tag, source, index }),
        Ok(Event::Empty(tag)) => RawEvent::Empty(TagEvent { tag, source, index }),
        Ok(Event::End(_)) => RawEvent::End,
        Ok(Event::Text(text)) => RawEvent::Text(TextEvent { text, source, index }),
        Ok(Event::CData(cdata)) => RawEvent::CData(CDataEvent { cdata, source, index }),
        Ok(Event::Eof) => RawEvent::Eof,
        Ok(_) => RawEvent::Other,
        Err(e) => RawEvent::Error(format!("{e}")),
    };
    t.reads = next;
    event
}

/// Calls `BytesStart::name`; the raw name as text (empty when not UTF-8).
#[verifier::external_body]
fn element_name(e: &TagEvent<'_>) -> (r: String)
    ensures
        r@ == xml_element_name(e.source@, e.index as nat),
{
    std::str::from_utf8(e.tag.name().as_ref()).unwrap_or("").to_string()
}

/// Calls `BytesStart::attributes`, skipping malformed ones; each key as
/// text and each value unescaped (or taken lossily when it cannot be).
#[verifier::external_body]
fn element_attributes(e: &TagEvent<'_>) -> (r: Vec<(String, String)>)
    ensures
        pair_views(r@) == xml_element_attributes(e.source@, e.index as nat),
{
    let mut out = Vec::new();
    for attr in e.tag.attributes().flatten() {
        let key = std::str::from_utf8(attr.key.as_ref()).unwrap_or("").to_string();
        let value = attr.unescape_value().map(|c| c.to_string());
        out.push((key, value.unwrap_or_else(|_| String::from_utf8_lossy(&attr.value).to_string())));
    }
    out
}

/// Calls `BytesText::unescape`; the unescaped text, empty when it fails.
#[verifier::external_body]
fn text_content(e: &TextEvent<'_>) -> (r: String)
    ensures
        r@ == xml_text_content(e.source@, e.index as nat),
{
    e.text.unescape().unwrap_or_default().to_string()
}

/// The CDATA section's bytes as text (empty when not UTF-8).
#[verifier::external_body]
fn cdata_content(e: &CDataEvent<'_>) -> (r: String)
    ensures
        r@ == xml_cdata_content(e.source@, e.index as nat),
{
    std::str::from_utf8(&e.cdata).unwrap_or("").to_string()
}

/// The number of `Start` events minus the number of `End` events among
/// the first `k` events read from `text`.
pub open spec fn xml_depth(text: Seq<char>, k: nat) -> int
    decreases k,
{
    if k == 0 {
        0
    } else {
        xml_depth(text, (k - 1) as nat) + match xml_event(text, (k - 1) as nat) {
            XmlEventView::Start => 1int,
            XmlEventView::End => -1int,
            _ => 0int,
        }
    }
}

proof fn lemma_depth_after_push(s: Seq<XmlItemView>, x: XmlItemView, k: int)
    requires
        0 <= k <= s.len(),
    ensures
        depth_after(s.push(x), k) == depth_after(s, k),
    decreases k,
{
    if k > 0 {
        lemma_depth_after_push(s, x, k - 1);
        assert(s.push(x)[k - 1] == s[k - 1]);
    }
}

/// Whether a token ends the reading.
pub open spec fn is_last_token(t: XmlTokenView) -> bool {
    t is Eof || t is Error
}

/// The token of the `k`-th event read from `text`.
pub open spec fn xml_token_at(text: Seq<char>, k: nat) -> XmlTokenView {
    match xml_event(text, k) {
        XmlEventView::Start => XmlTokenView::Start {
            name: xml_element_name(text, k),
            attributes: xml_element_attributes(text, k),
        },
        XmlEventView::Empty => XmlTokenView::Empty {
            name: xml_element_name(text, k),
            attributes: xml_element_attributes(text, k),
        },
        XmlEventView::End => XmlTokenView::End,
        XmlEventView::Text => XmlTokenView::Text(xml_text_content(text, k)),
        XmlEventView::CData => XmlTokenView::CData(xml_cdata_content(text, k)),
        XmlEventView::Eof => XmlTokenView::Eof,
        XmlEventView::Other => XmlTokenView::Other,
        XmlEventView::Error(m) => XmlTokenView::Error(m),
    }
}

/// The `k`-th token of `text` with the offset where it starts.
pub open spec fn xml_item_at(text: Seq<char>, k: nat) -> XmlItemView {
    XmlItemView { offset: xml_offset(text, k), token: xml_token_at(text, k) }
}

/// How many events are read at most: one more than the bytes of the
/// text, since every event but the end of input takes at least one byte.
pub open spec fn read_limit(text: Seq<char>) -> nat {
    let n = vstd::utf8::encode_utf8(text).len();
    if n < usize::MAX - 2 {
        n + 1
    } else {
        (usize::MAX - 2) as nat
    }
}

/// The tokens of `text` from the `k`-th on, up to and including the end
/// of input or the first syntax error, and none past the `limit`-th.
pub open spec fn xml_tokens_from(text: Seq<char>, k: nat, limit: nat) -> Seq<XmlItemView>
    decreases limit + 1 - k,
{
    if k > limit {
        Seq::empty()
    } else if is_last_token(xml_token_at(text, k)) {
        seq![xml_item_at(text, k)]
    } else {
        seq![xml_item_at(text, k)] + xml_tokens_from(text, k + 1, limit)
    }
}

/// The tokens of `text`, each with the byte offset where it starts.
pub open spec fn xml_tokens(text: Seq<char>) -> Seq<XmlItemView> {
    xml_tokens_from(text, 0, read_limit(text))
}

/// The tokens of `text`, each with the byte offset where it starts,
/// up to and including the end of input or the first syntax error.
pub fn tokenize(text: &str) -> (items: Vec<XmlItem>)
    ensures
        items_view(items@) == xml_tokens(text@),
        well_formed_items(xml_tokens(text@), vstd::utf8::encode_utf8(text@)),
        items@.len() < usize::MAX,
{
    let mut t = open_tokenizer(text);
    let mut items: Vec<XmlItem> = Vec::new();
    let bytes_len = text.as_bytes().len();
    let limit: usize = if bytes_len < usize::MAX - 2 {
        bytes_len + 1
    } else {
        usize::MAX - 2
    };
    assert(limit == read_limit(text@));
    let mut n: usize = 0;
    while n <= limit
        invariant
            limit == read_limit(text@),
            limit <= usize::MAX - 2,
            n <= limit + 1,
            items@.len() == n,
            t.source@ == text@,
            t.reads == n,
            items_view(items@) + xml_tokens_from(text@, n as nat, limit as nat) == xml_tokens(text@),
            well_formed_items(items_view(items@), vstd::utf8::encode_utf8(text@)),
            forall|j: int| 0 <= j < n ==> #[trigger] items_view(items@)[j].offset <= xml_offset(text@, n as nat),
            depth_after(items_view(items@), n as int) == xml_depth(text@, n as nat),
        decreases limit + 1 - n,
    {
        let offset = reader_position(&t);
        let ev = read_raw_event(&mut t, n + 1);
        let token = match &ev {
            RawEvent::Start(e) => XmlToken::Start { name: element_name(e), attributes: element_attributes(e) },
            RawEvent::Empty(e) => XmlToken::Empty { name: element_name(e), attributes: element_attributes(e) },
            RawEvent::End => XmlToken::End,
            RawEvent::Text(e) => XmlToken::Text(text_content(e)),
            RawEvent::CData(e) => XmlToken::CData(cdata_content(e)),
            RawEvent::Eof => XmlToken::Eof,
            RawEvent::Other => XmlToken::Other,
            RawEvent::Error(m) => XmlToken::Error(m.clone()),
        };
        let last = match &token {
            XmlToken::Eof => true,
            XmlToken::Error(_) => true,
            _ => false,
        };
        let ghost before = items@;
        let item = XmlItem { offset, token };
        assert(item_view(item) == xml_item_at(text@, n as nat));
        items.push(item);
        proof {
            let bv = items_view(before);
            let x = xml_item_at(text@, n as nat);
            let iv = items_view(items@);
            assert(iv =~= bv.push(x));
            assert forall|k: int| 0 <= k <= bv.len() implies #[trigger] depth_after(iv, k) == depth_after(bv, k) by {
                lemma_depth_after_push(bv, x, k);
            }
            assert(iv[n as int] == x);
            assert(depth_after(iv, n as int) == depth_after(bv, n as int));
            assert(x.token is Start <==> xml_event(text@, n as nat) is Start);
            assert(x.token is End <==> xml_event(text@, n as nat) is End);
            assert(depth_after(iv, n + 1) == xml_depth(text@, (n + 1) as nat));
            assert forall|k: int| 0 <= k <= iv.len() implies #[trigger] depth_after(iv, k) >= 0 by {
                if k <= bv.len() {
                    assert(depth_after(bv, k) >= 0);
                }
            }
            assert forall|i: int, j: int| 0 <= i <= j < iv.len() implies #[trigger] iv[i].offset <= #[trigger] iv[j].offset by {
                if j < bv.len() {
                    assert(bv[i].offset <= bv[j].offset);
                } else if i < bv.len() {
                    assert(bv[i].offset <= xml_offset(text@, n as nat));
                }
            }
            assert forall|j: int| 0 <= j < iv.len() implies #[trigger] iv[j].offset <= xml_offset(text@, (n + 1) as nat) by {
                if j < bv.len() {
                    assert(bv[j].offset <= xml_offset(text@, n as nat));
                }
            }
            assert(well_formed_items(iv, vstd::utf8::encode_utf8(text@)));
        }
        if last {
            assert(items_view(items@) =~= xml_tokens(text@));
            return items;
        }
        proof {
            assert(items_view(items@) + xml_tokens_from(text@, (n + 1) as nat, limit as nat) =~= items_view(before)
                + xml_tokens_from(text@, n as nat, limit as nat));
        }
        n = n + 1;
    }
    assert(items_view(items@) =~= xml_tokens(text@));
    items
}

/// The display text of the error `std::str::from_utf8` reports for bytes
/// that are not valid UTF-8.
pub uninterp spec fn utf8_error_text(bytes: Seq<u8>) -> Seq<char>;

/// Calls `std::str::from_utf8`: the text when the bytes are valid UTF-8,
/// else the error's display text.
#[verifier::external_body]
fn decode_utf8(bytes: &[u8]) -> (r: Result<String, String>)
    ensures
        match r {
            Ok(s) => vstd::utf8::valid_utf8(bytes@) && s@ == vstd::utf8::decode_utf8(bytes@),
            Err(m) => !vstd::utf8::valid_utf8(bytes@) && m@ == utf8_error_text(bytes@),
        },
{
    match std::str::from_utf8(bytes) {
        Ok(s) => Ok(s.to_string()),
        Err(e) => Err(format!("{e}")),
    }
}

/// The text of the bytes, or the decoding error's text.
pub fn decode_text(bytes: &[u8]) -> (r: Result<String, String>)
    ensures
        match r {
            Ok(s) => vstd::utf8::valid_utf8(bytes@) && s@ == vstd::utf8::decode_utf8(bytes@),
            Err(m) => !vstd::utf8::valid_utf8(bytes@) && m@ == utf8_error_text(bytes@),
        },
{
    decode_utf8(bytes)
}

} // verus!
