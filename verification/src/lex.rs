//! The trusted boundary to the tokenizer and to text decoding.
//!
//! Everything here either declares an outside type, names what an outside
//! function returns, or wraps one outside call; the decoder proper is
//! verified against these contracts and nothing else.

use vstd::prelude::*;
use vstd::utf8::{decode_utf8, valid_utf8};

use crate::records::Timestamp;
use crate::token::{Attr, AttrInfo, GLex, Token, TokenStream};

verus! {

#[verifier::external_type_specification]
#[verifier::external_body]
pub struct ExEvent<'a>(quick_xml::events::Event<'a>);

#[verifier::external_type_specification]
#[verifier::external_body]
pub struct ExBytesStart<'a>(quick_xml::events::BytesStart<'a>);

/// What lexing a byte stream yields: the token sequence with its offsets,
/// and the position of the first lexing failure if there is one. This is a
/// function of the bytes alone.
pub uninterp spec fn lex_of(bytes: Seq<u8>) -> GLex;

/// What decoding a raw text run yields: UTF-8 decoding followed by entity
/// unescaping, a function of the raw bytes alone; `None` when either step
/// fails.
pub uninterp spec fn text_of(raw: Seq<u8>) -> Option<Seq<char>>;

/// Whether a string is a well-formed UTC timestamp, and its epoch value: a
/// function of the characters alone.
pub uninterp spec fn utc_of(s: Seq<char>) -> Option<Timestamp>;

/// Relies on quick_xml's `BytesStart::attributes`: reads the first
/// attribute, whether further items follow it, and whether the list was
/// readable at all; key and value are kept as raw bytes.
#[verifier::external_body]
fn attrs_of<'a>(s: &quick_xml::events::BytesStart<'a>) -> AttrInfo {
    let mut it = s.attributes();
    match it.next() {
        Option::None => AttrInfo::Absent,
        Option::Some(Err(_)) => AttrInfo::Malformed,
        Option::Some(Ok(a)) => {
            let attr = Attr { key: a.key.as_ref().to_vec(), value: a.value.to_vec() };
            if it.next().is_some() { AttrInfo::Several(attr) } else { AttrInfo::Single(attr) }
        },
    }
}

/// Relies on quick_xml's `Event`: maps one event to this crate's token
/// shape, field by field; `None` stands for end of input.
#[verifier::external_body]
fn token_of_event<'a>(ev: quick_xml::events::Event<'a>, pos: usize) -> Option<Token> {
    match ev {
        quick_xml::events::Event::Start(s) => Some(Token::Open { name: s.name().as_ref().to_vec(), attr: attrs_of(&s), pos }),
        quick_xml::events::Event::Empty(s) => Some(Token::Empty { name: s.name().as_ref().to_vec(), attr: attrs_of(&s), pos }),
        quick_xml::events::Event::End(e) => Some(Token::Close { name: e.name().as_ref().to_vec(), pos }),
        quick_xml::events::Event::Text(t) => Some(Token::Text { raw: t.as_ref().to_vec(), pos }),
        quick_xml::events::Event::Eof => Option::None,
        _ => Some(Token::Other { pos }),
    }
}

/// Relies on quick_xml's `Reader`: reads every event of the byte stream in
/// document order, recording after each one the reader's byte position; a
/// lexing error ends the stream and is recorded with its position instead.
#[verifier::external_body]
pub fn tokenize(xml: &[u8]) -> (r: TokenStream)
    ensures
        r@ == lex_of(xml@),
{
    let mut rd = quick_xml::reader::Reader::from_reader(xml);
    let (mut toks, mut buf): (Vec<Token>, Vec<u8>) = (Vec::new(), Vec::new());
    loop {
        let ev = match rd.read_event_into(&mut buf) {
            Ok(ev) => ev.into_owned(),
            Err(_) => return TokenStream { tokens: toks, fail: Some(rd.buffer_position()) },
        };
        match token_of_event(ev, rd.buffer_position()) {
            Some(t) => toks.push(t),
            Option::None => { toks.push(Token::Eof { pos: rd.buffer_position() }); return TokenStream { tokens: toks, fail: Option::None } },
        }
        buf.clear();
    }
}

/// Relies on `str::from_utf8` and quick_xml's `escape::unescape`: decodes a
/// raw text run to characters, a function of the bytes alone.
#[verifier::external_body]
pub fn decode_text(raw: &[u8]) -> (r: Option<String>)
    ensures
        match r {
            Some(s) => text_of(raw@) == Some(s@),
            None => text_of(raw@) is None,
        },
{
    match core::str::from_utf8(raw) {
        Ok(s) => match quick_xml::escape::unescape(s) {
            Ok(t) => Some(t.into_owned()),
            Err(_) => Option::None,
        },
        Err(_) => Option::None,
    }
}

/// Relies on `String::from_utf8`: succeeds exactly on valid UTF-8 and
/// decodes it, leaving the bytes unchanged.
#[verifier::external_body]
pub fn utf8_string(b: &[u8]) -> (r: Option<String>)
    ensures
        r matches Some(s) ==> valid_utf8(b@) && s@ == decode_utf8(b@),
        r is None ==> !valid_utf8(b@),
{
    match String::from_utf8(b.to_vec()) {
        Ok(s) => Some(s),
        Err(_) => Option::None,
    }
}

/// Relies on chrono's `DateTime<Utc>` `FromStr`: whether a string is a
/// well-formed timestamp, and which UTC instant it names, are functions of
/// the characters alone.
#[verifier::external_body]
pub fn parse_timestamp(s: &str) -> (r: Option<Timestamp>)
    ensures
        r == utc_of(s@),
{
    match s.parse::<chrono::DateTime<chrono::Utc>>() {
        Ok(d) => Some(Timestamp { secs: d.timestamp(), nanos: d.timestamp_subsec_nanos() }),
        Err(_) => Option::None,
    }
}

} // verus!
