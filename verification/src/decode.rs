//! The executable decoder: a strict top-down walk of the token stream with
//! one token of lookahead and no backtracking, verified step by step against
//! the grammar in `crate::grammar`.
//!
//! Every function takes the lexed stream and an index, and returns the next
//! index (the pushback discipline: a peek that does not match simply leaves
//! the index in place) or the fault the grammar assigns.

use vstd::prelude::*;
use vstd::slice::slice_to_vec;

use crate::error::{Fault, GFault};
use crate::grammar::{
    sp_adv, sp_attr_then_resolve, sp_comment, sp_contributor, sp_contributor_block,
    sp_contributor_user, sp_expect_close, sp_expect_open, sp_get_start, sp_get_start_attr,
    sp_is_deleted_marker, sp_minor, sp_origin, sp_peek_is, sp_prev_pos, sp_read_text,
    sp_revision, sp_revision_close, sp_revision_rest, sp_revision_tail, sp_revisions,
    sp_skip_text, sp_text_chars, sp_text_i32, sp_text_ip, sp_text_timestamp, sp_text_u32,
};
use crate::records::{GPage, GRevision, Page, Revision};
use crate::consumer::{Outcome, PageConsumer};
use crate::error::{is_fault, Error};
use crate::grammar::{
    lemma_pages_bad, lemma_pages_end, lemma_pages_fault, lemma_pages_step, sp_dump, sp_header,
    sp_page_body, sp_page_head, sp_page_rest, sp_page_tail, sp_pages, sp_skip_block, GParse,
};
use vstd::utf8::valid_utf8;
use crate::records::GContributor;
use crate::records::GComment;
use crate::lex::{decode_text, parse_timestamp, utf8_string};
use crate::records::{Comment, Contributor, IpAddr, Timestamp};
use crate::tag::Tag;
use crate::token::{Attr, AttrInfo, GToken, Token, TokenStream};
use crate::values::{parse_i32, parse_u32};

verus! {

/// The byte offset of one token.
pub fn token_pos(t: &Token) -> (p: usize)
    ensures
        p == t@.pos(),
{
    match t {
        Token::Open { pos, .. } => *pos,
        Token::Empty { pos, .. } => *pos,
        Token::Close { pos, .. } => *pos,
        Token::Text { pos, .. } => *pos,
        Token::Eof { pos } => *pos,
        Token::Other { pos } => *pos,
    }
}

/// The position a failed read at index `i` reports.
pub fn pos_at(ts: &TokenStream, i: usize) -> (p: usize)
    ensures
        p == ts@.pos_at(i as int),
{
    if i < ts.tokens.len() {
        token_pos(&ts.tokens[i])
    } else {
        match ts.fail {
            Some(p) => p,
            None => if ts.tokens.len() > 0 {
                token_pos(&ts.tokens[ts.tokens.len() - 1])
            } else {
                0
            },
        }
    }
}

/// Consume the mandatory inter-element text run.
pub fn skip_text(ts: &TokenStream, i: usize) -> (r: Result<usize, Fault>)
    ensures
        match r {
            Ok(j) => sp_skip_text(ts@, i as int) == Ok::<int, GFault>(j as int) && i < j
                <= ts.tokens@.len(),
            Err(f) => sp_skip_text(ts@, i as int) == Err::<int, GFault>(f@),
        },
{
    if i < ts.tokens.len() {
        match &ts.tokens[i] {
            Token::Text { .. } => Ok(i + 1),
            _ => Err(Fault::Format { position: pos_at(ts, i) }),
        }
    } else {
        Err(Fault::Format { position: pos_at(ts, i) })
    }
}

/// Read a start tag (open or self-closing) and resolve its name.
pub fn get_start(ts: &TokenStream, i: usize) -> (r: Result<(Tag, bool, usize), Fault>)
    ensures
        match r {
            Ok((t, e, j)) => sp_get_start(ts@, i as int) == Ok::<_, GFault>((t, e, j as int)) && i
                < j <= ts.tokens@.len(),
            Err(f) => sp_get_start(ts@, i as int) == Err::<(Tag, bool, int), GFault>(f@),
        },
{
    if i < ts.tokens.len() {
        match &ts.tokens[i] {
            Token::Open { name, .. } => match Tag::resolve(name.as_slice()) {
                Some(t) => Ok((t, false, i + 1)),
                None => Err(Fault::UnexpectedTag(slice_to_vec(name.as_slice()))),
            },
            Token::Empty { name, .. } => match Tag::resolve(name.as_slice()) {
                Some(t) => Ok((t, true, i + 1)),
                None => Err(Fault::UnexpectedTag(slice_to_vec(name.as_slice()))),
            },
            _ => Err(Fault::Format { position: pos_at(ts, i) }),
        }
    } else {
        Err(Fault::Format { position: pos_at(ts, i) })
    }
}

/// Read a start tag together with its first attribute; the attribute list
/// is checked before the name is resolved.
pub fn get_start_attr<'a>(ts: &'a TokenStream, i: usize) -> (r: Result<
    (Tag, Option<&'a Attr>, bool, usize),
    Fault,
>)
    ensures
        match r {
            Ok((t, a, e, j)) => ({
                let s = sp_get_start_attr(ts@, i as int);
                &&& s matches Ok(sv)
                &&& sv.0 == t
                &&& sv.1 == match a {
                    Some(x) => Some(x@),
                    None => None,
                }
                &&& sv.2 == e
                &&& sv.3 == j as int
                &&& i < j <= ts.tokens@.len()
            }),
            Err(f) => sp_get_start_attr(ts@, i as int) == Err::<
                (Tag, Option<crate::token::GAttr>, bool, int),
                GFault,
            >(f@),
        },
{
    if i < ts.tokens.len() {
        match &ts.tokens[i] {
            Token::Open { name, attr, pos } => attr_then_resolve(name, attr, false, *pos, i),
            Token::Empty { name, attr, pos } => attr_then_resolve(name, attr, true, *pos, i),
            _ => Err(Fault::Format { position: pos_at(ts, i) }),
        }
    } else {
        Err(Fault::Format { position: pos_at(ts, i) })
    }
}

/// Attribute examination and name resolution for one start tag; the index
/// bookkeeping stays with the caller.
fn attr_then_resolve<'a>(name: &Vec<u8>, attr: &'a AttrInfo, is_empty: bool, pos: usize, i: usize) -> (r:
    Result<(Tag, Option<&'a Attr>, bool, usize), Fault>)
    requires
        i < usize::MAX,
    ensures
        match r {
            Ok((t, a, e, j)) => ({
                let s = sp_attr_then_resolve(name@, attr@, is_empty, pos, i as int);
                &&& s matches Ok(sv)
                &&& sv.0 == t
                &&& sv.1 == match a {
                    Some(x) => Some(x@),
                    None => None,
                }
                &&& sv.2 == e
                &&& sv.3 == j as int
                &&& j == i + 1
            }),
            Err(f) => sp_attr_then_resolve(name@, attr@, is_empty, pos, i as int) == Err::<
                (Tag, Option<crate::token::GAttr>, bool, int),
                GFault,
            >(f@),
        },
{
    let first: Option<&Attr> = match attr {
        AttrInfo::Absent => None,
        AttrInfo::Single(a) => {
            if utf8_string(a.value.as_slice()).is_none() {
                return Err(Fault::Format { position: pos });
            }
            Some(a)
        },
        AttrInfo::Several(a) => {
            if utf8_string(a.value.as_slice()).is_none() {
                return Err(Fault::Format { position: pos });
            }
            Some(a)
        },
        AttrInfo::Malformed => {
            return Err(Fault::Format { position: pos });
        },
    };
    match Tag::resolve(name.as_slice()) {
        Some(t) => Ok((t, first, is_empty, i + 1)),
        None => Err(Fault::UnexpectedTag(slice_to_vec(name.as_slice()))),
    }
}

/// Expect a start tag of exactly `t`.
pub fn expect_open(ts: &TokenStream, i: usize, t: Tag) -> (r: Result<usize, Fault>)
    ensures
        match r {
            Ok(j) => sp_expect_open(ts@, i as int, t) == Ok::<int, GFault>(j as int) && i < j
                <= ts.tokens@.len(),
            Err(f) => sp_expect_open(ts@, i as int, t) == Err::<int, GFault>(f@),
        },
{
    match get_start(ts, i) {
        Ok((a, _e, j)) => if a == t {
            Ok(j)
        } else {
            Err(Fault::Tag { expected: t, actual: a, position: pos_at(ts, i) })
        },
        Err(f) => Err(f),
    }
}

/// Expect the closing tag of exactly `t`.
pub fn expect_close(ts: &TokenStream, i: usize, t: Tag) -> (r: Result<usize, Fault>)
    ensures
        match r {
            Ok(j) => sp_expect_close(ts@, i as int, t) == Ok::<int, GFault>(j as int) && i < j
                <= ts.tokens@.len(),
            Err(f) => sp_expect_close(ts@, i as int, t) == Err::<int, GFault>(f@),
        },
{
    if i < ts.tokens.len() {
        match &ts.tokens[i] {
            Token::Close { name, pos } => match Tag::resolve(name.as_slice()) {
                Some(a) => if a == t {
                    Ok(i + 1)
                } else {
                    Err(Fault::Tag { expected: t, actual: a, position: *pos })
                },
                None => Err(Fault::UnexpectedTag(slice_to_vec(name.as_slice()))),
            },
            _ => Err(Fault::Format { position: pos_at(ts, i) }),
        }
    } else {
        Err(Fault::Format { position: pos_at(ts, i) })
    }
}

/// Element content as plain text with its end tag (decode failure is a
/// format fault).
pub fn read_text(ts: &TokenStream, i: usize, t: Tag) -> (r: Result<(String, usize), Fault>)
    ensures
        match r {
            Ok((s, j)) => sp_read_text(ts@, i as int, t) == Ok::<_, GFault>((s@, j as int)) && i
                < j <= ts.tokens@.len(),
            Err(f) => sp_read_text(ts@, i as int, t) == Err::<(Seq<char>, int), GFault>(f@),
        },
{
    if i >= ts.tokens.len() {
        return Err(Fault::Format { position: pos_at(ts, i) });
    }
    match &ts.tokens[i] {
        Token::Text { raw, pos } => match decode_text(raw.as_slice()) {
            Some(s) => {
                if i + 1 >= ts.tokens.len() {
                    return Err(Fault::Format { position: pos_at(ts, i + 1) });
                }
                match &ts.tokens[i + 1] {
                    Token::Close { name, pos: p2 } => match Tag::resolve(name.as_slice()) {
                        Some(a) => if a == t {
                            Ok((s, i + 2))
                        } else {
                            Err(Fault::Format { position: *p2 })
                        },
                        None => Err(Fault::UnexpectedTag(slice_to_vec(name.as_slice()))),
                    },
                    _ => Err(Fault::Format { position: pos_at(ts, i + 1) }),
                }
            },
            None => Err(Fault::Format { position: *pos }),
        },
        _ => Err(Fault::Format { position: pos_at(ts, i) }),
    }
}

/// Element content as a decoded payload with its end tag (decode failure is
/// a decode fault, end-tag mismatch the sharper tag fault).
pub fn text_chars(ts: &TokenStream, i: usize, t: Tag) -> (r: Result<(String, usize), Fault>)
    ensures
        match r {
            Ok((s, j)) => sp_text_chars(ts@, i as int, t) == Ok::<_, GFault>((s@, j as int)) && i
                < j <= ts.tokens@.len(),
            Err(f) => sp_text_chars(ts@, i as int, t) == Err::<(Seq<char>, int), GFault>(f@),
        },
{
    if i >= ts.tokens.len() {
        return Err(Fault::Format { position: pos_at(ts, i) });
    }
    match &ts.tokens[i] {
        Token::Text { raw, pos } => match decode_text(raw.as_slice()) {
            Some(s) => {
                if i + 1 >= ts.tokens.len() {
                    return Err(Fault::Format { position: pos_at(ts, i + 1) });
                }
                match &ts.tokens[i + 1] {
                    Token::Close { name, pos: p2 } => match Tag::resolve(name.as_slice()) {
                        Some(a) => if a == t {
                            Ok((s, i + 2))
                        } else {
                            Err(Fault::Tag { expected: t, actual: a, position: *p2 })
                        },
                        None => Err(Fault::UnexpectedTag(slice_to_vec(name.as_slice()))),
                    },
                    _ => Err(Fault::Format { position: pos_at(ts, i + 1) }),
                }
            },
            None => Err(Fault::FailedToDecode { position: *pos }),
        },
        _ => Err(Fault::Format { position: pos_at(ts, i) }),
    }
}

/// The position just before reading token `i`.
fn prev_pos(ts: &TokenStream, i: usize) -> (p: usize)
    ensures
        p == sp_prev_pos(ts@, i as int),
{
    if i >= 1 {
        pos_at(ts, i - 1)
    } else {
        0
    }
}

/// Unsigned numeric element content.
pub fn text_u32(ts: &TokenStream, i: usize, t: Tag) -> (r: Result<(u32, usize), Fault>)
    ensures
        match r {
            Ok((v, j)) => sp_text_u32(ts@, i as int, t) == Ok::<_, GFault>((v, j as int)) && i < j
                <= ts.tokens@.len(),
            Err(f) => sp_text_u32(ts@, i as int, t) == Err::<(u32, int), GFault>(f@),
        },
{
    match text_chars(ts, i, t) {
        Ok((s, j)) => match parse_u32(s.as_str()) {
            Some(v) => Ok((v, j)),
            None => Err(Fault::Format { position: prev_pos(ts, i) }),
        },
        Err(f) => Err(f),
    }
}

/// Signed numeric element content.
pub fn text_i32(ts: &TokenStream, i: usize, t: Tag) -> (r: Result<(i32, usize), Fault>)
    ensures
        match r {
            Ok((v, j)) => sp_text_i32(ts@, i as int, t) == Ok::<_, GFault>((v, j as int)) && i < j
                <= ts.tokens@.len(),
            Err(f) => sp_text_i32(ts@, i as int, t) == Err::<(i32, int), GFault>(f@),
        },
{
    match text_chars(ts, i, t) {
        Ok((s, j)) => match parse_i32(s.as_str()) {
            Some(v) => Ok((v, j)),
            None => Err(Fault::Format { position: prev_pos(ts, i) }),
        },
        Err(f) => Err(f),
    }
}

/// Timestamp element content.
pub fn text_timestamp(ts: &TokenStream, i: usize, t: Tag) -> (r: Result<(Timestamp, usize), Fault>)
    ensures
        match r {
            Ok((v, j)) => sp_text_timestamp(ts@, i as int, t) == Ok::<_, GFault>((v, j as int))
                && i < j <= ts.tokens@.len(),
            Err(f) => sp_text_timestamp(ts@, i as int, t) == Err::<(Timestamp, int), GFault>(f@),
        },
{
    match text_chars(ts, i, t) {
        Ok((s, j)) => match parse_timestamp(s.as_str()) {
            Some(v) => Ok((v, j)),
            None => Err(Fault::Format { position: prev_pos(ts, i) }),
        },
        Err(f) => Err(f),
    }
}

/// Network-address element content.
pub fn text_ip(ts: &TokenStream, i: usize, t: Tag) -> (r: Result<(IpAddr, usize), Fault>)
    ensures
        match r {
            Ok((v, j)) => sp_text_ip(ts@, i as int, t) == Ok::<_, GFault>((v, j as int)) && i < j
                <= ts.tokens@.len(),
            Err(f) => sp_text_ip(ts@, i as int, t) == Err::<(IpAddr, int), GFault>(f@),
        },
{
    match text_chars(ts, i, t) {
        Ok((s, j)) => match crate::ip::parse_ip(s.as_str()) {
            Some(v) => Ok((v, j)),
            None => Err(Fault::Format { position: prev_pos(ts, i) }),
        },
        Err(f) => Err(f),
    }
}

/// Lookahead: is the next token an opening (or self-closing) tag resolving
/// to `t`? Never consumes.
pub fn peek_is(ts: &TokenStream, i: usize, t: Tag, want_empty: bool) -> (r: bool)
    ensures
        r == sp_peek_is(ts@, i as int, t, want_empty),
{
    if i < ts.tokens.len() {
        match &ts.tokens[i] {
            Token::Empty { name, .. } => {
                if !want_empty {
                    return false;
                }
                match Tag::resolve(name.as_slice()) {
                    Some(a) => a == t,
                    None => false,
                }
            },
            Token::Open { name, .. } => {
                if want_empty {
                    return false;
                }
                match Tag::resolve(name.as_slice()) {
                    Some(a) => a == t,
                    None => false,
                }
            },
            _ => false,
        }
    } else {
        false
    }
}

/// The suppression marker test on one attribute.
fn is_deleted_marker(a: &Attr) -> (r: bool)
    ensures
        r == sp_is_deleted_marker(a@),
{
    crate::tag::bytes_is(a.key.as_slice(), "deleted") && crate::tag::bytes_is(
        a.value.as_slice(),
        "deleted",
    )
}

/// The contributor sub-machine.
pub fn contributor(ts: &TokenStream, i: usize) -> (r: Result<(Contributor, usize), Fault>)
    ensures
        match r {
            Ok((c, j)) => sp_contributor(ts@, i as int) == Ok::<_, GFault>((c@, j as int)) && i
                < j <= ts.tokens@.len(),
            Err(f) => sp_contributor(ts@, i as int) == Err::<(GContributor, int), GFault>(f@),
        },
{
    proof {
        reveal(sp_contributor);
    }
    match get_start_attr(ts, i) {
        Ok((t, _attr, is_empty, j)) => {
            if t != Tag::Contributor {
                return Err(Fault::Format { position: pos_at(ts, i) });
            }
            if is_empty {
                match &ts.tokens[i] {
                    Token::Empty { attr: AttrInfo::Single(a), .. } => if is_deleted_marker(a) {
                        Ok((Contributor::Deleted, j))
                    } else {
                        Err(Fault::Format { position: pos_at(ts, i) })
                    },
                    _ => Err(Fault::Format { position: pos_at(ts, i) }),
                }
            } else {
                contributor_block(ts, j)
            }
        },
        Err(f) => Err(f),
    }
}

/// Inside an open `contributor` block.
fn contributor_block(ts: &TokenStream, i: usize) -> (r: Result<(Contributor, usize), Fault>)
    ensures
        match r {
            Ok((c, j)) => sp_contributor_block(ts@, i as int) == Ok::<_, GFault>((c@, j as int))
                && i - 1 < j <= ts.tokens@.len(),
            Err(f) => sp_contributor_block(ts@, i as int) == Err::<(GContributor, int), GFault>(
                f@,
            ),
        },
{
    proof {
        reveal(sp_contributor_block);
    }
    let j = match skip_text(ts, i) {
        Ok(j) => j,
        Err(f) => {
            return Err(f);
        },
    };
    let (t, _ie, k) = match get_start(ts, j) {
        Ok(v) => v,
        Err(f) => {
            return Err(f);
        },
    };
    let inner: Result<(Contributor, usize), Fault> = if t == Tag::Username {
        contributor_user(ts, k)
    } else if t == Tag::Ip {
        match text_ip(ts, k, Tag::Ip) {
            Ok((ip, m)) => match skip_text(ts, m) {
                Ok(m2) => Ok((Contributor::Ip { ip }, m2)),
                Err(f) => Err(f),
            },
            Err(f) => Err(f),
        }
    } else {
        Err(Fault::Format { position: pos_at(ts, j) })
    };
    match inner {
        Ok((c, m)) => match expect_close(ts, m, Tag::Contributor) {
            Ok(m2) => Ok((c, m2)),
            Err(f) => Err(f),
        },
        Err(f) => Err(f),
    }
}

/// A registered contributor.
fn contributor_user(ts: &TokenStream, i: usize) -> (r: Result<(Contributor, usize), Fault>)
    ensures
        match r {
            Ok((c, j)) => sp_contributor_user(ts@, i as int) == Ok::<_, GFault>((c@, j as int))
                && i < j <= ts.tokens@.len(),
            Err(f) => sp_contributor_user(ts@, i as int) == Err::<(GContributor, int), GFault>(
                f@,
            ),
        },
{
    proof {
        reveal(sp_contributor_user);
    }
    let (username, j) = match read_text(ts, i, Tag::Username) {
        Ok(v) => v,
        Err(f) => {
            return Err(f);
        },
    };
    let j2 = match skip_text(ts, j) {
        Ok(v) => v,
        Err(f) => {
            return Err(f);
        },
    };
    let j3 = match expect_open(ts, j2, Tag::Id) {
        Ok(v) => v,
        Err(f) => {
            return Err(f);
        },
    };
    let (id, j4) = match text_u32(ts, j3, Tag::Id) {
        Ok(v) => v,
        Err(f) => {
            return Err(f);
        },
    };
    let j5 = match skip_text(ts, j4) {
        Ok(v) => v,
        Err(f) => {
            return Err(f);
        },
    };
    Ok((Contributor::User { username, id }, j5))
}

/// The optional `minor` marker, by lookahead.
pub fn minor_flag(ts: &TokenStream, i: usize) -> (r: Result<(bool, usize), Fault>)
    ensures
        match r {
            Ok((m, j)) => sp_minor(ts@, i as int) == Ok::<_, GFault>((m, j as int)) && (j == i
                || (i < j && j <= ts.tokens@.len())),
            Err(f) => sp_minor(ts@, i as int) == Err::<(bool, int), GFault>(f@),
        },
{
    if i < ts.tokens.len() && peek_is(ts, i, Tag::Minor, true) {
        match skip_text(ts, i + 1) {
            Ok(j) => Ok((true, j)),
            Err(f) => Err(f),
        }
    } else {
        Ok((false, i))
    }
}

/// The optional `origin` extension field, by lookahead.
pub fn origin_field(ts: &TokenStream, i: usize) -> (r: Result<(Option<u32>, usize), Fault>)
    ensures
        match r {
            Ok((v, j)) => sp_origin(ts@, i as int) == Ok::<_, GFault>((v, j as int)) && (j == i
                || (i < j && j <= ts.tokens@.len())),
            Err(f) => sp_origin(ts@, i as int) == Err::<(Option<u32>, int), GFault>(f@),
        },
{
    if i < ts.tokens.len() && peek_is(ts, i, Tag::Origin, false) {
        match text_u32(ts, i + 1, Tag::Origin) {
            Ok((v, j)) => match skip_text(ts, j) {
                Ok(j2) => Ok((Some(v), j2)),
                Err(f) => Err(f),
            },
            Err(f) => Err(f),
        }
    } else {
        Ok((None, i))
    }
}

/// The comment sub-machine, by lookahead with pushback.
pub fn comment_field(ts: &TokenStream, i: usize) -> (r: Result<(Comment, usize), Fault>)
    ensures
        match r {
            Ok((c, j)) => sp_comment(ts@, i as int) == Ok::<_, GFault>((c@, j as int)) && (j == i
                || (i < j && j <= ts.tokens@.len())),
            Err(f) => sp_comment(ts@, i as int) == Err::<(GComment, int), GFault>(f@),
        },
{
    if i < ts.tokens.len() && peek_is(ts, i, Tag::Comment, false) {
        match text_chars(ts, i + 1, Tag::Comment) {
            Ok((text, j)) => match skip_text(ts, j) {
                Ok(j2) => Ok((Comment::Visible(text), j2)),
                Err(f) => Err(f),
            },
            Err(f) => Err(f),
        }
    } else if i < ts.tokens.len() && peek_is(ts, i, Tag::Comment, true) {
        match &ts.tokens[i] {
            Token::Empty { attr: AttrInfo::Single(a), .. } => if is_deleted_marker(a) {
                match skip_text(ts, i + 1) {
                    Ok(j) => Ok((Comment::DeletedOrAbsent(true), j)),
                    Err(f) => Err(f),
                }
            } else {
                Err(Fault::Format { position: pos_at(ts, i) })
            },
            _ => Err(Fault::Format { position: pos_at(ts, i) }),
        }
    } else {
        Ok((Comment::DeletedOrAbsent(false), i))
    }
}

/// One whole revision, entered just past `<revision>` and its text run.
pub fn revision(ts: &TokenStream, i: usize) -> (r: Result<(Revision, usize), Fault>)
    ensures
        match r {
            Ok((v, j)) => sp_revision(ts@, i as int) == Ok::<_, GFault>((v@, j as int)) && i < j
                <= ts.tokens@.len(),
            Err(f) => sp_revision(ts@, i as int) == Err::<(GRevision, int), GFault>(f@),
        },
{
    proof {
        reveal(sp_revision);
        reveal(sp_revision_rest);
        reveal(sp_revision_tail);
        reveal(sp_revision_close);
    }
    let i1 = match expect_open(ts, i, Tag::Id) {
        Ok(v) => v,
        Err(f) => {
            return Err(f);
        },
    };
    let (id, i2) = match text_u32(ts, i1, Tag::Id) {
        Ok(v) => v,
        Err(f) => {
            return Err(f);
        },
    };
    let i3 = match skip_text(ts, i2) {
        Ok(v) => v,
        Err(f) => {
            return Err(f);
        },
    };
    let (t, _ie, i4) = match get_start(ts, i3) {
        Ok(v) => v,
        Err(f) => {
            return Err(f);
        },
    };
    let (parent_id, t2, i5) = if t == Tag::ParentId {
        let (pid, j) = match text_u32(ts, i4, Tag::ParentId) {
            Ok(v) => v,
            Err(f) => {
                return Err(f);
            },
        };
        let j2 = match skip_text(ts, j) {
            Ok(v) => v,
            Err(f) => {
                return Err(f);
            },
        };
        let (t2, _ie2, j3) = match get_start(ts, j2) {
            Ok(v) => v,
            Err(f) => {
                return Err(f);
            },
        };
        (Some(pid), t2, j3)
    } else {
        (None, t, i4)
    };
    if t2 != Tag::Timestamp {
        return Err(Fault::Format { position: prev_pos(ts, i5) });
    }
    // the rest, from the timestamp payload on
    let (timestamp, i6) = match text_timestamp(ts, i5, Tag::Timestamp) {
        Ok(v) => v,
        Err(f) => {
            return Err(f);
        },
    };
    let i7 = match skip_text(ts, i6) {
        Ok(v) => v,
        Err(f) => {
            return Err(f);
        },
    };
    let (contributor, i8) = match contributor(ts, i7) {
        Ok(v) => v,
        Err(f) => {
            return Err(f);
        },
    };
    let i9 = match skip_text(ts, i8) {
        Ok(v) => v,
        Err(f) => {
            return Err(f);
        },
    };
    let (minor, i10) = match minor_flag(ts, i9) {
        Ok(v) => v,
        Err(f) => {
            return Err(f);
        },
    };
    let (origin, i11) = match origin_field(ts, i10) {
        Ok(v) => v,
        Err(f) => {
            return Err(f);
        },
    };
    let (comment, i12) = match comment_field(ts, i11) {
        Ok(v) => v,
        Err(f) => {
            return Err(f);
        },
    };
    // the closing stretch: model, format, text, sha1, end tag
    let i13 = match expect_open(ts, i12, Tag::Model) {
        Ok(v) => v,
        Err(f) => {
            return Err(f);
        },
    };
    let (model, i14) = match text_chars(ts, i13, Tag::Model) {
        Ok(v) => v,
        Err(f) => {
            return Err(f);
        },
    };
    let i15 = match skip_text(ts, i14) {
        Ok(v) => v,
        Err(f) => {
            return Err(f);
        },
    };
    let i16 = match expect_open(ts, i15, Tag::Format) {
        Ok(v) => v,
        Err(f) => {
            return Err(f);
        },
    };
    let (format, i17) = match text_chars(ts, i16, Tag::Format) {
        Ok(v) => v,
        Err(f) => {
            return Err(f);
        },
    };
    let i18 = match skip_text(ts, i17) {
        Ok(v) => v,
        Err(f) => {
            return Err(f);
        },
    };
    let (t3, is_empty3, i19) = match get_start(ts, i18) {
        Ok(v) => v,
        Err(f) => {
            return Err(f);
        },
    };
    if t3 != Tag::Text {
        return Err(Fault::Format { position: prev_pos(ts, i19) });
    }
    let (text, i20) = if is_empty3 {
        (String::new(), i19)
    } else {
        match text_chars(ts, i19, Tag::Text) {
            Ok(v) => v,
            Err(f) => {
                return Err(f);
            },
        }
    };
    let i21 = match skip_text(ts, i20) {
        Ok(v) => v,
        Err(f) => {
            return Err(f);
        },
    };
    let i22 = match expect_open(ts, i21, Tag::Sha1) {
        Ok(v) => v,
        Err(f) => {
            return Err(f);
        },
    };
    let (sha1, i23) = match text_chars(ts, i22, Tag::Sha1) {
        Ok(v) => v,
        Err(f) => {
            return Err(f);
        },
    };
    let i24 = match skip_text(ts, i23) {
        Ok(v) => v,
        Err(f) => {
            return Err(f);
        },
    };
    let i25 = match expect_close(ts, i24, Tag::Revision) {
        Ok(v) => v,
        Err(f) => {
            return Err(f);
        },
    };
    let i26 = match skip_text(ts, i25) {
        Ok(v) => v,
        Err(f) => {
            return Err(f);
        },
    };
    Ok(
        (
            Revision {
                id,
                parent_id,
                timestamp,
                contributor,
                origin,
                minor,
                comment,
                model,
                format,
                text,
                sha1,
            },
            i26,
        ),
    )
}

/// The view of a revision list.
pub open spec fn revs_view(v: Seq<Revision>) -> Seq<GRevision> {
    v.map_values(|r: Revision| r@)
}

/// The revision loop: revisions until the page's end tag.
#[verifier::rlimit(100)]
#[verifier::spinoff_prover]
pub fn revisions(ts: &TokenStream, i: usize) -> (r: Result<(Vec<Revision>, usize), Fault>)
    ensures
        match r {
            Ok((v, j)) => sp_revisions(ts@, i as int) == Ok::<_, GFault>((revs_view(v@), j as int))
                && i < j <= ts.tokens@.len(),
            Err(f) => sp_revisions(ts@, i as int) == Err::<(Seq<GRevision>, int), GFault>(f@),
        },
{
    proof {
        reveal(sp_revisions);
    }
    let mut acc: Vec<Revision> = Vec::new();
    let mut cur = i;
    loop
        invariant
            i <= cur <= ts.tokens@.len() || cur == i,
            sp_revisions(ts@, i as int) == (match sp_revisions(ts@, cur as int) {
                Ok((rest, m)) => Ok::<_, GFault>((revs_view(acc@) + rest, m)),
                Err(f) => Err::<(Seq<GRevision>, int), GFault>(f),
            }),
        decreases ts.tokens@.len() + 1 - cur,
    {
        proof {
            reveal(sp_revisions);
        }
        if cur >= ts.tokens.len() {
            // out of tokens: the grammar faults here
            return Err(Fault::Format { position: pos_at(ts, cur) });
        }
        match &ts.tokens[cur] {
            Token::Open { name, .. } => {
                match Tag::resolve(name.as_slice()) {
                    Some(Tag::Revision) => {
                        let j = match skip_text(ts, cur + 1) {
                            Ok(v) => v,
                            Err(f) => {
                                return Err(f);
                            },
                        };
                        let (rev, k) = match revision(ts, j) {
                            Ok(v) => v,
                            Err(f) => {
                                return Err(f);
                            },
                        };
                        proof {
                            assert(sp_adv(ts@, cur as int, k as int) == k as int);
                            assert(revs_view(acc@.push(rev)) =~= revs_view(acc@) + seq![rev@]);
                            assert(forall|rest: Seq<GRevision>|
                                (revs_view(acc@) + (seq![rev@] + rest)) =~= ((revs_view(acc@)
                                    + seq![rev@]) + rest));
                        }
                        acc.push(rev);
                        cur = k;
                    },
                    _ => {
                        return Err(Fault::Format { position: pos_at(ts, cur) });
                    },
                }
            },
            Token::Close { name, .. } => {
                match Tag::resolve(name.as_slice()) {
                    Some(Tag::Page) => {
                        let j = match skip_text(ts, cur + 1) {
                            Ok(v) => v,
                            Err(f) => {
                                return Err(f);
                            },
                        };
                        proof {
                            assert(revs_view(acc@) + Seq::<GRevision>::empty() =~= revs_view(
                                acc@,
                            ));
                        }
                        return Ok((acc, j));
                    },
                    _ => {
                        return Err(Fault::Format { position: pos_at(ts, cur) });
                    },
                }
            },
            _ => {
                return Err(Fault::Format { position: pos_at(ts, cur) });
            },
        }
    }
}

/// `title`, `ns` and `id` at the head of a page.
fn page_head(ts: &TokenStream, i: usize) -> (r: Result<(String, i32, u32, usize), Fault>)
    ensures
        match r {
            Ok((title, ns, id, j)) => sp_page_head(ts@, i as int) == Ok::<_, GFault>(
                (title@, ns, id, j as int),
            ) && i < j <= ts.tokens@.len(),
            Err(f) => sp_page_head(ts@, i as int) == Err::<(Seq<char>, i32, u32, int), GFault>(
                f@,
            ),
        },
{
    proof {
        reveal(sp_page_head);
    }
    let i1 = match skip_text(ts, i) {
        Ok(v) => v,
        Err(f) => {
            return Err(f);
        },
    };
    let i2 = match expect_open(ts, i1, Tag::Title) {
        Ok(v) => v,
        Err(f) => {
            return Err(f);
        },
    };
    let (title, i3) = match read_text(ts, i2, Tag::Title) {
        Ok(v) => v,
        Err(f) => {
            return Err(f);
        },
    };
    let i4 = match skip_text(ts, i3) {
        Ok(v) => v,
        Err(f) => {
            return Err(f);
        },
    };
    let i5 = match expect_open(ts, i4, Tag::Ns) {
        Ok(v) => v,
        Err(f) => {
            return Err(f);
        },
    };
    let (ns, i6) = match text_i32(ts, i5, Tag::Ns) {
        Ok(v) => v,
        Err(f) => {
            return Err(f);
        },
    };
    let i7 = match skip_text(ts, i6) {
        Ok(v) => v,
        Err(f) => {
            return Err(f);
        },
    };
    let i8 = match expect_open(ts, i7, Tag::Id) {
        Ok(v) => v,
        Err(f) => {
            return Err(f);
        },
    };
    let (id, i9) = match text_u32(ts, i8, Tag::Id) {
        Ok(v) => v,
        Err(f) => {
            return Err(f);
        },
    };
    let i10 = match skip_text(ts, i9) {
        Ok(v) => v,
        Err(f) => {
            return Err(f);
        },
    };
    Ok((title, ns, id, i10))
}

/// A page body, entered just past `<page>`.
pub fn page_body(ts: &TokenStream, i: usize) -> (r: Result<(Page, usize), Fault>)
    ensures
        match r {
            Ok((pg, j)) => sp_page_body(ts@, i as int) == Ok::<_, GFault>((pg@, j as int)) && i
                < j <= ts.tokens@.len(),
            Err(f) => sp_page_body(ts@, i as int) == Err::<(GPage, int), GFault>(f@),
        },
{
    proof {
        reveal(sp_page_body);
    }
    let (title, namespace, id, i1) = match page_head(ts, i) {
        Ok(v) => v,
        Err(f) => {
            return Err(f);
        },
    };
    page_rest(ts, i1, title, namespace, id)
}

/// After the page head: the optional self-closing `redirect`.
fn page_rest(ts: &TokenStream, i: usize, title: String, namespace: i32, id: u32) -> (r: Result<
    (Page, usize),
    Fault,
>)
    ensures
        match r {
            Ok((pg, j)) => sp_page_rest(ts@, i as int, title@, namespace, id) == Ok::<_, GFault>(
                (pg@, j as int),
            ) && i < j <= ts.tokens@.len(),
            Err(f) => sp_page_rest(ts@, i as int, title@, namespace, id) == Err::<
                (GPage, int),
                GFault,
            >(f@),
        },
{
    proof {
        reveal(sp_page_rest);
    }
    let (t, attr, is_empty, i2) = match get_start_attr(ts, i) {
        Ok(v) => v,
        Err(f) => {
            return Err(f);
        },
    };
    if t == Tag::Redirect {
        if !is_empty {
            return Err(Fault::Format { position: pos_at(ts, i) });
        }
        match attr {
            Some(a) => {
                let target = match utf8_string(a.value.as_slice()) {
                    Some(v) => v,
                    None => {
                        proof {
                            assert(valid_utf8(a@.value));
                            assert(false);
                        }
                        return Err(Fault::Format { position: 0 });
                    },
                };
                let j = match skip_text(ts, i2) {
                    Ok(v) => v,
                    Err(f) => {
                        return Err(f);
                    },
                };
                let (t2, _ie2, j2) = match get_start(ts, j) {
                    Ok(v) => v,
                    Err(f) => {
                        return Err(f);
                    },
                };
                page_tail(ts, j2, t2, title, namespace, id, Some(target))
            },
            None => Err(Fault::Format { position: pos_at(ts, i) }),
        }
    } else {
        page_tail(ts, i2, t, title, namespace, id, None)
    }
}

/// After the optional redirect: `restrictions` by lookahead, then the
/// revisions.
fn page_tail(
    ts: &TokenStream,
    i: usize,
    t: Tag,
    title: String,
    namespace: i32,
    id: u32,
    redirect_target: Option<String>,
) -> (r: Result<(Page, usize), Fault>)
    ensures
        match r {
            Ok((pg, j)) => sp_page_tail(
                ts@,
                i as int,
                t,
                title@,
                namespace,
                id,
                crate::records::view_opt_string(redirect_target),
            ) == Ok::<_, GFault>((pg@, j as int)) && i - 1 < j <= ts.tokens@.len(),
            Err(f) => sp_page_tail(
                ts@,
                i as int,
                t,
                title@,
                namespace,
                id,
                crate::records::view_opt_string(redirect_target),
            ) == Err::<(GPage, int), GFault>(f@),
        },
{
    proof {
        reveal(sp_page_tail);
    }
    if t == Tag::Restrictions {
        let (restr, j) = match read_text(ts, i, Tag::Restrictions) {
            Ok(v) => v,
            Err(f) => {
                return Err(f);
            },
        };
        let j2 = match skip_text(ts, j) {
            Ok(v) => v,
            Err(f) => {
                return Err(f);
            },
        };
        if !(j2 < ts.tokens.len() && peek_is(ts, j2, Tag::Revision, false)) {
            return Err(Fault::Format { position: pos_at(ts, j2) });
        }
        let j3 = match skip_text(ts, j2 + 1) {
            Ok(v) => v,
            Err(f) => {
                return Err(f);
            },
        };
        let (rev, k) = match revision(ts, j3) {
            Ok(v) => v,
            Err(f) => {
                return Err(f);
            },
        };
        let (mut revs, m) = match revisions(ts, k) {
            Ok(v) => v,
            Err(f) => {
                return Err(f);
            },
        };
        proof {
            assert(revs_view(revs@.insert(0, rev)) =~= seq![rev@] + revs_view(revs@));
        }
        revs.insert(0, rev);
        Ok(
            (
                Page {
                    title,
                    namespace,
                    id,
                    redirect_target,
                    restrictions: Some(restr),
                    revisions: revs,
                },
                m,
            ),
        )
    } else if t == Tag::Revision {
        // the revision start tag is already in hand
        let j = match skip_text(ts, i) {
            Ok(v) => v,
            Err(f) => {
                return Err(f);
            },
        };
        let (rev, k) = match revision(ts, j) {
            Ok(v) => v,
            Err(f) => {
                return Err(f);
            },
        };
        let (mut revs, m) = match revisions(ts, k) {
            Ok(v) => v,
            Err(f) => {
                return Err(f);
            },
        };
        proof {
            assert(revs_view(revs@.insert(0, rev)) =~= seq![rev@] + revs_view(revs@));
        }
        revs.insert(0, rev);
        Ok(
            (
                Page {
                    title,
                    namespace,
                    id,
                    redirect_target,
                    restrictions: None,
                    revisions: revs,
                },
                m,
            ),
        )
    } else {
        Err(Fault::Format { position: prev_pos(ts, i) })
    }
}

/// Skips the opaque `siteinfo` block, counting nested elements of the same
/// raw name.
fn skip_block(ts: &TokenStream, i: usize) -> (r: Result<usize, Fault>)
    ensures
        match r {
            Ok(j) => sp_skip_block(ts@, i as int, 0) == Ok::<int, GFault>(j as int) && i < j
                <= ts.tokens@.len(),
            Err(f) => sp_skip_block(ts@, i as int, 0) == Err::<int, GFault>(f@),
        },
{
    proof {
        reveal(sp_skip_block);
    }
    let mut cur = i;
    let mut d: usize = 0;
    loop
        invariant
            i <= cur,
            d <= cur - i,
            sp_skip_block(ts@, i as int, 0) == sp_skip_block(ts@, cur as int, d as int),
        decreases ts.tokens@.len() + 1 - cur,
    {
        proof {
            reveal(sp_skip_block);
        }
        if cur >= ts.tokens.len() {
            return Err(Fault::Format { position: pos_at(ts, cur) });
        }
        match &ts.tokens[cur] {
            Token::Close { name, .. } => {
                if crate::tag::bytes_is(name.as_slice(), "siteinfo") {
                    if d == 0 {
                        return Ok(cur + 1);
                    }
                    d = d - 1;
                }
                cur = cur + 1;
            },
            Token::Open { name, .. } => {
                if crate::tag::bytes_is(name.as_slice(), "siteinfo") {
                    d = d + 1;
                }
                cur = cur + 1;
            },
            Token::Eof { pos } => {
                return Err(Fault::Format { position: *pos });
            },
            _ => {
                cur = cur + 1;
            },
        }
    }
}

/// The optional header: `mediawiki` start, text run, and by lookahead a
/// `siteinfo` block skipped verbatim.
pub fn header(ts: &TokenStream) -> (r: Result<usize, Fault>)
    ensures
        match r {
            Ok(j) => sp_header(ts@) == Ok::<int, GFault>(j as int) && j <= ts.tokens@.len(),
            Err(f) => sp_header(ts@) == Err::<int, GFault>(f@),
        },
{
    proof {
        reveal(sp_header);
    }
    let i1 = match expect_open(ts, 0, Tag::MediaWiki) {
        Ok(v) => v,
        Err(f) => {
            return Err(f);
        },
    };
    let i2 = match skip_text(ts, i1) {
        Ok(v) => v,
        Err(f) => {
            return Err(f);
        },
    };
    if i2 < ts.tokens.len() && peek_is(ts, i2, Tag::SiteInfo, false) {
        let j = match skip_block(ts, i2 + 1) {
            Ok(v) => v,
            Err(f) => {
                return Err(f);
            },
        };
        match skip_text(ts, j) {
            Ok(j2) => Ok(j2),
            Err(f) => Err(f),
        }
    } else {
        Ok(i2)
    }
}

/// What a whole decode run guarantees: the consumer's log grows by exactly
/// the grammar's pages up to the first non-`Continue` answer or the
/// grammar's own terminal state, and the run's result says which of the
/// three ways it ended.
pub open spec fn parse_post<E>(
    m: GParse,
    l0: Seq<(GPage, Outcome<E>)>,
    l: Seq<(GPage, Outcome<E>)>,
    r: Result<(), Error<E>>,
) -> bool {
    let k = l.len() - l0.len();
    &&& l0.len() <= l.len()
    &&& l.take(l0.len() as int) == l0
    &&& k <= m.pages.len()
    &&& (forall|q: int| 0 <= q < k ==> (#[trigger] l[l0.len() + q]).0 == m.pages[q])
    &&& (forall|q: int| 0 <= q < k - 1 ==> (#[trigger] l[l0.len() + q]).1 is Continue)
    &&& match r {
        Ok(_) => {
            ||| (k == m.pages.len() && m.tail is None && (k == 0 || l.last().1 is Continue))
            ||| (k > 0 && l.last().1 is Stop)
        },
        Err(e) => match e {
            Error::Other(x) => k > 0 && l.last().1 == Outcome::Fail(x),
            _ => k == m.pages.len() && (k == 0 || l.last().1 is Continue) && (m.tail matches Some(
                f,
            ) && is_fault(e, f)),
        },
    }
}

/// The page loop's invariant: the consumer's log has grown by exactly the
/// pages already emitted, all answered `Continue`, and what remains of the
/// grammar at `cur` is the rest of `m`.
pub open spec fn pages_inv<E>(
    m: GParse,
    l0: Seq<(GPage, Outcome<E>)>,
    l: Seq<(GPage, Outcome<E>)>,
    lex: crate::token::GLex,
    cur: int,
) -> bool {
    &&& l0.len() <= l.len()
    &&& l.take(l0.len() as int) == l0
    &&& sp_pages(lex, cur).pages == m.pages.skip(l.len() - l0.len())
    &&& sp_pages(lex, cur).tail == m.tail
    &&& l.len() - l0.len() <= m.pages.len()
    &&& (forall|q: int| 0 <= q < l.len() - l0.len() ==> (#[trigger] l[l0.len() + q]).0
        == m.pages[q])
    &&& (forall|q: int| 0 <= q < l.len() - l0.len() ==> (#[trigger] l[l0.len() + q]).1
        is Continue)
}

/// After one page was parsed and handed over, the loop invariant moves to
/// the page body's end position, or the run ends as the consumer answered.
proof fn lemma_page_consumed<E>(
    m: GParse,
    l0: Seq<(GPage, Outcome<E>)>,
    lpre: Seq<(GPage, Outcome<E>)>,
    l: Seq<(GPage, Outcome<E>)>,
    lex: crate::token::GLex,
    cur: int,
    j: int,
    gpg: GPage,
    out: Outcome<E>,
)
    requires
        pages_inv(m, l0, lpre, lex, cur),
        sp_pages(lex, cur).pages == seq![gpg] + sp_pages(lex, j).pages,
        sp_pages(lex, cur).tail == sp_pages(lex, j).tail,
        l == lpre.push((gpg, out)),
    ensures
        out is Continue ==> pages_inv(m, l0, l, lex, j),
        out is Stop ==> parse_post(m, l0, l, Ok::<(), Error<E>>(())),
        out matches Outcome::Fail(x) ==> parse_post(m, l0, l, Err::<(), Error<E>>(Error::Other(x))),
{
    let k = lpre.len() - l0.len();
    assert(m.pages.skip(k)[0] == gpg);
    assert(0 <= k <= m.pages.len());
    assert(m.pages.skip(k).len() >= 1);
    vstd::seq_lib::lemma_seq_skip_index(m.pages, k, 0);
    assert(m.pages[k] == gpg);
    assert((seq![gpg] + sp_pages(lex, j).pages).drop_first() =~= sp_pages(lex, j).pages);
    assert(m.pages.skip(k).drop_first() =~= m.pages.skip(k + 1));
    assert(l.take(l0.len() as int) =~= lpre.take(l0.len() as int));
    assert(l[l0.len() + k].0 == gpg);
    assert(forall|q: int| 0 <= q < k ==> (#[trigger] l[l0.len() + q]) == lpre[l0.len() + q]);
    assert(l.last() == (gpg, out));
}

/// At the loop's terminal token the run's result follows from the
/// invariant.
proof fn lemma_page_done<E>(
    m: GParse,
    l0: Seq<(GPage, Outcome<E>)>,
    l: Seq<(GPage, Outcome<E>)>,
    lex: crate::token::GLex,
    cur: int,
    e: Error<E>,
)
    requires
        pages_inv(m, l0, l, lex, cur),
        sp_pages(lex, cur).pages == Seq::<GPage>::empty(),
    ensures
        sp_pages(lex, cur).tail is None ==> parse_post(m, l0, l, Ok::<(), Error<E>>(())),
        (sp_pages(lex, cur).tail matches Some(f) && is_fault(e, f)) ==> parse_post(
            m,
            l0,
            l,
            Err::<(), Error<E>>(e),
        ),
{
    let k = l.len() - l0.len();
    assert(m.pages.skip(k).len() == 0);
    assert(k == m.pages.len());
    if k > 0 {
        assert(l.last() == l[l0.len() + (k - 1)]);
    }
    assert(!(e matches Error::Other(x)) || !is_fault(
        e,
        sp_pages(lex, cur).tail.unwrap(),
    )) by {
        if e matches Error::Other(x) {
        }
    }
}

/// What one round of the page loop produced: the next position, or the
/// run's final result.
enum IterOut<E> {
    Next(usize),
    Done(Result<(), Error<E>>),
}

/// One round of the page loop: read the head token, parse and hand over one
/// page, or end the run.
#[verifier::spinoff_prover]
fn page_iter<E, C: PageConsumer<E>>(
    ts: &TokenStream,
    cur: usize,
    consumer: &mut C,
    Ghost(m): Ghost<GParse>,
    Ghost(l0): Ghost<Seq<(GPage, Outcome<E>)>>,
) -> (r: IterOut<E>)
    requires
        pages_inv(m, l0, old(consumer).log(), ts@, cur as int),
    ensures
        match r {
            IterOut::Next(j) => pages_inv(m, l0, final(consumer).log(), ts@, j as int) && cur < j
                <= ts.tokens@.len(),
            IterOut::Done(res) => parse_post(m, l0, final(consumer).log(), res),
        },
{
    let step = page_step(ts, cur);
    match step {
        PageStep::Body(body) => match body {
            Ok((pg, j)) => {
                proof {
                    lemma_pages_step(ts@, cur as int, pg@, j as int);
                }
                let ghost gpg = pg@;
                let ghost prelog = consumer.log();
                let out = consumer.consume(pg);
                proof {
                    lemma_page_consumed(
                        m,
                        l0,
                        prelog,
                        consumer.log(),
                        ts@,
                        cur as int,
                        j as int,
                        gpg,
                        out,
                    );
                }
                match out {
                    Outcome::Continue => IterOut::Next(j),
                    Outcome::Stop => IterOut::Done(Ok(())),
                    Outcome::Fail(x) => IterOut::Done(Err(Error::Other(x))),
                }
            },
            Err(f) => {
                let e = Error::<E>::from_fault(f);
                proof {
                    lemma_pages_fault(ts@, cur as int, f@);
                    lemma_page_done(m, l0, consumer.log(), ts@, cur as int, e);
                }
                IterOut::Done(Err(e))
            },
        },
        PageStep::End => {
            proof {
                lemma_pages_end(ts@, cur as int);
                lemma_page_done(
                    m,
                    l0,
                    consumer.log(),
                    ts@,
                    cur as int,
                    Error::<E>::Format { position: 0 },
                );
            }
            IterOut::Done(Ok(()))
        },
        PageStep::Bad(f) => {
            let e = Error::<E>::from_fault(f);
            proof {
                lemma_pages_bad(ts@, cur as int);
                lemma_page_done(m, l0, consumer.log(), ts@, cur as int, e);
            }
            IterOut::Done(Err(e))
        },
    }
}

/// Decode a whole token stream, handing each page to the consumer as soon
/// as it is built. A `Stop` answer ends the run as a success; a `Fail`
/// answer is passed through verbatim; a grammar fault aborts with its
/// position.
#[verifier::spinoff_prover]
pub fn parse_stream<E, C: PageConsumer<E>>(
    ts: &TokenStream,
    consumer: &mut C,
    skip_header: bool,
) -> (r: Result<(), Error<E>>)
    ensures
        parse_post(sp_dump(ts@, skip_header), old(consumer).log(), final(consumer).log(), r),
{
    proof {
        reveal(sp_dump);
    }
    let ghost m = sp_dump(ts@, skip_header);
    let ghost l0 = consumer.log();
    let start: usize = if skip_header {
        match header(ts) {
            Ok(i0) => i0,
            Err(f) => {
                proof {
                    assert(consumer.log().take(l0.len() as int) =~= l0);
                }
                return Err(Error::from_fault(f));
            },
        }
    } else {
        0
    };
    let mut cur = start;
    let mut res: Result<(), Error<E>> = Ok(());
    proof {
        assert(sp_pages(ts@, start as int) == m);
        assert(consumer.log().take(l0.len() as int) =~= l0);
        assert(m.pages.skip(0) =~= m.pages);
    }
    loop
        invariant_except_break
            pages_inv(m, l0, consumer.log(), ts@, cur as int),
        invariant
            l0 == old(consumer).log(),
        ensures
            parse_post(m, l0, consumer.log(), res),
        decreases ts.tokens@.len() + 1 - cur,
    {
        match page_iter(ts, cur, consumer, Ghost(m), Ghost(l0)) {
            IterOut::Next(j) => {
                cur = j;
            },
            IterOut::Done(out) => {
                res = out;
                break;
            },
        }
    }
    res
}

/// What one iteration of the page loop found.
enum PageStep {
    /// A `<page>` start tag: the body's outcome, positions included.
    Body(Result<(Page, usize), Fault>),
    /// The dump's clean end tag.
    End,
    /// Any other token: the fault the grammar assigns there.
    Bad(Fault),
}

/// Reads one page-loop head token and, on a page start, its whole body.
fn page_step(ts: &TokenStream, cur: usize) -> (r: PageStep)
    ensures
        ({
            let l = ts@;
            match r {
                PageStep::Body(body) => {
                    &&& l.has(cur as int)
                    &&& l.toks[cur as int] matches GToken::Open { name, .. } && crate::tag::spec_resolve(
                        name,
                    ) == Some(Tag::Page)
                    &&& match body {
                        Ok((pg, j)) => sp_page_body(l, cur as int + 1) == Ok::<_, GFault>(
                            (pg@, j as int),
                        ) && cur < j <= ts.tokens@.len(),
                        Err(f) => sp_page_body(l, cur as int + 1) == Err::<(GPage, int), GFault>(
                            f@,
                        ),
                    }
                },
                PageStep::End => {
                    &&& l.has(cur as int)
                    &&& l.toks[cur as int] matches GToken::Close { name, .. }
                        && crate::tag::spec_resolve(name) == Some(Tag::MediaWiki)
                },
                PageStep::Bad(f) => {
                    &&& !(l.has(cur as int) && (l.toks[cur as int] matches GToken::Open {
                        name,
                        ..
                    } && crate::tag::spec_resolve(name) == Some(Tag::Page)) || l.has(cur as int)
                        && (l.toks[cur as int] matches GToken::Close { name, .. }
                        && crate::tag::spec_resolve(name) == Some(Tag::MediaWiki)))
                    &&& f@ == GFault::Format { position: l.pos_at(cur as int) }
                },
            }
        }),
{
    if cur >= ts.tokens.len() {
        return PageStep::Bad(Fault::Format { position: pos_at(ts, cur) });
    }
    match &ts.tokens[cur] {
        Token::Open { name, .. } => match Tag::resolve(name.as_slice()) {
            Some(Tag::Page) => PageStep::Body(page_body(ts, cur + 1)),
            _ => PageStep::Bad(Fault::Format { position: pos_at(ts, cur) }),
        },
        Token::Close { name, .. } => match Tag::resolve(name.as_slice()) {
            Some(Tag::MediaWiki) => PageStep::End,
            _ => PageStep::Bad(Fault::Format { position: pos_at(ts, cur) }),
        },
        _ => PageStep::Bad(Fault::Format { position: pos_at(ts, cur) }),
    }
}

/// Decode an in-memory dump: lex it, then decode the token stream.
pub fn parse<E, C: PageConsumer<E>>(xml: &[u8], consumer: &mut C, skip_header: bool) -> (r:
    Result<(), Error<E>>)
    ensures
        parse_post(
            sp_dump(crate::lex::lex_of(xml@), skip_header),
            old(consumer).log(),
            final(consumer).log(),
            r,
        ),
{
    let ts = crate::lex::tokenize(xml);
    parse_stream(&ts, consumer, skip_header)
}

} // verus!
