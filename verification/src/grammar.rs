//! The export grammar as a mathematical function over token sequences.
//!
//! Every function here is the specification the executable decoder is
//! verified against: given the lexed token stream and a position, it says
//! exactly which record is produced and where parsing continues, or which
//! fault (with which offset) is raised. The decoder walks the grammar with
//! one token of lookahead and no backtracking; a "peek" that does not match
//! simply leaves the index where it was, which is the pushback discipline.

use vstd::prelude::*;
use vstd::string::StringSliceAdditionalSpecFns;
use vstd::utf8::{decode_utf8, valid_utf8};

use crate::error::GFault;
use crate::ip::ip_of;
use crate::lex::{text_of, utc_of};
use crate::records::{GComment, GContributor, GPage, GRevision, Timestamp};
use crate::tag::{spec_name, spec_resolve, Tag};
use crate::token::{GAttr, GAttrInfo, GLex, GToken};
use crate::values::{dec_i32_of, dec_u32_of};

verus! {

/// Position reported by a fault raised just before reading token `i`: the
/// position of the previously consumed token.
pub open spec fn sp_prev_pos(l: GLex, i: int) -> usize {
    if i >= 1 {
        l.pos_at(i - 1)
    } else {
        0
    }
}

/// Clamped advance: the grammar consumes at least one token per unit, and
/// never runs past the stream; this keeps recursion measures decreasing.
pub open spec fn sp_adv(l: GLex, i: int, j: int) -> int {
    let n = l.toks.len() as int;
    if j <= i {
        i + 1
    } else if j > n {
        n
    } else {
        j
    }
}

/// Lookahead test: the next token is an opening (or, when `want_empty`, a
/// self-closing) tag that resolves to `t`.
pub open spec fn sp_peek_is(l: GLex, i: int, t: Tag, want_empty: bool) -> bool {
    l.has(i) && match l.toks[i] {
        GToken::Empty { name, .. } => want_empty && spec_resolve(name) == Some(t),
        GToken::Open { name, .. } => !want_empty && spec_resolve(name) == Some(t),
        _ => false,
    }
}

/// One mandatory text run (the whitespace between sibling elements); its
/// absence is a grammar fault.
pub open spec fn sp_skip_text(l: GLex, i: int) -> Result<int, GFault> {
    if l.has(i) && l.toks[i] matches GToken::Text { .. } {
        Ok(i + 1)
    } else {
        Err(GFault::Format { position: l.pos_at(i) })
    }
}

/// Read a start tag (open or self-closing), resolving its name through the
/// registry; yields the tag and whether the element was self-closing.
pub open spec fn sp_get_start(l: GLex, i: int) -> Result<(Tag, bool, int), GFault> {
    if l.has(i) {
        match l.toks[i] {
            GToken::Open { name, .. } => match spec_resolve(name) {
                Some(t) => Ok((t, false, i + 1)),
                None => Err(GFault::UnexpectedTag(name)),
            },
            GToken::Empty { name, .. } => match spec_resolve(name) {
                Some(t) => Ok((t, true, i + 1)),
                None => Err(GFault::UnexpectedTag(name)),
            },
            _ => Err(GFault::Format { position: l.pos_at(i) }),
        }
    } else {
        Err(GFault::Format { position: l.pos_at(i) })
    }
}

/// Read a start tag together with its first attribute. The attribute list is
/// examined before the name is resolved: an unreadable list, or a first
/// value that is not UTF-8, is a format fault.
pub open spec fn sp_get_start_attr(l: GLex, i: int) -> Result<
    (Tag, Option<GAttr>, bool, int),
    GFault,
> {
    if l.has(i) {
        match l.toks[i] {
            GToken::Open { name, attr, pos } => sp_attr_then_resolve(name, attr, false, pos, i),
            GToken::Empty { name, attr, pos } => sp_attr_then_resolve(name, attr, true, pos, i),
            _ => Err(GFault::Format { position: l.pos_at(i) }),
        }
    } else {
        Err(GFault::Format { position: l.pos_at(i) })
    }
}

pub open spec fn sp_attr_then_resolve(
    name: Seq<u8>,
    attr: GAttrInfo,
    is_empty: bool,
    pos: usize,
    i: int,
) -> Result<(Tag, Option<GAttr>, bool, int), GFault> {
    let first = match attr {
        GAttrInfo::Absent => Ok(None::<GAttr>),
        GAttrInfo::Single(a) => if valid_utf8(a.value) {
            Ok(Some(a))
        } else {
            Err(GFault::Format { position: pos })
        },
        GAttrInfo::Several(a) => if valid_utf8(a.value) {
            Ok(Some(a))
        } else {
            Err(GFault::Format { position: pos })
        },
        GAttrInfo::Malformed => Err(GFault::Format { position: pos }),
    };
    match first {
        Ok(a) => match spec_resolve(name) {
            Some(t) => Ok((t, a, is_empty, i + 1)),
            None => Err(GFault::UnexpectedTag(name)),
        },
        Err(f) => Err(f),
    }
}

/// Expect a start tag (open or self-closing) of exactly tag `t`.
pub open spec fn sp_expect_open(l: GLex, i: int, t: Tag) -> Result<int, GFault> {
    match sp_get_start(l, i) {
        Ok((a, _is_empty, j)) => if a == t {
            Ok(j)
        } else {
            Err(GFault::Tag { expected: t, actual: a, position: l.pos_at(i) })
        },
        Err(f) => Err(f),
    }
}

/// Expect the closing tag of exactly tag `t`.
pub open spec fn sp_expect_close(l: GLex, i: int, t: Tag) -> Result<int, GFault> {
    if l.has(i) {
        match l.toks[i] {
            GToken::Close { name, pos } => match spec_resolve(name) {
                Some(a) => if a == t {
                    Ok(i + 1)
                } else {
                    Err(GFault::Tag { expected: t, actual: a, position: pos })
                },
                None => Err(GFault::UnexpectedTag(name)),
            },
            _ => Err(GFault::Format { position: l.pos_at(i) }),
        }
    } else {
        Err(GFault::Format { position: l.pos_at(i) })
    }
}

/// Element content read as plain text: a text run whose decoding failure is
/// a generic format fault, then the matching end tag, whose mismatch is a
/// format fault as well.
pub open spec fn sp_read_text(l: GLex, i: int, t: Tag) -> Result<(Seq<char>, int), GFault> {
    if l.has(i) {
        match l.toks[i] {
            GToken::Text { raw, pos } => match text_of(raw) {
                Some(chars) => if l.has(i + 1) {
                    match l.toks[i + 1] {
                        GToken::Close { name, pos: p2 } => match spec_resolve(name) {
                            Some(a) => if a == t {
                                Ok((chars, i + 2))
                            } else {
                                Err(GFault::Format { position: p2 })
                            },
                            None => Err(GFault::UnexpectedTag(name)),
                        },
                        _ => Err(GFault::Format { position: l.pos_at(i + 1) }),
                    }
                } else {
                    Err(GFault::Format { position: l.pos_at(i + 1) })
                },
                None => Err(GFault::Format { position: pos }),
            },
            _ => Err(GFault::Format { position: l.pos_at(i) }),
        }
    } else {
        Err(GFault::Format { position: l.pos_at(i) })
    }
}

/// Element content read as a decoded payload: a text run whose decoding
/// failure is a decode fault, then the matching end tag, whose mismatch is
/// the sharper tag-mismatch fault.
pub open spec fn sp_text_chars(l: GLex, i: int, t: Tag) -> Result<(Seq<char>, int), GFault> {
    if l.has(i) {
        match l.toks[i] {
            GToken::Text { raw, pos } => match text_of(raw) {
                Some(chars) => if l.has(i + 1) {
                    match l.toks[i + 1] {
                        GToken::Close { name, pos: p2 } => match spec_resolve(name) {
                            Some(a) => if a == t {
                                Ok((chars, i + 2))
                            } else {
                                Err(GFault::Tag { expected: t, actual: a, position: p2 })
                            },
                            None => Err(GFault::UnexpectedTag(name)),
                        },
                        _ => Err(GFault::Format { position: l.pos_at(i + 1) }),
                    }
                } else {
                    Err(GFault::Format { position: l.pos_at(i + 1) })
                },
                None => Err(GFault::FailedToDecode { position: pos }),
            },
            _ => Err(GFault::Format { position: l.pos_at(i) }),
        }
    } else {
        Err(GFault::Format { position: l.pos_at(i) })
    }
}

/// Numeric element content: the payload must parse as an unsigned integer,
/// else a format fault at the position just before the text run.
pub open spec fn sp_text_u32(l: GLex, i: int, t: Tag) -> Result<(u32, int), GFault> {
    match sp_text_chars(l, i, t) {
        Ok((chars, j)) => match dec_u32_of(chars) {
            Some(v) => Ok((v, j)),
            None => Err(GFault::Format { position: sp_prev_pos(l, i) }),
        },
        Err(f) => Err(f),
    }
}

/// Signed numeric element content.
pub open spec fn sp_text_i32(l: GLex, i: int, t: Tag) -> Result<(i32, int), GFault> {
    match sp_text_chars(l, i, t) {
        Ok((chars, j)) => match dec_i32_of(chars) {
            Some(v) => Ok((v, j)),
            None => Err(GFault::Format { position: sp_prev_pos(l, i) }),
        },
        Err(f) => Err(f),
    }
}

/// Timestamp element content.
pub open spec fn sp_text_timestamp(l: GLex, i: int, t: Tag) -> Result<(Timestamp, int), GFault> {
    match sp_text_chars(l, i, t) {
        Ok((chars, j)) => match utc_of(chars) {
            Some(v) => Ok((v, j)),
            None => Err(GFault::Format { position: sp_prev_pos(l, i) }),
        },
        Err(f) => Err(f),
    }
}

/// Network-address element content.
pub open spec fn sp_text_ip(l: GLex, i: int, t: Tag) -> Result<
    (crate::records::IpAddr, int),
    GFault,
> {
    match sp_text_chars(l, i, t) {
        Ok((chars, j)) => match ip_of(chars) {
            Some(v) => Ok((v, j)),
            None => Err(GFault::Format { position: sp_prev_pos(l, i) }),
        },
        Err(f) => Err(f),
    }
}

/// The suppression marker: key and value both spell `deleted`.
pub open spec fn sp_is_deleted_marker(a: GAttr) -> bool {
    a.key == "deleted".spec_bytes() && a.value == "deleted".spec_bytes()
}

/// The contributor sub-machine. A self-closing tag must carry the
/// suppression marker as its single attribute — any other count or shape
/// is a fault; a block either names a registered user (`username` then
/// `id`) or an anonymous address (`ip`).
#[verifier::opaque]
pub open spec fn sp_contributor(l: GLex, i: int) -> Result<(GContributor, int), GFault> {
    match sp_get_start_attr(l, i) {
        Ok((t, attr, is_empty, j)) => if t != Tag::Contributor {
            Err(GFault::Format { position: l.pos_at(i) })
        } else if is_empty {
            match l.toks[i] {
                GToken::Empty { attr: GAttrInfo::Single(a), .. } => if sp_is_deleted_marker(a) {
                    Ok((GContributor::Deleted, j))
                } else {
                    Err(GFault::Format { position: l.pos_at(i) })
                },
                _ => Err(GFault::Format { position: l.pos_at(i) }),
            }
        } else {
            sp_contributor_block(l, j)
        },
        Err(f) => Err(f),
    }
}

/// Inside an open `contributor` block, after its start tag.
#[verifier::opaque]
pub open spec fn sp_contributor_block(l: GLex, i: int) -> Result<(GContributor, int), GFault> {
    match sp_skip_text(l, i) {
        Ok(j) => match sp_get_start(l, j) {
            Ok((t, _ie, k)) => {
                let inner = if t == Tag::Username {
                    sp_contributor_user(l, k)
                } else if t == Tag::Ip {
                    match sp_text_ip(l, k, Tag::Ip) {
                        Ok((ip, m)) => match sp_skip_text(l, m) {
                            Ok(m2) => Ok((GContributor::Ip { ip }, m2)),
                            Err(f) => Err(f),
                        },
                        Err(f) => Err(f),
                    }
                } else {
                    Err(GFault::Format { position: l.pos_at(j) })
                };
                match inner {
                    Ok((c, m)) => match sp_expect_close(l, m, Tag::Contributor) {
                        Ok(m2) => Ok((c, m2)),
                        Err(f) => Err(f),
                    },
                    Err(f) => Err(f),
                }
            },
            Err(f) => Err(f),
        },
        Err(f) => Err(f),
    }
}

/// A registered contributor: `username` content, then an `id` element.
#[verifier::opaque]
pub open spec fn sp_contributor_user(l: GLex, i: int) -> Result<(GContributor, int), GFault> {
    match sp_read_text(l, i, Tag::Username) {
        Ok((username, j)) => match sp_skip_text(l, j) {
            Ok(j2) => match sp_expect_open(l, j2, Tag::Id) {
                Ok(j3) => match sp_text_u32(l, j3, Tag::Id) {
                    Ok((id, j4)) => match sp_skip_text(l, j4) {
                        Ok(j5) => Ok((GContributor::User { username, id }, j5)),
                        Err(f) => Err(f),
                    },
                    Err(f) => Err(f),
                },
                Err(f) => Err(f),
            },
            Err(f) => Err(f),
        },
        Err(f) => Err(f),
    }
}

/// The optional `minor` marker: a self-closing tag, detected by lookahead;
/// anything else leaves the index untouched.
pub open spec fn sp_minor(l: GLex, i: int) -> Result<(bool, int), GFault> {
    if sp_peek_is(l, i, Tag::Minor, true) {
        match sp_skip_text(l, i + 1) {
            Ok(j) => Ok((true, j)),
            Err(f) => Err(f),
        }
    } else {
        Ok((false, i))
    }
}

/// The optional `origin` extension field, detected by lookahead on an
/// opening tag; its presence is decided by what the next token actually is,
/// never by a global flag.
pub open spec fn sp_origin(l: GLex, i: int) -> Result<(Option<u32>, int), GFault> {
    if sp_peek_is(l, i, Tag::Origin, false) {
        match sp_text_u32(l, i + 1, Tag::Origin) {
            Ok((v, j)) => match sp_skip_text(l, j) {
                Ok(j2) => Ok((Some(v), j2)),
                Err(f) => Err(f),
            },
            Err(f) => Err(f),
        }
    } else {
        Ok((None, i))
    }
}

/// The comment sub-machine, three ways on one token of lookahead: an open
/// `comment` element with text is visible; a self-closing `comment` with
/// the suppression marker as its only attribute is suppressed; anything
/// else is an absent comment and the token is pushed back for the next
/// step.
pub open spec fn sp_comment(l: GLex, i: int) -> Result<(GComment, int), GFault> {
    if sp_peek_is(l, i, Tag::Comment, false) {
        match sp_text_chars(l, i + 1, Tag::Comment) {
            Ok((text, j)) => match sp_skip_text(l, j) {
                Ok(j2) => Ok((GComment::Visible(text), j2)),
                Err(f) => Err(f),
            },
            Err(f) => Err(f),
        }
    } else if sp_peek_is(l, i, Tag::Comment, true) {
        match l.toks[i] {
            GToken::Empty { attr: GAttrInfo::Single(a), .. } => if sp_is_deleted_marker(a) {
                match sp_skip_text(l, i + 1) {
                    Ok(j) => Ok((GComment::DeletedOrAbsent(true), j)),
                    Err(f) => Err(f),
                }
            } else {
                Err(GFault::Format { position: l.pos_at(i) })
            },
            _ => Err(GFault::Format { position: l.pos_at(i) }),
        }
    } else {
        Ok((GComment::DeletedOrAbsent(false), i))
    }
}

/// One whole revision, entered just past `<revision>` and its text run.
#[verifier::opaque]
pub open spec fn sp_revision(l: GLex, i: int) -> Result<(GRevision, int), GFault> {
    match sp_expect_open(l, i, Tag::Id) {
        Ok(i1) => match sp_text_u32(l, i1, Tag::Id) {
            Ok((id, i2)) => match sp_skip_text(l, i2) {
                Ok(i3) => match sp_get_start(l, i3) {
                    Ok((t, _ie, i4)) => {
                        let parent = if t == Tag::ParentId {
                            match sp_text_u32(l, i4, Tag::ParentId) {
                                Ok((pid, j)) => match sp_skip_text(l, j) {
                                    Ok(j2) => match sp_get_start(l, j2) {
                                        Ok((t2, _ie2, j3)) => Ok((Some(pid), t2, j3)),
                                        Err(f) => Err(f),
                                    },
                                    Err(f) => Err(f),
                                },
                                Err(f) => Err(f),
                            }
                        } else {
                            Ok((None::<u32>, t, i4))
                        };
                        match parent {
                            Ok((parent_id, t2, i5)) => if t2 != Tag::Timestamp {
                                Err(GFault::Format { position: sp_prev_pos(l, i5) })
                            } else {
                                sp_revision_rest(l, i5, id, parent_id)
                            },
                            Err(f) => Err(f),
                        }
                    },
                    Err(f) => Err(f),
                },
                Err(f) => Err(f),
            },
            Err(f) => Err(f),
        },
        Err(f) => Err(f),
    }
}

/// The rest of a revision, from the timestamp payload on.
#[verifier::opaque]
pub open spec fn sp_revision_rest(l: GLex, i: int, id: u32, parent_id: Option<u32>) -> Result<
    (GRevision, int),
    GFault,
> {
    match sp_text_timestamp(l, i, Tag::Timestamp) {
        Ok((timestamp, i1)) => match sp_skip_text(l, i1) {
            Ok(i2) => match sp_contributor(l, i2) {
                Ok((contributor, i3)) => match sp_skip_text(l, i3) {
                    Ok(i4) => match sp_minor(l, i4) {
                        Ok((minor, i5)) => match sp_origin(l, i5) {
                            Ok((origin, i6)) => match sp_comment(l, i6) {
                                Ok((comment, i7)) => sp_revision_tail(
                                    l,
                                    i7,
                                    GRevision {
                                        id,
                                        parent_id,
                                        timestamp,
                                        contributor,
                                        origin,
                                        minor,
                                        comment,
                                        model: Seq::empty(),
                                        format: Seq::empty(),
                                        text: Seq::empty(),
                                        sha1: Seq::empty(),
                                    },
                                ),
                                Err(f) => Err(f),
                            },
                            Err(f) => Err(f),
                        },
                        Err(f) => Err(f),
                    },
                    Err(f) => Err(f),
                },
                Err(f) => Err(f),
            },
            Err(f) => Err(f),
        },
        Err(f) => Err(f),
    }
}

/// The closing stretch of a revision: `model`, `format`, `text` (possibly
/// self-closing and then empty), `sha1`, and the revision end tag with its
/// trailing text run.
#[verifier::opaque]
pub open spec fn sp_revision_tail(l: GLex, i: int, base: GRevision) -> Result<
    (GRevision, int),
    GFault,
> {
    match sp_expect_open(l, i, Tag::Model) {
        Ok(i1) => match sp_text_chars(l, i1, Tag::Model) {
            Ok((model, i2)) => match sp_skip_text(l, i2) {
                Ok(i3) => match sp_expect_open(l, i3, Tag::Format) {
                    Ok(i4) => match sp_text_chars(l, i4, Tag::Format) {
                        Ok((format, i5)) => match sp_skip_text(l, i5) {
                            Ok(i6) => match sp_get_start(l, i6) {
                                Ok((t, is_empty, i7)) => if t != Tag::Text {
                                    Err(GFault::Format { position: sp_prev_pos(l, i7) })
                                } else {
                                    let text_step = if is_empty {
                                        Ok((Seq::<char>::empty(), i7))
                                    } else {
                                        sp_text_chars(l, i7, Tag::Text)
                                    };
                                    match text_step {
                                        Ok((text, i8)) => sp_revision_close(
                                            l,
                                            i8,
                                            GRevision { model, format, text, ..base },
                                        ),
                                        Err(f) => Err(f),
                                    }
                                },
                                Err(f) => Err(f),
                            },
                            Err(f) => Err(f),
                        },
                        Err(f) => Err(f),
                    },
                    Err(f) => Err(f),
                },
                Err(f) => Err(f),
            },
            Err(f) => Err(f),
        },
        Err(f) => Err(f),
    }
}

/// `sha1` and the end of the revision element.
#[verifier::opaque]
pub open spec fn sp_revision_close(l: GLex, i: int, base: GRevision) -> Result<
    (GRevision, int),
    GFault,
> {
    match sp_skip_text(l, i) {
        Ok(i1) => match sp_expect_open(l, i1, Tag::Sha1) {
            Ok(i2) => match sp_text_chars(l, i2, Tag::Sha1) {
                Ok((sha1, i3)) => match sp_skip_text(l, i3) {
                    Ok(i4) => match sp_expect_close(l, i4, Tag::Revision) {
                        Ok(i5) => match sp_skip_text(l, i5) {
                            Ok(i6) => Ok((GRevision { sha1, ..base }, i6)),
                            Err(f) => Err(f),
                        },
                        Err(f) => Err(f),
                    },
                    Err(f) => Err(f),
                },
                Err(f) => Err(f),
            },
            Err(f) => Err(f),
        },
        Err(f) => Err(f),
    }
}

/// The revision loop: either another `<revision>` (with its text run, then a
/// whole revision) or `</page>` with its text run, which ends the page.
#[verifier::opaque]
pub open spec fn sp_revisions(l: GLex, i: int) -> Result<(Seq<GRevision>, int), GFault>
    decreases l.toks.len() - i,
{
    if l.has(i) {
        match l.toks[i] {
            GToken::Open { name, .. } => if spec_resolve(name) == Some(Tag::Revision) {
                match sp_skip_text(l, i + 1) {
                    Ok(j) => match sp_revision(l, j) {
                        Ok((rev, k)) => match sp_revisions(l, sp_adv(l, i, k)) {
                            Ok((rest, m)) => Ok((seq![rev] + rest, m)),
                            Err(f) => Err(f),
                        },
                        Err(f) => Err(f),
                    },
                    Err(f) => Err(f),
                }
            } else {
                Err(GFault::Format { position: l.pos_at(i) })
            },
            GToken::Close { name, .. } => if spec_resolve(name) == Some(Tag::Page) {
                match sp_skip_text(l, i + 1) {
                    Ok(j) => Ok((Seq::empty(), j)),
                    Err(f) => Err(f),
                }
            } else {
                Err(GFault::Format { position: l.pos_at(i) })
            },
            _ => Err(GFault::Format { position: l.pos_at(i) }),
        }
    } else {
        Err(GFault::Format { position: l.pos_at(i) })
    }
}

/// A page body, entered just past `<page>`: `title`, `ns`, `id`, then by
/// lookahead an optional self-closing `redirect` carrying the target as its
/// first attribute, an optional `restrictions` element, and the revisions.
/// Without a `restrictions` element the first revision's start tag is the
/// token already in hand, so at least one revision is demanded.
#[verifier::opaque]
pub open spec fn sp_page_body(l: GLex, i: int) -> Result<(GPage, int), GFault> {
    match sp_page_head(l, i) {
        Ok((title, namespace, id, i1)) => sp_page_rest(l, i1, title, namespace, id),
        Err(f) => Err(f),
    }
}

/// After the page head: the optional self-closing `redirect`.
#[verifier::opaque]
pub open spec fn sp_page_rest(l: GLex, i: int, title: Seq<char>, namespace: i32, id: u32) -> Result<
    (GPage, int),
    GFault,
> {
    match sp_get_start_attr(l, i) {
        Ok((t, attr, is_empty, i2)) => if t == Tag::Redirect {
            if !is_empty {
                Err(GFault::Format { position: l.pos_at(i) })
            } else {
                match attr {
                    Some(a) => match sp_skip_text(l, i2) {
                        Ok(j) => match sp_get_start(l, j) {
                            Ok((t2, _ie2, j2)) => sp_page_tail(
                                l,
                                j2,
                                t2,
                                title,
                                namespace,
                                id,
                                Some(decode_utf8(a.value)),
                            ),
                            Err(f) => Err(f),
                        },
                        Err(f) => Err(f),
                    },
                    None => Err(GFault::Format { position: l.pos_at(i) }),
                }
            }
        } else {
            sp_page_tail(l, i2, t, title, namespace, id, None)
        },
        Err(f) => Err(f),
    }
}

/// After the optional redirect, with the following start tag already in
/// hand: an optional `restrictions` element, then the revisions. Either
/// way at least one revision is demanded before the page can end.
#[verifier::opaque]
pub open spec fn sp_page_tail(
    l: GLex,
    i: int,
    t: Tag,
    title: Seq<char>,
    namespace: i32,
    id: u32,
    redirect_target: Option<Seq<char>>,
) -> Result<(GPage, int), GFault> {
    if t == Tag::Restrictions {
        match sp_read_text(l, i, Tag::Restrictions) {
            Ok((restr, j)) => match sp_skip_text(l, j) {
                Ok(j2) => if sp_peek_is(l, j2, Tag::Revision, false) {
                    // the first revision's start tag must stand here
                    match sp_skip_text(l, j2 + 1) {
                        Ok(j3) => match sp_revision(l, j3) {
                            Ok((rev, k)) => match sp_revisions(l, k) {
                                Ok((rest, m)) => Ok((
                                    GPage {
                                        title,
                                        namespace,
                                        id,
                                        redirect_target,
                                        restrictions: Some(restr),
                                        revisions: seq![rev] + rest,
                                    },
                                    m,
                                )),
                                Err(f) => Err(f),
                            },
                            Err(f) => Err(f),
                        },
                        Err(f) => Err(f),
                    }
                } else {
                    Err(GFault::Format { position: l.pos_at(j2) })
                },
                Err(f) => Err(f),
            },
            Err(f) => Err(f),
        }
    } else if t == Tag::Revision {
        // the revision start tag is already consumed: parse its body, then
        // the remaining revisions
        match sp_skip_text(l, i) {
            Ok(j) => match sp_revision(l, j) {
                Ok((rev, k)) => match sp_revisions(l, k) {
                    Ok((rest, m)) => Ok((
                        GPage {
                            title,
                            namespace,
                            id,
                            redirect_target,
                            restrictions: None,
                            revisions: seq![rev] + rest,
                        },
                        m,
                    )),
                    Err(f) => Err(f),
                },
                Err(f) => Err(f),
            },
            Err(f) => Err(f),
        }
    } else {
        Err(GFault::Format { position: sp_prev_pos(l, i) })
    }
}

/// `title`, `ns` and `id` at the head of a page.
#[verifier::opaque]
pub open spec fn sp_page_head(l: GLex, i: int) -> Result<(Seq<char>, i32, u32, int), GFault> {
    match sp_skip_text(l, i) {
        Ok(i1) => match sp_expect_open(l, i1, Tag::Title) {
            Ok(i2) => match sp_read_text(l, i2, Tag::Title) {
                Ok((title, i3)) => match sp_skip_text(l, i3) {
                    Ok(i4) => match sp_expect_open(l, i4, Tag::Ns) {
                        Ok(i5) => match sp_text_i32(l, i5, Tag::Ns) {
                            Ok((ns, i6)) => match sp_skip_text(l, i6) {
                                Ok(i7) => match sp_expect_open(l, i7, Tag::Id) {
                                    Ok(i8) => match sp_text_u32(l, i8, Tag::Id) {
                                        Ok((id, i9)) => match sp_skip_text(l, i9) {
                                            Ok(i10) => Ok((title, ns, id, i10)),
                                            Err(f) => Err(f),
                                        },
                                        Err(f) => Err(f),
                                    },
                                    Err(f) => Err(f),
                                },
                                Err(f) => Err(f),
                            },
                            Err(f) => Err(f),
                        },
                        Err(f) => Err(f),
                    },
                    Err(f) => Err(f),
                },
                Err(f) => Err(f),
            },
            Err(f) => Err(f),
        },
        Err(f) => Err(f),
    }
}

/// The outcome of a whole decode: the pages the grammar yields before its
/// terminal state, and the fault that ended it, if any.
pub struct GParse {
    pub pages: Seq<GPage>,
    pub tail: Option<GFault>,
}

/// The page loop: `<page>` bodies until `</mediawiki>`.
#[verifier::opaque]
pub open spec fn sp_pages(l: GLex, i: int) -> GParse
    decreases l.toks.len() - i,
{
    if l.has(i) {
        match l.toks[i] {
            GToken::Open { name, .. } => if spec_resolve(name) == Some(Tag::Page) {
                match sp_page_body(l, i + 1) {
                    Ok((pg, j)) => {
                        let r = sp_pages(l, sp_adv(l, i, j));
                        GParse { pages: seq![pg] + r.pages, tail: r.tail }
                    },
                    Err(f) => GParse { pages: Seq::empty(), tail: Some(f) },
                }
            } else {
                GParse {
                    pages: Seq::empty(),
                    tail: Some(GFault::Format { position: l.pos_at(i) }),
                }
            },
            GToken::Close { name, .. } => if spec_resolve(name) == Some(Tag::MediaWiki) {
                GParse { pages: Seq::empty(), tail: None }
            } else {
                GParse {
                    pages: Seq::empty(),
                    tail: Some(GFault::Format { position: l.pos_at(i) }),
                }
            },
            _ => GParse { pages: Seq::empty(), tail: Some(GFault::Format { position: l.pos_at(i) }) },
        }
    } else {
        GParse { pages: Seq::empty(), tail: Some(GFault::Format { position: l.pos_at(i) }) }
    }
}

/// Skipping the opaque `siteinfo` block: raw names only, counting nested
/// elements of the same name, until the matching close tag.
#[verifier::opaque]
pub open spec fn sp_skip_block(l: GLex, i: int, depth: int) -> Result<int, GFault>
    decreases l.toks.len() - i,
{
    if l.has(i) {
        match l.toks[i] {
            GToken::Close { name, .. } => if name == spec_name(Tag::SiteInfo) {
                if depth == 0 {
                    Ok(i + 1)
                } else {
                    sp_skip_block(l, i + 1, depth - 1)
                }
            } else {
                sp_skip_block(l, i + 1, depth)
            },
            GToken::Open { name, .. } => if name == spec_name(Tag::SiteInfo) {
                sp_skip_block(l, i + 1, depth + 1)
            } else {
                sp_skip_block(l, i + 1, depth)
            },
            GToken::Eof { pos } => Err(GFault::Format { position: pos }),
            _ => sp_skip_block(l, i + 1, depth),
        }
    } else {
        Err(GFault::Format { position: l.pos_at(i) })
    }
}

/// The optional header: the `mediawiki` start tag with its text run, then,
/// by lookahead, a `siteinfo` block skipped verbatim without
/// interpretation.
#[verifier::opaque]
pub open spec fn sp_header(l: GLex) -> Result<int, GFault> {
    match sp_expect_open(l, 0, Tag::MediaWiki) {
        Ok(i1) => match sp_skip_text(l, i1) {
            Ok(i2) => if sp_peek_is(l, i2, Tag::SiteInfo, false) {
                match sp_skip_block(l, i2 + 1, 0) {
                    Ok(j) => match sp_skip_text(l, j) {
                        Ok(j2) => Ok(j2),
                        Err(f) => Err(f),
                    },
                    Err(f) => Err(f),
                }
            } else {
                Ok(i2)
            },
            Err(f) => Err(f),
        },
        Err(f) => Err(f),
    }
}

/// A whole dump: the optional header, then the page loop.
#[verifier::opaque]
pub open spec fn sp_dump(l: GLex, skip_header: bool) -> GParse {
    if skip_header {
        match sp_header(l) {
            Ok(i) => sp_pages(l, i),
            Err(f) => GParse { pages: Seq::empty(), tail: Some(f) },
        }
    } else {
        sp_pages(l, 0)
    }
}

/// Unfolding of the page loop at a `<page>` start tag whose body parses.
pub proof fn lemma_pages_step(l: GLex, i: int, pg: GPage, j: int)
    requires
        l.has(i),
        l.toks[i] matches GToken::Open { name, .. } && spec_resolve(name) == Some(Tag::Page),
        sp_page_body(l, i + 1) == Ok::<(GPage, int), GFault>((pg, j)),
        i < j <= l.toks.len(),
    ensures
        sp_pages(l, i).pages == seq![pg] + sp_pages(l, j).pages,
        sp_pages(l, i).tail == sp_pages(l, j).tail,
{
    reveal(sp_pages);
    assert(sp_adv(l, i, j) == j);
}

/// Unfolding of the page loop at a `<page>` start tag whose body faults.
pub proof fn lemma_pages_fault(l: GLex, i: int, f: GFault)
    requires
        l.has(i),
        l.toks[i] matches GToken::Open { name, .. } && spec_resolve(name) == Some(Tag::Page),
        sp_page_body(l, i + 1) == Err::<(GPage, int), GFault>(f),
    ensures
        sp_pages(l, i) == (GParse { pages: Seq::<GPage>::empty(), tail: Some(f) }),
{
    reveal(sp_pages);
}

/// Unfolding of the page loop at its clean end.
pub proof fn lemma_pages_end(l: GLex, i: int)
    requires
        l.has(i),
        l.toks[i] matches GToken::Close { name, .. } && spec_resolve(name) == Some(Tag::MediaWiki),
    ensures
        sp_pages(l, i) == (GParse { pages: Seq::<GPage>::empty(), tail: None::<GFault> }),
{
    reveal(sp_pages);
}

/// Unfolding of the page loop at any other token: a format fault there.
pub proof fn lemma_pages_bad(l: GLex, i: int)
    requires
        !(l.has(i) && (l.toks[i] matches GToken::Open { name, .. } && spec_resolve(name) == Some(
            Tag::Page,
        )) || l.has(i) && (l.toks[i] matches GToken::Close { name, .. } && spec_resolve(name)
            == Some(Tag::MediaWiki))),
    ensures
        sp_pages(l, i) == (GParse {
            pages: Seq::<GPage>::empty(),
            tail: Some(GFault::Format { position: l.pos_at(i) }),
        }),
{
    reveal(sp_pages);
}

} // verus!
