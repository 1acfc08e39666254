//! Laws of the decoder, proved once and for all over the grammar: field
//! round-tripping for minimal records, the contributor suppression shape,
//! and the absent-comment pushback.

use vstd::prelude::*;
use vstd::utf8::valid_utf8;

use crate::error::GFault;
use crate::grammar::{
    lemma_pages_end, lemma_pages_step, sp_comment, sp_contributor, sp_contributor_block,
    sp_contributor_user, sp_dump, sp_is_deleted_marker, sp_page_body, sp_page_head, sp_page_rest,
    sp_page_tail, sp_pages, sp_peek_is, sp_revision, sp_revision_close, sp_revision_rest,
    sp_revision_tail, sp_revisions, GParse,
};
use crate::records::GPage;
use crate::lex::{text_of, utc_of};
use crate::records::{GComment, GContributor, GRevision, Timestamp};
use crate::tag::{spec_resolve, Tag};
use crate::token::{GAttr, GAttrInfo, GLex, GToken};
use crate::values::{dec_i32_of, dec_u32_of};

verus! {

/// Law (contributor suppression): a self-closing `contributor` tag decodes
/// to `Deleted` exactly when the suppression marker is its single,
/// well-formed attribute; every other self-closing shape — another name or
/// value, no attribute, more than one, or an unreadable list — is a fault.
pub proof fn lemma_contributor_suppressed(l: GLex, i: int, name: Seq<u8>, attr: GAttrInfo, pos: usize)
    requires
        l.has(i),
        l.toks[i] == (GToken::Empty { name, attr, pos }),
        spec_resolve(name) == Some(Tag::Contributor),
    ensures
        (attr matches GAttrInfo::Single(a) && valid_utf8(a.value) && sp_is_deleted_marker(a))
            ==> sp_contributor(l, i) == Ok::<(GContributor, int), GFault>(
            (GContributor::Deleted, i + 1),
        ),
        !(attr matches GAttrInfo::Single(a) && valid_utf8(a.value) && sp_is_deleted_marker(a))
            ==> sp_contributor(l, i) is Err,
{
    reveal(sp_contributor);
}

/// Law (comment absence): when the token after the optional `minor` and
/// `origin` steps directly opens the `model` element, the comment decodes
/// as `DeletedOrAbsent(false)` and that token is pushed back untouched for
/// the `model` step.
pub proof fn lemma_comment_absent(l: GLex, i: int)
    requires
        sp_peek_is(l, i, Tag::Model, false),
    ensures
        sp_comment(l, i) == Ok::<(GComment, int), GFault>((GComment::DeletedOrAbsent(false), i)),
{
}

/// The token shape of a minimal element: open tag, one text run, close tag.
pub open spec fn elem3(name: Seq<u8>, raw: Seq<u8>) -> Seq<GToken> {
    seq![
        GToken::Open { name, attr: GAttrInfo::Absent, pos: 0 },
        GToken::Text { raw, pos: 0 },
        GToken::Close { name, pos: 0 },
        GToken::Text { raw: seq![32u8], pos: 0 },
    ]
}

/// The token shape of a page head: a text run, then `title`, `ns` and `id`
/// elements.
pub open spec fn head_block(
    n_title: Seq<u8>,
    n_ns: Seq<u8>,
    n_id: Seq<u8>,
    r_title: Seq<u8>,
    r_ns: Seq<u8>,
    r_id: Seq<u8>,
) -> Seq<GToken> {
    seq![GToken::Text { raw: seq![32u8], pos: 0 }] + elem3(n_title, r_title) + elem3(n_ns, r_ns)
        + elem3(n_id, r_id)
}

/// Law (round trip, page head): for any raw names resolving to `title`,
/// `ns` and `id`, and any payloads that decode, the page head yields
/// exactly the decoded values — nothing is altered or reordered.
pub proof fn lemma_round_trip_page_head(
    l: GLex,
    n_title: Seq<u8>,
    n_ns: Seq<u8>,
    n_id: Seq<u8>,
    r_title: Seq<u8>,
    r_ns: Seq<u8>,
    r_id: Seq<u8>,
    title: Seq<char>,
    ns: i32,
    id: u32,
)
    requires
        l.toks == head_block(n_title, n_ns, n_id, r_title, r_ns, r_id),
        spec_resolve(n_title) == Some(Tag::Title),
        spec_resolve(n_ns) == Some(Tag::Ns),
        spec_resolve(n_id) == Some(Tag::Id),
        text_of(r_title) == Some(title),
        text_of(r_ns) matches Some(c) && dec_i32_of(c) == Some(ns),
        text_of(r_id) matches Some(c) && dec_u32_of(c) == Some(id),
    ensures
        sp_page_head(l, 0) == Ok::<(Seq<char>, i32, u32, int), GFault>((title, ns, id, 13)),
{
    reveal(sp_page_head);
    assert(l.toks.len() == 13);
    assert(l.toks[0] == (GToken::Text { raw: seq![32u8], pos: 0 }));
    assert(l.toks[1] == (GToken::Open { name: n_title, attr: GAttrInfo::Absent, pos: 0 }));
    assert(l.toks[2] == (GToken::Text { raw: r_title, pos: 0 }));
    assert(l.toks[3] == (GToken::Close { name: n_title, pos: 0 }));
    assert(l.toks[4] == (GToken::Text { raw: seq![32u8], pos: 0 }));
    assert(l.toks[5] == (GToken::Open { name: n_ns, attr: GAttrInfo::Absent, pos: 0 }));
    assert(l.toks[6] == (GToken::Text { raw: r_ns, pos: 0 }));
    assert(l.toks[7] == (GToken::Close { name: n_ns, pos: 0 }));
    assert(l.toks[8] == (GToken::Text { raw: seq![32u8], pos: 0 }));
    assert(l.toks[9] == (GToken::Open { name: n_id, attr: GAttrInfo::Absent, pos: 0 }));
    assert(l.toks[10] == (GToken::Text { raw: r_id, pos: 0 }));
    assert(l.toks[11] == (GToken::Close { name: n_id, pos: 0 }));
    assert(l.toks[12] == (GToken::Text { raw: seq![32u8], pos: 0 }));
}

/// The token shape of a minimal revision body: `id`, `timestamp`, a
/// registered contributor, then `model`, `format`, `text`, `sha1` and the
/// revision end tag with its trailing text run.
pub open spec fn revision_block(
    n_id: Seq<u8>,
    n_ts: Seq<u8>,
    n_contributor: Seq<u8>,
    n_username: Seq<u8>,
    n_model: Seq<u8>,
    n_format: Seq<u8>,
    n_text: Seq<u8>,
    n_sha1: Seq<u8>,
    n_revision: Seq<u8>,
    r_id: Seq<u8>,
    r_ts: Seq<u8>,
    r_user: Seq<u8>,
    r_uid: Seq<u8>,
    r_model: Seq<u8>,
    r_format: Seq<u8>,
    r_text: Seq<u8>,
    r_sha1: Seq<u8>,
) -> Seq<GToken> {
    elem3(n_id, r_id) + elem3(n_ts, r_ts) + seq![
        GToken::Open { name: n_contributor, attr: GAttrInfo::Absent, pos: 0 },
        GToken::Text { raw: seq![32u8], pos: 0 },
    ] + elem3(n_username, r_user) + elem3(n_id, r_uid) + seq![
        GToken::Close { name: n_contributor, pos: 0 },
        GToken::Text { raw: seq![32u8], pos: 0 },
    ] + elem3(n_model, r_model) + elem3(n_format, r_format) + elem3(n_text, r_text) + elem3(
        n_sha1,
        r_sha1,
    ) + seq![
        GToken::Close { name: n_revision, pos: 0 },
        GToken::Text { raw: seq![32u8], pos: 0 },
    ]
}

/// The record a minimal revision decodes to.
pub open spec fn minimal_revision(
    rid: u32,
    tsv: Timestamp,
    username: Seq<char>,
    uid: u32,
    model: Seq<char>,
    format: Seq<char>,
    text: Seq<char>,
    sha1: Seq<char>,
) -> GRevision {
    GRevision {
        id: rid,
        parent_id: None,
        timestamp: tsv,
        contributor: GContributor::User { username, id: uid },
        origin: None,
        minor: false,
        comment: GComment::DeletedOrAbsent(false),
        model,
        format,
        text,
        sha1,
    }
}

/// Law (round trip, revision)/// Law (round trip, revision): a minimal revision — id, timestamp, a
/// registered contributor, no minor marker, no origin, no comment — decodes
/// to exactly the values its payloads carry: identifiers and timestamp
/// parsed, username and the four trailing payloads passed through
/// unchanged, `minor` defaulted to false, and comment marked absent.
#[verifier::rlimit(100)]
#[verifier::spinoff_prover]
pub proof fn lemma_round_trip_revision(
    l: GLex,
    n_id: Seq<u8>,
    n_ts: Seq<u8>,
    n_contributor: Seq<u8>,
    n_username: Seq<u8>,
    n_model: Seq<u8>,
    n_format: Seq<u8>,
    n_text: Seq<u8>,
    n_sha1: Seq<u8>,
    n_revision: Seq<u8>,
    r_id: Seq<u8>,
    r_ts: Seq<u8>,
    r_user: Seq<u8>,
    r_uid: Seq<u8>,
    r_model: Seq<u8>,
    r_format: Seq<u8>,
    r_text: Seq<u8>,
    r_sha1: Seq<u8>,
    id: u32,
    tsv: Timestamp,
    username: Seq<char>,
    uid: u32,
    model: Seq<char>,
    format: Seq<char>,
    text: Seq<char>,
    sha1: Seq<char>,
)
    requires
        l.toks == revision_block(
            n_id,
            n_ts,
            n_contributor,
            n_username,
            n_model,
            n_format,
            n_text,
            n_sha1,
            n_revision,
            r_id,
            r_ts,
            r_user,
            r_uid,
            r_model,
            r_format,
            r_text,
            r_sha1,
        ),
        spec_resolve(n_id) == Some(Tag::Id),
        spec_resolve(n_ts) == Some(Tag::Timestamp),
        spec_resolve(n_contributor) == Some(Tag::Contributor),
        spec_resolve(n_username) == Some(Tag::Username),
        spec_resolve(n_model) == Some(Tag::Model),
        spec_resolve(n_format) == Some(Tag::Format),
        spec_resolve(n_text) == Some(Tag::Text),
        spec_resolve(n_sha1) == Some(Tag::Sha1),
        spec_resolve(n_revision) == Some(Tag::Revision),
        text_of(r_id) matches Some(c) && dec_u32_of(c) == Some(id),
        text_of(r_ts) matches Some(c) && utc_of(c) == Some(tsv),
        text_of(r_user) == Some(username),
        text_of(r_uid) matches Some(c) && dec_u32_of(c) == Some(uid),
        text_of(r_model) == Some(model),
        text_of(r_format) == Some(format),
        text_of(r_text) == Some(text),
        text_of(r_sha1) == Some(sha1),
    ensures
        sp_revision(l, 0) == Ok::<(GRevision, int), GFault>(
            (
                GRevision {
                    id,
                    parent_id: None,
                    timestamp: tsv,
                    contributor: GContributor::User { username, id: uid },
                    origin: None,
                    minor: false,
                    comment: GComment::DeletedOrAbsent(false),
                    model,
                    format,
                    text,
                    sha1,
                },
                38,
            ),
        ),
{
    reveal(sp_revision);
    reveal(sp_revision_rest);
    reveal(sp_revision_tail);
    reveal(sp_revision_close);
    reveal(sp_contributor);
    reveal(sp_contributor_block);
    reveal(sp_contributor_user);
    assert(l.toks.len() == 38);
    assert(l.toks[0] == (GToken::Open { name: n_id, attr: GAttrInfo::Absent, pos: 0 }));
    assert(l.toks[1] == (GToken::Text { raw: r_id, pos: 0 }));
    assert(l.toks[2] == (GToken::Close { name: n_id, pos: 0 }));
    assert(l.toks[3] == (GToken::Text { raw: seq![32u8], pos: 0 }));
    assert(l.toks[4] == (GToken::Open { name: n_ts, attr: GAttrInfo::Absent, pos: 0 }));
    assert(l.toks[5] == (GToken::Text { raw: r_ts, pos: 0 }));
    assert(l.toks[6] == (GToken::Close { name: n_ts, pos: 0 }));
    assert(l.toks[7] == (GToken::Text { raw: seq![32u8], pos: 0 }));
    assert(l.toks[8] == (GToken::Open { name: n_contributor, attr: GAttrInfo::Absent, pos: 0 }));
    assert(l.toks[9] == (GToken::Text { raw: seq![32u8], pos: 0 }));
    assert(l.toks[10] == (GToken::Open { name: n_username, attr: GAttrInfo::Absent, pos: 0 }));
    assert(l.toks[11] == (GToken::Text { raw: r_user, pos: 0 }));
    assert(l.toks[12] == (GToken::Close { name: n_username, pos: 0 }));
    assert(l.toks[13] == (GToken::Text { raw: seq![32u8], pos: 0 }));
    assert(l.toks[14] == (GToken::Open { name: n_id, attr: GAttrInfo::Absent, pos: 0 }));
    assert(l.toks[15] == (GToken::Text { raw: r_uid, pos: 0 }));
    assert(l.toks[16] == (GToken::Close { name: n_id, pos: 0 }));
    assert(l.toks[17] == (GToken::Text { raw: seq![32u8], pos: 0 }));
    assert(l.toks[18] == (GToken::Close { name: n_contributor, pos: 0 }));
    assert(l.toks[19] == (GToken::Text { raw: seq![32u8], pos: 0 }));
    assert(l.toks[20] == (GToken::Open { name: n_model, attr: GAttrInfo::Absent, pos: 0 }));
    assert(l.toks[21] == (GToken::Text { raw: r_model, pos: 0 }));
    assert(l.toks[22] == (GToken::Close { name: n_model, pos: 0 }));
    assert(l.toks[23] == (GToken::Text { raw: seq![32u8], pos: 0 }));
    assert(l.toks[24] == (GToken::Open { name: n_format, attr: GAttrInfo::Absent, pos: 0 }));
    assert(l.toks[25] == (GToken::Text { raw: r_format, pos: 0 }));
    assert(l.toks[26] == (GToken::Close { name: n_format, pos: 0 }));
    assert(l.toks[27] == (GToken::Text { raw: seq![32u8], pos: 0 }));
    assert(l.toks[28] == (GToken::Open { name: n_text, attr: GAttrInfo::Absent, pos: 0 }));
    assert(l.toks[29] == (GToken::Text { raw: r_text, pos: 0 }));
    assert(l.toks[30] == (GToken::Close { name: n_text, pos: 0 }));
    assert(l.toks[31] == (GToken::Text { raw: seq![32u8], pos: 0 }));
    assert(l.toks[32] == (GToken::Open { name: n_sha1, attr: GAttrInfo::Absent, pos: 0 }));
    assert(l.toks[33] == (GToken::Text { raw: r_sha1, pos: 0 }));
    assert(l.toks[34] == (GToken::Close { name: n_sha1, pos: 0 }));
    assert(l.toks[35] == (GToken::Text { raw: seq![32u8], pos: 0 }));
    assert(l.toks[36] == (GToken::Close { name: n_revision, pos: 0 }));
    assert(l.toks[37] == (GToken::Text { raw: seq![32u8], pos: 0 }));
    assert(!sp_peek_is(l, 20, Tag::Minor, true));
    assert(!sp_peek_is(l, 20, Tag::Origin, false));
    assert(!sp_peek_is(l, 20, Tag::Comment, false));
    assert(!sp_peek_is(l, 20, Tag::Comment, true));
}

/// The token shape of a whole minimal dump, without a header: one page
/// holding one minimal revision, then the dump's end tag.
pub open spec fn minimal_dump_block(
    n_page: Seq<u8>,
    n_mediawiki: Seq<u8>,
    n_title: Seq<u8>,
    n_ns: Seq<u8>,
    n_id: Seq<u8>,
    n_ts: Seq<u8>,
    n_contributor: Seq<u8>,
    n_username: Seq<u8>,
    n_model: Seq<u8>,
    n_format: Seq<u8>,
    n_text: Seq<u8>,
    n_sha1: Seq<u8>,
    n_revision: Seq<u8>,
    r_title: Seq<u8>,
    r_ns: Seq<u8>,
    r_pid: Seq<u8>,
    r_rid: Seq<u8>,
    r_ts: Seq<u8>,
    r_user: Seq<u8>,
    r_uid: Seq<u8>,
    r_model: Seq<u8>,
    r_format: Seq<u8>,
    r_text: Seq<u8>,
    r_sha1: Seq<u8>,
) -> Seq<GToken> {
    seq![GToken::Open { name: n_page, attr: GAttrInfo::Absent, pos: 0 }] + head_block(
        n_title,
        n_ns,
        n_id,
        r_title,
        r_ns,
        r_pid,
    ) + seq![
        GToken::Open { name: n_revision, attr: GAttrInfo::Absent, pos: 0 },
        GToken::Text { raw: seq![32u8], pos: 0 },
    ] + revision_block(
        n_id,
        n_ts,
        n_contributor,
        n_username,
        n_model,
        n_format,
        n_text,
        n_sha1,
        n_revision,
        r_rid,
        r_ts,
        r_user,
        r_uid,
        r_model,
        r_format,
        r_text,
        r_sha1,
    ) + seq![
        GToken::Close { name: n_page, pos: 0 },
        GToken::Text { raw: seq![32u8], pos: 0 },
        GToken::Close { name: n_mediawiki, pos: 0 },
    ]
}

/// The page head of the minimal dump, at its fixed offset.
#[verifier::rlimit(100)]
#[verifier::spinoff_prover]
proof fn lemma_minimal_dump_head(
    l: GLex,
    n_page: Seq<u8>,
    n_mediawiki: Seq<u8>,
    n_title: Seq<u8>,
    n_ns: Seq<u8>,
    n_id: Seq<u8>,
    n_ts: Seq<u8>,
    n_contributor: Seq<u8>,
    n_username: Seq<u8>,
    n_model: Seq<u8>,
    n_format: Seq<u8>,
    n_text: Seq<u8>,
    n_sha1: Seq<u8>,
    n_revision: Seq<u8>,
    r_title: Seq<u8>,
    r_ns: Seq<u8>,
    r_pid: Seq<u8>,
    r_rid: Seq<u8>,
    r_ts: Seq<u8>,
    r_user: Seq<u8>,
    r_uid: Seq<u8>,
    r_model: Seq<u8>,
    r_format: Seq<u8>,
    r_text: Seq<u8>,
    r_sha1: Seq<u8>,
    title: Seq<char>,
    ns: i32,
    pid: u32,
)
    requires
        l.toks == minimal_dump_block(
            n_page, n_mediawiki, n_title, n_ns, n_id, n_ts, n_contributor, n_username, n_model, n_format, n_text, n_sha1, n_revision,
        r_title, r_ns, r_pid, r_rid, r_ts, r_user, r_uid, r_model, r_format, r_text, r_sha1,
        ),
        spec_resolve(n_title) == Some(Tag::Title),
        spec_resolve(n_ns) == Some(Tag::Ns),
        spec_resolve(n_id) == Some(Tag::Id),
        text_of(r_title) == Some(title),
        text_of(r_ns) matches Some(c) && dec_i32_of(c) == Some(ns),
        text_of(r_pid) matches Some(c) && dec_u32_of(c) == Some(pid),
    ensures
        sp_page_head(l, 1) == Ok::<(Seq<char>, i32, u32, int), GFault>((title, ns, pid, 14)),
{
    reveal(sp_page_head);
    assert(l.toks.len() == 57);
    assert(l.toks[1] == (GToken::Text { raw: seq![32u8], pos: 0 }));
    assert(l.toks[2] == (GToken::Open { name: n_title, attr: GAttrInfo::Absent, pos: 0 }));
    assert(l.toks[3] == (GToken::Text { raw: r_title, pos: 0 }));
    assert(l.toks[4] == (GToken::Close { name: n_title, pos: 0 }));
    assert(l.toks[5] == (GToken::Text { raw: seq![32u8], pos: 0 }));
    assert(l.toks[6] == (GToken::Open { name: n_ns, attr: GAttrInfo::Absent, pos: 0 }));
    assert(l.toks[7] == (GToken::Text { raw: r_ns, pos: 0 }));
    assert(l.toks[8] == (GToken::Close { name: n_ns, pos: 0 }));
    assert(l.toks[9] == (GToken::Text { raw: seq![32u8], pos: 0 }));
    assert(l.toks[10] == (GToken::Open { name: n_id, attr: GAttrInfo::Absent, pos: 0 }));
    assert(l.toks[11] == (GToken::Text { raw: r_pid, pos: 0 }));
    assert(l.toks[12] == (GToken::Close { name: n_id, pos: 0 }));
    assert(l.toks[13] == (GToken::Text { raw: seq![32u8], pos: 0 }));
}

/// The contributor of the minimal dump, at its fixed offset.
#[verifier::rlimit(100)]
#[verifier::spinoff_prover]
proof fn lemma_minimal_dump_contributor(
    l: GLex,
    n_page: Seq<u8>,
    n_mediawiki: Seq<u8>,
    n_title: Seq<u8>,
    n_ns: Seq<u8>,
    n_id: Seq<u8>,
    n_ts: Seq<u8>,
    n_contributor: Seq<u8>,
    n_username: Seq<u8>,
    n_model: Seq<u8>,
    n_format: Seq<u8>,
    n_text: Seq<u8>,
    n_sha1: Seq<u8>,
    n_revision: Seq<u8>,
    r_title: Seq<u8>,
    r_ns: Seq<u8>,
    r_pid: Seq<u8>,
    r_rid: Seq<u8>,
    r_ts: Seq<u8>,
    r_user: Seq<u8>,
    r_uid: Seq<u8>,
    r_model: Seq<u8>,
    r_format: Seq<u8>,
    r_text: Seq<u8>,
    r_sha1: Seq<u8>,
    username: Seq<char>,
    uid: u32,
)
    requires
        l.toks == minimal_dump_block(
            n_page, n_mediawiki, n_title, n_ns, n_id, n_ts, n_contributor, n_username, n_model, n_format, n_text, n_sha1, n_revision,
        r_title, r_ns, r_pid, r_rid, r_ts, r_user, r_uid, r_model, r_format, r_text, r_sha1,
        ),
        spec_resolve(n_id) == Some(Tag::Id),
        spec_resolve(n_contributor) == Some(Tag::Contributor),
        spec_resolve(n_username) == Some(Tag::Username),
        text_of(r_user) == Some(username),
        text_of(r_uid) matches Some(c) && dec_u32_of(c) == Some(uid),
    ensures
        sp_contributor(l, 24) == Ok::<(GContributor, int), GFault>(
            (GContributor::User { username, id: uid }, 35),
        ),
{
    reveal(sp_contributor);
    reveal(sp_contributor_block);
    reveal(sp_contributor_user);
    assert(l.toks.len() == 57);
    assert(l.toks[24] == (GToken::Open { name: n_contributor, attr: GAttrInfo::Absent, pos: 0 }));
    assert(l.toks[25] == (GToken::Text { raw: seq![32u8], pos: 0 }));
    assert(l.toks[26] == (GToken::Open { name: n_username, attr: GAttrInfo::Absent, pos: 0 }));
    assert(l.toks[27] == (GToken::Text { raw: r_user, pos: 0 }));
    assert(l.toks[28] == (GToken::Close { name: n_username, pos: 0 }));
    assert(l.toks[29] == (GToken::Text { raw: seq![32u8], pos: 0 }));
    assert(l.toks[30] == (GToken::Open { name: n_id, attr: GAttrInfo::Absent, pos: 0 }));
    assert(l.toks[31] == (GToken::Text { raw: r_uid, pos: 0 }));
    assert(l.toks[32] == (GToken::Close { name: n_id, pos: 0 }));
    assert(l.toks[33] == (GToken::Text { raw: seq![32u8], pos: 0 }));
    assert(l.toks[34] == (GToken::Close { name: n_contributor, pos: 0 }));
}

/// The revision of the minimal dump, at its fixed offset.
#[verifier::rlimit(100)]
#[verifier::spinoff_prover]
proof fn lemma_minimal_dump_revision(
    l: GLex,
    n_page: Seq<u8>,
    n_mediawiki: Seq<u8>,
    n_title: Seq<u8>,
    n_ns: Seq<u8>,
    n_id: Seq<u8>,
    n_ts: Seq<u8>,
    n_contributor: Seq<u8>,
    n_username: Seq<u8>,
    n_model: Seq<u8>,
    n_format: Seq<u8>,
    n_text: Seq<u8>,
    n_sha1: Seq<u8>,
    n_revision: Seq<u8>,
    r_title: Seq<u8>,
    r_ns: Seq<u8>,
    r_pid: Seq<u8>,
    r_rid: Seq<u8>,
    r_ts: Seq<u8>,
    r_user: Seq<u8>,
    r_uid: Seq<u8>,
    r_model: Seq<u8>,
    r_format: Seq<u8>,
    r_text: Seq<u8>,
    r_sha1: Seq<u8>,
    rid: u32,
    tsv: Timestamp,
    username: Seq<char>,
    uid: u32,
    model: Seq<char>,
    format: Seq<char>,
    text: Seq<char>,
    sha1: Seq<char>,
)
    requires
        l.toks == minimal_dump_block(
            n_page, n_mediawiki, n_title, n_ns, n_id, n_ts, n_contributor, n_username, n_model, n_format, n_text, n_sha1, n_revision,
        r_title, r_ns, r_pid, r_rid, r_ts, r_user, r_uid, r_model, r_format, r_text, r_sha1,
        ),
        spec_resolve(n_id) == Some(Tag::Id),
        spec_resolve(n_ts) == Some(Tag::Timestamp),
        spec_resolve(n_contributor) == Some(Tag::Contributor),
        spec_resolve(n_username) == Some(Tag::Username),
        spec_resolve(n_model) == Some(Tag::Model),
        spec_resolve(n_format) == Some(Tag::Format),
        spec_resolve(n_text) == Some(Tag::Text),
        spec_resolve(n_sha1) == Some(Tag::Sha1),
        spec_resolve(n_revision) == Some(Tag::Revision),
        text_of(r_rid) matches Some(c) && dec_u32_of(c) == Some(rid),
        text_of(r_ts) matches Some(c) && utc_of(c) == Some(tsv),
        text_of(r_user) == Some(username),
        text_of(r_uid) matches Some(c) && dec_u32_of(c) == Some(uid),
        text_of(r_model) == Some(model),
        text_of(r_format) == Some(format),
        text_of(r_text) == Some(text),
        text_of(r_sha1) == Some(sha1),
    ensures
        sp_revision(l, 16) == Ok::<(GRevision, int), GFault>(
            (minimal_revision(rid, tsv, username, uid, model, format, text, sha1), 54),
        ),
{
    lemma_minimal_dump_contributor(
        l,
        n_page, n_mediawiki, n_title, n_ns, n_id, n_ts, n_contributor, n_username, n_model, n_format, n_text, n_sha1, n_revision,
        r_title, r_ns, r_pid, r_rid, r_ts, r_user, r_uid, r_model, r_format, r_text, r_sha1,
        username,
        uid,
    );
    reveal(sp_revision);
    reveal(sp_revision_rest);
    reveal(sp_revision_tail);
    reveal(sp_revision_close);
    assert(l.toks.len() == 57);
    assert(l.toks[16] == (GToken::Open { name: n_id, attr: GAttrInfo::Absent, pos: 0 }));
    assert(l.toks[17] == (GToken::Text { raw: r_rid, pos: 0 }));
    assert(l.toks[18] == (GToken::Close { name: n_id, pos: 0 }));
    assert(l.toks[19] == (GToken::Text { raw: seq![32u8], pos: 0 }));
    assert(l.toks[20] == (GToken::Open { name: n_ts, attr: GAttrInfo::Absent, pos: 0 }));
    assert(l.toks[21] == (GToken::Text { raw: r_ts, pos: 0 }));
    assert(l.toks[22] == (GToken::Close { name: n_ts, pos: 0 }));
    assert(l.toks[23] == (GToken::Text { raw: seq![32u8], pos: 0 }));
    assert(l.toks[35] == (GToken::Text { raw: seq![32u8], pos: 0 }));
    assert(l.toks[36] == (GToken::Open { name: n_model, attr: GAttrInfo::Absent, pos: 0 }));
    assert(l.toks[37] == (GToken::Text { raw: r_model, pos: 0 }));
    assert(l.toks[38] == (GToken::Close { name: n_model, pos: 0 }));
    assert(l.toks[39] == (GToken::Text { raw: seq![32u8], pos: 0 }));
    assert(l.toks[40] == (GToken::Open { name: n_format, attr: GAttrInfo::Absent, pos: 0 }));
    assert(l.toks[41] == (GToken::Text { raw: r_format, pos: 0 }));
    assert(l.toks[42] == (GToken::Close { name: n_format, pos: 0 }));
    assert(l.toks[43] == (GToken::Text { raw: seq![32u8], pos: 0 }));
    assert(l.toks[44] == (GToken::Open { name: n_text, attr: GAttrInfo::Absent, pos: 0 }));
    assert(l.toks[45] == (GToken::Text { raw: r_text, pos: 0 }));
    assert(l.toks[46] == (GToken::Close { name: n_text, pos: 0 }));
    assert(l.toks[47] == (GToken::Text { raw: seq![32u8], pos: 0 }));
    assert(l.toks[48] == (GToken::Open { name: n_sha1, attr: GAttrInfo::Absent, pos: 0 }));
    assert(l.toks[49] == (GToken::Text { raw: r_sha1, pos: 0 }));
    assert(l.toks[50] == (GToken::Close { name: n_sha1, pos: 0 }));
    assert(l.toks[51] == (GToken::Text { raw: seq![32u8], pos: 0 }));
    assert(l.toks[52] == (GToken::Close { name: n_revision, pos: 0 }));
    assert(l.toks[53] == (GToken::Text { raw: seq![32u8], pos: 0 }));
    assert(!sp_peek_is(l, 36, Tag::Minor, true));
    assert(!sp_peek_is(l, 36, Tag::Origin, false));
    assert(!sp_peek_is(l, 36, Tag::Comment, false));
    assert(!sp_peek_is(l, 36, Tag::Comment, true));
}

/// Law (round trip, whole dump): a headerless dump holding exactly one
/// minimal page decodes to exactly that page and a clean end — every field
/// equals what its payload decodes to, nothing else is emitted, and no
/// fault is raised.
#[verifier::rlimit(100)]
#[verifier::spinoff_prover]
pub proof fn lemma_round_trip_minimal_dump(
    l: GLex,
    n_page: Seq<u8>,
    n_mediawiki: Seq<u8>,
    n_title: Seq<u8>,
    n_ns: Seq<u8>,
    n_id: Seq<u8>,
    n_ts: Seq<u8>,
    n_contributor: Seq<u8>,
    n_username: Seq<u8>,
    n_model: Seq<u8>,
    n_format: Seq<u8>,
    n_text: Seq<u8>,
    n_sha1: Seq<u8>,
    n_revision: Seq<u8>,
    r_title: Seq<u8>,
    r_ns: Seq<u8>,
    r_pid: Seq<u8>,
    r_rid: Seq<u8>,
    r_ts: Seq<u8>,
    r_user: Seq<u8>,
    r_uid: Seq<u8>,
    r_model: Seq<u8>,
    r_format: Seq<u8>,
    r_text: Seq<u8>,
    r_sha1: Seq<u8>,
    title: Seq<char>,
    ns: i32,
    pid: u32,
    rid: u32,
    tsv: Timestamp,
    username: Seq<char>,
    uid: u32,
    model: Seq<char>,
    format: Seq<char>,
    text: Seq<char>,
    sha1: Seq<char>,
)
    requires
        l.toks == minimal_dump_block(
            n_page, n_mediawiki, n_title, n_ns, n_id, n_ts, n_contributor, n_username, n_model, n_format, n_text, n_sha1, n_revision,
        r_title, r_ns, r_pid, r_rid, r_ts, r_user, r_uid, r_model, r_format, r_text, r_sha1,
        ),
        spec_resolve(n_page) == Some(Tag::Page),
        spec_resolve(n_mediawiki) == Some(Tag::MediaWiki),
        spec_resolve(n_title) == Some(Tag::Title),
        spec_resolve(n_ns) == Some(Tag::Ns),
        spec_resolve(n_id) == Some(Tag::Id),
        text_of(r_title) == Some(title),
        text_of(r_ns) matches Some(c) && dec_i32_of(c) == Some(ns),
        text_of(r_pid) matches Some(c) && dec_u32_of(c) == Some(pid),
        spec_resolve(n_ts) == Some(Tag::Timestamp),
        spec_resolve(n_contributor) == Some(Tag::Contributor),
        spec_resolve(n_username) == Some(Tag::Username),
        spec_resolve(n_model) == Some(Tag::Model),
        spec_resolve(n_format) == Some(Tag::Format),
        spec_resolve(n_text) == Some(Tag::Text),
        spec_resolve(n_sha1) == Some(Tag::Sha1),
        spec_resolve(n_revision) == Some(Tag::Revision),
        text_of(r_rid) matches Some(c) && dec_u32_of(c) == Some(rid),
        text_of(r_ts) matches Some(c) && utc_of(c) == Some(tsv),
        text_of(r_user) == Some(username),
        text_of(r_uid) matches Some(c) && dec_u32_of(c) == Some(uid),
        text_of(r_model) == Some(model),
        text_of(r_format) == Some(format),
        text_of(r_text) == Some(text),
        text_of(r_sha1) == Some(sha1),
    ensures
        sp_dump(l, false) == (GParse {
            pages: seq![
                GPage {
                    title,
                    namespace: ns,
                    id: pid,
                    redirect_target: None,
                    restrictions: None,
                    revisions: seq![
                        minimal_revision(rid, tsv, username, uid, model, format, text, sha1),
                    ],
                },
            ],
            tail: None::<GFault>,
        }),
{
    lemma_minimal_dump_head(
        l,
        n_page, n_mediawiki, n_title, n_ns, n_id, n_ts, n_contributor, n_username, n_model, n_format, n_text, n_sha1, n_revision,
        r_title, r_ns, r_pid, r_rid, r_ts, r_user, r_uid, r_model, r_format, r_text, r_sha1,
        title,
        ns,
        pid,
    );
    lemma_minimal_dump_revision(
        l,
        n_page, n_mediawiki, n_title, n_ns, n_id, n_ts, n_contributor, n_username, n_model, n_format, n_text, n_sha1, n_revision,
        r_title, r_ns, r_pid, r_rid, r_ts, r_user, r_uid, r_model, r_format, r_text, r_sha1,
        rid,
        tsv,
        username,
        uid,
        model,
        format,
        text,
        sha1,
    );
    reveal(sp_dump);
    reveal(sp_page_body);
    reveal(sp_page_rest);
    reveal(sp_page_tail);
    reveal(sp_revisions);
    assert(l.toks.len() == 57);
    assert(l.toks[0] == (GToken::Open { name: n_page, attr: GAttrInfo::Absent, pos: 0 }));
    assert(l.toks[14] == (GToken::Open { name: n_revision, attr: GAttrInfo::Absent, pos: 0 }));
    assert(l.toks[15] == (GToken::Text { raw: seq![32u8], pos: 0 }));
    assert(l.toks[54] == (GToken::Close { name: n_page, pos: 0 }));
    assert(l.toks[55] == (GToken::Text { raw: seq![32u8], pos: 0 }));
    assert(l.toks[56] == (GToken::Close { name: n_mediawiki, pos: 0 }));
    let grev = minimal_revision(rid, tsv, username, uid, model, format, text, sha1);
    let gpage = GPage {
        title,
        namespace: ns,
        id: pid,
        redirect_target: None,
        restrictions: None,
        revisions: seq![grev],
    };
    assert(sp_revisions(l, 54) == Ok::<(Seq<GRevision>, int), GFault>((Seq::empty(), 56)));
    assert(seq![grev] + Seq::<GRevision>::empty() =~= seq![grev]);
    assert(sp_page_body(l, 1) == Ok::<(GPage, int), GFault>((gpage, 56)));
    lemma_pages_step(l, 0, gpage, 56);
    lemma_pages_end(l, 56);
    assert(sp_pages(l, 0).pages =~= seq![gpage]);
    assert(sp_pages(l, 0).tail == None::<GFault>);
}

} // verus!
