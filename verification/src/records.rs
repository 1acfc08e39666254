//! The immutable value records the decoder produces: pages, revisions,
//! contributors, comments, and the plain-value forms of timestamps and
//! network addresses.
//!
//! Each record type has a ghost mirror (its view) over mathematical
//! sequences, which is what every contract in this crate speaks about.

use vstd::prelude::*;

verus! {

/// A UTC point in time, as seconds and subsecond nanoseconds relative to the
/// Unix epoch.
#[derive(Clone, Copy, Debug, PartialEq, Eq, Structural)]
pub struct Timestamp {
    pub secs: i64,
    pub nanos: u32,
}

/// A network address in plain numeric form: four octets, or eight 16-bit
/// groups.
#[derive(Clone, Copy, Debug, PartialEq, Eq, Structural)]
pub enum IpAddr {
    V4 { a: u8, b: u8, c: u8, d: u8 },
    V6 { g0: u16, g1: u16, g2: u16, g3: u16, g4: u16, g5: u16, g6: u16, g7: u16 },
}

/// Who made an edit: exactly one variant is ever populated, and `Deleted`
/// carries no identity fields at all.
#[derive(Debug, PartialEq, Eq)]
pub enum Contributor {
    /// Administratively suppressed: no identity fields.
    Deleted,
    /// Anonymous edit, identified only by a network address.
    Ip { ip: IpAddr },
    /// Registered account.
    User { username: String, id: u32 },
}

/// An edit summary: either visible text, or a flag distinguishing "element
/// present but suppressed" (`true`) from "element absent entirely" (`false`).
#[derive(Debug, PartialEq, Eq)]
pub enum Comment {
    DeletedOrAbsent(bool),
    Visible(String),
}

/// One edit of a page.
#[derive(Debug, PartialEq, Eq)]
pub struct Revision {
    pub id: u32,
    pub parent_id: Option<u32>,
    pub timestamp: Timestamp,
    pub contributor: Contributor,
    /// Numeric origin identifier, an extension field of newer dump
    /// generations; its presence is decided by lookahead, not by a flag.
    pub origin: Option<u32>,
    pub minor: bool,
    pub comment: Comment,
    pub model: String,
    pub format: String,
    pub text: String,
    pub sha1: String,
}

/// One page with its full revision history, in document order.
#[derive(Debug, PartialEq, Eq)]
pub struct Page {
    pub title: String,
    pub namespace: i32,
    pub id: u32,
    /// Target title, present only for redirect pages; sourced from an
    /// attribute, not element content.
    pub redirect_target: Option<String>,
    /// Legacy free-text restriction field.
    pub restrictions: Option<String>,
    pub revisions: Vec<Revision>,
}

/// Ghost mirror of `Contributor`.
pub enum GContributor {
    Deleted,
    Ip { ip: IpAddr },
    User { username: Seq<char>, id: u32 },
}

/// Ghost mirror of `Comment`.
pub enum GComment {
    DeletedOrAbsent(bool),
    Visible(Seq<char>),
}

/// Ghost mirror of `Revision`.
pub struct GRevision {
    pub id: u32,
    pub parent_id: Option<u32>,
    pub timestamp: Timestamp,
    pub contributor: GContributor,
    pub origin: Option<u32>,
    pub minor: bool,
    pub comment: GComment,
    pub model: Seq<char>,
    pub format: Seq<char>,
    pub text: Seq<char>,
    pub sha1: Seq<char>,
}

/// Ghost mirror of `Page`.
pub struct GPage {
    pub title: Seq<char>,
    pub namespace: i32,
    pub id: u32,
    pub redirect_target: Option<Seq<char>>,
    pub restrictions: Option<Seq<char>>,
    pub revisions: Seq<GRevision>,
}

pub open spec fn view_opt_string(s: Option<String>) -> Option<Seq<char>> {
    match s {
        Some(t) => Some(t@),
        None => None,
    }
}

impl View for Contributor {
    type V = GContributor;

    open spec fn view(&self) -> GContributor {
        match self {
            Contributor::Deleted => GContributor::Deleted,
            Contributor::Ip { ip } => GContributor::Ip { ip: *ip },
            Contributor::User { username, id } => GContributor::User {
                username: username@,
                id: *id,
            },
        }
    }
}

impl View for Comment {
    type V = GComment;

    open spec fn view(&self) -> GComment {
        match self {
            Comment::DeletedOrAbsent(flag) => GComment::DeletedOrAbsent(*flag),
            Comment::Visible(text) => GComment::Visible(text@),
        }
    }
}

impl View for Revision {
    type V = GRevision;

    open spec fn view(&self) -> GRevision {
        GRevision {
            id: self.id,
            parent_id: self.parent_id,
            timestamp: self.timestamp,
            contributor: self.contributor@,
            origin: self.origin,
            minor: self.minor,
            comment: self.comment@,
            model: self.model@,
            format: self.format@,
            text: self.text@,
            sha1: self.sha1@,
        }
    }
}

impl View for Page {
    type V = GPage;

    open spec fn view(&self) -> GPage {
        GPage {
            title: self.title@,
            namespace: self.namespace,
            id: self.id,
            redirect_target: view_opt_string(self.redirect_target),
            restrictions: view_opt_string(self.restrictions),
            revisions: self.revisions@.map_values(|r: Revision| r@),
        }
    }
}

} // verus!
