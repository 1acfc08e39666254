//! Closed registry of every element name the export grammar knows.
//!
//! Raw names coming from the tokenizer are resolved to a `Tag` before any
//! comparison in the decoder; a name outside the registry is a typed
//! "unrecognized" outcome, never a silent fallback.

use vstd::prelude::*;
use vstd::string::StringSliceAdditionalSpecFns;

verus! {

#[derive(Clone, Copy, Debug, PartialEq, Eq, Structural)]
pub enum Tag {
    Action,
    Base,
    Case,
    Comment,
    Contributor,
    DbName,
    DiscussionThreadingInfo,
    Filename,
    Format,
    Generator,
    Id,
    Ip,
    LogItem,
    LogTitle,
    MediaWiki,
    Minor,
    Model,
    Namespace,
    Namespaces,
    Ns,
    Origin,
    Page,
    Params,
    ParentId,
    Redirect,
    Restrictions,
    Revision,
    Sha1,
    SiteInfo,
    SiteName,
    Size,
    Src,
    Text,
    ThreadAncestor,
    ThreadAuthor,
    ThreadEditStatus,
    ThreadId,
    ThreadPage,
    ThreadParent,
    ThreadSubject,
    ThreadType,
    Timestamp,
    Title,
    Type,
    Upload,
    Username,
}

/// Canonical byte form of each tag name. A few legacy thread identifiers are
/// case-sensitive and are matched exactly, never case-folded.
pub open spec fn spec_name(t: Tag) -> Seq<u8> {
    match t {
        Tag::Action => "action".spec_bytes(),
        Tag::Base => "base".spec_bytes(),
        Tag::Case => "case".spec_bytes(),
        Tag::Comment => "comment".spec_bytes(),
        Tag::Contributor => "contributor".spec_bytes(),
        Tag::DbName => "dbname".spec_bytes(),
        Tag::DiscussionThreadingInfo => "discussionthreadinginfo".spec_bytes(),
        Tag::Filename => "filename".spec_bytes(),
        Tag::Format => "format".spec_bytes(),
        Tag::Generator => "generator".spec_bytes(),
        Tag::Id => "id".spec_bytes(),
        Tag::Ip => "ip".spec_bytes(),
        Tag::LogItem => "logitem".spec_bytes(),
        Tag::LogTitle => "logtitle".spec_bytes(),
        Tag::MediaWiki => "mediawiki".spec_bytes(),
        Tag::Minor => "minor".spec_bytes(),
        Tag::Model => "model".spec_bytes(),
        Tag::Namespace => "namespace".spec_bytes(),
        Tag::Namespaces => "namespaces".spec_bytes(),
        Tag::Ns => "ns".spec_bytes(),
        Tag::Origin => "origin".spec_bytes(),
        Tag::Page => "page".spec_bytes(),
        Tag::Params => "params".spec_bytes(),
        Tag::ParentId => "parentid".spec_bytes(),
        Tag::Redirect => "redirect".spec_bytes(),
        Tag::Restrictions => "restrictions".spec_bytes(),
        Tag::Revision => "revision".spec_bytes(),
        Tag::Sha1 => "sha1".spec_bytes(),
        Tag::SiteInfo => "siteinfo".spec_bytes(),
        Tag::SiteName => "sitename".spec_bytes(),
        Tag::Size => "size".spec_bytes(),
        Tag::Src => "src".spec_bytes(),
        Tag::Text => "text".spec_bytes(),
        Tag::ThreadAncestor => "ThreadAncestor".spec_bytes(),
        Tag::ThreadAuthor => "ThreadAuthor".spec_bytes(),
        Tag::ThreadEditStatus => "ThreadEditStatus".spec_bytes(),
        Tag::ThreadId => "ThreadID".spec_bytes(),
        Tag::ThreadPage => "ThreadPage".spec_bytes(),
        Tag::ThreadParent => "ThreadParent".spec_bytes(),
        Tag::ThreadSubject => "ThreadSubject".spec_bytes(),
        Tag::ThreadType => "ThreadType".spec_bytes(),
        Tag::Timestamp => "timestamp".spec_bytes(),
        Tag::Title => "title".spec_bytes(),
        Tag::Type => "type".spec_bytes(),
        Tag::Upload => "upload".spec_bytes(),
        Tag::Username => "username".spec_bytes(),
    }
}

/// ASCII whitespace, as trimmed from the end of a raw name before matching.
pub open spec fn is_ascii_ws(b: u8) -> bool {
    b == 32 || b == 9 || b == 10 || b == 12 || b == 13
}

/// Length of `name` once trailing ASCII whitespace is removed.
pub open spec fn trimmed_len(name: Seq<u8>) -> int
    decreases name.len(),
{
    if name.len() > 0 && is_ascii_ws(name.last()) {
        trimmed_len(name.drop_last())
    } else {
        name.len() as int
    }
}

/// `name` with trailing ASCII whitespace removed.
pub open spec fn trim_name(name: Seq<u8>) -> Seq<u8> {
    name.take(trimmed_len(name))
}

/// The registry as a mapping from raw bytes to tags: the trimmed name must
/// equal one canonical form exactly.
#[verifier::opaque]
pub open spec fn spec_resolve(name: Seq<u8>) -> Option<Tag> {
    spec_lookup_1(trim_name(name))
}

pub open spec fn spec_lookup_1(t: Seq<u8>) -> Option<Tag> {
    if t == spec_name(Tag::Action) {
        Some(Tag::Action)
    } else if t == spec_name(Tag::Base) {
        Some(Tag::Base)
    } else if t == spec_name(Tag::Case) {
        Some(Tag::Case)
    } else if t == spec_name(Tag::Comment) {
        Some(Tag::Comment)
    } else if t == spec_name(Tag::Contributor) {
        Some(Tag::Contributor)
    } else if t == spec_name(Tag::DbName) {
        Some(Tag::DbName)
    } else if t == spec_name(Tag::DiscussionThreadingInfo) {
        Some(Tag::DiscussionThreadingInfo)
    } else if t == spec_name(Tag::Filename) {
        Some(Tag::Filename)
    } else {
        spec_lookup_2(t)
    }
}

pub open spec fn spec_lookup_2(t: Seq<u8>) -> Option<Tag> {
    if t == spec_name(Tag::Format) {
        Some(Tag::Format)
    } else if t == spec_name(Tag::Generator) {
        Some(Tag::Generator)
    } else if t == spec_name(Tag::Id) {
        Some(Tag::Id)
    } else if t == spec_name(Tag::Ip) {
        Some(Tag::Ip)
    } else if t == spec_name(Tag::LogItem) {
        Some(Tag::LogItem)
    } else if t == spec_name(Tag::LogTitle) {
        Some(Tag::LogTitle)
    } else if t == spec_name(Tag::MediaWiki) {
        Some(Tag::MediaWiki)
    } else if t == spec_name(Tag::Minor) {
        Some(Tag::Minor)
    } else {
        spec_lookup_3(t)
    }
}

pub open spec fn spec_lookup_3(t: Seq<u8>) -> Option<Tag> {
    if t == spec_name(Tag::Model) {
        Some(Tag::Model)
    } else if t == spec_name(Tag::Namespace) {
        Some(Tag::Namespace)
    } else if t == spec_name(Tag::Namespaces) {
        Some(Tag::Namespaces)
    } else if t == spec_name(Tag::Ns) {
        Some(Tag::Ns)
    } else if t == spec_name(Tag::Origin) {
        Some(Tag::Origin)
    } else if t == spec_name(Tag::Page) {
        Some(Tag::Page)
    } else if t == spec_name(Tag::Params) {
        Some(Tag::Params)
    } else if t == spec_name(Tag::ParentId) {
        Some(Tag::ParentId)
    } else {
        spec_lookup_4(t)
    }
}

pub open spec fn spec_lookup_4(t: Seq<u8>) -> Option<Tag> {
    if t == spec_name(Tag::Redirect) {
        Some(Tag::Redirect)
    } else if t == spec_name(Tag::Restrictions) {
        Some(Tag::Restrictions)
    } else if t == spec_name(Tag::Revision) {
        Some(Tag::Revision)
    } else if t == spec_name(Tag::Sha1) {
        Some(Tag::Sha1)
    } else if t == spec_name(Tag::SiteInfo) {
        Some(Tag::SiteInfo)
    } else if t == spec_name(Tag::SiteName) {
        Some(Tag::SiteName)
    } else if t == spec_name(Tag::Size) {
        Some(Tag::Size)
    } else if t == spec_name(Tag::Src) {
        Some(Tag::Src)
    } else {
        spec_lookup_5(t)
    }
}

pub open spec fn spec_lookup_5(t: Seq<u8>) -> Option<Tag> {
    if t == spec_name(Tag::Text) {
        Some(Tag::Text)
    } else if t == spec_name(Tag::ThreadAncestor) {
        Some(Tag::ThreadAncestor)
    } else if t == spec_name(Tag::ThreadAuthor) {
        Some(Tag::ThreadAuthor)
    } else if t == spec_name(Tag::ThreadEditStatus) {
        Some(Tag::ThreadEditStatus)
    } else if t == spec_name(Tag::ThreadId) {
        Some(Tag::ThreadId)
    } else if t == spec_name(Tag::ThreadPage) {
        Some(Tag::ThreadPage)
    } else if t == spec_name(Tag::ThreadParent) {
        Some(Tag::ThreadParent)
    } else if t == spec_name(Tag::ThreadSubject) {
        Some(Tag::ThreadSubject)
    } else {
        spec_lookup_6(t)
    }
}

pub open spec fn spec_lookup_6(t: Seq<u8>) -> Option<Tag> {
    if t == spec_name(Tag::ThreadType) {
        Some(Tag::ThreadType)
    } else if t == spec_name(Tag::Timestamp) {
        Some(Tag::Timestamp)
    } else if t == spec_name(Tag::Title) {
        Some(Tag::Title)
    } else if t == spec_name(Tag::Type) {
        Some(Tag::Type)
    } else if t == spec_name(Tag::Upload) {
        Some(Tag::Upload)
    } else if t == spec_name(Tag::Username) {
        Some(Tag::Username)
    } else {
        None
    }
}

/// True when the first `end` bytes of `name` spell exactly `lit`.
fn name_is(name: &[u8], end: usize, lit: &str) -> (r: bool)
    requires
        end <= name@.len(),
    ensures
        r == (name@.take(end as int) == lit.spec_bytes()),
{
    let lb = lit.as_bytes();
    if lb.len() != end {
        assert(name@.take(end as int).len() == end as int);
        return false;
    }
    let mut i: usize = 0;
    while i < end
        invariant
            i <= end,
            end <= name@.len(),
            end == lb@.len(),
            lb@ == lit.spec_bytes(),
            forall|k: int| 0 <= k < i ==> name@[k] == lb@[k],
        decreases end - i,
    {
        if name[i] != lb[i] {
            assert(name@.take(end as int)[i as int] != lit.spec_bytes()[i as int]);
            return false;
        }
        i = i + 1;
    }
    assert(name@.take(end as int) =~= lit.spec_bytes());
    true
}

/// Index of the end of `name` once trailing ASCII whitespace is dropped.
fn trim_end(name: &[u8]) -> (end: usize)
    ensures
        end <= name@.len(),
        name@.take(end as int) == trim_name(name@),
{
    let mut end: usize = name.len();
    proof {
        assert(name@.take(name@.len() as int) =~= name@);
    }
    loop
        invariant
            end <= name@.len(),
            trimmed_len(name@) == trimmed_len(name@.take(end as int)),
        ensures
            end <= name@.len(),
            trimmed_len(name@) == trimmed_len(name@.take(end as int)),
            end == 0 || !is_ascii_ws(name@[end - 1]),
        decreases end,
    {
        if end == 0 {
            break;
        }
        let b = name[end - 1];
        if !(b == 32 || b == 9 || b == 10 || b == 12 || b == 13) {
            break;
        }
        proof {
            assert(name@.take(end as int).last() == name@[end - 1]);
            assert(name@.take(end as int).drop_last() =~= name@.take(end - 1));
        }
        end = end - 1;
    }
    proof {
        let t = name@.take(end as int);
        if end > 0 {
            assert(t.last() == name@[end - 1]);
        }
        assert(trimmed_len(t) == t.len());
        assert(trim_name(name@) =~= t);
    }
    end
}

fn lookup_1(name: &[u8], end: usize) -> (r: Option<Tag>)
    requires
        end <= name@.len(),
    ensures
        r == spec_lookup_1(name@.take(end as int)),
{
    if name_is(name, end, "action") {
        Some(Tag::Action)
    } else if name_is(name, end, "base") {
        Some(Tag::Base)
    } else if name_is(name, end, "case") {
        Some(Tag::Case)
    } else if name_is(name, end, "comment") {
        Some(Tag::Comment)
    } else if name_is(name, end, "contributor") {
        Some(Tag::Contributor)
    } else if name_is(name, end, "dbname") {
        Some(Tag::DbName)
    } else if name_is(name, end, "discussionthreadinginfo") {
        Some(Tag::DiscussionThreadingInfo)
    } else if name_is(name, end, "filename") {
        Some(Tag::Filename)
    } else {
        lookup_2(name, end)
    }
}

fn lookup_2(name: &[u8], end: usize) -> (r: Option<Tag>)
    requires
        end <= name@.len(),
    ensures
        r == spec_lookup_2(name@.take(end as int)),
{
    if name_is(name, end, "format") {
        Some(Tag::Format)
    } else if name_is(name, end, "generator") {
        Some(Tag::Generator)
    } else if name_is(name, end, "id") {
        Some(Tag::Id)
    } else if name_is(name, end, "ip") {
        Some(Tag::Ip)
    } else if name_is(name, end, "logitem") {
        Some(Tag::LogItem)
    } else if name_is(name, end, "logtitle") {
        Some(Tag::LogTitle)
    } else if name_is(name, end, "mediawiki") {
        Some(Tag::MediaWiki)
    } else if name_is(name, end, "minor") {
        Some(Tag::Minor)
    } else {
        lookup_3(name, end)
    }
}

fn lookup_3(name: &[u8], end: usize) -> (r: Option<Tag>)
    requires
        end <= name@.len(),
    ensures
        r == spec_lookup_3(name@.take(end as int)),
{
    if name_is(name, end, "model") {
        Some(Tag::Model)
    } else if name_is(name, end, "namespace") {
        Some(Tag::Namespace)
    } else if name_is(name, end, "namespaces") {
        Some(Tag::Namespaces)
    } else if name_is(name, end, "ns") {
        Some(Tag::Ns)
    } else if name_is(name, end, "origin") {
        Some(Tag::Origin)
    } else if name_is(name, end, "page") {
        Some(Tag::Page)
    } else if name_is(name, end, "params") {
        Some(Tag::Params)
    } else if name_is(name, end, "parentid") {
        Some(Tag::ParentId)
    } else {
        lookup_4(name, end)
    }
}

fn lookup_4(name: &[u8], end: usize) -> (r: Option<Tag>)
    requires
        end <= name@.len(),
    ensures
        r == spec_lookup_4(name@.take(end as int)),
{
    if name_is(name, end, "redirect") {
        Some(Tag::Redirect)
    } else if name_is(name, end, "restrictions") {
        Some(Tag::Restrictions)
    } else if name_is(name, end, "revision") {
        Some(Tag::Revision)
    } else if name_is(name, end, "sha1") {
        Some(Tag::Sha1)
    } else if name_is(name, end, "siteinfo") {
        Some(Tag::SiteInfo)
    } else if name_is(name, end, "sitename") {
        Some(Tag::SiteName)
    } else if name_is(name, end, "size") {
        Some(Tag::Size)
    } else if name_is(name, end, "src") {
        Some(Tag::Src)
    } else {
        lookup_5(name, end)
    }
}

fn lookup_5(name: &[u8], end: usize) -> (r: Option<Tag>)
    requires
        end <= name@.len(),
    ensures
        r == spec_lookup_5(name@.take(end as int)),
{
    if name_is(name, end, "text") {
        Some(Tag::Text)
    } else if name_is(name, end, "ThreadAncestor") {
        Some(Tag::ThreadAncestor)
    } else if name_is(name, end, "ThreadAuthor") {
        Some(Tag::ThreadAuthor)
    } else if name_is(name, end, "ThreadEditStatus") {
        Some(Tag::ThreadEditStatus)
    } else if name_is(name, end, "ThreadID") {
        Some(Tag::ThreadId)
    } else if name_is(name, end, "ThreadPage") {
        Some(Tag::ThreadPage)
    } else if name_is(name, end, "ThreadParent") {
        Some(Tag::ThreadParent)
    } else if name_is(name, end, "ThreadSubject") {
        Some(Tag::ThreadSubject)
    } else {
        lookup_6(name, end)
    }
}

fn lookup_6(name: &[u8], end: usize) -> (r: Option<Tag>)
    requires
        end <= name@.len(),
    ensures
        r == spec_lookup_6(name@.take(end as int)),
{
    if name_is(name, end, "ThreadType") {
        Some(Tag::ThreadType)
    } else if name_is(name, end, "timestamp") {
        Some(Tag::Timestamp)
    } else if name_is(name, end, "title") {
        Some(Tag::Title)
    } else if name_is(name, end, "type") {
        Some(Tag::Type)
    } else if name_is(name, end, "upload") {
        Some(Tag::Upload)
    } else if name_is(name, end, "username") {
        Some(Tag::Username)
    } else {
        None
    }
}

/// True when `b` spells exactly `lit`.
pub(crate) fn bytes_is(b: &[u8], lit: &str) -> (r: bool)
    ensures
        r == (b@ == lit.spec_bytes()),
{
    proof {
        assert(b@.take(b@.len() as int) =~= b@);
    }
    name_is(b, b.len(), lit)
}

impl Tag {
    /// Canonical string form of the tag, the exact bytes the grammar uses.
    pub fn as_str(&self) -> (r: &'static str)
        ensures
            r.spec_bytes() == spec_name(*self),
    {
        match self {
            Tag::Action => "action",
            Tag::Base => "base",
            Tag::Case => "case",
            Tag::Comment => "comment",
            Tag::Contributor => "contributor",
            Tag::DbName => "dbname",
            Tag::DiscussionThreadingInfo => "discussionthreadinginfo",
            Tag::Filename => "filename",
            Tag::Format => "format",
            Tag::Generator => "generator",
            Tag::Id => "id",
            Tag::Ip => "ip",
            Tag::LogItem => "logitem",
            Tag::LogTitle => "logtitle",
            Tag::MediaWiki => "mediawiki",
            Tag::Minor => "minor",
            Tag::Model => "model",
            Tag::Namespace => "namespace",
            Tag::Namespaces => "namespaces",
            Tag::Ns => "ns",
            Tag::Origin => "origin",
            Tag::Page => "page",
            Tag::Params => "params",
            Tag::ParentId => "parentid",
            Tag::Redirect => "redirect",
            Tag::Restrictions => "restrictions",
            Tag::Revision => "revision",
            Tag::Sha1 => "sha1",
            Tag::SiteInfo => "siteinfo",
            Tag::SiteName => "sitename",
            Tag::Size => "size",
            Tag::Src => "src",
            Tag::Text => "text",
            Tag::ThreadAncestor => "ThreadAncestor",
            Tag::ThreadAuthor => "ThreadAuthor",
            Tag::ThreadEditStatus => "ThreadEditStatus",
            Tag::ThreadId => "ThreadID",
            Tag::ThreadPage => "ThreadPage",
            Tag::ThreadParent => "ThreadParent",
            Tag::ThreadSubject => "ThreadSubject",
            Tag::ThreadType => "ThreadType",
            Tag::Timestamp => "timestamp",
            Tag::Title => "title",
            Tag::Type => "type",
            Tag::Upload => "upload",
            Tag::Username => "username",
        }
    }

    /// Resolves a raw element name (trailing ASCII whitespace ignored) to its
    /// typed identifier, or `None` for a name outside the closed registry.
    pub fn resolve(name: &[u8]) -> (r: Option<Tag>)
        ensures
            r == spec_resolve(name@),
    {
        proof {
            reveal(spec_resolve);
        }
        let end = trim_end(name);
        lookup_1(name, end)
    }
}

} // verus!
