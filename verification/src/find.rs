//! The single-page locator: anchor a substring search on the exact escaped
//! title element, scan backward for the nearest page-opening tag, and decode
//! from there, re-validating the decoded title.
//!
//! This is best-effort by design: if the page-opening byte sequence found by
//! the backward scan is not actually a tag boundary (it can occur verbatim
//! inside a revision's text body), the decode from that offset either fails
//! structurally or yields an unrelated page that the title check rejects.
//! That approximation is deliberate and not papered over.

use vstd::prelude::*;
use vstd::slice::slice_subrange;
use vstd::string::StrSliceExecFns;
use vstd::string::StringSliceAdditionalSpecFns;
use vstd::utf8::encode_utf8;

use crate::consumer::{Outcome, PageConsumer};
use crate::decode::{parse_post, parse_stream};
use crate::error::{is_fault, Error, GFault};
use crate::grammar::sp_dump;
use crate::lex::{lex_of, tokenize};
use crate::records::{GPage, Page};
use crate::token::TokenStream;

verus! {

/// `needle` occurs in `hay` at offset `i`.
pub open spec fn matches_at(hay: Seq<u8>, needle: Seq<u8>, i: int) -> bool {
    &&& 0 <= i
    &&& i + needle.len() <= hay.len()
    &&& hay.subrange(i, i + needle.len()) == needle
}

/// First occurrence of `needle` in `hay` at or after `i`.
pub open spec fn first_match_from(hay: Seq<u8>, needle: Seq<u8>, i: int) -> Option<int>
    decreases hay.len() - needle.len() + 1 - i,
{
    if i < 0 || i + needle.len() > hay.len() {
        None
    } else if matches_at(hay, needle, i) {
        Some(i)
    } else {
        first_match_from(hay, needle, i + 1)
    }
}

/// Last occurrence of `needle` in `hay` at or before `i`.
pub open spec fn last_match_from(hay: Seq<u8>, needle: Seq<u8>, i: int) -> Option<int>
    decreases i + 1,
{
    if i < 0 {
        None
    } else if i + needle.len() <= hay.len() && matches_at(hay, needle, i) {
        Some(i)
    } else {
        last_match_from(hay, needle, i - 1)
    }
}

proof fn lemma_first_match_some(hay: Seq<u8>, needle: Seq<u8>, k: int, i: int)
    requires
        0 <= k <= i,
        matches_at(hay, needle, i),
        forall|j: int| k <= j < i ==> !matches_at(hay, needle, j),
    ensures
        first_match_from(hay, needle, k) == Some(i),
    decreases i - k,
{
    if k < i {
        lemma_first_match_some(hay, needle, k + 1, i);
    }
}

proof fn lemma_first_match_none(hay: Seq<u8>, needle: Seq<u8>, k: int)
    requires
        k >= 0,
        forall|j: int| j >= k ==> !matches_at(hay, needle, j),
    ensures
        first_match_from(hay, needle, k) is None,
    decreases hay.len() - needle.len() + 1 - k,
{
    if k + needle.len() <= hay.len() {
        lemma_first_match_none(hay, needle, k + 1);
    }
}

proof fn lemma_last_match_some(hay: Seq<u8>, needle: Seq<u8>, k: int, i: int)
    requires
        0 <= i <= k,
        matches_at(hay, needle, i),
        forall|j: int| i < j <= k ==> !matches_at(hay, needle, j),
    ensures
        last_match_from(hay, needle, k) == Some(i),
    decreases k - i,
{
    if i < k {
        lemma_last_match_some(hay, needle, k - 1, i);
    }
}

proof fn lemma_last_match_none(hay: Seq<u8>, needle: Seq<u8>, k: int)
    requires
        forall|j: int| j <= k ==> !matches_at(hay, needle, j),
    ensures
        last_match_from(hay, needle, k) is None,
    decreases k + 1,
{
    if k >= 0 {
        lemma_last_match_none(hay, needle, k - 1);
    }
}

/// Relies on memchr's `memmem::find`: the offset of the first occurrence of
/// `needle` in `hay`, if any.
#[verifier::external_body]
fn mem_find(hay: &[u8], needle: &[u8]) -> (r: Option<usize>)
    ensures
        match r {
            Some(i) => matches_at(hay@, needle@, i as int) && forall|j: int|
                0 <= j < i ==> !matches_at(hay@, needle@, j),
            None => forall|j: int| !matches_at(hay@, needle@, j),
        },
{
    memchr::memmem::find(hay, needle)
}

/// Relies on memchr's `memmem::rfind`: the offset of the last occurrence of
/// `needle` within the first `bound` bytes of `hay`, if any.
#[verifier::external_body]
fn mem_rfind_within(hay: &[u8], bound: usize, needle: &[u8]) -> (r: Option<usize>)
    requires
        bound <= hay@.len(),
    ensures
        match r {
            Some(i) => i as int + needle@.len() <= bound && matches_at(hay@, needle@, i as int)
                && forall|j: int|
                i < j && j + needle@.len() <= bound ==> !matches_at(hay@, needle@, j),
            None => forall|j: int| j + needle@.len() <= bound ==> !matches_at(hay@, needle@, j),
        },
{
    memchr::memmem::rfind(&hay[..bound], needle)
}

/// The minimal escaping the export format guarantees for text content:
/// ampersand, quote, less-than and greater-than become entities; every
/// other byte stands for itself.
pub open spec fn escape_byte(b: u8) -> Seq<u8> {
    if b == 38 {
        "&amp;".spec_bytes()
    } else if b == 34 {
        "&quot;".spec_bytes()
    } else if b == 60 {
        "&lt;".spec_bytes()
    } else if b == 62 {
        "&gt;".spec_bytes()
    } else {
        seq![b]
    }
}

pub open spec fn escaped(s: Seq<u8>) -> Seq<u8>
    decreases s.len(),
{
    if s.len() == 0 {
        Seq::empty()
    } else {
        escaped(s.drop_last()) + escape_byte(s.last())
    }
}

/// The exact byte literal a page title appears as: the escaped title inside
/// the title element's open and close tags.
pub open spec fn title_needle(title: Seq<u8>) -> Seq<u8> {
    "<title>".spec_bytes() + escaped(title) + "</title>".spec_bytes()
}

/// Appends all of `src` to `out`.
fn push_bytes(out: &mut Vec<u8>, src: &[u8])
    ensures
        final(out)@ == old(out)@ + src@,
{
    let mut i: usize = 0;
    while i < src.len()
        invariant
            i <= src@.len(),
            out@ == old(out)@ + src@.take(i as int),
        decreases src@.len() - i,
    {
        out.push(src[i]);
        proof {
            assert(old(out)@ + src@.take(i + 1) =~= (old(out)@ + src@.take(i as int)).push(
                src@[i as int],
            ));
        }
        i = i + 1;
    }
    proof {
        assert(src@.take(src@.len() as int) =~= src@);
    }
}

/// Builds the escaped form of `s`.
fn escape_bytes(s: &[u8]) -> (r: Vec<u8>)
    ensures
        r@ == escaped(s@),
{
    let mut out: Vec<u8> = Vec::new();
    let mut i: usize = 0;
    while i < s.len()
        invariant
            i <= s@.len(),
            out@ == escaped(s@.take(i as int)),
        decreases s@.len() - i,
    {
        let b = s[i];
        proof {
            assert(s@.take(i + 1).drop_last() =~= s@.take(i as int));
            assert(s@.take(i + 1).last() == s@[i as int]);
        }
        if b == 38 {
            push_bytes(&mut out, "&amp;".as_bytes());
        } else if b == 34 {
            push_bytes(&mut out, "&quot;".as_bytes());
        } else if b == 60 {
            push_bytes(&mut out, "&lt;".as_bytes());
        } else if b == 62 {
            push_bytes(&mut out, "&gt;".as_bytes());
        } else {
            out.push(b);
            proof {
                assert(escaped(s@.take(i as int)) + escape_byte(b) =~= escaped(
                    s@.take(i as int),
                ).push(b));
            }
        }
        i = i + 1;
    }
    proof {
        assert(s@.take(s@.len() as int) =~= s@);
    }
    out
}

/// What locating a title in a raw dump yields: nothing, when the anchored
/// search or the backward scan finds no spot, or whatever decoding from the
/// found spot yields for its first page, re-validated against the title.
pub open spec fn spec_find_page(title: Seq<char>, xml: Seq<u8>) -> Result<Option<GPage>, GFault> {
    let needle = title_needle(encode_utf8(title));
    match first_match_from(xml, needle, 0) {
        None => Ok(None),
        Some(ti) => match last_match_from(xml, "<page>".spec_bytes(), ti - "<page>".spec_bytes().len()) {
            None => Ok(None),
            Some(pi) => {
                let m = sp_dump(lex_of(xml.skip(pi)), false);
                if m.pages.len() >= 1 {
                    if m.pages[0].title == title {
                        Ok(Some(m.pages[0]))
                    } else {
                        Ok(None)
                    }
                } else {
                    match m.tail {
                        Some(f) => Err(f),
                        None => Ok(None),
                    }
                }
            },
        },
    }
}

/// A consumer that keeps the first page it is handed and stops the run at
/// once.
struct FirstPage {
    first: Option<Page>,
    history: Ghost<Seq<(GPage, Outcome<()>)>>,
}

impl FirstPage {
    /// Every answer is `Stop`, and `first` holds exactly the last page
    /// handed over, if any.
    #[verifier::type_invariant]
    closed spec fn wf(&self) -> bool {
        &&& (forall|q: int|
            0 <= q < self.history@.len() ==> (#[trigger] self.history@[q]).1 is Stop)
        &&& match self.first {
            Some(p) => self.history@.len() > 0 && self.history@.last().0 == p@,
            None => self.history@.len() == 0,
        }
    }
}

impl PageConsumer<()> for FirstPage {
    closed spec fn log(&self) -> Seq<(GPage, Outcome<()>)> {
        self.history@
    }

    fn consume(&mut self, page: Page) -> (r: Outcome<()>) {
        proof {
            use_type_invariant(&*self);
        }
        let ghost gp = page@;
        let ghost newhist = self.history@.push((gp, Outcome::<()>::Stop));
        *self = FirstPage { first: Some(page), history: Ghost(newhist) };
        proof {
            assert(self.history@.last() == (gp, Outcome::<()>::Stop));
        }
        Outcome::Stop
    }
}

/// Search for the page carrying exactly the given title in an in-memory
/// dump. The title is escaped the same way the export format escapes it,
/// anchored inside a title element, and the decode starts at the nearest
/// preceding page-opening tag, with header skipping disabled.
pub fn find_page(title_to_find: &str, xml: &[u8]) -> (r: Result<Option<Page>, Error<()>>)
    ensures
        match r {
            Ok(op) => spec_find_page(title_to_find@, xml@) == Ok::<Option<GPage>, GFault>(
                match op {
                    Some(p) => Some(p@),
                    None => None,
                },
            ),
            Err(e) => spec_find_page(title_to_find@, xml@) matches Err(f) && is_fault(e, f),
        },
{
    let title_bytes = title_to_find.as_bytes();
    let mut needle: Vec<u8> = Vec::new();
    push_bytes(&mut needle, "<title>".as_bytes());
    let esc = escape_bytes(title_bytes);
    push_bytes(&mut needle, esc.as_slice());
    push_bytes(&mut needle, "</title>".as_bytes());
    proof {
        assert(needle@ =~= title_needle(encode_utf8(title_to_find@)));
    }
    let ti = match mem_find(xml, needle.as_slice()) {
        Some(i) => i,
        None => {
            proof {
                lemma_first_match_none(xml@, needle@, 0);
            }
            return Ok(None);
        },
    };
    proof {
        lemma_first_match_some(xml@, needle@, 0, ti as int);
    }
    let open_tag = "<page>".as_bytes();
    let pi = match mem_rfind_within(xml, ti, open_tag) {
        Some(i) => i,
        None => {
            proof {
                lemma_last_match_none(xml@, open_tag@, ti as int - open_tag@.len());
            }
            return Ok(None);
        },
    };
    proof {
        lemma_last_match_some(
            xml@,
            open_tag@,
            ti as int - open_tag@.len(),
            pi as int,
        );
    }
    let tail = slice_subrange(xml, pi, xml.len());
    proof {
        assert(tail@ =~= xml@.skip(pi as int));
    }
    let ts: TokenStream = tokenize(tail);
    let mut finder = FirstPage { first: None, history: Ghost(Seq::empty()) };
    let ghost m = sp_dump(lex_of(xml@.skip(pi as int)), false);
    let res = parse_stream(&ts, &mut finder, false);
    proof {
        use_type_invariant(&finder);
        let l0e: Seq<(GPage, Outcome<()>)> = Seq::empty();
        let l = finder.log();
        if l.len() > 1 {
            assert(l[l0e.len() as int + 0].1 is Continue);
            assert(l[l0e.len() as int + 0].1 is Stop);
        }
        if l.len() == 1 {
            assert(l[l0e.len() as int + 0].0 == m.pages[0]);
            assert(l.last() == l[l0e.len() as int + 0]);
        }
    }
    match res {
        Ok(_) => {
            match finder.first {
                Some(p) => {
                    let want = title_to_find.to_owned();
                    if p.title == want {
                        Ok(Some(p))
                    } else {
                        Ok(None)
                    }
                },
                None => Ok(None),
            }
        },
        Err(e) => {
            match Error::<()>::to_infallible(e) {
                Ok(b) => Err(b),
                Err(_x) => {
                    proof {
                        assert(false);
                    }
                    Err(Error::Format { position: 0 })
                },
            }
        },
    }
}

} // verus!
