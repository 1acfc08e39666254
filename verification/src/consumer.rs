//! The consumer boundary: the one inversion-of-control point the decoder
//! exposes. Each fully built page is handed over synchronously; the consumer
//! answers with an outcome that either continues, stops cleanly, or aborts
//! with its own opaque error.

use vstd::prelude::*;

use crate::records::{GPage, Page};

verus! {

/// A consumer's answer for one page.
#[derive(Debug, PartialEq, Eq)]
pub enum Outcome<E> {
    /// Keep decoding.
    Continue,
    /// Stop decoding now; the whole run still counts as a success.
    Stop,
    /// Abort with the consumer's own error, passed through verbatim.
    Fail(E),
}

/// A page consumer. Its ghost `log` records every page it was handed
/// together with the answer it gave, which is what the decoder's contract
/// speaks about: ownership of each page passes to the consumer at the
/// moment of the call, and the decoder retains nothing.
pub trait PageConsumer<E>: Sized {
    /// The default log is empty: an implementation written outside the
    /// verifier may leave it untouched, since nothing ghost is checked
    /// there; a verified implementation overrides it to meet `consume`'s
    /// contract.
    open spec fn log(&self) -> Seq<(GPage, Outcome<E>)> {
        Seq::empty()
    }

    fn consume(&mut self, page: Page) -> (r: Outcome<E>)
        ensures
            final(self).log() == old(self).log().push((page@, r)),
    ;
}

/// A consumer that keeps every page and never stops: decoding a whole dump
/// into memory.
pub struct PageCollector {
    pub pages: Vec<Page>,
}

impl PageCollector {
    pub fn new() -> (r: PageCollector)
        ensures
            r.pages@.len() == 0,
            r.log().len() == 0,
    {
        PageCollector { pages: Vec::new() }
    }
}

impl PageConsumer<()> for PageCollector {
    open spec fn log(&self) -> Seq<(GPage, Outcome<()>)> {
        self.pages@.map_values(|p: Page| (p@, Outcome::<()>::Continue))
    }

    fn consume(&mut self, page: Page) -> (r: Outcome<()>) {
        self.pages.push(page);
        proof {
            assert(self.log() =~= old(self).log().push((page@, Outcome::<()>::Continue)));
        }
        Outcome::Continue
    }
}

/// A consumer that keeps pages up to a fixed bound and then stops the run
/// cleanly: with a bound of `k`, a decode of a larger dump hands over
/// exactly `k` pages and still reports success. The bound is meant to stay
/// fixed for the whole run.
pub struct BoundedCollector {
    pub limit: usize,
    pub pages: Vec<Page>,
}

impl BoundedCollector {
    pub fn new(limit: usize) -> (r: BoundedCollector)
        ensures
            r.limit == limit,
            r.pages@.len() == 0,
            r.log().len() == 0,
    {
        BoundedCollector { limit, pages: Vec::new() }
    }
}

impl PageConsumer<()> for BoundedCollector {
    open spec fn log(&self) -> Seq<(GPage, Outcome<()>)> {
        Seq::new(
            self.pages@.len(),
            |q: int|
                (
                    self.pages@[q]@,
                    if q + 1 >= self.limit {
                        Outcome::<()>::Stop
                    } else {
                        Outcome::<()>::Continue
                    },
                ),
        )
    }

    fn consume(&mut self, page: Page) -> (r: Outcome<()>) {
        let ghost gp = page@;
        self.pages.push(page);
        let r: Outcome<()> = if self.pages.len() >= self.limit {
            Outcome::Stop
        } else {
            Outcome::Continue
        };
        proof {
            assert(self.log() =~= old(self).log().push((gp, r)));
        }
        r
    }
}

} // verus!
