//! The data-source capability: `search(keyword)` returns the full ordered
//! sequence of matching records, or fails as a whole. Partial success within
//! one source call is not representable.

use vstd::prelude::*;
use crate::model::{Book, book_namespaced, source_id_wf};

verus! {

/// Why a source produced no records for a request.
#[derive(Debug, Clone, Copy, PartialEq, Eq, Structural)]
pub enum SourceError {
    /// The backend could not be reached.
    Network,
    /// The backend answered with a non-success status.
    Status,
    /// The backend's response did not match the expected shape.
    Decode,
}

/// Relates a search outcome to its mathematical model.
pub open spec fn outcome_matches(
    r: Result<Vec<Book>, SourceError>,
    m: Result<Seq<Book>, SourceError>,
) -> bool {
    match (r, m) {
        (Ok(v), Ok(s)) => v@ == s,
        (Err(e), Err(f)) => e == f,
        _ => false,
    }
}

/// The capability a catalog backend implements. A registered instance is
/// shared read-only across requests; `search` neither mutates it nor keeps
/// state between calls.
pub trait DataSource: Sized {
    /// When the instance is a valid source.
    spec fn wf(&self) -> bool;

    /// The identifier that namespaces every id this source produces.
    spec fn source_id(&self) -> Seq<char>;

    /// The model of `search`: the full ordered record sequence, or one error.
    spec fn results(&self, keyword: Seq<char>) -> Result<Seq<Book>, SourceError>;

    /// A valid source's identifier is free of the separator, so its
    /// namespace is disjoint from every other valid source's.
    proof fn source_id_separator_free(&self)
        requires
            self.wf(),
        ensures
            source_id_wf(self.source_id()),
    ;

    /// Every record of a successful search is namespaced by this source.
    proof fn results_namespaced(&self, keyword: Seq<char>)
        requires
            self.wf(),
            keyword.len() > 0,
        ensures
            self.results(keyword) is Ok ==> forall|k: int|
                0 <= k < self.results(keyword)->Ok_0.len() ==> #[trigger] book_namespaced(
                    self.results(keyword)->Ok_0[k],
                    self.source_id(),
                ),
    ;

    /// Drives one search against the backend.
    fn search(&self, keyword: &str) -> (r: Result<Vec<Book>, SourceError>)
        requires
            self.wf(),
            keyword@.len() > 0,
        ensures
            outcome_matches(r, self.results(keyword@)),
    ;
}

/// An in-memory source holding a fixed response: either a record list or an
/// error. It is the reference implementation of the capability and the test
/// double for aggregation runs.
pub struct FixedSource {
    /// The identifier namespacing this source's records.
    pub name: String,
    /// The records every successful search returns, in order.
    pub books: Vec<Book>,
    /// When set, every search fails with this error.
    pub error: Option<SourceError>,
}

impl DataSource for FixedSource {
    open spec fn wf(&self) -> bool {
        &&& source_id_wf(self.name@)
        &&& forall|k: int|
            0 <= k < self.books@.len() ==> #[trigger] book_namespaced(self.books@[k], self.name@)
    }

    open spec fn source_id(&self) -> Seq<char> {
        self.name@
    }

    open spec fn results(&self, keyword: Seq<char>) -> Result<Seq<Book>, SourceError> {
        match self.error {
            Some(e) => Err(e),
            None => Ok(self.books@),
        }
    }

    proof fn source_id_separator_free(&self) {
    }

    proof fn results_namespaced(&self, keyword: Seq<char>) {
    }

    fn search(&self, keyword: &str) -> (r: Result<Vec<Book>, SourceError>) {
        match self.error {
            Some(e) => Err(e),
            None => {
                let mut out: Vec<Book> = Vec::new();
                let mut i: usize = 0;
                while i < self.books.len()
                    invariant
                        i <= self.books@.len(),
                        out@ == self.books@.subrange(0, i as int),
                    decreases self.books@.len() - i,
                {
                    out.push(self.books[i].duplicate());
                    proof {
                        assert(out@ =~= self.books@.subrange(0, i + 1 as int));
                    }
                    i += 1;
                }
                proof {
                    assert(out@ =~= self.books@);
                }
                Ok(out)
            },
        }
    }
}

} // verus!
