//! Canonical record model: the shared shapes every data source must produce.
//!
//! Every `Book` and `Library` id is namespaced as `"<SOURCE_ID>::<local_id>"`,
//! so identical local identifiers from different sources never collide.

use vstd::prelude::*;
use vstd::string::StringExecFns;

verus! {

/// A geographic coordinate in fixed-point micro-degrees.
#[derive(Debug, Clone, Copy, PartialEq, Eq, Structural)]
pub struct Location {
    pub lat_microdeg: i64,
    pub lon_microdeg: i64,
}

/// A holding institution. Fields a source cannot supply are empty strings;
/// `location` is absent when unknown.
#[derive(Debug, Clone, PartialEq)]
pub struct Library {
    pub id: String,
    pub name: String,
    pub address: String,
    pub closed: String,
    pub homepage: String,
    pub operating_time: String,
    pub tel: String,
    pub location: Option<Location>,
}

/// A normalized catalog entry. Fields a source cannot supply are empty
/// strings; counts carry the source's raw numeric value.
#[derive(Debug, Clone, PartialEq)]
pub struct Book {
    pub id: String,
    pub title: String,
    pub authors: String,
    pub publisher: String,
    pub library: Option<Library>,
    pub link: String,
    pub addition_symbol: String,
    pub book_count: i32,
    pub loan_count: i32,
    pub isbn: String,
    pub set_isbn: String,
    pub kdc: String,
    pub publication_year: String,
    pub reg_date: String,
    pub vol: String,
}

/// The id separator between a source identifier and a source-local identifier.
pub open spec fn id_separator() -> Seq<char> {
    "::"@
}

/// Holds when `id` is `source_id`, then `"::"`, then a non-empty local id.
pub open spec fn id_namespaced(id: Seq<char>, source_id: Seq<char>) -> bool {
    &&& id.len() >= source_id.len() + 3
    &&& id.subrange(0, source_id.len() as int) == source_id
    &&& id.subrange(source_id.len() as int, source_id.len() as int + 2) == id_separator()
}

/// Holds when the book's id is namespaced by `source_id`.
pub open spec fn book_namespaced(b: Book, source_id: Seq<char>) -> bool {
    id_namespaced(b.id@, source_id)
}

/// A well-formed source identifier carries no separator character, so the
/// namespace it opens is disjoint from every other well-formed source's.
pub open spec fn source_id_wf(source_id: Seq<char>) -> bool {
    forall|i: int| 0 <= i < source_id.len() ==> source_id[i] != ':'
}

/// Cross-namespace collision is structurally impossible: one id cannot be
/// namespaced by two different well-formed source identifiers.
pub proof fn lemma_namespace_disjoint(id: Seq<char>, sid1: Seq<char>, sid2: Seq<char>)
    requires
        source_id_wf(sid1),
        source_id_wf(sid2),
        id_namespaced(id, sid1),
        id_namespaced(id, sid2),
    ensures
        sid1 == sid2,
{
    reveal_strlit("::");
    let l1 = sid1.len() as int;
    let l2 = sid2.len() as int;
    assert(id_separator()[0] == ':');
    if l1 < l2 {
        assert(id.subrange(l1, l1 + 2)[0] == id[l1]);
        assert(id[l1] == ':');
        assert(id.subrange(0, l2)[l1] == id[l1]);
        assert(sid2[l1] == ':');
        assert(false);
    }
    if l2 < l1 {
        assert(id.subrange(l2, l2 + 2)[0] == id[l2]);
        assert(id[l2] == ':');
        assert(id.subrange(0, l1)[l2] == id[l2]);
        assert(sid1[l2] == ':');
        assert(false);
    }
    assert(sid1 =~= sid2);
}

/// Builds the namespaced id `"<source_id>::<local>"`.
pub fn namespaced_id(source_id: &str, local: &str) -> (r: String)
    ensures
        r@ == source_id@ + id_separator() + local@,
        local@.len() > 0 ==> id_namespaced(r@, source_id@),
{
    let mut s = source_id.to_owned();
    s.append("::");
    s.append(local);
    proof {
        reveal_strlit("::");
        assert(s@.subrange(0, source_id@.len() as int) =~= source_id@);
        assert(s@.subrange(source_id@.len() as int, source_id@.len() as int + 2) =~= id_separator());
    }
    s
}

impl Library {
    /// A field-for-field copy, equal to the original.
    pub fn duplicate(&self) -> (r: Library)
        ensures
            r == *self,
    {
        Library {
            id: self.id.clone(),
            name: self.name.clone(),
            address: self.address.clone(),
            closed: self.closed.clone(),
            homepage: self.homepage.clone(),
            operating_time: self.operating_time.clone(),
            tel: self.tel.clone(),
            location: self.location,
        }
    }
}

impl Book {
    /// A field-for-field copy, equal to the original.
    pub fn duplicate(&self) -> (r: Book)
        ensures
            r == *self,
    {
        Book {
            id: self.id.clone(),
            title: self.title.clone(),
            authors: self.authors.clone(),
            publisher: self.publisher.clone(),
            library: match &self.library {
                Some(l) => Some(l.duplicate()),
                None => None,
            },
            link: self.link.clone(),
            addition_symbol: self.addition_symbol.clone(),
            book_count: self.book_count,
            loan_count: self.loan_count,
            isbn: self.isbn.clone(),
            set_isbn: self.set_isbn.clone(),
            kdc: self.kdc.clone(),
            publication_year: self.publication_year.clone(),
            reg_date: self.reg_date.clone(),
            vol: self.vol.clone(),
        }
    }
}

} // verus!
