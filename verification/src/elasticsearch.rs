//! The search-engine-backed source adapter, split at its transport edge:
//! this module builds the backend's native query document for a keyword and
//! maps the backend's decoded hits to canonical records. Sending the query
//! and decoding the wire response belong to the transport around the library.

use vstd::prelude::*;
use vstd::string::StrSliceExecFns;
use vstd::string::StringExecFns;
use crate::model::{Book, Library, book_namespaced, id_separator, namespaced_id, source_id_wf};
use crate::source::SourceError;

verus! {

/// Relies on `String::push`: appends exactly the given character.
pub assume_specification[ String::push ](s: &mut String, c: char)
    ensures
        final(s)@ == old(s)@ + seq![c],
;

/// The identifier namespacing every record this adapter produces.
pub open spec fn es_source_id() -> Seq<char> {
    "ES"@
}

/// The adapter's identifier is separator-free: its namespace is disjoint
/// from every other well-formed source's.
pub proof fn lemma_es_source_id_wf()
    ensures
        source_id_wf(es_source_id()),
{
    reveal_strlit("ES");
    assert forall|i: int| 0 <= i < es_source_id().len() implies es_source_id()[i] != ':' by {
        assert(es_source_id().len() == 2);
        assert(es_source_id()[0] == 'E');
        assert(es_source_id()[1] == 'S');
    }
}

/// The lower-case hexadecimal digit for a value below sixteen.
pub open spec fn hex_digit(n: int) -> char {
    if n == 0 {
        '0'
    } else if n == 1 {
        '1'
    } else if n == 2 {
        '2'
    } else if n == 3 {
        '3'
    } else if n == 4 {
        '4'
    } else if n == 5 {
        '5'
    } else if n == 6 {
        '6'
    } else if n == 7 {
        '7'
    } else if n == 8 {
        '8'
    } else if n == 9 {
        '9'
    } else if n == 10 {
        'a'
    } else if n == 11 {
        'b'
    } else if n == 12 {
        'c'
    } else if n == 13 {
        'd'
    } else if n == 14 {
        'e'
    } else {
        'f'
    }
}

fn hex_char(n: u8) -> (c: char)
    requires
        n < 16,
    ensures
        c == hex_digit(n as int),
{
    if n == 0 {
        '0'
    } else if n == 1 {
        '1'
    } else if n == 2 {
        '2'
    } else if n == 3 {
        '3'
    } else if n == 4 {
        '4'
    } else if n == 5 {
        '5'
    } else if n == 6 {
        '6'
    } else if n == 7 {
        '7'
    } else if n == 8 {
        '8'
    } else if n == 9 {
        '9'
    } else if n == 10 {
        'a'
    } else if n == 11 {
        'b'
    } else if n == 12 {
        'c'
    } else if n == 13 {
        'd'
    } else if n == 14 {
        'e'
    } else {
        'f'
    }
}

/// How one character is embedded in a JSON string literal.
pub open spec fn escaped_char(c: char) -> Seq<char> {
    if c == '"' {
        seq!['\\', '"']
    } else if c == '\\' {
        seq!['\\', '\\']
    } else if (c as u32) < 32 {
        seq!['\\', 'u', '0', '0', hex_digit(c as int / 16), hex_digit(c as int % 16)]
    } else {
        seq![c]
    }
}

/// How a whole string is embedded in a JSON string literal.
pub open spec fn json_escaped(s: Seq<char>) -> Seq<char>
    decreases s.len(),
{
    if s.len() == 0 {
        Seq::empty()
    } else {
        escaped_char(s[0]) + json_escaped(s.drop_first())
    }
}

proof fn lemma_json_escaped_push(s: Seq<char>, c: char)
    ensures
        json_escaped(s.push(c)) == json_escaped(s) + escaped_char(c),
    decreases s.len(),
{
    if s.len() == 0 {
        assert(s.push(c)[0] == c);
        assert(s.push(c).drop_first() =~= Seq::<char>::empty());
        assert(json_escaped(Seq::<char>::empty()) == Seq::<char>::empty());
        assert(json_escaped(s.push(c)) =~= json_escaped(s) + escaped_char(c));
    } else {
        assert(s.push(c)[0] == s[0]);
        assert(s.push(c).drop_first() =~= s.drop_first().push(c));
        lemma_json_escaped_push(s.drop_first(), c);
        assert(json_escaped(s.push(c)) =~= json_escaped(s) + escaped_char(c));
    }
}

/// Appends `s`, safely embedded for a JSON string literal, to `out`.
pub fn append_json_escaped(out: &mut String, s: &str)
    ensures
        final(out)@ == old(out)@ + json_escaped(s@),
{
    let n = s.unicode_len();
    let mut i: usize = 0;
    proof {
        assert(s@.take(0) =~= Seq::<char>::empty());
        assert(out@ =~= out@ + json_escaped(s@.take(0)));
    }
    while i < n
        invariant
            n == s@.len(),
            i <= n,
            out@ == old(out)@ + json_escaped(s@.take(i as int)),
        decreases n - i,
    {
        let c = s.get_char(i);
        if c == '"' {
            out.append("\\\"");
            proof {
                reveal_strlit("\\\"");
                assert(("\\\"")@ =~= escaped_char(c));
            }
        } else if c == '\\' {
            out.append("\\\\");
            proof {
                reveal_strlit("\\\\");
                assert(("\\\\")@ =~= escaped_char(c));
            }
        } else if (c as u32) < 32 {
            let code: u32 = c as u32;
            out.append("\\u00");
            out.push(hex_char((code / 16) as u8));
            out.push(hex_char((code % 16) as u8));
            proof {
                reveal_strlit("\\u00");
                assert(("\\u00")@ + seq![hex_digit(code as int / 16)] + seq![
                    hex_digit(code as int % 16),
                ] =~= escaped_char(c));
            }
        } else {
            out.push(c);
            proof {
                assert(seq![c] =~= escaped_char(c));
            }
        }
        proof {
            lemma_json_escaped_push(s@.take(i as int), c);
            assert(s@.take(i + 1 as int) =~= s@.take(i as int).push(c));
        }
        i += 1;
    }
    proof {
        assert(s@.take(n as int) =~= s@);
    }
}

/// A ranking preference: records of this library code are boosted, never
/// filtered. The boost is a fixed-point weight in tenths.
pub struct LibBoost {
    /// The preferred library code.
    pub lib_code: String,
    /// The boost weight, in tenths (twenty stands for 2.0).
    pub boost_tenths: u8,
}

/// The decimal rendering of a boost in tenths, one fractional digit.
pub open spec fn tenths_decimal(t: int) -> Seq<char> {
    seq![hex_digit(t / 10), '.', hex_digit(t % 10)]
}

/// Appends the decimal rendering of a boost in tenths.
fn append_tenths(out: &mut String, t: u8)
    requires
        t < 100,
    ensures
        final(out)@ == old(out)@ + tenths_decimal(t as int),
{
    out.push(hex_char(t / 10));
    out.push('.');
    out.push(hex_char(t % 10));
    proof {
        assert(old(out)@ + seq![hex_digit(t as int / 10)] + seq!['.'] + seq![
            hex_digit(t as int % 10),
        ] =~= old(out)@ + tenths_decimal(t as int));
    }
}

/// The fixed opening of the query document, up to the embedded keyword: a
/// boolean query whose must clause is a weighted multi-field match over
/// title, authors and publisher with the language-aware analyzer.
pub open spec fn query_prefix() -> Seq<char> {
    "{\"query\":{\"bool\":{\"must\":{\"multi_match\":{\"fields\":[\"title.nori^1.1\",\"authors.nori\",\"publisher.nori^0.8\"],\"query\":\""@
}

/// The fixed middle of the query document, between the keyword and the
/// should clauses.
pub open spec fn query_mid() -> Seq<char> {
    "\",\"analyzer\":\"nori-default\"}},\"should\":["@
}

/// The fixed closing of the query document.
pub open spec fn query_suffix() -> Seq<char> {
    "]}}}"@
}

/// One exact-term boost clause of the should list.
pub open spec fn term_clause(p: LibBoost) -> Seq<char> {
    "{\"term\":{\"libCode\":{\"value\":\""@ + json_escaped(p.lib_code@) + "\",\"boost\":"@
        + tenths_decimal(p.boost_tenths as int) + "}}}"@
}

/// The comma-separated should list, in preference order.
pub open spec fn should_list(prefs: Seq<LibBoost>) -> Seq<char>
    decreases prefs.len(),
{
    if prefs.len() == 0 {
        Seq::empty()
    } else if prefs.len() == 1 {
        term_clause(prefs[0])
    } else {
        should_list(prefs.drop_last()) + ","@ + term_clause(prefs.last())
    }
}

proof fn lemma_should_list_step(prefs: Seq<LibBoost>, i: int)
    requires
        0 <= i < prefs.len(),
    ensures
        should_list(prefs.take(i + 1)) == if i == 0 {
            term_clause(prefs[0])
        } else {
            should_list(prefs.take(i)) + ","@ + term_clause(prefs[i])
        },
{
    if i == 0 {
        assert(prefs.take(1).len() == 1);
        assert(prefs.take(1)[0] == prefs[0]);
    } else {
        assert(prefs.take(i + 1).drop_last() =~= prefs.take(i));
        assert(prefs.take(i + 1).last() == prefs[i]);
    }
}

/// The whole query document for a keyword, given the adapter's preferences.
pub open spec fn es_query(prefs: Seq<LibBoost>, keyword: Seq<char>) -> Seq<char> {
    query_prefix() + json_escaped(keyword) + query_mid() + should_list(prefs) + query_suffix()
}

/// One hit of the backend's response, decoded into plain values.
pub struct EsHit {
    /// The hit's source-local identifier.
    pub id: String,
    pub addition_symbol: String,
    pub authors: String,
    pub book_count: i32,
    pub isbn: String,
    pub kdc: String,
    /// The code of the library holding the item.
    pub lib_code: String,
    pub loan_count: i32,
    pub publication_year: String,
    pub publisher: String,
    pub reg_date: String,
    pub set_isbn: String,
    pub title: String,
    pub vol: String,
}

/// How a backend hit maps to a canonical record: the id is namespaced, the
/// structured fields are copied one for one, the library sub-record carries
/// only its namespaced code, and the link stays empty.
pub open spec fn mapped_book(b: Book, h: EsHit) -> bool {
    &&& b.id@ == es_source_id() + id_separator() + h.id@
    &&& b.title == h.title
    &&& b.authors == h.authors
    &&& b.publisher == h.publisher
    &&& (b.library matches Some(l) && {
        &&& l.id@ == es_source_id() + id_separator() + h.lib_code@
        &&& l.name@ == Seq::<char>::empty()
        &&& l.address@ == Seq::<char>::empty()
        &&& l.closed@ == Seq::<char>::empty()
        &&& l.homepage@ == Seq::<char>::empty()
        &&& l.operating_time@ == Seq::<char>::empty()
        &&& l.tel@ == Seq::<char>::empty()
        &&& l.location is None
    })
    &&& b.link@ == Seq::<char>::empty()
    &&& b.addition_symbol == h.addition_symbol
    &&& b.book_count == h.book_count
    &&& b.loan_count == h.loan_count
    &&& b.isbn == h.isbn
    &&& b.set_isbn == h.set_isbn
    &&& b.kdc == h.kdc
    &&& b.publication_year == h.publication_year
    &&& b.reg_date == h.reg_date
    &&& b.vol == h.vol
    &&& book_namespaced(b, es_source_id())
}

/// A whole successful response, hit for hit.
pub open spec fn mapped_hits(bs: Seq<Book>, hs: Seq<EsHit>) -> bool {
    &&& bs.len() == hs.len()
    &&& forall|i: int| 0 <= i < hs.len() ==> mapped_book(#[trigger] bs[i], hs[i])
}

/// A decodable response carries a non-empty local identifier in every hit;
/// one without is a response-shape mismatch.
pub open spec fn hits_decodable(hs: Seq<EsHit>) -> bool {
    forall|i: int| 0 <= i < hs.len() ==> (#[trigger] hs[i]).id@.len() > 0
}

/// The search-engine-backed adapter: its ranking preferences, applied to
/// every query it builds.
pub struct Elasticsearch {
    /// The preferred library codes with their boosts, in order.
    pub preferred: Vec<LibBoost>,
}

impl Elasticsearch {
    /// Every boost stays below ten (one hundred tenths), so its decimal
    /// rendering has one integer digit.
    pub open spec fn wf(&self) -> bool {
        forall|i: int|
            0 <= i < self.preferred@.len() ==> (#[trigger] self.preferred@[i]).boost_tenths < 100
    }

    /// The adapter with its designated preference list: two library codes,
    /// each boosted by 2.0.
    pub fn new() -> (r: Elasticsearch)
        ensures
            r.wf(),
            r.preferred@.len() == 2,
            r.preferred@[0].lib_code@ == "111101"@,
            r.preferred@[0].boost_tenths == 20,
            r.preferred@[1].lib_code@ == "111470"@,
            r.preferred@[1].boost_tenths == 20,
    {
        let mut preferred: Vec<LibBoost> = Vec::new();
        preferred.push(LibBoost { lib_code: "111101".to_owned(), boost_tenths: 20 });
        preferred.push(LibBoost { lib_code: "111470".to_owned(), boost_tenths: 20 });
        Elasticsearch { preferred }
    }

    /// Builds the backend's native query document for a keyword, embedding
    /// the keyword safely.
    pub fn build_query(&self, keyword: &str) -> (q: String)
        requires
            self.wf(),
        ensures
            q@ == es_query(self.preferred@, keyword@),
    {
        let mut out = String::new();
        out.append(
            "{\"query\":{\"bool\":{\"must\":{\"multi_match\":{\"fields\":[\"title.nori^1.1\",\"authors.nori\",\"publisher.nori^0.8\"],\"query\":\"",
        );
        append_json_escaped(&mut out, keyword);
        out.append("\",\"analyzer\":\"nori-default\"}},\"should\":[");
        proof {
            assert(self.preferred@.take(0) =~= Seq::<LibBoost>::empty());
            assert(out@ =~= query_prefix() + json_escaped(keyword@) + query_mid() + should_list(
                self.preferred@.take(0),
            ));
        }
        let mut i: usize = 0;
        while i < self.preferred.len()
            invariant
                self.wf(),
                i <= self.preferred@.len(),
                out@ == query_prefix() + json_escaped(keyword@) + query_mid() + should_list(
                    self.preferred@.take(i as int),
                ),
            decreases self.preferred@.len() - i,
        {
            if i > 0 {
                out.append(",");
            }
            out.append("{\"term\":{\"libCode\":{\"value\":\"");
            append_json_escaped(&mut out, self.preferred[i].lib_code.as_str());
            out.append("\",\"boost\":");
            append_tenths(&mut out, self.preferred[i].boost_tenths);
            out.append("}}}");
            proof {
                lemma_should_list_step(self.preferred@, i as int);
                assert(out@ =~= query_prefix() + json_escaped(keyword@) + query_mid()
                    + should_list(self.preferred@.take(i + 1 as int)));
            }
            i += 1;
        }
        out.append("]}}}");
        proof {
            assert(self.preferred@.take(self.preferred@.len() as int) =~= self.preferred@);
            assert(out@ =~= es_query(self.preferred@, keyword@));
        }
        out
    }

    /// Maps one decoded hit with a non-empty local identifier to a canonical
    /// record.
    pub fn to_book(hit: &EsHit) -> (b: Book)
        requires
            hit.id@.len() > 0,
        ensures
            mapped_book(b, *hit),
    {
        let id = namespaced_id("ES", hit.id.as_str());
        let lib_id = namespaced_id("ES", hit.lib_code.as_str());
        proof {
            assert(("ES")@ == es_source_id());
        }
        Book {
            id,
            title: hit.title.clone(),
            authors: hit.authors.clone(),
            publisher: hit.publisher.clone(),
            library: Some(
                Library {
                    id: lib_id,
                    name: String::new(),
                    address: String::new(),
                    closed: String::new(),
                    homepage: String::new(),
                    operating_time: String::new(),
                    tel: String::new(),
                    location: None,
                },
            ),
            link: String::new(),
            addition_symbol: hit.addition_symbol.clone(),
            book_count: hit.book_count,
            loan_count: hit.loan_count,
            isbn: hit.isbn.clone(),
            set_isbn: hit.set_isbn.clone(),
            kdc: hit.kdc.clone(),
            publication_year: hit.publication_year.clone(),
            reg_date: hit.reg_date.clone(),
            vol: hit.vol.clone(),
        }
    }

    /// Turns one backend call's outcome into the capability's outcome: every
    /// hit of a decodable response becomes one canonical record, in the
    /// response's order; a hit without a local identifier makes the whole
    /// response a shape mismatch; a failure is passed through unchanged.
    pub fn respond(outcome: Result<Vec<EsHit>, SourceError>) -> (r: Result<Vec<Book>, SourceError>)
        ensures
            match (r, outcome) {
                (Ok(bs), Ok(hs)) => hits_decodable(hs@) && mapped_hits(bs@, hs@),
                (Err(e), Ok(hs)) => !hits_decodable(hs@) && e == SourceError::Decode,
                (Err(e), Err(f)) => e == f,
                _ => false,
            },
    {
        match outcome {
            Err(e) => Err(e),
            Ok(hits) => {
                let mut books: Vec<Book> = Vec::new();
                let mut i: usize = 0;
                while i < hits.len()
                    invariant
                        outcome == Ok::<Vec<EsHit>, SourceError>(hits),
                        i <= hits@.len(),
                        books@.len() == i,
                        forall|k: int| 0 <= k < i ==> (#[trigger] hits@[k]).id@.len() > 0,
                        forall|k: int| 0 <= k < i ==> mapped_book(#[trigger] books@[k], hits@[k]),
                    decreases hits@.len() - i,
                {
                    if hits[i].id.as_str().is_empty() {
                        proof {
                            assert(hits@[i as int].id@.len() == 0);
                            assert(!hits_decodable(hits@));
                        }
                        return Err(SourceError::Decode);
                    }
                    books.push(Elasticsearch::to_book(&hits[i]));
                    i += 1;
                }
                Ok(books)
            },
        }
    }
}

} // verus!
