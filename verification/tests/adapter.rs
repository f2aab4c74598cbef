use lihee::aggregator::{Aggregator, StepEvent};
use lihee::elasticsearch::{Elasticsearch, EsHit};
use lihee::sink::PopOutcome;
use lihee::source::{DataSource, FixedSource, SourceError};

fn mk_hit(id: &str, title: &str, lib_code: &str) -> EsHit {
    EsHit {
        id: id.to_owned(),
        addition_symbol: String::new(),
        authors: "some author".to_owned(),
        book_count: 3,
        isbn: "9780000000000".to_owned(),
        kdc: "813".to_owned(),
        lib_code: lib_code.to_owned(),
        loan_count: 7,
        publication_year: "2001".to_owned(),
        publisher: "some press".to_owned(),
        reg_date: "2020-01-01".to_owned(),
        set_isbn: String::new(),
        title: title.to_owned(),
        vol: "1".to_owned(),
    }
}

#[test]
fn build_query_produces_the_designated_document() {
    let es = Elasticsearch::new();
    let q = es.build_query("harry potter");
    let expected = "{\"query\":{\"bool\":{\"must\":{\"multi_match\":{\"fields\":[\"title.nori^1.1\",\"authors.nori\",\"publisher.nori^0.8\"],\"query\":\"harry potter\",\"analyzer\":\"nori-default\"}},\"should\":[{\"term\":{\"libCode\":{\"value\":\"111101\",\"boost\":2.0}}},{\"term\":{\"libCode\":{\"value\":\"111470\",\"boost\":2.0}}}]}}}";
    assert_eq!(q, expected);
}

#[test]
fn build_query_escapes_the_keyword() {
    let es = Elasticsearch::new();
    let q = es.build_query("say \"hi\" \\ twice");
    assert!(q.contains("\"query\":\"say \\\"hi\\\" \\\\ twice\""));
    let q2 = es.build_query("line\nbreak");
    assert!(q2.contains("line\\u000abreak"));
}

#[test]
fn to_book_maps_every_field() {
    let hit = mk_hit("123", "the title", "4601");
    let b = Elasticsearch::to_book(&hit);
    assert_eq!(b.id, "ES::123");
    assert_eq!(b.title, "the title");
    assert_eq!(b.authors, "some author");
    assert_eq!(b.publisher, "some press");
    assert_eq!(b.link, "");
    assert_eq!(b.addition_symbol, "");
    assert_eq!(b.book_count, 3);
    assert_eq!(b.loan_count, 7);
    assert_eq!(b.isbn, "9780000000000");
    assert_eq!(b.set_isbn, "");
    assert_eq!(b.kdc, "813");
    assert_eq!(b.publication_year, "2001");
    assert_eq!(b.reg_date, "2020-01-01");
    assert_eq!(b.vol, "1");
    let lib = b.library.expect("library sub-record");
    assert_eq!(lib.id, "ES::4601");
    assert_eq!(lib.name, "");
    assert_eq!(lib.address, "");
    assert_eq!(lib.closed, "");
    assert_eq!(lib.homepage, "");
    assert_eq!(lib.operating_time, "");
    assert_eq!(lib.tel, "");
    assert!(lib.location.is_none());
}

#[test]
fn respond_passes_each_failure_through() {
    assert_eq!(
        Elasticsearch::respond(Err(SourceError::Network)),
        Err(SourceError::Network)
    );
    assert_eq!(
        Elasticsearch::respond(Err(SourceError::Status)),
        Err(SourceError::Status)
    );
    assert_eq!(
        Elasticsearch::respond(Err(SourceError::Decode)),
        Err(SourceError::Decode)
    );
}

#[test]
fn respond_rejects_a_hit_without_a_local_id() {
    let hits = vec![mk_hit("123", "fine", "111101"), mk_hit("", "no id", "111101")];
    assert_eq!(Elasticsearch::respond(Ok(hits)), Err(SourceError::Decode));
}

#[test]
fn fixed_source_error_variants() {
    for e in [SourceError::Network, SourceError::Status, SourceError::Decode] {
        let s = FixedSource {
            name: "S".to_owned(),
            books: Vec::new(),
            error: Some(e),
        };
        assert_eq!(s.search("k"), Err(e));
    }
}

#[test]
fn two_hits_stream_as_two_namespaced_books() {
    let hits = vec![mk_hit("123", "hp one", "111101"), mk_hit("456", "hp two", "111101")];
    let books = Elasticsearch::respond(Ok(hits)).expect("mapped hits");
    assert_eq!(books.len(), 2);
    assert_eq!(books[0].id, "ES::123");
    assert_eq!(books[1].id, "ES::456");

    let source = FixedSource { name: "ES".to_owned(), books, error: None };
    let agg = Aggregator::new(vec![source]);
    let (mut run, mut sink) = agg.begin("harry potter", 4).unwrap();
    assert_eq!(agg.drive(&mut run, "harry potter", &mut sink), StepEvent::Completed);
    match sink.pop() {
        PopOutcome::Item(b) => assert_eq!(b.id, "ES::123"),
        _ => panic!("expected the first book"),
    }
    match sink.pop() {
        PopOutcome::Item(b) => assert_eq!(b.id, "ES::456"),
        _ => panic!("expected the second book"),
    }
    match sink.pop() {
        PopOutcome::End => {}
        _ => panic!("expected a normally closed stream"),
    }
}

#[test]
fn zero_hits_stream_closes_normally() {
    let books = Elasticsearch::respond(Ok(Vec::new())).expect("mapped hits");
    assert!(books.is_empty());
    let source = FixedSource { name: "ES".to_owned(), books, error: None };
    let agg = Aggregator::new(vec![source]);
    let (mut run, mut sink) = agg.begin("xyz-no-match", 4).unwrap();
    assert_eq!(agg.drive(&mut run, "xyz-no-match", &mut sink), StepEvent::Completed);
    match sink.pop() {
        PopOutcome::End => {}
        _ => panic!("expected an empty, normally closed stream"),
    }
}
