use lihee::aggregator::{Aggregator, StepEvent};
use lihee::model::{namespaced_id, Book};
use lihee::sink::{BookSink, PopOutcome, PushOutcome};
use lihee::source::{FixedSource, SourceError};

fn mk_book(source: &str, local: &str, title: &str) -> Book {
    Book {
        id: namespaced_id(source, local),
        title: title.to_owned(),
        authors: String::new(),
        publisher: String::new(),
        library: None,
        link: String::new(),
        addition_symbol: String::new(),
        book_count: 0,
        loan_count: 0,
        isbn: String::new(),
        set_isbn: String::new(),
        kdc: String::new(),
        publication_year: String::new(),
        reg_date: String::new(),
        vol: String::new(),
    }
}

fn ok_source(name: &str, books: Vec<Book>) -> FixedSource {
    FixedSource { name: name.to_owned(), books, error: None }
}

fn bad_source(name: &str, error: SourceError) -> FixedSource {
    FixedSource { name: name.to_owned(), books: Vec::new(), error: Some(error) }
}

fn pop_item(sink: &mut lihee::sink::BookSink) -> Book {
    match sink.pop() {
        PopOutcome::Item(b) => b,
        PopOutcome::Pending => panic!("expected an item, sink pending"),
        PopOutcome::End => panic!("expected an item, sink ended"),
    }
}

fn assert_ended(sink: &mut lihee::sink::BookSink) {
    match sink.pop() {
        PopOutcome::End => {}
        PopOutcome::Item(_) => panic!("expected end of stream, got an item"),
        PopOutcome::Pending => panic!("expected a closed stream, got pending"),
    }
}

#[test]
fn all_sources_fail_yields_empty_closed_stream() {
    let agg = Aggregator::new(vec![
        bad_source("S1", SourceError::Network),
        bad_source("S2", SourceError::Status),
    ]);
    let (mut run, mut sink) = agg.begin("anything", 4).unwrap();
    let ev = agg.drive(&mut run, "anything", &mut sink);
    assert_eq!(ev, StepEvent::Completed);
    assert!(run.is_finished());
    assert!(!run.was_cancelled());
    assert_ended(&mut sink);
}

#[test]
fn failing_source_is_isolated() {
    let b1 = mk_book("S2", "x", "first");
    let b2 = mk_book("S2", "y", "second");
    let agg = Aggregator::new(vec![
        bad_source("S1", SourceError::Decode),
        ok_source("S2", vec![b1.clone(), b2.clone()]),
    ]);
    let (mut run, mut sink) = agg.begin("k", 4).unwrap();
    assert_eq!(agg.drive(&mut run, "k", &mut sink), StepEvent::Completed);
    assert_eq!(pop_item(&mut sink), b1);
    assert_eq!(pop_item(&mut sink), b2);
    assert_ended(&mut sink);
}

#[test]
fn records_keep_registration_then_response_order() {
    let a1 = mk_book("S1", "a1", "s1 first");
    let a2 = mk_book("S1", "a2", "s1 second");
    let c1 = mk_book("S2", "c1", "s2 first");
    let c2 = mk_book("S2", "c2", "s2 second");
    let agg = Aggregator::new(vec![
        ok_source("S1", vec![a1.clone(), a2.clone()]),
        ok_source("S2", vec![c1.clone(), c2.clone()]),
    ]);
    let (mut run, mut sink) = agg.begin("k", 8).unwrap();
    assert_eq!(agg.drive(&mut run, "k", &mut sink), StepEvent::Completed);
    assert_eq!(pop_item(&mut sink), a1);
    assert_eq!(pop_item(&mut sink), a2);
    assert_eq!(pop_item(&mut sink), c1);
    assert_eq!(pop_item(&mut sink), c2);
    assert_ended(&mut sink);
}

#[test]
fn every_emitted_id_is_namespaced() {
    let b = mk_book("ES", "123", "t");
    assert_eq!(b.id, "ES::123");
    let agg = Aggregator::new(vec![ok_source("ES", vec![b])]);
    let (mut run, mut sink) = agg.begin("k", 4).unwrap();
    assert_eq!(agg.drive(&mut run, "k", &mut sink), StepEvent::Completed);
    let out = pop_item(&mut sink);
    assert!(out.id.starts_with("ES::"));
    assert!(out.id.len() > "ES::".len());
    assert_ended(&mut sink);
}

#[test]
fn slow_consumer_is_backpressured_within_capacity() {
    let b1 = mk_book("S1", "1", "one");
    let b2 = mk_book("S1", "2", "two");
    let b3 = mk_book("S1", "3", "three");
    let agg = Aggregator::new(vec![ok_source("S1", vec![b1.clone(), b2.clone(), b3.clone()])]);
    let (mut run, mut sink) = agg.begin("k", 1).unwrap();

    assert_eq!(agg.drive(&mut run, "k", &mut sink), StepEvent::WouldBlock);
    assert_eq!(sink.queued_len(), 1);
    // Another attempt suspends again: nothing is dropped, nothing buffered past capacity.
    assert_eq!(agg.step(&mut run, "k", &mut sink), StepEvent::WouldBlock);
    assert_eq!(sink.queued_len(), 1);

    assert_eq!(pop_item(&mut sink), b1);
    assert_eq!(agg.drive(&mut run, "k", &mut sink), StepEvent::WouldBlock);
    assert_eq!(sink.queued_len(), 1);
    assert_eq!(pop_item(&mut sink), b2);
    assert_eq!(agg.drive(&mut run, "k", &mut sink), StepEvent::Completed);
    assert_eq!(pop_item(&mut sink), b3);
    assert_ended(&mut sink);
}

#[test]
fn detached_consumer_cancels_the_run() {
    let b1 = mk_book("S1", "1", "one");
    let b2 = mk_book("S1", "2", "two");
    let b3 = mk_book("S1", "3", "three");
    let agg = Aggregator::new(vec![
        ok_source("S1", vec![b1, b2, b3]),
        ok_source("S2", vec![mk_book("S2", "never", "never delivered")]),
    ]);
    let (mut run, mut sink) = agg.begin("k", 2).unwrap();
    assert_eq!(agg.drive(&mut run, "k", &mut sink), StepEvent::WouldBlock);

    sink.detach();
    // The very next step detects the cancellation and stops the run.
    assert_eq!(agg.step(&mut run, "k", &mut sink), StepEvent::Cancelled);
    assert!(run.is_finished());
    assert!(run.was_cancelled());
    // The run stays stopped; no further source is driven.
    assert_eq!(agg.step(&mut run, "k", &mut sink), StepEvent::Idle);
}

#[test]
fn empty_keyword_is_rejected_before_aggregation() {
    let agg = Aggregator::new(vec![ok_source("S1", vec![mk_book("S1", "1", "t")])]);
    assert!(agg.begin("", 4).is_none());
    assert!(agg.begin("k", 4).is_some());
}

#[test]
fn push_after_detach_fails_gracefully() {
    let mut sink = BookSink::new(4);
    sink.detach();
    let out = sink.push(mk_book("S1", "1", "t"));
    assert_eq!(out, PushOutcome::Closed);
}

#[test]
fn sink_delivers_in_push_order() {
    let mut sink = BookSink::new(2);
    let b1 = mk_book("S1", "1", "one");
    let b2 = mk_book("S1", "2", "two");
    assert_eq!(sink.push(b1.clone()), PushOutcome::Accepted);
    assert_eq!(sink.push(b2.clone()), PushOutcome::Accepted);
    // At capacity: a further push is suspended, not dropped.
    assert_eq!(sink.push(mk_book("S1", "3", "three")), PushOutcome::Full);
    assert_eq!(pop_item(&mut sink), b1);
    assert_eq!(pop_item(&mut sink), b2);
    match sink.pop() {
        PopOutcome::Pending => {}
        _ => panic!("expected pending before close"),
    }
    sink.close();
    assert_ended(&mut sink);
}
