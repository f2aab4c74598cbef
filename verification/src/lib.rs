//! A query-fan-out search library: a keyword is dispatched to an ordered set
//! of catalog data sources, each source's response is normalized into the
//! canonical `Book` shape, and the records are streamed to the consumer
//! through a bounded, backpressured sink, in source-registration order.

pub mod aggregator;
pub mod elasticsearch;
pub mod model;
pub mod sink;
pub mod source;
