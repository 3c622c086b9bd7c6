//! A terminal reader of feed subscriptions: the list of feeds and its
//! selection, the feed file's text, key decoding and the timing of ticks.
pub mod app;
pub mod event;
pub mod feed;
pub mod keys;
pub mod store;
