//! Translation of the change stream of a store of test runs into domain
//! events, and the planning of their publication on a message bus.
//!
//! A record of the stream carries the item before and after a change as maps
//! of [`attribute::AttributeValue`]. [`codec::decode`] reads a
//! [`model::TestRun`] from such a map, [`classify::classify`] turns a record
//! into a [`model::Event`], [`publish::batches`] cuts the entries for the bus
//! into requests of bounded size, and [`publish::aggregate`] gives the verdict
//! over what the bus returned. [`http`] holds the decisions of the HTTP
//! handlers that read and store single test runs.
//!
//! JSON text is read and written by `serde_json`; what a document must look
//! like to stand for a value of the domain is laid down in [`schema`].

pub mod attribute;
pub mod classify;
pub mod codec;
pub mod http;
pub mod json;
pub mod model;
pub mod publish;
pub mod schema;
pub mod string_map;
