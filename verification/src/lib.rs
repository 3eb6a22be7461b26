//! Query construction, hit labelling and request sequencing for a full-text
//! search reader, with the field corrector that prepares documents for it.
//!
//! The library decides; it does no waiting and no index work. A caller
//! holds the index, the limiter of concurrent requests and the worker
//! threads, reports what they did as events, and carries out the actions
//! that the library answers with.
//!
//! - `text`: decimal numerals, splitting at white space, lower-casing.
//! - `field_map`: the ordered map from field names that documents are.
//! - `document`: documents as they are indexed, and the field corrector.
//! - `schema`: field names and kinds by field id.
//! - `stop_words`: the stop words, as a set and as a list.
//! - `payload`: what a search request holds.
//! - `query`: the query tree, and what a boolean query matches.
//! - `builder`: from a request's mode and query source to a query tree.
//! - `results`: ranking, and raw matches turned into labelled hits.
//! - `handler`: a reader's settings and the steps of its requests.
//! - `error`: why a request fails.

pub mod builder;
pub mod document;
pub mod error;
pub mod field_map;
pub mod handler;
pub mod payload;
pub mod query;
pub mod results;
pub mod schema;
pub mod stop_words;
pub mod text;
