//! Lookup of Chinese administrative division codes.
//!
//! A division code is a six-character digit string segmented as
//! `[province:2][prefecture:2][county:2]`. The crate holds an immutable
//! registry mapping `source -> revision -> code -> name` and offers
//! navigation between the three administrative levels.

pub mod codes;
pub mod division;
pub mod model;
pub mod queries;
pub mod store;

pub use codes::{is_county, is_prefecture, is_province};
pub use division::Division;
pub use model::{DivisionModel, LookupError, Source};
pub use queries::{get, prefectures, provinces, revisions};
pub use store::{Entry, RevisionTable, data};
