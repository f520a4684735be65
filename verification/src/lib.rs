//! Verified core of the gallery metadata handling: image type recognition,
//! page type summaries and the rows written to the database.
use vstd::prelude::*;

pub mod text;
pub mod image_type;
pub mod api_response;
pub mod error;

verus! {

} // verus!
