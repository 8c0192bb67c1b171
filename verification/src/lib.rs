//! Planning of queries over cubes.
//!
//! [`planner`] holds what the query planner itself consists of, and [`align`] gives the subquery
//! operators of a physical plan the input that their schema declares. The other modules hold
//! sample cubes, queries over them, and the rendering of the resulting SQL over inline tables, so
//! that the SQL can be run without the service that would answer its load requests.

pub mod align;
pub mod align_laws;
pub mod cases;
pub mod fixture;
pub mod fixture_laws;
pub mod json;
pub mod member_laws;
pub mod members;
pub mod meta;
pub mod plan;
pub mod planner;
pub mod request;
pub mod request_laws;
pub mod results;
pub mod role_cases;
pub mod select_laws;
pub mod source;
pub mod templates;
pub mod text;
