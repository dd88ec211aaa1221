//! Combat-log logic of a Lost Ark damage meter: status effect tracking on the
//! server clock, skill cast tracking, identity gauge runtime state, buff
//! classification and the small lookups that the meter's models carry.
pub mod text;
pub mod live;
pub mod models;
pub mod local;
pub mod local_api;
pub mod local_api_http;
pub mod order;
