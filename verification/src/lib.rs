//! Verified core of the kenesparta.dev blog: the domain model, the use-case
//! decisions, the crawler documents and the request helpers of the server.

pub mod configuration;
pub mod dates;
pub mod dto;
pub mod dynamo;
pub mod errors;
pub mod ingest;
pub mod kernel;
pub mod listing;
pub mod model;
pub mod postgres;
pub mod post_index;
pub mod seo;
pub mod status;
pub mod telemetry;
pub mod text;
pub mod ui;
pub mod use_cases;
