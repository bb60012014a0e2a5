//! A verified weather-report library: it builds the provider query URL,
//! decodes a JSON response body into a typed report, and formats the report
//! as styled, human-readable text. Console and network I/O live outside.

mod client;
mod errors;
mod numbers;
mod render;
mod report;
mod session;

pub use client::JsonModel;
pub use client::WeatherFields;
pub use client::assemble_report;
pub use client::body_shape_ok;
pub use client::decode_post;
pub use client::decode_report;
pub use client::description_of;
pub use client::fits_tenths;
pub use client::json_model_of;
pub use client::json_shape;
pub use client::member_array;
pub use client::member_number;
pub use client::member_text;
pub use client::nested_number;
pub use client::obj_member;
pub use client::request_url;
pub use client::shape_fields;
pub use client::spec_request_url;
pub use errors::WeatherError;
pub use errors::spec_message;
pub use numbers::format_tenths;
pub use numbers::lemma_format_parse_round_trip;
pub use numbers::parse_tenths;
pub use numbers::spec_format_tenths;
pub use numbers::tenths_of;
pub use render::Style;
pub use render::TempBucket;
pub use render::bucket;
pub use render::bucket_of;
pub use render::icon_text;
pub use render::in_vocabulary;
pub use render::lemma_bucket_total;
pub use render::lemma_unknown_style_neutral;
pub use render::render;
pub use render::spec_icon;
pub use render::spec_render;
pub use render::spec_style;
pub use render::style_of;
pub use report::Condition;
pub use report::Metrics;
pub use report::WeatherQuery;
pub use report::WeatherReport;
pub use report::Wind;
pub use session::LoopState;
pub use session::is_yes;
pub use session::next_state;
