pub mod background;
pub mod config;
pub mod decimal;
pub mod errors;
pub mod json;
pub mod json_tools;
pub mod models;
pub mod nasa_client;
pub mod osdr_repo;
pub mod position;
pub mod recency;
pub mod sample_cache;
pub mod space_cache_service;
pub mod text;
pub mod time;
pub mod trend;
