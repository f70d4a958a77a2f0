pub mod cli;
pub mod config;
pub mod job;
pub mod locator_laws;
pub mod params;
pub mod profile;
pub mod run;
pub mod tail;
pub mod text;
pub mod urls;
