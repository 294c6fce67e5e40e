//! A desktop RSS widget's core: feed parsing and normalization, settings,
//! refresh decisions and the rules of its stored data.
pub mod text;
pub mod number;
pub mod models;
pub mod error;
pub mod urls;
pub mod digest;
pub mod markup;
pub mod html;
pub mod feed;
pub mod fetch;
pub mod schedule;
pub mod settings;
pub mod refresh;
pub mod store;
pub mod commands;
pub mod tray;
pub mod queries;
