pub mod api;
pub mod cli;
pub mod config;
pub mod db;
pub mod monitors;
pub mod probe;
pub mod scheduler;
pub mod text;
pub mod web;
