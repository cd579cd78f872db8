//! Decision logic of a service that tracks Mythic+ keystone runs.

pub mod auth;
pub mod calendar;
pub mod config;
pub mod db;
pub mod handlers;
pub mod hash;
pub mod instant;
pub mod leaderboard;
pub mod models;
pub mod raiderio;
pub mod service;
pub mod startup;
pub mod tables;
pub mod text;
pub mod time_window;
