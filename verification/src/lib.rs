pub mod agent;
pub mod catalog;
pub mod clock;
pub mod commands;
pub mod config;
pub mod connection;
pub mod delivery;
pub mod error;
pub mod hook;
pub mod ids;
pub mod ingress;
pub mod multiview;
pub mod roster;
pub mod routes;
pub mod seats;
pub mod text;
