//! Core of the navi workspace navigator.

pub mod abandon;
pub mod cli;
pub mod commands;
pub mod config;
pub mod directive;
pub mod doctor;
pub mod engine;
pub mod error;
pub mod heal;
pub mod init;
pub mod jj;
pub mod jj_output;
pub mod lane_land;
pub mod lane_ops;
pub mod lane_render;
pub mod lane_rules;
pub mod lane_store;
pub mod lane_sync;
pub mod order;
pub mod resolve;
pub mod revset;
pub mod state;
pub mod storage;
pub mod switch;
pub mod text;
pub mod timestamp;
pub mod types;
pub mod union_merge;
