//! Otip: the verified core of an AI-assisted video player that skips
//! flagged scenes.

pub mod domain;
pub mod text;
pub mod timestamp;
pub mod seqsearch;
pub mod reply;
pub mod segments;
pub mod json;
pub mod aireply;
pub mod clock;
pub mod timeline;
pub mod manager;
pub mod state;
pub mod shell;
pub mod error;
pub mod config;
pub mod scan;
pub mod grid;
pub mod gemini;
pub mod request;
pub mod player;
pub mod engine;
pub mod ui;
pub mod session;
pub mod views;
