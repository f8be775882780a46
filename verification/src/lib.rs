//! Core of the sjnmusic daemon and its graphical remote control: playback
//! queue, playlists, fuzzy search, request routing, candidate ranking and the
//! view state of the client.

pub mod agreement;
pub mod audio;
pub mod auth;
pub mod client;
pub mod config;
pub mod dates;
pub mod downloads;
pub mod fmt;
pub mod gui;
pub mod gui_laws;
pub mod handler;
pub mod handler_laws;
pub mod json;
pub mod matching;
pub mod model;
pub mod order;
pub mod pages;
pub mod paths;
pub mod playback;
pub mod playlists;
pub mod protocol;
pub mod query_laws;
pub mod ranking;
pub mod ranking_laws;
pub mod real64;
pub mod replies;
pub mod routes;
pub mod scoring;
pub mod scoring_laws;
pub mod server;
pub mod server_laws;
pub mod shelf;
pub mod state;
pub mod store;
pub mod text;
pub mod text_laws;
pub mod thumbnails;
pub mod tray;
pub mod urltext;
pub mod view;
pub mod youtube;
pub mod ytdlp;
