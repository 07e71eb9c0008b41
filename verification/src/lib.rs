//! VaporDose: managing the SmokeAPI DLC proxy for Steam games on Linux.
//!
//! The library holds the decisions the application makes: how the
//! Proton launch options of an app are added to and removed from Steam's
//! `localconfig.vdf`, how installed apps are classified, how the store cache
//! answers, what deploying the proxy needs for each binary, and which
//! SmokeAPI release files to take. Reading and writing files, talking to the
//! network and drawing the window are left to the application around it.
pub mod text;
pub mod pattern;
pub mod launch_options;
pub mod quoted_field;
pub mod vdf;
mod vdf_laws;
pub mod cache;
pub mod scanner;
pub mod injector;
pub mod json;
pub mod archive;
pub mod smokeapi;
pub mod steam_api;
pub mod updater;
pub mod ui;
pub mod config;
