//! Verified core of dloop: logcat parsing and filtering, Gradle project
//! inference, ADB output parsing, and the application state machine.
use vstd::prelude::*;

pub mod action;
pub mod adb;
pub mod app;
pub mod cli;
pub mod config;
pub mod device;
pub mod doctor;
pub mod event;
pub mod logcat;
pub mod pane;
pub mod project;
pub mod screen;
pub mod text;
pub mod tools;
pub mod ui;

verus! {

} // verus!
