//! Audio tray: the verified core of a Windows tray application that switches audio endpoints,
//! draws a volume flyout, drives a taskbar strip and follows one music player.
//!
//! Everything here is a function of plain values. Reading devices, windows and files, and acting
//! on the decisions made here, is the business of the program around this library.
pub mod audio;
pub mod cli;
pub mod config;
pub mod flyout;
pub mod icons;
pub mod layered;
pub mod listing;
pub mod music;
pub mod osd;
pub mod taskbar;
pub mod text;
pub mod tray;
pub mod update;
pub mod win;
