//! Installing APK files on a Chery head unit over adb, and granting them every permission.

pub mod apk;
pub mod axml;
pub mod command_laws;
pub mod commands;
pub mod component_laws;
pub mod components;
pub mod continuation;
pub mod decode;
pub mod device_laws;
pub mod devices;
pub mod error;
pub mod grants;
pub mod laws;
pub mod listing_laws;
pub mod manifest_laws;
pub mod outcome_laws;
pub mod packages;
pub mod replay;
pub mod reply_laws;
pub mod session;
pub mod text;
pub mod text_laws;
pub mod tools;
pub mod vehicle;
pub mod worklog;
