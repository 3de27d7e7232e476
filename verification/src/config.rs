//! The service's settings and their defaults.

use vstd::prelude::*;

verus! {

/// All settings of the service.
#[derive(Debug, PartialEq, Eq)]
pub struct Config {
    pub server: Server,
    pub paths: Paths,
    pub scanner: Scanner,
    pub log: Log,
}

/// Where the service listens, and how long a scan may take.
#[derive(Debug, PartialEq, Eq)]
pub struct Server {
    pub host: String,
    pub port: u16,
    pub timeout_secs: u64,
}

/// The directories the service reads and writes.
#[derive(Debug, PartialEq, Eq)]
pub struct Paths {
    pub output_dir: String,
    pub thumbnail_dir: String,
    pub preview_dir: String,
    pub client_dir: String,
}

/// The program that scans, and the resolution of previews.
#[derive(Debug, PartialEq, Eq)]
pub struct Scanner {
    pub command: String,
    pub preview_resolution: u32,
}

/// How much the service logs.
#[derive(Debug, PartialEq, Eq)]
pub struct Log {
    pub level: String,
}

/// Seconds a scan may take when the settings do not say.
pub fn default_timeout() -> (t: u64)
    ensures
        t == 600,
{
    600
}

/// Resolution of previews when the settings do not say.
pub fn default_preview_resolution() -> (r: u32)
    ensures
        r == 200,
{
    200
}

/// Log level when the settings do not say.
pub fn default_log_level() -> (l: String)
    ensures
        l@ == "info"@,
{
    String::from_str("info")
}

/// Thumbnail directory when the settings do not say.
pub fn default_thumbnail_dir() -> (d: String)
    ensures
        d@ == "/data/thumbnails"@,
{
    String::from_str("/data/thumbnails")
}

/// Preview directory when the settings do not say.
pub fn default_preview_dir() -> (d: String)
    ensures
        d@ == "/data/preview"@,
{
    String::from_str("/data/preview")
}

/// Directory of the web client when the settings do not say.
pub fn default_client_dir() -> (d: String)
    ensures
        d@ == "./client"@,
{
    String::from_str("./client")
}

/// Log settings when the settings have none: the default level.
pub fn default_log() -> (l: Log)
    ensures
        l.level@ == "info"@,
{
    Log { level: default_log_level() }
}

} // verus!
