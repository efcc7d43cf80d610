//! PolySaver's domain rules, verified: media formats and presets, settings,
//! URL and path validation, file naming, download job lifecycle, and the
//! decisions of the download pipeline and its sidecar adapters.
pub mod error;
pub mod filename;
pub mod format;
pub mod job;
pub mod media_url;
pub mod path_resolver;
pub mod settings;
pub mod text;
pub mod ports;
pub mod service;
pub mod pipeline;
pub mod publish;
pub mod binres;
pub mod limiter;
pub mod json;
pub mod ffmpeg;
pub mod probe;
pub mod ytdlp;
pub mod history;
pub mod dto;
