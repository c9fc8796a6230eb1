pub mod ascii;
pub mod config;
pub mod encode;
pub mod html;
pub mod json;
pub mod log;
pub mod media;
pub mod music;
pub mod num;
pub mod paths;
pub mod pipeline;
pub mod plan;
pub mod planner;
pub mod retime;
pub mod script;
pub mod srt;
pub mod subtitle;
pub mod text;
