//! Presentation views and report rendering (Mermaid, DOT).
pub mod format;
pub mod graph_export;
pub mod html;
pub mod markdown;
pub mod views;
