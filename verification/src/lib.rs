//! Attachment embedding engine for word-processor package documents.
//!
//! The library packages arbitrary binary payloads into legacy compound
//! containers, rewrites icon templates so they display the attachment's
//! real name, and patches a host package (a ZIP of XML and binary parts)
//! so each attachment appears as a clickable embedded object.

pub mod byteseq;
pub mod container;
pub mod engine;
pub mod icon;
pub mod package;
pub mod records;
pub mod truncate;
pub mod utf16;
pub mod zipio;
