//! Verified core of a forensic disk-imaging suite: multi-algorithm
//! hashing, partition-table and file-system recognition, segmented image
//! output planning, bad-sector isolation, integrity verification and
//! report rendering (text, HTML, CSV and the PDF page layout), live triage
//! and memory-analysis helpers, shadow-copy and locked-file path handling,
//! and the plugin registry.

pub mod text;
pub mod hasher;
pub mod partition;
pub mod probe;
pub mod output;
pub mod acquisition;
pub mod report;
pub mod html;
pub mod plugins;
pub mod vss;
pub mod locked_files;
pub mod platform;
pub mod config;
pub mod ram;
pub mod triage;
pub mod imager;
pub mod imaging;
pub mod pdf;
pub mod request;
