//! The relational store's enumerated column values and link records. The
//! store itself lives with the host; these types give its rows their
//! constrained vocabulary.

use vstd::prelude::*;

verus! {

/// Orientation of an imported video.
#[derive(Debug, Clone, Copy, PartialEq, Eq, Structural)]
pub enum Orientation {
    Horizontal,
    Vertical,
    Square,
    Other,
}

/// What kind of footage a file holds.
#[derive(Debug, Clone, Copy, PartialEq, Eq, Structural)]
pub enum ContentType {
    MainContent,
    BRoll,
    Tutorial,
    Unknown,
}

/// Lifecycle of an imported file.
#[derive(Debug, Clone, Copy, PartialEq, Eq, Structural)]
pub enum FileStatus {
    Imported,
    Analyzing,
    Organized,
    Uploaded,
}

/// Lifecycle of a generated content item.
#[derive(Debug, Clone, Copy, PartialEq, Eq, Structural)]
pub enum ContentStatus {
    Draft,
    Ready,
    Published,
}

/// The shapes a content template can take.
#[derive(Debug, Clone, Copy, PartialEq, Eq, Structural)]
pub enum TemplateType {
    Carousel,
    Thread,
    Article,
    Script,
}

/// How a folder in the organized library came to be.
#[derive(Debug, Clone, Copy, PartialEq, Eq, Structural)]
pub enum FolderType {
    Root,
    ByDate,
    ByOrientation,
    ByContentType,
    Custom,
}

/// Lifecycle of an upload project at the hosting service.
#[derive(Debug, Clone, Copy, PartialEq, Eq, Structural)]
pub enum ProjectStatus {
    Created,
    Uploading,
    Processing,
    Complete,
    Failed,
}

/// Membership of a file in an upload project.
#[derive(Debug, PartialEq, Eq)]
pub struct ProjectFiles {
    pub project_id: String,
    pub file_id: String,
}

/// Which transcripts a content item was generated from, and in what order.
#[derive(Debug, PartialEq, Eq)]
pub struct ContentSources {
    pub content_id: String,
    pub transcript_id: String,
    pub order_index: i32,
}

/// Name and creation statement of one table, as schema introspection
/// reports it.
#[derive(Debug)]
pub struct TableInfo {
    pub name: String,
    pub sql: String,
}

} // verus!
