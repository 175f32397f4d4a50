//! Release-asset resolution for the Zed Windows builds: the catalog of asset
//! names, matching of release attachments, dispatch of downloaded artifacts by
//! extension, and the link-stripping pass applied to release changelogs.

pub mod archive;
pub mod catalog;
pub mod changelog;
pub mod matcher;
pub mod materialize;
pub mod pipeline;
pub mod text;
