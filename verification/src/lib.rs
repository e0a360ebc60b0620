//! Ensures that device configuration XML documents carry a boolean marker
//! child `<boolean name="vonr_enabled_bool" value="true"/>` under their root
//! element.
//!
//! The tree surgery itself (find the marker among the root's direct children,
//! update it or create it, and re-append it as the last child) is verified;
//! parsing and serializing lean on the `xmltree` crate behind trusted
//! wrappers, and all file and logging concerns live outside this library.

pub mod attrs;
pub mod tree;
pub mod inject;
pub mod laws;
pub mod locate;
pub mod xml_io;
