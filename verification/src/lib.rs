//! Editing a macOS user's Dock configuration: a typed model of the Dock's
//! persisted property-list document, an application-bundle reader, and the
//! append operation that pins a new application.

pub mod dock;
pub mod mac_app;
pub mod node;
pub mod plist_io;

pub use dock::{Dock, DockError, DockItem, DockItemKind, FileLocation, TileMetadata};
pub use mac_app::{BundleError, MacApp};
