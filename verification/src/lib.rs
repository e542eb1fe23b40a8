//! A catalog of firmware images, grouped by product series and product,
//! together with the decisions that drive programming one of them onto a
//! target chip through a debug probe.
//!
//! * [`model`] holds the catalog tree, its mathematical view and the lookups.
//! * [`search`] defines what "the first entry that matches" means.
//! * [`editor`] stores and deletes firmware images and prunes what is left empty.
//! * [`entry`] is the image under the editor's hands, with the names it goes under.
//! * [`laws`] proves what storing and deleting do to every catalog.
//! * [`shape`] proves that editing keeps names and identities unique.
//! * [`store`] decides what to start with when the catalog file cannot be loaded.
//! * [`flash`] decides the order of open, attach and download and names the outcome.
//! * [`targets`] checks a chip selection against the target registry of `probe-rs`.
//! * [`text`] states what comparing two string slices returns.

pub mod text;
pub mod search;
pub mod model;
pub mod editor;
pub mod laws;
pub mod shape;
pub mod flash;
pub mod targets;
pub mod entry;
pub mod store;

pub use entry::IapParameter;
pub use model::{AppDataStruct, Firmware, Product, Series};
