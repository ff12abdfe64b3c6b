//! Jump-flood Voronoi and distance-field generation for 2D views.
//!
//! For every pixel of a view, the effect finds the nearest of the pixels
//! that a set of marked meshes covers. The GPU does the work in a fixed
//! sequence of passes over a pair of surfaces; this crate decides what the
//! passes are, in which order they run, which surface each of them reads and
//! writes, and for which views they run at all. Every function states its
//! behaviour as a contract.
//!
//! - [`texture`]: the ping-pong pair of surfaces of a view.
//! - [`steps`]: the strides of the flood passes.
//! - [`draw`]: the passes of a view and their order.
//! - [`schedule`]: which views are recomputed in a frame.
//! - [`registry`]: the pairs of all live views.
//! - [`phase`], [`binned`]: the items of the render phases and their queues.
//! - [`material`]: the masks of the meshes and their bind groups.
//! - [`cache`]: the pipelines that were specialized for a view.
//! - [`view`]: the markers that a scene puts on cameras and meshes.
//! - [`flood`], [`software`], [`pipeline`]: the passes carried out in
//!   memory, and what they compute.
//! - [`accuracy`]: how far the flood may be off between two shapes.
//! - [`collections`]: the hash collections that the registries rest on.
//! - [`error`]: the reasons for which work is skipped.

pub mod accuracy;
pub mod binned;
pub mod cache;
pub mod collections;
pub mod draw;
pub mod error;
pub mod flood;
pub mod material;
pub mod phase;
pub mod pipeline;
pub mod registry;
pub mod schedule;
pub mod software;
pub mod steps;
pub mod texture;
pub mod view;
