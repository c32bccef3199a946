//! A sector-based software raycasting core.
//!
//! A level is an ordered list of convex sectors; each sector owns its points
//! and a list of lines over those points, where a line is either a solid
//! wall with a colour or a portal to another sector.  The renderer casts one
//! ray per screen column through the walls of the sector the camera stands
//! in, projects each hit into a vertical screen strip with
//! perspective-correct height and depth-based shading, and composites the
//! strips into a flat RGBA byte buffer.  All geometry is carried in
//! fixed-point integers; the presentation layer converts to and from floats
//! at the boundary.

pub mod framebuffer;
pub mod geometry;
pub mod input;
pub mod level;
pub mod raycast;
pub mod scene;
