//! Tags of the components that describe a render pass.

use vstd::prelude::*;

verus! {

/// Tags the parts of a render pass: its label, attachments, pipeline, buffers and draw
/// ranges.
pub struct RenderPassTag;

/// Names the bundle of components that make up one render pass.
pub struct RenderPassBundle;

} // verus!
