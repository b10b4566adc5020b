//! Resolution of a camera's clear policy into the load operation of a pass.
use vstd::prelude::*;

verus! {

/// An RGBA color with eight bits per channel.
#[derive(Clone, Copy, Debug, PartialEq, Eq, Structural)]
pub struct Color {
    pub r: u8,
    pub g: u8,
    pub b: u8,
    pub a: u8,
}

impl Color {
    pub fn rgba(r: u8, g: u8, b: u8, a: u8) -> (c: Color)
        ensures
            c == (Color { r, g, b, a }),
    {
        Color { r, g, b, a }
    }
}

/// The process-wide color used by cameras that ask for the default clear.
#[derive(Clone, Copy, Debug, PartialEq, Eq, Structural)]
pub struct ClearColor(pub Color);

/// How a camera initialises its color attachment.
#[derive(Clone, Copy, Debug, PartialEq, Eq, Structural)]
pub enum ClearColorConfig {
    /// Clear to the process-wide clear color.
    Default,
    /// Clear to the given color.
    Custom(Color),
    /// Do not clear: keep what the attachment already holds.
    Preserve,
}

/// What a pass does with an attachment when it begins.
#[derive(Clone, Copy, Debug, PartialEq, Eq, Structural)]
pub enum LoadOp {
    Clear(Color),
    Load,
}

/// The load and store operations of one attachment.
#[derive(Clone, Copy, Debug, PartialEq, Eq, Structural)]
pub struct Operations {
    pub load: LoadOp,
    pub store: bool,
}

/// The load operation that a clear policy stands for, given the process-wide
/// clear color.
pub open spec fn load_op_of(config: ClearColorConfig, default_color: Color) -> LoadOp {
    match config {
        ClearColorConfig::Default => LoadOp::Clear(default_color),
        ClearColorConfig::Custom(c) => LoadOp::Clear(c),
        ClearColorConfig::Preserve => LoadOp::Load,
    }
}

/// Resolves a camera's clear policy against the process-wide clear color.
pub fn resolve_load_op(config: ClearColorConfig, default_color: &ClearColor) -> (op: LoadOp)
    ensures
        op == load_op_of(config, default_color.0),
{
    match config {
        ClearColorConfig::Default => LoadOp::Clear(default_color.0),
        ClearColorConfig::Custom(c) => LoadOp::Clear(c),
        ClearColorConfig::Preserve => LoadOp::Load,
    }
}

/// A custom clear color wins over the process-wide one: the pass clears to the
/// custom color whatever the default is.
pub proof fn lemma_custom_ignores_default(c: Color, d1: Color, d2: Color)
    ensures
        load_op_of(ClearColorConfig::Custom(c), d1) == LoadOp::Clear(c),
        load_op_of(ClearColorConfig::Custom(c), d1) == load_op_of(ClearColorConfig::Custom(c), d2),
{
}

/// A camera that does not clear loads the existing contents, and the
/// process-wide color, however it changes between frames, has no effect.
pub proof fn lemma_none_loads(d1: Color, d2: Color)
    ensures
        load_op_of(ClearColorConfig::Preserve, d1) == LoadOp::Load,
        load_op_of(ClearColorConfig::Preserve, d1) == load_op_of(ClearColorConfig::Preserve, d2),
{
}

} // verus!
