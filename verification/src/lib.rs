//! Decoder for the `OTVGfull` binary container: a tagged-chunk vector-drawing
//! format with nested length-delimited frames, optionally zlib-compressed
//! payloads, a bit-packed path opcode stream and a custom fixed-point
//! coordinate format.
//!
//! Every parser is specified against a mathematical reading of the format on
//! `Seq<u8>` and proved to return exactly what that reading says, for every
//! input. The modules, leaves first:
//!
//! - [`prim`]: the bounded read window and the fixed-width integer readers;
//! - [`quant`]: the 32-bit fixed-point coordinate codec and its round-trip
//!   laws;
//! - [`util`]: encoded-data chunks (verbatim or zlib) and text decoding;
//! - [`pencil`]: the stroke-thickness records;
//! - [`layer`]: vector layers, shapes, components and Bézier paths, with the
//!   opcode-closure and sentinel laws;
//! - [`palette`]: the color palette and its framing laws;
//! - [`read`]: the top-level container grammar, the error model and the
//!   entry point [`read::read`];
//! - [`bounds`]: the bounded-view law, stating that no parser depends on a
//!   byte outside its window.
#![verifier::loop_isolation(false)]

pub mod bounds;
pub mod layer;
pub mod palette;
pub mod pencil;
pub mod prim;
pub mod quant;
pub mod read;
pub mod util;
