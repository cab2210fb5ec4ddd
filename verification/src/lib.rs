//! Building and serializing SPICE netlists.
//!
//! A [`Circuit`] is an ordered collection of circuit elements plus a set of
//! locally defined sub-circuits and a search path.  Rendering a circuit
//! produces the textual netlist: one `.include` line per external model or
//! sub-circuit that the elements reference, the local sub-circuit blocks,
//! and one line per element in insertion order.  External definitions are
//! located by scanning the files on the search path for `.SUBCKT`, `.model`
//! and `.include` directives; the caller supplies a snapshot of those files,
//! so the library itself performs no I/O.

pub mod circuit;
pub mod error;
pub mod laws;
pub mod pathmap;
pub mod render;
pub mod scan;
pub mod sim;
pub mod source;
pub mod text;

pub use circuit::{Circuit, CircuitItem, Subcircuit};
pub use error::Error;
pub use pathmap::PathMap;
pub use sim::{Cb, Simulation};
pub use source::{SearchDir, SourceFile};
