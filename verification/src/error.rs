use vstd::prelude::*;

verus! {

/// The failures this library reports to its caller.
#[derive(Debug, PartialEq, Eq)]
pub enum Error {
    /// `set_value` found no resistor, capacitor, diode or voltage source
    /// whose reference equals the given one.
    UnknownElement(String),
    /// The resolver exhausted every search path without finding a file
    /// that defines the given model or sub-circuit name.
    ModelNotFound(String),
}

impl Error {
    /// A human-readable description of the failure.
    pub fn message(&self) -> (r: String)
        ensures
            match self {
                Error::UnknownElement(name) => r@ == "unknown circuit element: "@ + name@,
                Error::ModelNotFound(name) => r@ == "spice model not found: "@ + name@,
            },
    {
        match self {
            Error::UnknownElement(name) => {
                let mut s = String::from_str("unknown circuit element: ");
                s.append(name.as_str());
                s
            },
            Error::ModelNotFound(name) => {
                let mut s = String::from_str("spice model not found: ");
                s.append(name.as_str());
                s
            },
        }
    }
}

} // verus!
