use vstd::prelude::*;

verus! {

/// The ways in which loading or uploading a resource can fail.
#[derive(Clone, Copy, Debug, PartialEq, Eq, Structural)]
pub enum ResourceError {
    /// A file is missing or cannot be read or decoded.
    FileNotFound,
    /// The model data is malformed.
    ParseError,
    /// A sub-mesh lacks an attribute array that every vertex needs.
    MissingAttribute,
    /// An image has a pixel layout that cannot be uploaded.
    UnsupportedFormat,
    /// A buffer or texture cannot be allocated on the device.
    GpuAllocationFailure,
}

} // verus!
