use vstd::prelude::*;

verus! {

/// Errors reported by the buffer lifecycle.
#[derive(Debug, Clone, Copy, PartialEq, Eq, Structural)]
pub enum ClError {
    /// A failure code reported by the OpenCL runtime.
    Api(i32),
    /// A buffer of this many bytes cannot be allocated (zero-length request).
    InvalidSize(usize),
}

impl ClError {
    /// The OpenCL error code carried by an `Api` error, if any.
    pub fn code(&self) -> (r: Option<i32>)
        ensures
            r == (match *self {
                ClError::Api(c) => Some(c),
                ClError::InvalidSize(_) => None::<i32>,
            }),
    {
        match *self {
            ClError::Api(c) => Some(c),
            ClError::InvalidSize(_) => None,
        }
    }
}

impl From<opencl3::error_codes::ClError> for ClError {
    fn from(err: opencl3::error_codes::ClError) -> (r: ClError) {
        ClError::Api(err.0)
    }
}

impl vstd::std_specs::convert::FromSpecImpl<opencl3::error_codes::ClError> for ClError {
    open spec fn obeys_from_spec() -> bool {
        true
    }

    open spec fn from_spec(err: opencl3::error_codes::ClError) -> ClError {
        ClError::Api(err.0)
    }
}

impl From<i32> for ClError {
    fn from(code: i32) -> (r: ClError) {
        ClError::Api(code)
    }
}

impl vstd::std_specs::convert::FromSpecImpl<i32> for ClError {
    open spec fn obeys_from_spec() -> bool {
        true
    }

    open spec fn from_spec(code: i32) -> ClError {
        ClError::Api(code)
    }
}

} // verus!
