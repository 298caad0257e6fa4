use vstd::prelude::*;

verus! {

/// Failures caused by what the caller supplied.
#[derive(Debug, Clone, Copy, PartialEq, Eq, Structural)]
pub enum ApiError {
    /// An object was used before it was created.
    UninitializedObject,
    /// A required value was missing.
    NullPointer,
    /// A miscellaneous incorrect value, such as a zero dimension.
    InvalidValue,
    /// An index is not below the dimension it addresses.
    InvalidIndex,
    /// The domains of a collection and of an operation do not fit.
    DomainMismatch,
    /// The dimensions of the operands do not fit.
    DimensionMismatch,
    /// A bulk load was asked of a container that already holds entries.
    OutputNotEmpty,
    /// Nothing is stored at the position that was read.
    NoValue,
}

/// Failures that arise while an operation runs.
#[derive(Debug, Clone, Copy, PartialEq, Eq, Structural)]
pub enum ExecutionError {
    /// Not enough memory for the operation.
    OutOfMemory,
    /// The output that was provided cannot hold the result.
    InsufficientSpace,
    /// An object was left invalid by an earlier failure.
    InvalidObject,
    /// A position outside the declared dimensions was met mid-algorithm.
    IndexOutOfBounds,
    /// An unknown internal error.
    Panic,
}

/// Every failure the library reports.
#[derive(Debug, Clone, Copy, PartialEq, Eq, Structural)]
pub enum GblasError {
    /// The caller supplied something invalid.
    ApiError(ApiError),
    /// The operation failed while it ran.
    ExecutionError(ExecutionError),
}

/// The failure of an operation on a usage error.
pub open spec fn api_err<T>(e: ApiError) -> Result<T, GblasError> {
    Err(GblasError::ApiError(e))
}

/// The failure of an operation on an execution error.
pub open spec fn exec_err<T>(e: ExecutionError) -> Result<T, GblasError> {
    Err(GblasError::ExecutionError(e))
}

/// An operation refused what it was given: it fails with the usage error
/// `e` and leaves its output as it was.
pub open spec fn refused<C>(before: C, after: C, r: Result<(), GblasError>, e: ApiError) -> bool {
    r == api_err::<()>(e) && after == before
}

impl From<ApiError> for GblasError {
    fn from(e: ApiError) -> (r: GblasError) {
        GblasError::ApiError(e)
    }
}

impl vstd::std_specs::convert::FromSpecImpl<ApiError> for GblasError {
    open spec fn obeys_from_spec() -> bool {
        true
    }

    open spec fn from_spec(e: ApiError) -> GblasError {
        GblasError::ApiError(e)
    }
}

impl From<ExecutionError> for GblasError {
    fn from(e: ExecutionError) -> (r: GblasError) {
        GblasError::ExecutionError(e)
    }
}

impl vstd::std_specs::convert::FromSpecImpl<ExecutionError> for GblasError {
    open spec fn obeys_from_spec() -> bool {
        true
    }

    open spec fn from_spec(e: ExecutionError) -> GblasError {
        GblasError::ExecutionError(e)
    }
}

impl ApiError {
    /// The name of the failure, as it is reported.
    pub fn name(&self) -> (s: &'static str)
        ensures
            s@ == self.name_spec(),
    {
        match self {
            ApiError::UninitializedObject => "UninitializedObject",
            ApiError::NullPointer => "NullPointer",
            ApiError::InvalidValue => "InvalidValue",
            ApiError::InvalidIndex => "InvalidIndex",
            ApiError::DomainMismatch => "DomainMismatch",
            ApiError::DimensionMismatch => "DimensionMismatch",
            ApiError::OutputNotEmpty => "OutputNotEmpty",
            ApiError::NoValue => "NoValue",
        }
    }

    pub open spec fn name_spec(&self) -> Seq<char> {
        match self {
            ApiError::UninitializedObject => "UninitializedObject"@,
            ApiError::NullPointer => "NullPointer"@,
            ApiError::InvalidValue => "InvalidValue"@,
            ApiError::InvalidIndex => "InvalidIndex"@,
            ApiError::DomainMismatch => "DomainMismatch"@,
            ApiError::DimensionMismatch => "DimensionMismatch"@,
            ApiError::OutputNotEmpty => "OutputNotEmpty"@,
            ApiError::NoValue => "NoValue"@,
        }
    }
}

impl ExecutionError {
    /// The name of the failure, as it is reported.
    pub fn name(&self) -> (s: &'static str)
        ensures
            s@ == self.name_spec(),
    {
        match self {
            ExecutionError::OutOfMemory => "OutOfMemory",
            ExecutionError::InsufficientSpace => "InsufficientSpace",
            ExecutionError::InvalidObject => "InvalidObject",
            ExecutionError::IndexOutOfBounds => "IndexOutOfBounds",
            ExecutionError::Panic => "Panic",
        }
    }

    pub open spec fn name_spec(&self) -> Seq<char> {
        match self {
            ExecutionError::OutOfMemory => "OutOfMemory"@,
            ExecutionError::InsufficientSpace => "InsufficientSpace"@,
            ExecutionError::InvalidObject => "InvalidObject"@,
            ExecutionError::IndexOutOfBounds => "IndexOutOfBounds"@,
            ExecutionError::Panic => "Panic"@,
        }
    }
}

} // verus!
