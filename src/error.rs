use vstd::prelude::*;

verus! {

/// Why a policy was refused before compilation.
#[derive(Clone, Copy, Debug, PartialEq, Eq)]
pub enum PolicyFault {
    /// A threshold of zero, or larger than the number of keys.
    BadThreshold,
    /// More keys than a multi-signature check may hold.
    TooManyKeys,
    /// A key of the wrong length or form.
    BadKey,
    /// A time lock of zero or outside its encodable range.
    BadLock,
    /// A Taproot tree deeper than the builder accepts.
    TreeTooDeep,
}

/// Why a script could not be produced.
#[derive(Clone, Copy, Debug, PartialEq, Eq)]
pub enum CompileFault {
    /// The script would exceed the script-size limit.
    ScriptTooLong,
    /// The descriptor compiler refused the policy's shape.
    UnsupportedNesting,
    /// A leaf index that the tree does not hold.
    UnknownLeaf,
    /// The output script has no address form.
    NoAddress,
    /// The key cannot be tweaked into a Taproot output key.
    BadTweak,
}

/// The errors of planning, signing and relaying a spend.
#[derive(Clone, Debug, PartialEq, Eq)]
pub enum SpendError {
    PolicyInvalid(PolicyFault),
    CompileError(CompileFault),
    MissingPrevout,
    SighashError,
    SignError,
    PathUnsatisfiable,
    NodeRpcError { code: i64, message: String },
    NonFinal { min_height_or_time: u32 },
}

} // verus!
