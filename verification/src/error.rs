//! The errors that the library reports.

use vstd::prelude::*;

verus! {

/// The four families that the errors fall into.
#[derive(Copy, Clone, PartialEq, Eq, Debug, Structural)]
pub enum ErrorKind {
    /// A text or a byte string could not be read.
    Format,
    /// A step was taken out of order, or twice.
    State,
    /// Transaction data is missing or of an unsupported form.
    Input,
    /// A commitment cannot be built from the messages given.
    Structure,
}

/// Everything that can go wrong in the library.
#[derive(Copy, Clone, PartialEq, Eq, Debug, Structural)]
pub enum Error {
    /// A key reference text is none of the accepted forms.
    InvalidFormat,
    /// A proprietary key is truncated, or its length prefixes do not agree.
    MalformedProprietaryKey,
    /// The output already carries a resolved proof.
    CommitmentAlreadyPresent { output: usize },
    /// The input depends on a commitment that has not been resolved.
    MissingCommitmentProof { input: usize },
    /// The input already holds another signature for the same key.
    SignatureConflict { input: usize },
    /// The previous output's script or value is not known.
    MissingUTXOInfo { input: usize },
    /// The scripts of the input match no supported way of spending.
    UnsupportedSpendType { input: usize },
    /// The signature hash flag cannot be used with the way of spending.
    InvalidSighashType { input: usize },
    /// Two messages are given under one protocol identifier.
    UnbalancedProtocolSet,
    /// More protocols than the tree of the declared depth has leaves.
    DepthExceeded,
}

impl Error {
    /// The family of the error.
    pub open spec fn spec_kind(self) -> ErrorKind {
        match self {
            Error::InvalidFormat | Error::MalformedProprietaryKey => ErrorKind::Format,
            Error::CommitmentAlreadyPresent { .. }
            | Error::MissingCommitmentProof { .. }
            | Error::SignatureConflict { .. } => ErrorKind::State,
            Error::MissingUTXOInfo { .. }
            | Error::UnsupportedSpendType { .. }
            | Error::InvalidSighashType { .. } => ErrorKind::Input,
            Error::UnbalancedProtocolSet | Error::DepthExceeded => ErrorKind::Structure,
        }
    }

    /// The family of the error.
    #[verifier::when_used_as_spec(spec_kind)]
    pub fn kind(self) -> (k: ErrorKind)
        ensures
            k == self.spec_kind(),
    {
        match self {
            Error::InvalidFormat | Error::MalformedProprietaryKey => ErrorKind::Format,
            Error::CommitmentAlreadyPresent { .. }
            | Error::MissingCommitmentProof { .. }
            | Error::SignatureConflict { .. } => ErrorKind::State,
            Error::MissingUTXOInfo { .. }
            | Error::UnsupportedSpendType { .. }
            | Error::InvalidSighashType { .. } => ErrorKind::Input,
            Error::UnbalancedProtocolSet | Error::DepthExceeded => ErrorKind::Structure,
        }
    }
}

} // verus!
