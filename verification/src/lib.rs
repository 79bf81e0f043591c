//! Commitment and signing layer for partially signed bitcoin transactions.
//!
//! The library holds the container of a partially signed transaction, the
//! references to extended keys and the proprietary keys that it is built on,
//! the engine that resolves commitments (multi-protocol, pay-to-contract,
//! sign-to-contract, taproot anchor), and the signer that signs every
//! standard way of spending with the tweak of a resolved commitment applied.

pub mod bytes;
pub mod commit;
pub mod encoding;
pub mod error;
pub mod hashes;
pub mod hex;
pub mod proprietary;
pub mod psbt;
pub mod script;
pub mod secp;
pub mod sign;
pub mod version;
pub mod xpubref;

pub use error::{Error, ErrorKind};
pub use proprietary::{
    ProprietaryEntry, ProprietaryKey, ProprietaryMap, PSBT_GLOBAL_LNPBP4_PROTOCOL_INFO,
    PSBT_IN_P2C_TWEAK, PSBT_IN_TAPRET_TWEAK, PSBT_LNPBP4_PREFIX, PSBT_OUT_LNPBP4_ENTROPY,
    PSBT_OUT_LNPBP4_MESSAGE, PSBT_OUT_LNPBP4_MIN_TREE_DEPTH, PSBT_OUT_TAPRET_COMMITMENT,
    PSBT_OUT_TAPRET_HOST, PSBT_OUT_TAPRET_PROOF, PSBT_P2C_PREFIX, PSBT_TAPRET_PREFIX,
};
pub use psbt::{
    CommitmentRequest, CommitmentScheme, Input, KeyOrigin, Output, PartialSig, Phase, ProofAux,
    Psbt, TweakProof, TxOut, XpubOrigin,
};
pub use version::PsbtVersion;
pub use xpubref::{Fingerprint, KeyRef, XKeyIdentifier, Xpub, XpubRef};
