//! The standard forms of output scripts, told apart by their bytes.

use vstd::prelude::*;

use crate::bytes;

verus! {

/// The form of an output script.
#[derive(Copy, Clone, PartialEq, Eq, Debug, Structural)]
pub enum ScriptKind {
    /// Pay to the hash of a public key.
    P2pkh,
    /// Pay to the hash of a script.
    P2sh,
    /// Version 0 witness program of 20 bytes: the hash of a public key.
    P2wpkh,
    /// Version 0 witness program of 32 bytes: the hash of a script.
    P2wsh,
    /// Version 1 witness program of 32 bytes: a taproot output key.
    P2tr,
    /// A witness program of another version or length.
    WitnessUnknown,
    /// Any other script.
    Other,
}

/// The script that pays to the hash of a public key.
pub open spec fn p2pkh_of(hash: Seq<u8>) -> Seq<u8> {
    seq![0x76u8, 0xa9u8, 0x14u8] + hash + seq![0x88u8, 0xacu8]
}

/// The script that pays to the hash of a script.
pub open spec fn p2sh_of(hash: Seq<u8>) -> Seq<u8> {
    seq![0xa9u8, 0x14u8] + hash + seq![0x87u8]
}

/// The version 0 witness program over the hash of a public key.
pub open spec fn p2wpkh_of(hash: Seq<u8>) -> Seq<u8> {
    seq![0x00u8, 0x14u8] + hash
}

/// The version 0 witness program over the hash of a script.
pub open spec fn p2wsh_of(hash: Seq<u8>) -> Seq<u8> {
    seq![0x00u8, 0x20u8] + hash
}

/// The version 1 witness program over an output key.
pub open spec fn p2tr_of(key: Seq<u8>) -> Seq<u8> {
    seq![0x51u8, 0x20u8] + key
}

/// Whether a script is a witness program: a version opcode and one push of
/// 2 to 40 bytes, and nothing else.
pub open spec fn is_witness_program(s: Seq<u8>) -> bool {
    &&& 4 <= s.len() <= 42
    &&& s[0] == 0x00 || 0x51 <= s[0] <= 0x60
    &&& s[1] == s.len() - 2
}

/// The form of a script.
pub open spec fn kind_of(s: Seq<u8>) -> ScriptKind {
    if s.len() == 25 && s[0] == 0x76 && s[1] == 0xa9 && s[2] == 0x14 && s[23] == 0x88 && s[24]
        == 0xac {
        ScriptKind::P2pkh
    } else if s.len() == 23 && s[0] == 0xa9 && s[1] == 0x14 && s[22] == 0x87 {
        ScriptKind::P2sh
    } else if is_witness_program(s) {
        if s[0] == 0x00 && s.len() == 22 {
            ScriptKind::P2wpkh
        } else if s[0] == 0x00 && s.len() == 34 {
            ScriptKind::P2wsh
        } else if s[0] == 0x51 && s.len() == 34 {
            ScriptKind::P2tr
        } else {
            ScriptKind::WitnessUnknown
        }
    } else {
        ScriptKind::Other
    }
}

/// The form of a script.
pub fn script_kind(s: &[u8]) -> (k: ScriptKind)
    ensures
        k == kind_of(s@),
{
    let n = s.len();
    if n == 25 && s[0] == 0x76 && s[1] == 0xa9 && s[2] == 0x14 && s[23] == 0x88 && s[24] == 0xac {
        ScriptKind::P2pkh
    } else if n == 23 && s[0] == 0xa9 && s[1] == 0x14 && s[22] == 0x87 {
        ScriptKind::P2sh
    } else if 4 <= n && n <= 42 && (s[0] == 0x00 || (0x51 <= s[0] && s[0] <= 0x60)) && s[1] as usize
        == n - 2 {
        if s[0] == 0x00 && n == 22 {
            ScriptKind::P2wpkh
        } else if s[0] == 0x00 && n == 34 {
            ScriptKind::P2wsh
        } else if s[0] == 0x51 && n == 34 {
            ScriptKind::P2tr
        } else {
            ScriptKind::WitnessUnknown
        }
    } else {
        ScriptKind::Other
    }
}

/// The script that pays to the hash of a public key.
pub fn p2pkh(hash: &[u8; 20]) -> (s: Vec<u8>)
    ensures
        s@ == p2pkh_of(hash@),
{
    let mut s: Vec<u8> = Vec::new();
    s.push(0x76);
    s.push(0xa9);
    s.push(0x14);
    bytes::extend(&mut s, hash.as_slice());
    s.push(0x88);
    s.push(0xac);
    assert(s@ =~= p2pkh_of(hash@));
    s
}

/// The script that pays to the hash of a script.
pub fn p2sh(hash: &[u8; 20]) -> (s: Vec<u8>)
    ensures
        s@ == p2sh_of(hash@),
{
    let mut s: Vec<u8> = Vec::new();
    s.push(0xa9);
    s.push(0x14);
    bytes::extend(&mut s, hash.as_slice());
    s.push(0x87);
    assert(s@ =~= p2sh_of(hash@));
    s
}

/// The version 0 witness program over the hash of a public key.
pub fn p2wpkh(hash: &[u8; 20]) -> (s: Vec<u8>)
    ensures
        s@ == p2wpkh_of(hash@),
{
    let mut s: Vec<u8> = Vec::new();
    s.push(0x00);
    s.push(0x14);
    bytes::extend(&mut s, hash.as_slice());
    assert(s@ =~= p2wpkh_of(hash@));
    s
}

/// The version 0 witness program over the hash of a script.
pub fn p2wsh(hash: &[u8; 32]) -> (s: Vec<u8>)
    ensures
        s@ == p2wsh_of(hash@),
{
    let mut s: Vec<u8> = Vec::new();
    s.push(0x00);
    s.push(0x20);
    bytes::extend(&mut s, hash.as_slice());
    assert(s@ =~= p2wsh_of(hash@));
    s
}

/// The version 1 witness program over an output key.
pub fn p2tr(key: &[u8; 32]) -> (s: Vec<u8>)
    ensures
        s@ == p2tr_of(key@),
{
    let mut s: Vec<u8> = Vec::new();
    s.push(0x51);
    s.push(0x20);
    bytes::extend(&mut s, key.as_slice());
    assert(s@ =~= p2tr_of(key@));
    s
}

} // verus!
