//! References to an extended public key at one level of a derivation path.
//!
//! A reference names the key by as much as is known of it: nothing, the
//! four-byte fingerprint, the twenty-byte identifier, or the whole key.

use std::str::FromStr;

use vstd::pervasive::unreached;
use vstd::prelude::*;
use vstd::string::*;

use crate::error::Error;
use crate::hex::{hex_decode, hex_lower, lemma_hex_decode_lower};

verus! {

/// The first four bytes of a key identifier.
#[derive(Copy, Clone, PartialEq, Eq, PartialOrd, Ord, Hash, Debug, Default)]
pub struct Fingerprint(pub [u8; 4]);

/// The HASH160 of a serialised public key.
#[derive(Copy, Clone, PartialEq, Eq, PartialOrd, Ord, Hash, Debug)]
pub struct XKeyIdentifier(pub [u8; 20]);

/// An extended public key, held as its 78-byte BIP 32 serialisation.
///
/// Every value is one that `bitcoin::bip32::Xpub::decode` accepts.
#[derive(Copy, Clone, PartialEq, Eq, PartialOrd, Ord, Hash, Debug)]
pub struct Xpub {
    bytes: [u8; 78],
}

impl View for Fingerprint {
    type V = Seq<u8>;

    open spec fn view(&self) -> Seq<u8> {
        self.0@
    }
}

impl View for XKeyIdentifier {
    type V = Seq<u8>;

    open spec fn view(&self) -> Seq<u8> {
        self.0@
    }
}

impl View for Xpub {
    type V = Seq<u8>;

    closed spec fn view(&self) -> Seq<u8> {
        self.bytes@
    }
}

/// Whether `bitcoin::bip32::Xpub::decode` accepts the bytes as the
/// serialisation of an extended public key.
pub uninterp spec fn xpub_decodes(data: Seq<u8>) -> bool;

/// The text that `Display` of `bitcoin::bip32::Xpub` writes for the key with
/// the given serialisation.
pub uninterp spec fn xpub_text_of(data: Seq<u8>) -> Seq<char>;

/// The serialisation of the key that `FromStr` of `bitcoin::bip32::Xpub`
/// reads from a text; `None` where it reads none.
pub uninterp spec fn xpub_of_text(text: Seq<char>) -> Option<Seq<u8>>;

/// The identifier that `bitcoin::bip32::Xpub::identifier` computes for the key
/// with the given serialisation.
pub uninterp spec fn xpub_identifier_of(data: Seq<u8>) -> Seq<u8>;

/// Whether the text of a key reads back as the same key, and as neither a
/// fingerprint nor an identifier.
pub open spec fn xpub_text_reads_back(data: Seq<u8>) -> bool {
    &&& xpub_of_text(xpub_text_of(data)) == Some(data)
    &&& xpub_text_of(data).len() > 40
}

/// `FromStr` of `bitcoin::bip32::Fingerprint`: the text is read as eight
/// hexadecimal digits in either case, two for each byte in order, and
/// anything else is refused.
#[verifier::external_body]
fn fingerprint_from_text(s: &str) -> (r: Option<Fingerprint>)
    ensures
        match r {
            Some(fp) => hex_decode(s@, 4) == Some(fp@),
            None => hex_decode(s@, 4) is None,
        },
{
    match bitcoin::bip32::Fingerprint::from_str(s) {
        Ok(fp) => Some(Fingerprint(fp.to_bytes())),
        Err(_) => None,
    }
}

/// `Display` of `bitcoin::bip32::Fingerprint`: eight lower-case hexadecimal
/// digits, two for each byte in order.
#[verifier::external_body]
fn fingerprint_text(fp: &Fingerprint) -> (r: String)
    ensures
        r@ == hex_lower(fp@),
{
    bitcoin::bip32::Fingerprint::from(fp.0).to_string()
}

/// `FromStr` of `bitcoin::bip32::XKeyIdentifier`: the text is read as forty
/// hexadecimal digits in either case, two for each byte in order, and
/// anything else is refused.
#[verifier::external_body]
fn identifier_from_text(s: &str) -> (r: Option<XKeyIdentifier>)
    ensures
        match r {
            Some(id) => hex_decode(s@, 20) == Some(id@),
            None => hex_decode(s@, 20) is None,
        },
{
    match bitcoin::bip32::XKeyIdentifier::from_str(s) {
        Ok(id) => Some(XKeyIdentifier(bitcoin::hashes::Hash::to_byte_array(id))),
        Err(_) => None,
    }
}

/// `Display` of `bitcoin::bip32::XKeyIdentifier`: forty lower-case
/// hexadecimal digits, two for each byte in order.
#[verifier::external_body]
fn identifier_text(id: &XKeyIdentifier) -> (r: String)
    ensures
        r@ == hex_lower(id@),
{
    <bitcoin::bip32::XKeyIdentifier as bitcoin::hashes::Hash>::from_byte_array(id.0).to_string()
}

/// `bitcoin::bip32::Xpub::decode`, with the key it accepts written back by
/// `encode`: a key is accepted only from 78 bytes, and its serialisation is
/// then those bytes.
#[verifier::external_body]
fn xpub_decode(data: &[u8]) -> (r: Option<[u8; 78]>)
    ensures
        r is Some == xpub_decodes(data@),
        r matches Some(b) ==> b@ == data@,
{
    match bitcoin::bip32::Xpub::decode(data) {
        Ok(key) => Some(key.encode()),
        Err(_) => None,
    }
}

/// `FromStr` of `bitcoin::bip32::Xpub`, with the key it reads written out by
/// `encode`: the bytes are those of a key that `decode` accepts.
#[verifier::external_body]
fn xpub_parse(s: &str) -> (r: Option<[u8; 78]>)
    ensures
        match r {
            Some(b) => xpub_of_text(s@) == Some(b@) && xpub_decodes(b@),
            None => xpub_of_text(s@) is None,
        },
{
    match bitcoin::bip32::Xpub::from_str(s) {
        Ok(key) => Some(key.encode()),
        Err(_) => None,
    }
}

/// `Display` of `bitcoin::bip32::Xpub`, on the key that `decode` reads from
/// the bytes: the Base58Check text of the 78 bytes. `FromStr` reads the same
/// key back from it. With its four bytes of checksum the text stands for 82
/// bytes of which the first is not zero, so it has 111 characters; the
/// contract claims only that it has more than 40.
#[verifier::external_body]
fn xpub_text(bytes: &[u8; 78]) -> (r: Option<String>)
    ensures
        r is Some == xpub_decodes(bytes@),
        r matches Some(text) ==> {
            &&& text@ == xpub_text_of(bytes@)
            &&& xpub_of_text(text@) == Some(bytes@)
            &&& text@.len() > 40
        },
{
    match bitcoin::bip32::Xpub::decode(bytes) {
        Ok(key) => Some(key.to_string()),
        Err(_) => None,
    }
}

/// `bitcoin::bip32::Xpub::identifier`, on the key that `decode` reads from
/// the bytes: the HASH160 of the serialised public key, twenty bytes.
#[verifier::external_body]
fn xpub_identifier(bytes: &[u8; 78]) -> (r: Option<[u8; 20]>)
    ensures
        r is Some == xpub_decodes(bytes@),
        r matches Some(id) ==> id@ == xpub_identifier_of(bytes@),
{
    match bitcoin::bip32::Xpub::decode(bytes) {
        Ok(key) => Some(bitcoin::hashes::Hash::to_byte_array(key.identifier())),
        Err(_) => None,
    }
}

/// `bitcoin::bip32::Xpub::fingerprint`, on the key that `decode` reads from
/// the bytes: the first four bytes of the identifier.
#[verifier::external_body]
fn xpub_fingerprint(bytes: &[u8; 78]) -> (r: Option<[u8; 4]>)
    ensures
        r is Some == xpub_decodes(bytes@),
        r matches Some(fp) ==> fp@ == xpub_identifier_of(bytes@).subrange(0, 4),
{
    match bitcoin::bip32::Xpub::decode(bytes) {
        Ok(key) => Some(key.fingerprint().to_bytes()),
        Err(_) => None,
    }
}

impl Xpub {
    #[verifier::type_invariant]
    spec fn accepted(self) -> bool {
        xpub_decodes(self.bytes@)
    }

    /// The key with the given BIP 32 serialisation, where the bytes are one.
    pub fn decode(data: &[u8]) -> (r: Option<Xpub>)
        ensures
            r is Some == xpub_decodes(data@),
            r matches Some(key) ==> key@ == data@,
    {
        match xpub_decode(data) {
            Some(bytes) => Some(Xpub { bytes }),
            None => None,
        }
    }

    /// The BIP 32 serialisation of the key.
    pub fn encode(&self) -> (b: [u8; 78])
        ensures
            b@ == self@,
            xpub_decodes(b@),
    {
        proof {
            use_type_invariant(self);
        }
        self.bytes
    }

    /// The identifier of the key.
    pub fn identifier(&self) -> (id: XKeyIdentifier)
        ensures
            id@ == xpub_identifier_of(self@),
    {
        proof {
            use_type_invariant(self);
        }
        match xpub_identifier(&self.bytes) {
            Some(id) => XKeyIdentifier(id),
            None => unreached(),
        }
    }

    /// The fingerprint of the key: the first four bytes of its identifier.
    pub fn fingerprint(&self) -> (fp: Fingerprint)
        ensures
            fp@ == xpub_identifier_of(self@).subrange(0, 4),
    {
        proof {
            use_type_invariant(self);
        }
        match xpub_fingerprint(&self.bytes) {
            Some(fp) => Fingerprint(fp),
            None => unreached(),
        }
    }

    /// The key that a Base58Check text stands for, where it stands for one.
    pub fn from_text(s: &str) -> (r: Option<Xpub>)
        ensures
            match r {
                Some(key) => xpub_of_text(s@) == Some(key@) && xpub_decodes(key@),
                None => xpub_of_text(s@) is None,
            },
    {
        match xpub_parse(s) {
            Some(bytes) => Some(Xpub { bytes }),
            None => None,
        }
    }

    /// The Base58Check text of the key, which reads back as the key.
    pub fn to_text(&self) -> (s: String)
        ensures
            s@ == xpub_text_of(self@),
            xpub_text_reads_back(self@),
            xpub_decodes(self@),
    {
        proof {
            use_type_invariant(self);
        }
        match xpub_text(&self.bytes) {
            Some(text) => text,
            None => unreached(),
        }
    }
}

/// What a key reference holds, as plain byte strings.
pub enum KeyRef {
    /// Nothing is known of the key.
    Unknown,
    /// The four bytes of the fingerprint.
    Fingerprint(Seq<u8>),
    /// The twenty bytes of the identifier.
    Identifier(Seq<u8>),
    /// The 78 bytes of the serialised key.
    FullKey(Seq<u8>),
}

impl KeyRef {
    /// Whether the byte strings have the lengths of their kinds, and a full
    /// key is the serialisation of a key.
    pub open spec fn is_valid(self) -> bool {
        match self {
            KeyRef::Unknown => true,
            KeyRef::Fingerprint(fp) => fp.len() == 4,
            KeyRef::Identifier(id) => id.len() == 20,
            KeyRef::FullKey(key) => key.len() == 78 && xpub_decodes(key),
        }
    }

    /// The fingerprint that the reference gives: its own, the first four
    /// bytes of its identifier, or those of the identifier of its key.
    pub open spec fn fingerprint(self) -> Option<Seq<u8>> {
        match self {
            KeyRef::Unknown => None,
            KeyRef::Fingerprint(fp) => Some(fp),
            KeyRef::Identifier(id) => Some(id.subrange(0, 4)),
            KeyRef::FullKey(key) => Some(xpub_identifier_of(key).subrange(0, 4)),
        }
    }

    /// The identifier that the reference gives: its own, or that of its key.
    pub open spec fn identifier(self) -> Option<Seq<u8>> {
        match self {
            KeyRef::Unknown | KeyRef::Fingerprint(_) => None,
            KeyRef::Identifier(id) => Some(id),
            KeyRef::FullKey(key) => Some(xpub_identifier_of(key)),
        }
    }

    /// The serialised key that the reference gives, where it holds one.
    pub open spec fn full_key(self) -> Option<Seq<u8>> {
        match self {
            KeyRef::FullKey(key) => Some(key),
            _ => None,
        }
    }

    /// The text of what the reference holds, without a frame.
    pub open spec fn value_text(self) -> Seq<char> {
        match self {
            KeyRef::Unknown => Seq::empty(),
            KeyRef::Fingerprint(fp) => hex_lower(fp),
            KeyRef::Identifier(id) => hex_lower(id),
            KeyRef::FullKey(key) => xpub_text_of(key),
        }
    }

    /// The canonical text: empty for `Unknown`, else the value between `[`
    /// and `]`.
    pub open spec fn text(self) -> Seq<char> {
        match self {
            KeyRef::Unknown => Seq::empty(),
            _ => seq!['['] + self.value_text() + seq![']'],
        }
    }

    /// The alternate text: empty for `Unknown`, else the value between `=[`
    /// and `]`.
    pub open spec fn alt_text(self) -> Seq<char> {
        match self {
            KeyRef::Unknown => Seq::empty(),
            _ => seq!['=', '['] + self.value_text() + seq![']'],
        }
    }
}

/// A text without its frame: what stands between `=[` and `]`, or between `[`
/// and `]`; a text that no such pair frames is left as it is.
pub open spec fn unframed(s: Seq<char>) -> Seq<char> {
    if s.len() >= 3 && s[0] == '=' && s[1] == '[' && s[s.len() - 1] == ']' {
        s.subrange(2, s.len() - 1)
    } else if s.len() >= 2 && s[0] == '[' && s[s.len() - 1] == ']' {
        s.subrange(1, s.len() - 1)
    } else {
        s
    }
}

/// What a value without frame reads as: a fingerprint if it can, else an
/// identifier, else a full key, else nothing.
pub open spec fn parse_value(t: Seq<char>) -> Option<KeyRef> {
    if hex_decode(t, 4) is Some {
        Some(KeyRef::Fingerprint(hex_decode(t, 4)->0))
    } else if hex_decode(t, 20) is Some {
        Some(KeyRef::Identifier(hex_decode(t, 20)->0))
    } else if xpub_of_text(t) is Some {
        Some(KeyRef::FullKey(xpub_of_text(t)->0))
    } else {
        None
    }
}

/// What a text reads as: the empty text as `Unknown`, any other by its value
/// once the frame is off.
pub open spec fn parse_text(s: Seq<char>) -> Option<KeyRef> {
    if s.len() == 0 {
        Some(KeyRef::Unknown)
    } else {
        parse_value(unframed(s))
    }
}

/// A reference to an extended public key at some level of a derivation path.
#[derive(Copy, Clone, Ord, PartialOrd, Eq, PartialEq, Hash, Debug)]
pub enum XpubRef {
    /// The reference is not present.
    Unknown,
    /// The key is named by its fingerprint.
    Fingerprint(Fingerprint),
    /// The key is named by its identifier.
    XKeyIdentifier(XKeyIdentifier),
    /// The key itself.
    Xpub(Xpub),
}

impl View for XpubRef {
    type V = KeyRef;

    open spec fn view(&self) -> KeyRef {
        match *self {
            XpubRef::Unknown => KeyRef::Unknown,
            XpubRef::Fingerprint(fp) => KeyRef::Fingerprint(fp@),
            XpubRef::XKeyIdentifier(id) => KeyRef::Identifier(id@),
            XpubRef::Xpub(key) => KeyRef::FullKey(key@),
        }
    }
}

impl Default for XpubRef {
    fn default() -> (r: Self)
        ensures
            r == XpubRef::Unknown,
    {
        XpubRef::Unknown
    }
}

impl From<Fingerprint> for XpubRef {
    fn from(fp: Fingerprint) -> (r: XpubRef) {
        XpubRef::Fingerprint(fp)
    }
}

impl vstd::std_specs::convert::FromSpecImpl<Fingerprint> for XpubRef {
    open spec fn obeys_from_spec() -> bool {
        true
    }

    open spec fn from_spec(fp: Fingerprint) -> XpubRef {
        XpubRef::Fingerprint(fp)
    }
}

impl From<XKeyIdentifier> for XpubRef {
    fn from(id: XKeyIdentifier) -> (r: XpubRef) {
        XpubRef::XKeyIdentifier(id)
    }
}

impl vstd::std_specs::convert::FromSpecImpl<XKeyIdentifier> for XpubRef {
    open spec fn obeys_from_spec() -> bool {
        true
    }

    open spec fn from_spec(id: XKeyIdentifier) -> XpubRef {
        XpubRef::XKeyIdentifier(id)
    }
}

impl From<Xpub> for XpubRef {
    fn from(key: Xpub) -> (r: XpubRef) {
        XpubRef::Xpub(key)
    }
}

impl vstd::std_specs::convert::FromSpecImpl<Xpub> for XpubRef {
    open spec fn obeys_from_spec() -> bool {
        true
    }

    open spec fn from_spec(key: Xpub) -> XpubRef {
        XpubRef::Xpub(key)
    }
}

impl FromStr for XpubRef {
    type Err = Error;

    fn from_str(s: &str) -> (r: Result<XpubRef, Error>)
        ensures
            match r {
                Ok(x) => parse_text(s@) == Some(x@) && x@.is_valid(),
                Err(e) => parse_text(s@) is None && e == Error::InvalidFormat,
            },
    {
        XpubRef::from_str(s)
    }
}

impl XpubRef {
    /// Detects whether the reference is present: it is, unless it is `Unknown`.
    pub fn is_some(&self) -> (b: bool)
        ensures
            b == (*self != XpubRef::Unknown),
            b == !(self@ is Unknown),
    {
        match self {
            XpubRef::Unknown => false,
            _ => true,
        }
    }

    /// The fingerprint of the key, where the reference is present. For an
    /// identifier it is the identifier's first four bytes.
    pub fn fingerprint(&self) -> (r: Option<Fingerprint>)
        ensures
            match r {
                Some(fp) => self@.fingerprint() == Some(fp@),
                None => self@.fingerprint() is None,
            },
            r is Some == (*self != XpubRef::Unknown),
    {
        match self {
            XpubRef::Unknown => None,
            XpubRef::Fingerprint(fp) => Some(*fp),
            XpubRef::XKeyIdentifier(id) => {
                let fp = Fingerprint([id.0[0], id.0[1], id.0[2], id.0[3]]);
                assert(fp@ =~= id@.subrange(0, 4));
                Some(fp)
            },
            XpubRef::Xpub(key) => Some(key.fingerprint()),
        }
    }

    /// The identifier of the key, where the reference is an identifier or a
    /// full key.
    pub fn identifier(&self) -> (r: Option<XKeyIdentifier>)
        ensures
            match r {
                Some(id) => self@.identifier() == Some(id@),
                None => self@.identifier() is None,
            },
            r is Some == (*self is XKeyIdentifier || *self is Xpub),
    {
        match self {
            XpubRef::Unknown => None,
            XpubRef::Fingerprint(_) => None,
            XpubRef::XKeyIdentifier(id) => Some(*id),
            XpubRef::Xpub(key) => Some(key.identifier()),
        }
    }

    /// The key itself, where the reference is a full key.
    pub fn xpubkey(&self) -> (r: Option<Xpub>)
        ensures
            r == (match *self {
                XpubRef::Xpub(key) => Some(key),
                _ => None,
            }),
            match r {
                Some(key) => self@.full_key() == Some(key@),
                None => self@.full_key() is None,
            },
    {
        match self {
            XpubRef::Unknown => None,
            XpubRef::Fingerprint(_) => None,
            XpubRef::XKeyIdentifier(_) => None,
            XpubRef::Xpub(key) => Some(*key),
        }
    }

    /// Reads a reference from its text. The empty text is `Unknown`. Of any
    /// other the frame `=[`…`]` or `[`…`]` is taken off, and what is left is
    /// read as a fingerprint, else as an identifier, else as a full key. A
    /// text that is none of them is refused with `InvalidFormat`.
    pub fn from_str(s: &str) -> (r: Result<XpubRef, Error>)
        ensures
            match r {
                Ok(x) => parse_text(s@) == Some(x@) && x@.is_valid(),
                Err(e) => parse_text(s@) is None && e == Error::InvalidFormat,
            },
    {
        let n = s.unicode_len();
        if n == 0 {
            return Ok(XpubRef::Unknown);
        }
        let inner = if n >= 3 && s.get_char(0) == '=' && s.get_char(1) == '[' && s.get_char(n - 1)
            == ']' {
            s.substring_char(2, n - 1)
        } else if n >= 2 && s.get_char(0) == '[' && s.get_char(n - 1) == ']' {
            s.substring_char(1, n - 1)
        } else {
            s
        };
        assert(inner@ == unframed(s@));
        if let Some(fp) = fingerprint_from_text(inner) {
            return Ok(XpubRef::Fingerprint(fp));
        }
        if let Some(id) = identifier_from_text(inner) {
            return Ok(XpubRef::XKeyIdentifier(id));
        }
        match Xpub::from_text(inner) {
            Some(key) => Ok(XpubRef::Xpub(key)),
            None => Err(Error::InvalidFormat),
        }
    }

    /// The text of what the reference holds, without a frame.
    fn value_string(&self) -> (s: String)
        ensures
            s@ == self@.value_text(),
            self@.is_valid(),
            self@ matches KeyRef::FullKey(key) ==> xpub_text_reads_back(key),
    {
        match self {
            XpubRef::Unknown => String::new(),
            XpubRef::Fingerprint(fp) => fingerprint_text(fp),
            XpubRef::XKeyIdentifier(id) => identifier_text(id),
            XpubRef::Xpub(key) => key.to_text(),
        }
    }

    /// The canonical text of the reference: empty for `Unknown`, else the
    /// value between `[` and `]`. Reading the text gives the reference back.
    pub fn to_string(&self) -> (s: String)
        ensures
            s@ == self@.text(),
            parse_text(s@) == Some(self@),
    {
        let value = self.value_string();
        proof {
            lemma_text_round_trip(self@);
        }
        match self {
            XpubRef::Unknown => value,
            _ => {
                let mut s = "[".to_owned();
                s.append(value.as_str());
                s.append("]");
                proof {
                    reveal_strlit("[");
                    reveal_strlit("]");
                    assert("["@ =~= seq!['[']);
                    assert("]"@ =~= seq![']']);
                }
                s
            },
        }
    }

    /// The alternate text of the reference: empty for `Unknown`, else the
    /// value between `=[` and `]`. Reading the text gives the reference back.
    pub fn to_string_alt(&self) -> (s: String)
        ensures
            s@ == self@.alt_text(),
            parse_text(s@) == Some(self@),
    {
        let value = self.value_string();
        proof {
            lemma_text_round_trip(self@);
        }
        match self {
            XpubRef::Unknown => value,
            _ => {
                let mut s = "=[".to_owned();
                s.append(value.as_str());
                s.append("]");
                proof {
                    reveal_strlit("=[");
                    reveal_strlit("]");
                    assert("=["@ =~= seq!['=', '[']);
                    assert("]"@ =~= seq![']']);
                }
                s
            },
        }
    }
}

/// Two references that hold the same bytes are the same reference.
pub proof fn lemma_view_injective(a: XpubRef, b: XpubRef)
    requires
        a@ == b@,
    ensures
        a == b,
{
    match (a, b) {
        (XpubRef::Fingerprint(x), XpubRef::Fingerprint(y)) => {
            assert(x.0@ == y.0@);
            assert(x.0 == y.0);
        },
        (XpubRef::XKeyIdentifier(x), XpubRef::XKeyIdentifier(y)) => {
            assert(x.0@ == y.0@);
            assert(x.0 == y.0);
        },
        (XpubRef::Xpub(x), XpubRef::Xpub(y)) => {
            assert(x.bytes@ == y.bytes@);
            assert(x.bytes == y.bytes);
        },
        _ => {},
    }
}

/// A value between the frame `[`…`]` or `=[`…`]` is what is left once the
/// frame is off.
pub proof fn lemma_unframed_of_framed(v: Seq<char>)
    ensures
        unframed(seq!['['] + v + seq![']']) == v,
        unframed(seq!['=', '['] + v + seq![']']) == v,
{
    let a = seq!['['] + v + seq![']'];
    assert(a.len() == v.len() + 2);
    assert(a[0] == '[');
    assert(a[a.len() - 1] == ']');
    assert(a.subrange(1, a.len() - 1) =~= v);
    let b = seq!['=', '['] + v + seq![']'];
    assert(b.len() == v.len() + 3);
    assert(b[0] == '=');
    assert(b[1] == '[');
    assert(b[b.len() - 1] == ']');
    assert(b.subrange(2, b.len() - 1) =~= v);
}

/// Reading the text of a reference gives the reference back, in the
/// canonical form and in the alternate one. For a full key this rests on its
/// Base58Check text reading back as the key, which `Xpub::to_text` states of
/// every key it writes.
pub proof fn lemma_text_round_trip(k: KeyRef)
    requires
        k.is_valid(),
        k matches KeyRef::FullKey(key) ==> xpub_text_reads_back(key),
    ensures
        parse_text(k.text()) == Some(k),
        parse_text(k.alt_text()) == Some(k),
{
    let v = k.value_text();
    lemma_unframed_of_framed(v);
    match k {
        KeyRef::Unknown => {},
        KeyRef::Fingerprint(fp) => {
            lemma_hex_decode_lower(fp);
        },
        KeyRef::Identifier(id) => {
            lemma_hex_decode_lower(id);
            assert(hex_decode(v, 4) is None);
        },
        KeyRef::FullKey(key) => {
            assert(hex_decode(v, 4) is None);
            assert(hex_decode(v, 20) is None);
        },
    }
}

/// What a reference gives falls off with what it holds: a reference with a
/// full key has an identifier, one with an identifier has a fingerprint, one
/// with a fingerprint is not `Unknown`; and the fingerprint is always the
/// first four bytes of the identifier.
pub proof fn lemma_accessors_degrade(k: KeyRef)
    ensures
        k.full_key() is Some ==> k.identifier() is Some,
        k.identifier() is Some ==> k.fingerprint() is Some,
        k.fingerprint() is Some <==> !(k is Unknown),
        k.identifier() matches Some(id) ==> k.fingerprint() == Some(id.subrange(0, 4)),
        k.identifier() is Some <==> (k is Identifier || k is FullKey),
        k.full_key() is Some <==> k is FullKey,
{
}

} // verus!
