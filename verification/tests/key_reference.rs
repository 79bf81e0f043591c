use psbt_core::{Error, ErrorKind, Fingerprint, PsbtVersion, XKeyIdentifier, Xpub, XpubRef};

const MASTER_XPUB: &str = "xpub661MyMwAqRbcFtXgS5sYJABqqG9YLmC4Q1Rdap9gSE8NqtwybGhePY2gZ29ESFjqJoCu1Rupje8YtGqsefD265TMg7usUDFdp6W1EGMcet8";
const MASTER_ID: [u8; 20] = [
    0x34, 0x42, 0x19, 0x3e, 0x1b, 0xb7, 0x09, 0x16, 0xe9, 0x14, 0x55, 0x21, 0x72, 0xcd, 0x4e, 0x2d,
    0xbc, 0x9d, 0xf8, 0x11,
];

fn master() -> Xpub {
    Xpub::from_text(MASTER_XPUB).expect("a key of the BIP 32 test vectors")
}

#[test]
fn empty_text_is_unknown() {
    assert_eq!(XpubRef::from_str(""), Ok(XpubRef::Unknown));
    assert_eq!(XpubRef::Unknown.to_string(), "");
    assert_eq!(XpubRef::Unknown.to_string_alt(), "");
    assert_eq!(XpubRef::default(), XpubRef::Unknown);
}

#[test]
fn presence_of_each_variant() {
    assert!(!XpubRef::Unknown.is_some());
    assert!(XpubRef::Fingerprint(Fingerprint([1, 2, 3, 4])).is_some());
    assert!(XpubRef::XKeyIdentifier(XKeyIdentifier(MASTER_ID)).is_some());
    assert!(XpubRef::Xpub(master()).is_some());
}

#[test]
fn fingerprint_text_in_every_frame() {
    let want = XpubRef::Fingerprint(Fingerprint([0x34, 0x42, 0x19, 0x3e]));
    assert_eq!(XpubRef::from_str("[3442193e]"), Ok(want));
    assert_eq!(XpubRef::from_str("=[3442193e]"), Ok(want));
    assert_eq!(XpubRef::from_str("3442193e"), Ok(want));
    assert_eq!(XpubRef::from_str("[3442193E]"), Ok(want));
    assert_eq!(want.to_string(), "[3442193e]");
    assert_eq!(want.to_string_alt(), "=[3442193e]");
}

#[test]
fn identifier_text_and_accessors() {
    let text = "[3442193e1bb70916e914552172cd4e2dbc9df811]";
    let want = XpubRef::XKeyIdentifier(XKeyIdentifier(MASTER_ID));
    assert_eq!(XpubRef::from_str(text), Ok(want));
    assert_eq!(want.to_string(), text);
    assert_eq!(want.identifier(), Some(XKeyIdentifier(MASTER_ID)));
    assert_eq!(want.fingerprint(), Some(Fingerprint([0x34, 0x42, 0x19, 0x3e])));
    assert_eq!(want.xpubkey(), None);
}

#[test]
fn full_key_text_and_accessors() {
    let key = master();
    let want = XpubRef::Xpub(key);
    let text = format!("[{}]", MASTER_XPUB);
    assert_eq!(XpubRef::from_str(&text), Ok(want));
    assert_eq!(XpubRef::from_str(MASTER_XPUB), Ok(want));
    assert_eq!(want.to_string(), text);
    assert_eq!(want.to_string_alt(), format!("=[{}]", MASTER_XPUB));
    assert_eq!(want.xpubkey(), Some(key));
    assert_eq!(want.identifier(), Some(XKeyIdentifier(MASTER_ID)));
    assert_eq!(want.fingerprint(), Some(Fingerprint([0x34, 0x42, 0x19, 0x3e])));
    assert_eq!(key.identifier(), XKeyIdentifier(MASTER_ID));
    assert_eq!(key.fingerprint(), Fingerprint([0x34, 0x42, 0x19, 0x3e]));
}

#[test]
fn accessors_fall_off_with_what_is_held() {
    let fp = XpubRef::Fingerprint(Fingerprint([9, 8, 7, 6]));
    assert_eq!(fp.fingerprint(), Some(Fingerprint([9, 8, 7, 6])));
    assert_eq!(fp.identifier(), None);
    assert_eq!(fp.xpubkey(), None);
    assert_eq!(XpubRef::Unknown.fingerprint(), None);
    assert_eq!(XpubRef::Unknown.identifier(), None);
    assert_eq!(XpubRef::Unknown.xpubkey(), None);
}

#[test]
fn text_round_trip_for_every_variant() {
    let all = [
        XpubRef::Unknown,
        XpubRef::Fingerprint(Fingerprint([0, 0xff, 0x10, 0xab])),
        XpubRef::XKeyIdentifier(XKeyIdentifier(MASTER_ID)),
        XpubRef::Xpub(master()),
    ];
    for r in all {
        assert_eq!(XpubRef::from_str(&r.to_string()), Ok(r));
        assert_eq!(XpubRef::from_str(&r.to_string_alt()), Ok(r));
        assert_eq!(r.to_string().parse::<XpubRef>(), Ok(r));
    }
}

#[test]
fn texts_that_are_no_reference() {
    for text in ["[", "=[", "[]", "=[]", "[zz]", "[3442193e", "3442193", "[3442193e1b]", "xpub", "[é]"] {
        let got = XpubRef::from_str(text);
        assert_eq!(got, Err(Error::InvalidFormat), "{}", text);
        assert_eq!(Error::InvalidFormat.kind(), ErrorKind::Format);
    }
}

#[test]
fn key_serialisation_round_trip() {
    let key = master();
    let bytes = key.encode();
    assert_eq!(bytes.len(), 78);
    assert_eq!(&bytes[0..4], &[0x04, 0x88, 0xb2, 0x1e]);
    assert_eq!(Xpub::decode(&bytes), Some(key));
    assert_eq!(Xpub::decode(&bytes[..77]), None);
    let mut wrong = bytes;
    wrong[0] = 0;
    assert_eq!(Xpub::decode(&wrong), None);
    assert_eq!(key.to_text(), MASTER_XPUB);
}

#[test]
fn references_from_their_parts() {
    let fp = Fingerprint([1, 2, 3, 4]);
    assert_eq!(XpubRef::from(fp), XpubRef::Fingerprint(fp));
    let id = XKeyIdentifier(MASTER_ID);
    assert_eq!(XpubRef::from(id), XpubRef::XKeyIdentifier(id));
    let key = master();
    assert_eq!(XpubRef::from(key), XpubRef::Xpub(key));
}

#[test]
fn references_are_totally_ordered() {
    let a = XpubRef::Unknown;
    let b = XpubRef::Fingerprint(Fingerprint([0, 0, 0, 1]));
    let c = XpubRef::Fingerprint(Fingerprint([0, 0, 0, 2]));
    let d = XpubRef::XKeyIdentifier(XKeyIdentifier([0; 20]));
    let e = XpubRef::Xpub(master());
    assert!(a < b && b < c && c < d && d < e);
}

#[test]
fn version_defaults_to_v2() {
    assert_eq!(PsbtVersion::default(), PsbtVersion::V2);
    assert_eq!(PsbtVersion::V0.to_u32(), 0);
    assert_eq!(PsbtVersion::V2.to_u32(), 2);
    assert_eq!(PsbtVersion::from_u32(0), Some(PsbtVersion::V0));
    assert_eq!(PsbtVersion::from_u32(2), Some(PsbtVersion::V2));
    assert_eq!(PsbtVersion::from_u32(1), None);
    assert!(PsbtVersion::V0 < PsbtVersion::V2);
}
