//! Tests of the identifier model and the friendly name table.

use mp4ameta::ident::{APPLE_ITUNES_MEAN, TITLE};
use mp4ameta::{idents_match, DataIdent, Fourcc, FreeformIdent};

#[test]
fn freeform_identity() {
    let a = FreeformIdent::new("com.apple.iTunes", "ISRC");
    let b = FreeformIdent::new("com.apple.iTunes", "ISRC");
    let c = FreeformIdent::new("com.apple.iTunes", "LYRICIST");
    let d = FreeformIdent::new("org.example", "ISRC");
    assert_eq!(a, b);
    assert_ne!(a, c);
    assert_ne!(a, d);
}

#[test]
fn fourcc_never_equals_freeform() {
    // not even when the fourcc spells out the freeform marker
    let code = Fourcc(*b"----");
    let free = FreeformIdent::new("com.apple.iTunes", "ISRC");
    assert!(!idents_match(&code, &free));
    assert!(!idents_match(&free, &code));
    let owned = DataIdent::freeform("com.apple.iTunes", "ISRC");
    assert!(!idents_match(&code, &owned));
    assert!(idents_match(&free, &owned));
}

#[test]
fn idents_match_across_representations() {
    let code = Fourcc(*b"\xa9nam");
    let owned = DataIdent::fourcc(*b"\xa9nam");
    let other = DataIdent::fourcc(*b"\xa9alb");
    assert!(idents_match(&code, &owned));
    assert!(!idents_match(&code, &other));
    assert!(idents_match(&owned, &owned));
    // the identifier shapes compare directly against the owned union too
    assert!(code == owned);
    assert!(!(code == other));
    let free = FreeformIdent::new("com.apple.iTunes", "ISRC");
    assert!(free == DataIdent::freeform("com.apple.iTunes", "ISRC"));
    assert!(!(free == owned));
}

#[test]
fn fourcc_from_text() {
    let ok = Fourcc::from_text("moov").unwrap();
    assert_eq!(ok.0, *b"moov");
    let err = Fourcc::from_text("abc").unwrap_err();
    assert_eq!(err.kind, mp4ameta::ErrorKind::InvalidIdentifierLength);
    let err2 = Fourcc::from_text("toolong").unwrap_err();
    assert_eq!(err2.kind, mp4ameta::ErrorKind::InvalidIdentifierLength);
}

#[test]
fn friendly_name_lookup() {
    let title = DataIdent::fourcc(TITLE);
    assert_eq!(title.friendly_name().unwrap(), "Title");
    let isrc = DataIdent::freeform(APPLE_ITUNES_MEAN, "ISRC");
    assert_eq!(isrc.friendly_name().unwrap(), "Isrc");
    let unknown = DataIdent::fourcc(*b"zzzz");
    assert!(unknown.friendly_name().is_none());
}

#[test]
fn from_friendly_name_lookup() {
    let title = DataIdent::from_friendly_name("Title").unwrap();
    assert_eq!(title, DataIdent::fourcc(*b"\xa9nam"));
    let isrc = DataIdent::from_friendly_name("Isrc").unwrap();
    assert_eq!(isrc, DataIdent::freeform("com.apple.iTunes", "ISRC"));
    assert!(DataIdent::from_friendly_name("No Such Field").is_none());
}

#[test]
fn friendly_name_round_trip() {
    for name in ["Album", "Artist", "Title", "Year", "Isrc", "Lyricist", "Movie"] {
        let ident = DataIdent::from_friendly_name(name).unwrap();
        assert_eq!(ident.friendly_name().unwrap(), name);
    }
}
