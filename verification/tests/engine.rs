//! Tests of the atom tree engine: scanning, skipping, parsing and writing.

use mp4ameta::{Atom, ByteStream, Content, Data, ErrorKind};

/// Frames a body as an atom: 4 byte big-endian length, 4 byte head, body.
fn atom_bytes(head: &[u8; 4], body: &[u8]) -> Vec<u8> {
    let len = (8 + body.len()) as u32;
    let mut out = Vec::new();
    out.extend_from_slice(&len.to_be_bytes());
    out.extend_from_slice(head);
    out.extend_from_slice(body);
    out
}

/// A typed data body: type code, locale, value bytes.
fn data_body(code: u32, locale: u32, value: &[u8]) -> Vec<u8> {
    let mut out = Vec::new();
    out.extend_from_slice(&code.to_be_bytes());
    out.extend_from_slice(&locale.to_be_bytes());
    out.extend_from_slice(value);
    out
}

#[test]
fn skip_exactness() {
    // two unrelated atoms of known lengths, then the wanted one: the scan
    // must consume exactly their declared lengths before the match
    let mut stream_bytes = atom_bytes(b"free", &[0xaa; 12]);
    stream_bytes.extend_from_slice(&atom_bytes(b"mdat", &[0xbb; 5]));
    stream_bytes.extend_from_slice(&atom_bytes(b"want", b"abc"));
    let total = stream_bytes.len();
    let mut stream = ByteStream::new(stream_bytes);
    let mut template = Atom::with(*b"want", 0, Content::RawData(Data::Unparsed));
    template.parse(&mut stream).unwrap();
    assert_eq!(stream.pos, total);
    match &template.content {
        Content::RawData(Data::Bytes(b)) => assert_eq!(b.as_slice(), b"abc"),
        other => panic!("unexpected content {:?}", other),
    }
}

#[test]
fn contentless_atom() {
    // a declared length of exactly 8 is an empty atom
    let stream_bytes = atom_bytes(b"want", b"");
    let mut stream = ByteStream::new(stream_bytes);
    let mut template = Atom::with(*b"want", 0, Content::RawData(Data::Unparsed));
    template.parse(&mut stream).unwrap();
    assert_eq!(stream.pos, 8);
    assert!(matches!(template.content, Content::Empty));
}

#[test]
fn budget_termination() {
    // three wanted siblings with two unrelated atoms interspersed: all
    // three match, and nothing beyond the last match is consumed
    let mut body = atom_bytes(b"aaaa", &data_body(1, 0, b"one"));
    body.extend_from_slice(&atom_bytes(b"skip", &[0x11; 9]));
    body.extend_from_slice(&atom_bytes(b"bbbb", &data_body(1, 0, b"two")));
    body.extend_from_slice(&atom_bytes(b"junk", &[0x22; 4]));
    body.extend_from_slice(&atom_bytes(b"cccc", &data_body(1, 0, b"three")));
    let total = body.len();
    let mut atoms = vec![
        Atom::with(*b"aaaa", 0, Content::TypedData(Data::Unparsed)),
        Atom::with(*b"bbbb", 0, Content::TypedData(Data::Unparsed)),
        Atom::with(*b"cccc", 0, Content::TypedData(Data::Unparsed)),
    ];
    let mut stream = ByteStream::new(body);
    Atom::parse_atoms(&mut atoms, &mut stream, total).unwrap();
    assert_eq!(stream.pos, total);
    for (atom, expected) in atoms.iter().zip([&b"one"[..], b"two", b"three"]) {
        match &atom.content {
            Content::TypedData(Data::Typed { code, locale, value }) => {
                assert_eq!(*code, 1);
                assert_eq!(*locale, 0);
                assert_eq!(value.as_slice(), expected);
            }
            other => panic!("unexpected content {:?}", other),
        }
    }
}

#[test]
fn early_stop_after_all_matched() {
    // once every template matched, the scan stops: trailing bytes stay
    let mut body = atom_bytes(b"aaaa", &data_body(1, 0, b"x"));
    let consumed = body.len();
    body.extend_from_slice(&atom_bytes(b"tail", &[0x33; 6]));
    let total = body.len();
    let mut atoms = vec![Atom::with(*b"aaaa", 0, Content::TypedData(Data::Unparsed))];
    let mut stream = ByteStream::new(body);
    Atom::parse_atoms(&mut atoms, &mut stream, total).unwrap();
    assert_eq!(stream.pos, consumed);
}

#[test]
fn tie_break_first_template_wins() {
    // two templates with the same head: the earlier one claims the atom
    let body = atom_bytes(b"same", &data_body(1, 0, b"claimed"));
    let total = body.len();
    let mut atoms = vec![
        Atom::with(*b"same", 0, Content::TypedData(Data::Unparsed)),
        Atom::with(*b"same", 0, Content::TypedData(Data::Unparsed)),
    ];
    let mut stream = ByteStream::new(body);
    Atom::parse_atoms(&mut atoms, &mut stream, total).unwrap();
    match &atoms[0].content {
        Content::TypedData(Data::Typed { value, .. }) => assert_eq!(value.as_slice(), b"claimed"),
        other => panic!("unexpected content {:?}", other),
    }
    assert!(matches!(atoms[1].content, Content::TypedData(Data::Unparsed)));
}

#[test]
fn duplicate_atom_skipped_as_already_matched() {
    // a second atom with an already matched head is skipped, the first
    // captured value stays
    let mut body = atom_bytes(b"aaaa", &data_body(1, 0, b"first"));
    body.extend_from_slice(&atom_bytes(b"aaaa", &data_body(1, 0, b"later")));
    body.extend_from_slice(&atom_bytes(b"bbbb", &data_body(1, 0, b"other")));
    let total = body.len();
    let mut atoms = vec![
        Atom::with(*b"aaaa", 0, Content::TypedData(Data::Unparsed)),
        Atom::with(*b"bbbb", 0, Content::TypedData(Data::Unparsed)),
    ];
    let mut stream = ByteStream::new(body);
    Atom::parse_atoms(&mut atoms, &mut stream, total).unwrap();
    match &atoms[0].content {
        Content::TypedData(Data::Typed { value, .. }) => assert_eq!(value.as_slice(), b"first"),
        other => panic!("unexpected content {:?}", other),
    }
    match &atoms[1].content {
        Content::TypedData(Data::Typed { value, .. }) => assert_eq!(value.as_slice(), b"other"),
        other => panic!("unexpected content {:?}", other),
    }
}

#[test]
fn unknown_tolerance() {
    // an unknown fourcc between two known ones is silently skipped and
    // both known values still come through
    let mut body = atom_bytes(b"aaaa", &data_body(1, 0, b"left"));
    body.extend_from_slice(&atom_bytes(b"wild", &[0x5a; 11]));
    body.extend_from_slice(&atom_bytes(b"bbbb", &data_body(1, 0, b"right")));
    let total = body.len();
    let mut atoms = vec![
        Atom::with(*b"aaaa", 0, Content::TypedData(Data::Unparsed)),
        Atom::with(*b"bbbb", 0, Content::TypedData(Data::Unparsed)),
    ];
    let mut stream = ByteStream::new(body);
    Atom::parse_atoms(&mut atoms, &mut stream, total).unwrap();
    assert_eq!(stream.pos, total);
    match &atoms[0].content {
        Content::TypedData(Data::Typed { value, .. }) => assert_eq!(value.as_slice(), b"left"),
        other => panic!("unexpected content {:?}", other),
    }
    match &atoms[1].content {
        Content::TypedData(Data::Typed { value, .. }) => assert_eq!(value.as_slice(), b"right"),
        other => panic!("unexpected content {:?}", other),
    }
}

#[test]
fn round_trip() {
    // a container holding a typed data leaf and a freeform triple encodes,
    // parses into a matching template, and encodes back byte-identically
    let original = Atom::with(
        *b"ilst",
        0,
        Content::Atoms(vec![
            Atom::with(
                *b"\xa9nam",
                0,
                Content::Atoms(vec![Atom::data_atom_with(Data::Typed {
                    code: 1,
                    locale: 0,
                    value: b"A TITLE".to_vec(),
                })]),
            ),
            Atom::freeform_atom(
                b"com.apple.iTunes".to_vec(),
                b"ISRC".to_vec(),
                Data::Typed {
                    code: 1,
                    locale: 0,
                    value: b"US-XYZ-99-00001".to_vec(),
                },
            ),
        ]),
    );
    let bytes = original.encode().unwrap();

    let mut template = Atom::with(
        *b"ilst",
        0,
        Content::Atoms(vec![
            Atom::with(*b"\xa9nam", 0, Content::data_atom()),
            Atom::with(
                *b"----",
                0,
                Content::Atoms(vec![
                    Atom::with(*b"mean", 4, Content::RawData(Data::Unparsed)),
                    Atom::with(*b"name", 4, Content::RawData(Data::Unparsed)),
                    Atom::data_atom(),
                ]),
            ),
        ]),
    );
    let mut stream = ByteStream::new(bytes.clone());
    template.parse(&mut stream).unwrap();
    assert_eq!(stream.pos, bytes.len());
    let rewritten = template.encode().unwrap();
    assert_eq!(rewritten, bytes);
}

#[test]
fn encode_exact_bytes() {
    // the writer computes the length prefix bottom-up: 8 header bytes plus
    // 8 bytes of code and locale plus the value
    let atom = Atom::data_atom_with(Data::Typed {
        code: 1,
        locale: 0,
        value: b"hi".to_vec(),
    });
    let bytes = atom.encode().unwrap();
    let expected: Vec<u8> = vec![
        0, 0, 0, 18, b'd', b'a', b't', b'a', 0, 0, 0, 1, 0, 0, 0, 0, b'h', b'i',
    ];
    assert_eq!(bytes, expected);
}

#[test]
fn encode_offset_as_zeros() {
    // the offset gap is written back as zero bytes
    let atom = Atom::with(*b"meta", 4, Content::Empty);
    let bytes = atom.encode().unwrap();
    let expected: Vec<u8> = vec![0, 0, 0, 12, b'm', b'e', b't', b'a', 0, 0, 0, 0];
    assert_eq!(bytes, expected);
}

#[test]
fn encode_oversized_offset_rejected() {
    let atom = Atom::with(*b"big ", 0xFFFF_FFFF, Content::Empty);
    let err = atom.encode().unwrap_err();
    assert_eq!(err.kind, ErrorKind::BoundsExceeded);
}

#[test]
fn oversized_atom_rejected() {
    // a declared length larger than the remaining stream must fail with a
    // bounds error, not desynchronize
    let mut bytes = Vec::new();
    bytes.extend_from_slice(&100u32.to_be_bytes());
    bytes.extend_from_slice(b"free");
    bytes.extend_from_slice(&[0u8; 10]);
    let mut stream = ByteStream::new(bytes);
    let mut template = Atom::with(*b"want", 0, Content::RawData(Data::Unparsed));
    let err = template.parse(&mut stream).unwrap_err();
    assert_eq!(err.kind, ErrorKind::BoundsExceeded);
}

#[test]
fn sibling_overrunning_budget_rejected() {
    // a sibling declaring more bytes than the parent budget that remains
    // is a bounds error, even when the stream itself holds the bytes
    let body = atom_bytes(b"aaaa", &[0x44; 8]);
    assert_eq!(body.len(), 16);
    let mut padded = body.clone();
    padded.extend_from_slice(&[0x55; 16]);
    let mut atoms = vec![Atom::with(*b"aaaa", 0, Content::TypedData(Data::Unparsed))];
    let mut stream = ByteStream::new(padded);
    let err = Atom::parse_atoms(&mut atoms, &mut stream, 10).unwrap_err();
    assert_eq!(err.kind, ErrorKind::BoundsExceeded);
    // the template list keeps its shape on the failing scan
    assert_eq!(atoms.len(), 1);
    assert_eq!(atoms[0].head, *b"aaaa");
}

#[test]
fn parse_head_eof() {
    let mut stream = ByteStream::new(vec![0, 0, 0, 9]);
    let err = Atom::parse_head(&mut stream).unwrap_err();
    assert_eq!(err.kind, ErrorKind::UnexpectedEof);
}

#[test]
fn absent_atom_reported_not_found() {
    let bytes = atom_bytes(b"free", &[0; 4]);
    let mut stream = ByteStream::new(bytes);
    let mut template = Atom::with(*b"want", 0, Content::RawData(Data::Unparsed));
    let err = template.parse(&mut stream).unwrap_err();
    assert_eq!(err.kind, ErrorKind::AtomNotFound(*b"want"));
    // the absent field is recoverable: the template is untouched
    assert_eq!(template.head, *b"want");
    assert_eq!(template.offset, 0);
    assert!(matches!(template.content, Content::RawData(Data::Unparsed)));
}

#[test]
fn meta_offset_skips_version_flags() {
    // an atom with a 4 byte offset hands only the bytes behind it to its
    // children
    let inner = atom_bytes(b"aaaa", &data_body(1, 0, b"v"));
    let mut body = vec![0u8, 0, 0, 0];
    body.extend_from_slice(&inner);
    let bytes = atom_bytes(b"meta", &body);
    let total = bytes.len();
    let mut template = Atom::with(
        *b"meta",
        4,
        Content::Atoms(vec![Atom::with(*b"aaaa", 0, Content::TypedData(Data::Unparsed))]),
    );
    let mut stream = ByteStream::new(bytes);
    template.parse(&mut stream).unwrap();
    assert_eq!(stream.pos, total);
    let child = template.first_child().unwrap();
    match &child.content {
        Content::TypedData(Data::Typed { value, .. }) => assert_eq!(value.as_slice(), b"v"),
        other => panic!("unexpected content {:?}", other),
    }
}

#[test]
fn rejection_wrong_brand() {
    // a well framed ftyp whose text is another flavor gives NoTag
    let mut bytes = atom_bytes(b"ftyp", b"isom\x00\x00\x02\x00isomiso2");
    bytes.extend_from_slice(&atom_bytes(b"moov", b""));
    let mut stream = ByteStream::new(bytes);
    let err = Atom::read_from(&mut stream).unwrap_err();
    assert_eq!(err.kind, ErrorKind::NoTag);
}

#[test]
fn rejection_truncated_after_ftyp() {
    // a valid ftyp then end of stream: the missing moov is reported by name
    let bytes = atom_bytes(b"ftyp", b"M4A \x00\x00\x02\x00");
    let mut stream = ByteStream::new(bytes);
    let err = Atom::read_from(&mut stream).unwrap_err();
    assert_eq!(err.kind, ErrorKind::AtomNotFound(*b"moov"));
}

#[test]
fn read_tag_from_synthetic_file() {
    // a synthetic file with a title tag: the canonical template finds it
    let data_atom = atom_bytes(b"data", &data_body(1, 0, b"TEST TITLE"));
    let nam = atom_bytes(b"\xa9nam", &data_atom);
    let ilst = atom_bytes(b"ilst", &nam);
    let mut meta_body = vec![0u8, 0, 0, 0];
    meta_body.extend_from_slice(&ilst);
    let meta = atom_bytes(b"meta", &meta_body);
    let udta = atom_bytes(b"udta", &meta);
    let moov = atom_bytes(b"moov", &udta);
    let mut file = atom_bytes(b"ftyp", b"M4A \x00\x00\x02\x00");
    file.extend_from_slice(&moov);

    let mut stream = ByteStream::new(file);
    let tag = Atom::read_from(&mut stream).unwrap();
    assert_eq!(tag.atom.head, *b"moov");
    let udta_atom = tag.atom.first_child().unwrap();
    let meta_atom = udta_atom.first_child().unwrap();
    let ilst_atom = meta_atom.first_child().unwrap();
    let children = match &ilst_atom.content {
        Content::Atoms(v) => v,
        other => panic!("unexpected content {:?}", other),
    };
    let title = children.iter().find(|a| a.head == *b"\xa9nam").unwrap();
    let title_data = title.first_child().unwrap();
    match &title_data.content {
        Content::TypedData(Data::Typed { code, locale, value }) => {
            assert_eq!(*code, 1);
            assert_eq!(*locale, 0);
            assert_eq!(value.as_slice(), b"TEST TITLE");
        }
        other => panic!("unexpected content {:?}", other),
    }
}

#[test]
fn is_valid_filetype_brands() {
    let yes = Atom::with(*b"ftyp", 0, Content::RawData(Data::Bytes(b"M4B mark".to_vec())));
    assert!(yes.is_valid_filetype());
    let no = Atom::with(*b"ftyp", 0, Content::RawData(Data::Bytes(b"isom".to_vec())));
    assert!(!no.is_valid_filetype());
    let short = Atom::with(*b"ftyp", 0, Content::RawData(Data::Bytes(b"M4A".to_vec())));
    assert!(!short.is_valid_filetype());
}

#[test]
fn malformed_typed_data_left_absent() {
    // a typed data body shorter than its 8 byte header is non fatal: the
    // field is left absent and the scan continues
    let mut body = atom_bytes(b"aaaa", &atom_bytes(b"data", &[1, 2, 3]));
    body.extend_from_slice(&atom_bytes(b"bbbb", &data_body(1, 0, b"ok")));
    let total = body.len();
    let mut atoms = vec![
        Atom::with(*b"aaaa", 0, Content::data_atom()),
        Atom::with(*b"bbbb", 0, Content::TypedData(Data::Unparsed)),
    ];
    let mut stream = ByteStream::new(body);
    Atom::parse_atoms(&mut atoms, &mut stream, total).unwrap();
    let inner = atoms[0].first_child().unwrap();
    assert!(matches!(inner.content, Content::Empty));
    match &atoms[1].content {
        Content::TypedData(Data::Typed { value, .. }) => assert_eq!(value.as_slice(), b"ok"),
        other => panic!("unexpected content {:?}", other),
    }
}

#[test]
fn mut_first_child_edits_in_place() {
    let mut atom = Atom::with(
        *b"ilst",
        0,
        Content::Atoms(vec![Atom::data_atom(), Atom::data_atom()]),
    );
    {
        let child = atom.mut_first_child().unwrap();
        child.content = Content::TypedData(Data::Typed {
            code: 1,
            locale: 0,
            value: b"new".to_vec(),
        });
    }
    let child = atom.first_child().unwrap();
    match &child.content {
        Content::TypedData(Data::Typed { value, .. }) => assert_eq!(value.as_slice(), b"new"),
        other => panic!("unexpected content {:?}", other),
    }
    let none = Atom::new();
    assert!(none.first_child().is_none());
}

#[test]
fn duplicated_template_parses_independently() {
    // one canonical template is never parsed into twice: each parse gets a
    // fresh copy, and the copies do not share state
    let template = Atom::with(*b"aaaa", 0, Content::data_atom());
    let mut first = template.duplicate();
    let mut second = template.duplicate();

    let body_one = atom_bytes(b"aaaa", &atom_bytes(b"data", &data_body(1, 0, b"one")));
    let body_two = atom_bytes(b"aaaa", &atom_bytes(b"data", &data_body(1, 0, b"two")));
    let mut stream_one = ByteStream::new(body_one);
    let mut stream_two = ByteStream::new(body_two);
    first.parse(&mut stream_one).unwrap();
    second.parse(&mut stream_two).unwrap();

    let one = first.first_child().unwrap();
    match &one.content {
        Content::TypedData(Data::Typed { value, .. }) => assert_eq!(value.as_slice(), b"one"),
        other => panic!("unexpected content {:?}", other),
    }
    let two = second.first_child().unwrap();
    match &two.content {
        Content::TypedData(Data::Typed { value, .. }) => assert_eq!(value.as_slice(), b"two"),
        other => panic!("unexpected content {:?}", other),
    }
    // the template itself is untouched
    let t = template.first_child().unwrap();
    assert!(matches!(t.content, Content::TypedData(Data::Unparsed)));
}

#[test]
fn metadata_template_shape() {
    let moov = Atom::metadata_atom();
    assert_eq!(moov.head, *b"moov");
    let udta = moov.first_child().unwrap();
    assert_eq!(udta.head, *b"udta");
    let meta = udta.first_child().unwrap();
    assert_eq!(meta.head, *b"meta");
    assert_eq!(meta.offset, 4);
    let ilst = meta.first_child().unwrap();
    assert_eq!(ilst.head, *b"ilst");
    match &ilst.content {
        Content::Atoms(v) => assert_eq!(v.len(), 33),
        other => panic!("unexpected content {:?}", other),
    }
    let ftyp = Atom::filetype_atom();
    assert_eq!(ftyp.head, *b"ftyp");
}
