//! The atom tree engine.
//!
//! An `Atom` doubles as a template driving a parse and as the result holding
//! parsed values: the engine matches a template tree against the atoms
//! actually present in a byte stream, skips everything else byte-exactly,
//! and fills the template's content in place. The writer is the dual: it
//! serializes a tree depth-first, computing each atom's 4 byte length prefix
//! bottom-up from its encoded children.

use vstd::prelude::*;

use crate::error::{error_rep, Error, ErrorKind, ErrorRep};
use crate::ident;
use crate::stream::{be32, be32_bytes, ByteStream};

verus! {

/// (`M4A `) A file type brand accepted as MPEG-4 audio.
pub const FILE_TYPE_M4A: [u8; 4] = [0x4d, 0x34, 0x41, 0x20];
/// (`M4B `) A file type brand accepted as MPEG-4 audio.
pub const FILE_TYPE_M4B: [u8; 4] = [0x4d, 0x34, 0x42, 0x20];

/// The payload handed to or received from the typed data collaborator.
///
/// The core does not interpret payload bytes: a `data` atom's 8 byte type
/// code and locale header is split off, everything else passes through
/// unchanged, so unknown tags round-trip byte-exactly.
#[derive(Clone, Debug)]
pub enum Data {
    /// A template placeholder: no payload yet.
    Unparsed,
    /// Opaque raw bytes, e.g. the `ftyp` brand text or a freeform mean or
    /// name string.
    Bytes(Vec<u8>),
    /// A typed `data` payload: type code, locale, and the value bytes.
    Typed {
        /// The type code selecting how the value bytes are interpreted.
        code: u32,
        /// The locale indicator.
        locale: u32,
        /// The value bytes.
        value: Vec<u8>,
    },
}

/// The content of an atom.
#[derive(Debug)]
pub enum Content {
    /// The atom has no meaningful payload.
    Empty,
    /// An opaque or typed payload interpreted outside the core.
    RawData(Data),
    /// The payload is the generic typed `data` sub-atom.
    TypedData(Data),
    /// The payload is a sequence of child atoms; list order is the match
    /// priority order, not necessarily stream order.
    Atoms(Vec<Atom>),
}

/// A structure that represents an MPEG-4 audio metadata atom.
#[derive(Debug)]
pub struct Atom {
    /// The 4 byte identifier of the atom.
    pub head: [u8; 4],
    /// The offset in bytes separating the head from the content.
    pub offset: usize,
    /// The content of the atom.
    pub content: Content,
}

/// The mathematical shape of a data payload.
#[verifier::ext_equal]
pub enum DataView {
    /// No payload yet.
    Unparsed,
    /// Opaque raw bytes.
    Bytes(Seq<u8>),
    /// A typed payload: type code, locale, value bytes.
    Typed {
        /// The type code.
        code: u32,
        /// The locale indicator.
        locale: u32,
        /// The value bytes.
        value: Seq<u8>,
    },
}

/// The mathematical shape of an atom's content.
#[verifier::ext_equal]
pub enum ContentView {
    /// No payload.
    Empty,
    /// An opaque or typed payload.
    RawData(DataView),
    /// The generic typed `data` sub-atom.
    TypedData(DataView),
    /// A sequence of child atoms.
    Atoms(Seq<AtomView>),
}

/// The mathematical shape of an atom.
#[verifier::ext_equal]
pub struct AtomView {
    /// The 4 byte identifier.
    pub head: Seq<u8>,
    /// The bytes separating the head from the content.
    pub offset: nat,
    /// The content.
    pub content: ContentView,
}

/// The shape of a data payload.
pub open spec fn data_view(d: Data) -> DataView {
    match d {
        Data::Unparsed => DataView::Unparsed,
        Data::Bytes(b) => DataView::Bytes(b@),
        Data::Typed { code, locale, value } => DataView::Typed { code, locale, value: value@ },
    }
}

/// The shape of an atom's content.
pub open spec fn content_view(c: Content) -> ContentView
    decreases c,
{
    match c {
        Content::Empty => ContentView::Empty,
        Content::RawData(d) => ContentView::RawData(data_view(d)),
        Content::TypedData(d) => ContentView::TypedData(data_view(d)),
        Content::Atoms(v) => ContentView::Atoms(atoms_view(v@)),
    }
}

/// The shapes of a sequence of atoms, in order.
pub open spec fn atoms_view(s: Seq<Atom>) -> Seq<AtomView>
    decreases s,
{
    if s.len() == 0 {
        Seq::empty()
    } else {
        seq![atom_view(s[0])] + atoms_view(s.subrange(1, s.len() as int))
    }
}

/// The shape of an atom.
pub open spec fn atom_view(a: Atom) -> AtomView
    decreases a,
{
    AtomView { head: a.head@, offset: a.offset as nat, content: content_view(a.content) }
}

impl View for Atom {
    type V = AtomView;

    open spec fn view(&self) -> AtomView {
        atom_view(*self)
    }
}

impl View for Content {
    type V = ContentView;

    open spec fn view(&self) -> ContentView {
        content_view(*self)
    }
}

impl View for Data {
    type V = DataView;

    open spec fn view(&self) -> DataView {
        data_view(*self)
    }
}

/// A sequence of atoms is viewed pointwise, in order.
pub proof fn lemma_atoms_view_index(s: Seq<Atom>)
    ensures
        atoms_view(s).len() == s.len(),
        forall|i: int| 0 <= i < s.len() ==> atoms_view(s)[i] == atom_view(s[i]),
    decreases s,
{
    if s.len() > 0 {
        lemma_atoms_view_index(s.subrange(1, s.len() as int));
        assert forall|i: int| 0 <= i < s.len() implies atoms_view(s)[i] == atom_view(s[i]) by {
            if i > 0 {
                assert(s.subrange(1, s.len() as int)[i - 1] == s[i]);
            }
        }
    }
}

/// Appending an atom to a sequence appends its shape to the view.
pub proof fn lemma_atoms_view_push(s: Seq<Atom>, a: Atom)
    ensures
        atoms_view(s.push(a)) == atoms_view(s).push(atom_view(a)),
    decreases s,
{
    let p = s.push(a);
    if s.len() == 0 {
        assert(p[0] == a);
        assert(p.subrange(1, p.len() as int) =~= Seq::<Atom>::empty());
        assert(atoms_view(p) == seq![atom_view(a)] + atoms_view(Seq::<Atom>::empty()));
        assert(atoms_view(s) =~= Seq::<AtomView>::empty());
        assert(atoms_view(p) =~= atoms_view(s).push(atom_view(a)));
    } else {
        let tail = s.subrange(1, s.len() as int);
        assert(p.subrange(1, p.len() as int) =~= tail.push(a));
        lemma_atoms_view_push(tail, a);
        assert(p[0] == s[0]);
        assert(atoms_view(p) == seq![atom_view(s[0])] + atoms_view(tail).push(atom_view(a)));
        assert(atoms_view(s) == seq![atom_view(s[0])] + atoms_view(tail));
        assert(seq![atom_view(s[0])] + atoms_view(tail).push(atom_view(a)) =~= (seq![
            atom_view(s[0]),
        ] + atoms_view(tail)).push(atom_view(a)));
    }
}

/// A run of zero bytes, as written for an atom's offset gap.
pub open spec fn zeros(n: nat) -> Seq<u8> {
    Seq::new(n, |i: int| 0u8)
}

/// The encoded bytes of a data payload.
pub open spec fn spec_encode_data(d: DataView) -> Seq<u8> {
    match d {
        DataView::Unparsed => Seq::empty(),
        DataView::Bytes(b) => b,
        DataView::Typed { code, locale, value } => be32_bytes(code as nat) + be32_bytes(
            locale as nat,
        ) + value,
    }
}

/// The encoded bytes of an atom's content.
pub open spec fn spec_encode_content(c: ContentView) -> Seq<u8>
    decreases c, 0int,
{
    match c {
        ContentView::Empty => Seq::empty(),
        ContentView::RawData(d) => spec_encode_data(d),
        ContentView::TypedData(d) => spec_encode_data(d),
        ContentView::Atoms(s) => spec_encode_list(s),
    }
}

/// The encoded bytes of a sequence of atoms, in order.
pub open spec fn spec_encode_list(s: Seq<AtomView>) -> Seq<u8>
    decreases s, 0int,
{
    if s.len() == 0 {
        Seq::empty()
    } else {
        spec_encode(s[0]) + spec_encode_list(s.subrange(1, s.len() as int))
    }
}

/// The total encoded length of an atom: the 8 byte size and head prefix,
/// the offset gap, and the content.
pub open spec fn spec_encoded_len(a: AtomView) -> int
    decreases a, 0int,
{
    8 + a.offset + spec_encode_content(a.content).len() as int
}

/// The encoded bytes of an atom: a 4 byte big-endian length, the 4 byte
/// head, `offset` zero bytes, then the content. The length is computed
/// bottom-up from the encoded content, never estimated in advance.
pub open spec fn spec_encode(a: AtomView) -> Seq<u8>
    decreases a, 1int,
{
    be32_bytes(spec_encoded_len(a) as nat) + a.head + zeros(a.offset) + spec_encode_content(
        a.content,
    )
}

/// Whether every atom of the tree fits its 32 bit length prefix.
pub open spec fn spec_encodable(a: AtomView) -> bool
    decreases a, 1int,
{
    &&& spec_encoded_len(a) <= 0xFFFFFFFF
    &&& spec_content_encodable(a.content)
}

/// Whether every atom inside the content fits its 32 bit length prefix.
pub open spec fn spec_content_encodable(c: ContentView) -> bool
    decreases c, 0int,
{
    match c {
        ContentView::Atoms(s) => spec_list_encodable(s),
        _ => true,
    }
}

/// Whether every atom of the list fits its 32 bit length prefix.
pub open spec fn spec_list_encodable(s: Seq<AtomView>) -> bool
    decreases s, 0int,
{
    if s.len() == 0 {
        true
    } else {
        spec_encodable(s[0]) && spec_list_encodable(s.subrange(1, s.len() as int))
    }
}

/// Updating one atom of a sequence updates one shape of the view.
pub proof fn lemma_atoms_view_update(s: Seq<Atom>, i: int, a: Atom)
    requires
        0 <= i < s.len(),
    ensures
        atoms_view(s.update(i, a)) == atoms_view(s).update(i, atom_view(a)),
{
    lemma_atoms_view_index(s);
    lemma_atoms_view_index(s.update(i, a));
    assert(atoms_view(s.update(i, a)) =~= atoms_view(s).update(i, atom_view(a)));
}

/// Appending an atom to a list appends its encoding.
pub proof fn lemma_encode_list_push(s: Seq<AtomView>, x: AtomView)
    ensures
        spec_encode_list(s.push(x)) == spec_encode_list(s) + spec_encode(x),
    decreases s,
{
    let p = s.push(x);
    if s.len() == 0 {
        assert(p[0] == x);
        assert(p.subrange(1, p.len() as int) =~= s);
        assert(spec_encode_list(p) == spec_encode(x) + spec_encode_list(s));
        assert(spec_encode_list(p) =~= spec_encode_list(s) + spec_encode(x));
    } else {
        let tail = s.subrange(1, s.len() as int);
        assert(p.subrange(1, p.len() as int) =~= tail.push(x));
        lemma_encode_list_push(tail, x);
        assert(p[0] == s[0]);
        assert(spec_encode_list(p) == spec_encode(s[0]) + spec_encode_list(tail.push(x)));
        assert(spec_encode_list(s) == spec_encode(s[0]) + spec_encode_list(tail));
        assert(spec_encode_list(p) =~= spec_encode_list(s) + spec_encode(x));
    }
}

/// Appending an atom to a list keeps encodability of the rest.
pub proof fn lemma_list_encodable_push(s: Seq<AtomView>, x: AtomView)
    ensures
        spec_list_encodable(s.push(x)) == (spec_list_encodable(s) && spec_encodable(x)),
    decreases s,
{
    let p = s.push(x);
    if s.len() == 0 {
        assert(p[0] == x);
        assert(p.subrange(1, p.len() as int) =~= Seq::<AtomView>::empty());
        assert(spec_list_encodable(p) == (spec_encodable(x) && spec_list_encodable(
            Seq::<AtomView>::empty(),
        )));
    } else {
        let tail = s.subrange(1, s.len() as int);
        assert(p.subrange(1, p.len() as int) =~= tail.push(x));
        lemma_list_encodable_push(tail, x);
        assert(p[0] == s[0]);
        assert(spec_list_encodable(p) == (spec_encodable(s[0]) && spec_list_encodable(tail.push(
            x,
        ))));
        assert(spec_list_encodable(s) == (spec_encodable(s[0]) && spec_list_encodable(tail)));
    }
}

/// Every atom of an encodable list is itself encodable.
pub proof fn lemma_list_encodable_index(s: Seq<AtomView>)
    requires
        spec_list_encodable(s),
    ensures
        forall|i: int| 0 <= i < s.len() ==> spec_encodable(#[trigger] s[i]),
    decreases s,
{
    if s.len() > 0 {
        let tail = s.subrange(1, s.len() as int);
        lemma_list_encodable_index(tail);
        assert forall|i: int| 0 <= i < s.len() implies spec_encodable(#[trigger] s[i]) by {
            if i > 0 {
                assert(tail[i - 1] == s[i]);
            }
        }
    }
}

/// Appends the 4 byte big-endian encoding of `v`.
fn push_be32(out: &mut Vec<u8>, v: u32)
    ensures
        final(out)@ == old(out)@ + be32_bytes(v as nat),
{
    out.push((v / 0x1000000) as u8);
    out.push(((v / 0x10000) % 0x100) as u8);
    out.push(((v / 0x100) % 0x100) as u8);
    out.push((v % 0x100) as u8);
    proof {
        assert(out@ =~= old(out)@ + be32_bytes(v as nat));
    }
}

/// Appends all bytes of `b`.
fn push_bytes(out: &mut Vec<u8>, b: &Vec<u8>)
    ensures
        final(out)@ == old(out)@ + b@,
{
    let mut i: usize = 0;
    while i < b.len()
        invariant
            i <= b@.len(),
            out@ == old(out)@ + b@.subrange(0, i as int),
        decreases b@.len() - i,
    {
        out.push(b[i]);
        proof {
            assert(out@ =~= old(out)@ + b@.subrange(0, i + 1));
        }
        i = i + 1;
    }
    proof {
        assert(b@.subrange(0, b@.len() as int) =~= b@);
    }
}

/// Encodes a data payload: type code and locale for typed data, the bytes
/// themselves otherwise.
fn encode_data(d: &Data) -> (r: Vec<u8>)
    ensures
        r@ == spec_encode_data(d@),
{
    match d {
        Data::Unparsed => Vec::new(),
        Data::Bytes(b) => {
            let mut out: Vec<u8> = Vec::new();
            push_bytes(&mut out, b);
            out
        },
        Data::Typed { code, locale, value } => {
            let mut out: Vec<u8> = Vec::new();
            push_be32(&mut out, *code);
            push_be32(&mut out, *locale);
            push_bytes(&mut out, value);
            out
        },
    }
}

/// Encodes a list of atoms in order.
fn encode_list(atoms: &Vec<Atom>) -> (r: Result<Vec<u8>, Error>)
    ensures
        match r {
            Ok(v) => spec_list_encodable(atoms_view(atoms@)) && v@ == spec_encode_list(
                atoms_view(atoms@),
            ),
            Err(e) => !spec_list_encodable(atoms_view(atoms@)) && e.kind
                == ErrorKind::BoundsExceeded,
        },
    decreases *atoms,
{
    proof {
        lemma_atoms_view_index(atoms@);
    }
    let ghost full = atoms_view(atoms@);
    let mut out: Vec<u8> = Vec::new();
    let mut i: usize = 0;
    while i < atoms.len()
        invariant
            full == atoms_view(atoms@),
            full.len() == atoms@.len(),
            forall|j: int| 0 <= j < atoms@.len() ==> full[j] == atom_view(atoms@[j]),
            i <= atoms@.len(),
            spec_list_encodable(full.subrange(0, i as int)),
            out@ == spec_encode_list(full.subrange(0, i as int)),
        decreases atoms@.len() - i,
    {
        let mut piece = match atoms[i].encode() {
            Ok(v) => v,
            Err(e) => {
                proof {
                    if spec_list_encodable(full) {
                        lemma_list_encodable_index(full);
                    }
                }
                return Err(e);
            },
        };
        out.append(&mut piece);
        proof {
            let pre = full.subrange(0, i as int);
            lemma_encode_list_push(pre, full[i as int]);
            lemma_list_encodable_push(pre, full[i as int]);
            assert(pre.push(full[i as int]) =~= full.subrange(0, i + 1));
        }
        i = i + 1;
    }
    proof {
        assert(full.subrange(0, full.len() as int) =~= full);
    }
    Ok(out)
}

/// Encodes an atom's content.
fn encode_content(c: &Content) -> (r: Result<Vec<u8>, Error>)
    ensures
        match r {
            Ok(v) => spec_content_encodable(c@) && v@ == spec_encode_content(c@),
            Err(e) => !spec_content_encodable(c@) && e.kind == ErrorKind::BoundsExceeded,
        },
    decreases *c,
{
    match c {
        Content::Empty => Ok(Vec::new()),
        Content::RawData(d) => Ok(encode_data(d)),
        Content::TypedData(d) => Ok(encode_data(d)),
        Content::Atoms(v) => encode_list(v),
    }
}

impl Atom {
    /// Serializes the atom depth-first: the content is encoded first, then
    /// an 8 byte header is prepended whose length field is computed from the
    /// encoded content. Fails with `BoundsExceeded` exactly when some atom
    /// of the tree does not fit its 32 bit length prefix.
    pub fn encode(&self) -> (r: Result<Vec<u8>, Error>)
        ensures
            match r {
                Ok(v) => spec_encodable(self@) && v@ == spec_encode(self@),
                Err(e) => !spec_encodable(self@) && e.kind == ErrorKind::BoundsExceeded,
            },
        decreases *self,
    {
        let mut content = match encode_content(&self.content) {
            Ok(v) => v,
            Err(e) => return Err(e),
        };
        if self.offset > 0xFFFFFFFFusize - 8 || content.len() > 0xFFFFFFFFusize - 8
            - self.offset {
            return Err(Error::new(
                ErrorKind::BoundsExceeded,
                "Encoded atom does not fit the 32 bit length prefix",
            ));
        }
        let total: u32 = (8 + self.offset + content.len()) as u32;
        let mut out: Vec<u8> = Vec::new();
        push_be32(&mut out, total);
        out.push(self.head[0]);
        out.push(self.head[1]);
        out.push(self.head[2]);
        out.push(self.head[3]);
        proof {
            assert(out@ =~= be32_bytes(total as nat) + self.head@);
        }
        let ghost prefix = out@;
        let mut i: usize = 0;
        while i < self.offset
            invariant
                i <= self.offset,
                out@ == prefix + zeros(i as nat),
            decreases self.offset - i,
        {
            out.push(0u8);
            proof {
                assert(out@ =~= prefix + zeros((i + 1) as nat));
            }
            i = i + 1;
        }
        out.append(&mut content);
        proof {
            assert(out@ =~= spec_encode(self@));
        }
        Ok(out)
    }
}


/// The declared length and head of the atom framed at `pos`, if at least
/// 8 bytes remain.
pub open spec fn spec_parse_head(d: Seq<u8>, pos: int) -> Option<(int, Seq<u8>)> {
    if pos + 8 <= d.len() {
        Some((be32(d.subrange(pos, pos + 4)) as int, d.subrange(pos + 4, pos + 8)))
    } else {
        None
    }
}

/// The first template index at or after `i` whose head matches `h`.
pub open spec fn spec_find_match(ts: Seq<AtomView>, h: Seq<u8>, i: int) -> Option<int>
    decreases ts.len() - i,
{
    if i < 0 || i >= ts.len() {
        None
    } else if ts[i].head == h {
        Some(i)
    } else {
        spec_find_match(ts, h, i + 1)
    }
}

/// How many entries of the sequence are true.
pub open spec fn count_true(s: Seq<bool>) -> int
    decreases s,
{
    if s.len() == 0 {
        0
    } else {
        (if s[0] {
            1int
        } else {
            0int
        }) + count_true(s.subrange(1, s.len() as int))
    }
}

/// A sequence of `n` false flags: no template matched yet.
pub open spec fn seq_false(n: nat) -> Seq<bool> {
    Seq::new(n, |i: int| false)
}

/// The single target scan: read a head; on a match, parse the content and
/// stop; otherwise skip the atom's body byte-exactly and continue. Reaching
/// the end of the stream while scanning is reported as the wanted atom being
/// absent; an atom whose declared body overruns the stream is a bounds error.
pub open spec fn spec_parse(t: AtomView, d: Seq<u8>, pos: int) -> Result<(AtomView, int), ErrorRep>
    decreases d.len() - pos, t, 1int,
{
    match spec_parse_head(d, pos) {
        None => Err(ErrorRep::AtomNotFound(t.head)),
        Some((len, h)) => {
            if h == t.head {
                spec_parse_content(t, d, pos + 8, len)
            } else if len > 8 {
                if pos + len <= d.len() {
                    spec_parse(t, d, pos + len)
                } else {
                    Err(ErrorRep::BoundsExceeded)
                }
            } else {
                spec_parse(t, d, pos + 8)
            }
        },
    }
}

/// The content parse: a declared length of at most 8 leaves the atom empty
/// and consumes nothing; otherwise the offset gap is skipped and the content
/// is dispatched on the template's variant with the remaining
/// `len - 8 - offset` byte budget. A typed payload shorter than its 8 byte
/// code and locale header is malformed: the field is left absent and the
/// surrounding scan continues.
pub open spec fn spec_parse_content(t: AtomView, d: Seq<u8>, pos: int, len: int) -> Result<
    (AtomView, int),
    ErrorRep,
>
    decreases d.len() - pos, t, 0int,
{
    if len <= 8 {
        Ok((AtomView { content: ContentView::Empty, ..t }, pos))
    } else if t.offset > len - 8 || pos + t.offset > d.len() {
        Err(ErrorRep::BoundsExceeded)
    } else {
        let p = pos + t.offset;
        let c = len - 8 - t.offset;
        match t.content {
            ContentView::Empty => if p + c <= d.len() {
                Ok((AtomView { content: ContentView::Empty, ..t }, p + c))
            } else {
                Err(ErrorRep::BoundsExceeded)
            },
            ContentView::RawData(_) => if p + c <= d.len() {
                Ok(
                    (
                        AtomView {
                            content: ContentView::RawData(DataView::Bytes(d.subrange(p, p + c))),
                            ..t
                        },
                        p + c,
                    ),
                )
            } else {
                Err(ErrorRep::BoundsExceeded)
            },
            ContentView::TypedData(_) => if p + c <= d.len() {
                if c < 8 {
                    Ok((AtomView { content: ContentView::Empty, ..t }, p + c))
                } else {
                    Ok(
                        (
                            AtomView {
                                content: ContentView::TypedData(
                                    DataView::Typed {
                                        code: be32(d.subrange(p, p + 4)) as u32,
                                        locale: be32(d.subrange(p + 4, p + 8)) as u32,
                                        value: d.subrange(p + 8, p + c),
                                    },
                                ),
                                ..t
                            },
                            p + c,
                        ),
                    )
                }
            } else {
                Err(ErrorRep::BoundsExceeded)
            },
            ContentView::Atoms(ts) => match spec_parse_atoms(ts, seq_false(ts.len()), d, p, c) {
                Ok((ts2, p2)) => Ok((AtomView { content: ContentView::Atoms(ts2), ..t }, p2)),
                Err(e) => Err(e),
            },
        }
    }
}

/// The multi target sibling scan. It stops once the byte budget is used up
/// or every template has matched. An atom whose declared length exceeds
/// the budget that remains would reach past the parent's extent: that is a
/// bounds error, and the scan aborts rather than desynchronize. Otherwise,
/// for each atom head read, the first template in list order with that
/// head wins; an atom whose template has already matched, or for which no
/// template exists, is skipped byte-exactly, never buffered and never an
/// error.
pub open spec fn spec_parse_atoms(
    ts: Seq<AtomView>,
    done: Seq<bool>,
    d: Seq<u8>,
    pos: int,
    budget: int,
) -> Result<(Seq<AtomView>, int), ErrorRep>
    decreases d.len() - pos, ts, 0int,
{
    if budget <= 0 || count_true(done) >= ts.len() {
        Ok((ts, pos))
    } else {
        match spec_parse_head(d, pos) {
            None => Err(ErrorRep::UnexpectedEof),
            Some((len, h)) => if len > budget {
                Err(ErrorRep::BoundsExceeded)
            } else {
                let budget2 = budget - len;
                match spec_find_match(ts, h, 0) {
                    Some(i) => if !done[i] {
                        match spec_parse_content(ts[i], d, pos + 8, len) {
                            Ok((a2, p2)) => {
                                // the content parse never moves backward
                                // past the head it followed, nor beyond the
                                // stream; the bounds make that explicit for
                                // the termination measure
                                let p3 = if p2 < pos + 8 {
                                    pos + 8
                                } else if p2 > d.len() {
                                    d.len() as int
                                } else {
                                    p2
                                };
                                spec_parse_atoms(
                                    ts.update(i, a2),
                                    done.update(i, true),
                                    d,
                                    p3,
                                    budget2,
                                )
                            },
                            Err(e) => Err(e),
                        }
                    } else {
                        if len > 8 {
                            if pos + len <= d.len() {
                                spec_parse_atoms(ts, done, d, pos + len, budget2)
                            } else {
                                Err(ErrorRep::BoundsExceeded)
                            }
                        } else {
                            spec_parse_atoms(ts, done, d, pos + 8, budget2)
                        }
                    },
                    None => if len > 8 {
                        if pos + len <= d.len() {
                            spec_parse_atoms(ts, done, d, pos + len, budget2)
                        } else {
                            Err(ErrorRep::BoundsExceeded)
                        }
                    } else {
                        spec_parse_atoms(ts, done, d, pos + 8, budget2)
                    },
                }
            },
        }
    }
}

/// The count of true flags is between 0 and the length.
pub proof fn lemma_count_true_bounds(s: Seq<bool>)
    ensures
        0 <= count_true(s) <= s.len(),
    decreases s,
{
    if s.len() > 0 {
        lemma_count_true_bounds(s.subrange(1, s.len() as int));
    }
}

/// A sequence of only false flags has a count of zero.
pub proof fn lemma_count_true_zero(s: Seq<bool>)
    requires
        forall|i: int| 0 <= i < s.len() ==> !(#[trigger] s[i]),
    ensures
        count_true(s) == 0,
    decreases s,
{
    if s.len() > 0 {
        let tail = s.subrange(1, s.len() as int);
        assert(forall|i: int| 0 <= i < tail.len() ==> tail[i] == s[i + 1]);
        lemma_count_true_zero(tail);
    }
}

/// A sequence of only true flags has a full count.
pub proof fn lemma_count_true_full(s: Seq<bool>)
    requires
        forall|i: int| 0 <= i < s.len() ==> (#[trigger] s[i]),
    ensures
        count_true(s) == s.len(),
    decreases s,
{
    if s.len() > 0 {
        let tail = s.subrange(1, s.len() as int);
        assert(forall|i: int| 0 <= i < tail.len() ==> tail[i] == s[i + 1]);
        lemma_count_true_full(tail);
    }
}

/// A sequence with a false flag has fewer true flags than entries.
pub proof fn lemma_count_true_lt(s: Seq<bool>, i: int)
    requires
        0 <= i < s.len(),
        !s[i],
    ensures
        count_true(s) < s.len(),
    decreases s,
{
    let tail = s.subrange(1, s.len() as int);
    if i == 0 {
        lemma_count_true_bounds(tail);
    } else {
        assert(tail[i - 1] == s[i]);
        lemma_count_true_lt(tail, i - 1);
    }
}

/// Turning one false flag true raises the count by one.
pub proof fn lemma_count_true_update(s: Seq<bool>, i: int)
    requires
        0 <= i < s.len(),
        !s[i],
    ensures
        count_true(s.update(i, true)) == count_true(s) + 1,
    decreases s,
{
    let u = s.update(i, true);
    let tail = s.subrange(1, s.len() as int);
    if i == 0 {
        assert(u[0]);
        assert(u.subrange(1, u.len() as int) =~= tail);
    } else {
        assert(u[0] == s[0]);
        assert(u.subrange(1, u.len() as int) =~= tail.update(i - 1, true));
        assert(tail[i - 1] == s[i]);
        lemma_count_true_update(tail, i - 1);
    }
}

/// Searching finds the first matching index at or after `i`.
pub proof fn lemma_find_match_from(ts: Seq<AtomView>, h: Seq<u8>, i: int, j: int)
    requires
        0 <= i <= j <= ts.len(),
        forall|k: int| i <= k < j ==> (#[trigger] ts[k]).head != h,
        j < ts.len() ==> ts[j].head == h,
    ensures
        spec_find_match(ts, h, i) == if j < ts.len() {
            Some(j)
        } else {
            None::<int>
        },
    decreases j - i,
{
    if i < j {
        lemma_find_match_from(ts, h, i + 1, j);
    }
}

/// Compares two atom heads by their bytes.
fn heads_eq(a: &[u8; 4], b: &[u8; 4]) -> (r: bool)
    ensures
        r == (a@ == b@),
{
    let r = a[0] == b[0] && a[1] == b[1] && a[2] == b[2] && a[3] == b[3];
    proof {
        if r {
            assert(a@ =~= b@);
        }
        if a@ == b@ {
            assert(a@[0] == b@[0] && a@[1] == b@[1] && a@[2] == b@[2] && a@[3] == b@[3]);
        }
    }
    r
}

/// Finds the first template in list order whose head matches.
fn find_matching(atoms: &Vec<Atom>, head: &[u8; 4]) -> (r: Option<usize>)
    ensures
        match r {
            Some(j) => j < atoms@.len() && spec_find_match(atoms_view(atoms@), head@, 0) == Some(
                j as int,
            ),
            None => spec_find_match(atoms_view(atoms@), head@, 0) is None,
        },
{
    proof {
        lemma_atoms_view_index(atoms@);
    }
    let ghost ts = atoms_view(atoms@);
    let mut j: usize = 0;
    while j < atoms.len()
        invariant
            ts == atoms_view(atoms@),
            ts.len() == atoms@.len(),
            forall|k: int| 0 <= k < atoms@.len() ==> ts[k] == atom_view(atoms@[k]),
            j <= atoms@.len(),
            forall|k: int| 0 <= k < j ==> (#[trigger] ts[k]).head != head@,
        decreases atoms@.len() - j,
    {
        if heads_eq(head, &atoms[j].head) {
            proof {
                lemma_find_match_from(ts, head@, 0, j as int);
            }
            return Some(j);
        }
        j = j + 1;
    }
    proof {
        lemma_find_match_from(ts, head@, 0, ts.len() as int);
    }
    None
}

/// An error for a declared length inconsistent with the bytes that remain.
fn bounds_error() -> (e: Error)
    ensures
        e.kind == ErrorKind::BoundsExceeded,
{
    Error::new(
        ErrorKind::BoundsExceeded,
        "Declared atom length inconsistent with the bytes that remain",
    )
}

impl Atom {
    /// Reads a 4 byte big-endian length and a 4 byte head. Failing for want
    /// of bytes is the one legitimate way a scan ends when a wanted atom is
    /// absent, so it is reported as `UnexpectedEof` and translated by the
    /// callers.
    pub fn parse_head(reader: &mut ByteStream) -> (r: Result<(usize, [u8; 4]), Error>)
        requires
            old(reader).wf(),
        ensures
            final(reader).wf(),
            final(reader).data@ == old(reader).data@,
            match r {
                Ok((len, head)) => {
                    &&& spec_parse_head(old(reader).data@, old(reader).pos as int) == Some(
                        (len as int, head@),
                    )
                    &&& final(reader).pos == old(reader).pos + 8
                },
                Err(e) => {
                    &&& spec_parse_head(old(reader).data@, old(reader).pos as int) is None
                    &&& e.kind == ErrorKind::UnexpectedEof
                    &&& final(reader).pos == old(reader).pos
                },
            },
    {
        if reader.remaining() < 8 {
            return Err(
                Error::new(
                    ErrorKind::UnexpectedEof,
                    "Reached end of stream while reading an atom head",
                ),
            );
        }
        let len = reader.read_u32_be();
        let head = reader.read_head_bytes();
        Ok((len as usize, head))
    }

    /// Parses the content of the declared length from the stream, in place:
    /// the 8 head bytes are already consumed, an atom of declared length at
    /// most 8 is contentless, and otherwise the offset gap is skipped and
    /// the `length - 8 - offset` content bytes are dispatched on the
    /// template's content variant.
    pub fn parse_content(&mut self, reader: &mut ByteStream, length: usize) -> (r: Result<
        (),
        Error,
    >)
        requires
            old(reader).wf(),
        ensures
            final(reader).wf(),
            final(reader).data@ == old(reader).data@,
            final(reader).pos >= old(reader).pos,
            final(self).head@ == old(self).head@,
            final(self).offset == old(self).offset,
            match r {
                Ok(()) => spec_parse_content(
                    old(self)@,
                    old(reader).data@,
                    old(reader).pos as int,
                    length as int,
                ) == Ok::<(AtomView, int), ErrorRep>((final(self)@, final(reader).pos as int)),
                Err(e) => {
                    &&& spec_parse_content(
                        old(self)@,
                        old(reader).data@,
                        old(reader).pos as int,
                        length as int,
                    ) == Err::<(AtomView, int), ErrorRep>(error_rep(e.kind))
                    &&& (e.kind is UnexpectedEof || e.kind is BoundsExceeded)
                },
            },
        decreases *old(self),
    {
        if length <= 8 {
            self.content = Content::Empty;
            proof {
                assert(self@ =~= AtomView { content: ContentView::Empty, ..old(self)@ });
            }
            return Ok(());
        }
        let c_total = length - 8;
        if self.offset > c_total || self.offset > reader.remaining() {
            return Err(bounds_error());
        }
        reader.skip(self.offset);
        let c = c_total - self.offset;
        if matches!(self.content, Content::Empty) {
            if c > reader.remaining() {
                return Err(bounds_error());
            }
            reader.skip(c);
            proof {
                assert(self@ =~= AtomView { content: ContentView::Empty, ..old(self)@ });
            }
            Ok(())
        } else if matches!(self.content, Content::RawData(_)) {
            if c > reader.remaining() {
                return Err(bounds_error());
            }
            let v = reader.read_bytes(c);
            self.content = Content::RawData(Data::Bytes(v));
            proof {
                let p = old(reader).pos + old(self).offset;
                assert(self@ =~= AtomView {
                    content: ContentView::RawData(
                        DataView::Bytes(old(reader).data@.subrange(p as int, p + c)),
                    ),
                    ..old(self)@
                });
            }
            Ok(())
        } else if matches!(self.content, Content::TypedData(_)) {
            if c > reader.remaining() {
                return Err(bounds_error());
            }
            if c < 8 {
                reader.skip(c);
                self.content = Content::Empty;
                proof {
                    assert(self@ =~= AtomView { content: ContentView::Empty, ..old(self)@ });
                }
                Ok(())
            } else {
                let code = reader.read_u32_be();
                let locale = reader.read_u32_be();
                let v = reader.read_bytes(c - 8);
                self.content = Content::TypedData(Data::Typed { code, locale, value: v });
                proof {
                    let p = old(reader).pos + old(self).offset;
                    let d = old(reader).data@;
                    assert(self@ =~= AtomView {
                        content: ContentView::TypedData(
                            DataView::Typed {
                                code: be32(d.subrange(p as int, p + 4)) as u32,
                                locale: be32(d.subrange(p + 4, p + 8)) as u32,
                                value: d.subrange(p + 8, p + c),
                            },
                        ),
                        ..old(self)@
                    });
                }
                Ok(())
            }
        } else {
            let ghost t0 = *self;
            match &mut self.content {
                Content::Atoms(children) => {
                    let res = Atom::parse_atoms(children, reader, c);
                    match res {
                        Ok(()) => {
                            proof {
                                lemma_atoms_view_index(t0.content->Atoms_0@);
                                assert(old(self)@.content == ContentView::Atoms(
                                    atoms_view(t0.content->Atoms_0@),
                                ));
                                assert(self@ =~= AtomView {
                                    content: ContentView::Atoms(atoms_view(self.content->Atoms_0@)),
                                    ..old(self)@
                                });
                            }
                            Ok(())
                        },
                        Err(e) => {
                            proof {
                                lemma_atoms_view_index(t0.content->Atoms_0@);
                                assert(old(self)@.content == ContentView::Atoms(
                                    atoms_view(t0.content->Atoms_0@),
                                ));
                            }
                            Err(e)
                        },
                    }
                },
                _ => {
                    proof {
                        assert(false);
                    }
                    Err(bounds_error())
                },
            }
        }
    }

    /// The multi target sibling scan: reads atoms in stream order until the
    /// byte budget is used up or every template has matched. The first
    /// template in list order with a matching head claims an atom; atoms
    /// whose template already matched, and atoms no template describes, are
    /// skipped byte-exactly, never buffered and never an error.
    pub fn parse_atoms(atoms: &mut Vec<Atom>, reader: &mut ByteStream, length: usize) -> (r:
        Result<(), Error>)
        requires
            old(reader).wf(),
        ensures
            final(reader).wf(),
            final(reader).data@ == old(reader).data@,
            final(reader).pos >= old(reader).pos,
            final(atoms)@.len() == old(atoms)@.len(),
            forall|j: int|
                0 <= j < old(atoms)@.len() ==> (#[trigger] final(atoms)@[j]).head@ == old(
                    atoms,
                )@[j].head@ && final(atoms)@[j].offset == old(atoms)@[j].offset,
            match r {
                Ok(()) => spec_parse_atoms(
                    atoms_view(old(atoms)@),
                    seq_false(old(atoms)@.len()),
                    old(reader).data@,
                    old(reader).pos as int,
                    length as int,
                ) == Ok::<(Seq<AtomView>, int), ErrorRep>(
                    (atoms_view(final(atoms)@), final(reader).pos as int),
                ),
                Err(e) => {
                    &&& spec_parse_atoms(
                        atoms_view(old(atoms)@),
                        seq_false(old(atoms)@.len()),
                        old(reader).data@,
                        old(reader).pos as int,
                        length as int,
                    ) == Err::<(Seq<AtomView>, int), ErrorRep>(error_rep(e.kind))
                    &&& (e.kind is UnexpectedEof || e.kind is BoundsExceeded)
                },
            },
        decreases *old(atoms),
    {
        let ghost d = old(reader).data@;
        let ghost ts0 = atoms_view(old(atoms)@);
        let ghost done0 = seq_false(old(atoms)@.len());
        let mut done: Vec<bool> = Vec::new();
        let mut k: usize = 0;
        while k < atoms.len()
            invariant
                k <= atoms@.len(),
                done@.len() == k,
                forall|j: int| 0 <= j < k ==> !(#[trigger] done@[j]),
                *atoms == *old(atoms),
                *reader == *old(reader),
            decreases atoms@.len() - k,
        {
            done.push(false);
            k = k + 1;
        }
        proof {
            assert(done@ =~= done0);
            lemma_atoms_view_index(atoms@);
            lemma_count_true_zero(done@);
        }
        let mut matched: usize = 0;
        let mut budget = length;
        loop
            invariant
                reader.wf(),
                d == old(reader).data@,
                ts0 == atoms_view(old(atoms)@),
                done0 == seq_false(old(atoms)@.len()),
                reader.data@ == d,
                reader.pos >= old(reader).pos,
                atoms@.len() == old(atoms)@.len(),
                done@.len() == atoms@.len(),
                matched == count_true(done@),
                forall|j: int|
                    0 <= j < atoms@.len() && !(#[trigger] done@[j]) ==> atoms@[j] == old(
                        atoms,
                    )@[j],
                forall|j: int|
                    0 <= j < atoms@.len() ==> (#[trigger] atoms@[j]).head@ == old(
                        atoms,
                    )@[j].head@ && atoms@[j].offset == old(atoms)@[j].offset,
                spec_parse_atoms(ts0, done0, d, old(reader).pos as int, length as int)
                    == spec_parse_atoms(
                    atoms_view(atoms@),
                    done@,
                    d,
                    reader.pos as int,
                    budget as int,
                ),
            decreases d.len() - reader.pos,
        {
            proof {
                lemma_atoms_view_index(atoms@);
                lemma_count_true_bounds(done@);
            }
            if budget == 0 || matched >= atoms.len() {
                proof {
                    assert(spec_parse_atoms(
                        atoms_view(atoms@),
                        done@,
                        d,
                        reader.pos as int,
                        budget as int,
                    ) == Ok::<(Seq<AtomView>, int), ErrorRep>(
                        (atoms_view(atoms@), reader.pos as int),
                    ));
                }
                return Ok(());
            }
            let ghost ts_iter = atoms_view(atoms@);
            let ghost done_iter = done@;
            let ghost pos_iter = reader.pos as int;
            let ghost budget_iter = budget as int;
            let (alen, head) = match Atom::parse_head(reader) {
                Ok(h) => h,
                Err(e) => {
                    return Err(e);
                },
            };
            if alen > budget {
                return Err(bounds_error());
            }
            let budget2 = budget - alen;
            let found = find_matching(atoms, &head);
            match found {
                Some(j) => {
                    if !done[j] {
                        let ghost av_iter = atoms@;
                        let res = atoms[j].parse_content(reader, alen);
                        match res {
                            Ok(()) => {
                                done[j] = true;
                                proof {
                                    lemma_count_true_lt(done_iter, j as int);
                                    lemma_count_true_update(done_iter, j as int);
                                    assert(done@ =~= done_iter.update(j as int, true));
                                    assert(atoms@ == av_iter.update(
                                        j as int,
                                        atoms@[j as int],
                                    ));
                                    lemma_atoms_view_update(av_iter, j as int, atoms@[j as int]);
                                }
                                matched = matched + 1;
                                budget = budget2;
                                proof {
                                    assert(atoms_view(atoms@) =~= ts_iter.update(
                                        j as int,
                                        atom_view(atoms@[j as int]),
                                    ));
                                }
                            },
                            Err(e) => {
                                return Err(e);
                            },
                        }
                    } else {
                        if alen > 8 {
                            let skip_len = alen - 8;
                            if skip_len > reader.remaining() {
                                return Err(bounds_error());
                            }
                            reader.skip(skip_len);
                        }
                        budget = budget2;
                    }
                },
                None => {
                    if alen > 8 {
                        let skip_len = alen - 8;
                        if skip_len > reader.remaining() {
                            return Err(bounds_error());
                        }
                        reader.skip(skip_len);
                    }
                    budget = budget2;
                },
            }
        }
    }

    /// The single target recursive scan: reads heads in stream order; the
    /// first atom matching the template's head has its content parsed in
    /// place and the scan stops; every other atom's body is skipped
    /// byte-exactly. Reaching the end of the stream instead is reported as
    /// `AtomNotFound` with the wanted head, so callers can tell an absent
    /// optional atom from a corrupt stream.
    pub fn parse(&mut self, reader: &mut ByteStream) -> (r: Result<(), Error>)
        requires
            old(reader).wf(),
        ensures
            final(reader).wf(),
            final(reader).data@ == old(reader).data@,
            final(reader).pos >= old(reader).pos,
            final(self).head@ == old(self).head@,
            final(self).offset == old(self).offset,
            match r {
                Ok(()) => spec_parse(old(self)@, old(reader).data@, old(reader).pos as int)
                    == Ok::<(AtomView, int), ErrorRep>((final(self)@, final(reader).pos as int)),
                Err(e) => {
                    &&& spec_parse(old(self)@, old(reader).data@, old(reader).pos as int)
                        == Err::<(AtomView, int), ErrorRep>(error_rep(e.kind))
                    &&& (e.kind is AtomNotFound ==> *final(self) == *old(self))
                },
            },
    {
        let ghost d = old(reader).data@;
        loop
            invariant
                reader.wf(),
                d == old(reader).data@,
                reader.data@ == d,
                reader.pos >= old(reader).pos,
                *self == *old(self),
                spec_parse(old(self)@, d, old(reader).pos as int) == spec_parse(
                    old(self)@,
                    d,
                    reader.pos as int,
                ),
            decreases d.len() - reader.pos,
        {
            let ghost pos_iter = reader.pos as int;
            let (alen, head) = match Atom::parse_head(reader) {
                Ok(h) => h,
                Err(_) => {
                    return Err(
                        Error::new(
                            ErrorKind::AtomNotFound(self.head),
                            "Reached end of stream without finding a matching atom",
                        ),
                    );
                },
            };
            if heads_eq(&head, &self.head) {
                let res = self.parse_content(reader, alen);
                return res;
            } else if alen > 8 {
                let skip_len = alen - 8;
                if skip_len > reader.remaining() {
                    return Err(bounds_error());
                }
                reader.skip(skip_len);
                proof {
                    assert(spec_parse(old(self)@, d, pos_iter) == spec_parse(
                        old(self)@,
                        d,
                        reader.pos as int,
                    ));
                }
            } else {
                proof {
                    assert(spec_parse(old(self)@, d, pos_iter) == spec_parse(
                        old(self)@,
                        d,
                        reader.pos as int,
                    ));
                }
            }
        }
    }
}


/// Whether a parsed `ftyp` content starts with a brand accepted as MPEG-4
/// audio.
pub open spec fn spec_valid_filetype(c: ContentView) -> bool {
    match c {
        ContentView::RawData(DataView::Bytes(b)) => b.len() >= 4 && (b.subrange(0, 4)
            == FILE_TYPE_M4A@ || b.subrange(0, 4) == FILE_TYPE_M4B@),
        _ => false,
    }
}

/// The template for the file type atom: `ftyp` with a raw payload.
pub open spec fn spec_filetype_template() -> AtomView {
    AtomView {
        head: ident::FILETYPE@,
        offset: 0,
        content: ContentView::RawData(DataView::Bytes(Seq::empty())),
    }
}

/// The template for a typed `data` sub-atom.
pub open spec fn spec_data_child() -> AtomView {
    AtomView { head: ident::DATA@, offset: 0, content: ContentView::TypedData(DataView::Unparsed) }
}

/// The template for one known metadata atom: a fourcc wrapping one `data`
/// sub-atom.
pub open spec fn spec_meta_child(h: Seq<u8>) -> AtomView {
    AtomView { head: h, offset: 0, content: ContentView::Atoms(seq![spec_data_child()]) }
}

/// The children of the item list template, one per known metadata fourcc,
/// in match priority order.
pub open spec fn spec_ilst_children() -> Seq<AtomView> {
    seq![
        spec_meta_child(ident::ALBUM@),
        spec_meta_child(ident::ALBUM_ARTIST@),
        spec_meta_child(ident::ARTIST@),
        spec_meta_child(ident::ARTWORK@),
        spec_meta_child(ident::BPM@),
        spec_meta_child(ident::CATEGORY@),
        spec_meta_child(ident::COMMENT@),
        spec_meta_child(ident::COMPILATION@),
        spec_meta_child(ident::COMPOSER@),
        spec_meta_child(ident::COPYRIGHT@),
        spec_meta_child(ident::CUSTOM_GENRE@),
        spec_meta_child(ident::DESCRIPTION@),
        spec_meta_child(ident::DISC_NUMBER@),
        spec_meta_child(ident::ENCODER@),
        spec_meta_child(ident::PODCAST_EPISODE_GLOBAL_UNIQUE_ID@),
        spec_meta_child(ident::GAPLESS_PLAYBACK@),
        spec_meta_child(ident::GROUPING@),
        spec_meta_child(ident::KEYWORD@),
        spec_meta_child(ident::LYRICS@),
        spec_meta_child(ident::MEDIA_TYPE@),
        spec_meta_child(ident::PODCAST@),
        spec_meta_child(ident::PODCAST_URL@),
        spec_meta_child(ident::PURCHASE_DATE@),
        spec_meta_child(ident::ADVISORY_RATING@),
        spec_meta_child(ident::STANDARD_GENRE@),
        spec_meta_child(ident::TITLE@),
        spec_meta_child(ident::TRACK_NUMBER@),
        spec_meta_child(ident::TV_EPISODE@),
        spec_meta_child(ident::TV_EPISODE_NAME@),
        spec_meta_child(ident::TV_NETWORK_NAME@),
        spec_meta_child(ident::TV_SEASON@),
        spec_meta_child(ident::TV_SHOW_NAME@),
        spec_meta_child(ident::YEAR@),
    ]
}

/// The canonical metadata template: `moov > udta > meta > ilst` with one
/// child per known metadata fourcc; `meta` carries a 4 byte version and
/// flags field as its offset.
pub open spec fn spec_metadata_template() -> AtomView {
    AtomView {
        head: ident::MOVIE@,
        offset: 0,
        content: ContentView::Atoms(
            seq![
                AtomView {
                    head: ident::USER_DATA@,
                    offset: 0,
                    content: ContentView::Atoms(
                        seq![
                            AtomView {
                                head: ident::METADATA@,
                                offset: 4,
                                content: ContentView::Atoms(
                                    seq![
                                        AtomView {
                                            head: ident::ITEM_LIST@,
                                            offset: 0,
                                            content: ContentView::Atoms(spec_ilst_children()),
                                        },
                                    ],
                                ),
                            },
                        ],
                    ),
                },
            ],
        ),
    }
}

/// The shape of a freeform (`----`) atom: mean, name and data children in
/// fixed order, the mean and name each behind a 4 byte version and flags
/// field.
pub open spec fn spec_freeform_atom(m: Seq<u8>, n: Seq<u8>, dv: DataView) -> AtomView {
    AtomView {
        head: ident::FREEFORM@,
        offset: 0,
        content: ContentView::Atoms(
            seq![
                AtomView {
                    head: ident::MEAN@,
                    offset: 4,
                    content: ContentView::RawData(DataView::Bytes(m)),
                },
                AtomView {
                    head: ident::NAME_HEAD@,
                    offset: 4,
                    content: ContentView::RawData(DataView::Bytes(n)),
                },
                AtomView { head: ident::DATA@, offset: 0, content: ContentView::TypedData(dv) },
            ],
        ),
    }
}

/// Reading a tag: parse the `ftyp` template, check the brand, then parse
/// the canonical metadata template against the rest of the stream.
pub open spec fn spec_read_tag(d: Seq<u8>, pos: int) -> Result<(AtomView, int), ErrorRep> {
    match spec_parse(spec_filetype_template(), d, pos) {
        Err(e) => Err(e),
        Ok((ft, p1)) => if !spec_valid_filetype(ft.content) {
            Err(ErrorRep::NoTag)
        } else {
            spec_parse(spec_metadata_template(), d, p1)
        },
    }
}

/// Registers one known metadata fourcc: a child template wrapping a single
/// `data` sub-atom.
fn add_tag_child(v: &mut Vec<Atom>, head: [u8; 4])
    ensures
        atoms_view(final(v)@) == atoms_view(old(v)@).push(spec_meta_child(head@)),
{
    let ghost v0 = v@;
    v.push(Atom::with(head, 0, Content::data_atom()));
    proof {
        lemma_atoms_view_push(v0, v@[v@.len() - 1]);
        assert(atom_view(v@[v@.len() - 1]) =~~= spec_meta_child(head@));
    }
}

/// Builds the item list children: one template per known metadata fourcc,
/// in match priority order.
#[verifier::rlimit(100)]
#[verifier::spinoff_prover]
fn ilst_children_atoms() -> (r: Vec<Atom>)
    ensures
        atoms_view(r@) == spec_ilst_children(),
{
    let mut children: Vec<Atom> = Vec::new();
    add_tag_child(&mut children, ident::ALBUM);
    add_tag_child(&mut children, ident::ALBUM_ARTIST);
    add_tag_child(&mut children, ident::ARTIST);
    add_tag_child(&mut children, ident::ARTWORK);
    add_tag_child(&mut children, ident::BPM);
    add_tag_child(&mut children, ident::CATEGORY);
    add_tag_child(&mut children, ident::COMMENT);
    add_tag_child(&mut children, ident::COMPILATION);
    add_tag_child(&mut children, ident::COMPOSER);
    add_tag_child(&mut children, ident::COPYRIGHT);
    add_tag_child(&mut children, ident::CUSTOM_GENRE);
    add_tag_child(&mut children, ident::DESCRIPTION);
    add_tag_child(&mut children, ident::DISC_NUMBER);
    add_tag_child(&mut children, ident::ENCODER);
    add_tag_child(&mut children, ident::PODCAST_EPISODE_GLOBAL_UNIQUE_ID);
    add_tag_child(&mut children, ident::GAPLESS_PLAYBACK);
    add_tag_child(&mut children, ident::GROUPING);
    add_tag_child(&mut children, ident::KEYWORD);
    add_tag_child(&mut children, ident::LYRICS);
    add_tag_child(&mut children, ident::MEDIA_TYPE);
    add_tag_child(&mut children, ident::PODCAST);
    add_tag_child(&mut children, ident::PODCAST_URL);
    add_tag_child(&mut children, ident::PURCHASE_DATE);
    add_tag_child(&mut children, ident::ADVISORY_RATING);
    add_tag_child(&mut children, ident::STANDARD_GENRE);
    add_tag_child(&mut children, ident::TITLE);
    add_tag_child(&mut children, ident::TRACK_NUMBER);
    add_tag_child(&mut children, ident::TV_EPISODE);
    add_tag_child(&mut children, ident::TV_EPISODE_NAME);
    add_tag_child(&mut children, ident::TV_NETWORK_NAME);
    add_tag_child(&mut children, ident::TV_SEASON);
    add_tag_child(&mut children, ident::TV_SHOW_NAME);
    add_tag_child(&mut children, ident::YEAR);
    proof {
        assert(atoms_view(children@) =~= spec_ilst_children());
    }
    children
}

impl Content {
    /// Creates an empty list of child atom templates.
    pub fn atoms() -> (r: Content)
        ensures
            r@ == ContentView::Atoms(Seq::<AtomView>::empty()),
    {
        let r = Content::Atoms(Vec::new());
        proof {
            assert(r@ =~= ContentView::Atoms(Seq::<AtomView>::empty()));
        }
        r
    }

    /// Creates a content containing one typed `data` sub-atom template.
    pub fn data_atom() -> (r: Content)
        ensures
            r@ == ContentView::Atoms(seq![spec_data_child()]),
    {
        Content::with_atom(ident::DATA, 0, Content::TypedData(Data::Unparsed))
    }

    /// Creates a content wrapping a single child atom.
    pub fn with_atom(head: [u8; 4], offset: usize, content: Content) -> (r: Content)
        ensures
            r@ == ContentView::Atoms(
                seq![AtomView { head: head@, offset: offset as nat, content: content@ }],
            ),
    {
        let ghost cv = content@;
        let mut v: Vec<Atom> = Vec::new();
        v.push(Atom::with(head, offset, content));
        proof {
            lemma_atoms_view_push(Seq::<Atom>::empty(), v@[0]);
            assert(atoms_view(v@) =~= seq![
                AtomView { head: head@, offset: offset as nat, content: cv },
            ]);
        }
        let r = Content::Atoms(v);
        r
    }

    /// Appends a child atom template; the content must be a list of atoms.
    pub fn add_atom_with(self, head: [u8; 4], offset: usize, content: Content) -> (r: Content)
        requires
            self@ is Atoms,
        ensures
            r@ == ContentView::Atoms(
                self@->Atoms_0.push(
                    AtomView { head: head@, offset: offset as nat, content: content@ },
                ),
            ),
    {
        let ghost cv = content@;
        match self {
            Content::Atoms(mut v) => {
                let ghost v0 = v@;
                v.push(Atom::with(head, offset, content));
                proof {
                    lemma_atoms_view_push(v0, v@[v@.len() - 1]);
                    assert(atoms_view(v@) =~= atoms_view(v0).push(
                        AtomView { head: head@, offset: offset as nat, content: cv },
                    ));
                }
                Content::Atoms(v)
            },
            other => {
                proof {
                    assert(false);
                }
                other
            },
        }
    }
}


/// Copies a byte payload.
fn copy_bytes(b: &Vec<u8>) -> (r: Vec<u8>)
    ensures
        r@ == b@,
{
    let mut out: Vec<u8> = Vec::new();
    push_bytes(&mut out, b);
    out
}

/// Copies a data payload.
fn duplicate_data(d: &Data) -> (r: Data)
    ensures
        r@ == d@,
{
    match d {
        Data::Unparsed => Data::Unparsed,
        Data::Bytes(b) => Data::Bytes(copy_bytes(b)),
        Data::Typed { code, locale, value } => Data::Typed {
            code: *code,
            locale: *locale,
            value: copy_bytes(value),
        },
    }
}

/// Copies a list of atoms in order.
fn duplicate_list(atoms: &Vec<Atom>) -> (r: Vec<Atom>)
    ensures
        atoms_view(r@) == atoms_view(atoms@),
    decreases *atoms,
{
    proof {
        lemma_atoms_view_index(atoms@);
    }
    let ghost full = atoms_view(atoms@);
    let mut out: Vec<Atom> = Vec::new();
    let mut i: usize = 0;
    while i < atoms.len()
        invariant
            full == atoms_view(atoms@),
            full.len() == atoms@.len(),
            forall|j: int| 0 <= j < atoms@.len() ==> full[j] == atom_view(atoms@[j]),
            i <= atoms@.len(),
            atoms_view(out@) == full.subrange(0, i as int),
        decreases atoms@.len() - i,
    {
        let ghost out0 = out@;
        let copy = atoms[i].duplicate();
        out.push(copy);
        proof {
            lemma_atoms_view_push(out0, out@[out@.len() - 1]);
            assert(atoms_view(out@) =~= full.subrange(0, i + 1));
        }
        i = i + 1;
    }
    proof {
        assert(full.subrange(0, full.len() as int) =~= full);
    }
    out
}

/// Copies an atom's content.
fn duplicate_content(c: &Content) -> (r: Content)
    ensures
        r@ == c@,
    decreases *c,
{
    match c {
        Content::Empty => Content::Empty,
        Content::RawData(d) => Content::RawData(duplicate_data(d)),
        Content::TypedData(d) => Content::TypedData(duplicate_data(d)),
        Content::Atoms(v) => Content::Atoms(duplicate_list(v)),
    }
}

/// A handle over a populated metadata template tree.
#[derive(Debug)]
pub struct Tag {
    /// The populated `moov` atom.
    pub atom: Atom,
}

impl Tag {
    /// Wraps a populated metadata atom.
    pub fn with(atom: Atom) -> (r: Tag)
        ensures
            r.atom == atom,
    {
        Tag { atom }
    }
}

impl Atom {
    /// Deep copies the atom tree, so one canonical template is never
    /// parsed into twice: a fresh copy serves each parse.
    pub fn duplicate(&self) -> (r: Atom)
        ensures
            r@ == self@,
        decreases *self,
    {
        let r = Atom {
            head: self.head,
            offset: self.offset,
            content: duplicate_content(&self.content),
        };
        proof {
            assert(r@ =~= self@);
        }
        r
    }

    /// Creates a new empty atom with a blank head.
    pub fn new() -> (r: Atom)
        ensures
            r@ == (AtomView {
                head: seq![0x20u8, 0x20u8, 0x20u8, 0x20u8],
                offset: 0,
                content: ContentView::Empty,
            }),
    {
        let r = Atom { head: [0x20, 0x20, 0x20, 0x20], offset: 0, content: Content::Empty };
        proof {
            assert(r.head@ =~= seq![0x20u8, 0x20u8, 0x20u8, 0x20u8]);
        }
        r
    }

    /// Creates an atom containing the provided content at an n byte offset.
    pub fn with(head: [u8; 4], offset: usize, content: Content) -> (r: Atom)
        ensures
            r@ == (AtomView { head: head@, offset: offset as nat, content: content@ }),
    {
        Atom { head, offset, content }
    }

    /// Creates an atom containing raw data at an n byte offset.
    pub fn with_raw_data(head: [u8; 4], offset: usize, data: Data) -> (r: Atom)
        ensures
            r@ == (AtomView {
                head: head@,
                offset: offset as nat,
                content: ContentView::RawData(data_view(data)),
            }),
    {
        Atom::with(head, offset, Content::RawData(data))
    }

    /// Creates a typed `data` sub-atom template.
    pub fn data_atom() -> (r: Atom)
        ensures
            r@ == spec_data_child(),
    {
        Atom::with(ident::DATA, 0, Content::TypedData(Data::Unparsed))
    }

    /// Creates a typed `data` sub-atom holding the provided payload.
    pub fn data_atom_with(data: Data) -> (r: Atom)
        ensures
            r@ == (AtomView {
                head: ident::DATA@,
                offset: 0,
                content: ContentView::TypedData(data_view(data)),
            }),
    {
        Atom::with(ident::DATA, 0, Content::TypedData(data))
    }

    /// Builds a freeform (`----`) atom with its three children in the fixed
    /// serialization order: mean, name, data.
    pub fn freeform_atom(mean: Vec<u8>, name: Vec<u8>, data: Data) -> (r: Atom)
        ensures
            r@ == spec_freeform_atom(mean@, name@, data_view(data)),
    {
        let ghost m = mean@;
        let ghost n = name@;
        let ghost dv = data_view(data);
        let content = Content::atoms().add_atom_with(
            ident::MEAN,
            4,
            Content::RawData(Data::Bytes(mean)),
        ).add_atom_with(ident::NAME_HEAD, 4, Content::RawData(Data::Bytes(name))).add_atom_with(
            ident::DATA,
            0,
            Content::TypedData(data),
        );
        let r = Atom::with(ident::FREEFORM, 0, content);
        proof {
            let a0 = AtomView {
                head: ident::MEAN@,
                offset: 4,
                content: ContentView::RawData(DataView::Bytes(m)),
            };
            let a1 = AtomView {
                head: ident::NAME_HEAD@,
                offset: 4,
                content: ContentView::RawData(DataView::Bytes(n)),
            };
            let a2 = AtomView { head: ident::DATA@, offset: 0, content: ContentView::TypedData(dv) };
            assert(r@.content == ContentView::Atoms(
                Seq::<AtomView>::empty().push(a0).push(a1).push(a2),
            ));
            assert(Seq::<AtomView>::empty().push(a0).push(a1).push(a2) =~= seq![a0, a1, a2]);
            assert(r@ =~~= spec_freeform_atom(m, n, dv));
        }
        r
    }

    /// Returns the first child atom, when the content is a list of atoms.
    pub fn first_child(&self) -> (r: Option<&Atom>)
        ensures
            match r {
                Some(a) => self@.content matches ContentView::Atoms(s) && s.len() > 0 && a@
                    == s[0],
                None => !(self@.content matches ContentView::Atoms(s) && s.len() > 0),
            },
    {
        match &self.content {
            Content::Atoms(v) => {
                if v.len() > 0 {
                    proof {
                        lemma_atoms_view_index(v@);
                    }
                    Some(&v[0])
                } else {
                    None
                }
            },
            _ => None,
        }
    }

    /// Returns the first child atom mutably, when the content is a list of
    /// atoms.
    pub fn mut_first_child(&mut self) -> (r: Option<&mut Atom>)
        ensures
            match r {
                Some(a) => {
                    &&& old(self)@.content matches ContentView::Atoms(s) && s.len() > 0 && (*a)@
                        == s[0]
                    &&& final(self)@ == (AtomView {
                        content: ContentView::Atoms(
                            old(self)@.content->Atoms_0.update(0, (*final(a))@),
                        ),
                        ..old(self)@
                    })
                },
                None => {
                    &&& !(old(self)@.content matches ContentView::Atoms(s) && s.len() > 0)
                    &&& *final(self) == *old(self)
                },
            },
    {
        let ghost t0 = *self;
        match &mut self.content {
            Content::Atoms(v) => {
                if v.len() > 0 {
                    proof {
                        lemma_atoms_view_index(v@);
                        lemma_atoms_view_update(v@, 0, v@[0]);
                    }
                    let r = &mut v[0];
                    proof {
                        lemma_atoms_view_update(t0.content->Atoms_0@, 0, *final(r));
                    }
                    Some(r)
                } else {
                    None
                }
            },
            _ => None,
        }
    }

    /// Returns true when the parsed `ftyp` content starts with a brand
    /// accepted as MPEG-4 audio.
    pub fn is_valid_filetype(&self) -> (r: bool)
        ensures
            r == spec_valid_filetype(self@.content),
    {
        match &self.content {
            Content::RawData(Data::Bytes(b)) => {
                if b.len() >= 4 {
                    let m4a = b[0] == FILE_TYPE_M4A[0] && b[1] == FILE_TYPE_M4A[1] && b[2]
                        == FILE_TYPE_M4A[2] && b[3] == FILE_TYPE_M4A[3];
                    let m4b = b[0] == FILE_TYPE_M4B[0] && b[1] == FILE_TYPE_M4B[1] && b[2]
                        == FILE_TYPE_M4B[2] && b[3] == FILE_TYPE_M4B[3];
                    proof {
                        let p = b@.subrange(0, 4);
                        if m4a {
                            assert(p =~= FILE_TYPE_M4A@);
                        }
                        if m4b {
                            assert(p =~= FILE_TYPE_M4B@);
                        }
                        if b@.subrange(0, 4) == FILE_TYPE_M4A@ {
                            assert(b@[0] == FILE_TYPE_M4A@[0] && b@[1] == FILE_TYPE_M4A@[1]
                                && b@[2] == FILE_TYPE_M4A@[2] && b@[3] == FILE_TYPE_M4A@[3]) by {
                                assert(p[0] == b@[0] && p[1] == b@[1] && p[2] == b@[2] && p[3]
                                    == b@[3]);
                            }
                        }
                        if b@.subrange(0, 4) == FILE_TYPE_M4B@ {
                            assert(b@[0] == FILE_TYPE_M4B@[0] && b@[1] == FILE_TYPE_M4B@[1]
                                && b@[2] == FILE_TYPE_M4B@[2] && b@[3] == FILE_TYPE_M4B@[3]) by {
                                assert(p[0] == b@[0] && p[1] == b@[1] && p[2] == b@[2] && p[3]
                                    == b@[3]);
                            }
                        }
                    }
                    m4a || m4b
                } else {
                    false
                }
            },
            _ => false,
        }
    }

    /// Returns the atom hierarchy needed to parse the filetype.
    pub fn filetype_atom() -> (r: Atom)
        ensures
            r@ == spec_filetype_template(),
    {
        let r = Atom::with_raw_data(ident::FILETYPE, 0, Data::Bytes(Vec::new()));
        proof {
            assert(r@ =~~= spec_filetype_template());
        }
        r
    }

    /// Returns the atom hierarchy needed to parse the metadata: the
    /// canonical `moov > udta > meta > ilst` template with one child per
    /// known metadata fourcc. Adding a new known tag is one more child
    /// registration here; the engine does not change.
    pub fn metadata_atom() -> (r: Atom)
        ensures
            r@ == spec_metadata_template(),
    {
        let children = ilst_children_atoms();
        let r = Atom::with(
            ident::MOVIE,
            0,
            Content::with_atom(
                ident::USER_DATA,
                0,
                Content::with_atom(
                    ident::METADATA,
                    4,
                    Content::with_atom(ident::ITEM_LIST, 0, Content::Atoms(children)),
                ),
            ),
        );
        proof {
            assert(r@ =~~= spec_metadata_template());
        }
        r
    }

    /// Attempts to read an MPEG-4 audio tag from the stream: the `ftyp`
    /// atom is parsed and its brand checked - a well formed file of another
    /// flavor is rejected with `NoTag` - then the canonical metadata
    /// template is parsed against the rest of the stream.
    pub fn read_from(reader: &mut ByteStream) -> (r: Result<Tag, Error>)
        requires
            old(reader).wf(),
        ensures
            final(reader).wf(),
            final(reader).data@ == old(reader).data@,
            match r {
                Ok(tag) => spec_read_tag(old(reader).data@, old(reader).pos as int) == Ok::<
                    (AtomView, int),
                    ErrorRep,
                >((tag.atom@, final(reader).pos as int)),
                Err(e) => spec_read_tag(old(reader).data@, old(reader).pos as int) == Err::<
                    (AtomView, int),
                    ErrorRep,
                >(error_rep(e.kind)),
            },
    {
        let mut ftyp = Atom::filetype_atom();
        match ftyp.parse(reader) {
            Ok(()) => {},
            Err(e) => {
                return Err(e);
            },
        }
        if !ftyp.is_valid_filetype() {
            return Err(
                Error::new(ErrorKind::NoTag, "File does not contain MPEG-4 audio metadata"),
            );
        }
        let mut moov = Atom::metadata_atom();
        match moov.parse(reader) {
            Ok(()) => {},
            Err(e) => {
                return Err(e);
            },
        }
        Ok(Tag::with(moov))
    }
}

} // verus!
