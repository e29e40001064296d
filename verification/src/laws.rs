//! The engine's laws: what the scans guarantee on every stream.

use vstd::prelude::*;

use crate::atom::{
    count_true, spec_encodable, spec_encode, spec_encode_content, spec_encode_list,
    spec_encoded_len, spec_find_match, spec_list_encodable, spec_parse, spec_parse_atoms,
    spec_parse_content, spec_parse_head, seq_false, zeros, AtomView, ContentView, DataView,
};
use crate::error::ErrorRep;
use crate::stream::{be32_bytes, lemma_be32_round_trip};

verus! {

/// Skip-exactness: an atom whose head does not match the template has
/// exactly its declared length consumed - the 8 head bytes and `L - 8`
/// bytes of body, discarded and never buffered - and the scan carries on
/// right behind it with the same outcome.
pub proof fn lemma_skip_exact(t: AtomView, d: Seq<u8>, pos: int, len: int, h: Seq<u8>)
    requires
        spec_parse_head(d, pos) == Some((len, h)),
        h != t.head,
        len > 8,
        pos + len <= d.len(),
    ensures
        spec_parse(t, d, pos) == spec_parse(t, d, pos + len),
{
}

/// An atom of declared length 8 or less has no body: a non matching one
/// costs the scan exactly its 8 head bytes.
pub proof fn lemma_skip_empty(t: AtomView, d: Seq<u8>, pos: int, len: int, h: Seq<u8>)
    requires
        spec_parse_head(d, pos) == Some((len, h)),
        h != t.head,
        len <= 8,
    ensures
        spec_parse(t, d, pos) == spec_parse(t, d, pos + 8),
{
}

/// Tie-break determinism: when two templates of a list carry colliding
/// identifiers, the earlier one in list order is the one the sibling scan
/// matches, whichever of the two heads is read from the stream.
pub proof fn lemma_tie_break(ts: Seq<AtomView>, i: int, j: int)
    requires
        0 <= i < j < ts.len(),
        ts[j].head == ts[i].head,
        forall|k: int| 0 <= k < i ==> (#[trigger] ts[k]).head != ts[i].head,
    ensures
        spec_find_match(ts, ts[i].head, 0) == Some(i),
        spec_find_match(ts, ts[j].head, 0) == Some(i),
{
    crate::atom::lemma_find_match_from(ts, ts[i].head, 0, i);
}

/// Unknown tolerance: an atom whose head matches no template of the list,
/// framed within the remaining budget, is skipped byte-exactly and
/// silently - the scan's outcome over the rest of the stream is unchanged,
/// only the budget shrinks by the unknown atom's declared length.
pub proof fn lemma_unknown_skipped(
    ts: Seq<AtomView>,
    done: Seq<bool>,
    d: Seq<u8>,
    pos: int,
    budget: int,
    len: int,
    h: Seq<u8>,
)
    requires
        budget > 0,
        count_true(done) < ts.len(),
        spec_parse_head(d, pos) == Some((len, h)),
        forall|k: int| 0 <= k < ts.len() ==> (#[trigger] ts[k]).head != h,
        len > 8,
        len <= budget,
        pos + len <= d.len(),
    ensures
        spec_parse_atoms(ts, done, d, pos, budget) == spec_parse_atoms(
            ts,
            done,
            d,
            pos + len,
            budget - len,
        ),
{
    crate::atom::lemma_find_match_from(ts, h, 0, ts.len() as int);
}

/// Overrun rejection: an atom whose declared length exceeds the remaining
/// parent budget is inconsistent with it - the sibling scan aborts with a
/// bounds error instead of skipping past the parent's extent and
/// desynchronizing the scans around it.
pub proof fn lemma_overrun_rejected(
    ts: Seq<AtomView>,
    done: Seq<bool>,
    d: Seq<u8>,
    pos: int,
    budget: int,
    len: int,
    h: Seq<u8>,
)
    requires
        budget > 0,
        count_true(done) < ts.len(),
        spec_parse_head(d, pos) == Some((len, h)),
        len > budget,
    ensures
        spec_parse_atoms(ts, done, d, pos, budget) == Err::<(Seq<AtomView>, int), ErrorRep>(
            ErrorRep::BoundsExceeded,
        ),
{
}

/// A sequence of sibling atom frames as declared in a stream: each entry
/// is a declared length of at least 8 and the head read at its start, and
/// the next frame begins exactly at the end of the previous one.
pub open spec fn frames_at(d: Seq<u8>, pos: int, fs: Seq<(int, Seq<u8>)>) -> bool
    decreases fs,
{
    if fs.len() == 0 {
        true
    } else {
        &&& fs[0].0 >= 8
        &&& pos + fs[0].0 <= d.len()
        &&& spec_parse_head(d, pos) == Some((fs[0].0, fs[0].1))
        &&& frames_at(d, pos + fs[0].0, fs.subrange(1, fs.len() as int))
    }
}

/// The sum of the declared lengths of the frames.
pub open spec fn frames_len(fs: Seq<(int, Seq<u8>)>) -> int
    decreases fs,
{
    if fs.len() == 0 {
        0
    } else {
        fs[0].0 + frames_len(fs.subrange(1, fs.len() as int))
    }
}

/// How many frames carry the given head.
pub open spec fn count_head(fs: Seq<(int, Seq<u8>)>, h: Seq<u8>) -> int
    decreases fs,
{
    if fs.len() == 0 {
        0
    } else {
        (if fs[0].1 == h {
            1int
        } else {
            0int
        }) + count_head(fs.subrange(1, fs.len() as int), h)
    }
}

/// The sum of frame lengths is never negative.
pub proof fn lemma_frames_len_nonneg(fs: Seq<(int, Seq<u8>)>)
    requires
        forall|k: int| 0 <= k < fs.len() ==> (#[trigger] fs[k]).0 >= 8,
    ensures
        frames_len(fs) >= 0,
    decreases fs,
{
    if fs.len() > 0 {
        let tail = fs.subrange(1, fs.len() as int);
        assert(forall|k: int| 0 <= k < tail.len() ==> (#[trigger] tail[k]) == fs[k + 1]);
        lemma_frames_len_nonneg(tail);
    }
}

/// A template that carries a data payload directly behind its head.
pub open spec fn flat_template(t: AtomView) -> bool {
    t.offset == 0 && (t.content is RawData || t.content is TypedData)
}

/// A content that is the result of a flat parse: a raw byte payload, a
/// typed payload with its code and locale split off, or an absent field.
pub open spec fn is_parse_result(c: ContentView) -> bool {
    match c {
        ContentView::Empty => true,
        ContentView::RawData(dv) => dv is Bytes,
        ContentView::TypedData(dv) => dv is Typed,
        ContentView::Atoms(_) => false,
    }
}

/// Parsing the content of a flat template consumes exactly the declared
/// body and fills the field in.
pub proof fn lemma_flat_content_parse(t: AtomView, d: Seq<u8>, pos: int, len: int)
    requires
        flat_template(t),
        len >= 8,
        pos + (len - 8) <= d.len(),
    ensures
        spec_parse_content(t, d, pos, len) matches Ok(pair) && pair.1 == pos + (len - 8)
            && pair.0.head == t.head && pair.0.offset == t.offset && is_parse_result(
            pair.0.content,
        ),
{
}

/// Budget termination: scanning a sibling sequence that contains, besides
/// unrelated atoms, exactly one atom per still wanted template - the
/// templates' heads pairwise distinct - succeeds, fills every still wanted
/// template's field in, leaves the already matched templates untouched,
/// and consumes no byte beyond the frames' total declared length, which is
/// the parent's remaining budget; when the last frame carries a wanted
/// head, the bytes consumed equal exactly the sum of the declared lengths.
/// Stated for templates that carry a data payload directly behind the
/// head, as the `data` sub-templates inside the item list's children do.
pub proof fn lemma_budget_termination(
    ts: Seq<AtomView>,
    done: Seq<bool>,
    d: Seq<u8>,
    pos: int,
    fs: Seq<(int, Seq<u8>)>,
)
    requires
        done.len() == ts.len(),
        forall|k1: int, k2: int|
            0 <= k1 < ts.len() && 0 <= k2 < ts.len() && k1 != k2 ==> (#[trigger] ts[k1]).head != (
            #[trigger] ts[k2]).head,
        forall|k: int|
            0 <= k < ts.len() && !done[k] ==> flat_template(#[trigger] ts[k]),
        forall|k: int|
            0 <= k < ts.len() ==> count_head(fs, (#[trigger] ts[k]).head) == (if done[k] {
                0int
            } else {
                1int
            }),
        forall|k: int| 0 <= k < fs.len() ==> (#[trigger] fs[k]).0 >= 8,
        frames_at(d, pos, fs),
    ensures
        spec_parse_atoms(ts, done, d, pos, frames_len(fs)) matches Ok(r) && {
            &&& pos <= r.1 <= pos + frames_len(fs)
            &&& r.0.len() == ts.len()
            &&& forall|k: int| 0 <= k < ts.len() ==> (#[trigger] r.0[k]).head == ts[k].head
            &&& forall|k: int| 0 <= k < ts.len() && done[k] ==> (#[trigger] r.0[k]) == ts[k]
            &&& forall|k: int|
                0 <= k < ts.len() && !done[k] ==> is_parse_result((#[trigger] r.0[k]).content)
            &&& (fs.len() > 0 && (exists|k: int|
                0 <= k < ts.len() && (#[trigger] ts[k]).head == fs[fs.len() - 1].1))
                ==> r.1 == pos + frames_len(fs)
        },
    decreases fs,
{
    let budget = frames_len(fs);
    lemma_frames_len_nonneg(fs);
    crate::atom::lemma_count_true_bounds(done);
    if count_true(done) >= ts.len() {
        // every template already matched: the scan stops at once, and no
        // still wanted template exists
        assert forall|k: int| 0 <= k < ts.len() implies done[k] by {
            if !done[k] {
                crate::atom::lemma_count_true_lt(done, k);
            }
        }
        assert(spec_parse_atoms(ts, done, d, pos, budget) == Ok::<(Seq<AtomView>, int), ErrorRep>(
            (ts, pos),
        ));
        if fs.len() > 0 && (exists|k: int|
            0 <= k < ts.len() && (#[trigger] ts[k]).head == fs[fs.len() - 1].1) {
            // impossible: every template is matched, so no frame may carry
            // a template head
            let k = choose|k: int|
                0 <= k < ts.len() && (#[trigger] ts[k]).head == fs[fs.len() - 1].1;
            lemma_count_head_at(fs, fs.len() - 1);
            assert(count_head(fs, ts[k].head) == 0);
            assert(false);
        }
    } else if fs.len() == 0 {
        // no frames left, but a template is still wanted: its head would
        // have to occur in the empty frame sequence
        if forall|k: int| 0 <= k < done.len() ==> (#[trigger] done[k]) {
            crate::atom::lemma_count_true_full(done);
            assert(false);
        } else {
            let k = choose|k: int| 0 <= k < done.len() && !(#[trigger] done[k]);
            assert(count_head(fs, ts[k].head) == 1);
            assert(false);
        }
    } else {
        let tail = fs.subrange(1, fs.len() as int);
        let len = fs[0].0;
        let h = fs[0].1;
        assert(forall|k: int| 0 <= k < tail.len() ==> (#[trigger] tail[k]) == fs[k + 1]);
        lemma_frames_len_nonneg(tail);
        assert(budget == len + frames_len(tail));
        assert(budget > 0);
        assert(len <= budget);
        let budget2 = budget - len;
        assert(budget2 == frames_len(tail));
        match spec_find_match(ts, h, 0) {
            Some(i) => {
                lemma_find_match_is_match(ts, h, 0, i);
                assert(ts[i].head == h);
                assert(count_head(fs, ts[i].head) >= 1) by {
                    assert(count_head(tail, ts[i].head) >= 0) by {
                        lemma_count_head_nonneg(tail, ts[i].head);
                    }
                }
                assert(!done[i]);
                lemma_flat_content_parse(ts[i], d, pos + 8, len);
                let pair = spec_parse_content(ts[i], d, pos + 8, len)->Ok_0;
                let a2 = pair.0;
                let p2 = pair.1;
                assert(p2 == pos + len);
                let ts2 = ts.update(i, a2);
                let done2 = done.update(i, true);
                // the frame for template i is spent: its head occurs no
                // more, every other template's count is unchanged
                assert forall|k: int| 0 <= k < ts2.len() implies count_head(
                    tail,
                    (#[trigger] ts2[k]).head,
                ) == (if done2[k] {
                    0int
                } else {
                    1int
                }) by {
                    if k == i {
                        assert(count_head(fs, ts[i].head) == 1 + count_head(tail, ts[i].head));
                    } else {
                        assert(ts[k].head != h);
                        assert(count_head(fs, ts[k].head) == count_head(tail, ts[k].head));
                    }
                }
                lemma_budget_termination(ts2, done2, d, pos + len, tail);
                if fs.len() > 0 && (exists|k: int|
                    0 <= k < ts.len() && (#[trigger] ts[k]).head == fs[fs.len() - 1].1)
                    && tail.len() > 0 {
                    let k = choose|k: int|
                        0 <= k < ts.len() && (#[trigger] ts[k]).head == fs[fs.len() - 1].1;
                    assert(fs[fs.len() - 1] == tail[tail.len() - 1]);
                    assert(ts2[k].head == ts[k].head);
                    assert(exists|k2: int|
                        0 <= k2 < ts2.len() && (#[trigger] ts2[k2]).head == tail[tail.len()
                            - 1].1);
                }
            },
            None => {
                lemma_find_match_none(ts, h, 0);
                assert forall|k: int| 0 <= k < ts.len() implies count_head(
                    tail,
                    (#[trigger] ts[k]).head,
                ) == (if done[k] {
                    0int
                } else {
                    1int
                }) by {
                    assert(ts[k].head != h);
                    assert(count_head(fs, ts[k].head) == count_head(tail, ts[k].head));
                }
                lemma_budget_termination(ts, done, d, pos + len, tail);
                if fs.len() > 0 && (exists|k: int|
                    0 <= k < ts.len() && (#[trigger] ts[k]).head == fs[fs.len() - 1].1) {
                    let k = choose|k: int|
                        0 <= k < ts.len() && (#[trigger] ts[k]).head == fs[fs.len() - 1].1;
                    if tail.len() == 0 {
                        // the single frame's head matches no template, yet
                        // the premise names a template carrying it
                        assert(ts[k].head == h);
                        assert(false);
                    } else {
                        assert(fs[fs.len() - 1] == tail[tail.len() - 1]);
                        assert(exists|k2: int|
                            0 <= k2 < ts.len() && (#[trigger] ts[k2]).head == tail[tail.len()
                                - 1].1);
                    }
                }
                if len > 8 {
                } else {
                    assert(len == 8);
                }
            },
        }
    }
}

/// Round trip for a typed data atom: encoding it and parsing the bytes
/// back with a matching template gives the atom itself, with every input
/// byte consumed - so re-encoding the parse result reproduces the bytes.
#[verifier::rlimit(100)]
#[verifier::spinoff_prover]
pub proof fn lemma_round_trip_data_atom(
    h: Seq<u8>,
    code: u32,
    locale: u32,
    value: Seq<u8>,
    t: AtomView,
)
    requires
        h.len() == 4,
        t.head == h,
        t.offset == 0,
        t.content is TypedData,
        16 + value.len() <= 0xFFFFFFFF,
    ensures
        ({
            let a = AtomView {
                head: h,
                offset: 0,
                content: ContentView::TypedData(DataView::Typed { code, locale, value }),
            };
            let b = spec_encode(a);
            &&& b.len() == 16 + value.len()
            &&& spec_parse(t, b, 0) == Ok::<(AtomView, int), ErrorRep>((a, b.len() as int))
        }),
{
    let a = AtomView {
        head: h,
        offset: 0,
        content: ContentView::TypedData(DataView::Typed { code, locale, value }),
    };
    let content = be32_bytes(code as nat) + be32_bytes(locale as nat) + value;
    assert(spec_encode_content(a.content) == content);
    let len = 8 + content.len() as int;
    let b = spec_encode(a);
    assert(zeros(0) =~= Seq::<u8>::empty());
    assert(b =~= be32_bytes(len as nat) + h + content);
    assert(b.len() == 16 + value.len());
    lemma_be32_round_trip(len as nat);
    lemma_be32_round_trip(code as nat);
    lemma_be32_round_trip(locale as nat);
    assert(b.subrange(0, 4) =~= be32_bytes(len as nat));
    assert(b.subrange(4, 8) =~= h);
    assert(spec_parse_head(b, 0) == Some((len, h)));
    assert(b.subrange(8, 12) =~= be32_bytes(code as nat));
    assert(b.subrange(12, 16) =~= be32_bytes(locale as nat));
    assert(b.subrange(16, len) =~= value);
    let parsed = spec_parse_content(t, b, 8, len);
    assert(parsed is Ok);
    assert(parsed->Ok_0.0 =~~= a);
    assert(parsed->Ok_0.1 == len);
    assert(spec_parse(t, b, 0) == parsed);
}


/// A slice of a region equals the same slice of the bytes it holds.
proof fn lemma_subrange_slice(d: Seq<u8>, pos: int, b: Seq<u8>, x: int, y: int)
    requires
        0 <= pos,
        pos + b.len() <= d.len(),
        d.subrange(pos, pos + b.len() as int) == b,
        0 <= x <= y <= b.len(),
    ensures
        d.subrange(pos + x, pos + y) == b.subrange(x, y),
{
    assert forall|i: int| 0 <= i < y - x implies d.subrange(pos + x, pos + y)[i] == b.subrange(
        x,
        y,
    )[i] by {
        assert(d.subrange(pos, pos + b.len() as int)[x + i] == d[pos + x + i]);
    }
    assert(d.subrange(pos + x, pos + y) =~= b.subrange(x, y));
}

/// A template that matches a self-consistent tree node: same head and
/// offset, the content variant matching the node's - with raw payloads
/// nonempty and containers holding at least one child with pairwise
/// distinct heads, so that nothing degenerates to an empty atom.
pub open spec fn tree_template(t: AtomView, a: AtomView) -> bool
    decreases a,
{
    &&& t.head == a.head
    &&& a.head.len() == 4
    &&& t.offset == a.offset
    &&& match (t.content, a.content) {
        (ContentView::Empty, ContentView::Empty) => true,
        (ContentView::RawData(_), ContentView::RawData(av)) => av matches DataView::Bytes(b)
            && b.len() > 0,
        (ContentView::TypedData(_), ContentView::TypedData(av)) => av is Typed,
        (ContentView::Atoms(cts), ContentView::Atoms(cas)) => {
            &&& cts.len() == cas.len()
            &&& cas.len() > 0
            &&& forall|i: int| 0 <= i < cas.len() ==> tree_template(#[trigger] cts[i], cas[i])
            &&& forall|i: int, j: int|
                0 <= i < cas.len() && 0 <= j < cas.len() && i != j ==> (#[trigger] cas[i]).head
                    != (#[trigger] cas[j]).head
        },
        _ => false,
    }
}

/// The encoded bytes of an atom with a 4 byte head are its encoded length.
proof fn lemma_encode_len(a: AtomView)
    requires
        a.head.len() == 4,
    ensures
        spec_encode(a).len() == spec_encoded_len(a),
{
}

/// Round trip for the content of one tree node: parsing the encoded
/// content region with a template of matching shape gives the node itself
/// back, consuming the region exactly.
#[verifier::rlimit(100)]
#[verifier::spinoff_prover]
proof fn lemma_tree_parse_content(t: AtomView, a: AtomView, d: Seq<u8>, pos: int)
    requires
        tree_template(t, a),
        spec_encodable(a),
        0 <= pos,
        pos + (spec_encoded_len(a) - 8) <= d.len(),
        d.subrange(pos, pos + (spec_encoded_len(a) - 8)) == spec_encode(a).subrange(
            8,
            spec_encoded_len(a),
        ),
    ensures
        spec_parse_content(t, d, pos, spec_encoded_len(a)) == Ok::<(AtomView, int), ErrorRep>(
            (a, pos + (spec_encoded_len(a) - 8)),
        ),
    decreases a, 0int, 0int,
{
    let len = spec_encoded_len(a);
    let off = a.offset as int;
    let cbytes = spec_encode_content(a.content);
    let region = spec_encode(a).subrange(8, len);
    lemma_encode_len(a);
    assert(region =~= zeros(a.offset) + cbytes);
    assert(region.len() == off + cbytes.len());
    match a.content {
        ContentView::Empty => {
            if len <= 8 {
                assert(a =~~= AtomView { content: ContentView::Empty, ..t });
            } else {
                assert(a =~~= AtomView { content: ContentView::Empty, ..t });
            }
        },
        ContentView::RawData(av) => {
            let b = av->Bytes_0;
            assert(cbytes == b);
            assert(len > 8);
            lemma_subrange_slice(d, pos, region, off, off + b.len() as int);
            assert(region.subrange(off, off + b.len() as int) =~= b);
            assert(d.subrange(pos + off, pos + off + b.len() as int) == b);
            let pair = spec_parse_content(t, d, pos, len)->Ok_0;
            assert(pair.0 =~~= a);
        },
        ContentView::TypedData(av) => {
            let code = av->Typed_code;
            let locale = av->Typed_locale;
            let value = av->Typed_value;
            assert(cbytes == be32_bytes(code as nat) + be32_bytes(locale as nat) + value);
            assert(len > 8);
            let c = len - 8 - off;
            assert(c == cbytes.len());
            assert(c >= 8);
            let p = pos + off;
            lemma_be32_round_trip(code as nat);
            lemma_be32_round_trip(locale as nat);
            lemma_subrange_slice(d, pos, region, off, off + 4);
            assert(region.subrange(off, off + 4) =~= be32_bytes(code as nat));
            lemma_subrange_slice(d, pos, region, off + 4, off + 8);
            assert(region.subrange(off + 4, off + 8) =~= be32_bytes(locale as nat));
            lemma_subrange_slice(d, pos, region, off + 8, off + c);
            assert(region.subrange(off + 8, off + c) =~= value);
            let pair = spec_parse_content(t, d, pos, len)->Ok_0;
            assert(pair.0 =~~= a);
        },
        ContentView::Atoms(cas) => {
            let cts = t.content->Atoms_0;
            assert(cbytes == spec_encode_list(cas));
            assert(len > 8);
            let c = len - 8 - off;
            assert(c == cbytes.len());
            let p = pos + off;
            lemma_subrange_slice(d, pos, region, off, off + c);
            assert(region.subrange(off, off + c) =~= spec_encode_list(cas));
            assert(cas.subrange(0, cas.len() as int) =~= cas);
            lemma_tree_parse_atoms(cts, cas, 0, cts, seq_false(cts.len()), d, p);
            let pair = spec_parse_content(t, d, pos, len)->Ok_0;
            assert(pair.0 =~~= a);
        },
    }
}

/// Round trip for a sibling run: with the first `j` templates already
/// holding their parsed children and the stream region holding the
/// encodings of the children still to come, the scan recovers every
/// remaining child in order and stops exactly at the region's end.
#[verifier::rlimit(100)]
#[verifier::spinoff_prover]
proof fn lemma_tree_parse_atoms(
    cts: Seq<AtomView>,
    cas: Seq<AtomView>,
    j: int,
    ts: Seq<AtomView>,
    done: Seq<bool>,
    d: Seq<u8>,
    pos: int,
)
    requires
        cts.len() == cas.len(),
        0 <= j <= cas.len(),
        forall|i: int| 0 <= i < cas.len() ==> tree_template(#[trigger] cts[i], cas[i]),
        forall|i: int, k: int|
            0 <= i < cas.len() && 0 <= k < cas.len() && i != k ==> (#[trigger] cas[i]).head != (
            #[trigger] cas[k]).head,
        spec_list_encodable(cas),
        ts.len() == cas.len(),
        done.len() == cas.len(),
        forall|i: int| 0 <= i < j ==> (#[trigger] ts[i]) == cas[i],
        forall|i: int| j <= i < cas.len() ==> (#[trigger] ts[i]) == cts[i],
        forall|i: int| 0 <= i < j ==> (#[trigger] done[i]),
        forall|i: int| j <= i < cas.len() ==> !(#[trigger] done[i]),
        0 <= pos,
        pos + spec_encode_list(cas.subrange(j, cas.len() as int)).len() <= d.len(),
        d.subrange(
            pos,
            pos + spec_encode_list(cas.subrange(j, cas.len() as int)).len() as int,
        ) == spec_encode_list(cas.subrange(j, cas.len() as int)),
    ensures
        spec_parse_atoms(
            ts,
            done,
            d,
            pos,
            spec_encode_list(cas.subrange(j, cas.len() as int)).len() as int,
        ) == Ok::<(Seq<AtomView>, int), ErrorRep>(
            (cas, pos + spec_encode_list(cas.subrange(j, cas.len() as int)).len() as int),
        ),
    decreases cas, 1int, cas.len() - j,
{
    let n = cas.len() as int;
    let rem = spec_encode_list(cas.subrange(j, n));
    if j == n {
        assert(cas.subrange(j, n) =~= Seq::<AtomView>::empty());
        assert(rem.len() == 0);
        assert(ts =~= cas);
        assert(spec_parse_atoms(ts, done, d, pos, 0) == Ok::<(Seq<AtomView>, int), ErrorRep>(
            (ts, pos),
        ));
    } else {
        let suffix = cas.subrange(j, n);
        let rest = cas.subrange(j + 1, n);
        assert(suffix[0] == cas[j]);
        assert(suffix.subrange(1, suffix.len() as int) =~= rest);
        let first = spec_encode(cas[j]);
        assert(rem == first + spec_encode_list(rest));
        lemma_encode_len(cas[j]);
        let lj = spec_encoded_len(cas[j]);
        assert(first.len() == lj);
        assert(lj >= 8);
        crate::atom::lemma_count_true_lt(done, j);
        assert(count_true(done) < ts.len());
        assert(rem.len() >= lj);
        // the head at `pos` frames the next child exactly
        lemma_list_encodable_at(cas, j);
        assert(spec_encodable(cas[j]));
        lemma_be32_round_trip(lj as nat);
        lemma_subrange_slice(d, pos, rem, 0, 4);
        assert(rem.subrange(0, 4) =~= be32_bytes(lj as nat));
        lemma_subrange_slice(d, pos, rem, 4, 8);
        assert(rem.subrange(4, 8) =~= cas[j].head);
        assert(tree_template(cts[j], cas[j]));
        assert(cas[j].head.len() == 4);
        assert(spec_parse_head(d, pos) == Some((lj, cas[j].head)));
        // the earliest template with this head is template j itself
        assert forall|k: int| 0 <= k < j implies (#[trigger] ts[k]).head != cas[j].head by {
            assert(ts[k] == cas[k]);
        }
        assert(ts[j].head == cas[j].head);
        crate::atom::lemma_find_match_from(ts, cas[j].head, 0, j);
        // its content parse recovers the child and ends at the frame's end
        lemma_subrange_slice(d, pos, rem, 8, lj);
        assert(rem.subrange(8, lj) =~= first.subrange(8, lj));
        lemma_tree_parse_content(cts[j], cas[j], d, pos + 8);
        let ts2 = ts.update(j, cas[j]);
        let done2 = done.update(j, true);
        lemma_subrange_slice(d, pos, rem, lj, rem.len() as int);
        assert(rem.subrange(lj, rem.len() as int) =~= spec_encode_list(rest));
        assert(cas.subrange(j + 1, n) == rest);
        lemma_tree_parse_atoms(cts, cas, j + 1, ts2, done2, d, pos + lj);
        assert(spec_parse_atoms(ts, done, d, pos, rem.len() as int) == spec_parse_atoms(
            ts2,
            done2,
            d,
            pos + lj,
            rem.len() - lj,
        ));
    }
}

/// Every atom of an encodable list is encodable.
proof fn lemma_list_encodable_at(s: Seq<AtomView>, i: int)
    requires
        spec_list_encodable(s),
        0 <= i < s.len(),
    ensures
        spec_encodable(s[i]),
{
    crate::atom::lemma_list_encodable_index(s);
}

/// Round trip: parsing the encoding of a self-consistent tree - one with
/// nonempty payloads, at least one child per container, and sibling heads
/// distinct - with a template of matching shape gives the tree itself
/// back, consuming exactly its bytes; re-encoding the parse result
/// therefore reproduces the input bytes.
pub proof fn lemma_tree_round_trip(t: AtomView, a: AtomView, d: Seq<u8>, pos: int)
    requires
        tree_template(t, a),
        spec_encodable(a),
        0 <= pos,
        pos + spec_encode(a).len() <= d.len(),
        d.subrange(pos, pos + spec_encode(a).len() as int) == spec_encode(a),
    ensures
        spec_parse(t, d, pos) == Ok::<(AtomView, int), ErrorRep>(
            (a, pos + spec_encode(a).len() as int),
        ),
{
    let b = spec_encode(a);
    let len = spec_encoded_len(a);
    lemma_encode_len(a);
    lemma_be32_round_trip(len as nat);
    lemma_subrange_slice(d, pos, b, 0, 4);
    assert(b.subrange(0, 4) =~= be32_bytes(len as nat));
    lemma_subrange_slice(d, pos, b, 4, 8);
    assert(b.subrange(4, 8) =~= a.head);
    assert(spec_parse_head(d, pos) == Some((len, t.head)));
    lemma_subrange_slice(d, pos, b, 8, len);
    lemma_tree_parse_content(t, a, d, pos + 8);
}

/// A found index really is a match.
proof fn lemma_find_match_is_match(ts: Seq<AtomView>, h: Seq<u8>, i: int, j: int)
    requires
        spec_find_match(ts, h, i) == Some(j),
        0 <= i,
    ensures
        i <= j < ts.len(),
        ts[j].head == h,
    decreases ts.len() - i,
{
    if i < ts.len() && ts[i].head != h {
        lemma_find_match_is_match(ts, h, i + 1, j);
    }
}

/// When no index is found, no template matches.
proof fn lemma_find_match_none(ts: Seq<AtomView>, h: Seq<u8>, i: int)
    requires
        spec_find_match(ts, h, i) is None,
        0 <= i,
    ensures
        forall|k: int| i <= k < ts.len() ==> (#[trigger] ts[k]).head != h,
    decreases ts.len() - i,
{
    if i < ts.len() {
        lemma_find_match_none(ts, h, i + 1);
    }
}

/// A frame's own head is counted at least once.
proof fn lemma_count_head_at(fs: Seq<(int, Seq<u8>)>, m: int)
    requires
        0 <= m < fs.len(),
    ensures
        count_head(fs, fs[m].1) >= 1,
    decreases fs,
{
    let tail = fs.subrange(1, fs.len() as int);
    if m == 0 {
        lemma_count_head_nonneg(tail, fs[0].1);
    } else {
        assert(tail[m - 1] == fs[m]);
        lemma_count_head_at(tail, m - 1);
    }
}

/// A count of frames with one head is never negative.
proof fn lemma_count_head_nonneg(fs: Seq<(int, Seq<u8>)>, h: Seq<u8>)
    ensures
        count_head(fs, h) >= 0,
    decreases fs,
{
    if fs.len() > 0 {
        lemma_count_head_nonneg(fs.subrange(1, fs.len() as int), h);
    }
}

} // verus!
