//! The identifier model.
//!
//! An atom is identified either by a four character code carried in its head,
//! or - for freeform (`----`) atoms - by a pair of mean and name strings
//! carried in child atoms. The two shapes never compare equal to each other.

use vstd::prelude::*;
use vstd::string::StringSliceAdditionalSpecFns;

verus! {

/// (`ftyp`) Identifier of an atom carrying information about the filetype.
pub const FILETYPE: [u8; 4] = [0x66, 0x74, 0x79, 0x70];
/// (`mdat`) Identifier of an atom carrying the media data.
pub const MEDIA_DATA: [u8; 4] = [0x6d, 0x64, 0x61, 0x74];
/// (`moov`) Identifier of an atom containing a structure of children storing metadata.
pub const MOVIE: [u8; 4] = [0x6d, 0x6f, 0x6f, 0x76];
/// (`mvhd`) Identifier of an atom containing information about the whole movie.
pub const MOVIE_HEADER: [u8; 4] = [0x6d, 0x76, 0x68, 0x64];
/// (`trak`) Identifier of an atom containing information about a single track.
pub const TRACK: [u8; 4] = [0x74, 0x72, 0x61, 0x6b];
/// (`mdia`) Identifier of an atom containing information about a tracks media type and data.
pub const MEDIA: [u8; 4] = [0x6d, 0x64, 0x69, 0x61];
/// (`minf`) Identifier of a media information atom.
pub const MEDIA_INFORMATION: [u8; 4] = [0x6d, 0x69, 0x6e, 0x66];
/// (`stbl`) Identifier of a sample table atom.
pub const SAMPLE_TABLE: [u8; 4] = [0x73, 0x74, 0x62, 0x6c];
/// (`stco`) Identifier of a sample table chunk offset atom.
pub const SAMPLE_TABLE_CHUNK_OFFSET: [u8; 4] = [0x73, 0x74, 0x63, 0x6f];
/// (`co64`) Identifier of a 64 bit sample table chunk offset atom.
pub const SAMPLE_TABLE_CHUNK_OFFSET_64: [u8; 4] = [0x63, 0x6f, 0x36, 0x34];
/// (`stsd`) Identifier of a sample table sample description atom.
pub const SAMPLE_TABLE_SAMPLE_DESCRIPTION: [u8; 4] = [0x73, 0x74, 0x73, 0x64];
/// (`mp4a`) Identifier of an MPEG-4 audio atom.
pub const MP4_AUDIO: [u8; 4] = [0x6d, 0x70, 0x34, 0x61];
/// (`esds`) Identifier of an elementary stream description atom.
pub const ELEMENTARY_STREAM_DESCRIPTION: [u8; 4] = [0x65, 0x73, 0x64, 0x73];
/// (`udta`) Identifier of an atom containing user metadata.
pub const USER_DATA: [u8; 4] = [0x75, 0x64, 0x74, 0x61];
/// (`meta`) Identifier of an atom containing a metadata item list.
pub const METADATA: [u8; 4] = [0x6d, 0x65, 0x74, 0x61];
/// (`hdlr`) Identifier of an atom specifying the handler component.
pub const HANDLER_REFERENCE: [u8; 4] = [0x68, 0x64, 0x6c, 0x72];
/// (`ilst`) Identifier of an atom containing a list of metadata atoms.
pub const ITEM_LIST: [u8; 4] = [0x69, 0x6c, 0x73, 0x74];
/// (`data`) Identifier of an atom containing typed data.
pub const DATA: [u8; 4] = [0x64, 0x61, 0x74, 0x61];
/// (`mean`) Identifier of the mean child of a freeform atom.
pub const MEAN: [u8; 4] = [0x6d, 0x65, 0x61, 0x6e];
/// (`name`) Identifier of the name child of a freeform atom.
pub const NAME_HEAD: [u8; 4] = [0x6e, 0x61, 0x6d, 0x65];
/// (`free`) Identifier of a padding atom.
pub const FREE: [u8; 4] = [0x66, 0x72, 0x65, 0x65];
/// (`----`) The reserved four character code of a freeform atom.
pub const FREEFORM: [u8; 4] = [0x2d, 0x2d, 0x2d, 0x2d];

/// (`rtng`) An advisory rating atom.
pub const ADVISORY_RATING: [u8; 4] = [0x72, 0x74, 0x6e, 0x67];
/// (`(c)alb`, with the legacy `0xa9` prefix byte) An album atom.
pub const ALBUM: [u8; 4] = [0xa9, 0x61, 0x6c, 0x62];
/// (`aART`) An album artist atom.
pub const ALBUM_ARTIST: [u8; 4] = [0x61, 0x41, 0x52, 0x54];
/// (`(c)ART`) An artist atom.
pub const ARTIST: [u8; 4] = [0xa9, 0x41, 0x52, 0x54];
/// (`covr`) An artwork atom.
pub const ARTWORK: [u8; 4] = [0x63, 0x6f, 0x76, 0x72];
/// (`tmpo`) A tempo atom.
pub const BPM: [u8; 4] = [0x74, 0x6d, 0x70, 0x6f];
/// (`(c)cmt`) A comment atom.
pub const COMMENT: [u8; 4] = [0xa9, 0x63, 0x6d, 0x74];
/// (`cpil`) A compilation flag atom.
pub const COMPILATION: [u8; 4] = [0x63, 0x70, 0x69, 0x6c];
/// (`(c)wrt`) A composer atom.
pub const COMPOSER: [u8; 4] = [0xa9, 0x77, 0x72, 0x74];
/// (`cprt`) A copyright atom.
pub const COPYRIGHT: [u8; 4] = [0x63, 0x70, 0x72, 0x74];
/// (`(c)gen`) A custom genre atom.
pub const CUSTOM_GENRE: [u8; 4] = [0xa9, 0x67, 0x65, 0x6e];
/// (`disk`) A disc number atom.
pub const DISC_NUMBER: [u8; 4] = [0x64, 0x69, 0x73, 0x6b];
/// (`(c)too`) An encoder atom.
pub const ENCODER: [u8; 4] = [0xa9, 0x74, 0x6f, 0x6f];
/// (`gnre`) A standard genre atom.
pub const STANDARD_GENRE: [u8; 4] = [0x67, 0x6e, 0x72, 0x65];
/// (`(c)nam`) A title atom.
pub const TITLE: [u8; 4] = [0xa9, 0x6e, 0x61, 0x6d];
/// (`trkn`) A track number atom.
pub const TRACK_NUMBER: [u8; 4] = [0x74, 0x72, 0x6b, 0x6e];
/// (`(c)day`) A year atom.
pub const YEAR: [u8; 4] = [0xa9, 0x64, 0x61, 0x79];
/// (`(c)grp`) A grouping atom.
pub const GROUPING: [u8; 4] = [0xa9, 0x67, 0x72, 0x70];
/// (`stik`) A media type atom.
pub const MEDIA_TYPE: [u8; 4] = [0x73, 0x74, 0x69, 0x6b];
/// (`catg`) A category atom.
pub const CATEGORY: [u8; 4] = [0x63, 0x61, 0x74, 0x67];
/// (`keyw`) A keyword atom.
pub const KEYWORD: [u8; 4] = [0x6b, 0x65, 0x79, 0x77];
/// (`pcst`) A podcast flag atom.
pub const PODCAST: [u8; 4] = [0x70, 0x63, 0x73, 0x74];
/// (`egid`) A podcast episode global unique id atom.
pub const PODCAST_EPISODE_GLOBAL_UNIQUE_ID: [u8; 4] = [0x65, 0x67, 0x69, 0x64];
/// (`purl`) A podcast url atom.
pub const PODCAST_URL: [u8; 4] = [0x70, 0x75, 0x72, 0x6c];
/// (`desc`) A description atom.
pub const DESCRIPTION: [u8; 4] = [0x64, 0x65, 0x73, 0x63];
/// (`(c)lyr`) A lyrics atom.
pub const LYRICS: [u8; 4] = [0xa9, 0x6c, 0x79, 0x72];
/// (`tves`) A tv episode atom.
pub const TV_EPISODE: [u8; 4] = [0x74, 0x76, 0x65, 0x73];
/// (`tven`) A tv episode name atom.
pub const TV_EPISODE_NAME: [u8; 4] = [0x74, 0x76, 0x65, 0x6e];
/// (`tvnn`) A tv network name atom.
pub const TV_NETWORK_NAME: [u8; 4] = [0x74, 0x76, 0x6e, 0x6e];
/// (`tvsn`) A tv season atom.
pub const TV_SEASON: [u8; 4] = [0x74, 0x76, 0x73, 0x6e];
/// (`tvsh`) A tv show name atom.
pub const TV_SHOW_NAME: [u8; 4] = [0x74, 0x76, 0x73, 0x68];
/// (`purd`) A purchase date atom.
pub const PURCHASE_DATE: [u8; 4] = [0x70, 0x75, 0x72, 0x64];
/// (`pgap`) A gapless playback flag atom.
pub const GAPLESS_PLAYBACK: [u8; 4] = [0x70, 0x67, 0x61, 0x70];
/// (`(c)mvn`) A movement atom.
pub const MOVEMENT: [u8; 4] = [0xa9, 0x6d, 0x76, 0x6e];
/// (`(c)mvc`) A movement count atom.
pub const MOVEMENT_COUNT: [u8; 4] = [0xa9, 0x6d, 0x76, 0x63];
/// (`(c)mvi`) A movement index atom.
pub const MOVEMENT_INDEX: [u8; 4] = [0xa9, 0x6d, 0x76, 0x69];
/// (`(c)wrk`) A work atom.
pub const WORK: [u8; 4] = [0xa9, 0x77, 0x72, 0x6b];
/// (`shwm`) A show movement flag atom.
pub const SHOW_MOVEMENT: [u8; 4] = [0x73, 0x68, 0x77, 0x6d];

/// Mean string of most freeform identifiers (`com.apple.iTunes`).
pub const APPLE_ITUNES_MEAN: &'static str = "com.apple.iTunes";

/// The mathematical shape of an identifier: four raw bytes, or a freeform
/// mean and name string pair.
pub enum IdentRep {
    /// Four raw bytes.
    Code(Seq<u8>),
    /// A mean string and a name string.
    Freeform(Seq<char>, Seq<char>),
}

/// Compares two string slices by their characters.
pub fn str_eq(a: &str, b: &str) -> (r: bool)
    ensures
        r == (a@ == b@),
{
    let x = a.to_owned();
    let y = b.to_owned();
    x == y
}

/// A trait providing information about an identifier.
pub trait Ident {
    /// The shape of this identifier.
    spec fn rep(&self) -> IdentRep;

    /// Returns the 4 byte atom identifier, for a fourcc shaped identifier.
    fn fourcc(&self) -> (r: Option<Fourcc>)
        ensures
            match r {
                Some(f) => self.rep() == IdentRep::Code(f.0@),
                None => !(self.rep() is Code),
            },
    ;

    /// Returns the freeform identifier, for a freeform shaped identifier.
    fn freeform<'a>(&'a self) -> (r: Option<FreeformIdent<'a>>)
        ensures
            match r {
                Some(f) => self.rep() == IdentRep::Freeform(f.mean@, f.name@),
                None => !(self.rep() is Freeform),
            },
    ;
}

/// Returns whether the identifiers match: same shape, same payload.
pub fn idents_match<A: Ident, B: Ident>(a: &A, b: &B) -> (r: bool)
    ensures
        r == (a.rep() == b.rep()),
{
    match (a.fourcc(), b.fourcc()) {
        (Some(x), Some(y)) => x == y,
        (None, None) => match (a.freeform(), b.freeform()) {
            (Some(x), Some(y)) => x == y,
            (None, None) => {
                proof {
                    assert(false);
                }
                true
            },
            _ => false,
        },
        _ => false,
    }
}

/// Freeform identity: two freeform identifiers are equal exactly when both
/// their mean and their name strings are; a fourcc identifier is never
/// equal to a freeform identifier, whatever its bytes.
pub proof fn lemma_freeform_identity(
    m1: Seq<char>,
    n1: Seq<char>,
    m2: Seq<char>,
    n2: Seq<char>,
    c: Seq<u8>,
)
    ensures
        (IdentRep::Freeform(m1, n1) == IdentRep::Freeform(m2, n2)) <==> (m1 == m2 && n1 == n2),
        IdentRep::Code(c) != IdentRep::Freeform(m1, n1),
{
}

/// A 4 byte atom identifier (four character code).
#[derive(Clone, Copy, Debug, Hash)]
pub struct Fourcc(pub [u8; 4]);

impl PartialEq for Fourcc {
    fn eq(&self, other: &Fourcc) -> (r: bool) {
        let r = self.0[0] == other.0[0] && self.0[1] == other.0[1] && self.0[2] == other.0[2]
            && self.0[3] == other.0[3];
        proof {
            if r {
                assert(self.0@ =~= other.0@);
            }
        }
        r
    }
}

impl vstd::std_specs::cmp::PartialEqSpecImpl for Fourcc {
    open spec fn obeys_eq_spec() -> bool {
        true
    }

    open spec fn eq_spec(&self, other: &Fourcc) -> bool {
        self.0@ == other.0@
    }
}

impl Eq for Fourcc {}

impl PartialEq<DataIdent> for Fourcc {
    fn eq(&self, other: &DataIdent) -> (r: bool) {
        match other {
            DataIdent::Fourcc(f) => self == f,
            DataIdent::Freeform { .. } => false,
        }
    }
}

impl vstd::std_specs::cmp::PartialEqSpecImpl<DataIdent> for Fourcc {
    open spec fn obeys_eq_spec() -> bool {
        true
    }

    open spec fn eq_spec(&self, other: &DataIdent) -> bool {
        self.rep() == other.rep()
    }
}

impl Ident for Fourcc {
    open spec fn rep(&self) -> IdentRep {
        IdentRep::Code(self.0@)
    }

    fn fourcc(&self) -> (r: Option<Fourcc>) {
        Some(*self)
    }

    fn freeform<'a>(&'a self) -> (r: Option<FreeformIdent<'a>>) {
        None
    }
}

impl Fourcc {
    /// Builds a fourcc from a string of exactly 4 bytes; any other length is
    /// rejected with `InvalidIdentifierLength`.
    pub fn from_text(s: &str) -> (r: Result<Fourcc, crate::error::Error>)
        ensures
            match r {
                Ok(f) => f.0@ == s.spec_bytes() && s.spec_bytes().len() == 4,
                Err(e) => e.kind == crate::error::ErrorKind::InvalidIdentifierLength
                    && s.spec_bytes().len() != 4,
            },
    {
        let b = s.as_bytes();
        if b.len() == 4 {
            let f = Fourcc([b[0], b[1], b[2], b[3]]);
            proof {
                assert(f.0@ =~= s.spec_bytes());
            }
            Ok(f)
        } else {
            Err(crate::error::Error::new(
                crate::error::ErrorKind::InvalidIdentifierLength,
                "Fourcc strings must be exactly 4 bytes long",
            ))
        }
    }
}

impl core::str::FromStr for Fourcc {
    type Err = crate::error::Error;

    /// Builds a fourcc from a string of exactly 4 bytes.
    fn from_str(s: &str) -> (r: Result<Fourcc, crate::error::Error>) {
        Fourcc::from_text(s)
    }
}

/// An identifier of a freeform (`----`) atom containing borrowed mean and
/// name strings.
#[derive(Clone, Debug)]
pub struct FreeformIdent<'a> {
    /// The mean string, typically in reverse domain notation.
    pub mean: &'a str,
    /// The name string used to identify the freeform atom.
    pub name: &'a str,
}

impl<'a> FreeformIdent<'a> {
    /// Creates a new freeform ident containing the mean and name as borrowed
    /// strings.
    pub fn new(mean: &'a str, name: &'a str) -> (r: Self)
        ensures
            r.mean@ == mean@,
            r.name@ == name@,
    {
        FreeformIdent { mean, name }
    }
}

impl PartialEq for FreeformIdent<'_> {
    fn eq(&self, other: &FreeformIdent<'_>) -> (r: bool) {
        str_eq(self.mean, other.mean) && str_eq(self.name, other.name)
    }
}

impl vstd::std_specs::cmp::PartialEqSpecImpl for FreeformIdent<'_> {
    open spec fn obeys_eq_spec() -> bool {
        true
    }

    open spec fn eq_spec(&self, other: &FreeformIdent<'_>) -> bool {
        self.mean@ == other.mean@ && self.name@ == other.name@
    }
}

impl Eq for FreeformIdent<'_> {}

impl PartialEq<DataIdent> for FreeformIdent<'_> {
    fn eq(&self, other: &DataIdent) -> (r: bool) {
        match other {
            DataIdent::Fourcc(_) => false,
            DataIdent::Freeform { mean, name } => str_eq(self.mean, mean.as_str()) && str_eq(
                self.name,
                name.as_str(),
            ),
        }
    }
}

impl vstd::std_specs::cmp::PartialEqSpecImpl<DataIdent> for FreeformIdent<'_> {
    open spec fn obeys_eq_spec() -> bool {
        true
    }

    open spec fn eq_spec(&self, other: &DataIdent) -> bool {
        self.rep() == other.rep()
    }
}

impl Ident for FreeformIdent<'_> {
    open spec fn rep(&self) -> IdentRep {
        IdentRep::Freeform(self.mean@, self.name@)
    }

    fn fourcc(&self) -> (r: Option<Fourcc>) {
        None
    }

    fn freeform<'a>(&'a self) -> (r: Option<FreeformIdent<'a>>) {
        Some(FreeformIdent { mean: self.mean, name: self.name })
    }
}

/// An identifier for data: an owned union of the two identifier shapes.
#[derive(Debug)]
pub enum DataIdent {
    /// A standard identifier containing a 4 byte atom identifier.
    Fourcc(Fourcc),
    /// An identifier of a freeform (`----`) atom containing owned mean and
    /// name strings.
    Freeform {
        /// The mean string, typically in reverse domain notation.
        mean: String,
        /// The name string used to identify the freeform atom.
        name: String,
    },
}

impl Clone for DataIdent {
    fn clone(&self) -> (r: DataIdent)
        ensures
            r.rep() == self.rep(),
    {
        match self {
            DataIdent::Fourcc(f) => DataIdent::Fourcc(*f),
            DataIdent::Freeform { mean, name } => DataIdent::Freeform {
                mean: mean.clone(),
                name: name.clone(),
            },
        }
    }
}

impl PartialEq for DataIdent {
    fn eq(&self, other: &DataIdent) -> (r: bool) {
        match (self, other) {
            (DataIdent::Fourcc(a), DataIdent::Fourcc(b)) => a == b,
            (
                DataIdent::Freeform { mean: am, name: an },
                DataIdent::Freeform { mean: bm, name: bn },
            ) => str_eq(am.as_str(), bm.as_str()) && str_eq(an.as_str(), bn.as_str()),
            _ => false,
        }
    }
}

impl vstd::std_specs::cmp::PartialEqSpecImpl for DataIdent {
    open spec fn obeys_eq_spec() -> bool {
        true
    }

    open spec fn eq_spec(&self, other: &DataIdent) -> bool {
        self.rep() == other.rep()
    }
}

impl Eq for DataIdent {}

impl Ident for DataIdent {
    open spec fn rep(&self) -> IdentRep {
        match *self {
            DataIdent::Fourcc(f) => IdentRep::Code(f.0@),
            DataIdent::Freeform { mean, name } => IdentRep::Freeform(mean@, name@),
        }
    }

    fn fourcc(&self) -> (r: Option<Fourcc>) {
        match self {
            DataIdent::Fourcc(f) => Some(*f),
            DataIdent::Freeform { .. } => None,
        }
    }

    fn freeform<'a>(&'a self) -> (r: Option<FreeformIdent<'a>>) {
        match self {
            DataIdent::Fourcc(_) => None,
            DataIdent::Freeform { mean, name } => Some(
                FreeformIdent::new(mean.as_str(), name.as_str()),
            ),
        }
    }
}

impl DataIdent {
    /// Creates a new freeform identifier from the owned mean and name string.
    pub fn freeform(mean: &str, name: &str) -> (r: Self)
        ensures
            r.rep() == IdentRep::Freeform(mean@, name@),
    {
        DataIdent::Freeform { mean: mean.to_owned(), name: name.to_owned() }
    }

    /// Creates a new fourcc identifier from the 4 byte identifier.
    pub fn fourcc(bytes: [u8; 4]) -> (r: Self)
        ensures
            r.rep() == IdentRep::Code(bytes@),
    {
        DataIdent::Fourcc(Fourcc(bytes))
    }
}


/// The friendly name table: each known identifier beside its title case
/// name, in a fixed order.
pub open spec fn name_table() -> Seq<(Seq<char>, IdentRep)> {
    seq![
        ("Filetype"@, IdentRep::Code(FILETYPE@)),
        ("Media Data"@, IdentRep::Code(MEDIA_DATA@)),
        ("Movie"@, IdentRep::Code(MOVIE@)),
        ("Movie Header"@, IdentRep::Code(MOVIE_HEADER@)),
        ("Track"@, IdentRep::Code(TRACK@)),
        ("Media"@, IdentRep::Code(MEDIA@)),
        ("Media Information"@, IdentRep::Code(MEDIA_INFORMATION@)),
        ("Sample Table"@, IdentRep::Code(SAMPLE_TABLE@)),
        ("Sample Table Chunk Offset"@, IdentRep::Code(SAMPLE_TABLE_CHUNK_OFFSET@)),
        ("Sample Table Chunk Offset 64"@, IdentRep::Code(SAMPLE_TABLE_CHUNK_OFFSET_64@)),
        ("Sample Table Sample Description"@, IdentRep::Code(SAMPLE_TABLE_SAMPLE_DESCRIPTION@)),
        ("Mp4 Audio"@, IdentRep::Code(MP4_AUDIO@)),
        ("Elementary Stream Description"@, IdentRep::Code(ELEMENTARY_STREAM_DESCRIPTION@)),
        ("User Data"@, IdentRep::Code(USER_DATA@)),
        ("Metadata"@, IdentRep::Code(METADATA@)),
        ("Handler Reference"@, IdentRep::Code(HANDLER_REFERENCE@)),
        ("Item List"@, IdentRep::Code(ITEM_LIST@)),
        ("Data"@, IdentRep::Code(DATA@)),
        ("Mean"@, IdentRep::Code(MEAN@)),
        ("Name"@, IdentRep::Code(NAME_HEAD@)),
        ("Free"@, IdentRep::Code(FREE@)),
        ("Freeform"@, IdentRep::Code(FREEFORM@)),
        ("Advisory Rating"@, IdentRep::Code(ADVISORY_RATING@)),
        ("Album"@, IdentRep::Code(ALBUM@)),
        ("Album Artist"@, IdentRep::Code(ALBUM_ARTIST@)),
        ("Artist"@, IdentRep::Code(ARTIST@)),
        ("Artwork"@, IdentRep::Code(ARTWORK@)),
        ("Bpm"@, IdentRep::Code(BPM@)),
        ("Comment"@, IdentRep::Code(COMMENT@)),
        ("Compilation"@, IdentRep::Code(COMPILATION@)),
        ("Composer"@, IdentRep::Code(COMPOSER@)),
        ("Copyright"@, IdentRep::Code(COPYRIGHT@)),
        ("Custom Genre"@, IdentRep::Code(CUSTOM_GENRE@)),
        ("Disc Number"@, IdentRep::Code(DISC_NUMBER@)),
        ("Encoder"@, IdentRep::Code(ENCODER@)),
        ("Standard Genre"@, IdentRep::Code(STANDARD_GENRE@)),
        ("Title"@, IdentRep::Code(TITLE@)),
        ("Track Number"@, IdentRep::Code(TRACK_NUMBER@)),
        ("Year"@, IdentRep::Code(YEAR@)),
        ("Grouping"@, IdentRep::Code(GROUPING@)),
        ("Media Type"@, IdentRep::Code(MEDIA_TYPE@)),
        ("Category"@, IdentRep::Code(CATEGORY@)),
        ("Keyword"@, IdentRep::Code(KEYWORD@)),
        ("Podcast"@, IdentRep::Code(PODCAST@)),
        ("Podcast Episode Global Unique Id"@, IdentRep::Code(PODCAST_EPISODE_GLOBAL_UNIQUE_ID@)),
        ("Podcast Url"@, IdentRep::Code(PODCAST_URL@)),
        ("Description"@, IdentRep::Code(DESCRIPTION@)),
        ("Lyrics"@, IdentRep::Code(LYRICS@)),
        ("Tv Episode"@, IdentRep::Code(TV_EPISODE@)),
        ("Tv Episode Name"@, IdentRep::Code(TV_EPISODE_NAME@)),
        ("Tv Network Name"@, IdentRep::Code(TV_NETWORK_NAME@)),
        ("Tv Season"@, IdentRep::Code(TV_SEASON@)),
        ("Tv Show Name"@, IdentRep::Code(TV_SHOW_NAME@)),
        ("Purchase Date"@, IdentRep::Code(PURCHASE_DATE@)),
        ("Gapless Playback"@, IdentRep::Code(GAPLESS_PLAYBACK@)),
        ("Movement"@, IdentRep::Code(MOVEMENT@)),
        ("Movement Count"@, IdentRep::Code(MOVEMENT_COUNT@)),
        ("Movement Index"@, IdentRep::Code(MOVEMENT_INDEX@)),
        ("Work"@, IdentRep::Code(WORK@)),
        ("Show Movement"@, IdentRep::Code(SHOW_MOVEMENT@)),
        ("Isrc"@, IdentRep::Freeform(APPLE_ITUNES_MEAN@, "ISRC"@)),
        ("Lyricist"@, IdentRep::Freeform(APPLE_ITUNES_MEAN@, "LYRICIST"@)),
    ]
}

/// Appends one table entry.
fn add_entry(v: &mut Vec<(String, DataIdent)>, name: &str, id: DataIdent)
    ensures
        final(v)@.len() == old(v)@.len() + 1,
        forall|j: int| 0 <= j < old(v)@.len() ==> final(v)@[j] == old(v)@[j],
        final(v)@[old(v)@.len() as int].0@ == name@,
        final(v)@[old(v)@.len() as int].1 == id,
{
    let owned = name.to_owned();
    proof {
        assert(owned@ == name@);
    }
    v.push((owned, id));
}

/// Builds the friendly name table as owned pairs, in table order.
#[verifier::rlimit(100)]
#[verifier::spinoff_prover]
pub fn ident_name_pairs() -> (r: Vec<(String, DataIdent)>)
    ensures
        r@.len() == name_table().len(),
        forall|i: int|
            0 <= i < r@.len() ==> (#[trigger] r@[i]).0@ == name_table()[i].0 && r@[i].1.rep()
                == name_table()[i].1,
{
    let mut v: Vec<(String, DataIdent)> = Vec::new();
    add_entry(&mut v, "Filetype", DataIdent::fourcc(FILETYPE));
    add_entry(&mut v, "Media Data", DataIdent::fourcc(MEDIA_DATA));
    add_entry(&mut v, "Movie", DataIdent::fourcc(MOVIE));
    add_entry(&mut v, "Movie Header", DataIdent::fourcc(MOVIE_HEADER));
    add_entry(&mut v, "Track", DataIdent::fourcc(TRACK));
    add_entry(&mut v, "Media", DataIdent::fourcc(MEDIA));
    add_entry(&mut v, "Media Information", DataIdent::fourcc(MEDIA_INFORMATION));
    add_entry(&mut v, "Sample Table", DataIdent::fourcc(SAMPLE_TABLE));
    add_entry(&mut v, "Sample Table Chunk Offset", DataIdent::fourcc(SAMPLE_TABLE_CHUNK_OFFSET));
    add_entry(&mut v, "Sample Table Chunk Offset 64", DataIdent::fourcc(SAMPLE_TABLE_CHUNK_OFFSET_64));
    add_entry(&mut v, "Sample Table Sample Description", DataIdent::fourcc(SAMPLE_TABLE_SAMPLE_DESCRIPTION));
    add_entry(&mut v, "Mp4 Audio", DataIdent::fourcc(MP4_AUDIO));
    add_entry(&mut v, "Elementary Stream Description", DataIdent::fourcc(ELEMENTARY_STREAM_DESCRIPTION));
    add_entry(&mut v, "User Data", DataIdent::fourcc(USER_DATA));
    add_entry(&mut v, "Metadata", DataIdent::fourcc(METADATA));
    add_entry(&mut v, "Handler Reference", DataIdent::fourcc(HANDLER_REFERENCE));
    add_entry(&mut v, "Item List", DataIdent::fourcc(ITEM_LIST));
    add_entry(&mut v, "Data", DataIdent::fourcc(DATA));
    add_entry(&mut v, "Mean", DataIdent::fourcc(MEAN));
    add_entry(&mut v, "Name", DataIdent::fourcc(NAME_HEAD));
    add_entry(&mut v, "Free", DataIdent::fourcc(FREE));
    add_entry(&mut v, "Freeform", DataIdent::fourcc(FREEFORM));
    add_entry(&mut v, "Advisory Rating", DataIdent::fourcc(ADVISORY_RATING));
    add_entry(&mut v, "Album", DataIdent::fourcc(ALBUM));
    add_entry(&mut v, "Album Artist", DataIdent::fourcc(ALBUM_ARTIST));
    add_entry(&mut v, "Artist", DataIdent::fourcc(ARTIST));
    add_entry(&mut v, "Artwork", DataIdent::fourcc(ARTWORK));
    add_entry(&mut v, "Bpm", DataIdent::fourcc(BPM));
    add_entry(&mut v, "Comment", DataIdent::fourcc(COMMENT));
    add_entry(&mut v, "Compilation", DataIdent::fourcc(COMPILATION));
    add_entry(&mut v, "Composer", DataIdent::fourcc(COMPOSER));
    add_entry(&mut v, "Copyright", DataIdent::fourcc(COPYRIGHT));
    add_entry(&mut v, "Custom Genre", DataIdent::fourcc(CUSTOM_GENRE));
    add_entry(&mut v, "Disc Number", DataIdent::fourcc(DISC_NUMBER));
    add_entry(&mut v, "Encoder", DataIdent::fourcc(ENCODER));
    add_entry(&mut v, "Standard Genre", DataIdent::fourcc(STANDARD_GENRE));
    add_entry(&mut v, "Title", DataIdent::fourcc(TITLE));
    add_entry(&mut v, "Track Number", DataIdent::fourcc(TRACK_NUMBER));
    add_entry(&mut v, "Year", DataIdent::fourcc(YEAR));
    add_entry(&mut v, "Grouping", DataIdent::fourcc(GROUPING));
    add_entry(&mut v, "Media Type", DataIdent::fourcc(MEDIA_TYPE));
    add_entry(&mut v, "Category", DataIdent::fourcc(CATEGORY));
    add_entry(&mut v, "Keyword", DataIdent::fourcc(KEYWORD));
    add_entry(&mut v, "Podcast", DataIdent::fourcc(PODCAST));
    add_entry(&mut v, "Podcast Episode Global Unique Id", DataIdent::fourcc(PODCAST_EPISODE_GLOBAL_UNIQUE_ID));
    add_entry(&mut v, "Podcast Url", DataIdent::fourcc(PODCAST_URL));
    add_entry(&mut v, "Description", DataIdent::fourcc(DESCRIPTION));
    add_entry(&mut v, "Lyrics", DataIdent::fourcc(LYRICS));
    add_entry(&mut v, "Tv Episode", DataIdent::fourcc(TV_EPISODE));
    add_entry(&mut v, "Tv Episode Name", DataIdent::fourcc(TV_EPISODE_NAME));
    add_entry(&mut v, "Tv Network Name", DataIdent::fourcc(TV_NETWORK_NAME));
    add_entry(&mut v, "Tv Season", DataIdent::fourcc(TV_SEASON));
    add_entry(&mut v, "Tv Show Name", DataIdent::fourcc(TV_SHOW_NAME));
    add_entry(&mut v, "Purchase Date", DataIdent::fourcc(PURCHASE_DATE));
    add_entry(&mut v, "Gapless Playback", DataIdent::fourcc(GAPLESS_PLAYBACK));
    add_entry(&mut v, "Movement", DataIdent::fourcc(MOVEMENT));
    add_entry(&mut v, "Movement Count", DataIdent::fourcc(MOVEMENT_COUNT));
    add_entry(&mut v, "Movement Index", DataIdent::fourcc(MOVEMENT_INDEX));
    add_entry(&mut v, "Work", DataIdent::fourcc(WORK));
    add_entry(&mut v, "Show Movement", DataIdent::fourcc(SHOW_MOVEMENT));
    add_entry(&mut v, "Isrc", DataIdent::freeform(APPLE_ITUNES_MEAN, "ISRC"));
    add_entry(&mut v, "Lyricist", DataIdent::freeform(APPLE_ITUNES_MEAN, "LYRICIST"));
    proof {
        assert forall|i: int|
            0 <= i < v@.len() implies (#[trigger] v@[i]).0@ == name_table()[i].0 && v@[i].1.rep()
            == name_table()[i].1 by {
            assert(name_table().len() == 62);
        }
    }
    v
}

impl DataIdent {
    /// Tries to get the friendly name for this identifier, in title case.
    pub fn friendly_name(&self) -> (r: Option<String>)
        ensures
            match r {
                Some(s) => exists|i: int|
                    0 <= i < name_table().len() && #[trigger] name_table()[i] == (s@, self.rep()),
                None => forall|i: int|
                    0 <= i < name_table().len() ==> (#[trigger] name_table()[i]).1 != self.rep(),
            },
    {
        let table = ident_name_pairs();
        let mut i: usize = 0;
        while i < table.len()
            invariant
                table@.len() == name_table().len(),
                forall|j: int|
                    0 <= j < table@.len() ==> (#[trigger] table@[j]).0@ == name_table()[j].0
                        && table@[j].1.rep() == name_table()[j].1,
                i <= table@.len(),
                forall|j: int|
                    0 <= j < i ==> (#[trigger] name_table()[j]).1 != self.rep(),
            decreases table@.len() - i,
        {
            if self == &table[i].1 {
                let s = table[i].0.clone();
                proof {
                    assert(name_table()[i as int] == (s@, self.rep()));
                }
                return Some(s);
            }
            i = i + 1;
        }
        None
    }

    /// Tries to build an identifier from the given friendly name in title
    /// case.
    pub fn from_friendly_name(name: &str) -> (r: Option<DataIdent>)
        ensures
            match r {
                Some(d) => exists|i: int|
                    0 <= i < name_table().len() && #[trigger] name_table()[i] == (name@, d.rep()),
                None => forall|i: int|
                    0 <= i < name_table().len() ==> (#[trigger] name_table()[i]).0 != name@,
            },
    {
        let table = ident_name_pairs();
        let mut i: usize = 0;
        while i < table.len()
            invariant
                table@.len() == name_table().len(),
                forall|j: int|
                    0 <= j < table@.len() ==> (#[trigger] table@[j]).0@ == name_table()[j].0
                        && table@[j].1.rep() == name_table()[j].1,
                i <= table@.len(),
                forall|j: int| 0 <= j < i ==> (#[trigger] name_table()[j]).0 != name@,
            decreases table@.len() - i,
        {
            if str_eq(name, table[i].0.as_str()) {
                let d = table[i].1.clone();
                proof {
                    assert(name_table()[i as int] == (name@, d.rep()));
                }
                return Some(d);
            }
            i = i + 1;
        }
        None
    }
}

} // verus!
