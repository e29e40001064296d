//! Reading and writing of iTunes style MPEG-4 audio metadata.
//!
//! The crate centres on the atom tree engine: a recursive descent parser and
//! serializer for the length-prefixed box ("atom") structure of an MPEG-4
//! file. A caller builds a template tree of wanted atoms, the engine matches
//! it against the atoms actually present in a byte stream, skips everything
//! else byte-exactly, and fills the template's content in place. Writing is
//! the dual: a tree is serialized depth-first, each atom's length prefix
//! computed bottom-up from its encoded children.

pub mod atom;
pub mod error;
pub mod ident;
pub mod laws;
pub mod stream;
pub mod types;

pub use atom::{Atom, AtomView, Content, ContentView, Data, DataView, Tag};
pub use error::{Error, ErrorKind};
pub use ident::{idents_match, DataIdent, Fourcc, FreeformIdent, Ident, IdentRep};
pub use stream::ByteStream;
pub use types::{AdvisoryRating, AudioInfo, ChannelConfig, Img, ImgFmt, MediaType, SampleRate};
