//! Peer identifiers and the keys that they come from.
use vstd::prelude::*;

use crate::paths::{join, joined};

verus! {

/// What the `FromStr` of `libp2p::PeerId` reads from a text: the identifier's
/// bytes, or the text of its error.
pub uninterp spec fn read_peer(text: Seq<char>) -> Result<Seq<u8>, Seq<char>>;

/// What `libp2p::identity::Keypair::from_protobuf_encoding` reads from the
/// bytes of a key: the text of the peer identifier that belongs to it, or the
/// text of its error.
pub uninterp spec fn read_key(bytes: Seq<u8>) -> Result<Seq<char>, Seq<char>>;

/// The `FromStr` of `libp2p::PeerId`: what it returns is a function of the
/// text alone; the encoding of identifiers is left unsaid.
#[verifier::external_body]
fn parse_peer(text: &str) -> (r: Result<Vec<u8>, String>)
    ensures
        match r {
            Ok(b) => read_peer(text@) == Ok::<Seq<u8>, Seq<char>>(b@),
            Err(e) => read_peer(text@) == Err::<Seq<u8>, Seq<char>>(e@),
        },
{
    match text.parse::<libp2p::PeerId>() {
        Ok(peer) => Ok(peer.to_bytes()),
        Err(e) => Err(e.to_string()),
    }
}

/// `libp2p::identity::Keypair::from_protobuf_encoding`: what it returns is a
/// function of the bytes alone.  The identifier is that of the key, and it can
/// be read; how it is computed is left unsaid.
#[verifier::external_body]
fn decode_key(bytes: &[u8]) -> (r: Result<String, String>)
    ensures
        match r {
            Ok(id) => read_key(bytes@) == Ok::<Seq<char>, Seq<char>>(id@) && read_peer(id@) is Ok,
            Err(e) => read_key(bytes@) == Err::<Seq<char>, Seq<char>>(e@),
        },
{
    match libp2p::identity::Keypair::from_protobuf_encoding(bytes) {
        Ok(keypair) => Ok(keypair.public().to_peer_id().to_string()),
        Err(e) => Err(e.to_string()),
    }
}

/// The key of a peer's announcement record in the DHT: the bytes of its
/// identifier, or what is wrong with the identifier.
pub fn record_key(peer_id: &str) -> (r: Result<Vec<u8>, String>)
    ensures
        match r {
            Ok(b) => read_peer(peer_id@) == Ok::<Seq<u8>, Seq<char>>(b@),
            Err(e) => read_peer(peer_id@) == Err::<Seq<u8>, Seq<char>>(e@),
        },
{
    parse_peer(peer_id)
}

/// The path of the key file: the given one, else the default one, if there is
/// a configuration directory.
pub fn key_path(given: Option<&str>, config_dir: Option<&str>) -> (r: Result<String, String>)
    ensures
        match given {
            Some(p) => r is Ok && r->Ok_0@ == p@,
            None => match config_dir {
                Some(d) => r is Ok && r->Ok_0@ == joined(d@, "identity.key"@),
                None => r is Err && r->Err_0@ == "Cannot determine home directory"@,
            },
        },
{
    match given {
        Some(p) => Ok(p.to_owned()),
        None => match config_dir {
            Some(d) => Ok(join(d, "identity.key")),
            None => Err("Cannot determine home directory".to_owned()),
        },
    }
}

/// The peer identifier that belongs to a key file, or why there is none.
pub open spec fn identity_in(path: Seq<char>, content: Option<Seq<u8>>) -> Result<Seq<char>, Seq<char>> {
    match content {
        None => Err("Identity key not found at "@ + path),
        Some(bytes) => match read_key(bytes) {
            Ok(id) => Ok(id),
            Err(e) => Err("decoding keypair: "@ + e),
        },
    }
}

/// The peer identifier that belongs to the key file at `path` with this
/// content.  There is no content where there is no file: no key is made then.
pub fn peer_id_from_disk(path: &str, content: Option<&Vec<u8>>) -> (r: Result<String, String>)
    ensures
        identity_in(
            path@,
            match content {
                Some(c) => Some(c@),
                None => None,
            },
        ) == (match r {
            Ok(id) => Ok::<Seq<char>, Seq<char>>(id@),
            Err(e) => Err::<Seq<char>, Seq<char>>(e@),
        }),
        r matches Ok(id) ==> read_peer(id@) is Ok,
{
    match content {
        None => {
            let mut e = "Identity key not found at ".to_owned();
            e.push_str(path);
            Err(e)
        },
        Some(bytes) => match decode_key(bytes.as_slice()) {
            Ok(id) => Ok(id),
            Err(e) => {
                let mut told = "decoding keypair: ".to_owned();
                told.push_str(e.as_str());
                Err(told)
            },
        },
    }
}

} // verus!
