//! Identifiers and their external string forms.
//!
//! A change hash is written as the hexadecimal text of its thirty-two bytes,
//! an object identifier as the hexadecimal text of its binary form. Strings
//! from callers become identifiers here and nowhere else.
use crate::error::Error;
use crate::hexcode::{decode_hex, encode_hex, hex_bytes, hex_chars, is_hex, lemma_hex_round_trip};
use crate::replica::{clone_id, id_bytes, id_from_bytes, id_parsed, id_to_bytes, root_id};
use vstd::prelude::*;

verus! {

/// The hash of one change: thirty-two bytes.
#[derive(Debug, Clone, Copy, PartialEq, Eq)]
pub struct ChangeHash {
    pub bytes: [u8; 32],
}

impl View for ChangeHash {
    type V = Seq<u8>;

    open spec fn view(&self) -> Seq<u8> {
        self.bytes@
    }
}

/// The hash that `s` is the external form of, if it is one: hexadecimal text
/// of thirty-two bytes.
pub open spec fn hash_of_text(s: Seq<char>) -> Option<Seq<u8>> {
    if is_hex(s) && s.len() == 64 {
        Some(hex_bytes(s))
    } else {
        None
    }
}

/// The hashes that a list of texts stands for, if every one is the external
/// form of a hash.
pub open spec fn hashes_of_texts(texts: Seq<Seq<char>>) -> Option<Seq<Seq<u8>>> {
    if forall|i: int| 0 <= i < texts.len() ==> (#[trigger] hash_of_text(texts[i])) is Some {
        Some(Seq::new(texts.len(), |i: int| hash_of_text(texts[i]).unwrap()))
    } else {
        None
    }
}

impl ChangeHash {
    /// Reads a hash from its external form. Anything but hexadecimal text of
    /// thirty-two bytes is a malformed identifier.
    pub fn parse(s: &str) -> (r: Result<ChangeHash, Error>)
        ensures
            match r {
                Ok(h) => hash_of_text(s@) == Some(h@),
                Err(e) => e == Error::MalformedIdentifier && hash_of_text(s@) is None,
            },
    {
        match decode_hex(s) {
            None => Err(Error::MalformedIdentifier),
            Some(v) => {
                if v.len() != 32 {
                    return Err(Error::MalformedIdentifier);
                }
                let mut bytes = [0u8;32];
                let mut i: usize = 0;
                while i < 32
                    invariant
                        i <= 32,
                        v.len() == 32,
                        forall|k: int| 0 <= k < i ==> bytes@[k] == v@[k],
                    decreases 32 - i,
                {
                    bytes[i] = v[i];
                    i += 1;
                }
                assert(bytes@ =~= v@);
                Ok(ChangeHash { bytes })
            },
        }
    }

    /// The external form of this hash: sixty-four lower case hexadecimal
    /// digits.
    pub fn to_hex(&self) -> (s: String)
        ensures
            s@ == hex_chars(self@),
    {
        let mut v: Vec<u8> = Vec::new();
        let mut i: usize = 0;
        while i < 32
            invariant
                i <= 32,
                v@ == self.bytes@.take(i as int),
            decreases 32 - i,
        {
            v.push(self.bytes[i]);
            assert(self.bytes@.take(i + 1) =~= self.bytes@.take(i as int).push(self.bytes@[i as int]));
            i += 1;
        }
        assert(v@ =~= self.bytes@);
        encode_hex(&v)
    }
}

/// The external form of a hash reads back as that hash.
pub proof fn lemma_hash_round_trip(h: ChangeHash)
    ensures
        hash_of_text(hex_chars(h@)) == Some(h@),
{
    lemma_hex_round_trip(h@);
}

/// Reads a list of heads from their external forms: no heads where none are
/// given, and a malformed identifier where any of them is not the external
/// form of a hash.
pub fn get_heads(heads: Option<Vec<String>>) -> (r: Result<Vec<ChangeHash>, Error>)
    ensures
        match (heads, r) {
            (None, Ok(v)) => v@.len() == 0,
            (Some(given), Ok(v)) => hashes_of_texts(crate::replica::texts(given@)) == Some(
                hashes_of(v@),
            ),
            (None, Err(_)) => false,
            (Some(given), Err(e)) => e == Error::MalformedIdentifier && hashes_of_texts(
                crate::replica::texts(given@),
            ) is None,
        },
{
    match heads {
        None => Ok(Vec::new()),
        Some(given) => {
            let ghost texts = crate::replica::texts(given@);
            let mut parsed: Vec<ChangeHash> = Vec::new();
            let mut i: usize = 0;
            while i < given.len()
                invariant
                    i <= given.len(),
                    heads == Some(given),
                    texts == crate::replica::texts(given@),
                    texts.len() == given.len(),
                    parsed.len() == i,
                    forall|k: int|
                        0 <= k < i ==> hash_of_text(#[trigger] texts[k]) == Some(parsed@[k]@),
                decreases given.len() - i,
            {
                assert(texts[i as int] == given@[i as int]@);
                match ChangeHash::parse(given[i].as_str()) {
                    Ok(h) => {
                        parsed.push(h);
                    },
                    Err(_) => {
                        assert(hash_of_text(texts[i as int]) is None);
                        return Err(Error::MalformedIdentifier);
                    },
                }
                i += 1;
            }
            assert forall|k: int| 0 <= k < texts.len() implies (#[trigger] hash_of_text(
                texts[k],
            )) is Some by {}
            assert(hashes_of(parsed@) =~= hashes_of_texts(texts).unwrap());
            Ok(parsed)
        },
    }
}

/// The hashes as the document takes them.
pub(crate) fn raw_heads(heads: &Vec<ChangeHash>) -> (raw: Vec<[u8; 32]>)
    ensures
        crate::replica::hashes(raw@) == hashes_of(heads@),
{
    let mut raw: Vec<[u8; 32]> = Vec::new();
    let mut i: usize = 0;
    while i < heads.len()
        invariant
            i <= heads.len(),
            raw.len() == i,
            forall|k: int| 0 <= k < i ==> (#[trigger] raw@[k])@ == heads@[k]@,
        decreases heads.len() - i,
    {
        raw.push(heads[i].bytes);
        i += 1;
    }
    assert(crate::replica::hashes(raw@) =~= hashes_of(heads@));
    raw
}

/// The hashes of a list of change hashes.
pub open spec fn hashes_of(heads: Seq<ChangeHash>) -> Seq<Seq<u8>> {
    heads.map_values(|h: ChangeHash| h@)
}

/// The identifier of a container.
pub struct ObjectId {
    pub(crate) id: automerge::ObjId,
}

impl View for ObjectId {
    type V = Seq<u8>;

    /// The binary form of the identifier.
    open(crate) spec fn view(&self) -> Seq<u8> {
        id_bytes(self.id)
    }
}

/// The binary form of the identifier that `s` is the external form of, if it
/// is one: hexadecimal text of bytes that are the binary form of an
/// identifier.
pub open spec fn id_of_text(s: Seq<char>) -> Option<Seq<u8>> {
    if is_hex(s) {
        id_parsed(hex_bytes(s))
    } else {
        None
    }
}

impl ObjectId {
    /// The binary form of the root's identifier: a single zero byte.
    pub open spec fn root_bytes() -> Seq<u8> {
        seq![0u8]
    }

    /// The identifier of the root object.
    pub fn root() -> (id: ObjectId)
        ensures
            id@ == ObjectId::root_bytes(),
    {
        ObjectId { id: root_id() }
    }

    /// Reads an identifier from its external form. Anything but hexadecimal
    /// text of the binary form of an identifier is a malformed identifier.
    pub fn parse(s: &str) -> (r: Result<ObjectId, Error>)
        ensures
            match r {
                Ok(id) => id_of_text(s@) == Some(id@),
                Err(e) => e == Error::MalformedIdentifier && id_of_text(s@) is None,
            },
    {
        match decode_hex(s) {
            None => Err(Error::MalformedIdentifier),
            Some(bytes) => match id_from_bytes(&bytes) {
                None => Err(Error::MalformedIdentifier),
                Some(id) => Ok(ObjectId { id }),
            },
        }
    }

    /// The binary form of this identifier.
    pub fn to_bytes(&self) -> (bytes: Vec<u8>)
        ensures
            bytes@ == self@,
    {
        id_to_bytes(&self.id)
    }

    /// The external form of this identifier, which `parse` reads back as the
    /// same identifier.
    pub fn to_hex(&self) -> (s: String)
        ensures
            s@ == hex_chars(self@),
            id_of_text(s@) == Some(self@),
    {
        let bytes = id_to_bytes(&self.id);
        proof {
            lemma_hex_round_trip(bytes@);
        }
        encode_hex(&bytes)
    }

    /// Whether this is the identifier of the root object.
    pub fn is_root(&self) -> (b: bool)
        ensures
            b == (self@ == ObjectId::root_bytes()),
    {
        let bytes = id_to_bytes(&self.id);
        let b = bytes.len() == 1 && bytes[0] == 0;
        assert(b ==> bytes@ =~= seq![0u8]);
        b
    }

    /// The identifier that the document knows under this binary form.
    pub(crate) fn wrap(id: automerge::ObjId) -> (r: ObjectId)
        ensures
            r@ == id_bytes(id),
    {
        ObjectId { id }
    }

    /// The identifier as the document takes it.
    pub(crate) fn raw(&self) -> (id: &automerge::ObjId)
        ensures
            id_bytes(*id) == self@,
    {
        &self.id
    }

    /// A copy of this identifier.
    pub fn duplicate(&self) -> (copy: ObjectId)
        ensures
            copy@ == self@,
    {
        ObjectId { id: clone_id(&self.id) }
    }
}

} // verus!
