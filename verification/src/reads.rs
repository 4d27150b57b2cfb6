//! Reading a document: values, keys, and the flat view of the root.
//!
//! Every read names its object by a reference and may name heads: with none
//! (or an empty list) it sees the live state of the active mode, else the
//! state as of those heads.
use crate::convert::plain_value;
use crate::document::{lemma_settled_known, Automerge};
use crate::error::{Error, ErrorView};
use crate::hexcode::hex_chars;
use crate::ident::{get_heads, hashes_of, hashes_of_texts, raw_heads, ObjectId};
use crate::pathtext::{render_index, text_of_index};
use crate::replica::{
    doc_entry, doc_entry_at, doc_get, doc_get_at, doc_get_heads, doc_keys, doc_keys_at,
    doc_keys_of, doc_keys_of_at, doc_map_entries, doc_map_entries_at, doc_map_items,
    doc_has_change, doc_map_items_at, doc_pending, doc_update_cursor, has_all, listing_view,
    same_history, same_snapshots, sealed, settled, texts,
};
use crate::resolve::target;
use crate::value::{ObjType, PlainValue, Prop, PropView, Scalar, ScalarView, ValueView};
use vstd::prelude::*;

verus! {

/// A value read from a document, with the identifier that came with it: for
/// a container its own, for a scalar that of the operation that wrote it.
pub struct FullValue {
    pub value: PlainValue,
    pub id: ObjectId,
}

impl View for FullValue {
    type V = (ValueView, Seq<u8>);

    open spec fn view(&self) -> (ValueView, Seq<u8>) {
        (self.value@, self.id@)
    }
}

impl FullValue {
    /// The tag that names the kind of the value.
    pub fn get_type(&self) -> (tag: String)
        ensures
            tag@ == self@.0.type_tag(),
    {
        self.value.get_type()
    }

    /// The external form of the identifier that came with the value.
    pub fn get_id(&self) -> (s: String)
        ensures
            s@ == hex_chars(self@.1),
    {
        self.id.to_hex()
    }

    /// The string of a string value; a type mismatch for any other value.
    pub fn get_value_string(&self) -> (r: Result<String, Error>)
        ensures
            match r {
                Ok(s) => self@.0 == ValueView::Scalar(ScalarView::Str(s@)),
                Err(e) => e == Error::TypeMismatch && self@.0.type_tag() != "str"@,
            },
    {
        proof {
            lemma_tags_differ(self@.0);
        }
        match &self.value {
            PlainValue::Scalar(Scalar::Str(s)) => Ok(s.clone()),
            _ => Err(Error::TypeMismatch),
        }
    }

    /// The number of an integer; a type mismatch for any other value.
    pub fn get_value_int(&self) -> (r: Result<i64, Error>)
        ensures
            match r {
                Ok(n) => self@.0 == ValueView::Scalar(ScalarView::Int(n)),
                Err(e) => e == Error::TypeMismatch && self@.0.type_tag() != "int"@,
            },
    {
        proof {
            lemma_tags_differ(self@.0);
        }
        match &self.value {
            PlainValue::Scalar(Scalar::Int(n)) => Ok(*n),
            _ => Err(Error::TypeMismatch),
        }
    }

    /// The number of an unsigned integer; a type mismatch for any other
    /// value.
    pub fn get_value_uint(&self) -> (r: Result<u64, Error>)
        ensures
            match r {
                Ok(n) => self@.0 == ValueView::Scalar(ScalarView::Uint(n)),
                Err(e) => e == Error::TypeMismatch && self@.0.type_tag() != "uint"@,
            },
    {
        proof {
            lemma_tags_differ(self@.0);
        }
        match &self.value {
            PlainValue::Scalar(Scalar::Uint(n)) => Ok(*n),
            _ => Err(Error::TypeMismatch),
        }
    }

    /// The bits of a double, in its IEEE 754 form; a type mismatch for any
    /// other value.
    pub fn get_value_double_bits(&self) -> (r: Result<u64, Error>)
        ensures
            match r {
                Ok(bits) => self@.0 == ValueView::Scalar(ScalarView::Double(bits)),
                Err(e) => e == Error::TypeMismatch && self@.0.type_tag() != "f64"@,
            },
    {
        proof {
            lemma_tags_differ(self@.0);
        }
        match &self.value {
            PlainValue::Scalar(Scalar::Double(bits)) => Ok(*bits),
            _ => Err(Error::TypeMismatch),
        }
    }

    /// The truth value of a boolean; a type mismatch for any other value.
    pub fn get_value_boolean(&self) -> (r: Result<bool, Error>)
        ensures
            match r {
                Ok(b) => self@.0 == ValueView::Scalar(ScalarView::Boolean(b)),
                Err(e) => e == Error::TypeMismatch && self@.0.type_tag() != "boolean"@,
            },
    {
        proof {
            lemma_tags_differ(self@.0);
        }
        match &self.value {
            PlainValue::Scalar(Scalar::Boolean(b)) => Ok(*b),
            _ => Err(Error::TypeMismatch),
        }
    }

    /// The milliseconds of a timestamp; a type mismatch for any other value.
    pub fn get_value_timestamp(&self) -> (r: Result<i64, Error>)
        ensures
            match r {
                Ok(n) => self@.0 == ValueView::Scalar(ScalarView::Timestamp(n)),
                Err(e) => e == Error::TypeMismatch && self@.0.type_tag() != "timestamp"@,
            },
    {
        proof {
            lemma_tags_differ(self@.0);
        }
        match &self.value {
            PlainValue::Scalar(Scalar::Timestamp(n)) => Ok(*n),
            _ => Err(Error::TypeMismatch),
        }
    }

    /// The current value of a counter; a type mismatch for any other value.
    pub fn get_value_counter(&self) -> (r: Result<i64, Error>)
        ensures
            match r {
                Ok(n) => self@.0 == ValueView::Scalar(ScalarView::Counter(n)),
                Err(e) => e == Error::TypeMismatch && self@.0.type_tag() != "counter"@,
            },
    {
        proof {
            lemma_tags_differ(self@.0);
        }
        match &self.value {
            PlainValue::Scalar(Scalar::Counter(n)) => Ok(*n),
            _ => Err(Error::TypeMismatch),
        }
    }

    /// The bytes of a byte string; a type mismatch for any other value.
    pub fn get_value_bytes(&self) -> (r: Result<Vec<u8>, Error>)
        ensures
            match r {
                Ok(b) => self@.0 == ValueView::Scalar(ScalarView::Bytes(b@)),
                Err(e) => e == Error::TypeMismatch && self@.0.type_tag() != "bytes"@,
            },
    {
        proof {
            lemma_tags_differ(self@.0);
        }
        match &self.value {
            PlainValue::Scalar(Scalar::Bytes(b)) => Ok(b.clone()),
            _ => Err(Error::TypeMismatch),
        }
    }

    /// Nothing, for a null; a type mismatch for any other value.
    pub fn get_value_null(&self) -> (r: Result<(), Error>)
        ensures
            match r {
                Ok(_) => self@.0 == ValueView::Scalar(ScalarView::Null),
                Err(e) => e == Error::TypeMismatch && self@.0.type_tag() != "null"@,
            },
    {
        proof {
            lemma_tags_differ(self@.0);
        }
        match &self.value {
            PlainValue::Scalar(Scalar::Null) => Ok(()),
            _ => Err(Error::TypeMismatch),
        }
    }

    /// The type code and raw bytes of a scalar of unknown kind; a type
    /// mismatch for any other value.
    pub fn get_value_unknown(&self) -> (r: Result<(u8, Vec<u8>), Error>)
        ensures
            match r {
                Ok((code, b)) => self@.0 == ValueView::Scalar(
                    ScalarView::Unknown { type_code: code, bytes: b@ },
                ),
                Err(e) => e == Error::TypeMismatch && self@.0.type_tag() != "unknown"@,
            },
    {
        proof {
            lemma_tags_differ(self@.0);
        }
        match &self.value {
            PlainValue::Scalar(Scalar::Unknown { type_code, bytes }) => Ok(
                (*type_code, bytes.clone()),
            ),
            _ => Err(Error::TypeMismatch),
        }
    }

    /// The type of a container; a type mismatch for a scalar.
    pub fn get_object_type(&self) -> (r: Result<ObjType, Error>)
        ensures
            match r {
                Ok(t) => self@.0 == ValueView::Object(t),
                Err(e) => e == Error::TypeMismatch && self@.0 is Scalar,
            },
    {
        match &self.value {
            PlainValue::Object(t) => Ok(*t),
            PlainValue::Scalar(_) => Err(Error::TypeMismatch),
        }
    }
}

/// The tags of values of different kinds are different texts.
pub proof fn lemma_tags_differ(v: ValueView)
    ensures
        v.type_tag() == "str"@ <==> v matches ValueView::Scalar(ScalarView::Str(_)),
        v.type_tag() == "int"@ <==> v matches ValueView::Scalar(ScalarView::Int(_)),
        v.type_tag() == "uint"@ <==> v matches ValueView::Scalar(ScalarView::Uint(_)),
        v.type_tag() == "f64"@ <==> v matches ValueView::Scalar(ScalarView::Double(_)),
        v.type_tag() == "boolean"@ <==> v matches ValueView::Scalar(ScalarView::Boolean(_)),
        v.type_tag() == "timestamp"@ <==> v matches ValueView::Scalar(ScalarView::Timestamp(_)),
        v.type_tag() == "counter"@ <==> v matches ValueView::Scalar(ScalarView::Counter(_)),
        v.type_tag() == "bytes"@ <==> v matches ValueView::Scalar(ScalarView::Bytes(_)),
        v.type_tag() == "null"@ <==> v matches ValueView::Scalar(ScalarView::Null),
        v.type_tag() == "unknown"@ <==> v matches ValueView::Scalar(ScalarView::Unknown { .. }),
{
    reveal_strlit("str");
    reveal_strlit("int");
    reveal_strlit("uint");
    reveal_strlit("f64");
    reveal_strlit("boolean");
    reveal_strlit("timestamp");
    reveal_strlit("counter");
    reveal_strlit("bytes");
    reveal_strlit("null");
    reveal_strlit("unknown");
    reveal_strlit("list");
    reveal_strlit("map");
    reveal_strlit("table");
    reveal_strlit("text");
    let t = v.type_tag();
    assert("str"@.len() == 3 && "int"@.len() == 3 && "map"@.len() == 3 && "f64"@.len() == 3);
    assert("str"@[0] == 's' && "int"@[0] == 'i' && "map"@[0] == 'm' && "f64"@[0] == 'f');
    assert("uint"@.len() == 4 && "null"@.len() == 4 && "list"@.len() == 4 && "text"@.len() == 4);
    assert("uint"@[0] == 'u' && "null"@[0] == 'n' && "list"@[0] == 'l' && "text"@[0] == 't');
    assert("bytes"@.len() == 5 && "table"@.len() == 5);
    assert("bytes"@[0] == 'b' && "table"@[0] == 't');
    assert("boolean"@.len() == 7 && "counter"@.len() == 7 && "unknown"@.len() == 7);
    assert("boolean"@[0] == 'b' && "counter"@[0] == 'c' && "unknown"@[0] == 'u');
    assert("timestamp"@.len() == 9);
}

/// The type of a value with the string that it holds, if it is a string.
#[derive(Debug, Clone, PartialEq, Eq)]
pub struct ValueRecord {
    pub value_type: String,
    pub value_str: Option<String>,
}

impl View for ValueRecord {
    type V = (Seq<char>, Option<Seq<char>>);

    open spec fn view(&self) -> (Seq<char>, Option<Seq<char>>) {
        (
            self.value_type@,
            match self.value_str {
                Some(s) => Some(s@),
                None => None,
            },
        )
    }
}

/// The record of a value: its tag, and its string if it is one.
pub open spec fn record_of(v: ValueView) -> (Seq<char>, Option<Seq<char>>) {
    (v.type_tag(), v.text())
}

impl ValueRecord {
    /// The record of a value.
    pub fn from(value: &PlainValue) -> (r: ValueRecord)
        ensures
            r@ == record_of(value@),
    {
        let value_type = value.get_type();
        let value_str = match value {
            PlainValue::Scalar(Scalar::Str(s)) => Some(s.clone()),
            _ => None,
        };
        ValueRecord { value_type, value_str }
    }
}

/// The texts of heads that may be absent.
pub open spec fn heads_texts(heads: Option<Vec<String>>) -> Option<Seq<Seq<char>>> {
    match heads {
        Some(given) => Some(texts(given@)),
        None => None,
    }
}

/// The snapshot that heads name: the live state (no hashes) where none are
/// given, else their hashes; nothing where one of them is not the external
/// form of a hash.
pub open spec fn snapshot_of(heads: Option<Seq<Seq<char>>>) -> Option<Seq<Seq<u8>>> {
    match heads {
        None => Some(Seq::<Seq<u8>>::empty()),
        Some(given) => hashes_of_texts(given),
    }
}

/// Whether a property addresses children of a container of type `t`.
pub open spec fn addresses(t: ObjType, prop: PropView) -> bool {
    &&& prop.fits(t)
    &&& prop matches PropView::SeqIndex(i) ==> i < usize::MAX
}

/// What a property of an object holds in a snapshot.
pub open spec fn entry_as_of(
    doc: automerge::AutoCommit,
    obj: Seq<u8>,
    prop: PropView,
    snapshot: Seq<Seq<u8>>,
) -> Result<Option<(ValueView, Seq<u8>)>, Seq<char>> {
    if snapshot.len() == 0 {
        doc_entry(doc, obj, prop)
    } else {
        doc_entry_at(doc, obj, prop, snapshot)
    }
}

/// What a read of a property returns: the failure of the reference, a
/// malformed identifier for bad heads, nothing found where the property is
/// not of the kind that addresses the object or holds no value, the
/// document's own failure, or the value with its identifier.
pub open spec fn lookup(
    doc: automerge::AutoCommit,
    reference: Seq<char>,
    prop: PropView,
    heads: Option<Seq<Seq<char>>>,
) -> Result<(ValueView, Seq<u8>), ErrorView> {
    match target(doc, reference) {
        Err(e) => Err(e@),
        Ok((obj, t)) => match snapshot_of(heads) {
            None => Err(ErrorView::MalformedIdentifier),
            Some(snapshot) => if !addresses(t, prop) {
                Err(ErrorView::NotFound)
            } else {
                match entry_as_of(doc, obj, prop, snapshot) {
                    Ok(Some(found)) => Ok(found),
                    Ok(None) => Err(ErrorView::NotFound),
                    Err(m) => Err(ErrorView::CoreError(m)),
                }
            },
        },
    }
}

/// What a read returned, over what it stands for.
pub open spec fn read_view(r: Result<FullValue, Error>) -> Result<(ValueView, Seq<u8>), ErrorView> {
    match r {
        Ok(v) => Ok(v@),
        Err(e) => Err(e@),
    }
}

/// The keys of an object in a snapshot: those of a map or table, or the
/// positions of a list or text in decimal.
pub open spec fn listed(
    doc: automerge::AutoCommit,
    reference: Seq<char>,
    heads: Option<Seq<Seq<char>>>,
) -> Result<Seq<Seq<char>>, ErrorView> {
    match target(doc, reference) {
        Err(e) => Err(e@),
        Ok((obj, t)) => match snapshot_of(heads) {
            None => Err(ErrorView::MalformedIdentifier),
            Some(snapshot) => {
                let found = if snapshot.len() == 0 {
                    doc_keys(doc, obj)
                } else {
                    doc_keys_at(doc, obj, snapshot)
                };
                Ok(
                    if t.keyed() {
                        found
                    } else {
                        Seq::new(found.len(), |i: int| text_of_index(i as nat))
                    },
                )
            },
        },
    }
}

/// What a listing of keys returned, over what it stands for.
pub open spec fn keys_view(r: Result<Vec<String>, Error>) -> Result<Seq<Seq<char>>, ErrorView> {
    match r {
        Ok(v) => Ok(texts(v@)),
        Err(e) => Err(e@),
    }
}

/// The keys with their strings, where every value is a string.
pub open spec fn flat(entries: Seq<(Seq<char>, ValueView)>) -> Option<
    Seq<(Seq<char>, Seq<char>)>,
> {
    if forall|i: int| 0 <= i < entries.len() ==> (#[trigger] entries[i]).1.text() is Some {
        Some(Seq::new(entries.len(), |i: int| (entries[i].0, entries[i].1.text().unwrap())))
    } else {
        None
    }
}

/// The texts of a list of pairs of strings.
pub open spec fn pairs_view(pairs: Seq<(String, String)>) -> Seq<(Seq<char>, Seq<char>)> {
    pairs.map_values(|p: (String, String)| (p.0@, p.1@))
}

/// What has to hold before the root is flattened, and the snapshot to read:
/// the reference, if given, must name the root, and the heads must be
/// well formed.
pub open spec fn flat_request(
    doc: automerge::AutoCommit,
    reference: Option<Seq<char>>,
    heads: Option<Seq<Seq<char>>>,
) -> Result<Seq<Seq<u8>>, ErrorView> {
    let named = match reference {
        None => Ok((ObjectId::root_bytes(), ObjType::Mapping)),
        Some(s) => target(doc, s),
    };
    match named {
        Err(e) => Err(e@),
        Ok((obj, _)) => if obj != ObjectId::root_bytes() {
            Err(ErrorView::UnsupportedValue)
        } else {
            match snapshot_of(heads) {
                None => Err(ErrorView::MalformedIdentifier),
                Some(snapshot) => Ok(snapshot),
            }
        },
    }
}

/// The entries of the root in a snapshot.
pub open spec fn root_entries(doc: automerge::AutoCommit, snapshot: Seq<Seq<u8>>) -> Seq<
    (Seq<char>, ValueView),
> {
    if snapshot.len() == 0 {
        doc_map_entries(doc, ObjectId::root_bytes())
    } else {
        doc_map_entries_at(doc, ObjectId::root_bytes(), snapshot)
    }
}

/// A document that was settled and then kept its history, its snapshots and
/// its empty transaction is settled.
pub proof fn lemma_settled_then_kept(
    pre: automerge::AutoCommit,
    mid: automerge::AutoCommit,
    post: automerge::AutoCommit,
)
    requires
        settled(pre, mid),
        doc_pending(post) == 0,
        same_history(mid, post),
        same_snapshots(mid, post),
    ensures
        settled(pre, post),
{
    assert(same_snapshots(pre, post)) by {
        assert(forall|h: Seq<u8>| doc_has_change(pre, h) ==> #[trigger] doc_has_change(mid, h)) by {
            if doc_pending(pre) != 0 {
                let hash = choose|hash: Seq<u8>| sealed(pre, mid, hash);
            }
        }
        assert(same_snapshots(pre, mid)) by {
            if doc_pending(pre) != 0 {
                let hash = choose|hash: Seq<u8>| sealed(pre, mid, hash);
            }
        }
        assert forall|heads: Seq<Seq<u8>>| has_all(pre, heads) implies #[trigger] has_all(
            mid,
            heads,
        ) by {
            assert forall|i: int| 0 <= i < heads.len() implies doc_has_change(
                mid,
                #[trigger] heads[i],
            ) by {
                assert(doc_has_change(pre, heads[i]));
            }
        }
        assert forall|obj: Seq<u8>, prop: PropView, heads: Seq<Seq<u8>>|
            has_all(pre, heads) implies #[trigger] doc_entry_at(post, obj, prop, heads)
            == doc_entry_at(pre, obj, prop, heads) by {
            assert(has_all(mid, heads));
            assert(doc_entry_at(mid, obj, prop, heads) == doc_entry_at(pre, obj, prop, heads));
        }
        assert forall|obj: Seq<u8>, heads: Seq<Seq<u8>>| has_all(pre, heads) implies #[trigger]
            doc_keys_at(post, obj, heads) == doc_keys_at(pre, obj, heads) by {
            assert(has_all(mid, heads));
            assert(doc_keys_at(mid, obj, heads) == doc_keys_at(pre, obj, heads));
        }
        assert forall|obj: Seq<u8>, heads: Seq<Seq<u8>>| has_all(pre, heads) implies #[trigger]
            doc_map_entries_at(post, obj, heads) == doc_map_entries_at(pre, obj, heads) by {
            assert(has_all(mid, heads));
            assert(doc_map_entries_at(mid, obj, heads) == doc_map_entries_at(pre, obj, heads));
        }
    }
    if doc_pending(pre) != 0 {
        let hash = choose|hash: Seq<u8>| sealed(pre, mid, hash);
        assert(sealed(pre, post, hash));
    }
}

impl Automerge {
    /// The value of a property of an object, with its identifier.
    pub fn get_with_type(&self, obj: String, prop: Prop, heads: Option<Vec<String>>) -> (r: Result<
        FullValue,
        Error,
    >)
        ensures
            read_view(r) == lookup(self.doc(), obj@, prop@, heads_texts(heads)),
    {
        let (id, t) = match self.resolve(obj.as_str()) {
            Ok(found) => found,
            Err(e) => {
                return Err(e);
            },
        };
        let snapshot = match get_heads(heads) {
            Ok(parsed) => parsed,
            Err(e) => {
                return Err(e);
            },
        };
        let fits = match &prop {
            Prop::MapKey(_) => t.is_keyed(),
            Prop::SeqIndex(i) => !t.is_keyed() && (*i as usize) < usize::MAX,
        };
        if !fits {
            return Err(Error::NotFound);
        }
        let found = if snapshot.len() == 0 {
            assert(hashes_of(snapshot@) =~= Seq::<Seq<u8>>::empty());
            doc_get(&self.doc, id.raw(), &prop)
        } else {
            let raw = raw_heads(&snapshot);
            doc_get_at(&self.doc, id.raw(), &prop, &raw)
        };
        match found {
            Ok(Some((value, value_id))) => Ok(
                FullValue { value: plain_value(&value), id: ObjectId::wrap(value_id) },
            ),
            Ok(None) => Err(Error::NotFound),
            Err(m) => Err(Error::CoreError(m)),
        }
    }

    /// The value at a key of a map or table.
    pub fn get_from_map_with_type(&self, obj: String, prop: String, heads: Option<Vec<String>>) -> (r:
        Result<FullValue, Error>)
        ensures
            read_view(r) == lookup(
                self.doc(),
                obj@,
                PropView::MapKey(prop@),
                heads_texts(heads),
            ),
    {
        self.get_with_type(obj, Prop::MapKey(prop), heads)
    }

    /// The value at a position of a list or text.
    pub fn get_from_seq_with_type(&self, obj: String, prop: u32, heads: Option<Vec<String>>) -> (r:
        Result<FullValue, Error>)
        ensures
            read_view(r) == lookup(self.doc(), obj@, PropView::SeqIndex(prop), heads_texts(heads)),
    {
        self.get_with_type(obj, Prop::SeqIndex(prop), heads)
    }

    /// The keys of a map or table in their order, or the positions of a list
    /// or text.
    pub fn keys(&self, obj: String, heads: Option<Vec<String>>) -> (r: Result<Vec<String>, Error>)
        ensures
            keys_view(r) == listed(self.doc(), obj@, heads_texts(heads)),
    {
        let (id, t) = match self.resolve(obj.as_str()) {
            Ok(found) => found,
            Err(e) => {
                return Err(e);
            },
        };
        let snapshot = match get_heads(heads) {
            Ok(parsed) => parsed,
            Err(e) => {
                return Err(e);
            },
        };
        let found = if snapshot.len() == 0 {
            assert(hashes_of(snapshot@) =~= Seq::<Seq<u8>>::empty());
            doc_keys_of(&self.doc, id.raw())
        } else {
            let raw = raw_heads(&snapshot);
            doc_keys_of_at(&self.doc, id.raw(), &raw)
        };
        if t.is_keyed() {
            return Ok(found);
        }
        let mut positions: Vec<String> = Vec::new();
        let mut i: usize = 0;
        while i < found.len()
            invariant
                i <= found.len(),
                positions.len() == i,
                forall|k: int|
                    0 <= k < i ==> (#[trigger] positions@[k])@ == text_of_index(k as nat),
            decreases found.len() - i,
        {
            positions.push(render_index(i as u64));
            i += 1;
        }
        assert(texts(positions@) =~= Seq::new(
            texts(found@).len(),
            |i: int| text_of_index(i as nat),
        ));
        Ok(positions)
    }

    /// The root as plain pairs of key and string, in the order of the keys.
    /// Only the root can be flattened, and only where every value is a
    /// string: anything else is an unsupported value. Buffered operations
    /// are sealed into a change first, and the diff cursor moves to the
    /// heads.
    #[verifier::loop_isolation(false)]
    pub fn materialize(&mut self, obj: Option<String>, heads: Option<Vec<String>>) -> (r: Result<
        Vec<(String, String)>,
        Error,
    >)
        requires
            old(self).wf(),
        ensures
            final(self).wf(),
            final(self).frozen() == old(self).frozen(),
            match flat_request(
                old(self).doc(),
                match obj {
                    Some(s) => Some(s@),
                    None => None,
                },
                heads_texts(heads),
            ) {
                Err(e) => r matches Err(x) && x@ == e && final(self).doc() == old(self).doc(),
                Ok(snapshot) => {
                    &&& settled(old(self).doc(), final(self).doc())
                    &&& match flat(root_entries(final(self).doc(), snapshot)) {
                        Some(pairs) => r matches Ok(v) && pairs_view(v@) == pairs,
                        None => r matches Err(x) && x == Error::UnsupportedValue,
                    }
                },
            },
    {
        let id = match obj {
            None => ObjectId::root(),
            Some(s) => match self.resolve(s.as_str()) {
                Ok((found, _)) => found,
                Err(e) => {
                    return Err(e);
                },
            },
        };
        if !id.is_root() {
            return Err(Error::UnsupportedValue);
        }
        let snapshot = match get_heads(heads) {
            Ok(parsed) => parsed,
            Err(e) => {
                return Err(e);
            },
        };
        let ghost pre = self.doc;
        let _ = doc_get_heads(&mut self.doc);
        let ghost mid = self.doc;
        proof {
            lemma_settled_known(pre, mid);
        }
        doc_update_cursor(&mut self.doc);
        proof {
            lemma_settled_then_kept(pre, mid, self.doc);
            lemma_settled_known(pre, self.doc);
        }
        let items = if snapshot.len() == 0 {
            assert(hashes_of(snapshot@) =~= Seq::<Seq<u8>>::empty());
            doc_map_items(&self.doc, id.raw())
        } else {
            let raw = raw_heads(&snapshot);
            doc_map_items_at(&self.doc, id.raw(), &raw)
        };
        let ghost entries = listing_view(items@);
        let mut pairs: Vec<(String, String)> = Vec::new();
        let mut i: usize = 0;
        while i < items.len()
            invariant
                i <= items.len(),
                entries == listing_view(items@),
                pairs.len() == i,
                forall|k: int| 0 <= k < i ==> (#[trigger] entries[k]).1.text() is Some,
                forall|k: int|
                    0 <= k < i ==> (#[trigger] pairs@[k]).0@ == entries[k].0 && pairs@[k].1@
                        == entries[k].1.text().unwrap(),
            decreases items.len() - i,
        {
            let value = plain_value(&items[i].1);
            assert(entries[i as int] == (items@[i as int].0@, value@));
            match value {
                PlainValue::Scalar(Scalar::Str(s)) => {
                    pairs.push((items[i].0.clone(), s));
                },
                _ => {
                    assert(entries[i as int].1.text() is None);
                    return Err(Error::UnsupportedValue);
                },
            }
            i += 1;
        }
        assert(pairs_view(pairs@) =~= flat(entries).unwrap());
        Ok(pairs)
    }
}

} // verus!
