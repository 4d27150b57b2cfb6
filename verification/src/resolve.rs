//! Object references: from a string to the object that it names.
//!
//! A reference is either the external form of an identifier, or a path: a
//! first component that names where to start (empty for the root, else an
//! identifier in its `counter@actor` form) and, after each slash, the key or
//! position of a child. An empty component ends the path.
use crate::convert::plain_value;
use crate::document::Automerge;
use crate::error::Error;
use crate::hexcode::{hex_value, is_hex};
use crate::ident::{id_of_text, ObjectId};
use crate::pathtext::{index_of_text, lemma_split_nonempty, parse_index, split_path, split_text};
use crate::replica::{
    doc_entry, doc_get, doc_import, doc_imported, doc_object_type, doc_type_of, importable,
    texts,
};
use crate::text::to_chars;
use crate::value::{ObjType, PlainValue, Prop, PropView, ValueView};
use vstd::prelude::*;

verus! {

/// Whether a reference is written as the external form of an identifier: it
/// is not empty and made of hexadecimal digits only.
pub open spec fn is_raw_id(s: Seq<char>) -> bool {
    &&& s.len() > 0
    &&& forall|i: int| 0 <= i < s.len() ==> (#[trigger] hex_value(s[i])) is Some
}

/// The property that a component of a path addresses in a container of type
/// `t`: the component itself as a key, or the position that it stands for.
pub open spec fn prop_of_component(t: ObjType, c: Seq<char>) -> Option<PropView> {
    if t.keyed() {
        Some(PropView::MapKey(c))
    } else {
        match index_of_text(c) {
            Some(i) => if i < usize::MAX {
                Some(PropView::SeqIndex(i))
            } else {
                None
            },
            None => None,
        }
    }
}

/// Where the components lead from the object `obj` of type `t`: each one must
/// address a child that is a container, and an empty one ends the walk.
pub open spec fn walk(
    doc: automerge::AutoCommit,
    obj: Seq<u8>,
    t: ObjType,
    components: Seq<Seq<char>>,
) -> Option<(Seq<u8>, ObjType)>
    decreases components.len(),
{
    if components.len() == 0 || components[0].len() == 0 {
        Some((obj, t))
    } else {
        match prop_of_component(t, components[0]) {
            None => None,
            Some(prop) => match doc_entry(doc, obj, prop) {
                Ok(Some((ValueView::Object(child_type), child))) => walk(
                    doc,
                    child,
                    child_type,
                    components.skip(1),
                ),
                _ => None,
            },
        }
    }
}

/// Where a path starts: at the root for an empty first component, else at the
/// object that the document imports the component as.
pub open spec fn path_start(doc: automerge::AutoCommit, first: Seq<char>) -> Option<
    (Seq<u8>, ObjType),
> {
    if first.len() == 0 {
        Some((ObjectId::root_bytes(), ObjType::Mapping))
    } else if importable(first) {
        doc_imported(doc, first)
    } else {
        None
    }
}

/// The object that a path names, if it names one.
pub open spec fn path_target(doc: automerge::AutoCommit, path: Seq<char>) -> Option<
    (Seq<u8>, ObjType),
> {
    let components = split_path(path);
    match path_start(doc, components[0]) {
        None => None,
        Some((obj, t)) => walk(doc, obj, t, components.skip(1)),
    }
}

/// The object that a reference names, or why it names none: a malformed
/// identifier where it is written as an identifier and is not the external
/// form of one, an import failure where it leads to no object.
pub open spec fn target(doc: automerge::AutoCommit, reference: Seq<char>) -> Result<
    (Seq<u8>, ObjType),
    Error,
> {
    if is_raw_id(reference) {
        match id_of_text(reference) {
            None => Err(Error::MalformedIdentifier),
            Some(obj) => match doc_object_type(doc, obj) {
                Some(t) => Ok((obj, t)),
                None => Err(Error::ImportFailure),
            },
        }
    } else {
        match path_target(doc, reference) {
            Some(found) => Ok(found),
            None => Err(Error::ImportFailure),
        }
    }
}

/// The components of a path from the one at `from` on.
pub open spec fn components_from(components: Seq<Seq<char>>, from: usize) -> Seq<Seq<char>> {
    if from <= components.len() {
        components.skip(from as int)
    } else {
        Seq::<Seq<char>>::empty()
    }
}

/// What a resolution returned, over the binary form of the identifier.
pub open spec fn resolved_view(r: Result<(ObjectId, ObjType), Error>) -> Result<
    (Seq<u8>, ObjType),
    Error,
> {
    match r {
        Ok((obj, t)) => Ok((obj@, t)),
        Err(e) => Err(e),
    }
}

/// Whether `s` can be handed to the document's import: what follows its first
/// `@`, if it has one, is hexadecimal text.
#[verifier::loop_isolation(false)]
fn can_import(s: &str) -> (b: bool)
    ensures
        b == importable(s@),
{
    let chars = to_chars(s);
    let n = chars.len();
    let mut at: usize = 0;
    while at < n && chars[at] != '@'
        invariant
            at <= n,
            forall|k: int| 0 <= k < at ==> chars@[k] != '@',
        decreases n - at,
    {
        at += 1;
    }
    if at == n {
        assert(importable(s@));
        return true;
    }
    let ghost rest = s@.skip(at + 1);
    assert(!s@.take(at as int).contains('@'));
    assert forall|m: int|
        0 <= m < s@.len() && s@[m] == '@' && !s@.take(m).contains('@') implies m == at by {
        if m > at {
            assert(s@.take(m)[at as int] == '@');
        }
    }
    if (n - at - 1) % 2 != 0 {
        assert(!is_hex(rest));
        return false;
    }
    let mut i: usize = at + 1;
    while i < n
        invariant
            at < i <= n,
            forall|k: int| 0 <= k < i - at - 1 ==> (#[trigger] hex_value(rest[k])) is Some,
        decreases n - i,
    {
        let code = chars[i] as u32;
        assert(rest[i - at - 1] == chars@[i as int]);
        let digit = (48 <= code && code <= 57) || (97 <= code && code <= 102) || (65 <= code
            && code <= 70);
        if !digit {
            assert(hex_value(rest[i - at - 1]) is None);
            assert(!is_hex(rest));
            return false;
        }
        i += 1;
    }
    assert(is_hex(rest));
    true
}

/// Whether `s` is written as the external form of an identifier.
#[verifier::loop_isolation(false)]
fn written_as_id(s: &str) -> (b: bool)
    ensures
        b == is_raw_id(s@),
{
    let chars = to_chars(s);
    if chars.len() == 0 {
        return false;
    }
    let mut i: usize = 0;
    while i < chars.len()
        invariant
            i <= chars.len(),
            forall|k: int| 0 <= k < i ==> (#[trigger] hex_value(chars@[k])) is Some,
        decreases chars.len() - i,
    {
        let code = chars[i] as u32;
        let digit = (48 <= code && code <= 57) || (97 <= code && code <= 102) || (65 <= code
            && code <= 70);
        if !digit {
            assert(hex_value(s@[i as int]) is None);
            return false;
        }
        i += 1;
    }
    true
}

impl Automerge {
    /// Follows the components of a path from `from` on, starting at the
    /// object `obj` of type `obj_type`: a key where the current object is a
    /// map or table, a position where it is a list or text. Every component
    /// must lead to a container; an empty one ends the path. Anything else
    /// is an import failure, and so is a start that is no object of that
    /// type.
    #[verifier::loop_isolation(false)]
    pub fn import_path(
        &self,
        obj: ObjectId,
        obj_type: ObjType,
        components: &Vec<String>,
        from: usize,
    ) -> (r: Result<(ObjectId, ObjType), Error>)
        ensures
            resolved_view(r) == (if doc_object_type(self.doc(), obj@) == Some(obj_type) {
                match walk(self.doc(), obj@, obj_type, components_from(texts(components@), from)) {
                    Some(found) => Ok(found),
                    None => Err(Error::ImportFailure),
                }
            } else {
                Err(Error::ImportFailure)
            }),
            r matches Ok((found, t)) ==> doc_object_type(self.doc(), found@) == Some(t),
    {
        match doc_type_of(&self.doc, obj.raw()) {
            Some(t) => {
                if t != obj_type {
                    return Err(Error::ImportFailure);
                }
            },
            None => {
                return Err(Error::ImportFailure);
            },
        }
        if from > components.len() {
            return Ok((obj, obj_type));
        }
        let ghost all = texts(components@);
        let ghost goal = walk(self.doc, obj@, obj_type, all.skip(from as int));
        let mut current = obj;
        let mut current_type = obj_type;
        let mut i: usize = from;
        while i < components.len()
            invariant
                from <= i <= components.len(),
                doc_object_type(self.doc, current@) == Some(current_type),
                goal == walk(self.doc, current@, current_type, all.skip(i as int)),
            decreases components.len() - i,
        {
            let component = components[i].as_str();
            let ghost rest = all.skip(i as int);
            assert(rest[0] == component@);
            assert(rest.skip(1) =~= all.skip(i + 1));
            if component.unicode_len() == 0 {
                return Ok((current, current_type));
            }
            let prop = if current_type.is_keyed() {
                Prop::MapKey(components[i].clone())
            } else {
                match parse_index(component) {
                    None => {
                        return Err(Error::ImportFailure);
                    },
                    Some(index) => {
                        if index as usize >= usize::MAX {
                            return Err(Error::ImportFailure);
                        }
                        Prop::SeqIndex(index)
                    },
                }
            };
            assert(prop_of_component(current_type, component@) == Some(prop@));
            match doc_get(&self.doc, current.raw(), &prop) {
                Ok(Some((value, id))) => match plain_value(&value) {
                    PlainValue::Object(child_type) => {
                        current = ObjectId::wrap(id);
                        current_type = child_type;
                    },
                    PlainValue::Scalar(_) => {
                        return Err(Error::ImportFailure);
                    },
                },
                Ok(None) => {
                    return Err(Error::ImportFailure);
                },
                Err(_) => {
                    return Err(Error::ImportFailure);
                },
            }
            i += 1;
        }
        assert(all.skip(i as int).len() == 0);
        Ok((current, current_type))
    }

    /// The object that a path names: `counter@actor` or nothing for the
    /// root, then the keys and positions of children after slashes. No path,
    /// or one that leads to no object, is an import failure.
    pub fn import(&self, id: Option<String>) -> (r: Result<(ObjectId, ObjType), Error>)
        ensures
            resolved_view(r) == (match id {
                Some(path) => match path_target(self.doc(), path@) {
                    Some(found) => Ok(found),
                    None => Err(Error::ImportFailure),
                },
                None => Err(Error::ImportFailure),
            }),
            r matches Ok((found, t)) ==> doc_object_type(self.doc(), found@) == Some(t),
    {
        match id {
            None => Err(Error::ImportFailure),
            Some(path) => {
                let components = split_text(path.as_str());
                proof {
                    lemma_split_nonempty(path@);
                }
                let first = components[0].as_str();
                assert(texts(components@)[0] == first@);
                if first.unicode_len() == 0 {
                    let root = ObjectId::root();
                    let t = doc_type_of(&self.doc, root.raw());
                    self.import_path(root, ObjType::Mapping, &components, 1)
                } else if can_import(first) {
                    match doc_import(&self.doc, first) {
                        None => Err(Error::ImportFailure),
                        Some((id, t)) => self.import_path(ObjectId::wrap(id), t, &components, 1),
                    }
                } else {
                    Err(Error::ImportFailure)
                }
            },
        }
    }

    /// The object that a reference names: the external form of an
    /// identifier, or a path.
    pub fn resolve(&self, reference: &str) -> (r: Result<(ObjectId, ObjType), Error>)
        ensures
            resolved_view(r) == target(self.doc(), reference@),
            r matches Ok((found, t)) ==> doc_object_type(self.doc(), found@) == Some(t),
    {
        if written_as_id(reference) {
            match ObjectId::parse(reference) {
                Err(_) => Err(Error::MalformedIdentifier),
                Ok(obj) => match doc_type_of(&self.doc, obj.raw()) {
                    Some(t) => Ok((obj, t)),
                    None => Err(Error::ImportFailure),
                },
            }
        } else {
            let path: String = reference.to_owned();
            self.import(Some(path))
        }
    }
}

} // verus!
