//! The boundary to the document itself.
//!
//! Everything in this file is stated, not proved: the types of the
//! `automerge` crate that the library carries through, a name for what each
//! of them holds, and one small function round every call into the crate,
//! with a contract that says what the crate's source and documentation show.
//! The rest of the library is verified against these contracts alone.
use crate::rawpatch::{ActionKind, Position, RawAction, RawPatch};
use crate::value::{ObjType, Prop, PropView, ScalarKind, ScalarView, ValueView};
use automerge::PatchAction;
use automerge::ScalarValue;
use automerge::transaction::Transactable;
use automerge::ReadDoc;
use vstd::prelude::*;

verus! {

#[verifier::external_type_specification]
#[verifier::external_body]
pub struct ExAutoCommit(automerge::AutoCommit);

#[verifier::external_type_specification]
#[verifier::external_body]
pub struct ExObjId(automerge::ObjId);

#[verifier::external_type_specification]
#[verifier::external_body]
pub struct ExValue<'a>(automerge::Value<'a>);

#[verifier::external_type_specification]
#[verifier::external_body]
pub struct ExPatch(automerge::Patch);

/// The binary form of an object identifier, as `ObjId::to_bytes` writes it.
pub uninterp spec fn id_bytes(id: automerge::ObjId) -> Seq<u8>;

/// The binary form of the identifier that `ObjId::try_from` reads out of
/// `bytes`, if it accepts them.
pub uninterp spec fn id_parsed(bytes: Seq<u8>) -> Option<Seq<u8>>;

/// What a value of the document holds.
pub uninterp spec fn value_held(v: automerge::Value<'static>) -> ValueView;

/// What a patch of the document holds.
pub uninterp spec fn patch_held(p: automerge::Patch) -> RawPatch;

/// The number of operations buffered in the open transaction.
pub uninterp spec fn doc_pending(doc: automerge::AutoCommit) -> nat;

/// The heads of the whole history, whatever the mode.
pub uninterp spec fn doc_main_heads(doc: automerge::AutoCommit) -> Seq<Seq<u8>>;

/// The heads that the document is isolated at, if it is.
pub uninterp spec fn doc_isolation(doc: automerge::AutoCommit) -> Option<Seq<Seq<u8>>>;

/// Whether the history holds a change with this hash.
pub uninterp spec fn doc_has_change(doc: automerge::AutoCommit, hash: Seq<u8>) -> bool;

/// The type of the object with this identifier, if the document has one.
pub uninterp spec fn doc_object_type(doc: automerge::AutoCommit, obj: Seq<u8>) -> Option<ObjType>;

/// The object and type that `AutoCommit::import` finds for an identifier in
/// its `counter@actor` form.
pub uninterp spec fn doc_imported(doc: automerge::AutoCommit, s: Seq<char>) -> Option<
    (Seq<u8>, ObjType),
>;

/// What `get` finds at a property of an object in the state that the active
/// mode sees: the value and its identifier, nothing, or the message of a
/// failure.
pub uninterp spec fn doc_entry(doc: automerge::AutoCommit, obj: Seq<u8>, prop: PropView) -> Result<
    Option<(ValueView, Seq<u8>)>,
    Seq<char>,
>;

/// What `get_at` finds at a property of an object as of `heads`.
pub uninterp spec fn doc_entry_at(
    doc: automerge::AutoCommit,
    obj: Seq<u8>,
    prop: PropView,
    heads: Seq<Seq<u8>>,
) -> Result<Option<(ValueView, Seq<u8>)>, Seq<char>>;

/// The keys that `keys` yields for an object, in its order.
pub uninterp spec fn doc_keys(doc: automerge::AutoCommit, obj: Seq<u8>) -> Seq<Seq<char>>;

/// The keys that `keys_at` yields for an object as of `heads`.
pub uninterp spec fn doc_keys_at(doc: automerge::AutoCommit, obj: Seq<u8>, heads: Seq<Seq<u8>>) -> Seq<
    Seq<char>,
>;

/// The keys and values that `map_range` yields over all keys of an object.
pub uninterp spec fn doc_map_entries(doc: automerge::AutoCommit, obj: Seq<u8>) -> Seq<
    (Seq<char>, ValueView),
>;

/// The keys and values that `map_range_at` yields over all keys of an object
/// as of `heads`.
pub uninterp spec fn doc_map_entries_at(
    doc: automerge::AutoCommit,
    obj: Seq<u8>,
    heads: Seq<Seq<u8>>,
) -> Seq<(Seq<char>, ValueView)>;

/// The patches that `diff_incremental` reports for a document without
/// pending operations: what changed since the diff cursor was last moved.
pub uninterp spec fn doc_unseen(doc: automerge::AutoCommit) -> Seq<automerge::Patch>;

/// The hashes of a list of heads.
pub open spec fn hashes(heads: Seq<[u8; 32]>) -> Seq<Seq<u8>> {
    heads.map_values(|h: [u8; 32]| h@)
}

/// The texts of a list of strings.
pub open spec fn texts(strings: Seq<String>) -> Seq<Seq<char>> {
    strings.map_values(|s: String| s@)
}

/// The heads of the active mode: the isolation point while isolated, the
/// heads of the history otherwise.
pub open spec fn active_heads(doc: automerge::AutoCommit) -> Seq<Seq<u8>> {
    match doc_isolation(doc) {
        Some(heads) => heads,
        None => doc_main_heads(doc),
    }
}

/// Whether the history holds every one of `heads`.
pub open spec fn has_all(doc: automerge::AutoCommit, heads: Seq<Seq<u8>>) -> bool {
    forall|i: int| 0 <= i < heads.len() ==> doc_has_change(doc, #[trigger] heads[i])
}

/// The history of `post` is that of `pre`: the same changes, the same heads,
/// the same mode.
pub open spec fn same_history(pre: automerge::AutoCommit, post: automerge::AutoCommit) -> bool {
    &&& doc_main_heads(post) == doc_main_heads(pre)
    &&& doc_isolation(post) == doc_isolation(pre)
    &&& forall|h: Seq<u8>| #[trigger] doc_has_change(post, h) == doc_has_change(pre, h)
}

/// Reading `post` as of heads that `pre` already held finds what reading
/// `pre` found: the same values, the same keys, the same entries of maps.
pub open spec fn same_snapshots(pre: automerge::AutoCommit, post: automerge::AutoCommit) -> bool {
    &&& forall|obj: Seq<u8>, prop: PropView, heads: Seq<Seq<u8>>|
        has_all(pre, heads) ==> #[trigger] doc_entry_at(post, obj, prop, heads) == doc_entry_at(
            pre,
            obj,
            prop,
            heads,
        )
    &&& forall|obj: Seq<u8>, heads: Seq<Seq<u8>>|
        has_all(pre, heads) ==> #[trigger] doc_keys_at(post, obj, heads) == doc_keys_at(
            pre,
            obj,
            heads,
        )
    &&& forall|obj: Seq<u8>, heads: Seq<Seq<u8>>|
        has_all(pre, heads) ==> #[trigger] doc_map_entries_at(post, obj, heads)
            == doc_map_entries_at(pre, obj, heads)
}

/// `post` is `pre` after its pending operations were sealed into the change
/// `hash`. The change depends on the heads of the active mode: in the main
/// mode it replaces them all, in isolation it becomes the isolation point and
/// replaces, among the heads of the history, those it depends on.
pub open spec fn sealed(pre: automerge::AutoCommit, post: automerge::AutoCommit, hash: Seq<u8>) -> bool {
    &&& doc_pending(post) == 0
    &&& doc_has_change(post, hash)
    &&& forall|h: Seq<u8>| doc_has_change(pre, h) ==> #[trigger] doc_has_change(post, h)
    &&& same_snapshots(pre, post)
    &&& match doc_isolation(pre) {
        Some(base) => {
            &&& doc_isolation(post) == Some(seq![hash])
            &&& doc_main_heads(post).to_set() == doc_main_heads(pre).to_set().difference(
                base.to_set(),
            ).insert(hash)
        },
        None => {
            &&& doc_isolation(post) is None
            &&& doc_main_heads(post) == seq![hash]
        },
    }
}

/// `post` is `pre` with its transaction closed: nothing changed where no
/// operation was pending, and the pending operations were sealed into one new
/// change otherwise.
pub open spec fn settled(pre: automerge::AutoCommit, post: automerge::AutoCommit) -> bool {
    if doc_pending(pre) == 0 {
        doc_pending(post) == 0 && same_history(pre, post) && same_snapshots(pre, post)
    } else {
        exists|hash: Seq<u8>| sealed(pre, post, hash)
    }
}

/// What a lookup returned, over what the outside values hold.
pub open spec fn found_view(
    r: Result<Option<(automerge::Value<'static>, automerge::ObjId)>, String>,
) -> Result<Option<(ValueView, Seq<u8>)>, Seq<char>> {
    match r {
        Ok(Some((v, id))) => Ok(Some((value_held(v), id_bytes(id)))),
        Ok(None) => Ok(None),
        Err(m) => Err(m@),
    }
}

/// Where a lookup found a container, the identifier that came with it is that
/// of an object of the container's type.
pub open spec fn found_typed(
    doc: automerge::AutoCommit,
    r: Result<Option<(automerge::Value<'static>, automerge::ObjId)>, String>,
) -> bool {
    r matches Ok(Some((v, id))) ==> (value_held(v) matches ValueView::Object(t)
        ==> doc_object_type(doc, id_bytes(id)) == Some(t))
}

/// Whether a lookup of `prop` in the object `obj` is one that the document
/// answers: the property is of the kind that the object's type is addressed
/// by, and a position leaves room for the position after it.
pub open spec fn answerable(doc: automerge::AutoCommit, obj: Seq<u8>, prop: PropView) -> bool {
    &&& doc_object_type(doc, obj) matches Some(t) ==> prop.fits(t)
    &&& prop matches PropView::SeqIndex(i) ==> i < usize::MAX
}

/// The keys and values of a listing, over what the outside values hold.
pub open spec fn listing_view(items: Seq<(String, automerge::Value<'static>)>) -> Seq<
    (Seq<char>, ValueView),
> {
    items.map_values(|item: (String, automerge::Value<'static>)| (item.0@, value_held(item.1)))
}

/// Whether `s` can be handed to `AutoCommit::import`: what follows its first
/// `@`, if it has one, is hexadecimal text.
pub open spec fn importable(s: Seq<char>) -> bool {
    forall|n: int|
        0 <= n < s.len() && s[n] == '@' && !s.take(n).contains('@') ==> crate::hexcode::is_hex(
            #[trigger] s.skip(n + 1),
        )
}

/// `AutoCommit::new`: an empty document in the main mode, with no change in
/// its history and nothing pending.
#[verifier::external_body]
pub(crate) fn new_document() -> (doc: automerge::AutoCommit)
    ensures
        doc_pending(doc) == 0,
        doc_isolation(doc) is None,
        doc_main_heads(doc) == Seq::<Seq<u8>>::empty(),
        forall|h: Seq<u8>| !#[trigger] doc_has_change(doc, h),
{
    automerge::AutoCommit::new()
}

/// `AutoCommit::load`: the document that the bytes hold, in the main mode,
/// with nothing pending and every head in its history; or the message of
/// the failure.
#[verifier::external_body]
pub(crate) fn load_document(data: &Vec<u8>) -> (r: Result<automerge::AutoCommit, String>)
    ensures
        r matches Ok(doc) ==> doc_pending(doc) == 0 && doc_isolation(doc) is None && has_all(
            doc,
            doc_main_heads(doc),
        ),
{
    match automerge::AutoCommit::load(data.as_slice()) {
        Ok(doc) => Ok(doc),
        Err(e) => Err(e.to_string()),
    }
}

/// `AutoCommit::new` followed by `with_actor`, which only sets the actor that
/// later changes are made under.
#[verifier::external_body]
pub(crate) fn new_document_for(actor: Vec<u8>) -> (doc: automerge::AutoCommit)
    ensures
        doc_pending(doc) == 0,
        doc_isolation(doc) is None,
        doc_main_heads(doc) == Seq::<Seq<u8>>::empty(),
        forall|h: Seq<u8>| !#[trigger] doc_has_change(doc, h),
{
    automerge::AutoCommit::new().with_actor(automerge::ActorId::from(actor))
}

/// `Transactable::pending_ops`.
#[verifier::external_body]
pub(crate) fn doc_pending_ops(doc: &automerge::AutoCommit) -> (n: usize)
    ensures
        n == doc_pending(*doc),
{
    doc.pending_ops()
}

/// `AutoCommit::get_heads`: it closes the transaction, then reports the heads
/// of the active mode. With pending operations in isolation the change that
/// seals them depends on the isolation point, which the history must hold.
#[verifier::external_body]
pub(crate) fn doc_get_heads(doc: &mut automerge::AutoCommit) -> (heads: Vec<[u8; 32]>)
    requires
        has_all(*old(doc), active_heads(*old(doc))),
    ensures
        settled(*old(doc), *final(doc)),
        hashes(heads@) == active_heads(*final(doc)),
{
    doc.get_heads().into_iter().map(|h| h.0).collect()
}

/// `AutoCommit::commit_with`: no change and `None` without pending
/// operations; else they are sealed into one change, with this message and
/// time, whose hash is returned.
#[verifier::external_body]
pub(crate) fn doc_commit(
    doc: &mut automerge::AutoCommit,
    message: Option<String>,
    time: Option<i64>,
) -> (hash: Option<[u8; 32]>)
    requires
        has_all(*old(doc), active_heads(*old(doc))),
    ensures
        settled(*old(doc), *final(doc)),
        hash is None <==> doc_pending(*old(doc)) == 0,
        hash matches Some(h) ==> sealed(*old(doc), *final(doc), h@),
{
    let mut options = automerge::transaction::CommitOptions::default();
    options.message = message;
    options.time = time;
    doc.commit_with(options).map(|h| h.0)
}

/// `AutoCommit::rollback`: the pending operations are dropped and their
/// number returned; the history is not touched.
#[verifier::external_body]
pub(crate) fn doc_rollback(doc: &mut automerge::AutoCommit) -> (n: usize)
    ensures
        n == doc_pending(*old(doc)),
        doc_pending(*final(doc)) == 0,
        same_history(*old(doc), *final(doc)),
        same_snapshots(*old(doc), *final(doc)),
{
    doc.rollback()
}

/// `AutoCommit::isolate`, on a document without pending operations: the
/// document is then isolated at `heads`, and its history is as before.
/// `heads` must be in the history, since the next change will depend on them.
#[verifier::external_body]
pub(crate) fn doc_isolate(doc: &mut automerge::AutoCommit, heads: &Vec<[u8; 32]>)
    requires
        doc_pending(*old(doc)) == 0,
        has_all(*old(doc), hashes(heads@)),
    ensures
        doc_pending(*final(doc)) == 0,
        doc_isolation(*final(doc)) == Some(hashes(heads@)),
        doc_main_heads(*final(doc)) == doc_main_heads(*old(doc)),
        forall|h: Seq<u8>| #[trigger] doc_has_change(*final(doc), h) == doc_has_change(*old(doc), h),
        same_snapshots(*old(doc), *final(doc)),
{
    let heads: Vec<automerge::ChangeHash> = heads.iter().map(|h| automerge::ChangeHash(*h)).collect();
    doc.isolate(&heads);
}

/// `AutoCommit::integrate`, on a document without pending operations: the
/// document is then in the main mode, and its history is as before.
#[verifier::external_body]
pub(crate) fn doc_integrate(doc: &mut automerge::AutoCommit)
    requires
        doc_pending(*old(doc)) == 0,
    ensures
        doc_pending(*final(doc)) == 0,
        doc_isolation(*final(doc)) is None,
        doc_main_heads(*final(doc)) == doc_main_heads(*old(doc)),
        forall|h: Seq<u8>| #[trigger] doc_has_change(*final(doc), h) == doc_has_change(*old(doc), h),
        same_snapshots(*old(doc), *final(doc)),
{
    doc.integrate();
}

/// `ReadDoc::get_change_by_hash`, asked only whether it finds a change.
#[verifier::external_body]
pub(crate) fn doc_knows(doc: &automerge::AutoCommit, hash: &[u8; 32]) -> (b: bool)
    ensures
        b == doc_has_change(*doc, hash@),
{
    doc.get_change_by_hash(&automerge::ChangeHash(*hash)).is_some()
}

/// `ReadDoc::object_type`: the type of the object, or nothing where the
/// document has no such object. Every document has its root, which is a map.
#[verifier::external_body]
pub(crate) fn doc_type_of(doc: &automerge::AutoCommit, obj: &automerge::ObjId) -> (t: Option<ObjType>)
    ensures
        t == doc_object_type(*doc, id_bytes(*obj)),
        id_bytes(*obj) == seq![0u8] ==> t == Some(ObjType::Mapping),
{
    match doc.object_type(obj) {
        Ok(automerge::ObjType::Map) => Some(ObjType::Mapping),
        Ok(automerge::ObjType::Table) => Some(ObjType::Table),
        Ok(automerge::ObjType::List) => Some(ObjType::List),
        Ok(automerge::ObjType::Text) => Some(ObjType::Text),
        Err(_) => None,
    }
}

/// `AutoCommit::import`: the object that an identifier in its `counter@actor`
/// form (or `_root`) names in this document, with the type that the document
/// has for it. The call decodes what follows the `@` as hexadecimal text and
/// aborts where it is none.
#[verifier::external_body]
pub(crate) fn doc_import(doc: &automerge::AutoCommit, s: &str) -> (r: Option<
    (automerge::ObjId, ObjType),
>)
    requires
        importable(s@),
    ensures
        r is None <==> doc_imported(*doc, s@) is None,
        r matches Some((id, t)) ==> doc_imported(*doc, s@) == Some((id_bytes(id), t))
            && doc_object_type(*doc, id_bytes(id)) == Some(t),
{
    match doc.import(s) {
        Ok((id, automerge::ObjType::Map)) => Some((id, ObjType::Mapping)),
        Ok((id, automerge::ObjType::Table)) => Some((id, ObjType::Table)),
        Ok((id, automerge::ObjType::List)) => Some((id, ObjType::List)),
        Ok((id, automerge::ObjType::Text)) => Some((id, ObjType::Text)),
        Err(_) => None,
    }
}

/// `ReadDoc::get`: the value at a property in the state that the active mode
/// sees, with the identifier of the operation that made it, which for a
/// container is the container's own. Looking a key up in a sequence, or a
/// position in a map, is left out: the crate compares keys of maps only.
#[verifier::external_body]
pub(crate) fn doc_get(doc: &automerge::AutoCommit, obj: &automerge::ObjId, prop: &Prop) -> (r: Result<
    Option<(automerge::Value<'static>, automerge::ObjId)>,
    String,
>)
    requires
        answerable(*doc, id_bytes(*obj), prop@),
    ensures
        found_view(r) == doc_entry(*doc, id_bytes(*obj), prop@),
        found_typed(*doc, r),
{
    let found = match prop {
        Prop::MapKey(key) => doc.get(obj, key.as_str()),
        Prop::SeqIndex(index) => doc.get(obj, *index as usize),
    };
    match found {
        Ok(entry) => Ok(entry.map(|(v, id)| (v.into_owned(), id))),
        Err(e) => Err(e.to_string()),
    }
}

/// `ReadDoc::get_at`: as `get`, in the state as of `heads`.
#[verifier::external_body]
pub(crate) fn doc_get_at(
    doc: &automerge::AutoCommit,
    obj: &automerge::ObjId,
    prop: &Prop,
    heads: &Vec<[u8; 32]>,
) -> (r: Result<Option<(automerge::Value<'static>, automerge::ObjId)>, String>)
    requires
        answerable(*doc, id_bytes(*obj), prop@),
    ensures
        found_view(r) == doc_entry_at(*doc, id_bytes(*obj), prop@, hashes(heads@)),
        found_typed(*doc, r),
{
    let heads: Vec<automerge::ChangeHash> = heads.iter().map(|h| automerge::ChangeHash(*h)).collect();
    let found = match prop {
        Prop::MapKey(key) => doc.get_at(obj, key.as_str(), &heads),
        Prop::SeqIndex(index) => doc.get_at(obj, *index as usize, &heads),
    };
    match found {
        Ok(entry) => Ok(entry.map(|(v, id)| (v.into_owned(), id))),
        Err(e) => Err(e.to_string()),
    }
}

/// `ReadDoc::keys`: what it yields, as strings: the keys of a map in order,
/// one identifier for each element of a sequence.
#[verifier::external_body]
pub(crate) fn doc_keys_of(doc: &automerge::AutoCommit, obj: &automerge::ObjId) -> (keys: Vec<String>)
    ensures
        texts(keys@) == doc_keys(*doc, id_bytes(*obj)),
{
    doc.keys(obj).collect()
}

/// `ReadDoc::keys_at`: as `keys`, in the state as of `heads`.
#[verifier::external_body]
pub(crate) fn doc_keys_of_at(
    doc: &automerge::AutoCommit,
    obj: &automerge::ObjId,
    heads: &Vec<[u8; 32]>,
) -> (keys: Vec<String>)
    ensures
        texts(keys@) == doc_keys_at(*doc, id_bytes(*obj), hashes(heads@)),
{
    let heads: Vec<automerge::ChangeHash> = heads.iter().map(|h| automerge::ChangeHash(*h)).collect();
    doc.keys_at(obj, &heads).collect()
}

/// `ReadDoc::map_range` over all keys: the keys of a map, in their order,
/// each with its value.
#[verifier::external_body]
pub(crate) fn doc_map_items(doc: &automerge::AutoCommit, obj: &automerge::ObjId) -> (items: Vec<
    (String, automerge::Value<'static>),
>)
    ensures
        listing_view(items@) == doc_map_entries(*doc, id_bytes(*obj)),
{
    doc.map_range(obj, ..).map(|item| (item.key.to_string(), item.value.into_owned())).collect()
}

/// `ReadDoc::map_range_at` over all keys: as `map_range`, in the state as of
/// `heads`.
#[verifier::external_body]
pub(crate) fn doc_map_items_at(
    doc: &automerge::AutoCommit,
    obj: &automerge::ObjId,
    heads: &Vec<[u8; 32]>,
) -> (items: Vec<(String, automerge::Value<'static>)>)
    ensures
        listing_view(items@) == doc_map_entries_at(*doc, id_bytes(*obj), hashes(heads@)),
{
    let heads: Vec<automerge::ChangeHash> = heads.iter().map(|h| automerge::ChangeHash(*h)).collect();
    doc.map_range_at(obj, .., &heads).map(|item| (item.key.to_string(), item.value.into_owned())).collect()
}

/// The objects of `post` are those of `pre`, with their types.
pub open spec fn same_objects(pre: automerge::AutoCommit, post: automerge::AutoCommit) -> bool {
    forall|obj: Seq<u8>| #[trigger] doc_object_type(post, obj) == doc_object_type(pre, obj)
}

/// What `Transactable::put` of a string leaves. It succeeds on a map and on
/// nothing else. The history, every snapshot and the objects are as they
/// were; after a success the key holds the string, and one more operation is
/// pending, or none where the key held that very string before.
pub open spec fn put_applied(
    pre: automerge::AutoCommit,
    post: automerge::AutoCommit,
    obj: Seq<u8>,
    key: Seq<char>,
    value: Seq<char>,
    done: bool,
) -> bool {
    &&& same_history(pre, post)
    &&& same_snapshots(pre, post)
    &&& same_objects(pre, post)
    &&& done <==> doc_object_type(pre, obj) == Some(ObjType::Mapping)
    &&& done ==> holds_text(doc_entry(post, obj, PropView::MapKey(key)), value)
    &&& !done ==> doc_pending(post) == doc_pending(pre)
    &&& done ==> {
        ||| doc_pending(post) == doc_pending(pre) + 1
        ||| doc_pending(post) == doc_pending(pre) && holds_text(
            doc_entry(pre, obj, PropView::MapKey(key)),
            value,
        )
    }
}

/// Whether a lookup found the string `value`.
pub open spec fn holds_text(
    entry: Result<Option<(ValueView, Seq<u8>)>, Seq<char>>,
    value: Seq<char>,
) -> bool {
    entry matches Ok(Some((v, _))) && v.text() == Some(value)
}

/// `Transactable::put` of a string at a key of a map. It fails, with a
/// message, where the object is missing or is no map, and only there.
#[verifier::external_body]
pub(crate) fn doc_put(doc: &mut automerge::AutoCommit, obj: &automerge::ObjId, key: &str, value: &str) -> (r:
    Result<(), String>)
    ensures
        put_applied(*old(doc), *final(doc), id_bytes(*obj), key@, value@, r is Ok),
{
    match doc.put(obj, key, value) {
        Ok(()) => Ok(()),
        Err(e) => Err(e.to_string()),
    }
}

/// `AutoCommit::update_diff_cursor`, on a document without pending
/// operations: the diff cursor moves to the current heads; history, mode and
/// snapshots stay.
#[verifier::external_body]
pub(crate) fn doc_update_cursor(doc: &mut automerge::AutoCommit)
    requires
        doc_pending(*old(doc)) == 0,
    ensures
        doc_pending(*final(doc)) == 0,
        same_history(*old(doc), *final(doc)),
        same_snapshots(*old(doc), *final(doc)),
{
    doc.update_diff_cursor();
}

/// `AutoCommit::diff_incremental`, on a document without pending operations:
/// the patches since the diff cursor was last moved; the cursor moves to the
/// current heads; history, mode and snapshots stay.
#[verifier::external_body]
pub(crate) fn doc_diff(doc: &mut automerge::AutoCommit) -> (patches: Vec<automerge::Patch>)
    requires
        doc_pending(*old(doc)) == 0,
    ensures
        patches@ == doc_unseen(*old(doc)),
        doc_pending(*final(doc)) == 0,
        same_history(*old(doc), *final(doc)),
        same_snapshots(*old(doc), *final(doc)),
{
    doc.diff_incremental()
}

/// The identifier of the root object, whose binary form is a single zero
/// byte.
#[verifier::external_body]
pub(crate) fn root_id() -> (id: automerge::ObjId)
    ensures
        id_bytes(id) == seq![0u8],
{
    automerge::ROOT
}

/// `Clone::clone` of an object identifier.
#[verifier::external_body]
pub(crate) fn clone_id(id: &automerge::ObjId) -> (copy: automerge::ObjId)
    ensures
        copy == *id,
{
    id.clone()
}

/// `ObjId::to_bytes`: the binary form, which `ObjId::try_from` reads back as
/// the same identifier.
#[verifier::external_body]
pub(crate) fn id_to_bytes(id: &automerge::ObjId) -> (bytes: Vec<u8>)
    ensures
        bytes@ == id_bytes(*id),
        id_parsed(bytes@) == Some(bytes@),
{
    id.to_bytes()
}

/// `ObjId::try_from` on bytes: the identifier that they are a binary form
/// of, or nothing where they are none.
#[verifier::external_body]
pub(crate) fn id_from_bytes(bytes: &Vec<u8>) -> (r: Option<automerge::ObjId>)
    ensures
        r is None <==> id_parsed(bytes@) is None,
        r matches Some(id) ==> id_parsed(bytes@) == Some(id_bytes(id)),
{
    automerge::ObjId::try_from(bytes.as_slice()).ok()
}

/// The text of a string that may be missing.
pub open spec fn text_of(r: Option<String>) -> Option<Seq<char>> {
    match r {
        Some(s) => Some(s@),
        None => None,
    }
}

/// The bytes of a byte string that may be missing.
pub open spec fn bytes_of(r: Option<Vec<u8>>) -> Option<Seq<u8>> {
    match r {
        Some(b) => Some(b@),
        None => None,
    }
}

/// The type code and bytes of a scalar of unknown kind that may be missing.
pub open spec fn coded_of(r: Option<(u8, Vec<u8>)>) -> Option<(u8, Seq<u8>)> {
    match r {
        Some((code, b)) => Some((code, b@)),
        None => None,
    }
}

/// `Value::to_objtype`: the type of a container, nothing for a scalar.
#[verifier::external_body]
pub(crate) fn value_object_type(v: &automerge::Value<'static>) -> (t: Option<ObjType>)
    ensures
        t is Some <==> value_held(*v) is Object,
        t matches Some(held) ==> value_held(*v) == ValueView::Object(held),
{
    match v.to_objtype() {
        Some(automerge::ObjType::Map) => Some(ObjType::Mapping),
        Some(automerge::ObjType::Table) => Some(ObjType::Table),
        Some(automerge::ObjType::List) => Some(ObjType::List),
        Some(automerge::ObjType::Text) => Some(ObjType::Text),
        None => None,
    }
}

/// `Value::to_scalar`, asked only which variant the scalar is: nothing for a
/// container.
#[verifier::external_body]
pub(crate) fn value_scalar_kind(v: &automerge::Value<'static>) -> (k: Option<ScalarKind>)
    ensures
        k is Some <==> value_held(*v) is Scalar,
        k matches Some(kind) ==> value_held(*v)->Scalar_0.kind() == kind,
{
    Some(match v.to_scalar()? {
        ScalarValue::Str(_) => ScalarKind::Str,
        ScalarValue::Int(_) => ScalarKind::Int,
        ScalarValue::Uint(_) => ScalarKind::Uint,
        ScalarValue::F64(_) => ScalarKind::Double,
        ScalarValue::Boolean(_) => ScalarKind::Boolean,
        ScalarValue::Timestamp(_) => ScalarKind::Timestamp,
        ScalarValue::Counter(_) => ScalarKind::Counter,
        ScalarValue::Bytes(_) => ScalarKind::Bytes,
        ScalarValue::Null => ScalarKind::Null,
        ScalarValue::Unknown { .. } => ScalarKind::Unknown,
    })
}

/// `Value::to_str`: the string of a string scalar.
#[verifier::external_body]
pub(crate) fn value_text(v: &automerge::Value<'static>) -> (r: Option<String>)
    ensures
        value_held(*v) matches ValueView::Scalar(ScalarView::Str(s)) ==> text_of(r) == Some(s),
{
    v.to_str().map(|s| s.to_owned())
}

/// `Value::to_i64`: the number of an integer, the milliseconds of a
/// timestamp, the current value of a counter.
#[verifier::external_body]
pub(crate) fn value_signed(v: &automerge::Value<'static>) -> (r: Option<i64>)
    ensures
        value_held(*v) matches ValueView::Scalar(ScalarView::Int(n)) ==> r == Some(n),
        value_held(*v) matches ValueView::Scalar(ScalarView::Timestamp(n)) ==> r == Some(n),
        value_held(*v) matches ValueView::Scalar(ScalarView::Counter(n)) ==> r == Some(n),
{
    v.to_i64()
}

/// `Value::to_u64`: the number of an unsigned integer.
#[verifier::external_body]
pub(crate) fn value_unsigned(v: &automerge::Value<'static>) -> (r: Option<u64>)
    ensures
        value_held(*v) matches ValueView::Scalar(ScalarView::Uint(n)) ==> r == Some(n),
{
    v.to_u64()
}

/// `Value::to_f64`, then the bits of the double: those that a double scalar
/// is held as.
#[verifier::external_body]
pub(crate) fn value_double_bits(v: &automerge::Value<'static>) -> (r: Option<u64>)
    ensures
        value_held(*v) matches ValueView::Scalar(ScalarView::Double(bits)) ==> r == Some(bits),
{
    v.to_f64().map(|x| x.to_bits())
}

/// `Value::to_bool`: the truth value of a boolean scalar.
#[verifier::external_body]
pub(crate) fn value_flag(v: &automerge::Value<'static>) -> (r: Option<bool>)
    ensures
        value_held(*v) matches ValueView::Scalar(ScalarView::Boolean(b)) ==> r == Some(b),
{
    v.to_bool()
}

/// `Value::to_bytes`: the bytes of a byte string.
#[verifier::external_body]
pub(crate) fn value_blob(v: &automerge::Value<'static>) -> (r: Option<Vec<u8>>)
    ensures
        value_held(*v) matches ValueView::Scalar(ScalarView::Bytes(b)) ==> bytes_of(r) == Some(b),
{
    v.to_bytes().map(|b| b.to_vec())
}

/// `Value::to_scalar`, asked for the two fields of a scalar of unknown kind.
#[verifier::external_body]
pub(crate) fn value_unknown(v: &automerge::Value<'static>) -> (r: Option<(u8, Vec<u8>)>)
    ensures
        value_held(*v) matches ValueView::Scalar(ScalarView::Unknown { type_code, bytes })
            ==> coded_of(r) == Some((type_code, bytes)),
{
    match v.to_scalar() {
        Some(ScalarValue::Unknown { type_code, bytes }) => Some((*type_code, bytes.clone())),
        _ => None,
    }
}

/// A value and its identifier that may be missing, over what they hold.
pub open spec fn pair_of(r: Option<(automerge::Value<'static>, automerge::ObjId)>) -> Option<
    (ValueView, Seq<u8>),
> {
    match r {
        Some((v, id)) => Some((value_held(v), id_bytes(id))),
        None => None,
    }
}

/// The field `obj` of a patch: the object that it changes.
#[verifier::external_body]
pub(crate) fn patch_target(p: &automerge::Patch) -> (id: automerge::ObjId)
    ensures
        id_bytes(id) == patch_held(*p).obj,
{
    p.obj.clone()
}

/// The length of the field `path` of a patch.
#[verifier::external_body]
pub(crate) fn patch_path_len(p: &automerge::Patch) -> (n: usize)
    ensures
        n == patch_held(*p).path.len(),
{
    p.path.len()
}

/// The object of one step of the field `path` of a patch.
#[verifier::external_body]
pub(crate) fn patch_path_obj(p: &automerge::Patch, i: usize) -> (id: automerge::ObjId)
    requires
        i < patch_held(*p).path.len(),
    ensures
        id_bytes(id) == patch_held(*p).path[i as int].0,
{
    p.path[i].0.clone()
}

/// The property of one step of the field `path` of a patch.
#[verifier::external_body]
pub(crate) fn patch_path_prop(p: &automerge::Patch, i: usize) -> (prop: Position)
    requires
        i < patch_held(*p).path.len(),
    ensures
        prop@ == patch_held(*p).path[i as int].1,
{
    match &p.path[i].1 {
        automerge::Prop::Map(key) => Position::Key(key.clone()),
        automerge::Prop::Seq(index) => Position::At(*index),
    }
}

/// Which variant the field `action` of a patch is.
#[verifier::external_body]
pub(crate) fn patch_kind(p: &automerge::Patch) -> (kind: ActionKind)
    ensures
        kind == patch_held(*p).action.kind(),
{
    match &p.action {
        PatchAction::PutMap { .. } => ActionKind::PutMap,
        PatchAction::PutSeq { .. } => ActionKind::PutSeq,
        PatchAction::Insert { .. } => ActionKind::Insert,
        PatchAction::SpliceText { .. } => ActionKind::SpliceText,
        PatchAction::Increment { .. } => ActionKind::Increment,
        PatchAction::Conflict { .. } => ActionKind::Conflict,
        PatchAction::DeleteMap { .. } => ActionKind::DeleteMap,
        PatchAction::DeleteSeq { .. } => ActionKind::DeleteSeq,
        PatchAction::Mark { .. } => ActionKind::Mark,
    }
}

/// The field `key` of the action of a patch that sets or deletes a key.
#[verifier::external_body]
pub(crate) fn patch_key(p: &automerge::Patch) -> (r: Option<String>)
    ensures
        patch_held(*p).action matches RawAction::PutMap { key, .. } ==> text_of(r) == Some(key),
        patch_held(*p).action matches RawAction::DeleteMap { key } ==> text_of(r) == Some(key),
{
    match &p.action {
        PatchAction::PutMap { key, .. } => Some(key.clone()),
        PatchAction::DeleteMap { key } => Some(key.clone()),
        _ => None,
    }
}

/// The field `index` of the action of a patch on a sequence.
#[verifier::external_body]
pub(crate) fn patch_index(p: &automerge::Patch) -> (r: Option<usize>)
    ensures
        patch_held(*p).action matches RawAction::PutSeq { index, .. } ==> r == Some(index),
        patch_held(*p).action matches RawAction::Insert { index, .. } ==> r == Some(index),
        patch_held(*p).action matches RawAction::SpliceText { index, .. } ==> r == Some(index),
        patch_held(*p).action matches RawAction::DeleteSeq { index, .. } ==> r == Some(index),
{
    match &p.action {
        PatchAction::PutSeq { index, .. } => Some(*index),
        PatchAction::Insert { index, .. } => Some(*index),
        PatchAction::SpliceText { index, .. } => Some(*index),
        PatchAction::DeleteSeq { index, .. } => Some(*index),
        _ => None,
    }
}

/// The field `value` of the action of a patch that sets a key or a position:
/// the value and the identifier that came with it.
#[verifier::external_body]
pub(crate) fn patch_value(p: &automerge::Patch) -> (r: Option<
    (automerge::Value<'static>, automerge::ObjId),
>)
    ensures
        patch_held(*p).action matches RawAction::PutMap { value, id, .. } ==> pair_of(r) == Some(
            (value, id),
        ),
        patch_held(*p).action matches RawAction::PutSeq { value, id, .. } ==> pair_of(r) == Some(
            (value, id),
        ),
{
    match &p.action {
        PatchAction::PutMap { value, .. } => Some(value.clone()),
        PatchAction::PutSeq { value, .. } => Some(value.clone()),
        _ => None,
    }
}

/// The field `conflict` of the action of a patch that sets a key or a
/// position.
#[verifier::external_body]
pub(crate) fn patch_conflict(p: &automerge::Patch) -> (r: Option<bool>)
    ensures
        patch_held(*p).action matches RawAction::PutMap { conflict, .. } ==> r == Some(conflict),
        patch_held(*p).action matches RawAction::PutSeq { conflict, .. } ==> r == Some(conflict),
{
    match &p.action {
        PatchAction::PutMap { conflict, .. } => Some(*conflict),
        PatchAction::PutSeq { conflict, .. } => Some(*conflict),
        _ => None,
    }
}

/// The field `length` of the action of a patch that deletes from a sequence.
#[verifier::external_body]
pub(crate) fn patch_count(p: &automerge::Patch) -> (r: Option<usize>)
    ensures
        patch_held(*p).action matches RawAction::DeleteSeq { count, .. } ==> r == Some(count),
{
    match &p.action {
        PatchAction::DeleteSeq { length, .. } => Some(*length),
        _ => None,
    }
}

/// A position that may be missing, over what it stands for.
pub open spec fn position_of(r: Option<Position>) -> Option<crate::rawpatch::PositionView> {
    match r {
        Some(p) => Some(p@),
        None => None,
    }
}

/// The field `prop` of the action of a patch that increments a counter.
#[verifier::external_body]
pub(crate) fn patch_prop(p: &automerge::Patch) -> (r: Option<Position>)
    ensures
        patch_held(*p).action matches RawAction::Increment { prop, .. } ==> position_of(r)
            == Some(prop),
{
    match &p.action {
        PatchAction::Increment { prop: automerge::Prop::Map(key), .. } => Some(Position::Key(key.clone())),
        PatchAction::Increment { prop: automerge::Prop::Seq(index), .. } => Some(Position::At(*index)),
        _ => None,
    }
}

/// The field `value` of the action of a patch that increments a counter.
#[verifier::external_body]
pub(crate) fn patch_delta(p: &automerge::Patch) -> (r: Option<i64>)
    ensures
        patch_held(*p).action matches RawAction::Increment { delta, .. } ==> r == Some(delta),
{
    match &p.action {
        PatchAction::Increment { value, .. } => Some(*value),
        _ => None,
    }
}

/// The field `value` of the action of a patch that splices text, as the
/// string that `TextValue::make_string` makes of it.
#[verifier::external_body]
pub(crate) fn patch_text(p: &automerge::Patch) -> (r: Option<String>)
    ensures
        patch_held(*p).action matches RawAction::SpliceText { text, .. } ==> text_of(r) == Some(
            text,
        ),
{
    match &p.action {
        PatchAction::SpliceText { value, .. } => Some(value.make_string()),
        _ => None,
    }
}

/// A count that may be missing, as a number.
pub open spec fn count_of(r: Option<usize>) -> Option<nat> {
    match r {
        Some(n) => Some(n as nat),
        None => None,
    }
}

/// The length of the field `values` of the action of a patch that inserts
/// into a sequence.
#[verifier::external_body]
pub(crate) fn patch_inserted_len(p: &automerge::Patch) -> (r: Option<usize>)
    ensures
        patch_held(*p).action matches RawAction::Insert { values, .. } ==> count_of(r) == Some(
            values.len(),
        ),
{
    match &p.action {
        PatchAction::Insert { values, .. } => Some(values.len()),
        _ => None,
    }
}

/// One of the field `values` of the action of a patch that inserts into a
/// sequence: the value and the identifier that came with it.
#[verifier::external_body]
pub(crate) fn patch_inserted(p: &automerge::Patch, i: usize) -> (r: Option<
    (automerge::Value<'static>, automerge::ObjId),
>)
    ensures
        patch_held(*p).action matches RawAction::Insert { values, .. } ==> (i < values.len()
            ==> pair_of(r) == Some(values[i as int])),
{
    match &p.action {
        PatchAction::Insert { values, .. } => values.get(i).map(|v| (v.0.clone(), v.1.clone())),
        _ => None,
    }
}

} // verus!
