//! Patches: what changed in a document since it was last asked.
//!
//! The document reports changes in its own terms. Here they are put into a
//! stable schema, with identifiers in their external form and positions of
//! thirty-two bits. A change that the schema has no variant for is refused,
//! not dropped.
use crate::convert::plain_value;
use crate::document::{lemma_settled_known, Automerge};
use crate::error::Error;
use crate::hexcode::hex_chars;
use crate::ident::ObjectId;
use crate::rawpatch::{ActionKind, Position, PositionView, RawAction, RawPatch};
use crate::reads::{lemma_settled_then_kept, record_of, ValueRecord};
use crate::replica::{
    doc_diff, doc_get_heads, doc_pending, doc_unseen, patch_conflict, patch_count, patch_delta,
    patch_held, patch_index, patch_inserted, patch_inserted_len, patch_key, patch_kind,
    patch_path_len, patch_path_obj, patch_path_prop, patch_prop, patch_target, patch_text,
    patch_value, same_history, same_snapshots, settled,
};
use crate::value::{Prop, PropView, ValueView};
use vstd::prelude::*;

verus! {

/// One step of the path from the root to a changed object: the parent and
/// the property under which the next object lives.
#[derive(Debug, Clone, PartialEq, Eq)]
pub struct PathSegment {
    pub obj: String,
    pub prop: Prop,
}

/// What a [`PathSegment`] stands for.
pub struct SegmentView {
    pub obj: Seq<char>,
    pub prop: PropView,
}

impl View for PathSegment {
    type V = SegmentView;

    open spec fn view(&self) -> SegmentView {
        SegmentView { obj: self.obj@, prop: self.prop@ }
    }
}

/// One observed change of an object.
#[derive(Debug, Clone, PartialEq, Eq)]
pub enum PatchAction {
    /// A key of a map was set. With a conflict, the value is the winner.
    PutMap { key: String, value: ValueRecord, conflict: bool },
    /// A position of a list was set. With a conflict, the value is the
    /// winner.
    PutSeq { index: u32, value: ValueRecord, conflict: bool },
    /// Elements were inserted into a list or text, the first at `index`.
    Insert { index: u32, values: Vec<ValueRecord> },
    /// A key of a map was deleted.
    DeleteMap { key: String },
    /// `count` elements were deleted from a list or text, from `index` on.
    DeleteSeq { index: u32, count: u32 },
    /// A counter was changed by `delta`.
    Increment { prop: Prop, delta: i64 },
    /// Text was inserted at `index`. Deletions are reported on their own, so
    /// `delete_count` is zero.
    SpliceText { index: u32, delete_count: u32, inserted_text: String },
}

/// What a [`PatchAction`] stands for.
pub enum ActionView {
    PutMap { key: Seq<char>, value: (Seq<char>, Option<Seq<char>>), conflict: bool },
    PutSeq { index: u32, value: (Seq<char>, Option<Seq<char>>), conflict: bool },
    Insert { index: u32, values: Seq<(Seq<char>, Option<Seq<char>>)> },
    DeleteMap { key: Seq<char> },
    DeleteSeq { index: u32, count: u32 },
    Increment { prop: PropView, delta: i64 },
    SpliceText { index: u32, delete_count: u32, inserted_text: Seq<char> },
}

/// What a list of value records stands for.
pub open spec fn records_view(values: Seq<ValueRecord>) -> Seq<(Seq<char>, Option<Seq<char>>)> {
    values.map_values(|v: ValueRecord| v@)
}

impl View for PatchAction {
    type V = ActionView;

    open spec fn view(&self) -> ActionView {
        match self {
            PatchAction::PutMap { key, value, conflict } => ActionView::PutMap {
                key: key@,
                value: value@,
                conflict: *conflict,
            },
            PatchAction::PutSeq { index, value, conflict } => ActionView::PutSeq {
                index: *index,
                value: value@,
                conflict: *conflict,
            },
            PatchAction::Insert { index, values } => ActionView::Insert {
                index: *index,
                values: records_view(values@),
            },
            PatchAction::DeleteMap { key } => ActionView::DeleteMap { key: key@ },
            PatchAction::DeleteSeq { index, count } => ActionView::DeleteSeq {
                index: *index,
                count: *count,
            },
            PatchAction::Increment { prop, delta } => ActionView::Increment {
                prop: prop@,
                delta: *delta,
            },
            PatchAction::SpliceText { index, delete_count, inserted_text } => ActionView::SpliceText {
                index: *index,
                delete_count: *delete_count,
                inserted_text: inserted_text@,
            },
        }
    }
}

/// One change: the object it happened to, the path from the root to that
/// object, and what happened.
#[derive(Debug, Clone, PartialEq, Eq)]
pub struct PatchRecord {
    pub obj: String,
    pub path: Vec<PathSegment>,
    pub action: PatchAction,
}

/// What a [`PatchRecord`] stands for.
pub struct PatchView {
    pub obj: Seq<char>,
    pub path: Seq<SegmentView>,
    pub action: ActionView,
}

/// What a list of path segments stands for.
pub open spec fn segments_view(path: Seq<PathSegment>) -> Seq<SegmentView> {
    path.map_values(|s: PathSegment| s@)
}

impl View for PatchRecord {
    type V = PatchView;

    open spec fn view(&self) -> PatchView {
        PatchView { obj: self.obj@, path: segments_view(self.path@), action: self.action@ }
    }
}

/// A position as the schema holds it, if it fits in thirty-two bits.
pub open spec fn narrowed(n: usize) -> Option<u32> {
    if n <= u32::MAX {
        Some(n as u32)
    } else {
        None
    }
}

/// The property that a key or position of the document stands for, if the
/// position fits.
pub open spec fn prop_of_position(p: PositionView) -> Option<PropView> {
    match p {
        PositionView::Key(k) => Some(PropView::MapKey(k)),
        PositionView::At(n) => match narrowed(n) {
            Some(i) => Some(PropView::SeqIndex(i)),
            None => None,
        },
    }
}

/// The records of inserted values.
pub open spec fn inserted_records(values: Seq<(ValueView, Seq<u8>)>) -> Seq<
    (Seq<char>, Option<Seq<char>>),
> {
    values.map_values(|v: (ValueView, Seq<u8>)| record_of(v.0))
}

/// The change in the schema of this library, if the schema has a variant for
/// it and its positions fit.
pub open spec fn action_of(raw: RawAction) -> Option<ActionView> {
    match raw {
        RawAction::PutMap { key, value, id, conflict } => Some(
            ActionView::PutMap { key, value: record_of(value), conflict },
        ),
        RawAction::PutSeq { index, value, id, conflict } => match narrowed(index) {
            Some(i) => Some(ActionView::PutSeq { index: i, value: record_of(value), conflict }),
            None => None,
        },
        RawAction::Insert { index, values } => match narrowed(index) {
            Some(i) => Some(ActionView::Insert { index: i, values: inserted_records(values) }),
            None => None,
        },
        RawAction::SpliceText { index, text } => match narrowed(index) {
            Some(i) => Some(
                ActionView::SpliceText { index: i, delete_count: 0, inserted_text: text },
            ),
            None => None,
        },
        RawAction::Increment { prop, delta } => match prop_of_position(prop) {
            Some(p) => Some(ActionView::Increment { prop: p, delta }),
            None => None,
        },
        RawAction::DeleteMap { key } => Some(ActionView::DeleteMap { key }),
        RawAction::DeleteSeq { index, count } => match (narrowed(index), narrowed(count)) {
            (Some(i), Some(c)) => Some(ActionView::DeleteSeq { index: i, count: c }),
            _ => None,
        },
        RawAction::Conflict { .. } => None,
        RawAction::Mark => None,
    }
}

/// The path in the schema of this library, if its positions fit.
pub open spec fn segments_of(path: Seq<(Seq<u8>, PositionView)>) -> Option<Seq<SegmentView>> {
    if forall|i: int| 0 <= i < path.len() ==> prop_of_position((#[trigger] path[i]).1) is Some {
        Some(
            Seq::new(
                path.len(),
                |i: int|
                    SegmentView {
                        obj: hex_chars(path[i].0),
                        prop: prop_of_position(path[i].1).unwrap(),
                    },
            ),
        )
    } else {
        None
    }
}

/// The patch in the schema of this library, if the schema can hold it.
pub open spec fn record_of_patch(raw: RawPatch) -> Option<PatchView> {
    match (segments_of(raw.path), action_of(raw.action)) {
        (Some(path), Some(action)) => Some(PatchView { obj: hex_chars(raw.obj), path, action }),
        _ => None,
    }
}

/// The patches in the schema of this library, if the schema can hold every
/// one of them.
pub open spec fn records_of(patches: Seq<automerge::Patch>) -> Option<Seq<PatchView>> {
    if forall|i: int|
        0 <= i < patches.len() ==> record_of_patch(patch_held(#[trigger] patches[i])) is Some {
        Some(Seq::new(patches.len(), |i: int| record_of_patch(patch_held(patches[i])).unwrap()))
    } else {
        None
    }
}

/// What a list of patch records stands for.
pub open spec fn patches_view(patches: Seq<PatchRecord>) -> Seq<PatchView> {
    patches.map_values(|p: PatchRecord| p@)
}

/// `post` is `pre` with its transaction closed and its diff cursor moved,
/// and `outcome` is what was found to have changed since the cursor was last
/// moved: the patches, or none of them where the schema cannot hold one.
pub open spec fn reported(
    pre: automerge::AutoCommit,
    post: automerge::AutoCommit,
    outcome: Option<Seq<PatchView>>,
) -> bool {
    exists|mid: automerge::AutoCommit| #[trigger]
        settled(pre, mid) && doc_pending(post) == 0 && same_history(mid, post) && same_snapshots(
            mid,
            post,
        ) && outcome == records_of(doc_unseen(mid))
}

/// A position as the schema holds it.
fn narrow(n: usize) -> (r: Option<u32>)
    ensures
        r == narrowed(n),
{
    if n <= u32::MAX as usize {
        Some(n as u32)
    } else {
        None
    }
}

/// The property that a key or position of the document stands for.
fn position_prop(p: Position) -> (r: Option<Prop>)
    ensures
        match r {
            Some(prop) => prop_of_position(p@) == Some(prop@),
            None => prop_of_position(p@) is None,
        },
{
    match p {
        Position::Key(k) => Some(Prop::MapKey(k)),
        Position::At(n) => match narrow(n) {
            Some(i) => Some(Prop::SeqIndex(i)),
            None => None,
        },
    }
}

/// The path of a patch in the schema of this library.
#[verifier::loop_isolation(false)]
fn convert_path(p: &automerge::Patch) -> (r: Option<Vec<PathSegment>>)
    ensures
        match r {
            Some(path) => segments_of(patch_held(*p).path) == Some(segments_view(path@)),
            None => segments_of(patch_held(*p).path) is None,
        },
{
    let ghost raw = patch_held(*p).path;
    let n = patch_path_len(p);
    let mut path: Vec<PathSegment> = Vec::new();
    let mut i: usize = 0;
    while i < n
        invariant
            i <= n,
            path.len() == i,
            forall|k: int| 0 <= k < i ==> prop_of_position((#[trigger] raw[k]).1) is Some,
            forall|k: int|
                0 <= k < i ==> (#[trigger] path@[k])@ == (SegmentView {
                    obj: hex_chars(raw[k].0),
                    prop: prop_of_position(raw[k].1).unwrap(),
                }),
        decreases n - i,
    {
        let obj = ObjectId::wrap(patch_path_obj(p, i));
        let prop = match position_prop(patch_path_prop(p, i)) {
            Some(prop) => prop,
            None => {
                assert(prop_of_position(raw[i as int].1) is None);
                return None;
            },
        };
        path.push(PathSegment { obj: obj.to_hex(), prop });
        i += 1;
    }
    assert(segments_view(path@) =~= segments_of(raw).unwrap());
    Some(path)
}

/// The records of the values that a patch inserts.
#[verifier::loop_isolation(false)]
fn convert_inserted(p: &automerge::Patch) -> (r: Vec<ValueRecord>)
    requires
        patch_held(*p).action is Insert,
    ensures
        records_view(r@) == inserted_records(patch_held(*p).action->Insert_values),
{
    let ghost values = patch_held(*p).action->Insert_values;
    let n = match patch_inserted_len(p) {
        Some(n) => n,
        None => 0,
    };
    let mut records: Vec<ValueRecord> = Vec::new();
    let mut i: usize = 0;
    while i < n
        invariant
            i <= n,
            n == values.len(),
            records.len() == i,
            forall|k: int| 0 <= k < i ==> (#[trigger] records@[k])@ == record_of(values[k].0),
        decreases n - i,
    {
        match patch_inserted(p, i) {
            Some((value, _)) => {
                let plain = plain_value(&value);
                records.push(ValueRecord::from(&plain));
            },
            None => {
                assert(false);
            },
        }
        i += 1;
    }
    assert(records_view(records@) =~= inserted_records(values));
    records
}

/// The change of a patch in the schema of this library.
fn convert_action(p: &automerge::Patch) -> (r: Option<PatchAction>)
    ensures
        match r {
            Some(action) => action_of(patch_held(*p).action) == Some(action@),
            None => action_of(patch_held(*p).action) is None,
        },
{
    match patch_kind(p) {
        ActionKind::PutMap => match (patch_key(p), patch_value(p), patch_conflict(p)) {
            (Some(key), Some((value, _)), Some(conflict)) => {
                let plain = plain_value(&value);
                Some(PatchAction::PutMap { key, value: ValueRecord::from(&plain), conflict })
            },
            _ => None,
        },
        ActionKind::PutSeq => match (patch_index(p), patch_value(p), patch_conflict(p)) {
            (Some(at), Some((value, _)), Some(conflict)) => match narrow(at) {
                Some(index) => {
                    let plain = plain_value(&value);
                    Some(PatchAction::PutSeq { index, value: ValueRecord::from(&plain), conflict })
                },
                None => None,
            },
            _ => None,
        },
        ActionKind::Insert => match patch_index(p) {
            Some(at) => match narrow(at) {
                Some(index) => Some(PatchAction::Insert { index, values: convert_inserted(p) }),
                None => None,
            },
            None => None,
        },
        ActionKind::SpliceText => match (patch_index(p), patch_text(p)) {
            (Some(at), Some(inserted_text)) => match narrow(at) {
                Some(index) => Some(
                    PatchAction::SpliceText { index, delete_count: 0, inserted_text },
                ),
                None => None,
            },
            _ => None,
        },
        ActionKind::Increment => match (patch_prop(p), patch_delta(p)) {
            (Some(position), Some(delta)) => match position_prop(position) {
                Some(prop) => Some(PatchAction::Increment { prop, delta }),
                None => None,
            },
            _ => None,
        },
        ActionKind::DeleteMap => match patch_key(p) {
            Some(key) => Some(PatchAction::DeleteMap { key }),
            None => None,
        },
        ActionKind::DeleteSeq => match (patch_index(p), patch_count(p)) {
            (Some(at), Some(length)) => match (narrow(at), narrow(length)) {
                (Some(index), Some(count)) => Some(PatchAction::DeleteSeq { index, count }),
                _ => None,
            },
            _ => None,
        },
        ActionKind::Conflict => None,
        ActionKind::Mark => None,
    }
}

impl PatchRecord {
    /// The patch in the schema of this library. A change that the schema has
    /// no variant for, or a position that does not fit in thirty-two bits,
    /// is an unsupported patch action.
    pub fn from(p: &automerge::Patch) -> (r: Result<PatchRecord, Error>)
        ensures
            match r {
                Ok(record) => record_of_patch(patch_held(*p)) == Some(record@),
                Err(e) => e == Error::UnsupportedPatchAction && record_of_patch(patch_held(*p))
                    is None,
            },
    {
        let path = match convert_path(p) {
            Some(path) => path,
            None => {
                return Err(Error::UnsupportedPatchAction);
            },
        };
        let action = match convert_action(p) {
            Some(action) => action,
            None => {
                return Err(Error::UnsupportedPatchAction);
            },
        };
        let obj = ObjectId::wrap(patch_target(p));
        Ok(PatchRecord { obj: obj.to_hex(), path, action })
    }
}

impl Automerge {
    /// What changed since the diff cursor was last moved, in order, and
    /// moves the cursor to the heads. Buffered operations are sealed into a
    /// change first. Where the schema cannot hold one of the changes the
    /// whole report is an unsupported patch action; the cursor has moved all
    /// the same.
    #[verifier::loop_isolation(false)]
    pub fn diff_incremental(&mut self) -> (r: Result<Vec<PatchRecord>, Error>)
        requires
            old(self).wf(),
        ensures
            final(self).wf(),
            final(self).frozen() == old(self).frozen(),
            settled(old(self).doc(), final(self).doc()),
            reported(
                old(self).doc(),
                final(self).doc(),
                match r {
                    Ok(patches) => Some(patches_view(patches@)),
                    Err(_) => None,
                },
            ),
            r matches Err(e) ==> e == Error::UnsupportedPatchAction,
    {
        let ghost pre = self.doc;
        let _ = doc_get_heads(&mut self.doc);
        let ghost mid = self.doc;
        proof {
            lemma_settled_known(pre, mid);
        }
        let raw = doc_diff(&mut self.doc);
        proof {
            lemma_settled_then_kept(pre, mid, self.doc);
            lemma_settled_known(pre, self.doc);
        }
        let mut patches: Vec<PatchRecord> = Vec::new();
        let mut i: usize = 0;
        while i < raw.len()
            invariant
                i <= raw.len(),
                patches.len() == i,
                forall|k: int|
                    0 <= k < i ==> record_of_patch(patch_held(#[trigger] raw@[k])) is Some,
                forall|k: int|
                    0 <= k < i ==> (#[trigger] patches@[k])@ == record_of_patch(
                        patch_held(raw@[k]),
                    ).unwrap(),
            decreases raw.len() - i,
        {
            match PatchRecord::from(&raw[i]) {
                Ok(record) => {
                    patches.push(record);
                },
                Err(e) => {
                    assert(record_of_patch(patch_held(raw@[i as int])) is None);
                    assert(records_of(raw@) is None);
                    return Err(e);
                },
            }
            i += 1;
        }
        assert(patches_view(patches@) =~= records_of(raw@).unwrap());
        Ok(patches)
    }
}

} // verus!
