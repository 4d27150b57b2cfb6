//! What a patch of the document holds, before it is put into the schema of
//! this library.
use crate::value::ValueView;
use vstd::prelude::*;

verus! {

/// The key or position that a patch names. A position is as wide as the
/// document counts them.
#[derive(Debug, Clone, PartialEq, Eq)]
pub enum Position {
    Key(String),
    At(usize),
}

/// What a [`Position`] stands for.
pub enum PositionView {
    Key(Seq<char>),
    At(usize),
}

impl View for Position {
    type V = PositionView;

    open spec fn view(&self) -> PositionView {
        match self {
            Position::Key(k) => PositionView::Key(k@),
            Position::At(n) => PositionView::At(*n),
        }
    }
}

/// The kinds of change that a patch of the document can report.
#[derive(Debug, Clone, Copy, PartialEq, Eq, Structural)]
pub enum ActionKind {
    PutMap,
    PutSeq,
    Insert,
    SpliceText,
    Increment,
    Conflict,
    DeleteMap,
    DeleteSeq,
    Mark,
}

/// The change that a patch of the document reports.
pub enum RawAction {
    PutMap { key: Seq<char>, value: ValueView, id: Seq<u8>, conflict: bool },
    PutSeq { index: usize, value: ValueView, id: Seq<u8>, conflict: bool },
    Insert { index: usize, values: Seq<(ValueView, Seq<u8>)> },
    SpliceText { index: usize, text: Seq<char> },
    Increment { prop: PositionView, delta: i64 },
    Conflict { prop: PositionView },
    DeleteMap { key: Seq<char> },
    DeleteSeq { index: usize, count: usize },
    Mark,
}

impl RawAction {
    /// The kind of this change.
    pub open spec fn kind(self) -> ActionKind {
        match self {
            RawAction::PutMap { .. } => ActionKind::PutMap,
            RawAction::PutSeq { .. } => ActionKind::PutSeq,
            RawAction::Insert { .. } => ActionKind::Insert,
            RawAction::SpliceText { .. } => ActionKind::SpliceText,
            RawAction::Increment { .. } => ActionKind::Increment,
            RawAction::Conflict { .. } => ActionKind::Conflict,
            RawAction::DeleteMap { .. } => ActionKind::DeleteMap,
            RawAction::DeleteSeq { .. } => ActionKind::DeleteSeq,
            RawAction::Mark => ActionKind::Mark,
        }
    }
}

/// What a patch of the document holds: the object it changes, the path from
/// the root to that object, and the change.
pub struct RawPatch {
    pub obj: Seq<u8>,
    pub path: Seq<(Seq<u8>, PositionView)>,
    pub action: RawAction,
}

} // verus!
