//! The values of a document and the properties that address them.
use vstd::prelude::*;

verus! {

/// The kind of a container.
#[derive(Debug, Clone, Copy, PartialEq, Eq, Structural)]
pub enum ObjType {
    /// A map: children addressed by string key.
    Mapping,
    /// Children addressed by position.
    List,
    /// Addressed like a map.
    Table,
    /// A sequence of characters, addressed like a list.
    Text,
}

impl ObjType {
    /// Whether children are addressed by string key rather than by position.
    pub open spec fn keyed(self) -> bool {
        self is Mapping || self is Table
    }

    /// Whether children are addressed by string key rather than by position.
    pub fn is_keyed(self) -> (b: bool)
        ensures
            b == self.keyed(),
    {
        match self {
            ObjType::Mapping => true,
            ObjType::Table => true,
            ObjType::List => false,
            ObjType::Text => false,
        }
    }
}

/// One step of addressing: a key of a map or a position in a sequence.
#[derive(Debug, Clone, PartialEq, Eq)]
pub enum Prop {
    /// A key of a map or table.
    MapKey(String),
    /// A position in a list or text.
    SeqIndex(u32),
}

/// What a [`Prop`] stands for.
pub enum PropView {
    MapKey(Seq<char>),
    SeqIndex(u32),
}

impl View for Prop {
    type V = PropView;

    open spec fn view(&self) -> PropView {
        match self {
            Prop::MapKey(k) => PropView::MapKey(k@),
            Prop::SeqIndex(i) => PropView::SeqIndex(*i),
        }
    }
}

impl PropView {
    /// Whether this property is of the kind that addresses the children of a
    /// container of type `t`.
    pub open spec fn fits(self, t: ObjType) -> bool {
        t.keyed() <==> self is MapKey
    }
}

/// A value that is not a container.
#[derive(Debug, Clone, PartialEq, Eq)]
pub enum Scalar {
    Str(String),
    Int(i64),
    Uint(u64),
    /// A double, held as the bits of its IEEE 754 form.
    Double(u64),
    Boolean(bool),
    /// Milliseconds since the epoch.
    Timestamp(i64),
    /// The current value of a counter.
    Counter(i64),
    Bytes(Vec<u8>),
    Null,
    /// A scalar of a kind this version does not know, as it is stored.
    Unknown { type_code: u8, bytes: Vec<u8> },
}

/// What a [`Scalar`] stands for.
pub enum ScalarView {
    Str(Seq<char>),
    Int(i64),
    Uint(u64),
    Double(u64),
    Boolean(bool),
    Timestamp(i64),
    Counter(i64),
    Bytes(Seq<u8>),
    Null,
    Unknown { type_code: u8, bytes: Seq<u8> },
}

impl View for Scalar {
    type V = ScalarView;

    open spec fn view(&self) -> ScalarView {
        match self {
            Scalar::Str(s) => ScalarView::Str(s@),
            Scalar::Int(n) => ScalarView::Int(*n),
            Scalar::Uint(n) => ScalarView::Uint(*n),
            Scalar::Double(bits) => ScalarView::Double(*bits),
            Scalar::Boolean(b) => ScalarView::Boolean(*b),
            Scalar::Timestamp(n) => ScalarView::Timestamp(*n),
            Scalar::Counter(n) => ScalarView::Counter(*n),
            Scalar::Bytes(b) => ScalarView::Bytes(b@),
            Scalar::Null => ScalarView::Null,
            Scalar::Unknown { type_code, bytes } => ScalarView::Unknown {
                type_code: *type_code,
                bytes: bytes@,
            },
        }
    }
}

/// The kinds of scalar.
#[derive(Debug, Clone, Copy, PartialEq, Eq, Structural)]
pub enum ScalarKind {
    Str,
    Int,
    Uint,
    Double,
    Boolean,
    Timestamp,
    Counter,
    Bytes,
    Null,
    Unknown,
}

impl ScalarView {
    /// The kind of this scalar.
    pub open spec fn kind(self) -> ScalarKind {
        match self {
            ScalarView::Str(_) => ScalarKind::Str,
            ScalarView::Int(_) => ScalarKind::Int,
            ScalarView::Uint(_) => ScalarKind::Uint,
            ScalarView::Double(_) => ScalarKind::Double,
            ScalarView::Boolean(_) => ScalarKind::Boolean,
            ScalarView::Timestamp(_) => ScalarKind::Timestamp,
            ScalarView::Counter(_) => ScalarKind::Counter,
            ScalarView::Bytes(_) => ScalarKind::Bytes,
            ScalarView::Null => ScalarKind::Null,
            ScalarView::Unknown { .. } => ScalarKind::Unknown,
        }
    }
}

/// A value of a document: a scalar, or a container of some type.
#[derive(Debug, Clone, PartialEq, Eq)]
pub enum PlainValue {
    Scalar(Scalar),
    Object(ObjType),
}

/// What a [`PlainValue`] stands for.
pub enum ValueView {
    Scalar(ScalarView),
    Object(ObjType),
}

impl View for PlainValue {
    type V = ValueView;

    open spec fn view(&self) -> ValueView {
        match self {
            PlainValue::Scalar(s) => ValueView::Scalar(s@),
            PlainValue::Object(t) => ValueView::Object(*t),
        }
    }
}

impl ValueView {
    /// The tag that names the kind of this value.
    pub open spec fn type_tag(self) -> Seq<char> {
        match self {
            ValueView::Scalar(ScalarView::Str(_)) => "str"@,
            ValueView::Scalar(ScalarView::Int(_)) => "int"@,
            ValueView::Scalar(ScalarView::Uint(_)) => "uint"@,
            ValueView::Scalar(ScalarView::Double(_)) => "f64"@,
            ValueView::Scalar(ScalarView::Boolean(_)) => "boolean"@,
            ValueView::Scalar(ScalarView::Timestamp(_)) => "timestamp"@,
            ValueView::Scalar(ScalarView::Counter(_)) => "counter"@,
            ValueView::Scalar(ScalarView::Bytes(_)) => "bytes"@,
            ValueView::Scalar(ScalarView::Null) => "null"@,
            ValueView::Scalar(ScalarView::Unknown { .. }) => "unknown"@,
            ValueView::Object(ObjType::List) => "list"@,
            ValueView::Object(ObjType::Mapping) => "map"@,
            ValueView::Object(ObjType::Table) => "table"@,
            ValueView::Object(ObjType::Text) => "text"@,
        }
    }

    /// The string that this value holds, if it is a string.
    pub open spec fn text(self) -> Option<Seq<char>> {
        match self {
            ValueView::Scalar(ScalarView::Str(s)) => Some(s),
            _ => None,
        }
    }
}

impl PlainValue {
    /// The tag that names the kind of this value: one of the scalar tags, or
    /// `map`, `list`, `table`, `text`.
    pub fn get_type(&self) -> (tag: String)
        ensures
            tag@ == self@.type_tag(),
    {
        match self {
            PlainValue::Scalar(s) => match s {
                Scalar::Str(_) => "str".to_owned(),
                Scalar::Int(_) => "int".to_owned(),
                Scalar::Uint(_) => "uint".to_owned(),
                Scalar::Double(_) => "f64".to_owned(),
                Scalar::Boolean(_) => "boolean".to_owned(),
                Scalar::Timestamp(_) => "timestamp".to_owned(),
                Scalar::Counter(_) => "counter".to_owned(),
                Scalar::Bytes(_) => "bytes".to_owned(),
                Scalar::Null => "null".to_owned(),
                Scalar::Unknown { .. } => "unknown".to_owned(),
            },
            PlainValue::Object(ObjType::List) => "list".to_owned(),
            PlainValue::Object(ObjType::Mapping) => "map".to_owned(),
            PlainValue::Object(ObjType::Table) => "table".to_owned(),
            PlainValue::Object(ObjType::Text) => "text".to_owned(),
        }
    }
}

} // verus!
