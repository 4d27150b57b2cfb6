use automerge::marks::{ExpandMark, Mark};
use automerge::transaction::Transactable;
use automerge::{AutoCommit, ObjId, ObjType, ReadDoc, ScalarValue, ROOT};
use automerge_doc::document::{load, Automerge};
use automerge_doc::error::Error;
use automerge_doc::ident::ObjectId;
use automerge_doc::patch::{PatchAction, PatchRecord, PathSegment};
use automerge_doc::reads::ValueRecord;
use automerge_doc::value::{ObjType as Kind, PlainValue, Prop, Scalar};

struct Sample {
    handle: Automerge,
    list: ObjId,
    inner: ObjId,
    text: ObjId,
    map: ObjId,
    sub: ObjId,
    table: ObjId,
    first: String,
    second: String,
}

fn sample() -> Sample {
    let mut doc = AutoCommit::new();
    doc.put(ROOT, "title", "hello").unwrap();
    doc.put(ROOT, "n", 5i64).unwrap();
    doc.put(ROOT, "u", 7u64).unwrap();
    doc.put(ROOT, "f", 1.5f64).unwrap();
    doc.put(ROOT, "b", true).unwrap();
    doc.put(ROOT, "ts", ScalarValue::Timestamp(1000)).unwrap();
    doc.put(ROOT, "c", ScalarValue::counter(10)).unwrap();
    doc.put(ROOT, "bytes", ScalarValue::Bytes(vec![1, 2, 3])).unwrap();
    doc.put(ROOT, "nil", ScalarValue::Null).unwrap();
    let list = doc.put_object(ROOT, "list", ObjType::List).unwrap();
    doc.insert(&list, 0, "x").unwrap();
    let inner = doc.insert_object(&list, 1, ObjType::Map).unwrap();
    doc.put(&inner, "inner", "deep").unwrap();
    doc.insert(&list, 2, 42i64).unwrap();
    let text = doc.put_object(ROOT, "text", ObjType::Text).unwrap();
    doc.splice_text(&text, 0, 0, "abc").unwrap();
    let map = doc.put_object(ROOT, "map", ObjType::Map).unwrap();
    doc.put(&map, "k", "v").unwrap();
    let sub = doc.put_object(&map, "sub", ObjType::Map).unwrap();
    doc.put(&sub, "leaf", "1").unwrap();
    let table = doc.put_object(ROOT, "table", ObjType::Table).unwrap();
    let first = doc.commit().unwrap().to_string();
    doc.increment(ROOT, "c", 3).unwrap();
    doc.delete(ROOT, "n").unwrap();
    doc.put(ROOT, "late", "added").unwrap();
    doc.delete(&list, 0).unwrap();
    doc.put(&list, 1, 43i64).unwrap();
    doc.splice_text(&text, 1, 1, "Z").unwrap();
    let second = doc.commit().unwrap().to_string();
    let handle = load(doc.save()).unwrap();
    Sample { handle, list, inner, text, map, sub, table, first, second }
}

fn hex_of(id: &ObjId) -> String {
    hex::encode(id.to_bytes())
}

fn get(doc: &Automerge, obj: &str, key: &str) -> PlainValue {
    doc.get_from_map_with_type(obj.to_string(), key.to_string(), None)
        .unwrap()
        .value
}

#[test]
fn load_rejects_garbage() {
    assert!(matches!(load(vec![1, 2, 3]), Err(Error::CoreError(_))));
}

#[test]
fn loaded_document_has_its_heads() {
    let mut s = sample();
    assert_eq!(s.handle.pending_ops(), 0);
    assert_eq!(s.handle.get_heads(), vec![s.second.clone()]);
}

#[test]
fn values_of_every_kind() {
    let s = sample();
    let doc = &s.handle;
    assert_eq!(get(doc, "/", "title"), PlainValue::Scalar(Scalar::Str("hello".to_string())));
    assert_eq!(get(doc, "/", "u"), PlainValue::Scalar(Scalar::Uint(7)));
    assert_eq!(get(doc, "/", "f"), PlainValue::Scalar(Scalar::Double(1.5f64.to_bits())));
    assert_eq!(get(doc, "/", "b"), PlainValue::Scalar(Scalar::Boolean(true)));
    assert_eq!(get(doc, "/", "ts"), PlainValue::Scalar(Scalar::Timestamp(1000)));
    assert_eq!(get(doc, "/", "c"), PlainValue::Scalar(Scalar::Counter(13)));
    assert_eq!(get(doc, "/", "bytes"), PlainValue::Scalar(Scalar::Bytes(vec![1, 2, 3])));
    assert_eq!(get(doc, "/", "nil"), PlainValue::Scalar(Scalar::Null));
    assert_eq!(get(doc, "/", "list"), PlainValue::Object(Kind::List));
    assert_eq!(get(doc, "/", "text"), PlainValue::Object(Kind::Text));
    assert_eq!(get(doc, "/", "map"), PlainValue::Object(Kind::Mapping));
    assert_eq!(get(doc, "/", "table"), PlainValue::Object(Kind::Table));
}

#[test]
fn values_as_of_the_first_change() {
    let s = sample();
    let at = Some(vec![s.first.clone()]);
    let n = s
        .handle
        .get_from_map_with_type("/".to_string(), "n".to_string(), at.clone())
        .unwrap();
    assert_eq!(n.value, PlainValue::Scalar(Scalar::Int(5)));
    assert_eq!(n.get_value_int(), Ok(5));
    let c = s
        .handle
        .get_from_map_with_type("/".to_string(), "c".to_string(), at.clone())
        .unwrap();
    assert_eq!(c.get_value_counter(), Ok(10));
    let x = s
        .handle
        .get_from_seq_with_type("/list".to_string(), 0, at.clone())
        .unwrap();
    assert_eq!(x.get_value_string(), Ok("x".to_string()));
    assert!(matches!(
        s.handle.get_from_map_with_type("/".to_string(), "late".to_string(), at),
        Err(Error::NotFound)
    ));
    assert!(matches!(
        s.handle.get_from_map_with_type("/".to_string(), "n".to_string(), None),
        Err(Error::NotFound)
    ));
}

#[test]
fn tags_and_accessors() {
    let s = sample();
    let doc = &s.handle;
    let read = |key: &str| {
        doc.get_from_map_with_type("/".to_string(), key.to_string(), None)
            .unwrap()
    };
    let cases = [
        ("title", "str"),
        ("u", "uint"),
        ("f", "f64"),
        ("b", "boolean"),
        ("ts", "timestamp"),
        ("c", "counter"),
        ("bytes", "bytes"),
        ("nil", "null"),
        ("list", "list"),
        ("text", "text"),
        ("map", "map"),
        ("table", "table"),
    ];
    for (key, tag) in cases {
        assert_eq!(read(key).get_type(), tag);
    }
    assert_eq!(read("u").get_value_uint(), Ok(7));
    assert_eq!(read("f").get_value_double_bits(), Ok(1.5f64.to_bits()));
    assert_eq!(read("b").get_value_boolean(), Ok(true));
    assert_eq!(read("ts").get_value_timestamp(), Ok(1000));
    assert_eq!(read("c").get_value_counter(), Ok(13));
    assert_eq!(read("bytes").get_value_bytes(), Ok(vec![1, 2, 3]));
    assert_eq!(read("nil").get_value_null(), Ok(()));
    assert_eq!(read("list").get_object_type(), Ok(Kind::List));
    assert_eq!(read("table").get_object_type(), Ok(Kind::Table));
    assert_eq!(read("b").get_value_string(), Err(Error::TypeMismatch));
    assert_eq!(read("ts").get_value_int(), Err(Error::TypeMismatch));
    assert_eq!(read("c").get_value_int(), Err(Error::TypeMismatch));
    assert_eq!(read("u").get_value_int(), Err(Error::TypeMismatch));
    assert_eq!(read("map").get_value_string(), Err(Error::TypeMismatch));
    assert_eq!(read("list").get_id(), hex_of(&s.list));
    assert_eq!(
        ValueRecord::from(&read("title").value),
        ValueRecord { value_type: "str".to_string(), value_str: Some("hello".to_string()) }
    );
    assert_eq!(
        ValueRecord::from(&read("map").value),
        ValueRecord { value_type: "map".to_string(), value_str: None }
    );
}

#[test]
fn paths_resolve_to_the_objects_they_walk_to() {
    let s = sample();
    let doc = &s.handle;
    let cases = [
        ("/list", &s.list, Kind::List),
        ("/list/", &s.list, Kind::List),
        ("/list/0", &s.inner, Kind::Mapping),
        ("/list/+0", &s.inner, Kind::Mapping),
        ("/list/00", &s.inner, Kind::Mapping),
        ("/text", &s.text, Kind::Text),
        ("/map", &s.map, Kind::Mapping),
        ("/map/sub", &s.sub, Kind::Mapping),
        ("/map/sub/", &s.sub, Kind::Mapping),
        ("/map//sub", &s.map, Kind::Mapping),
        ("/table", &s.table, Kind::Table),
        ("_root/map/sub", &s.sub, Kind::Mapping),
    ];
    for (path, id, kind) in cases {
        let (found, t) = doc.resolve(path).unwrap();
        assert_eq!(found.to_hex(), hex_of(id), "{}", path);
        assert_eq!(t, kind, "{}", path);
        let (found, t) = doc.import(Some(path.to_string())).unwrap();
        assert_eq!(found.to_bytes(), id.to_bytes(), "{}", path);
        assert_eq!(t, kind, "{}", path);
    }
}

#[test]
fn paths_that_lead_nowhere_fail() {
    let s = sample();
    let doc = &s.handle;
    for path in [
        "/list/1",
        "/list/7",
        "/list/x",
        "/list/-1",
        "/list/4294967296",
        "/list/0/inner",
        "/list/0/missing",
        "/text/0",
        "/title",
        "/title/x",
        "/map/sub/leaf",
        "/map/nothing",
        "/table/row",
        "/n",
    ] {
        assert!(matches!(doc.resolve(path), Err(Error::ImportFailure)), "{}", path);
    }
}

#[test]
fn identifiers_are_accepted_in_both_forms() {
    let s = sample();
    let doc = &s.handle;
    let (found, t) = doc.resolve(&hex_of(&s.map)).unwrap();
    assert_eq!(found.to_bytes(), s.map.to_bytes());
    assert_eq!(t, Kind::Mapping);
    let (found, t) = doc.resolve(&s.map.to_string()).unwrap();
    assert_eq!(found.to_bytes(), s.map.to_bytes());
    assert_eq!(t, Kind::Mapping);
    let (found, t) = doc.resolve(&format!("{}/sub", s.map)).unwrap();
    assert_eq!(found.to_bytes(), s.sub.to_bytes());
    assert_eq!(t, Kind::Mapping);
    let parsed = ObjectId::parse(&hex_of(&s.list)).unwrap();
    assert!(!parsed.is_root());
    assert_eq!(parsed.to_hex(), hex_of(&s.list));
    assert_eq!(parsed.duplicate().to_bytes(), s.list.to_bytes());
    let (found, t) = doc
        .import_path(parsed, Kind::List, &vec!["skipped".to_string(), "0".to_string()], 1)
        .unwrap();
    assert_eq!(found.to_bytes(), s.inner.to_bytes());
    assert_eq!(t, Kind::Mapping);
}

#[test]
fn identifiers_of_another_document_are_import_failures() {
    let s = sample();
    let other = load(AutoCommit::new().save()).unwrap();
    assert!(matches!(other.resolve(&hex_of(&s.map)), Err(Error::ImportFailure)));
    assert!(matches!(other.resolve(&s.map.to_string()), Err(Error::ImportFailure)));
    assert!(matches!(
        other.import_path(ObjectId::parse(&hex_of(&s.map)).unwrap(), Kind::Mapping, &vec![], 0),
        Err(Error::ImportFailure)
    ));
}

#[test]
fn keys_of_maps_and_positions_of_sequences() {
    let s = sample();
    let doc = &s.handle;
    assert_eq!(
        doc.keys("/map".to_string(), None),
        Ok(vec!["k".to_string(), "sub".to_string()])
    );
    assert_eq!(
        doc.keys("/list".to_string(), None),
        Ok(vec!["0".to_string(), "1".to_string()])
    );
    assert_eq!(
        doc.keys("/list".to_string(), Some(vec![s.first.clone()])),
        Ok(vec!["0".to_string(), "1".to_string(), "2".to_string()])
    );
    assert_eq!(
        doc.keys("/text".to_string(), None),
        Ok(vec!["0".to_string(), "1".to_string(), "2".to_string()])
    );
    assert_eq!(doc.keys("/table".to_string(), None), Ok(vec![]));
    assert_eq!(doc.keys(hex_of(&s.sub), None), Ok(vec!["leaf".to_string()]));
    assert_eq!(doc.keys("/gone".to_string(), None), Err(Error::ImportFailure));
    assert_eq!(
        doc.keys("/map".to_string(), Some(vec!["q".to_string()])),
        Err(Error::MalformedIdentifier)
    );
}

#[test]
fn properties_of_the_wrong_kind_find_nothing() {
    let s = sample();
    let doc = &s.handle;
    for key in ["title", "inner", "0", "nothing"] {
        assert!(matches!(
            doc.get_from_map_with_type("/list".to_string(), key.to_string(), None),
            Err(Error::NotFound)
        ));
        assert!(matches!(
            doc.get_from_map_with_type("/text".to_string(), key.to_string(), None),
            Err(Error::NotFound)
        ));
    }
    assert!(matches!(
        doc.get_from_seq_with_type("/map".to_string(), 0, None),
        Err(Error::NotFound)
    ));
    assert!(matches!(
        doc.get_from_seq_with_type("/list".to_string(), 9, None),
        Err(Error::NotFound)
    ));
    assert!(matches!(
        doc.get_from_seq_with_type("/list".to_string(), u32::MAX, None),
        Err(Error::NotFound)
    ));
    let last = doc.get_from_seq_with_type("/list".to_string(), 1, None).unwrap();
    assert_eq!(last.get_value_int(), Ok(43));
    let letter = doc.get_with_type("/text".to_string(), Prop::SeqIndex(1), None).unwrap();
    assert_eq!(letter.get_value_string(), Ok("Z".to_string()));
}

#[test]
fn only_the_root_with_strings_is_flattened() {
    let mut s = sample();
    assert_eq!(s.handle.materialize(None, None), Err(Error::UnsupportedValue));
    assert_eq!(
        s.handle.materialize(Some("/map/sub".to_string()), None),
        Err(Error::UnsupportedValue)
    );
    assert_eq!(
        s.handle.materialize(Some(hex_of(&s.sub)), None),
        Err(Error::UnsupportedValue)
    );
}

#[test]
fn put_needs_a_map() {
    let mut s = sample();
    let doc = &mut s.handle;
    let put = |doc: &mut Automerge, obj: &str| {
        doc.put_string_to_map(obj.to_string(), "key".to_string(), "value".to_string())
    };
    assert!(matches!(put(doc, "/list"), Err(Error::CoreError(_))));
    assert!(matches!(put(doc, "/text"), Err(Error::CoreError(_))));
    assert!(matches!(put(doc, "/table"), Err(Error::CoreError(_))));
    assert_eq!(doc.pending_ops(), 0);
    assert_eq!(put(doc, "/map/sub"), Ok(()));
    assert_eq!(put(doc, "/list/0"), Ok(()));
    assert_eq!(doc.pending_ops(), 2);
    assert_eq!(get(doc, "/map/sub", "key"), PlainValue::Scalar(Scalar::Str("value".to_string())));
    assert_eq!(get(doc, "/list/0", "key"), PlainValue::Scalar(Scalar::Str("value".to_string())));
}

#[test]
fn writes_in_isolation_are_seen_in_isolation() {
    let mut s = sample();
    let doc = &mut s.handle;
    doc.isolate(vec![s.first.clone()]).unwrap();
    assert_eq!(get(doc, "/", "n"), PlainValue::Scalar(Scalar::Int(5)));
    doc.put_string_to_map("/".to_string(), "n".to_string(), "text now".to_string())
        .unwrap();
    assert_eq!(doc.pending_ops(), 1);
    assert_eq!(get(doc, "/", "n"), PlainValue::Scalar(Scalar::Str("text now".to_string())));
    doc.put_string_to_map("/".to_string(), "n".to_string(), "text now".to_string())
        .unwrap();
    assert_eq!(doc.pending_ops(), 1);
    assert_eq!(doc.rollback(), 1);
    assert_eq!(get(doc, "/", "n"), PlainValue::Scalar(Scalar::Int(5)));
    doc.integrate();
    assert_eq!(doc.get_heads(), vec![s.second.clone()]);
}

fn find<'a>(patches: &'a [PatchRecord], wanted: impl Fn(&PatchAction) -> bool) -> &'a PatchRecord {
    patches.iter().find(|p| wanted(&p.action)).unwrap()
}

#[test]
fn first_report_describes_the_whole_document() {
    let mut s = sample();
    let patches = s.handle.diff_incremental().unwrap();
    let title = find(&patches, |a| matches!(a, PatchAction::PutMap { key, .. } if key == "title"));
    assert_eq!(title.obj, "00");
    assert!(title.path.is_empty());
    let deep = find(&patches, |a| matches!(a, PatchAction::PutMap { key, .. } if key == "inner"));
    assert_eq!(deep.obj, hex_of(&s.inner));
    assert_eq!(
        deep.path,
        vec![
            PathSegment { obj: "00".to_string(), prop: Prop::MapKey("list".to_string()) },
            PathSegment { obj: hex_of(&s.list), prop: Prop::SeqIndex(0) },
        ]
    );
    assert_eq!(
        deep.action,
        PatchAction::PutMap {
            key: "inner".to_string(),
            value: ValueRecord { value_type: "str".to_string(), value_str: Some("deep".to_string()) },
            conflict: false,
        }
    );
    let text = find(&patches, |a| matches!(a, PatchAction::SpliceText { .. }));
    assert_eq!(text.obj, hex_of(&s.text));
    assert_eq!(
        text.action,
        PatchAction::SpliceText { index: 0, delete_count: 0, inserted_text: "aZc".to_string() }
    );
    let listed = find(&patches, |a| matches!(a, PatchAction::Insert { .. }));
    assert_eq!(listed.obj, hex_of(&s.list));
    assert_eq!(
        listed.action,
        PatchAction::Insert {
            index: 0,
            values: vec![
                ValueRecord { value_type: "map".to_string(), value_str: None },
                ValueRecord { value_type: "int".to_string(), value_str: None },
            ],
        }
    );
    let map = find(&patches, |a| matches!(a, PatchAction::PutMap { key, .. } if key == "map"));
    assert_eq!(
        map.action,
        PatchAction::PutMap {
            key: "map".to_string(),
            value: ValueRecord { value_type: "map".to_string(), value_str: None },
            conflict: false,
        }
    );
}

#[test]
fn going_back_in_history_reports_every_kind_of_change() {
    let mut s = sample();
    s.handle.diff_incremental().unwrap();
    s.handle.isolate(vec![s.first.clone()]).unwrap();
    let patches = s.handle.diff_incremental().unwrap();
    let root = "00".to_string();
    let in_list = vec![PathSegment { obj: root.clone(), prop: Prop::MapKey("list".to_string()) }];
    let in_text = vec![PathSegment { obj: root.clone(), prop: Prop::MapKey("text".to_string()) }];
    let expected = vec![
        PatchRecord {
            obj: root.clone(),
            path: vec![],
            action: PatchAction::Increment { prop: Prop::MapKey("c".to_string()), delta: -3 },
        },
        PatchRecord {
            obj: root.clone(),
            path: vec![],
            action: PatchAction::DeleteMap { key: "late".to_string() },
        },
        PatchRecord {
            obj: root.clone(),
            path: vec![],
            action: PatchAction::PutMap {
                key: "n".to_string(),
                value: ValueRecord { value_type: "int".to_string(), value_str: None },
                conflict: false,
            },
        },
        PatchRecord {
            obj: hex_of(&s.list),
            path: in_list.clone(),
            action: PatchAction::Insert {
                index: 0,
                values: vec![ValueRecord {
                    value_type: "str".to_string(),
                    value_str: Some("x".to_string()),
                }],
            },
        },
        PatchRecord {
            obj: hex_of(&s.list),
            path: in_list,
            action: PatchAction::PutSeq {
                index: 2,
                value: ValueRecord { value_type: "int".to_string(), value_str: None },
                conflict: false,
            },
        },
        PatchRecord {
            obj: hex_of(&s.text),
            path: in_text.clone(),
            action: PatchAction::DeleteSeq { index: 1, count: 1 },
        },
        PatchRecord {
            obj: hex_of(&s.text),
            path: in_text,
            action: PatchAction::SpliceText {
                index: 1,
                delete_count: 0,
                inserted_text: "b".to_string(),
            },
        },
    ];
    assert_eq!(patches, expected);
}

#[test]
fn marks_are_an_unsupported_patch_action() {
    let mut doc = AutoCommit::new();
    let text = doc.put_object(ROOT, "text", ObjType::Text).unwrap();
    doc.splice_text(&text, 0, 0, "abc").unwrap();
    let first = doc.commit().unwrap().to_string();
    doc.mark(&text, Mark::new("bold".to_string(), true, 0, 2), ExpandMark::None)
        .unwrap();
    let second = doc.commit().unwrap().to_string();
    let mut handle = load(doc.save()).unwrap();
    assert!(handle.diff_incremental().is_ok());
    handle.isolate(vec![first]).unwrap();
    assert_eq!(handle.diff_incremental(), Err(Error::UnsupportedPatchAction));
    handle.integrate();
    assert_eq!(handle.get_heads(), vec![second]);
}

#[test]
fn conflicting_writes_report_the_winner() {
    let mut ours = AutoCommit::new();
    ours.put(ROOT, "base", "0").unwrap();
    ours.commit();
    let mut theirs = ours.fork();
    ours.put(ROOT, "k", "ours").unwrap();
    theirs.put(ROOT, "k", "theirs").unwrap();
    ours.merge(&mut theirs).unwrap();
    let winner = ours.get(ROOT, "k").unwrap().unwrap().0.into_string().unwrap();
    let mut handle = load(ours.save()).unwrap();
    assert_eq!(handle.get_heads().len(), 2);
    let patches = handle.diff_incremental().unwrap();
    let k = find(&patches, |a| matches!(a, PatchAction::PutMap { key, .. } if key == "k"));
    assert_eq!(
        k.action,
        PatchAction::PutMap {
            key: "k".to_string(),
            value: ValueRecord { value_type: "str".to_string(), value_str: Some(winner.clone()) },
            conflict: true,
        }
    );
    assert_eq!(get(&handle, "/", "k"), PlainValue::Scalar(Scalar::Str(winner)));
    handle
        .put_string_to_map("/".to_string(), "k".to_string(), "settled".to_string())
        .unwrap();
    let sealed = handle.commit(None, None).unwrap();
    assert_eq!(handle.get_heads(), vec![sealed]);
}

#[test]
fn scalars_of_unknown_kind_keep_their_code_and_bytes() {
    let mut doc = AutoCommit::new();
    doc.put(ROOT, "odd", ScalarValue::Unknown { type_code: 14, bytes: vec![9, 8, 7] })
        .unwrap();
    doc.commit();
    let handle = load(doc.save()).unwrap();
    let odd = handle
        .get_from_map_with_type("/".to_string(), "odd".to_string(), None)
        .unwrap();
    assert_eq!(odd.get_type(), "unknown");
    assert_eq!(odd.get_value_unknown(), Ok((14, vec![9, 8, 7])));
    assert_eq!(odd.get_value_bytes(), Err(Error::TypeMismatch));
    assert_eq!(
        odd.value,
        PlainValue::Scalar(Scalar::Unknown { type_code: 14, bytes: vec![9, 8, 7] })
    );
}
