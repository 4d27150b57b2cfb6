use automerge_doc::document::{create, Automerge, InitOptions};
use automerge_doc::error::Error;
use automerge_doc::ident::ObjectId;
use automerge_doc::patch::PatchAction;
use automerge_doc::reads::ValueRecord;
use automerge_doc::value::{ObjType, PlainValue, Prop, Scalar};

fn new_doc() -> Automerge {
    create(None).unwrap()
}

fn options() -> InitOptions {
    InitOptions {
        actor: None,
        freeze: None,
        enable_text_v2: None,
        unchecked: None,
        allow_missing_changes: None,
        convert_raw_strings_to_text: None,
    }
}

fn put(doc: &mut Automerge, obj: &str, key: &str, value: &str) {
    doc.put_string_to_map(obj.to_string(), key.to_string(), value.to_string())
        .unwrap();
}

#[test]
fn create_without_options_is_empty() {
    let mut doc = new_doc();
    assert_eq!(doc.pending_ops(), 0);
    assert_eq!(doc.get_heads(), Vec::<String>::new());
    assert_eq!(doc.keys("/".to_string(), None), Ok(vec![]));
    assert_eq!(doc.enable_freeze(true), false);
}

#[test]
fn create_with_freeze_and_actor() {
    let mut o = options();
    o.freeze = Some(true);
    o.actor = Some("aabbccdd".to_string());
    o.allow_missing_changes = Some(true);
    o.enable_text_v2 = Some(false);
    let mut doc = create(Some(o)).unwrap();
    assert_eq!(doc.enable_freeze(false), true);
    assert_eq!(doc.enable_freeze(false), false);
    put(&mut doc, "/", "k", "v");
    let hash = doc.commit(None, None).unwrap();
    assert_eq!(hash.len(), 64);
}

#[test]
fn create_with_bad_actor_fails() {
    let mut o = options();
    o.actor = Some("not hex".to_string());
    assert!(matches!(create(Some(o)), Err(Error::BadActorId)));
    let mut o = options();
    o.actor = Some("abc".to_string());
    assert!(matches!(create(Some(o)), Err(Error::BadActorId)));
}

#[test]
fn create_with_unimplemented_toggle_fails() {
    let mut o = options();
    o.enable_text_v2 = Some(true);
    assert!(matches!(create(Some(o)), Err(Error::UnsupportedOption)));
    let mut o = options();
    o.convert_raw_strings_to_text = Some(true);
    assert!(matches!(create(Some(o)), Err(Error::UnsupportedOption)));
    let mut o = options();
    o.unchecked = Some(true);
    o.actor = Some("zz".to_string());
    assert!(matches!(create(Some(o)), Err(Error::UnsupportedOption)));
}

#[test]
fn puts_count_as_pending_until_commit() {
    let mut doc = new_doc();
    let before = doc.get_heads();
    put(&mut doc, "/", "a", "1");
    put(&mut doc, "/", "b", "2");
    put(&mut doc, "/", "c", "3");
    assert_eq!(doc.pending_ops(), 3);
    let hash = doc.commit(Some("three".to_string()), Some(10)).unwrap();
    assert_eq!(doc.pending_ops(), 0);
    let after = doc.get_heads();
    assert_eq!(after, vec![hash.clone()]);
    assert!(!before.contains(&hash));
}

#[test]
fn repeating_a_value_adds_no_operation() {
    let mut doc = new_doc();
    put(&mut doc, "/", "a", "1");
    put(&mut doc, "/", "a", "1");
    assert_eq!(doc.pending_ops(), 1);
    put(&mut doc, "/", "a", "2");
    assert_eq!(doc.pending_ops(), 2);
}

#[test]
fn commit_without_operations_is_nothing() {
    let mut doc = new_doc();
    assert_eq!(doc.commit(None, None), None);
    put(&mut doc, "/", "a", "1");
    assert!(doc.commit(None, None).is_some());
    let heads = doc.get_heads();
    assert_eq!(doc.commit(Some("again".to_string()), None), None);
    assert_eq!(doc.get_heads(), heads);
}

#[test]
fn rollback_returns_count_and_keeps_heads() {
    let mut doc = new_doc();
    put(&mut doc, "/", "base", "0");
    doc.commit(None, None);
    let before = doc.get_heads();
    put(&mut doc, "/", "a", "1");
    put(&mut doc, "/", "b", "2");
    assert_eq!(doc.rollback(), 2);
    assert_eq!(doc.pending_ops(), 0);
    assert_eq!(doc.get_heads(), before);
    assert_eq!(doc.keys("/".to_string(), None), Ok(vec!["base".to_string()]));
    assert_eq!(doc.rollback(), 0);
}

#[test]
fn get_heads_seals_pending_operations() {
    let mut doc = new_doc();
    put(&mut doc, "/", "a", "1");
    let heads = doc.get_heads();
    assert_eq!(heads.len(), 1);
    assert_eq!(doc.pending_ops(), 0);
}

#[test]
fn reads_at_heads_do_not_change() {
    let mut doc = new_doc();
    put(&mut doc, "/", "k", "old");
    doc.commit(None, None);
    let heads = doc.get_heads();
    let first = doc
        .get_from_map_with_type("/".to_string(), "k".to_string(), Some(heads.clone()))
        .unwrap();
    put(&mut doc, "/", "k", "new");
    let again = doc
        .get_from_map_with_type("/".to_string(), "k".to_string(), Some(heads.clone()))
        .unwrap();
    assert_eq!(first.get_value_string(), Ok("old".to_string()));
    assert_eq!(again.get_value_string(), Ok("old".to_string()));
    assert_eq!(first.get_id(), again.get_id());
    doc.commit(None, None);
    let later = doc
        .get_from_map_with_type("/".to_string(), "k".to_string(), Some(heads))
        .unwrap();
    assert_eq!(later.get_value_string(), Ok("old".to_string()));
    let live = doc
        .get_from_map_with_type("/".to_string(), "k".to_string(), None)
        .unwrap();
    assert_eq!(live.get_value_string(), Ok("new".to_string()));
    let live = doc
        .get_from_map_with_type("/".to_string(), "k".to_string(), Some(vec![]))
        .unwrap();
    assert_eq!(live.get_value_string(), Ok("new".to_string()));
}

#[test]
fn keys_at_heads_do_not_change() {
    let mut doc = new_doc();
    put(&mut doc, "/", "b", "1");
    put(&mut doc, "/", "a", "2");
    let heads = doc.get_heads();
    put(&mut doc, "/", "c", "3");
    let expected = vec!["a".to_string(), "b".to_string()];
    assert_eq!(doc.keys("/".to_string(), Some(heads.clone())), Ok(expected.clone()));
    assert_eq!(doc.keys("00".to_string(), Some(heads)), Ok(expected));
    assert_eq!(
        doc.keys("/".to_string(), None),
        Ok(vec!["a".to_string(), "b".to_string(), "c".to_string()])
    );
}

#[test]
fn single_put_gives_one_patch() {
    let mut doc = new_doc();
    put(&mut doc, "/", "k", "v");
    let patches = doc.diff_incremental().unwrap();
    assert_eq!(patches.len(), 1);
    let patch = &patches[0];
    assert_eq!(patch.obj, "00");
    assert!(patch.path.is_empty());
    assert_eq!(
        patch.action,
        PatchAction::PutMap {
            key: "k".to_string(),
            value: ValueRecord {
                value_type: "str".to_string(),
                value_str: Some("v".to_string()),
            },
            conflict: false,
        }
    );
    assert_eq!(doc.diff_incremental(), Ok(vec![]));
    assert_eq!(doc.pending_ops(), 0);
}

#[test]
fn patches_report_only_what_is_new() {
    let mut doc = new_doc();
    put(&mut doc, "/", "a", "1");
    doc.diff_incremental().unwrap();
    put(&mut doc, "/", "b", "2");
    let patches = doc.diff_incremental().unwrap();
    assert_eq!(patches.len(), 1);
    assert!(matches!(&patches[0].action, PatchAction::PutMap { key, .. } if key == "b"));
}

#[test]
fn materialize_gives_last_values() {
    let mut doc = new_doc();
    put(&mut doc, "/", "a", "1");
    put(&mut doc, "/", "b", "2");
    put(&mut doc, "/", "a", "3");
    let expected = vec![
        ("a".to_string(), "3".to_string()),
        ("b".to_string(), "2".to_string()),
    ];
    assert_eq!(doc.materialize(None, None), Ok(expected.clone()));
    assert_eq!(doc.materialize(Some("/".to_string()), None), Ok(expected.clone()));
    assert_eq!(doc.materialize(Some("00".to_string()), None), Ok(expected));
    assert_eq!(doc.pending_ops(), 0);
    assert_eq!(doc.diff_incremental(), Ok(vec![]));
}

#[test]
fn materialize_at_heads() {
    let mut doc = new_doc();
    put(&mut doc, "/", "a", "1");
    let heads = doc.get_heads();
    put(&mut doc, "/", "a", "2");
    put(&mut doc, "/", "b", "3");
    assert_eq!(
        doc.materialize(None, Some(heads)),
        Ok(vec![("a".to_string(), "1".to_string())])
    );
}

#[test]
fn materialize_with_bad_input_fails() {
    let mut doc = new_doc();
    put(&mut doc, "/", "a", "1");
    assert_eq!(
        doc.materialize(Some("/missing".to_string()), None),
        Err(Error::ImportFailure)
    );
    assert_eq!(
        doc.materialize(None, Some(vec!["xyz".to_string()])),
        Err(Error::MalformedIdentifier)
    );
    assert_eq!(doc.pending_ops(), 1);
}

#[test]
fn missing_path_is_an_import_failure() {
    let doc = new_doc();
    assert!(matches!(
        doc.import(Some("/nonexistent".to_string())),
        Err(Error::ImportFailure)
    ));
    assert!(matches!(doc.import(None), Err(Error::ImportFailure)));
    assert!(matches!(
        doc.resolve("/nonexistent"),
        Err(Error::ImportFailure)
    ));
}

#[test]
fn path_through_a_scalar_is_an_import_failure() {
    let mut doc = new_doc();
    put(&mut doc, "/", "k", "v");
    assert!(matches!(doc.resolve("/k"), Err(Error::ImportFailure)));
    assert!(matches!(doc.resolve("/k/x"), Err(Error::ImportFailure)));
}

#[test]
fn root_paths_resolve_to_the_root() {
    let doc = new_doc();
    for path in ["", "/", "//x", "_root", "_root/"] {
        let (id, t) = doc.resolve(path).unwrap();
        assert!(id.is_root(), "{}", path);
        assert_eq!(t, ObjType::Mapping);
    }
    let (id, t) = doc.resolve("00").unwrap();
    assert!(id.is_root());
    assert_eq!(t, ObjType::Mapping);
}

#[test]
fn malformed_references_do_not_abort() {
    let doc = new_doc();
    assert!(matches!(doc.resolve("1@zz"), Err(Error::ImportFailure)));
    assert!(matches!(doc.resolve("1@abc"), Err(Error::ImportFailure)));
    assert!(matches!(doc.resolve("1@aabb"), Err(Error::ImportFailure)));
    assert!(matches!(doc.resolve("x@"), Err(Error::ImportFailure)));
    assert!(matches!(doc.resolve("@"), Err(Error::ImportFailure)));
    assert!(matches!(doc.resolve("1@aa@bb"), Err(Error::ImportFailure)));
    assert!(matches!(doc.resolve("nothing here"), Err(Error::ImportFailure)));
    assert!(matches!(doc.resolve("abc"), Err(Error::MalformedIdentifier)));
    assert!(matches!(doc.resolve("12"), Err(Error::MalformedIdentifier)));
    assert!(matches!(doc.resolve("20"), Err(Error::MalformedIdentifier)));
}

#[test]
fn import_path_needs_a_start_of_the_right_type() {
    let doc = new_doc();
    let components = vec!["".to_string()];
    assert!(matches!(
        doc.import_path(ObjectId::root(), ObjType::List, &components, 0),
        Err(Error::ImportFailure)
    ));
    let (id, t) = doc
        .import_path(ObjectId::root(), ObjType::Mapping, &components, 1)
        .unwrap();
    assert!(id.is_root());
    assert_eq!(t, ObjType::Mapping);
}

#[test]
fn boolean_accessor_on_a_string_is_a_type_mismatch() {
    let mut doc = new_doc();
    put(&mut doc, "/", "k", "v");
    let value = doc
        .get_from_map_with_type("/".to_string(), "k".to_string(), None)
        .unwrap();
    assert_eq!(value.get_type(), "str");
    assert_eq!(value.get_value_boolean(), Err(Error::TypeMismatch));
    assert_eq!(value.get_value_int(), Err(Error::TypeMismatch));
    assert_eq!(value.get_value_uint(), Err(Error::TypeMismatch));
    assert_eq!(value.get_value_double_bits(), Err(Error::TypeMismatch));
    assert_eq!(value.get_value_timestamp(), Err(Error::TypeMismatch));
    assert_eq!(value.get_value_counter(), Err(Error::TypeMismatch));
    assert_eq!(value.get_value_bytes(), Err(Error::TypeMismatch));
    assert_eq!(value.get_value_null(), Err(Error::TypeMismatch));
    assert_eq!(value.get_value_unknown(), Err(Error::TypeMismatch));
    assert_eq!(value.get_object_type(), Err(Error::TypeMismatch));
    assert_eq!(value.get_value_string(), Ok("v".to_string()));
    assert_eq!(value.value, PlainValue::Scalar(Scalar::Str("v".to_string())));
}

#[test]
fn get_failures() {
    let mut doc = new_doc();
    put(&mut doc, "/", "k", "v");
    assert!(matches!(
        doc.get_from_map_with_type("/".to_string(), "missing".to_string(), None),
        Err(Error::NotFound)
    ));
    assert!(matches!(
        doc.get_from_seq_with_type("/".to_string(), 0, None),
        Err(Error::NotFound)
    ));
    assert!(matches!(
        doc.get_from_map_with_type("/nowhere".to_string(), "k".to_string(), None),
        Err(Error::ImportFailure)
    ));
    assert!(matches!(
        doc.get_from_map_with_type("zz".to_string(), "k".to_string(), None),
        Err(Error::ImportFailure)
    ));
    assert!(matches!(
        doc.get_from_map_with_type("ab".to_string(), "k".to_string(), None),
        Err(Error::MalformedIdentifier)
    ));
    assert!(matches!(
        doc.get_from_map_with_type("/".to_string(), "k".to_string(), Some(vec!["00".to_string()])),
        Err(Error::MalformedIdentifier)
    ));
    assert!(matches!(
        doc.get_with_type("/".to_string(), Prop::MapKey("k".to_string()), None),
        Ok(_)
    ));
}

#[test]
fn put_failures() {
    let mut doc = new_doc();
    assert_eq!(
        doc.put_string_to_map("/nowhere".to_string(), "k".to_string(), "v".to_string()),
        Err(Error::ImportFailure)
    );
    assert_eq!(
        doc.put_string_to_map("0".to_string(), "k".to_string(), "v".to_string()),
        Err(Error::MalformedIdentifier)
    );
    assert_eq!(doc.pending_ops(), 0);
}

#[test]
fn isolate_then_write_then_integrate() {
    let mut doc = new_doc();
    put(&mut doc, "/", "a", "1");
    let first = doc.get_heads();
    put(&mut doc, "/", "a", "2");
    let second = doc.get_heads();
    assert_eq!(doc.isolate(first.clone()), Ok(()));
    assert_eq!(doc.get_heads(), first);
    let seen = doc
        .get_from_map_with_type("/".to_string(), "a".to_string(), None)
        .unwrap();
    assert_eq!(seen.get_value_string(), Ok("1".to_string()));
    put(&mut doc, "/", "b", "branch");
    let branch = doc.commit(None, None).unwrap();
    assert_eq!(doc.get_heads(), vec![branch.clone()]);
    doc.integrate();
    let mut expected = vec![second[0].clone(), branch];
    expected.sort();
    assert_eq!(doc.get_heads(), expected);
    assert_eq!(
        doc.keys("/".to_string(), None),
        Ok(vec!["a".to_string(), "b".to_string()])
    );
}

#[test]
fn isolate_then_rollback_leaves_main_alone() {
    let mut doc = new_doc();
    put(&mut doc, "/", "a", "1");
    let first = doc.get_heads();
    put(&mut doc, "/", "a", "2");
    let main = doc.get_heads();
    doc.isolate(first).unwrap();
    put(&mut doc, "/", "b", "branch");
    assert_eq!(doc.rollback(), 1);
    doc.integrate();
    assert_eq!(doc.get_heads(), main);
    assert_eq!(doc.keys("/".to_string(), None), Ok(vec!["a".to_string()]));
}

#[test]
fn integrate_in_main_mode_changes_nothing() {
    let mut doc = new_doc();
    put(&mut doc, "/", "a", "1");
    let heads = doc.get_heads();
    doc.integrate();
    assert_eq!(doc.get_heads(), heads);
    assert_eq!(doc.pending_ops(), 0);
}

#[test]
fn isolate_without_heads_stays_where_it_is() {
    let mut doc = new_doc();
    put(&mut doc, "/", "a", "1");
    let heads = doc.get_heads();
    assert_eq!(doc.isolate(vec![]), Ok(()));
    assert_eq!(doc.get_heads(), heads);
    put(&mut doc, "/", "b", "2");
    let sealed = doc.commit(None, None).unwrap();
    doc.integrate();
    assert_eq!(doc.get_heads(), vec![sealed]);
}

#[test]
fn isolate_with_bad_heads_fails() {
    let mut doc = new_doc();
    put(&mut doc, "/", "a", "1");
    assert_eq!(
        doc.isolate(vec!["nope".to_string()]),
        Err(Error::MalformedIdentifier)
    );
    assert_eq!(doc.isolate(vec!["ab".repeat(32)]), Err(Error::NotFound));
    assert_eq!(doc.pending_ops(), 1);
    put(&mut doc, "/", "b", "2");
    assert!(doc.commit(None, None).is_some());
}

#[test]
fn error_messages() {
    assert_eq!(Error::ImportFailure.message(), "Failed to import object");
    assert_eq!(Error::BadActorId.message(), "Bad actor id");
    assert_eq!(
        Error::CoreError("boom".to_string()).message(),
        "Core automerge error: boom"
    );
}

fn first_hash(actor: &str) -> String {
    let mut o = options();
    o.actor = Some(actor.to_string());
    let mut doc = create(Some(o)).unwrap();
    put(&mut doc, "/", "k", "v");
    doc.commit(Some("same".to_string()), Some(1)).unwrap()
}

#[test]
fn changes_are_made_under_the_given_actor() {
    assert_eq!(first_hash("aabbccdd"), first_hash("aabbccdd"));
    assert_eq!(first_hash("aabbccdd"), first_hash("AABBCCDD"));
    assert!(first_hash("aabbccdd") != first_hash("aabbccde"));
}

#[test]
fn message_and_time_are_part_of_the_change() {
    let hash = |message: Option<&str>, time: Option<i64>| {
        let mut o = options();
        o.actor = Some("0102".to_string());
        let mut doc = create(Some(o)).unwrap();
        put(&mut doc, "/", "k", "v");
        doc.commit(message.map(|m| m.to_string()), time).unwrap()
    };
    assert_eq!(hash(Some("m"), Some(5)), hash(Some("m"), Some(5)));
    assert!(hash(Some("m"), Some(5)) != hash(Some("n"), Some(5)));
    assert!(hash(Some("m"), Some(5)) != hash(Some("m"), Some(6)));
    assert!(hash(None, Some(5)) != hash(Some("m"), Some(5)));
    assert_eq!(hash(None, None), hash(None, Some(0)));
}
