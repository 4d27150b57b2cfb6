//! What holds of the operations taken together.
//!
//! Each law is stated over the documents before and after the operations,
//! related by what the operations promise, and proved from those promises.
use crate::branch::{
    integrated_from, isolated_from, isolation_point, settled_and_integrated,
    settled_and_isolated,
};
use crate::hexcode::{hex_chars, hex_value, lemma_hex_round_trip};
use crate::ident::{hash_of_text, hashes_of, hashes_of_texts, ChangeHash, ObjectId};
use crate::document::hex_texts;
use crate::pathtext::{
    lemma_index_round_trip, lemma_split_append, lemma_split_nonempty, lemma_text_of_index,
    split_path, text_of_index,
};
use crate::reads::{addresses, listed, lookup, snapshot_of};
use crate::replica::{
    active_heads, doc_entry, doc_has_change, doc_isolation, doc_main_heads, doc_pending,
    has_all, holds_text, put_applied, same_history, sealed, settled,
};
use crate::resolve::{is_raw_id, path_target, prop_of_component, target, walk};
use crate::value::{ObjType, PropView, ValueView};
use vstd::prelude::*;

verus! {

/// Where a list of properties leads from the object `obj` of type `t`: each
/// one must address a child that is a container.
pub open spec fn follow(
    doc: automerge::AutoCommit,
    obj: Seq<u8>,
    t: ObjType,
    props: Seq<PropView>,
) -> Option<(Seq<u8>, ObjType)>
    decreases props.len(),
{
    if props.len() == 0 {
        Some((obj, t))
    } else if !addresses(t, props[0]) {
        None
    } else {
        match doc_entry(doc, obj, props[0]) {
            Ok(Some((ValueView::Object(child_type), child))) => follow(
                doc,
                child,
                child_type,
                props.skip(1),
            ),
            _ => None,
        }
    }
}

/// How a property is written in a path: a key as it is, a position in
/// decimal.
pub open spec fn prop_text(p: PropView) -> Seq<char> {
    match p {
        PropView::MapKey(k) => k,
        PropView::SeqIndex(i) => text_of_index(i as nat),
    }
}

/// Whether a property can be written in a path: a key must not be empty and
/// must hold no slash.
pub open spec fn writable(p: PropView) -> bool {
    p matches PropView::MapKey(k) ==> k.len() > 0 && !k.contains('/')
}

/// The path from the root along a list of properties: a slash before each.
pub open spec fn path_of(props: Seq<PropView>) -> Seq<char>
    decreases props.len(),
{
    if props.len() == 0 {
        Seq::<char>::empty()
    } else {
        path_of(props.drop_last()) + seq!['/'] + prop_text(props.last())
    }
}

/// The texts of a list of properties.
pub open spec fn prop_texts(props: Seq<PropView>) -> Seq<Seq<char>> {
    props.map_values(|p: PropView| prop_text(p))
}

/// The text of a property that can be written in a path is not empty and
/// holds no slash.
pub proof fn lemma_prop_text(p: PropView)
    requires
        writable(p),
    ensures
        prop_text(p).len() > 0,
        !prop_text(p).contains('/'),
{
    match p {
        PropView::MapKey(k) => {},
        PropView::SeqIndex(i) => {
            lemma_text_of_index(i as nat);
        },
    }
}

/// The components of the path along a list of properties are an empty first
/// component and then the texts of the properties.
pub proof fn lemma_split_path_of(props: Seq<PropView>)
    requires
        forall|i: int| 0 <= i < props.len() ==> writable(#[trigger] props[i]),
    ensures
        split_path(path_of(props)) == seq![Seq::<char>::empty()] + prop_texts(props),
        props.len() > 0 ==> path_of(props).len() > 0 && path_of(props)[0] == '/',
    decreases props.len(),
{
    if props.len() == 0 {
        assert(seq![Seq::<char>::empty()] + prop_texts(props) =~= seq![Seq::<char>::empty()]);
    } else {
        let shorter = props.drop_last();
        let last = props.last();
        lemma_split_path_of(shorter);
        lemma_prop_text(last);
        let a = path_of(shorter);
        let slashed = a + seq!['/'];
        assert(slashed.drop_last() =~= a);
        assert(slashed.last() == '/');
        let before = split_path(a);
        assert(split_path(slashed) == before.push(Seq::<char>::empty()));
        lemma_split_append(slashed, prop_text(last));
        lemma_split_nonempty(slashed);
        assert(Seq::<char>::empty() + prop_text(last) =~= prop_text(last));
        assert(path_of(props) == slashed + prop_text(last));
        assert(split_path(path_of(props)) =~= before.push(prop_text(last)));
        assert(prop_texts(props) =~= prop_texts(shorter).push(prop_text(last)));
        assert(before.push(prop_text(last)) =~= seq![Seq::<char>::empty()] + prop_texts(props));
        if shorter.len() == 0 {
            assert(a =~= Seq::<char>::empty());
            assert(path_of(props)[0] == '/');
        } else {
            assert(path_of(props)[0] == a[0]);
        }
    }
}

/// Walking the texts of properties finds what following the properties
/// finds.
pub proof fn lemma_walk_follows(
    doc: automerge::AutoCommit,
    obj: Seq<u8>,
    t: ObjType,
    props: Seq<PropView>,
)
    requires
        follow(doc, obj, t, props) is Some,
        forall|i: int| 0 <= i < props.len() ==> writable(#[trigger] props[i]),
    ensures
        walk(doc, obj, t, prop_texts(props)) == follow(doc, obj, t, props),
    decreases props.len(),
{
    if props.len() > 0 {
        let p = props[0];
        let c = prop_text(p);
        lemma_prop_text(p);
        assert(prop_texts(props)[0] == c);
        assert(prop_of_component(t, c) == Some(p)) by {
            match p {
                PropView::MapKey(k) => {},
                PropView::SeqIndex(i) => {
                    lemma_index_round_trip(i);
                },
            }
        }
        match doc_entry(doc, obj, p) {
            Ok(Some((ValueView::Object(child_type), child))) => {
                lemma_walk_follows(doc, child, child_type, props.skip(1));
                assert(prop_texts(props).skip(1) =~= prop_texts(props.skip(1)));
            },
            _ => {},
        }
    }
}

/// Resolution round trip: an object that is reached from the root along a
/// list of properties is what the path along those properties resolves to.
pub proof fn lemma_resolution_round_trip(
    doc: automerge::AutoCommit,
    props: Seq<PropView>,
    found: (Seq<u8>, ObjType),
)
    requires
        follow(doc, ObjectId::root_bytes(), ObjType::Mapping, props) == Some(found),
        forall|i: int| 0 <= i < props.len() ==> writable(#[trigger] props[i]),
    ensures
        path_target(doc, path_of(props)) == Some(found),
        target(doc, path_of(props)) == Ok::<(Seq<u8>, ObjType), crate::error::Error>(found),
{
    let path = path_of(props);
    lemma_split_path_of(props);
    lemma_walk_follows(doc, ObjectId::root_bytes(), ObjType::Mapping, props);
    let components = split_path(path);
    assert(components[0] =~= Seq::<char>::empty());
    assert(components.skip(1) =~= prop_texts(props));
    assert(!is_raw_id(path)) by {
        if path.len() > 0 {
            assert(hex_value(path[0]) is None);
        }
    }
}

/// One put after another: each document is the one before after a put that
/// succeeded.
pub open spec fn put_chain(
    docs: Seq<automerge::AutoCommit>,
    puts: Seq<(Seq<u8>, Seq<char>, Seq<char>)>,
) -> bool {
    &&& docs.len() == puts.len() + 1
    &&& forall|i: int|
        0 <= i < puts.len() ==> put_applied(
            #[trigger] docs[i],
            docs[i + 1],
            puts[i].0,
            puts[i].1,
            puts[i].2,
            true,
        )
}

/// Whether every put of a chain writes a string that its key did not hold
/// just before.
pub open spec fn all_new(
    docs: Seq<automerge::AutoCommit>,
    puts: Seq<(Seq<u8>, Seq<char>, Seq<char>)>,
) -> bool {
    forall|i: int|
        0 <= i < puts.len() ==> !holds_text(
            doc_entry(#[trigger] docs[i], puts[i].0, PropView::MapKey(puts[i].1)),
            puts[i].2,
        )
}

/// Puts leave the history, the heads and the mode as they are, and buffer at
/// most one operation each.
pub proof fn lemma_puts_keep_history(
    docs: Seq<automerge::AutoCommit>,
    puts: Seq<(Seq<u8>, Seq<char>, Seq<char>)>,
)
    requires
        put_chain(docs, puts),
    ensures
        same_history(docs[0], docs.last()),
        active_heads(docs.last()) == active_heads(docs[0]),
        doc_pending(docs.last()) <= doc_pending(docs[0]) + puts.len(),
        all_new(docs, puts) ==> doc_pending(docs.last()) == doc_pending(docs[0]) + puts.len(),
    decreases puts.len(),
{
    if puts.len() > 0 {
        let n = puts.len() - 1;
        let shorter_docs = docs.drop_last();
        let shorter_puts = puts.drop_last();
        assert forall|i: int| 0 <= i < shorter_puts.len() implies put_applied(
            #[trigger] shorter_docs[i],
            shorter_docs[i + 1],
            shorter_puts[i].0,
            shorter_puts[i].1,
            shorter_puts[i].2,
            true,
        ) by {
            assert(put_applied(docs[i], docs[i + 1], puts[i].0, puts[i].1, puts[i].2, true));
        }
        lemma_puts_keep_history(shorter_docs, shorter_puts);
        assert(put_applied(docs[n], docs[n + 1], puts[n].0, puts[n].1, puts[n].2, true));
        assert(shorter_docs.last() == docs[n]);
        assert(docs.last() == docs[n + 1]);
        if all_new(docs, puts) {
            assert forall|i: int| 0 <= i < shorter_puts.len() implies !holds_text(
                doc_entry(
                    #[trigger] shorter_docs[i],
                    shorter_puts[i].0,
                    PropView::MapKey(shorter_puts[i].1),
                ),
                shorter_puts[i].2,
            ) by {
                assert(!holds_text(
                    doc_entry(docs[i], puts[i].0, PropView::MapKey(puts[i].1)),
                    puts[i].2,
                ));
            }
            assert(!holds_text(
                doc_entry(docs[n], puts[n].0, PropView::MapKey(puts[n].1)),
                puts[n].2,
            ));
        }
    }
}

/// Pending operations: after N puts of new values on a document with
/// nothing pending, N operations are pending; a commit then leaves none
/// pending and the hash it returns as the only head.
pub proof fn lemma_puts_then_commit(
    docs: Seq<automerge::AutoCommit>,
    puts: Seq<(Seq<u8>, Seq<char>, Seq<char>)>,
    committed: automerge::AutoCommit,
    hash: Seq<u8>,
)
    requires
        put_chain(docs, puts),
        all_new(docs, puts),
        doc_pending(docs[0]) == 0,
        puts.len() > 0,
        sealed(docs.last(), committed, hash),
    ensures
        doc_pending(docs.last()) == puts.len(),
        doc_pending(committed) == 0,
        active_heads(committed) == seq![hash],
        doc_has_change(committed, hash),
{
    lemma_puts_keep_history(docs, puts);
}

/// A commit of pending operations returns a hash: closing the transaction
/// of a document with pending operations seals them.
pub proof fn lemma_commit_seals(pre: automerge::AutoCommit, post: automerge::AutoCommit)
    requires
        settled(pre, post),
        doc_pending(pre) > 0,
    ensures
        exists|hash: Seq<u8>| #[trigger] sealed(pre, post, hash) && active_heads(post) == seq![hash],
{
    let hash = choose|hash: Seq<u8>| sealed(pre, post, hash);
    assert(sealed(pre, post, hash) && active_heads(post) == seq![hash]);
}

/// Rollback: after N puts of new values on a document with nothing pending,
/// a rollback returns N and leaves the heads as they were before the puts.
pub proof fn lemma_puts_then_rollback(
    docs: Seq<automerge::AutoCommit>,
    puts: Seq<(Seq<u8>, Seq<char>, Seq<char>)>,
    rolled_back: automerge::AutoCommit,
    returned: nat,
)
    requires
        put_chain(docs, puts),
        all_new(docs, puts),
        doc_pending(docs[0]) == 0,
        returned == doc_pending(docs.last()),
        doc_pending(rolled_back) == 0,
        same_history(docs.last(), rolled_back),
    ensures
        returned == puts.len(),
        active_heads(rolled_back) == active_heads(docs[0]),
        same_history(docs[0], rolled_back),
{
    lemma_puts_keep_history(docs, puts);
}

/// The external forms of hashes read back as those hashes.
pub proof fn lemma_heads_round_trip(heads: Seq<ChangeHash>)
    ensures
        hashes_of_texts(hex_texts(hashes_of(heads))) == Some(hashes_of(heads)),
{
    let texts = hex_texts(hashes_of(heads));
    assert forall|i: int| 0 <= i < texts.len() implies (#[trigger] hash_of_text(texts[i]))
        == Some(hashes_of(heads)[i]) by {
        lemma_hex_round_trip(heads[i]@);
        assert(heads[i]@.len() == 32);
        assert(texts[i] == hex_chars(heads[i]@));
    }
    assert(hashes_of_texts(texts).unwrap() =~= hashes_of(heads));
}

/// Snapshot immutability: a read at heads that the history held, of an
/// object named by its identifier, returns after a put what it returned
/// before the put.
pub proof fn lemma_snapshot_is_immutable(
    before: automerge::AutoCommit,
    after: automerge::AutoCommit,
    put: (Seq<u8>, Seq<char>, Seq<char>),
    done: bool,
    heads: Seq<ChangeHash>,
    reference: Seq<char>,
    prop: PropView,
)
    requires
        put_applied(before, after, put.0, put.1, put.2, done),
        has_all(before, hashes_of(heads)),
        heads.len() > 0,
        is_raw_id(reference),
    ensures
        lookup(after, reference, prop, Some(hex_texts(hashes_of(heads)))) == lookup(
            before,
            reference,
            prop,
            Some(hex_texts(hashes_of(heads))),
        ),
{
    lemma_heads_round_trip(heads);
    assert(snapshot_of(Some(hex_texts(hashes_of(heads)))) == Some(hashes_of(heads)));
    assert(hashes_of(heads).len() > 0);
}

/// Keys at a snapshot: the keys of an object named by its identifier, as of
/// heads that the history held, are after a put what they were before.
pub proof fn lemma_keys_are_stable(
    before: automerge::AutoCommit,
    after: automerge::AutoCommit,
    put: (Seq<u8>, Seq<char>, Seq<char>),
    done: bool,
    heads: Seq<ChangeHash>,
    reference: Seq<char>,
)
    requires
        put_applied(before, after, put.0, put.1, put.2, done),
        has_all(before, hashes_of(heads)),
        heads.len() > 0,
        is_raw_id(reference),
    ensures
        listed(after, reference, Some(hex_texts(hashes_of(heads)))) == listed(
            before,
            reference,
            Some(hex_texts(hashes_of(heads))),
        ),
{
    lemma_heads_round_trip(heads);
    assert(snapshot_of(Some(hex_texts(hashes_of(heads)))) == Some(hashes_of(heads)));
    assert(hashes_of(heads).len() > 0);
}

/// Isolation, then writes, then integration: the heads of the history are
/// then those from before, without the ones that the isolated change
/// depends on, and with the isolated change.
pub proof fn lemma_isolated_writes_advance_main(
    main: automerge::AutoCommit,
    at: Seq<Seq<u8>>,
    docs: Seq<automerge::AutoCommit>,
    puts: Seq<(Seq<u8>, Seq<char>, Seq<char>)>,
    integrated: automerge::AutoCommit,
)
    requires
        doc_pending(main) == 0,
        at.len() > 0,
        settled_and_isolated(main, docs[0], at),
        put_chain(docs, puts),
        doc_pending(docs.last()) > 0,
        settled_and_integrated(docs.last(), integrated),
    ensures
        doc_isolation(integrated) is None,
        exists|change: Seq<u8>|
            #![trigger doc_has_change(integrated, change)]
            doc_has_change(integrated, change) && doc_main_heads(integrated).to_set()
                == doc_main_heads(main).to_set().difference(at.to_set()).insert(change),
{
    let isolated = docs[0];
    let mid = choose|mid: automerge::AutoCommit| #[trigger]
        settled(main, mid) && isolated_from(mid, isolated, isolation_point(mid, at));
    lemma_puts_keep_history(docs, puts);
    let last = docs.last();
    let sealed_doc = choose|m: automerge::AutoCommit| #[trigger]
        settled(last, m) && integrated_from(m, integrated);
    let change = choose|hash: Seq<u8>| sealed(last, sealed_doc, hash);
    assert(doc_isolation(last) == Some(at));
    assert(doc_main_heads(last) == doc_main_heads(main));
    assert(doc_has_change(integrated, change));
}

/// Isolation, then writes, then a rollback, then integration: the history
/// and its heads are as they were before.
pub proof fn lemma_isolated_rollback_keeps_main(
    main: automerge::AutoCommit,
    at: Seq<Seq<u8>>,
    docs: Seq<automerge::AutoCommit>,
    puts: Seq<(Seq<u8>, Seq<char>, Seq<char>)>,
    rolled_back: automerge::AutoCommit,
    integrated: automerge::AutoCommit,
)
    requires
        doc_pending(main) == 0,
        doc_isolation(main) is None,
        settled_and_isolated(main, docs[0], at),
        put_chain(docs, puts),
        doc_pending(rolled_back) == 0,
        same_history(docs.last(), rolled_back),
        settled_and_integrated(rolled_back, integrated),
    ensures
        same_history(main, integrated),
        active_heads(integrated) == active_heads(main),
        doc_pending(integrated) == 0,
{
    let isolated = docs[0];
    let mid = choose|mid: automerge::AutoCommit| #[trigger]
        settled(main, mid) && isolated_from(mid, isolated, isolation_point(mid, at));
    lemma_puts_keep_history(docs, puts);
    let closed = choose|m: automerge::AutoCommit| #[trigger]
        settled(rolled_back, m) && integrated_from(m, integrated);
    assert(doc_main_heads(integrated) == doc_main_heads(main));
    assert forall|h: Seq<u8>| #[trigger]
        doc_has_change(integrated, h) == doc_has_change(main, h) by {
        assert(doc_has_change(mid, h) == doc_has_change(main, h));
        assert(doc_has_change(isolated, h) == doc_has_change(mid, h));
        assert(doc_has_change(docs.last(), h) == doc_has_change(isolated, h));
        assert(doc_has_change(rolled_back, h) == doc_has_change(docs.last(), h));
        assert(doc_has_change(closed, h) == doc_has_change(rolled_back, h));
    }
}

} // verus!
