//! Writing, and the two modes of a document.
//!
//! A document is in the main mode or isolated at some heads of its history.
//! While it is isolated its reads and writes see the state as of those
//! heads; integrating returns it to the main mode, where the changes made in
//! isolation are part of the history like any other.
use crate::document::{lemma_settled_known, Automerge};
use crate::error::Error;
use crate::ident::{get_heads, hashes_of, hashes_of_texts, raw_heads};
use crate::replica::{
    active_heads, doc_get_heads, doc_has_change, doc_integrate, doc_isolate, doc_isolation,
    doc_knows, doc_main_heads, doc_pending, doc_put, has_all, put_applied, same_snapshots,
    sealed, settled, texts,
};
use crate::resolve::target;
use vstd::prelude::*;

verus! {

/// `post` is `pre`, which had nothing pending, isolated at `at`: the history
/// and every snapshot are as they were.
pub open spec fn isolated_from(
    pre: automerge::AutoCommit,
    post: automerge::AutoCommit,
    at: Seq<Seq<u8>>,
) -> bool {
    &&& doc_pending(post) == 0
    &&& doc_isolation(post) == Some(at)
    &&& doc_main_heads(post) == doc_main_heads(pre)
    &&& forall|h: Seq<u8>| #[trigger] doc_has_change(post, h) == doc_has_change(pre, h)
    &&& same_snapshots(pre, post)
}

/// `post` is `pre`, which had nothing pending, back in the main mode: the
/// history and every snapshot are as they were.
pub open spec fn integrated_from(pre: automerge::AutoCommit, post: automerge::AutoCommit) -> bool {
    &&& doc_pending(post) == 0
    &&& doc_isolation(post) is None
    &&& doc_main_heads(post) == doc_main_heads(pre)
    &&& forall|h: Seq<u8>| #[trigger] doc_has_change(post, h) == doc_has_change(pre, h)
    &&& same_snapshots(pre, post)
}

/// `post` is `pre` with its transaction closed and then isolated at the
/// heads that `at` names.
pub open spec fn settled_and_isolated(
    pre: automerge::AutoCommit,
    post: automerge::AutoCommit,
    at: Seq<Seq<u8>>,
) -> bool {
    exists|mid: automerge::AutoCommit| #[trigger]
        settled(pre, mid) && isolated_from(mid, post, isolation_point(mid, at))
}

/// `post` is `pre` with its transaction closed and then returned to the
/// main mode.
pub open spec fn settled_and_integrated(
    pre: automerge::AutoCommit,
    post: automerge::AutoCommit,
) -> bool {
    exists|mid: automerge::AutoCommit| #[trigger]
        settled(pre, mid) && integrated_from(mid, post)
}

/// The heads that a request to isolate names: the heads of the active mode
/// where the request names none.
pub open spec fn isolation_point(doc: automerge::AutoCommit, heads: Seq<Seq<u8>>) -> Seq<Seq<u8>> {
    if heads.len() == 0 {
        active_heads(doc)
    } else {
        heads
    }
}

/// Closing a transaction loses no change of the history.
pub proof fn lemma_settled_keeps_changes(
    pre: automerge::AutoCommit,
    post: automerge::AutoCommit,
    heads: Seq<Seq<u8>>,
)
    requires
        settled(pre, post),
        has_all(pre, heads),
    ensures
        has_all(post, heads),
{
    if doc_pending(pre) != 0 {
        let hash = choose|hash: Seq<u8>| sealed(pre, post, hash);
        assert forall|i: int| 0 <= i < heads.len() implies doc_has_change(
            post,
            #[trigger] heads[i],
        ) by {
            assert(doc_has_change(pre, heads[i]));
        }
    }
}

impl Automerge {
    /// Sets a key of a map to a string. The object is named by a reference;
    /// a failure of the document itself is passed on with its message.
    pub fn put_string_to_map(&mut self, obj: String, prop: String, value: String) -> (r: Result<
        (),
        Error,
    >)
        requires
            old(self).wf(),
        ensures
            final(self).wf(),
            final(self).frozen() == old(self).frozen(),
            match target(old(self).doc(), obj@) {
                Err(e) => r matches Err(x) && x@ == e@ && final(self).doc() == old(self).doc(),
                Ok((id, _)) => {
                    &&& put_applied(
                        old(self).doc(),
                        final(self).doc(),
                        id,
                        prop@,
                        value@,
                        r is Ok,
                    )
                    &&& r matches Err(x) ==> x is CoreError
                },
            },
    {
        let (id, _) = match self.resolve(obj.as_str()) {
            Ok(found) => found,
            Err(e) => {
                return Err(e);
            },
        };
        match doc_put(&mut self.doc, id.raw(), prop.as_str(), value.as_str()) {
            Ok(()) => Ok(()),
            Err(m) => Err(Error::CoreError(m)),
        }
    }

    /// Isolates the document at `heads`: from now on reads and writes see
    /// the state as of those heads. Without heads it is isolated where it
    /// stands. Buffered operations are sealed into a change first. Heads
    /// that are not the external form of a hash are malformed identifiers;
    /// heads that the history does not hold are not found.
    #[verifier::loop_isolation(false)]
    pub fn isolate(&mut self, heads: Vec<String>) -> (r: Result<(), Error>)
        requires
            old(self).wf(),
        ensures
            final(self).wf(),
            final(self).frozen() == old(self).frozen(),
            match hashes_of_texts(texts(heads@)) {
                None => r matches Err(e) && e == Error::MalformedIdentifier && final(self).doc()
                    == old(self).doc(),
                Some(at) => if !has_all(old(self).doc(), at) {
                    r matches Err(e) && e == Error::NotFound && final(self).doc() == old(
                        self,
                    ).doc()
                } else {
                    r is Ok && settled_and_isolated(old(self).doc(), final(self).doc(), at)
                },
            },
    {
        let ghost given = texts(heads@);
        let parsed = match get_heads(Some(heads)) {
            Ok(parsed) => parsed,
            Err(e) => {
                return Err(e);
            },
        };
        let ghost at = hashes_of(parsed@);
        let mut i: usize = 0;
        while i < parsed.len()
            invariant
                i <= parsed.len(),
                forall|k: int| 0 <= k < i ==> doc_has_change(self.doc, #[trigger] at[k]),
            decreases parsed.len() - i,
        {
            assert(at[i as int] == parsed@[i as int]@);
            if !doc_knows(&self.doc, &parsed[i].bytes) {
                return Err(Error::NotFound);
            }
            i += 1;
        }
        let ghost pre = self.doc;
        let current = doc_get_heads(&mut self.doc);
        let ghost mid = self.doc;
        proof {
            lemma_settled_known(pre, mid);
            lemma_settled_keeps_changes(pre, mid, at);
        }
        let point = if parsed.len() == 0 {
            current
        } else {
            raw_heads(&parsed)
        };
        doc_isolate(&mut self.doc, &point);
        assert(settled(pre, mid) && isolated_from(mid, self.doc, isolation_point(mid, at)));
        Ok(())
    }

    /// Returns the document to the main mode. Buffered operations are
    /// sealed into a change first. In the main mode only that happens.
    pub fn integrate(&mut self)
        requires
            old(self).wf(),
        ensures
            final(self).wf(),
            final(self).frozen() == old(self).frozen(),
            settled_and_integrated(old(self).doc(), final(self).doc()),
    {
        let ghost pre = self.doc;
        let _ = doc_get_heads(&mut self.doc);
        let ghost mid = self.doc;
        proof {
            lemma_settled_known(pre, mid);
        }
        doc_integrate(&mut self.doc);
        assert(settled(pre, mid) && integrated_from(mid, self.doc));
    }
}

} // verus!
