//! The document handle and its transactions.
//!
//! A handle owns one document and a freeze flag. The document is in one of
//! two modes: the main mode, or isolated at some heads of its history.
//! Operations are buffered until they are committed, which seals them into
//! one change, or rolled back.
use crate::error::Error;
use crate::hexcode::{decode_hex, hex_chars, is_hex};
use crate::ident::{get_heads, ChangeHash};
use crate::replica::{
    active_heads, doc_commit, doc_get_heads, doc_has_change, doc_isolation, doc_main_heads,
    doc_pending, doc_pending_ops, doc_rollback, has_all, hashes, load_document, new_document,
    new_document_for, same_history, same_snapshots, sealed, settled, texts,
};
use vstd::prelude::*;

verus! {

/// What a document is created with.
#[derive(Debug, Clone, PartialEq, Eq)]
pub struct InitOptions {
    /// The actor that changes are made under, as hexadecimal text; a random
    /// one where none is given.
    pub actor: Option<String>,
    /// The first value of the freeze flag; off where none is given.
    pub freeze: Option<bool>,
    /// Asks for the second text representation, which is not implemented.
    pub enable_text_v2: Option<bool>,
    /// Asks for loading without checks, which is not implemented.
    pub unchecked: Option<bool>,
    /// Allows a history with gaps when a document is loaded; a new document
    /// has no history.
    pub allow_missing_changes: Option<bool>,
    /// Asks for raw strings to be read as text objects, which is not
    /// implemented.
    pub convert_raw_strings_to_text: Option<bool>,
}

impl InitOptions {
    /// Whether these options ask for behaviour that is not implemented.
    pub open spec fn unsupported(self) -> bool {
        ||| self.enable_text_v2 == Some(true)
        ||| self.unchecked == Some(true)
        ||| self.convert_raw_strings_to_text == Some(true)
    }

    /// Whether these options name an actor that is not hexadecimal text.
    pub open spec fn bad_actor(self) -> bool {
        self.actor matches Some(a) && !is_hex(a@)
    }

    /// The freeze flag that these options ask for.
    pub open spec fn wants_freeze(self) -> bool {
        self.freeze == Some(true)
    }
}

/// A handle on one document.
pub struct Automerge {
    pub(crate) doc: automerge::AutoCommit,
    pub(crate) freeze: bool,
}

/// The external forms of a list of hashes.
pub open spec fn hex_texts(heads: Seq<Seq<u8>>) -> Seq<Seq<char>> {
    heads.map_values(|h: Seq<u8>| hex_chars(h))
}

/// Closing the transaction of a document whose heads are all in its history
/// leaves such a document.
pub proof fn lemma_settled_known(pre: automerge::AutoCommit, post: automerge::AutoCommit)
    requires
        settled(pre, post),
        has_all(pre, doc_main_heads(pre)),
        has_all(pre, active_heads(pre)),
    ensures
        has_all(post, doc_main_heads(post)),
        has_all(post, active_heads(post)),
        doc_pending(post) == 0,
        doc_isolation(post) is Some <==> doc_isolation(pre) is Some,
{
    if doc_pending(pre) != 0 {
        let hash = choose|hash: Seq<u8>| sealed(pre, post, hash);
        let after = doc_main_heads(post);
        assert forall|i: int| 0 <= i < after.len() implies doc_has_change(
            post,
            #[trigger] after[i],
        ) by {
            assert(after.to_set().contains(after[i]));
            if after[i] != hash {
                if doc_isolation(pre) is Some {
                    assert(doc_main_heads(pre).to_set().contains(after[i]));
                }
                let before = doc_main_heads(pre);
                assert(before.contains(after[i]));
                let k = choose|k: int| 0 <= k < before.len() && before[k] == after[i];
                assert(doc_has_change(pre, before[k]));
            }
        }
    }
}

impl Automerge {
    /// The document that this handle owns.
    pub open(crate) spec fn doc(&self) -> automerge::AutoCommit {
        self.doc
    }

    /// The value of the freeze flag.
    pub open(crate) spec fn frozen(&self) -> bool {
        self.freeze
    }

    /// The handle is well formed: every head of its document, in either
    /// mode, is a change of its history. Every handle that `create` returns
    /// is, and every operation keeps it so.
    pub open(crate) spec fn wf(&self) -> bool {
        &&& has_all(self.doc, doc_main_heads(self.doc))
        &&& has_all(self.doc, active_heads(self.doc))
    }

    /// The number of buffered operations that are not committed yet.
    pub fn pending_ops(&self) -> (n: u64)
        ensures
            n == doc_pending(self.doc()),
    {
        doc_pending_ops(&self.doc) as u64
    }

    /// Sets the freeze flag and returns its value before. The flag has no
    /// effect on what reads and writes return.
    pub fn enable_freeze(&mut self, enable: bool) -> (before: bool)
        ensures
            final(self).wf() == old(self).wf(),
            before == old(self).frozen(),
            final(self).frozen() == enable,
            final(self).doc() == old(self).doc(),
    {
        let before = self.freeze;
        self.freeze = enable;
        before
    }

    /// Drops the buffered operations and returns how many there were. The
    /// history, the heads and the mode stay as they are.
    pub fn rollback(&mut self) -> (n: u64)
        requires
            old(self).wf(),
        ensures
            final(self).wf(),
            n == doc_pending(old(self).doc()),
            doc_pending(final(self).doc()) == 0,
            same_history(old(self).doc(), final(self).doc()),
            same_snapshots(old(self).doc(), final(self).doc()),
            final(self).frozen() == old(self).frozen(),
    {
        doc_rollback(&mut self.doc) as u64
    }

    /// The heads of the active mode, in their external form. Buffered
    /// operations are sealed into a change first.
    pub fn get_heads(&mut self) -> (heads: Vec<String>)
        requires
            old(self).wf(),
        ensures
            final(self).wf(),
            settled(old(self).doc(), final(self).doc()),
            texts(heads@) == hex_texts(active_heads(final(self).doc())),
            final(self).frozen() == old(self).frozen(),
    {
        let ghost pre = self.doc;
        let raw = doc_get_heads(&mut self.doc);
        proof {
            lemma_settled_known(pre, self.doc);
        }
        let mut heads: Vec<String> = Vec::new();
        let mut i: usize = 0;
        while i < raw.len()
            invariant
                i <= raw.len(),
                heads.len() == i,
                forall|k: int| 0 <= k < i ==> (#[trigger] heads@[k])@ == hex_chars(raw@[k]@),
            decreases raw.len() - i,
        {
            let h = ChangeHash { bytes: raw[i] };
            heads.push(h.to_hex());
            i += 1;
        }
        assert(texts(heads@) =~= hex_texts(hashes(raw@)));
        heads
    }

    /// Seals the buffered operations into one change, with this message and
    /// this time in seconds, and returns its hash in its external form.
    /// Without buffered operations nothing happens and nothing is returned.
    pub fn commit(&mut self, message: Option<String>, time: Option<i64>) -> (hash: Option<String>)
        requires
            old(self).wf(),
        ensures
            final(self).wf(),
            hash is None <==> doc_pending(old(self).doc()) == 0,
            settled(old(self).doc(), final(self).doc()),
            hash matches Some(h) ==> exists|bytes: Seq<u8>|
                #[trigger] sealed(old(self).doc(), final(self).doc(), bytes) && h@ == hex_chars(
                    bytes,
                ),
            final(self).frozen() == old(self).frozen(),
    {
        let ghost pre = self.doc;
        let sealed_as = doc_commit(&mut self.doc, message, time);
        proof {
            lemma_settled_known(pre, self.doc);
        }
        match sealed_as {
            None => None,
            Some(bytes) => {
                let h = ChangeHash { bytes };
                let text = h.to_hex();
                assert(sealed(pre, self.doc, h@) && text@ == hex_chars(h@));
                Some(text)
            },
        }
    }
}

/// A new document: empty, in the main mode, with nothing pending. Options
/// that ask for what is not implemented are refused, and so is an actor that
/// is not hexadecimal text.
pub fn create(options: Option<InitOptions>) -> (r: Result<Automerge, Error>)
    ensures
        match r {
            Ok(handle) => {
                &&& handle.wf()
                &&& options matches Some(o) ==> !o.unsupported() && !o.bad_actor()
                &&& doc_pending(handle.doc()) == 0
                &&& doc_isolation(handle.doc()) is None
                &&& doc_main_heads(handle.doc()).len() == 0
                &&& handle.frozen() == (options matches Some(o) && o.wants_freeze())
            },
            Err(e) => options matches Some(o) && {
                ||| e == Error::UnsupportedOption && o.unsupported()
                ||| e == Error::BadActorId && !o.unsupported() && o.bad_actor()
            },
        },
{
    match options {
        None => Ok(Automerge { doc: new_document(), freeze: false }),
        Some(o) => {
            if is_set(o.enable_text_v2) || is_set(o.unchecked) || is_set(
                o.convert_raw_strings_to_text,
            ) {
                return Err(Error::UnsupportedOption);
            }
            let freeze = is_set(o.freeze);
            match o.actor {
                None => Ok(Automerge { doc: new_document(), freeze }),
                Some(actor) => match decode_hex(actor.as_str()) {
                    None => Err(Error::BadActorId),
                    Some(bytes) => Ok(Automerge { doc: new_document_for(bytes), freeze }),
                },
            }
        },
    }
}

/// The document that `data` holds, as the document itself stored it: in the
/// main mode, with nothing pending. Where the document cannot read the
/// bytes, its failure is passed on with its message.
pub fn load(data: Vec<u8>) -> (r: Result<Automerge, Error>)
    ensures
        match r {
            Ok(handle) => {
                &&& handle.wf()
                &&& doc_pending(handle.doc()) == 0
                &&& doc_isolation(handle.doc()) is None
                &&& !handle.frozen()
            },
            Err(e) => e is CoreError,
        },
{
    match load_document(&data) {
        Ok(doc) => Ok(Automerge { doc, freeze: false }),
        Err(m) => Err(Error::CoreError(m)),
    }
}

/// Whether a flag is given and on.
fn is_set(flag: Option<bool>) -> (b: bool)
    ensures
        b == (flag == Some(true)),
{
    match flag {
        Some(b) => b,
        None => false,
    }
}

} // verus!
