//! The CRDT document, held behind the `automerge` engine.
//!
//! The engine's document, sync-state and sync-message types are opaque
//! here.  What the rest of the library reads of a document is named by
//! one spec function, `doc_files`: the entries of the `"files"` map at
//! the document root, each file name mapped to the engine's text
//! rendering of its object entry (`None` for a scalar entry, which has
//! no text).  What applying a received sync message does to that map
//! is named by a second spec function, `apply_files_of`.  Every
//! trusted wrapper below speaks of the document only through those
//! names.

use vstd::prelude::*;

use automerge::sync::SyncDoc;
use automerge::ReadDoc;

verus! {

#[verifier::external_type_specification]
#[verifier::external_body]
pub struct ExAutomerge(automerge::Automerge);

#[verifier::external_type_specification]
#[verifier::external_body]
pub struct ExSyncState(automerge::sync::State);

#[verifier::external_type_specification]
#[verifier::external_body]
pub struct ExSyncMessage(automerge::sync::Message);

#[verifier::external_type_specification]
#[verifier::external_body]
pub struct ExAutomergeError(automerge::AutomergeError);

/// What a document holds: the keys of its root `"files"` map, each
/// mapped to `Some` of the engine's `text()` rendering of its object
/// entry, or to `None` for a scalar entry.  An absent `"files"` map —
/// or a non-map under that key — is the empty map.
pub uninterp spec fn doc_files(doc: automerge::Automerge) -> Map<Seq<char>, Option<Seq<char>>>;

/// What applying received bytes to a document under a cursor yields:
/// the file map of the merged document, or nothing when the bytes are
/// not a sync message or the engine rejects it.  This is a function of
/// its arguments alone: decoding is deterministic, and the
/// receive-and-merge path applies only the changes the message and the
/// document carry — the fresh actor id a fork draws never reaches the
/// file map or the outcome.
pub uninterp spec fn apply_files_of(
    doc: automerge::Automerge,
    state: automerge::sync::State,
    message_buf: Seq<u8>,
) -> Option<Map<Seq<char>, Option<Seq<char>>>>;

/// The bytes that the engine's sync-message encoding produces: a
/// function of the message alone.
pub uninterp spec fn sync_message_bytes(m: automerge::sync::Message) -> Seq<u8>;


/// Relies on `sync::Message::decode`, `SyncDoc::receive_sync_message`
/// and `Automerge::merge`: the decoded message is received into a fork
/// and the merge result replaces the document only after every step
/// succeeds, so on any error the document is left exactly as it was.
/// Success and the merged file map are `apply_files_of` of the inputs.
#[verifier::external_body]
fn doc_apply_sync_message(
    doc: &mut automerge::Automerge,
    state: &mut automerge::sync::State,
    message_buf: &Vec<u8>,
) -> (r: Result<(), SyncDocError>)
    ensures
        r is Ok <==> apply_files_of(*old(doc), *old(state), message_buf@) is Some,
        r is Ok ==> Some(doc_files(*final(doc))) == apply_files_of(
            *old(doc),
            *old(state),
            message_buf@,
        ),
        r is Err ==> doc_files(*final(doc)) == doc_files(*old(doc)),
{
    let message = match automerge::sync::Message::decode(message_buf.as_slice()) {
        Ok(m) => m,
        Err(_) => return Err(SyncDocError::BadMessage),
    };
    let mut fork = doc.fork();
    if fork.receive_sync_message(state, message).is_err() {
        return Err(SyncDocError::ApplyFailed);
    }
    let mut merged = doc.fork();
    if merged.merge(&mut fork).is_err() {
        return Err(SyncDocError::ApplyFailed);
    }
    *doc = merged;
    Ok(())
}

/// Relies on `SyncDoc::generate_sync_message`: it only reads the
/// document and advances the cursor, so the document's files are
/// untouched.  Whether a message comes back depends on the opaque
/// cursor, so nothing is stated of the result.
#[verifier::external_body]
fn doc_generate_sync_message(
    doc: &automerge::Automerge,
    state: &mut automerge::sync::State,
) -> Option<automerge::sync::Message> {
    doc.generate_sync_message(state)
}

/// Relies on `ReadDoc::get` and `ReadDoc::keys`: the keys of the root
/// `"files"` map are exactly the domain of `doc_files`, each once; an
/// absent map yields no keys.  The engine returns them in its own
/// (sorted) order, which nothing here relies on.
#[verifier::external_body]
fn doc_file_names(doc: &automerge::Automerge) -> (r: Vec<String>)
    ensures
        forall|i: int, j: int| 0 <= i < j < r@.len() ==> r@[i]@ != r@[j]@,
        forall|i: int| 0 <= i < r@.len() ==> doc_files(*doc).dom().contains(#[trigger] r@[i]@),
        forall|name: Seq<char>|
            doc_files(*doc).dom().contains(name) ==> exists|i: int|
                0 <= i < r@.len() && #[trigger] r@[i]@ == name,
{
    match doc.get(&automerge::ROOT, "files") {
        Ok(Some((_, files_id))) => doc.keys(&files_id).collect(),
        _ => Vec::new(),
    }
}

/// Relies on `ReadDoc::get` and `ReadDoc::text`: the content of the
/// named entry of the root `"files"` map, exactly as `doc_files` has
/// it — `text()` of an object entry, nothing for a scalar entry or an
/// absent name.
#[verifier::external_body]
fn doc_file_content(doc: &automerge::Automerge, file_name: &String) -> (r: Option<String>)
    ensures
        match r {
            Some(content) => doc_files(*doc).dom().contains(file_name@)
                && doc_files(*doc).index(file_name@) == Some(content@),
            None => !doc_files(*doc).dom().contains(file_name@) || doc_files(*doc).index(
                file_name@,
            ) is None,
        },
{
    let files_id = match doc.get(&automerge::ROOT, "files") {
        Ok(Some((_, id))) => id,
        _ => {
            return None;
        },
    };
    match doc.get(&files_id, file_name.as_str()) {
        Ok(Some((_, entry_id))) => doc.text(&entry_id).ok(),
        _ => None,
    }
}

/// Relies on `sync::Message::encode`: a pure rendering of the message
/// to bytes, named by `sync_message_bytes`.
#[verifier::external_body]
fn sync_message_encode(m: automerge::sync::Message) -> (r: Vec<u8>)
    ensures
        r@ == sync_message_bytes(m),
{
    m.encode()
}

/// Why the document subsystem failed.
#[derive(Clone, Copy, Debug, PartialEq, Eq, Structural)]
pub enum SyncDocError {
    /// The bytes are not a well-formed sync message.
    BadMessage,
    /// The engine could not apply the message.
    ApplyFailed,
    /// A fresh document failed its emptiness check at startup.
    BadDocument,
}

/// The CRDT document together with its synchronization cursor.
///
/// Its view is the map `doc_files` of the document it holds.
pub struct AutomergeDocument {
    doc: automerge::Automerge,
    state: automerge::sync::State,
}

impl View for AutomergeDocument {
    type V = Map<Seq<char>, Option<Seq<char>>>;

    closed spec fn view(&self) -> Map<Seq<char>, Option<Seq<char>>> {
        doc_files(self.doc)
    }
}

/// Relies on `Automerge::new` and `sync::State::new`: a freshly
/// created, empty document with a fresh synchronization cursor.  Both
/// values are opaque, so nothing is stated of them; `new` below reads
/// the file list back to confirm the document is empty.
#[verifier::external_body]
fn fresh_document() -> AutomergeDocument {
    AutomergeDocument { doc: automerge::Automerge::new(), state: automerge::sync::State::new() }
}

impl AutomergeDocument {
    /// What applying `message_buf` to this replica would yield: the
    /// merged file map, or nothing when the bytes are rejected.
    pub closed spec fn apply_outcome(&self, message_buf: Seq<u8>) -> Option<
        Map<Seq<char>, Option<Seq<char>>>,
    > {
        apply_files_of(self.doc, self.state, message_buf)
    }

    /// A fresh, empty replica with a fresh cursor.
    ///
    /// Emptiness is confirmed by reading the file list back; an engine
    /// that handed out a non-empty fresh document would be rejected
    /// here, before any service starts on it.
    pub fn new() -> (r: Result<AutomergeDocument, SyncDocError>)
        ensures
            r matches Ok(d) ==> d@ == Map::<Seq<char>, Option<Seq<char>>>::empty(),
    {
        let d = fresh_document();
        let names = d.files();
        if names.len() == 0 {
            proof {
                assert forall|name: Seq<char>| !d@.dom().contains(name) by {
                    if d@.dom().contains(name) {
                        let i = choose|i: int| 0 <= i < names@.len() && names@[i]@ == name;
                    }
                }
                assert(d@.dom() =~= Set::<Seq<char>>::empty());
                assert(d@ =~= Map::<Seq<char>, Option<Seq<char>>>::empty());
            }
            Ok(d)
        } else {
            Err(SyncDocError::BadDocument)
        }
    }

    /// Decodes received bytes and merges them into the document.
    ///
    /// Succeeds exactly when the engine accepts the bytes, and the
    /// document becomes the merge result, `apply_outcome` of the
    /// inputs.  The merge goes through a fork, so on any error — bytes
    /// that are not a sync message, or a message the engine rejects —
    /// the document is left exactly as it was.
    pub fn apply_message(&mut self, message_buf: &Vec<u8>) -> (r: Result<(), SyncDocError>)
        ensures
            r is Ok <==> old(self).apply_outcome(message_buf@) is Some,
            r is Ok ==> Some(final(self)@) == old(self).apply_outcome(message_buf@),
            r is Err ==> final(self)@ == old(self)@,
    {
        doc_apply_sync_message(&mut self.doc, &mut self.state, message_buf)
    }

    /// Generates the next sync message for this cursor, already
    /// encoded, or `None` when the peer is up to date.  Only the
    /// cursor advances: the document's files are unchanged.
    pub fn create_message(&mut self) -> (r: Option<Vec<u8>>)
        ensures
            final(self)@ == old(self)@,
    {
        match doc_generate_sync_message(&self.doc, &mut self.state) {
            Some(m) => Some(sync_message_encode(m)),
            None => None,
        }
    }

    /// The file names the document currently holds, each exactly once.
    pub fn files(&self) -> (r: Vec<String>)
        ensures
            forall|i: int, j: int| 0 <= i < j < r@.len() ==> r@[i]@ != r@[j]@,
            forall|i: int| 0 <= i < r@.len() ==> self@.dom().contains(#[trigger] r@[i]@),
            forall|name: Seq<char>|
                self@.dom().contains(name) ==> exists|i: int|
                    0 <= i < r@.len() && #[trigger] r@[i]@ == name,
    {
        doc_file_names(&self.doc)
    }

    /// The text content of the named file, or `None` when the name is
    /// absent or its entry holds no text.
    pub fn file_content(&self, file_name: &String) -> (r: Option<String>)
        ensures
            match r {
                Some(content) => self@.dom().contains(file_name@) && self@[file_name@] == Some(
                    content@,
                ),
                None => !self@.dom().contains(file_name@) || self@[file_name@] is None,
            },
    {
        doc_file_content(&self.doc, file_name)
    }
}

} // verus!
