//! The document-sync service: sole owner of the CRDT document.
//!
//! Every mutation of the document goes through one command handler, so
//! there is never a data race on it.  The service keeps three derived
//! projections — the file list, the selected file, and an append-only
//! event log — and its well-formedness invariant ties each of them to
//! the document: the file list is exactly the document's file names,
//! and a selected file's content is exactly what the document holds
//! for it (or the selection is stale-free: cleared when its file
//! disappears).

use vstd::prelude::*;

use crate::automerge_doc::{AutomergeDocument, SyncDocError};

verus! {

/// A file of the document, as projected for display.
#[derive(Debug, Clone, PartialEq, Eq)]
pub struct AutomergeDocumentFile {
    pub file_name: String,
    pub content: Option<String>,
}

/// One entry of the service's diagnostic event log.
#[derive(Debug, Clone, Copy, PartialEq, Eq, Structural)]
pub enum AutomergeEvent {
    /// A received sync message was merged into the document.
    AppliedSyncMessage { timestamp: u64 },
    /// A sync message was generated for broadcast.
    CreatedSyncMessage { timestamp: u64 },
    /// A message could not be decoded or applied; the document was
    /// left untouched.
    Error { timestamp: u64 },
}

/// What the document-sync service can be asked to do.
pub enum AutomergeCommand {
    /// Merge a received, engine-encoded sync message.
    ApplyMessage { message_buf: Vec<u8> },
    /// Select a file for display.
    SelectFile { file_name: String },
    /// Generate sync messages for broadcast until the cursor is drained.
    StartSync,
}

/// How many sync messages one draining pass will generate at most:
/// far beyond any real backlog, and a later pass resumes the drain.
pub const SYNC_DRAIN_BOUND: u64 = 0xFFFF_FFFF;

/// The characters of an optional text, `None` when absent.
pub open spec fn opt_content_view(o: Option<String>) -> Option<Seq<char>> {
    match o {
        Some(c) => Some(c@),
        None => None,
    }
}

/// The document-sync service state: the document, its projections,
/// and the event log.
pub struct AutomergeService {
    pub document: AutomergeDocument,
    pub files: Vec<String>,
    pub selected_file: Option<AutomergeDocumentFile>,
    pub events: Vec<AutomergeEvent>,
}

/// The file names `names` are exactly the domain of `doc`, each once.
pub open spec fn files_correspond(names: Seq<String>, doc: Map<Seq<char>, Option<Seq<char>>>) -> bool {
    &&& forall|i: int, j: int| 0 <= i < j < names.len() ==> names[i]@ != names[j]@
    &&& forall|i: int| 0 <= i < names.len() ==> doc.dom().contains(#[trigger] names[i]@)
    &&& forall|name: Seq<char>|
        doc.dom().contains(name) ==> exists|i: int|
            0 <= i < names.len() && #[trigger] names[i]@ == name
}

/// A selection that still exists in `doc` shows exactly `doc`'s
/// content for it; one that does not exist shows no content.
pub open spec fn selection_consistent(
    sel: Option<AutomergeDocumentFile>,
    doc: Map<Seq<char>, Option<Seq<char>>>,
) -> bool {
    match sel {
        None => true,
        Some(f) => {
            &&& doc.dom().contains(f.file_name@) ==> opt_content_view(f.content)
                == doc[f.file_name@]
            &&& !doc.dom().contains(f.file_name@) ==> f.content is None
        },
    }
}

impl AutomergeService {
    /// The file-list projection holds exactly the document's file
    /// names, each once.
    pub open spec fn files_match(&self) -> bool {
        files_correspond(self.files@, self.document@)
    }

    /// A selected file that still exists shows exactly the document's
    /// content for it; one that does not exist shows no content.
    pub open spec fn selection_ok(&self) -> bool {
        selection_consistent(self.selected_file, self.document@)
    }

    /// Well-formed: both projections agree with the document.
    pub open spec fn wf(&self) -> bool {
        self.files_match() && self.selection_ok()
    }

    /// A fresh service owning a fresh, empty document.
    ///
    /// Failure here is fatal to the service — nothing can run without
    /// a document — and in practice does not happen: the engine's
    /// fresh document is empty.
    pub fn new() -> (r: Result<Self, SyncDocError>)
        ensures
            r matches Ok(s) ==> s.wf() && s.document@ == Map::<
                Seq<char>,
                Option<Seq<char>>,
            >::empty() && s.files@.len() == 0 && s.selected_file is None && s.events@ == Seq::<
                AutomergeEvent,
            >::empty(),
    {
        let document = match AutomergeDocument::new() {
            Ok(d) => d,
            Err(e) => {
                return Err(e);
            },
        };
        Ok(
            AutomergeService {
                document,
                files: Vec::new(),
                selected_file: None,
                events: Vec::new(),
            },
        )
    }

    /// Merges a received sync message into the document.
    ///
    /// On success the file list is recomputed and the selection is
    /// refreshed: kept (with current content) while its file still
    /// exists, cleared when the file is gone.  On any error the
    /// document and both projections are left untouched.  Either way
    /// exactly one event is logged and the service keeps running.
    pub fn apply_message(&mut self, message_buf: &Vec<u8>, now: u64) -> (r: Result<
        (),
        SyncDocError,
    >)
        requires
            old(self).wf(),
        ensures
            final(self).wf(),
            r is Ok <==> old(self).document.apply_outcome(message_buf@) is Some,
            r is Ok ==> Some(final(self).document@) == old(self).document.apply_outcome(
                message_buf@,
            ),
            r is Ok ==> final(self).events@ == old(self).events@.push(
                AutomergeEvent::AppliedSyncMessage { timestamp: now },
            ),
            r is Err ==> final(self).events@ == old(self).events@.push(
                AutomergeEvent::Error { timestamp: now },
            ),
            r is Err ==> final(self).document@ == old(self).document@
                && final(self).files@ == old(self).files@
                && final(self).selected_file == old(self).selected_file,
            r is Ok ==> match old(self).selected_file {
                None => final(self).selected_file is None,
                Some(f) => {
                    &&& final(self).document@.dom().contains(f.file_name@)
                        ==> (final(self).selected_file matches Some(g)
                            && g.file_name@ == f.file_name@
                            && opt_content_view(g.content) == final(self).document@[f.file_name@])
                    &&& !final(self).document@.dom().contains(f.file_name@)
                        ==> final(self).selected_file is None
                },
            },
    {
        match self.document.apply_message(message_buf) {
            Err(e) => {
                self.events.push(AutomergeEvent::Error { timestamp: now });
                return Err(e);
            },
            Ok(()) => {},
        }
        self.files = self.document.files();
        let refreshed = match &self.selected_file {
            None => None,
            Some(f) => {
                if file_list_contains(&self.files, &f.file_name) {
                    let content = self.document.file_content(&f.file_name);
                    Some(AutomergeDocumentFile { file_name: f.file_name.clone(), content })
                } else {
                    None
                }
            },
        };
        self.selected_file = refreshed;
        self.events.push(AutomergeEvent::AppliedSyncMessage { timestamp: now });
        Ok(())
    }

    /// Selects a file for display.
    ///
    /// The selection shows the document's current content for the
    /// name, and no content — not an error — when no such file exists.
    pub fn select_file(&mut self, file_name: String)
        requires
            old(self).wf(),
        ensures
            final(self).wf(),
            final(self).document@ == old(self).document@,
            final(self).files@ == old(self).files@,
            final(self).events@ == old(self).events@,
            final(self).selected_file matches Some(g) && g.file_name@ == file_name@
                && opt_content_view(g.content) == (if old(self).document@.dom().contains(file_name@) {
                old(self).document@[file_name@]
            } else {
                None::<Seq<char>>
            }),
    {
        let content = self.document.file_content(&file_name);
        self.selected_file = Some(AutomergeDocumentFile { file_name, content });
    }

    /// Drains the synchronization cursor: generates engine-encoded
    /// sync messages until there are none, for the caller to
    /// broadcast.  Only the cursor moves; the document and both
    /// projections are unchanged, and one event is logged per message.
    pub fn start_sync(&mut self, now: u64) -> (out: Vec<Vec<u8>>)
        requires
            old(self).wf(),
        ensures
            final(self).wf(),
            final(self).document@ == old(self).document@,
            final(self).files@ == old(self).files@,
            final(self).selected_file == old(self).selected_file,
            final(self).events@.len() == old(self).events@.len() + out@.len(),
            final(self).events@.subrange(0, old(self).events@.len() as int) == old(self).events@,
            forall|i: int|
                old(self).events@.len() <= i < final(self).events@.len() ==> final(self).events@[i]
                    == (AutomergeEvent::CreatedSyncMessage { timestamp: now }),
    {
        let mut out: Vec<Vec<u8>> = Vec::new();
        let mut fuel: u64 = SYNC_DRAIN_BOUND;
        while fuel > 0
            invariant
                self.wf(),
                self.document@ == old(self).document@,
                self.files@ == old(self).files@,
                self.selected_file == old(self).selected_file,
                self.events@.len() == old(self).events@.len() + out@.len(),
                self.events@.subrange(0, old(self).events@.len() as int) == old(self).events@,
                forall|i: int|
                    old(self).events@.len() <= i < self.events@.len() ==> self.events@[i] == (
                    AutomergeEvent::CreatedSyncMessage { timestamp: now }),
            decreases fuel,
        {
            let message_buf = match self.document.create_message() {
                Some(buf) => buf,
                None => {
                    break ;
                },
            };
            self.events.push(AutomergeEvent::CreatedSyncMessage { timestamp: now });
            out.push(message_buf);
            fuel = fuel - 1;
            proof {
                assert(self.events@.subrange(0, old(self).events@.len() as int) =~= old(
                    self,
                ).events@);
            }
        }
        out
    }

    /// Handles one command of the service's queue.
    ///
    /// Returns the engine-encoded sync messages to broadcast — only
    /// `StartSync` produces any — or the error of a message that could
    /// not be applied, already logged, after which the service keeps
    /// its last good state and keeps running.
    pub fn handle_command(&mut self, command: AutomergeCommand, now: u64) -> (r: Result<
        Vec<Vec<u8>>,
        SyncDocError,
    >)
        requires
            old(self).wf(),
        ensures
            final(self).wf(),
            match command {
                AutomergeCommand::ApplyMessage { message_buf } => {
                    &&& (r is Ok <==> old(self).document.apply_outcome(message_buf@) is Some)
                    &&& (r matches Ok(out) ==> out@.len() == 0
                        && Some(final(self).document@) == old(self).document.apply_outcome(
                        message_buf@,
                    ) && final(self).events@ == old(self).events@.push(
                        AutomergeEvent::AppliedSyncMessage { timestamp: now },
                    ))
                    &&& (r is Err ==> final(self).document@ == old(self).document@
                        && final(self).files@ == old(self).files@
                        && final(self).selected_file == old(self).selected_file
                        && final(self).events@ == old(self).events@.push(
                        AutomergeEvent::Error { timestamp: now },
                    ))
                },
                AutomergeCommand::SelectFile { file_name } => r matches Ok(out) && out@.len() == 0
                    && (final(self).selected_file matches Some(g) && g.file_name@ == file_name@)
                    && final(self).document@ == old(self).document@
                    && final(self).files@ == old(self).files@
                    && final(self).events@ == old(self).events@,
                AutomergeCommand::StartSync => r matches Ok(out) && final(self).document@ == old(
                    self,
                ).document@ && final(self).files@ == old(self).files@ && final(self).selected_file
                    == old(self).selected_file && final(self).events@.len() == old(
                    self,
                ).events@.len() + out@.len(),
            },
    {
        match command {
            AutomergeCommand::ApplyMessage { message_buf } => {
                match self.apply_message(&message_buf, now) {
                    Ok(()) => Ok(Vec::new()),
                    Err(e) => Err(e),
                }
            },
            AutomergeCommand::SelectFile { file_name } => {
                self.select_file(file_name);
                Ok(Vec::new())
            },
            AutomergeCommand::StartSync => Ok(self.start_sync(now)),
        }
    }
}

/// Whether the file list holds this name.
fn file_list_contains(files: &Vec<String>, name: &String) -> (r: bool)
    ensures
        r == (exists|i: int| 0 <= i < files@.len() && #[trigger] files@[i]@ == name@),
{
    let n = files.len();
    for i in 0..n
        invariant
            n == files@.len(),
            forall|j: int| 0 <= j < i ==> files@[j]@ != name@,
    {
        if files[i].eq(name) {
            proof {
                assert(files@[i as int]@ == name@);
            }
            return true;
        }
    }
    false
}

} // verus!
