use automerge::sync::{Message, MessageVersion, State, SyncDoc};
use automerge::transaction::Transactable;
use automerge::{AutoCommit, ObjType, ReadDoc, ROOT};
use ethersync_web::automerge_doc::SyncDocError;
use ethersync_web::automerge_service::{AutomergeCommand, AutomergeEvent, AutomergeService};

/// An editing peer built directly on the engine, as a remote replica
/// would be.
struct EditingPeer {
    doc: AutoCommit,
}

impl EditingPeer {
    fn new() -> Self {
        EditingPeer { doc: AutoCommit::new() }
    }

    fn files_id(&mut self) -> automerge::ObjId {
        match self.doc.get(ROOT, "files").unwrap() {
            Some((_, id)) => id,
            None => self.doc.put_object(ROOT, "files", ObjType::Map).unwrap(),
        }
    }

    fn put_file(&mut self, name: &str, content: &str) {
        let files = self.files_id();
        let text = self.doc.put_object(&files, name, ObjType::Text).unwrap();
        self.doc.splice_text(&text, 0, 0, content).unwrap();
    }

    fn delete_file(&mut self, name: &str) {
        let files = self.files_id();
        self.doc.delete(&files, name).unwrap();
    }

    /// A sync message carrying every change this peer has, ready to
    /// apply on any replica in any order.
    fn full_sync_message(&mut self) -> Vec<u8> {
        let changes: Vec<Vec<u8>> =
            self.doc.get_changes(&[]).iter().map(|c| c.raw_bytes().to_vec()).collect();
        let message = Message {
            heads: self.doc.get_heads(),
            need: Vec::new(),
            have: Vec::new(),
            changes: changes.into(),
            flags: None,
            version: MessageVersion::V1,
        };
        message.encode()
    }
}

fn file_names(service: &AutomergeService) -> Vec<String> {
    let mut names = service.files.clone();
    names.sort();
    names
}

#[test]
fn fresh_service_has_no_files_and_no_selection() {
    let service = AutomergeService::new().unwrap();
    assert!(service.files.is_empty());
    assert!(service.selected_file.is_none());
    assert!(service.events.is_empty());
}

#[test]
fn applying_a_message_adds_its_files() {
    let mut peer = EditingPeer::new();
    peer.put_file("a.txt", "hello");
    let mut service = AutomergeService::new().unwrap();
    service.apply_message(&peer.full_sync_message(), 1).unwrap();
    assert_eq!(file_names(&service), vec![String::from("a.txt")]);
    assert_eq!(service.events, vec![AutomergeEvent::AppliedSyncMessage { timestamp: 1 }]);
}

#[test]
fn garbage_is_rejected_and_the_document_is_untouched() {
    let mut peer = EditingPeer::new();
    peer.put_file("a.txt", "hello");
    let mut service = AutomergeService::new().unwrap();
    service.apply_message(&peer.full_sync_message(), 1).unwrap();
    let before = file_names(&service);

    let r = service.apply_message(&vec![1u8, 2, 3], 2);
    assert_eq!(r, Err(SyncDocError::BadMessage));
    assert_eq!(file_names(&service), before);
    assert_eq!(service.events.last(), Some(&AutomergeEvent::Error { timestamp: 2 }));
}

#[test]
fn selection_shows_current_content() {
    let mut peer = EditingPeer::new();
    peer.put_file("a.txt", "hello");
    let mut service = AutomergeService::new().unwrap();
    service.apply_message(&peer.full_sync_message(), 1).unwrap();

    service.select_file(String::from("a.txt"));
    let selected = service.selected_file.clone().unwrap();
    assert_eq!(selected.file_name, "a.txt");
    assert_eq!(selected.content.as_deref(), Some("hello"));
}

#[test]
fn removing_the_selected_file_clears_the_selection() {
    let mut peer = EditingPeer::new();
    peer.put_file("a.txt", "hello");
    let mut service = AutomergeService::new().unwrap();
    service.apply_message(&peer.full_sync_message(), 1).unwrap();
    service.select_file(String::from("a.txt"));
    assert!(service.selected_file.is_some());

    peer.delete_file("a.txt");
    service.apply_message(&peer.full_sync_message(), 2).unwrap();
    assert!(service.selected_file.is_none());
    assert!(file_names(&service).is_empty());
}

#[test]
fn selecting_a_nonexistent_file_yields_no_content() {
    let mut service = AutomergeService::new().unwrap();
    service.select_file(String::from("ghost.txt"));
    let selected = service.selected_file.clone().unwrap();
    assert_eq!(selected.file_name, "ghost.txt");
    assert!(selected.content.is_none());
}

#[test]
fn surviving_selection_is_refreshed_after_a_merge() {
    let mut peer = EditingPeer::new();
    peer.put_file("a.txt", "hello");
    let mut service = AutomergeService::new().unwrap();
    service.apply_message(&peer.full_sync_message(), 1).unwrap();
    service.select_file(String::from("a.txt"));

    peer.put_file("a.txt", "hello, world");
    service.apply_message(&peer.full_sync_message(), 2).unwrap();
    let selected = service.selected_file.clone().unwrap();
    assert_eq!(selected.content.as_deref(), Some("hello, world"));
}

#[test]
fn replicas_converge_whatever_the_message_order() {
    // Both editors grow from one ancestor document that already holds
    // the (empty) files map, as replicas of one shared document do.
    let mut genesis = EditingPeer::new();
    genesis.files_id();
    let mut alice = EditingPeer { doc: genesis.doc.fork() };
    alice.put_file("a.txt", "from alice");
    let mut bob = EditingPeer { doc: genesis.doc.fork() };
    bob.put_file("b.txt", "from bob");
    let m_alice = alice.full_sync_message();
    let m_bob = bob.full_sync_message();

    let mut first = AutomergeService::new().unwrap();
    first.apply_message(&m_alice, 1).unwrap();
    first.apply_message(&m_bob, 2).unwrap();

    let mut second = AutomergeService::new().unwrap();
    second.apply_message(&m_bob, 1).unwrap();
    second.apply_message(&m_alice, 2).unwrap();

    assert_eq!(file_names(&first), vec![String::from("a.txt"), String::from("b.txt")]);
    assert_eq!(file_names(&first), file_names(&second));
    for name in file_names(&first) {
        first.select_file(name.clone());
        second.select_file(name);
        assert_eq!(
            first.selected_file.clone().unwrap().content,
            second.selected_file.clone().unwrap().content
        );
    }
}

#[test]
fn duplicate_messages_do_not_change_the_outcome() {
    let mut peer = EditingPeer::new();
    peer.put_file("a.txt", "hello");
    let message = peer.full_sync_message();
    let mut service = AutomergeService::new().unwrap();
    service.apply_message(&message, 1).unwrap();
    service.apply_message(&message, 2).unwrap();
    assert_eq!(file_names(&service), vec![String::from("a.txt")]);
    service.select_file(String::from("a.txt"));
    assert_eq!(service.selected_file.clone().unwrap().content.as_deref(), Some("hello"));
}

#[test]
fn start_sync_catches_a_fresh_peer_up() {
    let mut editor = EditingPeer::new();
    editor.put_file("a.txt", "hello");
    let mut service = AutomergeService::new().unwrap();
    service.apply_message(&editor.full_sync_message(), 1).unwrap();

    // A newly connected, empty peer runs the interactive protocol:
    // its messages go into the service's queue, the service's drained
    // messages go back, until both sides are quiet.
    let mut peer = AutoCommit::new();
    let mut peer_state = State::new();
    for _ in 0..10 {
        let mut progressed = false;
        if let Some(m) = peer.sync().generate_sync_message(&mut peer_state) {
            let out = service
                .handle_command(AutomergeCommand::ApplyMessage { message_buf: m.encode() }, 3)
                .unwrap();
            assert!(out.is_empty());
            progressed = true;
        }
        let replies = service.handle_command(AutomergeCommand::StartSync, 4).unwrap();
        for buf in replies {
            let m = Message::decode(&buf).unwrap();
            peer.sync().receive_sync_message(&mut peer_state, m).unwrap();
            progressed = true;
        }
        if !progressed {
            break;
        }
    }

    let files = peer.get(ROOT, "files").unwrap().expect("peer has the files map").1;
    let text = peer.get(&files, "a.txt").unwrap().expect("peer has the file").1;
    assert_eq!(peer.text(&text).unwrap(), "hello");
    assert!(service
        .events
        .iter()
        .any(|e| matches!(e, AutomergeEvent::CreatedSyncMessage { timestamp: 4 })));
}

#[test]
fn select_file_via_command_queue() {
    let mut peer = EditingPeer::new();
    peer.put_file("a.txt", "hello");
    let mut service = AutomergeService::new().unwrap();
    service
        .handle_command(
            AutomergeCommand::ApplyMessage { message_buf: peer.full_sync_message() },
            1,
        )
        .unwrap();
    service
        .handle_command(AutomergeCommand::SelectFile { file_name: String::from("a.txt") }, 2)
        .unwrap();
    assert_eq!(
        service.selected_file.clone().unwrap().content.as_deref(),
        Some("hello")
    );
}
