use adb_push::bridge::BridgeReply;
use adb_push::transfer::{
    destination_path, send_files, transfer_outcome, PendingFile, PushRequest, TransferOutcome,
    REMOTE_ROOT,
};

fn pending(paths: &[&str]) -> Vec<PendingFile> {
    paths.iter().map(|path| PendingFile { path: path.to_string() }).collect()
}

fn request(source: &str, destination: &str) -> PushRequest {
    PushRequest { source: source.to_string(), destination: destination.to_string() }
}

#[test]
fn remote_root_is_the_shared_storage() {
    assert_eq!(REMOTE_ROOT, "/storage/emulated/0/");
}

#[test]
fn destination_for_downloads() {
    assert_eq!(destination_path("Downloads"), "/storage/emulated/0/Downloads");
    let batch = send_files(&pending(&["photo.jpg"]), "Downloads");
    assert_eq!(batch.next_push(), Some(&request("photo.jpg", "/storage/emulated/0/Downloads")));
}

#[test]
fn destination_for_empty_fragment_is_the_root() {
    assert_eq!(destination_path(""), "/storage/emulated/0/");
}

#[test]
fn destination_takes_the_fragment_letter_for_letter() {
    assert_eq!(destination_path("../x y/\"z\"/"), "/storage/emulated/0/../x y/\"z\"/");
    assert_eq!(destination_path("/DCIM"), "/storage/emulated/0//DCIM");
    assert_eq!(destination_path("Bilder/\u{e4}"), "/storage/emulated/0/Bilder/\u{e4}");
}

#[test]
fn two_files_empty_fragment() {
    let mut batch = send_files(&pending(&["a.txt", "b.txt"]), "");
    assert!(!batch.is_done());
    assert_eq!(batch.next_push(), Some(&request("a.txt", "/storage/emulated/0/")));
    batch.record(BridgeReply::Completed("a.txt: 1 file pushed".to_string()));
    assert!(!batch.is_done());
    assert_eq!(batch.next_push(), Some(&request("b.txt", "/storage/emulated/0/")));
    batch.record(BridgeReply::Completed("b.txt: 1 file pushed".to_string()));
    assert!(batch.is_done());
    assert_eq!(batch.next_push(), None);
    assert_eq!(
        batch.into_outcomes(),
        vec![
            TransferOutcome {
                source: "a.txt".to_string(),
                destination: "/storage/emulated/0/".to_string(),
                reply: BridgeReply::Completed("a.txt: 1 file pushed".to_string()),
            },
            TransferOutcome {
                source: "b.txt".to_string(),
                destination: "/storage/emulated/0/".to_string(),
                reply: BridgeReply::Completed("b.txt: 1 file pushed".to_string()),
            },
        ]
    );
}

#[test]
fn launch_failure_does_not_stop_the_batch() {
    let mut batch = send_files(&pending(&["a", "b", "c"]), "x");
    batch.record(BridgeReply::LaunchFailed("not found".to_string()));
    assert_eq!(batch.next_push(), Some(&request("b", "/storage/emulated/0/x")));
    batch.record(BridgeReply::LaunchFailed("not found".to_string()));
    assert_eq!(batch.next_push(), Some(&request("c", "/storage/emulated/0/x")));
    batch.record(BridgeReply::Completed(String::new()));
    assert!(batch.is_done());
    let outcomes = batch.into_outcomes();
    assert_eq!(outcomes.len(), 3);
    assert_eq!(outcomes[0].source, "a");
    assert_eq!(outcomes[0].reply, BridgeReply::LaunchFailed("not found".to_string()));
    assert_eq!(outcomes[1].source, "b");
    assert_eq!(outcomes[2].source, "c");
    assert_eq!(outcomes[2].reply, BridgeReply::Completed(String::new()));
}

#[test]
fn batch_of_nothing_is_done_at_once() {
    let mut batch = send_files(&pending(&[]), "Downloads");
    assert!(batch.is_done());
    assert_eq!(batch.next_push(), None);
    batch.record(BridgeReply::Completed("stray".to_string()));
    assert!(batch.into_outcomes().is_empty());
}

#[test]
fn reply_without_a_waiting_request_is_dropped() {
    let mut batch = send_files(&pending(&["a"]), "");
    batch.record(BridgeReply::Completed("one".to_string()));
    batch.record(BridgeReply::Completed("two".to_string()));
    let outcomes = batch.into_outcomes();
    assert_eq!(outcomes.len(), 1);
    assert_eq!(outcomes[0].reply, BridgeReply::Completed("one".to_string()));
}

#[test]
fn same_file_dropped_twice_is_pushed_twice() {
    let mut batch = send_files(&pending(&["a", "a"]), "");
    batch.record(BridgeReply::Completed("1".to_string()));
    assert_eq!(batch.next_push(), Some(&request("a", "/storage/emulated/0/")));
    batch.record(BridgeReply::Completed("2".to_string()));
    assert_eq!(batch.into_outcomes().len(), 2);
}

#[test]
fn planning_leaves_the_pending_files_alone() {
    let files = pending(&["a.txt", "b.txt"]);
    let _batch = send_files(&files, "x");
    assert_eq!(files, pending(&["a.txt", "b.txt"]));
}

#[test]
fn outcome_keeps_request_and_reply() {
    let outcome = transfer_outcome(
        &request("a.txt", "/storage/emulated/0/Music"),
        BridgeReply::LaunchFailed("denied".to_string()),
    );
    assert_eq!(
        outcome,
        TransferOutcome {
            source: "a.txt".to_string(),
            destination: "/storage/emulated/0/Music".to_string(),
            reply: BridgeReply::LaunchFailed("denied".to_string()),
        }
    );
}

#[test]
fn clones_keep_their_values() {
    let file = PendingFile { path: "a.txt".to_string() };
    assert_eq!(file.clone(), file);
    let push = request("a.txt", "/storage/emulated/0/");
    assert_eq!(push.clone(), push);
    let reply = BridgeReply::Completed("out".to_string());
    assert_eq!(reply.clone(), reply);
    let reply = BridgeReply::LaunchFailed("why".to_string());
    assert_eq!(reply.clone(), reply);
}
