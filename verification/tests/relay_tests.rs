use pake::relay::{download_completed, download_started, Relay, RelayEvent};

#[test]
fn recv_on_empty_is_none() {
    let mut relay = Relay::new();
    assert!(relay.recv().is_none());
    assert_eq!(relay.len(), 0);
}

#[test]
fn events_arrive_in_send_order() {
    let mut relay = Relay::new();
    let a = RelayEvent::DownloadStarted {
        uri: "https://example.com/a".to_string(),
        destination: "/tmp/a".to_string(),
    };
    let b = RelayEvent::DownloadStarted {
        uri: "https://example.com/b".to_string(),
        destination: "/tmp/b".to_string(),
    };
    relay.send(a.clone());
    relay.send(b.clone());
    assert_eq!(relay.len(), 2);
    assert_eq!(relay.recv(), Some(a));
    assert_eq!(relay.recv(), Some(b));
    assert_eq!(relay.recv(), None);
}

#[test]
fn mixed_events_keep_order() {
    let mut relay = Relay::new();
    download_completed(&mut relay, Some("/tmp/x".to_string()), true);
    download_completed(&mut relay, None, false);
    assert_eq!(
        relay.recv(),
        Some(RelayEvent::DownloadCompleted { path: Some("/tmp/x".to_string()), success: true })
    );
    assert_eq!(relay.recv(), Some(RelayEvent::DownloadCompleted { path: None, success: false }));
}

#[test]
fn download_started_resolves_under_downloads_dir() {
    let mut relay = Relay::new();
    let r = download_started(&mut relay, "https://example.com/f.bin".to_string(), "f.bin");
    match r {
        Some(path) => {
            assert!(path.ends_with("/f.bin"));
            match relay.recv() {
                Some(RelayEvent::DownloadStarted { uri, destination }) => {
                    assert_eq!(uri, "https://example.com/f.bin");
                    assert_eq!(destination, path);
                },
                other => panic!("expected the started notification, got {:?}", other),
            }
        },
        None => {
            // No downloads directory on this machine: fatal for the request,
            // nothing relayed.
            assert!(relay.recv().is_none());
        },
    }
}
