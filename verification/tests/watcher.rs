use manga_ocr::clipboard::{hash, ClipboardWatcher, TickAction};
use manga_ocr::mode::Mode;
use std::collections::hash_map::DefaultHasher;
use std::hash::{Hash, Hasher};

#[test]
fn hashing_twice_gives_the_same_digest() {
    let bytes = vec![1u8, 2, 3, 250, 0, 0, 9];
    assert_eq!(hash(&bytes), hash(&bytes));
    assert_eq!(hash(&bytes), hash(&bytes.clone()));
}

#[test]
fn hashing_tells_buffers_apart() {
    let corpus: Vec<Vec<u8>> = vec![
        vec![],
        vec![0],
        vec![0, 0],
        vec![1],
        vec![1, 2, 3],
        vec![3, 2, 1],
        vec![1, 2, 4],
        vec![255; 16],
        vec![255; 17],
    ];
    for (i, a) in corpus.iter().enumerate() {
        for (j, b) in corpus.iter().enumerate() {
            if i != j {
                assert_ne!(hash(a), hash(b));
            }
        }
    }
}

#[test]
fn hashing_is_the_default_hasher_over_the_slice() {
    let bytes: &[u8] = &[10, 20, 30, 40];
    let mut hasher = DefaultHasher::new();
    bytes.hash(&mut hasher);
    assert_eq!(hash(bytes), hasher.finish());
    assert_ne!(hash(bytes), DefaultHasher::new().finish());
}

#[test]
fn same_image_on_three_ticks_runs_once() {
    let image = vec![9u8; 64];
    let mut watcher = ClipboardWatcher::new(None);
    assert_eq!(watcher.last_hash(), None);
    assert_eq!(watcher.tick(Some(&image)), TickAction::Recognize);
    assert_eq!(watcher.last_hash(), Some(hash(&image)));
    assert_eq!(watcher.tick(Some(&image)), TickAction::Skip);
    assert_eq!(watcher.tick(Some(&image)), TickAction::Skip);
    assert_eq!(watcher.last_hash(), Some(hash(&image)));
}

#[test]
fn image_present_on_entry_counts_as_seen() {
    let image = vec![4u8; 16];
    let mut watcher = ClipboardWatcher::new(Some(&image));
    assert_eq!(watcher.last_hash(), Some(hash(&image)));
    assert_eq!(watcher.tick(Some(&image)), TickAction::Skip);
}

#[test]
fn failed_read_is_passed_over() {
    let first = vec![1u8; 8];
    let mut watcher = ClipboardWatcher::new(None);
    assert_eq!(watcher.tick(None), TickAction::Skip);
    assert_eq!(watcher.last_hash(), None);
    assert_eq!(watcher.tick(Some(&first)), TickAction::Recognize);
    assert_eq!(watcher.tick(None), TickAction::Skip);
    assert_eq!(watcher.last_hash(), Some(hash(&first)));
    assert_eq!(watcher.tick(Some(&first)), TickAction::Skip);
}

#[test]
fn changed_image_runs_again() {
    let first = vec![1u8; 8];
    let second = vec![2u8; 8];
    let mut watcher = ClipboardWatcher::new(None);
    assert_eq!(watcher.tick(Some(&first)), TickAction::Recognize);
    assert_eq!(watcher.tick(Some(&second)), TickAction::Recognize);
    assert_eq!(watcher.last_hash(), Some(hash(&second)));
    assert_eq!(watcher.tick(Some(&first)), TickAction::Recognize);
    assert_eq!(watcher.tick(Some(&first)), TickAction::Skip);
}

#[test]
fn mode_labels() {
    assert_eq!(Mode::File.label(), "file");
    assert_eq!(Mode::Clipboard.label(), "clipboard");
    assert_eq!(Mode::default(), Mode::Clipboard);
}
