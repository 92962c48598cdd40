use std::sync::Arc;
use streambridge::{Lookup, ReceiverManager, RecvBandwidth, RecvColorFormat, Source};

fn source(name: &str) -> Source {
    Source { name: name.to_string(), url: None }
}

#[test]
fn new_registry_is_empty_and_keeps_its_settings() {
    let manager: ReceiverManager<u32> = ReceiverManager::new(75, 25);
    assert_eq!(manager.len(), 0);
    assert_eq!(manager.jpeg_quality(), 75);
    assert_eq!(manager.max_fps(), 25);
    assert!(manager.get("CAM1").is_none());
    assert!(manager.active_stats().is_empty());
}

#[test]
fn unknown_source_gets_a_plan() {
    let manager: ReceiverManager<u32> = ReceiverManager::new(80, 30);
    match manager.get_or_create(&source("CAM1")) {
        Lookup::Create(plan) => {
            assert_eq!(plan.bandwidth, RecvBandwidth::Highest);
            assert_eq!(plan.color_format, RecvColorFormat::Fastest);
            assert_eq!(plan.channel_capacity, 4);
            assert_eq!(plan.thread_name, "ndi-recv-CAM1");
            assert_eq!(plan.jpeg_quality, 80);
            assert_eq!(plan.max_fps, 30);
        }
        Lookup::Existing(_) => panic!("nothing is registered yet"),
    }
    assert_eq!(manager.len(), 0);
}

#[test]
fn thread_name_carries_the_whole_source_name() {
    let manager: ReceiverManager<u32> = ReceiverManager::new(75, 25);
    match manager.get_or_create(&source("STUDIO-PC (Camera 1)")) {
        Lookup::Create(plan) => assert_eq!(plan.thread_name, "ndi-recv-STUDIO-PC (Camera 1)"),
        Lookup::Existing(_) => panic!("nothing is registered yet"),
    }
    match manager.get_or_create(&source("")) {
        Lookup::Create(plan) => assert_eq!(plan.thread_name, "ndi-recv-"),
        Lookup::Existing(_) => panic!("nothing is registered yet"),
    }
}

#[test]
fn registered_source_is_shared() {
    let mut manager: ReceiverManager<u32> = ReceiverManager::new(75, 25);
    assert_eq!(manager.register("CAM1".to_string(), 11), None);
    assert_eq!(manager.register("CAM2".to_string(), 22), None);
    assert_eq!(manager.len(), 2);
    match manager.get_or_create(&source("CAM2")) {
        Lookup::Existing(handle) => assert_eq!(*handle, 22),
        Lookup::Create(_) => panic!("CAM2 is registered"),
    }
    match manager.get_or_create(&source("CAM1")) {
        Lookup::Existing(handle) => assert_eq!(*handle, 11),
        Lookup::Create(_) => panic!("CAM1 is registered"),
    }
    assert_eq!(manager.get("CAM1"), Some(&11));
    assert_eq!(manager.get("CAM2"), Some(&22));
    assert_eq!(manager.get("CAM3"), None);
    assert_eq!(manager.get("cam1"), None);
    assert_eq!(manager.get("CAM"), None);
}

#[test]
fn registering_a_name_again_replaces_the_handle() {
    let mut manager: ReceiverManager<u32> = ReceiverManager::new(75, 25);
    manager.register("CAM1".to_string(), 1);
    manager.register("CAM2".to_string(), 2);
    assert_eq!(manager.register("CAM1".to_string(), 3), Some(1));
    assert_eq!(manager.len(), 2);
    assert_eq!(manager.get("CAM1"), Some(&3));
    assert_eq!(manager.get("CAM2"), Some(&2));
}

/// What a subscriber does under the registry lock.
fn request(manager: &mut ReceiverManager<Arc<String>>, name: &str, created: &mut u32) -> Arc<String> {
    let found = match manager.get_or_create(&source(name)) {
        Lookup::Existing(handle) => Some(handle.clone()),
        Lookup::Create(_) => None,
    };
    match found {
        Some(handle) => handle,
        None => {
            *created += 1;
            let handle = Arc::new(format!("worker {} of {}", created, name));
            manager.register(name.to_string(), handle.clone());
            handle
        }
    }
}

#[test]
fn hundred_requests_create_one_receiver() {
    let mut manager: ReceiverManager<Arc<String>> = ReceiverManager::new(75, 25);
    let mut created = 0;
    let first = request(&mut manager, "CAM1", &mut created);
    for _ in 1..100 {
        let again = request(&mut manager, "CAM1", &mut created);
        assert!(Arc::ptr_eq(&first, &again));
    }
    assert_eq!(created, 1);
    assert_eq!(manager.len(), 1);
    assert_eq!(*first, "worker 1 of CAM1");
    // Another source gets a receiver of its own.
    let other = request(&mut manager, "CAM2", &mut created);
    assert!(!Arc::ptr_eq(&first, &other));
    assert_eq!(created, 2);
    assert_eq!(manager.len(), 2);
}

#[test]
fn remove_hands_the_handle_back() {
    let mut manager: ReceiverManager<u32> = ReceiverManager::new(75, 25);
    manager.register("CAM1".to_string(), 1);
    manager.register("CAM2".to_string(), 2);
    manager.register("CAM3".to_string(), 3);
    assert_eq!(manager.remove("CAM2"), Some(2));
    assert_eq!(manager.remove("CAM2"), None);
    assert_eq!(manager.len(), 2);
    assert_eq!(manager.get("CAM1"), Some(&1));
    assert_eq!(manager.get("CAM2"), None);
    assert_eq!(manager.get("CAM3"), Some(&3));
    assert_eq!(manager.remove("CAM9"), None);
    assert_eq!(manager.len(), 2);
    // After its removal a source is created anew.
    assert!(matches!(manager.get_or_create(&source("CAM2")), Lookup::Create(_)));
}

#[test]
fn maybe_remove_needs_zero_clients() {
    let mut manager: ReceiverManager<u32> = ReceiverManager::new(75, 25);
    manager.register("CAM1".to_string(), 1);
    assert_eq!(manager.maybe_remove("CAM1", 2), None);
    assert_eq!(manager.maybe_remove("CAM1", 1), None);
    assert_eq!(manager.maybe_remove("CAM1", u64::MAX), None);
    assert_eq!(manager.get("CAM1"), Some(&1));
    assert_eq!(manager.maybe_remove("CAM2", 0), None);
    assert_eq!(manager.len(), 1);
    assert_eq!(manager.maybe_remove("CAM1", 0), Some(1));
    assert_eq!(manager.len(), 0);
    assert_eq!(manager.maybe_remove("CAM1", 0), None);
}

#[test]
fn active_stats_lists_every_receiver_once() {
    let mut manager: ReceiverManager<u32> = ReceiverManager::new(75, 25);
    manager.register("CAM1".to_string(), 1);
    manager.register("CAM2".to_string(), 2);
    manager.register("CAM3".to_string(), 3);
    manager.register("CAM2".to_string(), 20);
    manager.remove("CAM1");
    let mut active: Vec<(String, u32)> =
        manager.active_stats().into_iter().map(|(name, handle)| (name, *handle)).collect();
    active.sort();
    assert_eq!(active, vec![("CAM2".to_string(), 20), ("CAM3".to_string(), 3)]);
}
