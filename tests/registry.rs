use supervisor::registry::Registry;

#[test]
fn set_then_get() {
    let mut r: Registry<u32> = Registry::new();
    assert!(r.set("ollama".to_string(), 7).is_none());
    assert_eq!(r.get(&"ollama".to_string()), Some(&7));
    assert_eq!(r.get(&"backend".to_string()), None);
    assert_eq!(r.len(), 1);
}

#[test]
fn set_twice_displaces_first_handle() {
    let mut r: Registry<u32> = Registry::new();
    assert_eq!(r.set("ollama".to_string(), 1), None);
    assert_eq!(r.set("ollama".to_string(), 2), Some(1));
    assert_eq!(r.get(&"ollama".to_string()), Some(&2));
    assert_eq!(r.len(), 1);
    assert_eq!(r.set("ollama".to_string(), 3), Some(2));
}

#[test]
fn terminate_all_drains_every_entry() {
    let mut r: Registry<u32> = Registry::new();
    r.set("a".to_string(), 1);
    r.set("b".to_string(), 2);
    r.set("c".to_string(), 3);
    r.set("b".to_string(), 4);
    let drained = r.terminate_all();
    assert_eq!(drained.len(), 3);
    let mut handles: Vec<u32> = drained.iter().map(|s| s.handle).collect();
    handles.sort();
    assert_eq!(handles, vec![1, 3, 4]);
    assert_eq!(r.len(), 0);
    assert_eq!(r.get(&"a".to_string()), None);
}

#[test]
fn terminate_all_on_empty_registry() {
    let mut r: Registry<u32> = Registry::new();
    assert!(r.terminate_all().is_empty());
    assert_eq!(r.len(), 0);
}

#[test]
fn every_termination_attempted_despite_failures() {
    let mut r: Registry<u32> = Registry::new();
    for i in 0..5u32 {
        r.set(format!("svc{}", i), i);
    }
    let mut attempted: Vec<u32> = Vec::new();
    let mut failures = 0;
    for slot in r.terminate_all() {
        attempted.push(slot.handle);
        if slot.handle == 1 {
            failures += 1;
        }
    }
    attempted.sort();
    assert_eq!(attempted, vec![0, 1, 2, 3, 4]);
    assert_eq!(failures, 1);
    assert_eq!(r.len(), 0);
}
