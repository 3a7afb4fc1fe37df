use llmo_tools::context::{ContextManager, SetContextArgs};

fn set_args(key: &str, content: &str) -> SetContextArgs {
    SetContextArgs { key: key.to_string(), content: content.to_string() }
}

#[test]
fn empty_store_renders_the_sentinel() {
    let store = ContextManager::new();
    assert_eq!(store.get_all_context(), "No context stored yet.");
}

#[test]
fn two_keys_render_under_uppercased_headers() {
    let mut store = ContextManager::new();
    let m1 = store.set_context(&set_args("k1", "v1"));
    assert_eq!(
        m1,
        "Successfully stored 'k1' in context. Context now contains 1 items."
    );
    let m2 = store.set_context(&set_args("k2", "v2"));
    assert_eq!(
        m2,
        "Successfully stored 'k2' in context. Context now contains 2 items."
    );
    let all = store.get_all_context();
    assert!(all.starts_with("=== CURRENT CONTEXT ===\n\n"));
    assert!(all.contains("--- K1 ---\nv1\n\n"));
    assert!(all.contains("--- K2 ---\nv2\n\n"));
}

#[test]
fn setting_an_existing_key_overwrites_in_place() {
    let mut store = ContextManager::new();
    store.set_context(&set_args("key", "old"));
    store.set_context(&set_args("other", "kept"));
    let m = store.set_context(&set_args("key", "new"));
    assert_eq!(
        m,
        "Successfully stored 'key' in context. Context now contains 2 items."
    );
    let all = store.get_all_context();
    assert!(all.contains("--- KEY ---\nnew\n\n"));
    assert!(!all.contains("old"));
    // Overwriting keeps the entry's place: KEY still renders before OTHER.
    let key_at = all.find("--- KEY ---").unwrap();
    let other_at = all.find("--- OTHER ---").unwrap();
    assert!(key_at < other_at);
}

#[test]
fn exact_rendering_of_one_entry() {
    let mut store = ContextManager::new();
    store.set_context(&set_args("notes", "alpha\nbeta"));
    assert_eq!(
        store.get_all_context(),
        "=== CURRENT CONTEXT ===\n\n--- NOTES ---\nalpha\nbeta\n\n"
    );
}
