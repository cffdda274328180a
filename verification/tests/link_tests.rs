use parse_api_tokens::api::ApiEntry;
use parse_api_tokens::link::{link_apis, link_snapshots, linked_copy, Submodule, VersionSnapshot};

fn entry(impl_sig: &str, api: &str) -> ApiEntry {
    ApiEntry {
        submodule: String::from("alloc::arc::Arc"),
        impl_sig: String::from(impl_sig),
        api: String::from(api),
        head: String::from("Methods"),
        stability: Vec::new(),
        next_api_index: -1,
    }
}

fn entry_with_index(impl_sig: &str, api: &str, idx: i64) -> ApiEntry {
    let mut e = entry(impl_sig, api);
    e.next_api_index = idx;
    e
}

#[test]
fn test_linker_identical_match_takes_position() {
    // One entry in version i, two in version i+1; the identical counterpart
    // sits at position 1.
    let mut apis = vec![entry("", "fn a()")];
    let next = vec![entry("", "fn b()"), entry("", "fn a()")];
    link_apis(&mut apis, &next);
    assert_eq!(apis[0].next_api_index, 1);
}

#[test]
fn test_linker_identical_first_match_wins() {
    let mut apis = vec![entry("", "fn a()")];
    let next = vec![entry("", "fn a()"), entry("", "fn a()")];
    link_apis(&mut apis, &next);
    assert_eq!(apis[0].next_api_index, 0);
}

#[test]
fn test_linker_equivalent_fallback() {
    // No byte-identical counterpart, but a structurally equivalent one.
    let mut apis = vec![entry("impl<T> Iterator for Drain<'_, T>", "fn next(&mut self) -> Option<T>")];
    let next = vec![
        entry("impl<T> Iterator for Chunks<'_, T>", "fn next(&mut self) -> Option<T>"),
        entry("impl<U> Iterator for Drain<'_, U>", "fn next(&mut self) -> Option<U>"),
    ];
    link_apis(&mut apis, &next);
    assert_eq!(apis[0].next_api_index, 1);
}

#[test]
fn test_linker_equivalent_first_match_policy() {
    // Two structurally equivalent candidates: the first in list order wins.
    let mut apis = vec![entry("impl<T> Clone for Box<T>", "fn clone(&self) -> Self")];
    let next = vec![
        entry("impl<U> Clone for Box<U>", "fn clone(&self) -> Box<U>"),
        entry("impl<V> Clone for Box<V>", "fn clone(&self) -> Box<V>"),
    ];
    link_apis(&mut apis, &next);
    assert_eq!(apis[0].next_api_index, 0);
}

#[test]
fn test_linker_identity_beats_equivalence() {
    // An identical counterpart later in the list beats an equivalent one
    // earlier: the identity pass runs first.
    let mut apis = vec![entry("impl<T> Clone for Box<T>", "fn clone(&self) -> Self")];
    let next = vec![
        entry("impl<U> Clone for Box<U>", "fn clone(&self) -> Box<U>"),
        entry("impl<T> Clone for Box<T>", "fn clone(&self) -> Self"),
    ];
    link_apis(&mut apis, &next);
    assert_eq!(apis[0].next_api_index, 1);
}

#[test]
fn test_linker_removal_keeps_sentinel() {
    let mut apis = vec![entry("", "fn gone()")];
    let next = vec![entry("", "fn other()"), entry("impl<T> Arc<T>", "fn gone()")];
    link_apis(&mut apis, &next);
    assert_eq!(apis[0].next_api_index, -1);
}

#[test]
fn test_linker_empty_next_version() {
    let mut apis = vec![entry("", "fn a()"), entry("", "fn b()")];
    let next: Vec<ApiEntry> = Vec::new();
    link_apis(&mut apis, &next);
    assert_eq!(apis[0].next_api_index, -1);
    assert_eq!(apis[1].next_api_index, -1);
}

#[test]
fn test_linker_resolved_entry_untouched() {
    let mut apis = vec![entry_with_index("", "fn a()", 7)];
    let next = vec![entry("", "fn a()")];
    link_apis(&mut apis, &next);
    assert_eq!(apis[0].next_api_index, 7);
}

#[test]
fn test_linker_preserves_text_fields() {
    let mut apis = vec![entry("impl<T> Arc<T>", "fn try_unwrap(this: Self) -> Result<T, Self>")];
    let next = vec![entry("impl<T> Arc<T>", "fn try_unwrap(this: Self) -> Result<T, Self>")];
    link_apis(&mut apis, &next);
    assert_eq!(apis.len(), 1);
    assert_eq!(apis[0].submodule, "alloc::arc::Arc");
    assert_eq!(apis[0].impl_sig, "impl<T> Arc<T>");
    assert_eq!(apis[0].api, "fn try_unwrap(this: Self) -> Result<T, Self>");
    assert_eq!(apis[0].head, "Methods");
    assert_eq!(apis[0].next_api_index, 0);
}

#[test]
fn test_linked_copy_leaves_input_alone() {
    let apis = vec![entry("", "fn a()")];
    let next = vec![entry("", "fn a()")];
    let out = linked_copy(&apis, &next);
    assert_eq!(apis[0].next_api_index, -1);
    assert_eq!(out[0].next_api_index, 0);
}

#[test]
fn test_link_snapshots_joins_by_path() {
    let sub = |path: &str, apis: Vec<ApiEntry>| Submodule {
        submodule_path: String::from(path),
        plain_apis: apis,
    };
    let mut cur = VersionSnapshot {
        submodules: vec![
            sub("core::iter", vec![entry("", "fn a()")]),
            sub("core::mem", vec![entry("", "fn m()")]),
        ],
    };
    let next = VersionSnapshot {
        submodules: vec![sub("core::iter", vec![entry("", "fn b()"), entry("", "fn a()")])],
    };
    link_snapshots(&mut cur, &next);
    // `core::iter` was present on both sides and gets linked.
    assert_eq!(cur.submodules[0].plain_apis[0].next_api_index, 1);
    // `core::mem` is absent from the next version and is skipped.
    assert_eq!(cur.submodules[1].plain_apis[0].next_api_index, -1);
    assert_eq!(cur.submodules[1].submodule_path, "core::mem");
}
