use parse_api_tokens::api::{compare_api, is_api_same, is_api_similar, ApiEntry};
use parse_api_tokens::sig::ApiSignature;
use parse_api_tokens::parse::parse_api;

fn chars(s: &str) -> Vec<char> {
    s.chars().collect()
}

fn entry(impl_sig: &str, api: &str) -> ApiEntry {
    ApiEntry {
        submodule: String::from("collections::fmt::RadixFmt"),
        impl_sig: String::from(impl_sig),
        api: String::from(api),
        head: String::from("Methods"),
        stability: Vec::new(),
        next_api_index: -1,
    }
}

#[test]
fn test_num() {
    println!("!!{:>5}!!", 1);
}

#[test]
fn test_parse_single_api() {
    let api = "fn min_by_key<B, F>(self, f: F) -> Option<Self::Item> -> B {}";
    let item = parse_api(api);
    assert!(item.is_some());
    println!("{:#?}", item);
}

#[test]
fn test_parse_fn_name_extraction() {
    match parse_api("fn min_by_key<B, F>(self, f: F) -> Option<Self::Item>") {
        Some(ApiSignature::FnTy(f)) => assert_eq!(f.name, chars("min_by_key")),
        other => panic!("expected a function shape, got {:?}", other),
    }
    match parse_api("pub const unsafe fn transmute_copy<Src, Dst>(src: &Src) -> Dst") {
        Some(ApiSignature::FnTy(f)) => assert_eq!(f.name, chars("transmute_copy")),
        other => panic!("expected a function shape, got {:?}", other),
    }
    match parse_api("pub(crate) fn shrink(&mut self)") {
        Some(ApiSignature::FnTy(f)) => assert_eq!(f.name, chars("shrink")),
        other => panic!("expected a function shape, got {:?}", other),
    }
    match parse_api("extern \"C\" fn callback(data: *mut u8)") {
        Some(ApiSignature::FnTy(f)) => assert_eq!(f.name, chars("callback")),
        other => panic!("expected a function shape, got {:?}", other),
    }
}

#[test]
fn test_parse_impl_structure() {
    match parse_api("impl<'a, T> Iterator for Drain<'a, T>") {
        Some(ApiSignature::ImplTy(im)) => {
            assert_eq!(im.trait_name, chars("Iterator"));
            assert_eq!(im.struct_name, chars("Drain"));
            assert_eq!(im.trait_generics.len(), 0);
            assert_eq!(im.struct_generics.len(), 2);
            assert_eq!(im.generics.len(), 2);
        },
        other => panic!("expected an impl shape, got {:?}", other),
    }
}

#[test]
fn test_parse_unstructured_fragments() {
    assert!(parse_api("type Output = Wrapping<usize>::Output;").is_none());
    assert!(parse_api("").is_none());
    assert!(parse_api("impl Foo").is_none());
    assert!(parse_api("impl<T> Drop for &'a mut Guard<T>").is_none());
    assert!(parse_api("struct Thing { value: u8 }").is_none());
}

#[test]
fn test_reflexivity_samples() {
    let samples = [
        "impl<T, '_> Iterator for Drain<'_, T>",
        "fn cmp(&self, other: &Box<T>) -> Ordering",
        "type Output = Wrapping<usize>::Output;",
        "not a signature at all ???",
        "",
    ];
    for s in samples {
        assert!(compare_api(s, s), "not reflexive on {:?}", s);
    }
}

#[test]
fn test_symmetry_samples() {
    let pairs = [
        ("impl<T> Trait for S<T>", "impl<U> Trait for S<U>"),
        ("impl<T, U> Into for T", "impl<T, U> Into<T, U> for T"),
        ("fn a()", "fn b()"),
        ("garbage one", "garbage two"),
    ];
    for (a, b) in pairs {
        assert_eq!(compare_api(a, b), compare_api(b, a), "not symmetric on {:?} / {:?}", a, b);
    }
}

#[test]
fn test_generic_name_invariance() {
    assert!(compare_api("impl<T> Trait for S<T>", "impl<U> Trait for S<U>"));
}

#[test]
fn test_lifetime_elision_invariance() {
    assert!(compare_api("impl<'a, T> Trait for S<'a, T>", "impl<T> Trait for S<'_, T>"));
}

#[test]
fn test_trait_argument_sensitivity() {
    assert!(!compare_api(
        "impl<T, U> Into for T where U: From<T>",
        "impl<T, U> Into<T, U> for T where U: From<T>",
    ));
    assert!(!compare_api(
        "impl<'a, F> Pattern for F where F: FnMut(char) -> bool",
        "impl<'a, F> Pattern<'a> for F where F: FnMut(char) -> bool",
    ));
}

#[test]
fn test_where_clause_irrelevance() {
    assert!(compare_api(
        "fn collect<B>(self) -> B where B: FromIterator<Self::Item>",
        "fn collect<B>(self) -> B",
    ));
    assert!(compare_api(
        "fn min_by_key<B, F>(self, f: F) -> Option<Self::Item> where B: Ord, F: FnMut(&Self::Item) -> B",
        "fn min_by_key<B, F>(self, f: F) -> Option<Self::Item>",
    ));
    assert!(compare_api(
        "impl<T, R> Clone for RadixFmt<T, R> where R: Clone + Clone, T: Clone + Clone",
        "impl<T, R> Clone for RadixFmt<T, R> where R: Clone, T: Clone",
    ));
}

#[test]
fn test_name_only_function_equivalence() {
    assert!(compare_api(
        "fn cmp(&self, other: &Box<T>) -> Ordering",
        "fn cmp(&self, other: &Q) -> i32",
    ));
    assert!(compare_api(
        "fn clone_from(&mut self, source: &Self)",
        "fn clone_from(&mut self, source: &Self)",
    ));
    assert!(!compare_api("fn cmp(&self, other: &Box<T>) -> Ordering", "fn clone_from(&mut self)"));
}

#[test]
fn test_drain_lifetime_variants_equivalent() {
    assert!(compare_api(
        "impl<T, '_> Iterator for Drain<'_, T>",
        "impl<'_, T> Iterator for Drain<'_, T>",
    ));
    assert!(compare_api(
        "impl<'a, T> Iterator for Drain<'a, T>",
        "impl<T, '_> Iterator for Drain<'_, T>",
    ));
}

#[test]
fn test_reference_argument_compared_structurally() {
    assert!(compare_api(
        "impl<'_> Add<&'_ Wrapping<i128>> for Wrapping<i128>",
        "impl Add<&'_ Wrapping<i128>> for Wrapping<i128>",
    ));
    assert!(!compare_api(
        "impl<'_> Add<&'_ Wrapping<i128>> for Wrapping<i128>",
        "impl Add<&'_ Wrapping<i64>> for Wrapping<i128>",
    ));
}

#[test]
fn test_bound_noise_in_declarations_equivalent() {
    assert!(compare_api(
        "impl<K: Ord, Q: ?Sized, V, '_> Index<&'_ Q> for BTreeMap<K, V> where K: Borrow<Q>, Q: Ord",
        "impl<'_, K: Ord, Q: ?Sized, V> Index<&'_ Q> for BTreeMap<K, V> where K: Borrow<Q>, Q: Ord",
    ));
}

#[test]
fn test_type_alias_falls_back_to_text() {
    assert!(!compare_api(
        "type Output = Wrapping<usize>::Output;",
        "type Output = <Wrapping<usize> as Add<Wrapping<usize>>>::Output;",
    ));
    assert!(compare_api(
        "type Output = Wrapping<usize>::Output;",
        "type Output = Wrapping<usize>::Output;",
    ));
}

#[test]
fn test_mixed_shapes_fall_back_to_text() {
    assert!(!compare_api("fn cmp(&self) -> Ordering", "impl<T> Ord for Box<T>"));
}

#[test]
fn test_different_trait_or_self_names_not_equivalent() {
    assert!(!compare_api("impl<T> Clone for Box<T>", "impl<T> Ord for Box<T>"));
    assert!(!compare_api("impl<T> Clone for Box<T>", "impl<T> Clone for Rc<T>"));
}

#[test]
fn test_is_api_same() {
    let a = entry("impl<T> Arc<T>", "fn try_unwrap(this: Self) -> Result<T, Self>");
    let b = entry("impl<T> Arc<T>", "fn try_unwrap(this: Self) -> Result<T, Self>");
    let c = entry("impl<T> Arc<T>", "fn try_unwrap(other: Self) -> Result<T, Self>");
    assert!(is_api_same(&a, &b));
    assert!(!is_api_same(&a, &c));
}

#[test]
fn test_is_api_similar_requires_both_parts() {
    let a = entry("impl<T> Iterator for Drain<'_, T>", "fn next(&mut self) -> Option<T>");
    let b = entry("impl<U> Iterator for Drain<'_, U>", "fn next(&mut self) -> Option<U>");
    let c = entry("impl<U> Iterator for Drain<'_, U>", "fn size_hint(&self) -> (usize, Option<usize>)");
    let d = entry("impl<U> DoubleEndedIterator for Drain<'_, U>", "fn next(&mut self) -> Option<U>");
    assert!(is_api_similar(&a, &b));
    assert!(!is_api_similar(&a, &c));
    assert!(!is_api_similar(&a, &d));
}

#[test]
fn test_non_path_self_type_falls_back_to_text() {
    // A self type that is not a plain named path (here a reference) has no
    // canonical form: the verdict degrades to verbatim text comparison.
    assert!(!compare_api(
        "impl<'a> Neg for &'a Wrapping<usize>",
        "impl<'_> Neg for &'_ Wrapping<usize>",
    ));
    assert!(compare_api(
        "impl<'a> Neg for &'a Wrapping<usize>",
        "impl<'a> Neg for &'a Wrapping<usize>",
    ));
}

#[test]
fn test_impl_prefix_must_be_exact() {
    // `implx` is not the `impl` keyword and the fragment is not a function
    // declaration either, so only identical text compares equal.
    assert!(compare_api("implx Trait for S", "implx Trait for S"));
    assert!(!compare_api("implx Trait for S", "implx Trait for T"));
}

#[test]
fn test_const_generic_arguments_are_ignored() {
    // A literal constant argument carries no name to canonicalize and is
    // skipped, so only the named arguments decide.
    assert!(compare_api("impl<T> Foo<3, T> for Bar<T>", "impl<U> Foo<3, U> for Bar<U>"));
    assert!(compare_api("impl<T> Default for [T; 32]", "impl<T> Default for [T; 32]"));
}

#[test]
fn test_nested_argument_names_not_erased() {
    // Canonicalization rewrites only an argument's leading identifier; names
    // nested one level deeper still distinguish.
    assert!(!compare_api(
        "impl<T> From<Simd<T, 4>> for Wrapper<T>",
        "impl<U> From<Simd<U, 4>> for Wrapper<U>",
    ));
}

#[test]
fn test_whitespace_differences_inside_arguments() {
    assert!(compare_api(
        "impl<T> Iterator for Drain<'_,T>",
        "impl<T> Iterator for Drain<'_, T>",
    ));
}

#[test]
fn test_associated_type_bindings_are_ignored() {
    assert!(compare_api(
        "impl<I> Extend<u8> for Wrapper<I, Item = u8>",
        "impl<J> Extend<u8> for Wrapper<J, Item = u8>",
    ));
}
