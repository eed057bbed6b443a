use rs_query::sharing::replace_equal_deep;
use std::sync::Arc;

#[test]
fn test_structural_sharing_keeps_same_arc_when_equal() {
    let old = Arc::new(vec![1, 2, 3]);
    let new = Arc::new(vec![1, 2, 3]);
    let result = replace_equal_deep(old.clone(), new);
    assert!(Arc::ptr_eq(&old, &result));
}

#[test]
fn test_structural_sharing_replaces_when_not_equal() {
    let old = Arc::new(vec![1, 2, 3]);
    let new = Arc::new(vec![4, 5, 6]);
    let result = replace_equal_deep(old.clone(), new.clone());
    assert!(!Arc::ptr_eq(&old, &result));
    assert_eq!(*result, *new);
}

#[test]
fn test_structural_sharing_with_strings() {
    let old = Arc::new("hello".to_string());
    let new = Arc::new("hello".to_string());
    let result = replace_equal_deep(old.clone(), new);
    assert!(Arc::ptr_eq(&old, &result));
}

#[test]
fn test_structural_sharing_with_different_strings() {
    let old = Arc::new("hello".to_string());
    let new = Arc::new("world".to_string());
    let result = replace_equal_deep(old.clone(), new.clone());
    assert!(!Arc::ptr_eq(&old, &result));
    assert_eq!(*result, "world".to_string());
}

#[derive(Clone, PartialEq)]
struct Data {
    id: u32,
    name: String,
    tags: Vec<String>,
}

#[derive(Clone, PartialEq)]
struct Small {
    id: u32,
    name: String,
}

#[test]
fn test_structural_sharing_with_nested_structs() {
    let old = Arc::new(Data {
        id: 1,
        name: "test".to_string(),
        tags: vec!["a".to_string(), "b".to_string()],
    });
    let new = Arc::new(Data {
        id: 1,
        name: "test".to_string(),
        tags: vec!["a".to_string(), "b".to_string()],
    });
    let result = replace_equal_deep(old.clone(), new);
    assert!(Arc::ptr_eq(&old, &result));
}

#[test]
fn test_structural_sharing_with_nested_structs_different() {
    let old = Arc::new(Small {
        id: 1,
        name: "test".to_string(),
    });
    let new = Arc::new(Small {
        id: 2,
        name: "test".to_string(),
    });
    let result = replace_equal_deep(old.clone(), new.clone());
    assert!(!Arc::ptr_eq(&old, &result));
    assert_eq!(result.id, 2);
}
