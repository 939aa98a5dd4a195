//! Tests for the textual vector split.

use splat_render::vector_text::{split_str_as_three_components, VectorTextError};

#[test]
fn splits_plain_triple() {
    let (x, y, z) = split_str_as_three_components("1,2.5,3").unwrap();
    assert_eq!((x.as_str(), y.as_str(), z.as_str()), ("1", "2.5", "3"));
}

#[test]
fn splits_parenthesized_triple() {
    let (x, y, z) = split_str_as_three_components("(1,2.0,-3.1)").unwrap();
    assert_eq!((x.as_str(), y.as_str(), z.as_str()), ("1", "2.0", "-3.1"));
}

#[test]
fn third_component_keeps_further_commas() {
    let (x, y, z) = split_str_as_three_components("1,2,3,4").unwrap();
    assert_eq!((x.as_str(), y.as_str(), z.as_str()), ("1", "2", "3,4"));
}

#[test]
fn components_may_be_empty() {
    let (x, y, z) = split_str_as_three_components("((1,,2))").unwrap();
    assert_eq!((x.as_str(), y.as_str(), z.as_str()), ("1", "", "2"));
}

#[test]
fn too_few_components_fail() {
    assert_eq!(
        split_str_as_three_components("1,2"),
        Err(VectorTextError::MissingComponents)
    );
    assert_eq!(
        split_str_as_three_components("12"),
        Err(VectorTextError::MissingComponents)
    );
    assert_eq!(
        split_str_as_three_components(""),
        Err(VectorTextError::MissingComponents)
    );
}
