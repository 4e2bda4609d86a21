use tailwind_fuse::collision_id::get_collision_id;
use tailwind_fuse::collisions::get_collisions;

fn elems(parts: &[&str]) -> Vec<String> {
    parts.iter().map(|s| s.to_string()).collect()
}

#[test]
fn classify_padding_family() {
    assert_eq!(get_collision_id(&elems(&["p", "4"])), Some("padding".to_string()));
    assert_eq!(get_collision_id(&elems(&["px", "4"])), Some("padding-x".to_string()));
    assert_eq!(get_collision_id(&elems(&["pt", "1"])), Some("padding-top".to_string()));
}

#[test]
fn classify_prefers_specific_shapes() {
    assert_eq!(get_collision_id(&elems(&["text", "ellipsis"])), Some("text-overflow".to_string()));
    assert_eq!(get_collision_id(&elems(&["text", "center"])), Some("text-align".to_string()));
    assert_eq!(get_collision_id(&elems(&["text", "lg"])), Some("font-size".to_string()));
    assert_eq!(get_collision_id(&elems(&["text", "red", "500"])), Some("text-color".to_string()));
    assert_eq!(get_collision_id(&elems(&["flex"])), Some("display".to_string()));
    assert_eq!(get_collision_id(&elems(&["flex", "row"])), Some("flex-direction".to_string()));
    assert_eq!(get_collision_id(&elems(&["border", "2"])), Some("border-width".to_string()));
    assert_eq!(get_collision_id(&elems(&["border", "red", "500"])), Some("border-color".to_string()));
}

#[test]
fn classify_unknown_is_none() {
    assert_eq!(get_collision_id(&elems(&["myclass"])), None);
    assert_eq!(get_collision_id(&elems(&[])), None);
}

#[test]
fn collisions_of_padding() {
    let c = get_collisions("padding").unwrap();
    assert_eq!(
        c,
        vec![
            "padding-x".to_string(),
            "padding-y".to_string(),
            "padding-top".to_string(),
            "padding-right".to_string(),
            "padding-bottom".to_string(),
            "padding-left".to_string(),
        ]
    );
}

#[test]
fn collisions_of_narrow_groups() {
    assert_eq!(
        get_collisions("padding-x").unwrap(),
        vec!["padding-right".to_string(), "padding-left".to_string()]
    );
    assert!(get_collisions("padding-top").is_none());
    assert!(get_collisions("text-color").is_none());
}
