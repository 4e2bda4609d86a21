use tailwind_fuse::arbitrary::TailwindArbitrary;
use tailwind_fuse::text_overflow::TailwindInstance;
use tailwind_fuse::text_overflow::TailwindTextOverflow;
use tailwind_fuse::text_overflow::TextOverflow;
use tailwind_fuse::theme::construct_theme_container;
use tailwind_fuse::theme::resolve_theme_class;
use tailwind_fuse::theme::theme_class_lookup;
use tailwind_fuse::theme::ThemeEntry;

#[test]
fn text_overflow_check_valid() {
    assert!(TailwindTextOverflow::check_valid("clip"));
    assert!(TailwindTextOverflow::check_valid("ellipsis"));
    assert!(TailwindTextOverflow::check_valid("inherit"));
    assert!(!TailwindTextOverflow::check_valid("fancy"));
    assert!(!TailwindTextOverflow::check_valid(""));
}

#[test]
fn text_overflow_parse() {
    let none = TailwindArbitrary::new(String::new());
    let parsed = TailwindTextOverflow::parse(&["ellipsis"], &none).unwrap();
    assert!(matches!(parsed.kind, TextOverflow::Standard(s) if s == "ellipsis"));
    let arb = TailwindArbitrary::new("fade".to_string());
    let parsed = TailwindTextOverflow::parse(&[], &arb).unwrap();
    assert!(matches!(parsed.kind, TextOverflow::Arbitrary));
    assert!(matches!(
        TailwindTextOverflow::truncate().kind,
        TextOverflow::Truncate
    ));
}

#[test]
fn text_overflow_instance() {
    let t = TailwindTextOverflow::truncate();
    assert_eq!(t.collision_id(), "text-overflow");
    assert!(t.get_collisions().is_empty());
}

fn entry(name: Option<&str>, class: Option<&str>) -> ThemeEntry {
    ThemeEntry {
        name: name.map(|s| s.to_string()),
        class: class.map(|s| s.to_string()),
    }
}

#[test]
fn theme_container_groups_by_name() {
    let entries = vec![
        entry(None, Some("flex")),
        entry(Some("default"), Some("flex-col")),
        entry(None, Some("items-center")),
    ];
    let dict = construct_theme_container(&entries);
    assert_eq!(
        dict,
        vec![
            ("base".to_string(), "flex items-center".to_string()),
            ("default".to_string(), "flex-col".to_string()),
        ]
    );
}

#[test]
fn theme_lookup() {
    let entries = vec![entry(None, Some("flex")), entry(Some("dark"), Some("bg-black"))];
    let dict = construct_theme_container(&entries);
    assert_eq!(theme_class_lookup(&dict, "base"), "flex");
    assert_eq!(theme_class_lookup(&dict, "dark"), "bg-black");
    assert_eq!(theme_class_lookup(&dict, "missing"), "");
}

#[test]
fn theme_resolution_merges_in_order() {
    let entries = vec![entry(None, Some("flex p-2"))];
    let dict = construct_theme_container(&entries);
    assert_eq!(
        resolve_theme_class(&dict, None, &["p-4"], ""),
        "flex p-4"
    );
    assert_eq!(
        resolve_theme_class(&dict, None, &["p-4"], "bg-red-500 p-8"),
        "flex bg-red-500 p-8"
    );
    assert_eq!(resolve_theme_class(&dict, Some("missing"), &[], "m-1"), "m-1");
}
