use tailwind_fuse::merge::Collision;
use tailwind_fuse::merge::CollisionIdFn;
use tailwind_fuse::merge::GetCollisionsFn;
use tailwind_fuse::merge::tw_merge_slice;
use tailwind_fuse::merge::tw_merge_slice_options;
use tailwind_fuse::merge::tw_merge_with_override;
use tailwind_fuse::options::MergeOptions;
use tailwind_fuse::options::MergeOptionsCell;
use tailwind_fuse::tw_join_slice;

#[test]
fn from_arb() {
    assert_eq!(
        Collision::from_arbitrary("color:blue"),
        Some(Collision::Arbitrary {
            important: false,
            variants: Vec::new(),
            label: "color".to_string()
        })
    );
    assert_eq!(Collision::from_arbitrary("blue"), None);
}

#[test]
fn join_basic() {
    assert_eq!(
        "flex items-center justify-center",
        tw_join_slice(&["flex", "items-center", "justify-center"])
    );
}

#[test]
fn join_normalizes_whitespace() {
    assert_eq!("a b c", tw_join_slice(&["  a\tb ", "", "c "]));
}

#[test]
fn merge_broad_evicts_narrow() {
    assert_eq!("p-4", tw_merge_slice(&["py-2 px-4", "p-4"]));
}

#[test]
fn merge_narrow_refines_broad() {
    assert_eq!("p-4 py-2", tw_merge_slice(&["p-4", "py-2"]));
}

#[test]
fn merge_variant_scopes_do_not_conflict() {
    assert_eq!("hover:p-4 p-4", tw_merge_slice(&["hover:p-4", "p-4"]));
}

#[test]
fn merge_importance_scopes_do_not_conflict() {
    assert_eq!("!p-4 p-2", tw_merge_slice(&["!p-4", "p-2"]));
}

#[test]
fn merge_same_variant_conflicts() {
    assert_eq!("hover:p-2", tw_merge_slice(&["hover:p-4", "hover:p-2"]));
}

#[test]
fn merge_arbitrary_labels_exact_match() {
    assert_eq!("[color:red]", tw_merge_slice(&["[color:blue]", "[color:red]"]));
}

#[test]
fn merge_arbitrary_labels_scoped_by_variants() {
    assert_eq!(
        "hover:[color:red] [color:blue]",
        tw_merge_slice(&["hover:[color:red]", "[color:blue]"])
    );
    assert_eq!(
        "![color:red] [color:blue]",
        tw_merge_slice(&["![color:red]", "[color:blue]"])
    );
    assert_eq!(
        "hover:[color:blue]",
        tw_merge_slice(&["hover:[color:red]", "hover:[color:blue]"])
    );
}

#[test]
fn join_splits_unicode_whitespace() {
    assert_eq!("a b", tw_join_slice(&["a\u{00a0}b"]));
    assert_eq!("p-2 p-4", tw_join_slice(&["p-2\u{2003}p-4"]));
}

#[test]
fn merge_arbitrary_without_label_is_opaque() {
    assert_eq!("[blue] [red]", tw_merge_slice(&["[blue]", "[red]"]));
}

#[test]
fn merge_opaque_tokens_pass_through() {
    assert_eq!("my-widget p-2", tw_merge_slice(&["my-widget", "p-4", "p-2"]));
}

#[test]
fn merge_same_group_last_wins() {
    assert_eq!("bg-white", tw_merge_slice(&["bg-black", "bg-white"]));
}

#[test]
fn merge_size_implies_width_and_height() {
    assert_eq!("size-8", tw_merge_slice(&["w-4 h-4", "size-8"]));
}

#[test]
fn merge_font_size_implies_line_height() {
    assert_eq!("text-lg", tw_merge_slice(&["leading-7", "text-lg"]));
}

#[test]
fn merge_attached_arbitrary_value() {
    assert_eq!("p-[3px]", tw_merge_slice(&["p-2", "p-[3px]"]));
}

#[test]
fn merge_is_idempotent_on_example() {
    let once = tw_merge_slice(&["py-2 px-4", "p-4", "hover:m-2", "[color:blue]", "widget"]);
    let twice = tw_merge_slice(&[once.as_str()]);
    assert_eq!(once, twice);
}

#[test]
fn merge_without_options_keeps_prefixed_classes() {
    assert_eq!(
        "tw-bg-black tw-bg-white",
        tw_merge_slice(&["tw-bg-black", "tw-bg-white"])
    );
}

#[test]
fn merge_with_prefix_options() {
    let options = MergeOptions {
        prefix: "tw-".to_string(),
        separator: ":".to_string(),
    };
    assert_eq!(
        "tw-bg-white",
        tw_merge_slice_options(&["tw-bg-black", "tw-bg-white"], &options)
    );
}

#[test]
fn merge_options_cell_ignores_second_write() {
    let mut cell = MergeOptionsCell::new();
    cell.set(MergeOptions {
        prefix: "tw-".to_string(),
        separator: ":".to_string(),
    });
    cell.set(MergeOptions {
        prefix: "xx-".to_string(),
        separator: "|".to_string(),
    });
    assert_eq!(cell.get().prefix, "tw-");
    assert_eq!(cell.get().separator, ":");
    assert_eq!(
        "tw-bg-white",
        tw_merge_slice_options(&["tw-bg-black", "tw-bg-white"], cell.get())
    );
}

struct NoOverride;

impl CollisionIdFn for NoOverride {
    fn apply(&self, _elements: &Vec<String>, _arbitrary: Option<&str>) -> Option<String> {
        None
    }
}

impl GetCollisionsFn for NoOverride {
    fn apply(&self, _collision_id: &str) -> Option<Vec<String>> {
        None
    }
}

struct EverythingOneGroup;

impl CollisionIdFn for EverythingOneGroup {
    fn apply(&self, _elements: &Vec<String>, _arbitrary: Option<&str>) -> Option<String> {
        Some("the-group".to_string())
    }
}

#[test]
fn override_none_falls_back_to_table() {
    let options = MergeOptions {
        prefix: String::new(),
        separator: ":".to_string(),
    };
    assert_eq!(
        "p-4",
        tw_merge_with_override(&["py-2 px-4", "p-4"], &options, NoOverride, NoOverride)
    );
}

#[test]
fn override_classifier_takes_precedence() {
    let options = MergeOptions {
        prefix: String::new(),
        separator: ":".to_string(),
    };
    assert_eq!(
        "beta",
        tw_merge_with_override(&["alpha", "beta"], &options, EverythingOneGroup, NoOverride)
    );
}
