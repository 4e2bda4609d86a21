//! Fuse Tailwind CSS utility classes into one deduplicated, conflict-resolved
//! string.
//!
//! The crate is organised as a pipeline: raw class text is split into atoms
//! and parsed into structured records ([`ast`]), each record's base utility is
//! mapped to a canonical property-group identifier ([`collision_id`]), broad
//! identifiers subsume narrower ones ([`collisions`]), and a single backward
//! pass decides which tokens survive ([`merge`]).

pub mod arbitrary;
pub mod ast;
pub mod collision_id;
pub mod collisions;
pub mod merge;
pub mod merge_props;
pub mod options;
pub mod strutil;
pub mod text_overflow;
pub mod theme;

use vstd::prelude::*;

verus! {

/// Joins class fragments without conflict resolution: splits each fragment on
/// whitespace, drops empty atoms, and re-joins all atoms with single spaces.
pub fn tw_join_slice(class: &[&str]) -> (r: String)
    ensures
        r@ == crate::strutil::join_spaces(
            crate::strutil::join_atoms(class@.map_values(|s: &str| s@)),
        ),
{
    let mut atoms: Vec<String> = Vec::new();
    let mut i: usize = 0;
    while i < class.len()
        invariant
            i <= class@.len(),
            crate::strutil::views_of(atoms@) == crate::strutil::join_atoms(
                class@.map_values(|s: &str| s@).take(i as int),
            ),
        decreases class@.len() - i,
    {
        let part: &str = *vstd::slice::slice_index_get(class, i);
        let mut more = crate::strutil::split_whitespace_atoms(part);
        proof {
            let cs = class@.map_values(|s: &str| s@);
            assert(cs.take(i as int + 1).drop_last() =~= cs.take(i as int));
            assert(crate::strutil::views_of(atoms@ + more@) =~= crate::strutil::views_of(atoms@)
                + crate::strutil::views_of(more@));
        }
        atoms.append(&mut more);
        i += 1;
    }
    proof {
        let cs = class@.map_values(|s: &str| s@);
        assert(cs.take(cs.len() as int) =~= cs);
    }
    crate::strutil::join_with_spaces(&atoms)
}

/// Fuses Tailwind classes together, by merging or by plain joining.
pub trait TailwindFuse {
    /// Strings are not guaranteed to be single classes nor free of
    /// whitespace.
    fn fuse_classes(&self, class: &[&str]) -> String;
}

/// Merges Tailwind classes and resolves conflicts, the last conflicting
/// class winning within its scope.
pub struct TailwindMerge;

impl TailwindFuse for TailwindMerge {
    fn fuse_classes(&self, class: &[&str]) -> (r: String)
        ensures
            r@ == crate::merge::tw_merge_spec(crate::strutil::strs_views(class@), ""@, ":"@),
    {
        let r = crate::merge::tw_merge_slice(class);
        proof {
            assert(crate::strutil::strs_views(class@) =~= class@.map_values(|s: &str| s@));
        }
        r
    }
}

/// Joins Tailwind classes without resolving conflicts.
pub struct TailwindJoin;

impl TailwindFuse for TailwindJoin {
    fn fuse_classes(&self, class: &[&str]) -> (r: String)
        ensures
            r@ == crate::strutil::join_spaces(
                crate::strutil::join_atoms(crate::strutil::strs_views(class@)),
            ),
    {
        let r = tw_join_slice(class);
        proof {
            assert(crate::strutil::strs_views(class@) =~= class@.map_values(|s: &str| s@));
        }
        r
    }
}

/// Converts a type into a Tailwind class string. Implementations are
/// generated for component types built from variant definitions.
pub trait IntoTailwindClass {
    /// The Tailwind class for this value.
    fn to_class(&self) -> String;

    /// Appends a class with override precedence and returns the new class.
    fn with_class(&self, class: &str) -> String;
}

/// Extracts a themed Tailwind class from a type.
pub trait AsTailwindThemeClass {
    /// The class this value contributes under the named theme.
    fn as_class(&self, theme: &str) -> &str;
}

/// Converts a type into a themed Tailwind class string.
pub trait IntoTailwindThemeClass {
    /// The Tailwind class for this value under the given theme, the base
    /// theme when none is named.
    fn to_class(&self, theme: Option<&str>) -> String;

    /// Appends a class with override precedence under the given theme and
    /// returns the new class.
    fn with_class(&self, theme: Option<&str>, class: &str) -> String;
}

/// Converts a component type into its builder.
pub trait IntoBuilder {
    /// The builder type.
    type Builder;

    /// A builder with every variant unset.
    fn builder() -> Self::Builder;

    /// Converts the instance into the builder.
    fn into_builder(self) -> Self::Builder;
}

} // verus!
