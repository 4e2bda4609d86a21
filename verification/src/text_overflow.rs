//! The text-overflow utility: a worked instance of a classified utility
//! type, with its collision identifier and its (empty) implication closure.

use vstd::prelude::*;

use crate::arbitrary::TailwindArbitrary;
use crate::arbitrary::TailwindError;
use crate::strutil::str_eq;
use crate::strutil::strs_views;

verus! {

/// A utility instance that takes part in collision resolution.
pub trait TailwindInstance {
    /// The collision identifier of the property group this instance affects.
    fn collision_id(&self) -> String;

    /// The identifiers this instance subsumes.
    fn get_collisions(&self) -> Vec<String>;
}

/// How text that overflows its box is rendered.
#[derive(Debug, Clone)]
pub enum TextOverflow {
    Truncate,
    Standard(String),
    Arbitrary,
}

/// The `text-overflow` utility.
#[derive(Debug, Clone)]
pub struct TailwindTextOverflow {
    pub kind: TextOverflow,
}

/// The pieces joined with single dashes between them.
pub open spec fn join_dashes(xs: Seq<Seq<char>>) -> Seq<char>
    decreases xs.len(),
{
    if xs.len() == 0 {
        Seq::empty()
    } else if xs.len() == 1 {
        xs[0]
    } else {
        join_dashes(xs.drop_last()) + seq!['-'] + xs.last()
    }
}

fn join_dash(parts: &[&str]) -> (r: String)
    ensures
        r@ == join_dashes(strs_views(parts@)),
{
    let mut out = String::new();
    let mut i: usize = 0;
    while i < parts.len()
        invariant
            i <= parts@.len(),
            out@ == join_dashes(strs_views(parts@).take(i as int)),
        decreases parts@.len() - i,
    {
        proof {
            let xs = strs_views(parts@);
            assert(xs.take(i as int + 1).drop_last() =~= xs.take(i as int));
            assert(xs.take(i as int + 1).last() == xs[i as int]);
        }
        if i > 0 {
            out.append("-");
            proof {
                reveal_strlit("-");
                assert("-"@ =~= seq!['-']);
            }
        }
        let part: &str = *vstd::slice::slice_index_get(parts, i);
        out.append(part);
        i += 1;
    }
    proof {
        assert(strs_views(parts@).take(parts@.len() as int) =~= strs_views(parts@));
    }
    out
}

impl TailwindInstance for TailwindTextOverflow {
    fn collision_id(&self) -> (r: String)
        ensures
            r@ == "text-overflow"@,
    {
        String::from_str("text-overflow")
    }

    fn get_collisions(&self) -> (r: Vec<String>)
        ensures
            r@.len() == 0,
    {
        Vec::new()
    }
}

impl TailwindTextOverflow {
    /// The `truncate` utility.
    pub fn truncate() -> (r: Self)
        ensures
            r.kind is Truncate,
    {
        TailwindTextOverflow { kind: TextOverflow::Truncate }
    }

    /// Parses the utility from its dash-split pattern: an empty pattern is
    /// the arbitrary form; otherwise the pattern joined back with dashes
    /// names a standard mode. Total: parsing never fails.
    pub fn parse(pattern: &[&str], arbitrary: &TailwindArbitrary) -> (r: Result<
        Self,
        TailwindError,
    >)
        ensures
            r matches Ok(t) && match t.kind {
                TextOverflow::Arbitrary => pattern@.len() == 0,
                TextOverflow::Standard(s) => pattern@.len() > 0 && s@ == join_dashes(
                    strs_views(pattern@),
                ),
                TextOverflow::Truncate => false,
            },
    {
        let kind = if pattern.len() == 0 {
            TextOverflow::Arbitrary
        } else {
            TextOverflow::Standard(join_dash(pattern))
        };
        Ok(TailwindTextOverflow { kind })
    }

    /// The standard `text-overflow` modes of CSS.
    pub fn check_valid(mode: &str) -> (r: bool)
        ensures
            r == (mode@ == "clip"@ || mode@ == "ellipsis"@ || mode@ == "inherit"@ || mode@
                == "initial"@ || mode@ == "revert"@ || mode@ == "unset"@),
    {
        str_eq(mode, "clip") || str_eq(mode, "ellipsis") || str_eq(mode, "inherit") || str_eq(
            mode,
            "initial",
        ) || str_eq(mode, "revert") || str_eq(mode, "unset")
    }
}

} // verus!
