//! The implication table: a static directed map from a collision identifier
//! to the narrower identifiers it subsumes, mirroring CSS shorthand/longhand
//! relationships. A broad claim evicts every implied narrower claim; an
//! identifier without an entry implies nothing.

use vstd::prelude::*;

use crate::strutil::str_eq;
use crate::strutil::views_of;

verus! {

/// The view of an optional vector of owned strings.
pub open spec fn option_views(x: Option<Vec<String>>) -> Option<Seq<Seq<char>>> {
    match x {
        Some(v) => Some(views_of(v@)),
        None => None,
    }
}

/// The identifiers a broad identifier subsumes, or `None` when it subsumes
/// nothing.
pub open spec fn collisions_spec(id: Seq<char>) -> Option<Seq<Seq<char>>> {
    if id == "padding"@ {
        Some(
            seq![
                "padding-x"@,
                "padding-y"@,
                "padding-top"@,
                "padding-right"@,
                "padding-bottom"@,
                "padding-left"@,
            ],
        )
    } else if id == "padding-x"@ {
        Some(seq!["padding-right"@, "padding-left"@])
    } else if id == "padding-y"@ {
        Some(seq!["padding-top"@, "padding-bottom"@])
    } else if id == "margin"@ {
        Some(
            seq![
                "margin-x"@,
                "margin-y"@,
                "margin-top"@,
                "margin-right"@,
                "margin-bottom"@,
                "margin-left"@,
            ],
        )
    } else if id == "margin-x"@ {
        Some(seq!["margin-right"@, "margin-left"@])
    } else if id == "margin-y"@ {
        Some(seq!["margin-top"@, "margin-bottom"@])
    } else if id == "inset"@ {
        Some(seq!["inset-x"@, "inset-y"@, "top"@, "right"@, "bottom"@, "left"@])
    } else if id == "inset-x"@ {
        Some(seq!["right"@, "left"@])
    } else if id == "inset-y"@ {
        Some(seq!["top"@, "bottom"@])
    } else if id == "gap"@ {
        Some(seq!["gap-x"@, "gap-y"@])
    } else if id == "overflow"@ {
        Some(seq!["overflow-x"@, "overflow-y"@])
    } else if id == "scale"@ {
        Some(seq!["scale-x"@, "scale-y"@])
    } else if id == "size"@ {
        Some(seq!["width"@, "height"@])
    } else if id == "border-width"@ {
        Some(
            seq![
                "border-width-x"@,
                "border-width-y"@,
                "border-width-top"@,
                "border-width-right"@,
                "border-width-bottom"@,
                "border-width-left"@,
            ],
        )
    } else if id == "border-width-x"@ {
        Some(seq!["border-width-right"@, "border-width-left"@])
    } else if id == "border-width-y"@ {
        Some(seq!["border-width-top"@, "border-width-bottom"@])
    } else if id == "border-radius"@ {
        Some(
            seq![
                "rounded-t"@,
                "rounded-r"@,
                "rounded-b"@,
                "rounded-l"@,
                "rounded-tl"@,
                "rounded-tr"@,
                "rounded-br"@,
                "rounded-bl"@,
            ],
        )
    } else if id == "rounded-t"@ {
        Some(seq!["rounded-tl"@, "rounded-tr"@])
    } else if id == "rounded-r"@ {
        Some(seq!["rounded-tr"@, "rounded-br"@])
    } else if id == "rounded-b"@ {
        Some(seq!["rounded-br"@, "rounded-bl"@])
    } else if id == "rounded-l"@ {
        Some(seq!["rounded-tl"@, "rounded-bl"@])
    } else if id == "font-size"@ {
        Some(seq!["line-height"@])
    } else if id == "flex"@ {
        Some(seq!["flex-grow"@, "flex-shrink"@, "flex-basis"@])
    } else {
        None
    }
}

fn vec1(a: &str) -> (r: Vec<String>)
    ensures
        views_of(r@) =~= seq![a@],
{
    let mut v: Vec<String> = Vec::new();
    v.push(a.to_owned());
    v
}

fn vec2(a: &str, b: &str) -> (r: Vec<String>)
    ensures
        views_of(r@) =~= seq![a@, b@],
{
    let mut v: Vec<String> = Vec::new();
    v.push(a.to_owned());
    v.push(b.to_owned());
    v
}

fn vec3(a: &str, b: &str, c: &str) -> (r: Vec<String>)
    ensures
        views_of(r@) =~= seq![a@, b@, c@],
{
    let mut v: Vec<String> = Vec::new();
    v.push(a.to_owned());
    v.push(b.to_owned());
    v.push(c.to_owned());
    v
}

fn vec6(a: &str, b: &str, c: &str, d: &str, e: &str, f: &str) -> (r: Vec<String>)
    ensures
        views_of(r@) =~= seq![a@, b@, c@, d@, e@, f@],
{
    let mut v: Vec<String> = Vec::new();
    v.push(a.to_owned());
    v.push(b.to_owned());
    v.push(c.to_owned());
    v.push(d.to_owned());
    v.push(e.to_owned());
    v.push(f.to_owned());
    v
}

fn vec8(a: &str, b: &str, c: &str, d: &str, e: &str, f: &str, g: &str, h: &str) -> (r: Vec<String>)
    ensures
        views_of(r@) =~= seq![a@, b@, c@, d@, e@, f@, g@, h@],
{
    let mut v: Vec<String> = Vec::new();
    v.push(a.to_owned());
    v.push(b.to_owned());
    v.push(c.to_owned());
    v.push(d.to_owned());
    v.push(e.to_owned());
    v.push(f.to_owned());
    v.push(g.to_owned());
    v.push(h.to_owned());
    v
}

/// Looks an identifier up in the implication table.
pub fn get_collisions(collision_id: &str) -> (r: Option<Vec<String>>)
    ensures
        option_views(r) == collisions_spec(collision_id@),
{
    if str_eq(collision_id, "padding") {
        return Some(
            vec6(
                "padding-x",
                "padding-y",
                "padding-top",
                "padding-right",
                "padding-bottom",
                "padding-left",
            ),
        );
    }
    if str_eq(collision_id, "padding-x") {
        return Some(vec2("padding-right", "padding-left"));
    }
    if str_eq(collision_id, "padding-y") {
        return Some(vec2("padding-top", "padding-bottom"));
    }
    if str_eq(collision_id, "margin") {
        return Some(
            vec6(
                "margin-x",
                "margin-y",
                "margin-top",
                "margin-right",
                "margin-bottom",
                "margin-left",
            ),
        );
    }
    if str_eq(collision_id, "margin-x") {
        return Some(vec2("margin-right", "margin-left"));
    }
    if str_eq(collision_id, "margin-y") {
        return Some(vec2("margin-top", "margin-bottom"));
    }
    if str_eq(collision_id, "inset") {
        return Some(vec6("inset-x", "inset-y", "top", "right", "bottom", "left"));
    }
    if str_eq(collision_id, "inset-x") {
        return Some(vec2("right", "left"));
    }
    if str_eq(collision_id, "inset-y") {
        return Some(vec2("top", "bottom"));
    }
    if str_eq(collision_id, "gap") {
        return Some(vec2("gap-x", "gap-y"));
    }
    if str_eq(collision_id, "overflow") {
        return Some(vec2("overflow-x", "overflow-y"));
    }
    if str_eq(collision_id, "scale") {
        return Some(vec2("scale-x", "scale-y"));
    }
    if str_eq(collision_id, "size") {
        return Some(vec2("width", "height"));
    }
    if str_eq(collision_id, "border-width") {
        return Some(
            vec6(
                "border-width-x",
                "border-width-y",
                "border-width-top",
                "border-width-right",
                "border-width-bottom",
                "border-width-left",
            ),
        );
    }
    if str_eq(collision_id, "border-width-x") {
        return Some(vec2("border-width-right", "border-width-left"));
    }
    if str_eq(collision_id, "border-width-y") {
        return Some(vec2("border-width-top", "border-width-bottom"));
    }
    if str_eq(collision_id, "border-radius") {
        return Some(
            vec8(
                "rounded-t",
                "rounded-r",
                "rounded-b",
                "rounded-l",
                "rounded-tl",
                "rounded-tr",
                "rounded-br",
                "rounded-bl",
            ),
        );
    }
    if str_eq(collision_id, "rounded-t") {
        return Some(vec2("rounded-tl", "rounded-tr"));
    }
    if str_eq(collision_id, "rounded-r") {
        return Some(vec2("rounded-tr", "rounded-br"));
    }
    if str_eq(collision_id, "rounded-b") {
        return Some(vec2("rounded-br", "rounded-bl"));
    }
    if str_eq(collision_id, "rounded-l") {
        return Some(vec2("rounded-tl", "rounded-bl"));
    }
    if str_eq(collision_id, "font-size") {
        return Some(vec1("line-height"));
    }
    if str_eq(collision_id, "flex") {
        return Some(vec3("flex-grow", "flex-shrink", "flex-basis"));
    }
    None
}

} // verus!
