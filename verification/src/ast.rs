//! The tokenizer: raw class text is split into whitespace-delimited atoms and
//! each atom is parsed into a structured record — variant chain, importance
//! flag, base elements, optional bracketed arbitrary payload. An atom that
//! lacks a required prefix is handed back as opaque raw text; parsing never
//! fails the whole call.

use vstd::prelude::*;

use crate::options::MergeOptions;
use crate::strutil::find_char;
use crate::strutil::find_char_from;
use crate::strutil::is_prefix_of;
use crate::strutil::join_atoms;
use crate::strutil::split_char;
use crate::strutil::split_char_nonempty;
use crate::strutil::split_on_separator;
use crate::strutil::split_sep;
use crate::strutil::split_whitespace_atoms;
use crate::strutil::starts_with;
use crate::strutil::views_of;

verus! {

/// One parsed class token. `source` is the atom's original text, kept
/// verbatim for reassembly; `variants` the separator-delimited scope
/// prefixes; `elements` the dash-delimited pieces of the base utility;
/// `arbitrary` the interior of a trailing bracket payload, if one stands
/// there.
pub struct AstStyle {
    pub source: String,
    pub important: bool,
    pub variants: Vec<String>,
    pub elements: Vec<String>,
    pub arbitrary: Option<String>,
}

/// The mathematical shadow of [`AstStyle`]: every text field as a `Seq<char>`.
pub struct AstView {
    pub source: Seq<char>,
    pub important: bool,
    pub variants: Seq<Seq<char>>,
    pub elements: Seq<Seq<char>>,
    pub arbitrary: Option<Seq<char>>,
}

impl View for AstStyle {
    type V = AstView;

    open spec fn view(&self) -> AstView {
        AstView {
            source: self.source@,
            important: self.important,
            variants: views_of(self.variants@),
            elements: views_of(self.elements@),
            arbitrary: match self.arbitrary {
                Some(a) => Some(a@),
                None => None,
            },
        }
    }
}

/// The importance marker: a leading or a trailing `!` on the base segment
/// sets the flag and is stripped.
pub open spec fn strip_important(b: Seq<char>) -> (bool, Seq<char>) {
    if b.len() > 0 && b[0] == '!' {
        (true, b.drop_first())
    } else if b.len() > 0 && b.last() == '!' {
        (true, b.drop_last())
    } else {
        (false, b)
    }
}

/// The base segment with the configured prefix removed, or `None` when a
/// nonempty prefix is configured and absent.
pub open spec fn strip_prefix_opt(b: Seq<char>, prefix: Seq<char>) -> Option<Seq<char>> {
    if prefix.len() == 0 {
        Some(b)
    } else if is_prefix_of(prefix, b) {
        Some(b.skip(prefix.len() as int))
    } else {
        None
    }
}

/// Splits a base segment into its stem and a trailing bracketed arbitrary
/// payload: `p-[3px]` has stem `p` and payload `3px`; `[color:blue]` has an
/// empty stem and payload `color:blue`; a base without a well-formed bracket
/// suffix is all stem.
pub open spec fn bracket_parts(b: Seq<char>) -> (Seq<char>, Option<Seq<char>>) {
    let k = find_char_from(b, '[', 0);
    if k >= 0 && b.len() >= 2 && b.last() == ']' && k < b.len() - 1 {
        let interior = b.subrange(k + 1, b.len() - 1);
        let stem0 = b.take(k);
        let stem = if stem0.len() > 0 && stem0.last() == '-' {
            stem0.drop_last()
        } else {
            stem0
        };
        (stem, Some(interior))
    } else {
        (b, None)
    }
}

/// What parsing one atom yields: the structured record, or the atom itself as
/// opaque raw text when a required prefix is absent.
pub open spec fn parse_atom_spec(atom: Seq<char>, prefix: Seq<char>, sep: Seq<char>) -> Result<
    AstView,
    Seq<char>,
> {
    let segs = split_sep(atom, sep);
    let vars = segs.drop_last();
    let rawbase = segs.last();
    let imp = strip_important(rawbase);
    match strip_prefix_opt(imp.1, prefix) {
        None => Err(atom),
        Some(base) => {
            let bp = bracket_parts(base);
            Ok(
                AstView {
                    source: atom,
                    important: imp.0,
                    variants: vars,
                    elements: split_char(bp.0, '-'),
                    arbitrary: bp.1,
                },
            )
        },
    }
}

/// The view of one parse result.
pub open spec fn result_view(x: Result<AstStyle, String>) -> Result<AstView, Seq<char>> {
    match x {
        Ok(s) => Ok(s@),
        Err(e) => Err(e@),
    }
}

/// The views of a vector of parse results.
pub open spec fn results_view(v: Seq<Result<AstStyle, String>>) -> Seq<
    Result<AstView, Seq<char>>,
> {
    v.map_values(|x: Result<AstStyle, String>| result_view(x))
}

/// What parsing a list of class fragments yields: every whitespace-delimited
/// atom of every fragment, in order, parsed independently.
pub open spec fn parse_list_spec(classes: Seq<Seq<char>>, prefix: Seq<char>, sep: Seq<char>) -> Seq<
    Result<AstView, Seq<char>>,
> {
    join_atoms(classes).map_values(|a: Seq<char>| parse_atom_spec(a, prefix, sep))
}

/// Parses one whitespace-free atom.
pub fn parse_atom(atom: &str, options: &MergeOptions) -> (r: Result<AstStyle, String>)
    ensures
        result_view(r) == parse_atom_spec(atom@, options.prefix@, options.separator@),
{
    let mut segs = split_on_separator(atom, options.separator.as_str());
    proof {
        assert(segs@.len() >= 1);
        assert(views_of(segs@).last() == segs@.last()@);
        assert(views_of(segs@.drop_last()) =~= views_of(segs@).drop_last());
    }
    let rawbase: String = match segs.pop() {
        Some(b) => b,
        None => {
            proof {
                assert(false);
            }
            String::new()
        },
    };
    let variants = segs;
    let blen = rawbase.as_str().unicode_len();
    let ghost spec_imp = strip_important(rawbase@);
    let mut important: bool = false;
    let base1: String;
    if blen > 0 && rawbase.as_str().get_char(0) == '!' {
        important = true;
        base1 = rawbase.as_str().substring_char(1, blen).to_owned();
        proof {
            assert(base1@ =~= rawbase@.drop_first());
        }
    } else if blen > 0 && rawbase.as_str().get_char(blen - 1) == '!' {
        important = true;
        base1 = rawbase.as_str().substring_char(0, blen - 1).to_owned();
        proof {
            assert(base1@ =~= rawbase@.drop_last());
        }
    } else {
        base1 = rawbase;
    }
    proof {
        assert(spec_imp.0 == important && spec_imp.1 == base1@);
    }
    let plen = options.prefix.as_str().unicode_len();
    let base2: String;
    if plen == 0 {
        base2 = base1;
    } else if starts_with(base1.as_str(), options.prefix.as_str()) {
        let b1len = base1.as_str().unicode_len();
        base2 = base1.as_str().substring_char(plen, b1len).to_owned();
        proof {
            assert(base2@ =~= base1@.skip(options.prefix@.len() as int));
        }
    } else {
        return Err(atom.to_owned());
    }
    proof {
        assert(strip_prefix_opt(spec_imp.1, options.prefix@) == Some(base2@));
    }
    let b2len = base2.as_str().unicode_len();
    let k = find_char(base2.as_str(), '[');
    let ghost bp = bracket_parts(base2@);
    let stem: String;
    let arbitrary: Option<String>;
    if k < b2len && b2len >= 2 && base2.as_str().get_char(b2len - 1) == ']' && k < b2len - 1 {
        let interior = base2.as_str().substring_char(k + 1, b2len - 1).to_owned();
        let stem0 = base2.as_str().substring_char(0, k).to_owned();
        proof {
            assert(interior@ =~= base2@.subrange(k + 1, base2@.len() - 1));
            assert(stem0@ =~= base2@.take(k as int));
        }
        let s0len = stem0.as_str().unicode_len();
        if s0len > 0 && stem0.as_str().get_char(s0len - 1) == '-' {
            stem = stem0.as_str().substring_char(0, s0len - 1).to_owned();
            proof {
                assert(stem@ =~= stem0@.drop_last());
            }
        } else {
            stem = stem0;
        }
        arbitrary = Some(interior);
    } else {
        stem = base2;
        arbitrary = None;
    }
    proof {
        assert(bp.0 == stem@);
        match &arbitrary {
            Some(a) => {
                assert(bp.1 == Some(a@));
            },
            None => {
                assert(bp.1 is None);
            },
        }
    }
    let elements = split_char_nonempty(stem.as_str(), '-');
    let style = AstStyle {
        source: atom.to_owned(),
        important,
        variants,
        elements,
        arbitrary,
    };
    Ok(style)
}

/// Parses every whitespace-delimited atom of every fragment, in order. Total:
/// an atom that cannot be structured comes back as `Err` with its raw text.
pub fn parse_tailwind(class: &[&str], options: &MergeOptions) -> (r: Vec<Result<AstStyle, String>>)
    ensures
        results_view(r@) == parse_list_spec(
            class@.map_values(|s: &str| s@),
            options.prefix@,
            options.separator@,
        ),
{
    let mut atoms: Vec<String> = Vec::new();
    let mut i: usize = 0;
    while i < class.len()
        invariant
            i <= class@.len(),
            views_of(atoms@) == join_atoms(class@.map_values(|s: &str| s@).take(i as int)),
        decreases class@.len() - i,
    {
        let part: &str = *vstd::slice::slice_index_get(class, i);
        let mut more = split_whitespace_atoms(part);
        proof {
            let cs = class@.map_values(|s: &str| s@);
            assert(cs.take(i as int + 1).drop_last() =~= cs.take(i as int));
            assert(views_of(atoms@ + more@) =~= views_of(atoms@) + views_of(more@));
        }
        atoms.append(&mut more);
        i += 1;
    }
    proof {
        let cs = class@.map_values(|s: &str| s@);
        assert(cs.take(cs.len() as int) =~= cs);
    }
    let mut out: Vec<Result<AstStyle, String>> = Vec::new();
    let mut j: usize = 0;
    while j < atoms.len()
        invariant
            j <= atoms@.len(),
            views_of(atoms@) == join_atoms(class@.map_values(|s: &str| s@)),
            results_view(out@) =~= views_of(atoms@).take(j as int).map_values(
                |a: Seq<char>| parse_atom_spec(a, options.prefix@, options.separator@),
            ),
        decreases atoms@.len() - j,
    {
        let parsed = parse_atom(atoms[j].as_str(), options);
        proof {
            let avs = views_of(atoms@);
            assert(results_view(out@.push(parsed)) =~= results_view(out@) + seq![
                result_view(parsed),
            ]);
            assert(avs.take(j as int + 1).map_values(
                |a: Seq<char>| parse_atom_spec(a, options.prefix@, options.separator@),
            ) =~= avs.take(j as int).map_values(
                |a: Seq<char>| parse_atom_spec(a, options.prefix@, options.separator@),
            ) + seq![parse_atom_spec(avs[j as int], options.prefix@, options.separator@)]);
        }
        out.push(parsed);
        j += 1;
    }
    proof {
        let avs = views_of(atoms@);
        assert(avs.take(avs.len() as int) =~= avs);
    }
    out
}

} // verus!
