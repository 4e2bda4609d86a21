//! Proved guarantees of the merge pass, stated over the same specification
//! functions the executable contracts use.

use vstd::prelude::*;

use crate::ast::parse_atom_spec;
use crate::ast::parse_list_spec;
use crate::merge::claimed_from;
use crate::merge::kept_at;
use crate::merge::kept_prefix;
use crate::merge::kept_sources;
use crate::merge::merge_resolved_spec;
use crate::merge::res_claims;
use crate::merge::res_key;
use crate::merge::resolve_list_spec;
use crate::merge::resolve_one_spec;
use crate::merge::source_of;
use crate::merge::tw_merge_spec;
use crate::merge::CollisionKey;
use crate::merge::ResolutionView;
use crate::merge::ResolvedView;
use crate::strutil::atom_ok;
use crate::strutil::join_atoms;
use crate::strutil::join_spaces;
use crate::strutil::lemma_split_join_roundtrip;
use crate::strutil::lemma_split_ws_atoms_ok;
use crate::strutil::split_ws;

verus! {

/// The sources of the tokens, in order.
pub open spec fn sources_of(items: Seq<ResolvedView>) -> Seq<Seq<char>> {
    items.map_values(|it: ResolvedView| it.source)
}

/// The keep/drop decision for every token, in order.
pub open spec fn kept_mask(items: Seq<ResolvedView>) -> Seq<bool> {
    Seq::new(items.len(), |i: int| kept_at(items, i))
}

/// The elements of `xs` selected by the mask, in order.
pub open spec fn mask_filter(xs: Seq<Seq<char>>, m: Seq<bool>) -> Seq<Seq<char>>
    decreases xs.len(),
{
    if xs.len() == 0 || m.len() != xs.len() {
        Seq::empty()
    } else {
        mask_filter(xs.drop_last(), m.drop_last()) + (if m.last() {
            seq![xs.last()]
        } else {
            Seq::empty()
        })
    }
}

/// The surviving sources are the input sources filtered by the keep mask:
/// the output is a subsequence of the input tokens in their original
/// relative order — membership changes, order never does.
pub proof fn lemma_order_preservation(items: Seq<ResolvedView>)
    ensures
        kept_sources(items) == mask_filter(sources_of(items), kept_mask(items)),
{
    lemma_order_preservation_prefix(items, items.len() as int);
    assert(sources_of(items).take(items.len() as int) =~= sources_of(items));
    assert(kept_mask(items).take(items.len() as int) =~= kept_mask(items));
}

proof fn lemma_order_preservation_prefix(items: Seq<ResolvedView>, i: int)
    requires
        0 <= i <= items.len(),
    ensures
        kept_prefix(items, i) == mask_filter(sources_of(items).take(i), kept_mask(items).take(i)),
    decreases i,
{
    if i == 0 {
        assert(kept_prefix(items, 0) =~= Seq::<Seq<char>>::empty());
        assert(mask_filter(sources_of(items).take(0), kept_mask(items).take(0))
            =~= Seq::<Seq<char>>::empty());
    } else {
        lemma_order_preservation_prefix(items, i - 1);
        let xs = sources_of(items).take(i);
        let m = kept_mask(items).take(i);
        assert(xs.drop_last() =~= sources_of(items).take(i - 1));
        assert(m.drop_last() =~= kept_mask(items).take(i - 1));
        assert(xs.last() == items[i - 1].source);
        assert(m.last() == kept_at(items, i - 1));
        if kept_at(items, i - 1) {
            assert(kept_prefix(items, i) =~= mask_filter(xs, m));
        } else {
            assert(kept_prefix(items, i) =~= mask_filter(xs, m));
        }
    }
}

/// An opaque token — one with no key, hence no identifier and no label — is
/// never dropped.
pub proof fn lemma_opaque_never_dropped(items: Seq<ResolvedView>, i: int)
    requires
        0 <= i < items.len(),
        res_key(items[i].resolution) is None,
    ensures
        kept_at(items, i),
{
}

proof fn lemma_claimed_remove_opaque_high(items: Seq<ResolvedView>, j: int, i: int)
    requires
        0 <= j < items.len(),
        res_key(items[j].resolution) is None,
        j < i <= items.len(),
    ensures
        claimed_from(items.remove(j), i - 1) == claimed_from(items, i),
    decreases items.len() - i,
{
    if i >= items.len() {
        assert(claimed_from(items.remove(j), i - 1) =~= Set::<CollisionKey>::empty());
        assert(claimed_from(items, i) =~= Set::<CollisionKey>::empty());
    } else {
        lemma_claimed_remove_opaque_high(items, j, i + 1);
        assert(items.remove(j)[i - 1] == items[i]);
    }
}

proof fn lemma_claimed_remove_opaque_low(items: Seq<ResolvedView>, j: int, i: int)
    requires
        0 <= j < items.len(),
        res_key(items[j].resolution) is None,
        0 <= i <= j,
    ensures
        claimed_from(items.remove(j), i) == claimed_from(items, i),
    decreases j - i,
{
    if i == j {
        lemma_claimed_remove_opaque_high(items, j, j + 1);
        assert(claimed_from(items, j) == claimed_from(items, j + 1));
    } else {
        lemma_claimed_remove_opaque_low(items, j, i + 1);
        assert(items.remove(j)[i] == items[i]);
    }
}

/// An opaque token never causes another token's drop: removing it changes no
/// other token's keep/drop decision.
pub proof fn lemma_opaque_no_effect(items: Seq<ResolvedView>, j: int, i: int)
    requires
        0 <= j < items.len(),
        res_key(items[j].resolution) is None,
        0 <= i < items.len(),
        i != j,
    ensures
        kept_at(items.remove(j), if i < j {
            i
        } else {
            i - 1
        }) == kept_at(items, i),
{
    if i < j {
        lemma_claimed_remove_opaque_low(items, j, i + 1);
        assert(items.remove(j)[i] == items[i]);
    } else {
        lemma_claimed_remove_opaque_high(items, j, i + 1);
        assert(items.remove(j)[i - 1] == items[i]);
    }
}

/// Two resolutions stand in the same conflict scope: the same variant chain
/// and the same importance flag, classified against classified or labeled
/// against labeled — a labeled and a classified token never compete at all.
pub open spec fn same_scope(a: ResolutionView, b: ResolutionView) -> bool {
    match (a, b) {
        (
            ResolutionView::Classified { important: ia, variants: va, .. },
            ResolutionView::Classified { important: ib, variants: vb, .. },
        ) => ia == ib && va == vb,
        (
            ResolutionView::Labeled { important: ia, variants: va, .. },
            ResolutionView::Labeled { important: ib, variants: vb, .. },
        ) => ia == ib && va == vb,
        _ => false,
    }
}

proof fn lemma_claimed_member_source(items: Seq<ResolvedView>, t: int, k: CollisionKey)
    requires
        0 <= t,
        claimed_from(items, t).contains(k),
    ensures
        exists|j: int|
            t <= j < items.len() && #[trigger] res_claims(items[j].resolution).contains(k),
    decreases items.len() - t,
{
    if t >= items.len() {
    } else {
        let later = claimed_from(items, t + 1);
        if later.contains(k) {
            lemma_claimed_member_source(items, t + 1, k);
        } else {
            assert(res_claims(items[t].resolution).contains(k));
        }
    }
}

/// Tokens with different variant chains or different importance flags never
/// conflict: a dropped token always owes its drop to a later token of the
/// same scope.
pub proof fn lemma_scope_independence(items: Seq<ResolvedView>, i: int)
    requires
        0 <= i < items.len(),
        !kept_at(items, i),
    ensures
        exists|j: int|
            i < j < items.len() && #[trigger] same_scope(
                items[j].resolution,
                items[i].resolution,
            ),
{
    let k = res_key(items[i].resolution)->Some_0;
    assert(claimed_from(items, i + 1).contains(k));
    lemma_claimed_member_source(items, i + 1, k);
    let j = choose|j: int|
        i + 1 <= j < items.len() && #[trigger] res_claims(items[j].resolution).contains(k);
    assert(same_scope(items[j].resolution, items[i].resolution)) by {
        match items[i].resolution {
            ResolutionView::Opaque => {
                assert(false);
            },
            ResolutionView::Labeled { important, variants, label } => {
                match items[j].resolution {
                    ResolutionView::Opaque => {
                        assert(false);
                    },
                    ResolutionView::Labeled { important: ij, variants: vj, label: lj } => {
                        assert(k == (CollisionKey::Arbitrary { important, variants, label }));
                        assert(res_claims(items[j].resolution).contains(k));
                        assert(ij == important && vj == variants);
                    },
                    ResolutionView::Classified { important: ij, variants: vj, collision_id, collisions } => {
                        assert(k == (CollisionKey::Arbitrary { important, variants, label }));
                        assert(false);
                    },
                }
            },
            ResolutionView::Classified { important, variants, collision_id, .. } => {
                assert(k == (CollisionKey::Default { important, variants, collision_id }));
                match items[j].resolution {
                    ResolutionView::Opaque => {
                        assert(false);
                    },
                    ResolutionView::Labeled { label: lj, .. } => {
                        assert(false);
                    },
                    ResolutionView::Classified {
                        important: ij,
                        variants: vj,
                        collision_id: cj,
                        collisions: colj,
                    } => {
                        assert(ij == important && vj == variants);
                    },
                }
            },
        }
    }
}

/// The survivors of the backward pass, as whole tokens, from index `i` on.
pub open spec fn kept_suffix(items: Seq<ResolvedView>, i: int) -> Seq<ResolvedView>
    decreases items.len() - i,
{
    if i < 0 || i >= items.len() {
        Seq::empty()
    } else {
        (if kept_at(items, i) {
            seq![items[i]]
        } else {
            Seq::empty()
        }) + kept_suffix(items, i + 1)
    }
}

proof fn lemma_claimed_cons(x: ResolvedView, s: Seq<ResolvedView>, i: int)
    requires
        i >= 0,
    ensures
        claimed_from(seq![x] + s, i + 1) == claimed_from(s, i),
    decreases s.len() - i,
{
    if i >= s.len() {
    } else {
        lemma_claimed_cons(x, s, i + 1);
        assert((seq![x] + s)[i + 1] == s[i]);
    }
}

proof fn lemma_kept_run_claims(items: Seq<ResolvedView>, i: int)
    requires
        0 <= i <= items.len(),
    ensures
        claimed_from(kept_suffix(items, i), 0) == claimed_from(items, i),
    decreases items.len() - i,
{
    if i == items.len() {
    } else {
        lemma_kept_run_claims(items, i + 1);
        let rest = kept_suffix(items, i + 1);
        if kept_at(items, i) {
            let ks = kept_suffix(items, i);
            assert(ks =~= seq![items[i]] + rest);
            lemma_claimed_cons(items[i], rest, 0);
            assert(ks[0] == items[i]);
        } else {
            assert(kept_suffix(items, i) =~= rest);
        }
    }
}

proof fn lemma_kept_run_all_kept(items: Seq<ResolvedView>, i: int)
    requires
        0 <= i <= items.len(),
    ensures
        forall|t: int|
            0 <= t < kept_suffix(items, i).len() ==> kept_at(kept_suffix(items, i), t),
    decreases items.len() - i,
{
    if i == items.len() {
    } else {
        lemma_kept_run_all_kept(items, i + 1);
        let rest = kept_suffix(items, i + 1);
        if kept_at(items, i) {
            let ks = kept_suffix(items, i);
            assert(ks =~= seq![items[i]] + rest);
            lemma_kept_run_claims(items, i + 1);
            assert forall|t: int| 0 <= t < ks.len() implies kept_at(ks, t) by {
                if t == 0 {
                    lemma_claimed_cons(items[i], rest, 0);
                    assert(ks[0] == items[i]);
                } else {
                    lemma_claimed_cons(items[i], rest, t);
                    assert(ks[t] == rest[t - 1]);
                    assert(kept_at(rest, t - 1));
                }
            }
        } else {
            assert(kept_suffix(items, i) =~= rest);
        }
    }
}

proof fn lemma_kept_prefix_suffix(items: Seq<ResolvedView>, j: int)
    requires
        0 <= j <= items.len(),
    ensures
        kept_prefix(items, j) + sources_of(kept_suffix(items, j)) == kept_sources(items),
    decreases items.len() - j,
{
    if j == items.len() {
        assert(kept_suffix(items, j) =~= Seq::<ResolvedView>::empty());
        assert(sources_of(kept_suffix(items, j)) =~= Seq::<Seq<char>>::empty());
        assert(kept_prefix(items, j) + Seq::<Seq<char>>::empty() =~= kept_prefix(items, j));
    } else {
        lemma_kept_prefix_suffix(items, j + 1);
        let head: Seq<ResolvedView> = if kept_at(items, j) {
            seq![items[j]]
        } else {
            Seq::empty()
        };
        assert(kept_suffix(items, j) == head + kept_suffix(items, j + 1));
        assert(sources_of(head + kept_suffix(items, j + 1)) =~= sources_of(head) + sources_of(
            kept_suffix(items, j + 1),
        ));
        if kept_at(items, j) {
            assert(sources_of(head) =~= seq![items[j].source]);
        } else {
            assert(sources_of(head) =~= Seq::<Seq<char>>::empty());
        }
        assert(kept_prefix(items, j) + sources_of(kept_suffix(items, j)) =~= kept_prefix(
            items,
            j + 1,
        ) + sources_of(kept_suffix(items, j + 1)));
    }
}

proof fn lemma_all_kept_sources(ks: Seq<ResolvedView>, i: int)
    requires
        0 <= i <= ks.len(),
        forall|t: int| 0 <= t < ks.len() ==> kept_at(ks, t),
    ensures
        kept_prefix(ks, i) == sources_of(ks).take(i),
    decreases i,
{
    if i == 0 {
        assert(kept_prefix(ks, 0) =~= sources_of(ks).take(0));
    } else {
        lemma_all_kept_sources(ks, i - 1);
        assert(kept_at(ks, i - 1));
        assert(sources_of(ks).take(i) =~= sources_of(ks).take(i - 1).push(ks[i - 1].source));
        assert(kept_prefix(ks, i) =~= kept_prefix(ks, i - 1) + seq![ks[i - 1].source]);
        assert(sources_of(ks).take(i - 1).push(ks[i - 1].source) =~= sources_of(ks).take(i - 1)
            + seq![ks[i - 1].source]);
    }
}

proof fn lemma_kept_suffix_pred(
    items: Seq<ResolvedView>,
    i: int,
    p: spec_fn(ResolvedView) -> bool,
)
    requires
        0 <= i <= items.len(),
        forall|j: int| 0 <= j < items.len() ==> p(#[trigger] items[j]),
    ensures
        forall|t: int|
            0 <= t < kept_suffix(items, i).len() ==> p(#[trigger] kept_suffix(items, i)[t]),
    decreases items.len() - i,
{
    if i == items.len() {
    } else {
        lemma_kept_suffix_pred(items, i + 1, p);
        let rest = kept_suffix(items, i + 1);
        if kept_at(items, i) {
            let ks = kept_suffix(items, i);
            assert(ks =~= seq![items[i]] + rest);
            assert forall|t: int| 0 <= t < ks.len() implies p(#[trigger] ks[t]) by {
                if t == 0 {
                    assert(ks[0] == items[i]);
                } else {
                    assert(ks[t] == rest[t - 1]);
                }
            }
        } else {
            assert(kept_suffix(items, i) =~= rest);
        }
    }
}

proof fn lemma_join_atoms_ok(classes: Seq<Seq<char>>)
    ensures
        forall|t: int|
            0 <= t < join_atoms(classes).len() ==> atom_ok(#[trigger] join_atoms(classes)[t]),
    decreases classes.len(),
{
    if classes.len() == 0 {
    } else {
        lemma_join_atoms_ok(classes.drop_last());
        lemma_split_ws_atoms_ok(classes.last(), Seq::empty());
        let front = join_atoms(classes.drop_last());
        let back = split_ws(classes.last());
        assert forall|t: int| 0 <= t < join_atoms(classes).len() implies atom_ok(
            #[trigger] join_atoms(classes)[t],
        ) by {
            if t < front.len() {
                assert(join_atoms(classes)[t] == front[t]);
            } else {
                assert(join_atoms(classes)[t] == back[t - front.len()]);
            }
        }
    }
}

/// Order preservation, end to end: the tokens a full merge keeps are the
/// whitespace-delimited atoms of the raw input, filtered by the keep mask —
/// a subsequence of the input tokens in their original relative order — and
/// the merged string is those survivors joined with single spaces.
pub proof fn lemma_merge_order_preservation(classes: Seq<Seq<char>>, prefix: Seq<char>, sep: Seq<
    char,
>)
    ensures
        kept_sources(resolve_list_spec(parse_list_spec(classes, prefix, sep))) == mask_filter(
            join_atoms(classes),
            kept_mask(resolve_list_spec(parse_list_spec(classes, prefix, sep))),
        ),
        tw_merge_spec(classes, prefix, sep) == join_spaces(
            kept_sources(resolve_list_spec(parse_list_spec(classes, prefix, sep))),
        ),
{
    let atoms = join_atoms(classes);
    let ps = parse_list_spec(classes, prefix, sep);
    let r = resolve_list_spec(ps);
    assert(sources_of(r) =~= atoms) by {
        assert forall|j: int| 0 <= j < r.len() implies sources_of(r)[j] == atoms[j] by {
            assert(ps[j] == parse_atom_spec(atoms[j], prefix, sep));
            assert(r[j] == resolve_one_spec(ps[j]));
            assert(source_of(ps[j]) == atoms[j]);
        }
    }
    lemma_order_preservation(r);
}

/// A resolved token that re-parses and re-resolves to itself, whose source
/// is a well-formed atom.
pub open spec fn self_describing(item: ResolvedView, prefix: Seq<char>, sep: Seq<char>) -> bool {
    atom_ok(item.source) && item == resolve_one_spec(parse_atom_spec(item.source, prefix, sep))
}

/// Merging is idempotent: feeding a merge's output back in as one class
/// fragment merges to the same output, under any options.
pub proof fn lemma_merge_idempotent(classes: Seq<Seq<char>>, prefix: Seq<char>, sep: Seq<char>)
    ensures
        tw_merge_spec(seq![tw_merge_spec(classes, prefix, sep)], prefix, sep) == tw_merge_spec(
            classes,
            prefix,
            sep,
        ),
{
    let atoms = join_atoms(classes);
    let ps = parse_list_spec(classes, prefix, sep);
    let r = resolve_list_spec(ps);
    let out = tw_merge_spec(classes, prefix, sep);
    let ks = kept_suffix(r, 0);
    lemma_join_atoms_ok(classes);
    assert(ps.len() == atoms.len());
    assert(r.len() == atoms.len());
    assert forall|j: int| 0 <= j < r.len() implies self_describing(
        #[trigger] r[j],
        prefix,
        sep,
    ) by {
        assert(ps[j] == parse_atom_spec(atoms[j], prefix, sep));
        assert(r[j] == resolve_one_spec(ps[j]));
        assert(source_of(ps[j]) == atoms[j]);
        assert(r[j].source == atoms[j]);
        assert(atom_ok(atoms[j]));
    }
    lemma_kept_run_all_kept(r, 0);
    lemma_kept_prefix_suffix(r, 0);
    assert(kept_prefix(r, 0) =~= Seq::<Seq<char>>::empty());
    assert(Seq::<Seq<char>>::empty() + sources_of(ks) =~= sources_of(ks));
    assert(kept_sources(r) == sources_of(ks));
    lemma_kept_suffix_pred(
        r,
        0,
        |it: ResolvedView| self_describing(it, prefix, sep),
    );
    assert(out == join_spaces(sources_of(ks)));
    assert forall|t: int| 0 <= t < sources_of(ks).len() implies atom_ok(
        #[trigger] sources_of(ks)[t],
    ) by {
        assert(self_describing(ks[t], prefix, sep));
        assert(sources_of(ks)[t] == ks[t].source);
    }
    lemma_split_join_roundtrip(sources_of(ks));
    assert(split_ws(out) == sources_of(ks));
    let atoms2 = join_atoms(seq![out]);
    assert(join_atoms(Seq::<Seq<char>>::empty()) =~= Seq::<Seq<char>>::empty());
    assert(seq![out].drop_last() =~= Seq::<Seq<char>>::empty());
    assert(seq![out].last() == out);
    assert(Seq::<Seq<char>>::empty() + split_ws(out) =~= split_ws(out));
    assert(atoms2 == sources_of(ks));
    let ps2 = parse_list_spec(seq![out], prefix, sep);
    let r2 = resolve_list_spec(ps2);
    assert(r2 =~= ks) by {
        assert(r2.len() == ks.len());
        assert forall|t: int| 0 <= t < ks.len() implies r2[t] == ks[t] by {
            assert(ps2[t] == parse_atom_spec(atoms2[t], prefix, sep));
            assert(r2[t] == resolve_one_spec(ps2[t]));
            assert(atoms2[t] == ks[t].source);
            assert(self_describing(ks[t], prefix, sep));
        }
    }
    lemma_all_kept_sources(ks, ks.len() as int);
    assert(sources_of(ks).take(ks.len() as int) =~= sources_of(ks));
    assert(kept_sources(ks) == sources_of(ks));
    assert(merge_resolved_spec(r2) == join_spaces(sources_of(ks)));
}

} // verus!
