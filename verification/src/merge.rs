//! The merge engine: a single backward pass over the parsed tokens. The
//! token processed first (originally last) has the highest precedence; a
//! token whose own collision key is already claimed in its scope is dropped,
//! and a kept token claims its key together with the implication closure of
//! its identifier. Opaque tokens pass through untouched. The survivors are
//! reassembled in original order and joined with single spaces.

use vstd::prelude::*;

use crate::ast::parse_list_spec;
use crate::ast::parse_tailwind;
use crate::ast::result_view;
use crate::ast::results_view;
use crate::ast::AstStyle;
use crate::ast::AstView;
use crate::collision_id::collision_id_spec;
use crate::collision_id::get_collision_id;
use crate::collisions::collisions_spec;
use crate::collisions::get_collisions;
use crate::options::MergeOptions;
use crate::strutil::clone_string_vec;
use crate::strutil::contains_char;
use crate::strutil::find_char;
use crate::strutil::find_char_from;
use crate::strutil::join_spaces;
use crate::strutil::str_eq;
use crate::strutil::string_vecs_eq;
use crate::strutil::views_of;

verus! {

/// The unit of conflict tracking: what a token claims within its scope. Two
/// tokens compete only when their keys coincide or one's implication closure
/// covers the other's identifier under the same variants and importance.
#[derive(Debug, Clone, PartialEq, Eq, Hash)]
pub enum Collision {
    /// A classified utility: scope is the variant chain and the importance
    /// flag; the claim is the collision identifier.
    Default { important: bool, variants: Vec<String>, collision_id: String },
    /// A labeled arbitrary payload such as `[color:blue]`: scope is the
    /// variant chain and the importance flag; the claim is the label alone,
    /// with no closure.
    Arbitrary { important: bool, variants: Vec<String>, label: String },
}

/// The mathematical shadow of [`Collision`].
pub enum CollisionKey {
    Default { important: bool, variants: Seq<Seq<char>>, collision_id: Seq<char> },
    Arbitrary { important: bool, variants: Seq<Seq<char>>, label: Seq<char> },
}

impl View for Collision {
    type V = CollisionKey;

    open spec fn view(&self) -> CollisionKey {
        match self {
            Collision::Default { important, variants, collision_id } => CollisionKey::Default {
                important: *important,
                variants: views_of(variants@),
                collision_id: collision_id@,
            },
            Collision::Arbitrary { important, variants, label } => CollisionKey::Arbitrary {
                important: *important,
                variants: views_of(variants@),
                label: label@,
            },
        }
    }
}

/// The label of an arbitrary payload: the text before the first `:`, when
/// one stands there.
pub open spec fn arbitrary_label(a: Seq<char>) -> Option<Seq<char>> {
    if contains_char(a, ':') {
        Some(a.take(find_char_from(a, ':', 0)))
    } else {
        None
    }
}

/// The view of an optional collision.
pub open spec fn option_collision_view(x: Option<Collision>) -> Option<CollisionKey> {
    match x {
        Some(c) => Some(c@),
        None => None,
    }
}

impl Collision {
    /// The collision an arbitrary payload induces in the unscoped context —
    /// no variants, not important: `color:blue` claims the label `color`;
    /// payload text without `:` claims nothing. The merge pass builds the
    /// key under the token's own scope instead.
    pub fn from_arbitrary(arbitrary: &str) -> (r: Option<Collision>)
        ensures
            option_collision_view(r) == match arbitrary_label(arbitrary@) {
                Some(lbl) => Some(
                    CollisionKey::Arbitrary {
                        important: false,
                        variants: Seq::empty(),
                        label: lbl,
                    },
                ),
                None => None::<CollisionKey>,
            },
    {
        let n = arbitrary.unicode_len();
        let k = find_char(arbitrary, ':');
        proof {
            crate::strutil::lemma_find_char_in_range(arbitrary@, ':', 0);
        }
        if k < n {
            let label = arbitrary.substring_char(0, k).to_owned();
            proof {
                assert(label@ =~= arbitrary@.take(k as int));
                assert(views_of(Seq::<String>::empty()) =~= Seq::<Seq<char>>::empty());
            }
            Some(Collision::Arbitrary { important: false, variants: Vec::new(), label })
        } else {
            None
        }
    }
}

/// How one token takes part in the merge, once classified.
pub enum Resolution {
    /// No identifier and no label: kept unconditionally, claims nothing.
    Opaque,
    /// An arbitrary payload with a label: exact-label conflict within the
    /// token's variant/importance scope, no closure.
    Labeled { important: bool, variants: Vec<String>, label: String },
    /// A classified utility: its identifier plus the implication closure of
    /// that identifier.
    Classified {
        important: bool,
        variants: Vec<String>,
        collision_id: String,
        collisions: Vec<String>,
    },
}

/// One token as the merge pass sees it: its original text and its resolution.
pub struct ResolvedStyle {
    pub source: String,
    pub resolution: Resolution,
}

/// The mathematical shadow of [`Resolution`].
pub enum ResolutionView {
    Opaque,
    Labeled { important: bool, variants: Seq<Seq<char>>, label: Seq<char> },
    Classified {
        important: bool,
        variants: Seq<Seq<char>>,
        collision_id: Seq<char>,
        collisions: Seq<Seq<char>>,
    },
}

/// The mathematical shadow of [`ResolvedStyle`].
pub struct ResolvedView {
    pub source: Seq<char>,
    pub resolution: ResolutionView,
}

impl View for Resolution {
    type V = ResolutionView;

    open spec fn view(&self) -> ResolutionView {
        match self {
            Resolution::Opaque => ResolutionView::Opaque,
            Resolution::Labeled { important, variants, label } => ResolutionView::Labeled {
                important: *important,
                variants: views_of(variants@),
                label: label@,
            },
            Resolution::Classified { important, variants, collision_id, collisions } =>
                ResolutionView::Classified {
                important: *important,
                variants: views_of(variants@),
                collision_id: collision_id@,
                collisions: views_of(collisions@),
            },
        }
    }
}

impl View for ResolvedStyle {
    type V = ResolvedView;

    open spec fn view(&self) -> ResolvedView {
        ResolvedView { source: self.source@, resolution: self.resolution@ }
    }
}

/// The views of a vector of resolved tokens.
pub open spec fn resolved_views(v: Seq<ResolvedStyle>) -> Seq<ResolvedView> {
    v.map_values(|x: ResolvedStyle| x@)
}

/// The key a resolution competes under, if any.
pub open spec fn res_key(r: ResolutionView) -> Option<CollisionKey> {
    match r {
        ResolutionView::Opaque => None,
        ResolutionView::Labeled { important, variants, label } => Some(
            CollisionKey::Arbitrary { important, variants, label },
        ),
        ResolutionView::Classified { important, variants, collision_id, .. } => Some(
            CollisionKey::Default { important, variants, collision_id },
        ),
    }
}

/// The keys of an identifier list, all under one scope.
pub open spec fn default_keys(
    important: bool,
    variants: Seq<Seq<char>>,
    ids: Seq<Seq<char>>,
) -> Set<CollisionKey> {
    Set::new(
        |k: CollisionKey|
            exists|j: int|
                0 <= j < ids.len() && k == (CollisionKey::Default {
                    important,
                    variants,
                    collision_id: ids[j],
                }),
    )
}

/// Everything a kept token claims: its own key, plus — for a classified
/// utility — the keys of its implication closure under the same scope.
pub open spec fn res_claims(r: ResolutionView) -> Set<CollisionKey> {
    match r {
        ResolutionView::Opaque => Set::empty(),
        ResolutionView::Labeled { important, variants, label } => set![
            CollisionKey::Arbitrary { important, variants, label },
        ],
        ResolutionView::Classified { important, variants, collision_id, collisions } => set![
            CollisionKey::Default { important, variants, collision_id },
        ].union(default_keys(important, variants, collisions)),
    }
}

/// The claimed set after the backward pass has processed every token at
/// index `i` or later: later tokens are processed first, and only kept
/// tokens add claims.
pub open spec fn claimed_from(items: Seq<ResolvedView>, i: int) -> Set<CollisionKey>
    decreases items.len() - i,
{
    if i < 0 || i >= items.len() {
        Set::empty()
    } else {
        let later = claimed_from(items, i + 1);
        match res_key(items[i].resolution) {
            None => later,
            Some(k) => if later.contains(k) {
                later
            } else {
                later.union(res_claims(items[i].resolution))
            },
        }
    }
}

/// Whether the token at index `i` survives: an opaque token always does; a
/// keyed token survives exactly when nothing processed before it (that is,
/// nothing standing after it in the input) has claimed its own key.
pub open spec fn kept_at(items: Seq<ResolvedView>, i: int) -> bool {
    match res_key(items[i].resolution) {
        None => true,
        Some(k) => !claimed_from(items, i + 1).contains(k),
    }
}

/// The sources of the survivors among the first `i` tokens, in input order.
pub open spec fn kept_prefix(items: Seq<ResolvedView>, i: int) -> Seq<Seq<char>>
    decreases i,
{
    if i <= 0 {
        Seq::empty()
    } else {
        kept_prefix(items, i - 1) + (if kept_at(items, i - 1) {
            seq![items[i - 1].source]
        } else {
            Seq::empty()
        })
    }
}

/// The sources of all the survivors, in input order.
pub open spec fn kept_sources(items: Seq<ResolvedView>) -> Seq<Seq<char>> {
    kept_prefix(items, items.len() as int)
}

/// The merged output: the surviving sources joined with single spaces.
pub open spec fn merge_resolved_spec(items: Seq<ResolvedView>) -> Seq<char> {
    join_spaces(kept_sources(items))
}

/// The source text a parse result carries: the record's source, or the raw
/// opaque text.
pub open spec fn source_of(p: Result<AstView, Seq<char>>) -> Seq<char> {
    match p {
        Ok(s) => s.source,
        Err(e) => e,
    }
}

/// How the static tables resolve one parse result: a classified utility
/// claims its identifier and that identifier's implication closure; an
/// unclassified token with a labeled arbitrary payload claims the label; and
/// everything else is opaque.
pub open spec fn resolve_one_spec(p: Result<AstView, Seq<char>>) -> ResolvedView {
    match p {
        Err(raw) => ResolvedView { source: raw, resolution: ResolutionView::Opaque },
        Ok(s) => match collision_id_spec(s.elements) {
            Some(id) => ResolvedView {
                source: s.source,
                resolution: ResolutionView::Classified {
                    important: s.important,
                    variants: s.variants,
                    collision_id: id,
                    collisions: match collisions_spec(id) {
                        Some(c) => c,
                        None => Seq::empty(),
                    },
                },
            },
            None => match s.arbitrary {
                Some(a) => match arbitrary_label(a) {
                    Some(lbl) => ResolvedView {
                        source: s.source,
                        resolution: ResolutionView::Labeled {
                            important: s.important,
                            variants: s.variants,
                            label: lbl,
                        },
                    },
                    None => ResolvedView { source: s.source, resolution: ResolutionView::Opaque },
                },
                None => ResolvedView { source: s.source, resolution: ResolutionView::Opaque },
            },
        },
    }
}

/// The static resolution of a whole parse list.
pub open spec fn resolve_list_spec(ps: Seq<Result<AstView, Seq<char>>>) -> Seq<ResolvedView> {
    ps.map_values(|p: Result<AstView, Seq<char>>| resolve_one_spec(p))
}

/// The full merge as a function of the raw class fragments and the options:
/// parse, resolve against the static tables, run the backward pass, rejoin.
pub open spec fn tw_merge_spec(classes: Seq<Seq<char>>, prefix: Seq<char>, sep: Seq<char>) -> Seq<
    char,
> {
    merge_resolved_spec(resolve_list_spec(parse_list_spec(classes, prefix, sep)))
}

/// The set of keys a vector of collisions stands for.
pub open spec fn keys_of(cs: Seq<Collision>) -> Set<CollisionKey> {
    Set::new(|k: CollisionKey| exists|j: int| 0 <= j < cs.len() && #[trigger] cs[j]@ == k)
}

proof fn lemma_keys_of_push(cs: Seq<Collision>, x: Collision)
    ensures
        keys_of(cs.push(x)) == keys_of(cs).insert(x@),
{
    assert(keys_of(cs.push(x)) =~= keys_of(cs).insert(x@)) by {
        assert forall|k: CollisionKey| keys_of(cs.push(x)).contains(k) implies keys_of(cs).insert(
            x@,
        ).contains(k) by {
            let j = choose|j: int| 0 <= j < cs.push(x).len() && #[trigger] cs.push(x)[j]@ == k;
            if j < cs.len() {
                assert(cs[j]@ == k);
            }
        }
        assert forall|k: CollisionKey| keys_of(cs).insert(x@).contains(k) implies keys_of(
            cs.push(x),
        ).contains(k) by {
            if keys_of(cs).contains(k) {
                let j = choose|j: int| 0 <= j < cs.len() && #[trigger] cs[j]@ == k;
                assert(cs.push(x)[j]@ == k);
            } else {
                assert(cs.push(x)[cs.len() as int]@ == k);
            }
        }
    }
}

fn collision_eq(a: &Collision, b: &Collision) -> (r: bool)
    ensures
        r == (a@ == b@),
{
    match (a, b) {
        (
            Collision::Default { important: ia, variants: va, collision_id: ca },
            Collision::Default { important: ib, variants: vb, collision_id: cb },
        ) => {
            *ia == *ib && str_eq(ca.as_str(), cb.as_str()) && string_vecs_eq(va, vb)
        },
        (
            Collision::Arbitrary { important: ia, variants: va, label: la },
            Collision::Arbitrary { important: ib, variants: vb, label: lb },
        ) => {
            *ia == *ib && str_eq(la.as_str(), lb.as_str()) && string_vecs_eq(va, vb)
        },
        _ => {
            false
        },
    }
}

fn claimed_contains(claimed: &Vec<Collision>, key: &Collision) -> (r: bool)
    ensures
        r == keys_of(claimed@).contains(key@),
{
    let mut j: usize = 0;
    while j < claimed.len()
        invariant
            j <= claimed@.len(),
            forall|t: int| 0 <= t < j ==> #[trigger] claimed@[t]@ != key@,
        decreases claimed@.len() - j,
    {
        if collision_eq(&claimed[j], key) {
            proof {
                assert(claimed@[j as int]@ == key@);
            }
            return true;
        }
        j += 1;
    }
    false
}

/// Runs the backward pass over resolved tokens and reassembles the survivors
/// in original order, joined with single spaces.
pub fn merge_resolved(items: &Vec<ResolvedStyle>) -> (r: String)
    ensures
        r@ == merge_resolved_spec(resolved_views(items@)),
{
    let ghost vs = resolved_views(items@);
    let n = items.len();
    let mut claimed: Vec<Collision> = Vec::new();
    let mut flags_rev: Vec<bool> = Vec::new();
    let mut i: usize = n;
    proof {
        assert(keys_of(claimed@) =~= claimed_from(vs, n as int));
    }
    while i > 0
        invariant
            n == vs.len(),
            n == items@.len(),
            vs == resolved_views(items@),
            i <= n,
            flags_rev@.len() == n - i,
            keys_of(claimed@) == claimed_from(vs, i as int),
            forall|j: int|
                0 <= j < flags_rev@.len() ==> #[trigger] flags_rev@[j] == kept_at(vs, n - 1 - j),
        decreases i,
    {
        i -= 1;
        let ghost later = claimed_from(vs, i as int + 1);
        proof {
            assert(vs[i as int] == items@[i as int]@);
        }
        match &items[i].resolution {
            Resolution::Opaque => {
                flags_rev.push(true);
            },
            Resolution::Labeled { important, variants, label } => {
                let key = Collision::Arbitrary {
                    important: *important,
                    variants: clone_string_vec(variants),
                    label: label.clone(),
                };
                proof {
                    assert(res_key(vs[i as int].resolution) == Some(key@));
                }
                if claimed_contains(&claimed, &key) {
                    flags_rev.push(false);
                } else {
                    proof {
                        lemma_keys_of_push(claimed@, key);
                        assert(later.insert(key@) =~= later.union(
                            res_claims(vs[i as int].resolution),
                        ));
                    }
                    claimed.push(key);
                    flags_rev.push(true);
                }
            },
            Resolution::Classified { important, variants, collision_id, collisions } => {
                let key = Collision::Default {
                    important: *important,
                    variants: clone_string_vec(variants),
                    collision_id: collision_id.clone(),
                };
                proof {
                    assert(res_key(vs[i as int].resolution) == Some(key@));
                }
                if claimed_contains(&claimed, &key) {
                    flags_rev.push(false);
                } else {
                    let ghost base = keys_of(claimed@);
                    let ghost own = key@;
                    let ghost varv = views_of(variants@);
                    let ghost colv = views_of(collisions@);
                    proof {
                        lemma_keys_of_push(claimed@, key);
                    }
                    claimed.push(key);
                    let mut t: usize = 0;
                    while t < collisions.len()
                        invariant
                            t <= colv.len(),
                            colv == views_of(collisions@),
                            varv == views_of(variants@),
                            keys_of(claimed@) == base.insert(own).union(
                                default_keys(*important, varv, colv.take(t as int)),
                            ),
                        decreases colv.len() - t,
                    {
                        let ck = Collision::Default {
                            important: *important,
                            variants: clone_string_vec(variants),
                            collision_id: collisions[t].clone(),
                        };
                        proof {
                            assert(ck@ == (CollisionKey::Default {
                                important: *important,
                                variants: varv,
                                collision_id: colv[t as int],
                            }));
                            let prev = keys_of(claimed@);
                            lemma_keys_of_push(claimed@, ck);
                            assert(prev.insert(ck@) =~= base.insert(own).union(
                                default_keys(*important, varv, colv.take(t as int + 1)),
                            )) by {
                                assert(colv.take(t as int + 1) =~= colv.take(t as int).push(
                                    colv[t as int],
                                ));
                                assert forall|k: CollisionKey|
                                    default_keys(
                                        *important,
                                        varv,
                                        colv.take(t as int + 1),
                                    ).contains(k) implies default_keys(
                                    *important,
                                    varv,
                                    colv.take(t as int),
                                ).contains(k) || k == ck@ by {
                                    let j = choose|j: int|
                                        0 <= j < colv.take(t as int + 1).len() && k
                                            == (CollisionKey::Default {
                                            important: *important,
                                            variants: varv,
                                            collision_id: #[trigger] colv.take(t as int + 1)[j],
                                        });
                                    if j < t {
                                        assert(colv.take(t as int)[j] == colv.take(
                                            t as int + 1,
                                        )[j]);
                                        assert(default_keys(
                                            *important,
                                            varv,
                                            colv.take(t as int),
                                        ).contains(k));
                                    }
                                }
                                assert forall|k: CollisionKey|
                                    default_keys(*important, varv, colv.take(t as int)).contains(
                                        k,
                                    ) implies default_keys(
                                    *important,
                                    varv,
                                    colv.take(t as int + 1),
                                ).contains(k) by {
                                    let j = choose|j: int|
                                        0 <= j < colv.take(t as int).len() && k
                                            == (CollisionKey::Default {
                                            important: *important,
                                            variants: varv,
                                            collision_id: #[trigger] colv.take(t as int)[j],
                                        });
                                    assert(colv.take(t as int + 1)[j] == colv.take(t as int)[j]);
                                }
                                assert(colv.take(t as int + 1)[t as int] == colv[t as int]);
                                assert(default_keys(
                                    *important,
                                    varv,
                                    colv.take(t as int + 1),
                                ).contains(ck@));
                            }
                        }
                        claimed.push(ck);
                        t += 1;
                    }
                    proof {
                        assert(colv.take(colv.len() as int) =~= colv);
                        assert(res_claims(vs[i as int].resolution) =~= set![own].union(
                            default_keys(*important, varv, colv),
                        ));
                        assert(keys_of(claimed@) =~= later.union(
                            res_claims(vs[i as int].resolution),
                        ));
                    }
                    flags_rev.push(true);
                }
            },
        }
    }
    let mut out = String::new();
    let mut any = false;
    let mut p: usize = 0;
    proof {
        assert(kept_prefix(vs, 0) =~= Seq::<Seq<char>>::empty());
    }
    while p < n
        invariant
            n == vs.len(),
            n == items@.len(),
            vs == resolved_views(items@),
            flags_rev@.len() == n,
            forall|j: int|
                0 <= j < flags_rev@.len() ==> #[trigger] flags_rev@[j] == kept_at(vs, n - 1 - j),
            p <= n,
            out@ == join_spaces(kept_prefix(vs, p as int)),
            any == (kept_prefix(vs, p as int).len() > 0),
        decreases n - p,
    {
        proof {
            assert(flags_rev@[n - 1 - p as int] == kept_at(vs, p as int));
        }
        if flags_rev[n - 1 - p] {
            proof {
                let kp = kept_prefix(vs, p as int);
                let kp1 = kept_prefix(vs, p as int + 1);
                assert(kp1 =~= kp + seq![vs[p as int].source]);
                assert(kp1.drop_last() =~= kp);
                assert(kp1.last() == vs[p as int].source);
            }
            if any {
                out.append(" ");
                proof {
                    reveal_strlit(" ");
                    assert(" "@ =~= seq![' ']);
                }
            }
            out.append(items[p].source.as_str());
            any = true;
        } else {
            proof {
                assert(kept_prefix(vs, p as int + 1) =~= kept_prefix(vs, p as int));
            }
        }
        p += 1;
    }
    out
}

/// Resolves one parse result against the static classifier and implication
/// tables.
fn resolve_one(style: &Result<AstStyle, String>) -> (r: ResolvedStyle)
    ensures
        r@ == resolve_one_spec(result_view(*style)),
{
    match style {
        Err(raw) => ResolvedStyle { source: raw.clone(), resolution: Resolution::Opaque },
        Ok(s) => {
            let id_opt = get_collision_id(&s.elements);
            match id_opt {
                Some(id) => {
                    let collisions: Vec<String> = match get_collisions(id.as_str()) {
                        Some(c) => c,
                        None => {
                            let empty: Vec<String> = Vec::new();
                            proof {
                                assert(views_of(empty@) =~= Seq::<Seq<char>>::empty());
                            }
                            empty
                        },
                    };
                    ResolvedStyle {
                        source: s.source.clone(),
                        resolution: Resolution::Classified {
                            important: s.important,
                            variants: clone_string_vec(&s.variants),
                            collision_id: id,
                            collisions,
                        },
                    }
                },
                None => match &s.arbitrary {
                    Some(a) => {
                        let n = a.as_str().unicode_len();
                        let k = find_char(a.as_str(), ':');
                        proof {
                            crate::strutil::lemma_find_char_in_range(a@, ':', 0);
                        }
                        if k < n {
                            let label = a.as_str().substring_char(0, k).to_owned();
                            proof {
                                assert(label@ =~= a@.take(k as int));
                            }
                            ResolvedStyle {
                                source: s.source.clone(),
                                resolution: Resolution::Labeled {
                                    important: s.important,
                                    variants: clone_string_vec(&s.variants),
                                    label,
                                },
                            }
                        } else {
                            ResolvedStyle { source: s.source.clone(), resolution: Resolution::Opaque }
                        }
                    },
                    None => ResolvedStyle { source: s.source.clone(), resolution: Resolution::Opaque },
                },
            }
        },
    }
}

/// Resolves a whole parse list against the static tables.
pub fn resolve_styles(styles: &Vec<Result<AstStyle, String>>) -> (r: Vec<ResolvedStyle>)
    ensures
        resolved_views(r@) == resolve_list_spec(results_view(styles@)),
{
    let ghost ps = results_view(styles@);
    let mut out: Vec<ResolvedStyle> = Vec::new();
    let mut i: usize = 0;
    while i < styles.len()
        invariant
            i <= styles@.len(),
            ps == results_view(styles@),
            resolved_views(out@) =~= resolve_list_spec(ps.take(i as int)),
        decreases styles@.len() - i,
    {
        let one = resolve_one(&styles[i]);
        proof {
            assert(resolved_views(out@.push(one)) =~= resolved_views(out@) + seq![one@]);
            assert(resolve_list_spec(ps.take(i as int + 1)) =~= resolve_list_spec(
                ps.take(i as int),
            ) + seq![resolve_one_spec(ps[i as int])]);
        }
        out.push(one);
        i += 1;
    }
    proof {
        assert(ps.take(ps.len() as int) =~= ps);
    }
    out
}

/// Merges class fragments with explicit options: every whitespace-delimited
/// atom is parsed, classified against the static tables, and the later of
/// two conflicting tokens wins within its variant/importance scope.
pub fn tw_merge_slice_options(class: &[&str], options: &MergeOptions) -> (r: String)
    ensures
        r@ == tw_merge_spec(
            class@.map_values(|s: &str| s@),
            options.prefix@,
            options.separator@,
        ),
{
    let styles = parse_tailwind(class, options);
    let resolved = resolve_styles(&styles);
    merge_resolved(&resolved)
}

/// Merges class fragments under the default options: no prefix, `:` as the
/// variant separator.
pub fn tw_merge_slice(class: &[&str]) -> (r: String)
    ensures
        r@ == tw_merge_spec(class@.map_values(|s: &str| s@), ""@, ":"@),
{
    let options: MergeOptions = Default::default();
    tw_merge_slice_options(class, &options)
}

/// A caller-supplied classifier, consulted before the static table; `None`
/// falls back to the table.
pub trait CollisionIdFn {
    /// The collision identifier for a base with the given elements and
    /// arbitrary payload, if this override recognises it.
    fn apply(&self, elements: &Vec<String>, arbitrary: Option<&str>) -> Option<String>;
}

/// A caller-supplied implication lookup, consulted before the static table;
/// `None` falls back to the table.
pub trait GetCollisionsFn {
    /// The identifiers the given identifier subsumes, if this override
    /// recognises it.
    fn apply(&self, collision_id: &str) -> Option<Vec<String>>;
}

/// One token's resolution as the override merge performs it, given what the
/// caller's hooks answered: a `Some` classifier answer is the collision
/// identifier, the static table deciding only on `None`; a classified
/// token's closure is the `Some` implication answer, the static table's
/// entry (empty when absent) only on `None`; a token resolves opaque only
/// when neither the answer nor the table names an identifier and no labeled
/// arbitrary payload stands.
pub open spec fn resolve_one_with(
    p: Result<AstView, Seq<char>>,
    id_answer: Option<Seq<char>>,
    collisions_answer: Option<Seq<Seq<char>>>,
) -> ResolvedView {
    match p {
        Err(raw) => ResolvedView { source: raw, resolution: ResolutionView::Opaque },
        Ok(s) => {
            let id_opt = match id_answer {
                Some(id) => Some(id),
                None => collision_id_spec(s.elements),
            };
            match id_opt {
                Some(id) => ResolvedView {
                    source: s.source,
                    resolution: ResolutionView::Classified {
                        important: s.important,
                        variants: s.variants,
                        collision_id: id,
                        collisions: match collisions_answer {
                            Some(c) => c,
                            None => match collisions_spec(id) {
                                Some(c) => c,
                                None => Seq::empty(),
                            },
                        },
                    },
                },
                None => match s.arbitrary {
                    Some(a) => match arbitrary_label(a) {
                        Some(lbl) => ResolvedView {
                            source: s.source,
                            resolution: ResolutionView::Labeled {
                                important: s.important,
                                variants: s.variants,
                                label: lbl,
                            },
                        },
                        None => ResolvedView {
                            source: s.source,
                            resolution: ResolutionView::Opaque,
                        },
                    },
                    None => ResolvedView { source: s.source, resolution: ResolutionView::Opaque },
                },
            }
        },
    }
}

/// The resolutions of a whole parse list under per-token hook answers.
pub open spec fn resolve_list_with(
    ps: Seq<Result<AstView, Seq<char>>>,
    answers: Seq<(Option<Seq<char>>, Option<Seq<Seq<char>>>)>,
) -> Seq<ResolvedView> {
    Seq::new(ps.len(), |i: int| resolve_one_with(ps[i], answers[i].0, answers[i].1))
}

/// The relation the override merge guarantees: for some per-token hook
/// answers, every token resolves answer-first with static-table fallback,
/// and the output is the backward pass over exactly those resolutions.
pub open spec fn override_merge_ok(
    ps: Seq<Result<AstView, Seq<char>>>,
    answers: Seq<(Option<Seq<char>>, Option<Seq<Seq<char>>>)>,
    out: Seq<char>,
) -> bool {
    answers.len() == ps.len() && out == merge_resolved_spec(resolve_list_with(ps, answers))
}

/// Merges class fragments, consulting the caller's classifier and
/// implication overrides before the static tables: a `Some` answer decides,
/// a `None` answer falls back to the table, token by token.
pub fn tw_merge_with_override<F: CollisionIdFn, G: GetCollisionsFn>(
    class: &[&str],
    options: &MergeOptions,
    collision_id_fn: F,
    collisions_fn: G,
) -> (r: String)
    ensures
        exists|answers: Seq<(Option<Seq<char>>, Option<Seq<Seq<char>>>)>|
            #[trigger] override_merge_ok(
                parse_list_spec(
                    crate::strutil::strs_views(class@),
                    options.prefix@,
                    options.separator@,
                ),
                answers,
                r@,
            ),
{
    let styles = parse_tailwind(class, options);
    let ghost ps = results_view(styles@);
    let ghost mut answers: Seq<(Option<Seq<char>>, Option<Seq<Seq<char>>>)> = Seq::empty();
    let mut resolved: Vec<ResolvedStyle> = Vec::new();
    let mut i: usize = 0;
    while i < styles.len()
        invariant
            i <= styles@.len(),
            ps == results_view(styles@),
            resolved@.len() == i,
            answers.len() == i,
            forall|j: int|
                0 <= j < i ==> #[trigger] resolved_views(resolved@)[j] == resolve_one_with(
                    ps[j],
                    answers[j].0,
                    answers[j].1,
                ),
        decreases styles@.len() - i,
    {
        let ghost mut ida: Option<Seq<char>> = None;
        let ghost mut ca: Option<Seq<Seq<char>>> = None;
        let one: ResolvedStyle = match &styles[i] {
            Err(raw) => ResolvedStyle { source: raw.clone(), resolution: Resolution::Opaque },
            Ok(s) => {
                let arb: Option<&str> = match &s.arbitrary {
                    Some(a) => Some(a.as_str()),
                    None => None,
                };
                let overridden = collision_id_fn.apply(&s.elements, arb);
                proof {
                    ida = crate::collision_id::option_view(overridden);
                }
                let id_opt: Option<String> = match overridden {
                    Some(id) => Some(id),
                    None => get_collision_id(&s.elements),
                };
                match id_opt {
                    Some(id) => {
                        let answered = collisions_fn.apply(id.as_str());
                        proof {
                            ca = crate::collisions::option_views(answered);
                        }
                        let collisions: Vec<String> = match answered {
                            Some(c) => c,
                            None => match get_collisions(id.as_str()) {
                                Some(c) => c,
                                None => {
                                    let empty: Vec<String> = Vec::new();
                                    proof {
                                        assert(views_of(empty@) =~= Seq::<Seq<char>>::empty());
                                    }
                                    empty
                                },
                            },
                        };
                        ResolvedStyle {
                            source: s.source.clone(),
                            resolution: Resolution::Classified {
                                important: s.important,
                                variants: clone_string_vec(&s.variants),
                                collision_id: id,
                                collisions,
                            },
                        }
                    },
                    None => match &s.arbitrary {
                        Some(a) => {
                            let n = a.as_str().unicode_len();
                            let k = find_char(a.as_str(), ':');
                            proof {
                                crate::strutil::lemma_find_char_in_range(a@, ':', 0);
                            }
                            if k < n {
                                let label = a.as_str().substring_char(0, k).to_owned();
                                proof {
                                    assert(label@ =~= a@.take(k as int));
                                }
                                ResolvedStyle {
                                    source: s.source.clone(),
                                    resolution: Resolution::Labeled {
                                        important: s.important,
                                        variants: clone_string_vec(&s.variants),
                                        label,
                                    },
                                }
                            } else {
                                ResolvedStyle {
                                    source: s.source.clone(),
                                    resolution: Resolution::Opaque,
                                }
                            }
                        },
                        None => ResolvedStyle {
                            source: s.source.clone(),
                            resolution: Resolution::Opaque,
                        },
                    },
                }
            },
        };
        let ghost old_resolved = resolved@;
        proof {
            assert(one@ == resolve_one_with(ps[i as int], ida, ca));
            answers = answers.push((ida, ca));
        }
        resolved.push(one);
        i += 1;
        proof {
            assert forall|j: int|
                0 <= j < i implies #[trigger] resolved_views(resolved@)[j] == resolve_one_with(
                ps[j],
                answers[j].0,
                answers[j].1,
            ) by {
                if j < i - 1 {
                    assert(resolved_views(old_resolved.push(resolved@[i - 1]))[j] == resolved_views(
                        old_resolved,
                    )[j]);
                    assert(answers[j] == answers.drop_last()[j]);
                } else {
                    assert(resolved_views(resolved@)[j] == resolved@[j]@);
                }
            }
        }
    }
    let out = merge_resolved(&resolved);
    proof {
        assert(crate::strutil::strs_views(class@) =~= class@.map_values(|s: &str| s@));
        assert(resolved_views(resolved@) =~= resolve_list_with(ps, answers));
        assert(override_merge_ok(ps, answers, out@));
    }
    out
}

} // verus!
