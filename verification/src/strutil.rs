//! Character-level string helpers: equality, prefix tests, whitespace
//! splitting, separator splitting (bracket-aware), and space-joined
//! concatenation. Every executable function is proved against a direct
//! specification over `Seq<char>` views.

use vstd::prelude::*;

verus! {

/// The whitespace characters recognised when splitting class text into
/// atoms: the characters with the Unicode `White_Space` property.
pub open spec fn is_space(c: char) -> bool {
    c == ' ' || c == '\t' || c == '\n' || c == '\r' || c == '\x0b' || c == '\x0c' || c == '\u{85}'
        || c == '\u{a0}' || c == '\u{1680}' || ('\u{2000}' <= c && c <= '\u{200a}') || c
        == '\u{2028}' || c == '\u{2029}' || c == '\u{202f}' || c == '\u{205f}' || c == '\u{3000}'
}

/// The views of a vector of strings.
pub open spec fn views_of(v: Seq<String>) -> Seq<Seq<char>> {
    v.map_values(|t: String| t@)
}

/// The views of a sequence of string slices.
pub open spec fn strs_views(v: Seq<&str>) -> Seq<Seq<char>> {
    v.map_values(|s: &str| s@)
}

/// `p` is a prefix of `s`.
pub open spec fn is_prefix_of(p: Seq<char>, s: Seq<char>) -> bool {
    p.len() <= s.len() && s.subrange(0, p.len() as int) == p
}

/// Whitespace splitting, one character at a time: `cur` is the atom being
/// accumulated. Atoms are maximal nonempty runs of non-space characters.
pub open spec fn split_ws_from(s: Seq<char>, cur: Seq<char>) -> Seq<Seq<char>>
    decreases s.len(),
{
    if s.len() == 0 {
        if cur.len() == 0 {
            Seq::empty()
        } else {
            seq![cur]
        }
    } else if is_space(s[0]) {
        if cur.len() == 0 {
            split_ws_from(s.drop_first(), cur)
        } else {
            seq![cur] + split_ws_from(s.drop_first(), Seq::empty())
        }
    } else {
        split_ws_from(s.drop_first(), cur.push(s[0]))
    }
}

/// The whitespace-delimited atoms of `s`, in order.
pub open spec fn split_ws(s: Seq<char>) -> Seq<Seq<char>> {
    split_ws_from(s, Seq::empty())
}

/// Splitting on a single character, dropping empty segments, one character at
/// a time.
pub open spec fn split_char_from(s: Seq<char>, sep: char, cur: Seq<char>) -> Seq<Seq<char>>
    decreases s.len(),
{
    if s.len() == 0 {
        if cur.len() == 0 {
            Seq::empty()
        } else {
            seq![cur]
        }
    } else if s[0] == sep {
        if cur.len() == 0 {
            split_char_from(s.drop_first(), sep, cur)
        } else {
            seq![cur] + split_char_from(s.drop_first(), sep, Seq::empty())
        }
    } else {
        split_char_from(s.drop_first(), sep, cur.push(s[0]))
    }
}

/// The nonempty segments of `s` delimited by `sep`, in order.
pub open spec fn split_char(s: Seq<char>, sep: char) -> Seq<Seq<char>> {
    split_char_from(s, sep, Seq::empty())
}

/// How a `[`/`]` character changes the bracket nesting depth.
pub open spec fn next_depth(depth: nat, c: char) -> nat {
    if c == '[' {
        depth + 1
    } else if c == ']' {
        if depth > 0 {
            (depth - 1) as nat
        } else {
            0
        }
    } else {
        depth
    }
}

/// Splitting on a separator string at bracket depth zero. Every occurrence of
/// `sep` outside `[...]` spans ends a segment; empty segments are kept, so the
/// result always holds at least one segment. An empty separator never splits.
pub open spec fn split_sep_from(
    s: Seq<char>,
    sep: Seq<char>,
    depth: nat,
    cur: Seq<char>,
) -> Seq<Seq<char>>
    decreases s.len(),
{
    if sep.len() == 0 {
        seq![cur + s]
    } else if s.len() == 0 {
        seq![cur]
    } else if depth == 0 && is_prefix_of(sep, s) {
        seq![cur] + split_sep_from(s.skip(sep.len() as int), sep, 0, Seq::empty())
    } else {
        split_sep_from(s.drop_first(), sep, next_depth(depth, s[0]), cur.push(s[0]))
    }
}

/// The segments of `s` delimited by `sep` outside brackets, in order.
pub open spec fn split_sep(s: Seq<char>, sep: Seq<char>) -> Seq<Seq<char>> {
    split_sep_from(s, sep, 0, Seq::empty())
}

/// The pieces joined with single spaces between them.
pub open spec fn join_spaces(xs: Seq<Seq<char>>) -> Seq<char>
    decreases xs.len(),
{
    if xs.len() == 0 {
        Seq::empty()
    } else if xs.len() == 1 {
        xs[0]
    } else {
        join_spaces(xs.drop_last()) + seq![' '] + xs.last()
    }
}

/// An ASCII decimal digit.
pub open spec fn is_digit(c: char) -> bool {
    '0' <= c <= '9'
}

/// The numeric value of a digit character.
pub open spec fn digit_val(c: char) -> int {
    c as int - 48
}

/// Every character is a digit.
pub open spec fn all_digits(s: Seq<char>) -> bool {
    forall|i: int| 0 <= i < s.len() ==> is_digit(#[trigger] s[i])
}

/// The value of a digit run read as a decimal number.
pub open spec fn digits_val(s: Seq<char>) -> int
    decreases s.len(),
{
    if s.len() == 0 {
        0
    } else {
        digits_val(s.drop_last()) * 10 + digit_val(s.last())
    }
}

/// The whitespace-delimited atoms of all the fragments, in order.
pub open spec fn join_atoms(classes: Seq<Seq<char>>) -> Seq<Seq<char>>
    decreases classes.len(),
{
    if classes.len() == 0 {
        Seq::empty()
    } else {
        join_atoms(classes.drop_last()) + split_ws(classes.last())
    }
}

/// First index of `c` in `s` at or after `i`, or `-1` if absent.
pub open spec fn find_char_from(s: Seq<char>, c: char, i: int) -> int
    decreases s.len() - i,
{
    if i < 0 || i >= s.len() {
        -1
    } else if s[i] == c {
        i
    } else {
        find_char_from(s, c, i + 1)
    }
}

/// Whether `c` occurs in `s`.
pub open spec fn contains_char(s: Seq<char>, c: char) -> bool {
    find_char_from(s, c, 0) >= 0
}

fn is_space_char(c: char) -> (r: bool)
    ensures
        r == is_space(c),
{
    c == ' ' || c == '\t' || c == '\n' || c == '\r' || c == '\x0b' || c == '\x0c' || c == '\u{85}'
        || c == '\u{a0}' || c == '\u{1680}' || ('\u{2000}' <= c && c <= '\u{200a}') || c
        == '\u{2028}' || c == '\u{2029}' || c == '\u{202f}' || c == '\u{205f}' || c == '\u{3000}'
}

/// Character-by-character string equality, proved to decide view equality.
pub fn str_eq(a: &str, b: &str) -> (r: bool)
    ensures
        r == (a@ == b@),
{
    let alen = a.unicode_len();
    let blen = b.unicode_len();
    if alen != blen {
        return false;
    }
    let mut i: usize = 0;
    while i < alen
        invariant
            alen == a@.len(),
            blen == b@.len(),
            alen == blen,
            i <= alen,
            forall|k: int| 0 <= k < i ==> a@[k] == b@[k],
        decreases alen - i,
    {
        if a.get_char(i) != b.get_char(i) {
            return false;
        }
        i += 1;
    }
    proof {
        assert(a@ =~= b@);
    }
    true
}

/// Whether the characters of `p` stand in `s` at position `i`.
pub fn match_at(s: &str, i: usize, p: &str) -> (r: bool)
    requires
        i <= s@.len(),
    ensures
        r == is_prefix_of(p@, s@.skip(i as int)),
{
    let slen = s.unicode_len();
    let plen = p.unicode_len();
    if plen > slen - i {
        return false;
    }
    let mut k: usize = 0;
    while k < plen
        invariant
            slen == s@.len(),
            plen == p@.len(),
            i + plen <= slen,
            k <= plen,
            forall|j: int| 0 <= j < k ==> s@[i + j] == p@[j],
        decreases plen - k,
    {
        if s.get_char(i + k) != p.get_char(k) {
            proof {
                assert(s@.skip(i as int)[k as int] == s@[i + k]);
                assert(!is_prefix_of(p@, s@.skip(i as int))) by {
                    if is_prefix_of(p@, s@.skip(i as int)) {
                        assert(s@.skip(i as int).subrange(0, p@.len() as int)[k as int]
                            == p@[k as int]);
                    }
                }
            }
            return false;
        }
        k += 1;
    }
    proof {
        assert(s@.skip(i as int).subrange(0, p@.len() as int) =~= p@);
    }
    true
}

/// `p` is a prefix of `s`, decided character by character.
pub fn starts_with(s: &str, p: &str) -> (r: bool)
    ensures
        r == is_prefix_of(p@, s@),
{
    let r = match_at(s, 0, p);
    proof {
        assert(s@.skip(0) =~= s@);
    }
    r
}

/// The whitespace-delimited atoms of `s`, each an owned string.
pub fn split_whitespace_atoms(s: &str) -> (r: Vec<String>)
    ensures
        views_of(r@) == split_ws(s@),
{
    let n = s.unicode_len();
    let mut out: Vec<String> = Vec::new();
    let mut i: usize = 0;
    let mut start: usize = 0;
    proof {
        assert(s@.skip(0) =~= s@);
        assert(s@.subrange(0, 0) =~= Seq::<char>::empty());
        assert(views_of(out@) + split_ws_from(s@, Seq::empty()) =~= split_ws(s@));
    }
    while i < n
        invariant
            n == s@.len(),
            start <= i <= n,
            split_ws(s@) == views_of(out@) + split_ws_from(
                s@.skip(i as int),
                s@.subrange(start as int, i as int),
            ),
        decreases n - i,
    {
        let c = s.get_char(i);
        proof {
            assert(s@.skip(i as int)[0] == s@[i as int]);
            assert(s@.skip(i as int).drop_first() =~= s@.skip(i as int + 1));
        }
        if is_space_char(c) {
            if start < i {
                let atom = s.substring_char(start, i).to_owned();
                proof {
                    assert(views_of(out@.push(atom)) =~= views_of(out@) + seq![atom@]);
                    assert(views_of(out@) + (seq![atom@] + split_ws_from(
                        s@.skip(i as int + 1),
                        Seq::empty(),
                    )) =~= views_of(out@.push(atom)) + split_ws_from(
                        s@.skip(i as int + 1),
                        Seq::empty(),
                    ));
                    assert(s@.subrange(i as int + 1, i as int + 1) =~= Seq::<char>::empty());
                }
                out.push(atom);
            } else {
                proof {
                    assert(s@.subrange(start as int, i as int) =~= Seq::<char>::empty());
                    assert(s@.subrange(i as int + 1, i as int + 1) =~= Seq::<char>::empty());
                }
            }
            start = i + 1;
            i += 1;
        } else {
            proof {
                assert(s@.subrange(start as int, i as int + 1) =~= s@.subrange(
                    start as int,
                    i as int,
                ).push(s@[i as int]));
            }
            i += 1;
        }
    }
    proof {
        assert(s@.skip(n as int) =~= Seq::<char>::empty());
    }
    if start < n {
        let atom = s.substring_char(start, n).to_owned();
        proof {
            assert(views_of(out@.push(atom)) =~= views_of(out@) + seq![atom@]);
        }
        out.push(atom);
    } else {
        proof {
            assert(s@.subrange(start as int, n as int) =~= Seq::<char>::empty());
            assert(views_of(out@) + Seq::<Seq<char>>::empty() =~= views_of(out@));
        }
    }
    out
}

/// The nonempty `sep`-delimited segments of `s`, each an owned string.
pub fn split_char_nonempty(s: &str, sep: char) -> (r: Vec<String>)
    ensures
        views_of(r@) == split_char(s@, sep),
{
    let n = s.unicode_len();
    let mut out: Vec<String> = Vec::new();
    let mut i: usize = 0;
    let mut start: usize = 0;
    proof {
        assert(s@.skip(0) =~= s@);
        assert(s@.subrange(0, 0) =~= Seq::<char>::empty());
        assert(views_of(out@) + split_char_from(s@, sep, Seq::empty()) =~= split_char(s@, sep));
    }
    while i < n
        invariant
            n == s@.len(),
            start <= i <= n,
            split_char(s@, sep) == views_of(out@) + split_char_from(
                s@.skip(i as int),
                sep,
                s@.subrange(start as int, i as int),
            ),
        decreases n - i,
    {
        let c = s.get_char(i);
        proof {
            assert(s@.skip(i as int)[0] == s@[i as int]);
            assert(s@.skip(i as int).drop_first() =~= s@.skip(i as int + 1));
        }
        if c == sep {
            if start < i {
                let piece = s.substring_char(start, i).to_owned();
                proof {
                    assert(views_of(out@) + (seq![piece@] + split_char_from(
                        s@.skip(i as int + 1),
                        sep,
                        Seq::empty(),
                    )) =~= views_of(out@.push(piece)) + split_char_from(
                        s@.skip(i as int + 1),
                        sep,
                        Seq::empty(),
                    ));
                    assert(s@.subrange(i as int + 1, i as int + 1) =~= Seq::<char>::empty());
                }
                out.push(piece);
            } else {
                proof {
                    assert(s@.subrange(start as int, i as int) =~= Seq::<char>::empty());
                    assert(s@.subrange(i as int + 1, i as int + 1) =~= Seq::<char>::empty());
                }
            }
            start = i + 1;
            i += 1;
        } else {
            proof {
                assert(s@.subrange(start as int, i as int + 1) =~= s@.subrange(
                    start as int,
                    i as int,
                ).push(s@[i as int]));
            }
            i += 1;
        }
    }
    proof {
        assert(s@.skip(n as int) =~= Seq::<char>::empty());
    }
    if start < n {
        let piece = s.substring_char(start, n).to_owned();
        proof {
            assert(views_of(out@.push(piece)) =~= views_of(out@) + seq![piece@]);
        }
        out.push(piece);
    } else {
        proof {
            assert(s@.subrange(start as int, n as int) =~= Seq::<char>::empty());
            assert(views_of(out@) + Seq::<Seq<char>>::empty() =~= views_of(out@));
        }
    }
    out
}

/// The segments of `s` delimited by the separator string outside brackets,
/// each an owned string. The result always holds at least one segment.
pub fn split_on_separator(s: &str, sep: &str) -> (r: Vec<String>)
    ensures
        views_of(r@) == split_sep(s@, sep@),
        r@.len() >= 1,
{
    let seplen = sep.unicode_len();
    if seplen == 0 {
        let whole = s.to_owned();
        let mut out: Vec<String> = Vec::new();
        out.push(whole);
        proof {
            assert(Seq::<char>::empty() + s@ =~= s@);
            assert(views_of(out@) =~= seq![s@]);
        }
        return out;
    }
    let n = s.unicode_len();
    let mut out: Vec<String> = Vec::new();
    let mut i: usize = 0;
    let mut start: usize = 0;
    let mut depth: usize = 0;
    proof {
        assert(s@.skip(0) =~= s@);
        assert(s@.subrange(0, 0) =~= Seq::<char>::empty());
        assert(views_of(out@) + split_sep_from(s@, sep@, 0, Seq::empty()) =~= split_sep(
            s@,
            sep@,
        ));
    }
    while i < n
        invariant
            n == s@.len(),
            seplen == sep@.len(),
            seplen >= 1,
            start <= i <= n,
            depth <= i,
            split_sep(s@, sep@) == views_of(out@) + split_sep_from(
                s@.skip(i as int),
                sep@,
                depth as nat,
                s@.subrange(start as int, i as int),
            ),
        decreases n - i,
    {
        proof {
            assert(s@.skip(i as int)[0] == s@[i as int]);
            assert(s@.skip(i as int).drop_first() =~= s@.skip(i as int + 1));
        }
        if depth == 0 && match_at(s, i, sep) {
            let piece = s.substring_char(start, i).to_owned();
            proof {
                assert(s@.skip(i as int).skip(seplen as int) =~= s@.skip(i as int + seplen as int));
                assert(views_of(out@) + (seq![piece@] + split_sep_from(
                    s@.skip(i as int + seplen as int),
                    sep@,
                    0,
                    Seq::empty(),
                )) =~= views_of(out@.push(piece)) + split_sep_from(
                    s@.skip(i as int + seplen as int),
                    sep@,
                    0,
                    Seq::empty(),
                ));
            }
            out.push(piece);
            i += seplen;
            start = i;
            proof {
                assert(s@.subrange(start as int, i as int) =~= Seq::<char>::empty());
            }
        } else {
            let c = s.get_char(i);
            if c == '[' {
                depth += 1;
            } else if c == ']' {
                if depth > 0 {
                    depth -= 1;
                }
            }
            proof {
                assert(s@.subrange(start as int, i as int + 1) =~= s@.subrange(
                    start as int,
                    i as int,
                ).push(s@[i as int]));
            }
            i += 1;
        }
    }
    proof {
        assert(s@.skip(n as int) =~= Seq::<char>::empty());
    }
    let last = s.substring_char(start, n).to_owned();
    proof {
        assert(views_of(out@.push(last)) =~= views_of(out@) + seq![last@]);
    }
    out.push(last);
    out
}

/// Joins the pieces with single spaces.
pub fn join_with_spaces(items: &Vec<String>) -> (r: String)
    ensures
        r@ == join_spaces(views_of(items@)),
{
    let mut out = String::new();
    let mut i: usize = 0;
    while i < items.len()
        invariant
            i <= items@.len(),
            out@ == join_spaces(views_of(items@).take(i as int)),
        decreases items@.len() - i,
    {
        proof {
            let xs = views_of(items@);
            assert(xs.take(i as int + 1).drop_last() =~= xs.take(i as int));
            assert(xs.take(i as int + 1).last() == xs[i as int]);
        }
        if i > 0 {
            out.append(" ");
            proof {
                reveal_strlit(" ");
                assert(" "@ =~= seq![' ']);
            }
        }
        out.append(items[i].as_str());
        i += 1;
    }
    proof {
        assert(views_of(items@).take(items@.len() as int) =~= views_of(items@));
    }
    out
}

/// No whitespace character stands in `s`.
pub open spec fn space_free(s: Seq<char>) -> bool {
    forall|i: int| 0 <= i < s.len() ==> !is_space(#[trigger] s[i])
}

/// A well-formed atom: nonempty and free of whitespace.
pub open spec fn atom_ok(a: Seq<char>) -> bool {
    a.len() > 0 && space_free(a)
}

/// Every atom that whitespace splitting yields is nonempty and free of
/// whitespace, provided the partial atom carried in is.
pub proof fn lemma_split_ws_atoms_ok(s: Seq<char>, cur: Seq<char>)
    requires
        space_free(cur),
    ensures
        forall|t: int|
            0 <= t < split_ws_from(s, cur).len() ==> atom_ok(#[trigger] split_ws_from(s, cur)[t]),
    decreases s.len(),
{
    if s.len() == 0 {
        if cur.len() > 0 {
            assert(split_ws_from(s, cur) =~= seq![cur]);
            assert(split_ws_from(s, cur)[0] == cur);
        }
    } else if is_space(s[0]) {
        if cur.len() == 0 {
            lemma_split_ws_atoms_ok(s.drop_first(), cur);
            assert(split_ws_from(s, cur) == split_ws_from(s.drop_first(), cur));
        } else {
            lemma_split_ws_atoms_ok(s.drop_first(), Seq::empty());
            let rec = split_ws_from(s.drop_first(), Seq::empty());
            assert forall|t: int| 0 <= t < split_ws_from(s, cur).len() implies atom_ok(
                #[trigger] split_ws_from(s, cur)[t],
            ) by {
                if t == 0 {
                    assert(split_ws_from(s, cur)[0] == cur);
                } else {
                    assert(split_ws_from(s, cur)[t] == rec[t - 1]);
                }
            }
        }
    } else {
        assert(space_free(cur.push(s[0]))) by {
            assert(forall|i: int| 0 <= i < cur.len() ==> cur.push(s[0])[i] == cur[i]);
            assert(cur.push(s[0])[cur.len() as int] == s[0]);
        }
        lemma_split_ws_atoms_ok(s.drop_first(), cur.push(s[0]));
        assert(split_ws_from(s, cur) == split_ws_from(s.drop_first(), cur.push(s[0])));
    }
}

/// Joining distributes over the head piece: the head, then a space, then the
/// join of the rest.
pub proof fn lemma_join_spaces_cons(x: Seq<char>, rest: Seq<Seq<char>>)
    ensures
        join_spaces(seq![x] + rest) == if rest.len() == 0 {
            x
        } else {
            x + seq![' '] + join_spaces(rest)
        },
    decreases rest.len(),
{
    let all = seq![x] + rest;
    if rest.len() == 0 {
        assert(all =~= seq![x]);
    } else {
        assert(all.drop_last() =~= seq![x] + rest.drop_last());
        assert(all.last() == rest.last());
        lemma_join_spaces_cons(x, rest.drop_last());
        if rest.len() == 1 {
            assert(rest.drop_last() =~= Seq::<Seq<char>>::empty());
            assert(join_spaces(rest) == rest[0]);
            assert(rest.last() == rest[0]);
            assert(join_spaces(seq![x] + rest.drop_last()) =~= x);
        } else {
            assert((x + seq![' '] + join_spaces(rest.drop_last())) + seq![' '] + rest.last() =~= x
                + seq![' '] + (join_spaces(rest.drop_last()) + seq![' '] + rest.last()));
        }
    }
}

/// Whitespace splitting walks over a whitespace-free prefix by absorbing it
/// into the carried atom.
pub proof fn lemma_split_nonspace_prefix(a: Seq<char>, b: Seq<char>, cur: Seq<char>)
    requires
        space_free(a),
    ensures
        split_ws_from(a + b, cur) == split_ws_from(b, cur + a),
    decreases a.len(),
{
    if a.len() == 0 {
        assert(a + b =~= b);
        assert(cur + a =~= cur);
    } else {
        assert((a + b)[0] == a[0]);
        assert((a + b).drop_first() =~= a.drop_first() + b);
        assert(space_free(a.drop_first())) by {
            assert(forall|i: int|
                0 <= i < a.drop_first().len() ==> a.drop_first()[i] == a[i + 1]);
        }
        lemma_split_nonspace_prefix(a.drop_first(), b, cur.push(a[0]));
        assert(cur.push(a[0]) + a.drop_first() =~= cur + a);
    }
}

/// Splitting the space-joined atoms yields the atoms back, provided each is
/// nonempty and whitespace-free.
pub proof fn lemma_split_join_roundtrip(atoms: Seq<Seq<char>>)
    requires
        forall|t: int| 0 <= t < atoms.len() ==> atom_ok(#[trigger] atoms[t]),
    ensures
        split_ws(join_spaces(atoms)) == atoms,
    decreases atoms.len(),
{
    if atoms.len() == 0 {
        assert(split_ws(join_spaces(atoms)) =~= Seq::<Seq<char>>::empty());
    } else {
        let x = atoms[0];
        let rest = atoms.drop_first();
        assert(atoms =~= seq![x] + rest);
        assert(forall|t: int| 0 <= t < rest.len() ==> rest[t] == atoms[t + 1]);
        assert(forall|t: int| 0 <= t < rest.len() ==> atom_ok(#[trigger] rest[t]));
        lemma_join_spaces_cons(x, rest);
        assert(atom_ok(x));
        if rest.len() == 0 {
            lemma_split_nonspace_prefix(x, Seq::empty(), Seq::empty());
            assert(x + Seq::<char>::empty() =~= x);
            assert(Seq::<char>::empty() + x =~= x);
            assert(split_ws(join_spaces(atoms)) =~= seq![x]);
        } else {
            lemma_split_join_roundtrip(rest);
            let jr = join_spaces(rest);
            assert(join_spaces(atoms) == x + seq![' '] + jr);
            assert(x + seq![' '] + jr =~= x + (seq![' '] + jr));
            lemma_split_nonspace_prefix(x, seq![' '] + jr, Seq::empty());
            assert(Seq::<char>::empty() + x =~= x);
            assert((seq![' '] + jr)[0] == ' ');
            assert((seq![' '] + jr).drop_first() =~= jr);
            assert(split_ws_from(seq![' '] + jr, x) =~= seq![x] + split_ws_from(
                jr,
                Seq::empty(),
            ));
            assert(split_ws(join_spaces(atoms)) =~= seq![x] + rest);
        }
    }
}

/// A found index is in range and holds the sought character; everything
/// before it does not.
pub proof fn lemma_find_char_in_range(s: Seq<char>, c: char, i: int)
    requires
        0 <= i,
    ensures
        find_char_from(s, c, i) >= 0 ==> i <= find_char_from(s, c, i) < s.len() && s[find_char_from(
            s,
            c,
            i,
        )] == c,
        find_char_from(s, c, i) < 0 ==> (forall|k: int| i <= k < s.len() ==> s[k] != c),
    decreases s.len() - i,
{
    if 0 <= i < s.len() {
        if s[i] == c {
        } else {
            lemma_find_char_in_range(s, c, i + 1);
        }
    }
}

/// Elementwise equality of two string vectors, proved to decide equality of
/// their views.
pub fn string_vecs_eq(a: &Vec<String>, b: &Vec<String>) -> (r: bool)
    ensures
        r == (views_of(a@) == views_of(b@)),
{
    if a.len() != b.len() {
        proof {
            assert(views_of(a@).len() != views_of(b@).len());
        }
        return false;
    }
    let mut i: usize = 0;
    while i < a.len()
        invariant
            a@.len() == b@.len(),
            i <= a@.len(),
            forall|k: int| 0 <= k < i ==> #[trigger] a@[k]@ == b@[k]@,
        decreases a@.len() - i,
    {
        if !str_eq(a[i].as_str(), b[i].as_str()) {
            proof {
                assert(views_of(a@)[i as int] != views_of(b@)[i as int]);
            }
            return false;
        }
        i += 1;
    }
    proof {
        assert(views_of(a@) =~= views_of(b@));
    }
    true
}

/// A copy of a string vector with the same view.
pub fn clone_string_vec(v: &Vec<String>) -> (r: Vec<String>)
    ensures
        r@ == v@,
{
    let mut out: Vec<String> = Vec::new();
    let mut i: usize = 0;
    while i < v.len()
        invariant
            i <= v@.len(),
            out@ =~= v@.take(i as int),
        decreases v@.len() - i,
    {
        out.push(v[i].clone());
        proof {
            assert(v@.take(i as int + 1) =~= v@.take(i as int).push(v@[i as int]));
        }
        i += 1;
    }
    proof {
        assert(v@.take(v@.len() as int) =~= v@);
    }
    out
}

/// First index of `c` in `s`, or `s.len()` if absent.
pub fn find_char(s: &str, c: char) -> (r: usize)
    ensures
        find_char_from(s@, c, 0) >= 0 ==> r == find_char_from(s@, c, 0),
        find_char_from(s@, c, 0) < 0 ==> r == s@.len(),
{
    let n = s.unicode_len();
    let mut i: usize = 0;
    while i < n
        invariant
            n == s@.len(),
            i <= n,
            find_char_from(s@, c, 0) == find_char_from(s@, c, i as int),
        decreases n - i,
    {
        if s.get_char(i) == c {
            return i;
        }
        i += 1;
    }
    i
}

} // verus!
