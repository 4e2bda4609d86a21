//! The classifier: an ordered static rule table mapping a parsed token's base
//! elements to the canonical identifier of the CSS property group the utility
//! affects. Two-element patterns are consulted before one-element ones, so the
//! most specific shape wins; a base that no rule covers is non-colliding.

use vstd::prelude::*;

use crate::strutil::str_eq;
use crate::strutil::views_of;

verus! {

/// The view of an optional owned string.
pub open spec fn option_view(x: Option<String>) -> Option<Seq<char>> {
    match x {
        Some(s) => Some(s@),
        None => None,
    }
}

/// A nonempty run of ASCII decimal digits.
pub open spec fn is_digits(s: Seq<char>) -> bool {
    s.len() > 0 && (forall|i: int| 0 <= i < s.len() ==> '0' <= #[trigger] s[i] <= '9')
}

fn is_digits_exec(s: &str) -> (r: bool)
    ensures
        r == is_digits(s@),
{
    let n = s.unicode_len();
    if n == 0 {
        return false;
    }
    let mut i: usize = 0;
    while i < n
        invariant
            n == s@.len(),
            i <= n,
            forall|k: int| 0 <= k < i ==> '0' <= #[trigger] s@[k] <= '9',
        decreases n - i,
    {
        let c = s.get_char(i);
        if !('0' <= c && c <= '9') {
            return false;
        }
        i += 1;
    }
    true
}

/// The words that set a text-alignment utility apart.
pub open spec fn is_text_align_word(b: Seq<char>) -> bool {
    b == "left"@ || b == "center"@ || b == "right"@ || b == "justify"@ || b == "start"@ || b
        == "end"@
}

fn is_text_align_word_exec(b: &str) -> (r: bool)
    ensures
        r == is_text_align_word(b@),
{
    str_eq(b, "left") || str_eq(b, "center") || str_eq(b, "right") || str_eq(b, "justify")
        || str_eq(b, "start") || str_eq(b, "end")
}

/// The named font-size scale steps.
pub open spec fn is_font_size_word(b: Seq<char>) -> bool {
    b == "xs"@ || b == "sm"@ || b == "base"@ || b == "lg"@ || b == "xl"@ || b == "2xl"@ || b
        == "3xl"@ || b == "4xl"@ || b == "5xl"@ || b == "6xl"@ || b == "7xl"@ || b == "8xl"@ || b
        == "9xl"@
}

fn is_font_size_word_exec(b: &str) -> (r: bool)
    ensures
        r == is_font_size_word(b@),
{
    str_eq(b, "xs") || str_eq(b, "sm") || str_eq(b, "base") || str_eq(b, "lg") || str_eq(b, "xl")
        || str_eq(b, "2xl") || str_eq(b, "3xl") || str_eq(b, "4xl") || str_eq(b, "5xl") || str_eq(
        b,
        "6xl",
    ) || str_eq(b, "7xl") || str_eq(b, "8xl") || str_eq(b, "9xl")
}

/// The named font-weight steps.
pub open spec fn is_font_weight_word(b: Seq<char>) -> bool {
    b == "thin"@ || b == "extralight"@ || b == "light"@ || b == "normal"@ || b == "medium"@ || b
        == "semibold"@ || b == "bold"@ || b == "extrabold"@ || b == "black"@
}

fn is_font_weight_word_exec(b: &str) -> (r: bool)
    ensures
        r == is_font_weight_word(b@),
{
    str_eq(b, "thin") || str_eq(b, "extralight") || str_eq(b, "light") || str_eq(b, "normal")
        || str_eq(b, "medium") || str_eq(b, "semibold") || str_eq(b, "bold") || str_eq(
        b,
        "extrabold",
    ) || str_eq(b, "black")
}

/// The rules that need both of the first two base elements.
pub open spec fn pair_rule(a: Seq<char>, b: Seq<char>) -> Option<Seq<char>> {
    if a == "min"@ && b == "w"@ {
        Some("min-width"@)
    } else if a == "min"@ && b == "h"@ {
        Some("min-height"@)
    } else if a == "max"@ && b == "w"@ {
        Some("max-width"@)
    } else if a == "max"@ && b == "h"@ {
        Some("max-height"@)
    } else if a == "inset"@ && b == "x"@ {
        Some("inset-x"@)
    } else if a == "inset"@ && b == "y"@ {
        Some("inset-y"@)
    } else if a == "gap"@ && b == "x"@ {
        Some("gap-x"@)
    } else if a == "gap"@ && b == "y"@ {
        Some("gap-y"@)
    } else if a == "space"@ && b == "x"@ {
        Some("space-x"@)
    } else if a == "space"@ && b == "y"@ {
        Some("space-y"@)
    } else if a == "overflow"@ && b == "x"@ {
        Some("overflow-x"@)
    } else if a == "overflow"@ && b == "y"@ {
        Some("overflow-y"@)
    } else if a == "scale"@ && b == "x"@ {
        Some("scale-x"@)
    } else if a == "scale"@ && b == "y"@ {
        Some("scale-y"@)
    } else if a == "translate"@ && b == "x"@ {
        Some("translate-x"@)
    } else if a == "translate"@ && b == "y"@ {
        Some("translate-y"@)
    } else if a == "grid"@ && b == "cols"@ {
        Some("grid-template-columns"@)
    } else if a == "grid"@ && b == "rows"@ {
        Some("grid-template-rows"@)
    } else if a == "justify"@ && b == "items"@ {
        Some("justify-items"@)
    } else if a == "justify"@ && b == "self"@ {
        Some("justify-self"@)
    } else if a == "text"@ && (b == "ellipsis"@ || b == "clip"@) {
        Some("text-overflow"@)
    } else if a == "text"@ && is_text_align_word(b) {
        Some("text-align"@)
    } else if a == "text"@ && is_font_size_word(b) {
        Some("font-size"@)
    } else if a == "font"@ && is_font_weight_word(b) {
        Some("font-weight"@)
    } else if a == "font"@ && (b == "sans"@ || b == "serif"@ || b == "mono"@) {
        Some("font-family"@)
    } else if a == "flex"@ && (b == "row"@ || b == "col"@) {
        Some("flex-direction"@)
    } else if a == "flex"@ && (b == "wrap"@ || b == "nowrap"@) {
        Some("flex-wrap"@)
    } else if a == "flex"@ && (b == "1"@ || b == "auto"@ || b == "initial"@ || b == "none"@) {
        Some("flex"@)
    } else if a == "inline"@ && (b == "block"@ || b == "flex"@ || b == "grid"@ || b == "table"@) {
        Some("display"@)
    } else if a == "flow"@ && b == "root"@ {
        Some("display"@)
    } else if a == "rounded"@ && b == "t"@ {
        Some("rounded-t"@)
    } else if a == "rounded"@ && b == "r"@ {
        Some("rounded-r"@)
    } else if a == "rounded"@ && b == "b"@ {
        Some("rounded-b"@)
    } else if a == "rounded"@ && b == "l"@ {
        Some("rounded-l"@)
    } else if a == "rounded"@ && b == "tl"@ {
        Some("rounded-tl"@)
    } else if a == "rounded"@ && b == "tr"@ {
        Some("rounded-tr"@)
    } else if a == "rounded"@ && b == "br"@ {
        Some("rounded-br"@)
    } else if a == "rounded"@ && b == "bl"@ {
        Some("rounded-bl"@)
    } else if a == "border"@ && b == "x"@ {
        Some("border-width-x"@)
    } else if a == "border"@ && b == "y"@ {
        Some("border-width-y"@)
    } else if a == "border"@ && b == "t"@ {
        Some("border-width-top"@)
    } else if a == "border"@ && b == "r"@ {
        Some("border-width-right"@)
    } else if a == "border"@ && b == "b"@ {
        Some("border-width-bottom"@)
    } else if a == "border"@ && b == "l"@ {
        Some("border-width-left"@)
    } else if a == "border"@ && is_digits(b) {
        Some("border-width"@)
    } else if a == "no"@ && b == "underline"@ {
        Some("text-decoration"@)
    } else if a == "line"@ && b == "through"@ {
        Some("text-decoration"@)
    } else if a == "normal"@ && b == "case"@ {
        Some("text-transform"@)
    } else if a == "not"@ && b == "italic"@ {
        Some("font-style"@)
    } else if a == "pointer"@ && b == "events"@ {
        Some("pointer-events"@)
    } else {
        None
    }
}

/// The rules for a base made of exactly one element.
pub open spec fn single_rule(a: Seq<char>) -> Option<Seq<char>> {
    if a == "block"@ || a == "flex"@ || a == "grid"@ || a == "table"@ || a == "contents"@ || a
        == "hidden"@ || a == "inline"@ {
        Some("display"@)
    } else if a == "static"@ || a == "fixed"@ || a == "absolute"@ || a == "relative"@ || a
        == "sticky"@ {
        Some("position"@)
    } else if a == "visible"@ || a == "invisible"@ || a == "collapse"@ {
        Some("visibility"@)
    } else if a == "truncate"@ {
        Some("text-overflow"@)
    } else if a == "italic"@ {
        Some("font-style"@)
    } else if a == "underline"@ || a == "overline"@ {
        Some("text-decoration"@)
    } else if a == "uppercase"@ || a == "lowercase"@ || a == "capitalize"@ {
        Some("text-transform"@)
    } else if a == "border"@ {
        Some("border-width"@)
    } else {
        None
    }
}

/// The rules that key on the first base element alone, whatever follows.
pub open spec fn head_rule(a: Seq<char>) -> Option<Seq<char>> {
    if a == "p"@ {
        Some("padding"@)
    } else if a == "px"@ {
        Some("padding-x"@)
    } else if a == "py"@ {
        Some("padding-y"@)
    } else if a == "pt"@ {
        Some("padding-top"@)
    } else if a == "pr"@ {
        Some("padding-right"@)
    } else if a == "pb"@ {
        Some("padding-bottom"@)
    } else if a == "pl"@ {
        Some("padding-left"@)
    } else if a == "m"@ {
        Some("margin"@)
    } else if a == "mx"@ {
        Some("margin-x"@)
    } else if a == "my"@ {
        Some("margin-y"@)
    } else if a == "mt"@ {
        Some("margin-top"@)
    } else if a == "mr"@ {
        Some("margin-right"@)
    } else if a == "mb"@ {
        Some("margin-bottom"@)
    } else if a == "ml"@ {
        Some("margin-left"@)
    } else if a == "inset"@ {
        Some("inset"@)
    } else if a == "top"@ {
        Some("top"@)
    } else if a == "right"@ {
        Some("right"@)
    } else if a == "bottom"@ {
        Some("bottom"@)
    } else if a == "left"@ {
        Some("left"@)
    } else if a == "w"@ {
        Some("width"@)
    } else if a == "h"@ {
        Some("height"@)
    } else if a == "size"@ {
        Some("size"@)
    } else if a == "bg"@ {
        Some("background-color"@)
    } else if a == "text"@ {
        Some("text-color"@)
    } else if a == "rounded"@ {
        Some("border-radius"@)
    } else if a == "border"@ {
        Some("border-color"@)
    } else if a == "z"@ {
        Some("z-index"@)
    } else if a == "order"@ {
        Some("order"@)
    } else if a == "opacity"@ {
        Some("opacity"@)
    } else if a == "gap"@ {
        Some("gap"@)
    } else if a == "overflow"@ {
        Some("overflow"@)
    } else if a == "scale"@ {
        Some("scale"@)
    } else if a == "rotate"@ {
        Some("rotate"@)
    } else if a == "items"@ {
        Some("align-items"@)
    } else if a == "justify"@ {
        Some("justify-content"@)
    } else if a == "self"@ {
        Some("align-self"@)
    } else if a == "content"@ {
        Some("align-content"@)
    } else if a == "leading"@ {
        Some("line-height"@)
    } else if a == "tracking"@ {
        Some("letter-spacing"@)
    } else if a == "shadow"@ {
        Some("box-shadow"@)
    } else if a == "cursor"@ {
        Some("cursor"@)
    } else if a == "select"@ {
        Some("user-select"@)
    } else if a == "duration"@ {
        Some("transition-duration"@)
    } else if a == "delay"@ {
        Some("transition-delay"@)
    } else if a == "ease"@ {
        Some("transition-timing-function"@)
    } else if a == "transition"@ {
        Some("transition-property"@)
    } else if a == "col"@ {
        Some("grid-column"@)
    } else if a == "row"@ {
        Some("grid-row"@)
    } else if a == "basis"@ {
        Some("flex-basis"@)
    } else if a == "grow"@ {
        Some("flex-grow"@)
    } else if a == "shrink"@ {
        Some("flex-shrink"@)
    } else {
        None
    }
}

/// The collision identifier of a base, or `None` when the table does not
/// cover it: two-element shapes first, then whole-base words, then the first
/// element alone.
pub open spec fn collision_id_spec(el: Seq<Seq<char>>) -> Option<Seq<char>> {
    if el.len() == 0 {
        None
    } else if el.len() >= 2 && pair_rule(el[0], el[1]) is Some {
        pair_rule(el[0], el[1])
    } else if el.len() == 1 && single_rule(el[0]) is Some {
        single_rule(el[0])
    } else {
        head_rule(el[0])
    }
}

fn pair_rule_exec(a: &str, b: &str) -> (r: Option<String>)
    ensures
        option_view(r) == pair_rule(a@, b@),
{
    if str_eq(a, "min") && str_eq(b, "w") {
        return Some("min-width".to_owned());
    }
    if str_eq(a, "min") && str_eq(b, "h") {
        return Some("min-height".to_owned());
    }
    if str_eq(a, "max") && str_eq(b, "w") {
        return Some("max-width".to_owned());
    }
    if str_eq(a, "max") && str_eq(b, "h") {
        return Some("max-height".to_owned());
    }
    if str_eq(a, "inset") && str_eq(b, "x") {
        return Some("inset-x".to_owned());
    }
    if str_eq(a, "inset") && str_eq(b, "y") {
        return Some("inset-y".to_owned());
    }
    if str_eq(a, "gap") && str_eq(b, "x") {
        return Some("gap-x".to_owned());
    }
    if str_eq(a, "gap") && str_eq(b, "y") {
        return Some("gap-y".to_owned());
    }
    if str_eq(a, "space") && str_eq(b, "x") {
        return Some("space-x".to_owned());
    }
    if str_eq(a, "space") && str_eq(b, "y") {
        return Some("space-y".to_owned());
    }
    if str_eq(a, "overflow") && str_eq(b, "x") {
        return Some("overflow-x".to_owned());
    }
    if str_eq(a, "overflow") && str_eq(b, "y") {
        return Some("overflow-y".to_owned());
    }
    if str_eq(a, "scale") && str_eq(b, "x") {
        return Some("scale-x".to_owned());
    }
    if str_eq(a, "scale") && str_eq(b, "y") {
        return Some("scale-y".to_owned());
    }
    if str_eq(a, "translate") && str_eq(b, "x") {
        return Some("translate-x".to_owned());
    }
    if str_eq(a, "translate") && str_eq(b, "y") {
        return Some("translate-y".to_owned());
    }
    if str_eq(a, "grid") && str_eq(b, "cols") {
        return Some("grid-template-columns".to_owned());
    }
    if str_eq(a, "grid") && str_eq(b, "rows") {
        return Some("grid-template-rows".to_owned());
    }
    if str_eq(a, "justify") && str_eq(b, "items") {
        return Some("justify-items".to_owned());
    }
    if str_eq(a, "justify") && str_eq(b, "self") {
        return Some("justify-self".to_owned());
    }
    if str_eq(a, "text") && (str_eq(b, "ellipsis") || str_eq(b, "clip")) {
        return Some("text-overflow".to_owned());
    }
    if str_eq(a, "text") && is_text_align_word_exec(b) {
        return Some("text-align".to_owned());
    }
    if str_eq(a, "text") && is_font_size_word_exec(b) {
        return Some("font-size".to_owned());
    }
    if str_eq(a, "font") && is_font_weight_word_exec(b) {
        return Some("font-weight".to_owned());
    }
    if str_eq(a, "font") && (str_eq(b, "sans") || str_eq(b, "serif") || str_eq(b, "mono")) {
        return Some("font-family".to_owned());
    }
    if str_eq(a, "flex") && (str_eq(b, "row") || str_eq(b, "col")) {
        return Some("flex-direction".to_owned());
    }
    if str_eq(a, "flex") && (str_eq(b, "wrap") || str_eq(b, "nowrap")) {
        return Some("flex-wrap".to_owned());
    }
    if str_eq(a, "flex") && (str_eq(b, "1") || str_eq(b, "auto") || str_eq(b, "initial") || str_eq(
        b,
        "none",
    )) {
        return Some("flex".to_owned());
    }
    if str_eq(a, "inline") && (str_eq(b, "block") || str_eq(b, "flex") || str_eq(b, "grid")
        || str_eq(b, "table")) {
        return Some("display".to_owned());
    }
    if str_eq(a, "flow") && str_eq(b, "root") {
        return Some("display".to_owned());
    }
    if str_eq(a, "rounded") && str_eq(b, "t") {
        return Some("rounded-t".to_owned());
    }
    if str_eq(a, "rounded") && str_eq(b, "r") {
        return Some("rounded-r".to_owned());
    }
    if str_eq(a, "rounded") && str_eq(b, "b") {
        return Some("rounded-b".to_owned());
    }
    if str_eq(a, "rounded") && str_eq(b, "l") {
        return Some("rounded-l".to_owned());
    }
    if str_eq(a, "rounded") && str_eq(b, "tl") {
        return Some("rounded-tl".to_owned());
    }
    if str_eq(a, "rounded") && str_eq(b, "tr") {
        return Some("rounded-tr".to_owned());
    }
    if str_eq(a, "rounded") && str_eq(b, "br") {
        return Some("rounded-br".to_owned());
    }
    if str_eq(a, "rounded") && str_eq(b, "bl") {
        return Some("rounded-bl".to_owned());
    }
    if str_eq(a, "border") && str_eq(b, "x") {
        return Some("border-width-x".to_owned());
    }
    if str_eq(a, "border") && str_eq(b, "y") {
        return Some("border-width-y".to_owned());
    }
    if str_eq(a, "border") && str_eq(b, "t") {
        return Some("border-width-top".to_owned());
    }
    if str_eq(a, "border") && str_eq(b, "r") {
        return Some("border-width-right".to_owned());
    }
    if str_eq(a, "border") && str_eq(b, "b") {
        return Some("border-width-bottom".to_owned());
    }
    if str_eq(a, "border") && str_eq(b, "l") {
        return Some("border-width-left".to_owned());
    }
    if str_eq(a, "border") && is_digits_exec(b) {
        return Some("border-width".to_owned());
    }
    if str_eq(a, "no") && str_eq(b, "underline") {
        return Some("text-decoration".to_owned());
    }
    if str_eq(a, "line") && str_eq(b, "through") {
        return Some("text-decoration".to_owned());
    }
    if str_eq(a, "normal") && str_eq(b, "case") {
        return Some("text-transform".to_owned());
    }
    if str_eq(a, "not") && str_eq(b, "italic") {
        return Some("font-style".to_owned());
    }
    if str_eq(a, "pointer") && str_eq(b, "events") {
        return Some("pointer-events".to_owned());
    }
    None
}

fn single_rule_exec(a: &str) -> (r: Option<String>)
    ensures
        option_view(r) == single_rule(a@),
{
    if str_eq(a, "block") || str_eq(a, "flex") || str_eq(a, "grid") || str_eq(a, "table") || str_eq(
        a,
        "contents",
    ) || str_eq(a, "hidden") || str_eq(a, "inline") {
        return Some("display".to_owned());
    }
    if str_eq(a, "static") || str_eq(a, "fixed") || str_eq(a, "absolute") || str_eq(a, "relative")
        || str_eq(a, "sticky") {
        return Some("position".to_owned());
    }
    if str_eq(a, "visible") || str_eq(a, "invisible") || str_eq(a, "collapse") {
        return Some("visibility".to_owned());
    }
    if str_eq(a, "truncate") {
        return Some("text-overflow".to_owned());
    }
    if str_eq(a, "italic") {
        return Some("font-style".to_owned());
    }
    if str_eq(a, "underline") || str_eq(a, "overline") {
        return Some("text-decoration".to_owned());
    }
    if str_eq(a, "uppercase") || str_eq(a, "lowercase") || str_eq(a, "capitalize") {
        return Some("text-transform".to_owned());
    }
    if str_eq(a, "border") {
        return Some("border-width".to_owned());
    }
    None
}

fn head_rule_exec(a: &str) -> (r: Option<String>)
    ensures
        option_view(r) == head_rule(a@),
{
    if str_eq(a, "p") {
        return Some("padding".to_owned());
    }
    if str_eq(a, "px") {
        return Some("padding-x".to_owned());
    }
    if str_eq(a, "py") {
        return Some("padding-y".to_owned());
    }
    if str_eq(a, "pt") {
        return Some("padding-top".to_owned());
    }
    if str_eq(a, "pr") {
        return Some("padding-right".to_owned());
    }
    if str_eq(a, "pb") {
        return Some("padding-bottom".to_owned());
    }
    if str_eq(a, "pl") {
        return Some("padding-left".to_owned());
    }
    if str_eq(a, "m") {
        return Some("margin".to_owned());
    }
    if str_eq(a, "mx") {
        return Some("margin-x".to_owned());
    }
    if str_eq(a, "my") {
        return Some("margin-y".to_owned());
    }
    if str_eq(a, "mt") {
        return Some("margin-top".to_owned());
    }
    if str_eq(a, "mr") {
        return Some("margin-right".to_owned());
    }
    if str_eq(a, "mb") {
        return Some("margin-bottom".to_owned());
    }
    if str_eq(a, "ml") {
        return Some("margin-left".to_owned());
    }
    if str_eq(a, "inset") {
        return Some("inset".to_owned());
    }
    if str_eq(a, "top") {
        return Some("top".to_owned());
    }
    if str_eq(a, "right") {
        return Some("right".to_owned());
    }
    if str_eq(a, "bottom") {
        return Some("bottom".to_owned());
    }
    if str_eq(a, "left") {
        return Some("left".to_owned());
    }
    if str_eq(a, "w") {
        return Some("width".to_owned());
    }
    if str_eq(a, "h") {
        return Some("height".to_owned());
    }
    if str_eq(a, "size") {
        return Some("size".to_owned());
    }
    if str_eq(a, "bg") {
        return Some("background-color".to_owned());
    }
    if str_eq(a, "text") {
        return Some("text-color".to_owned());
    }
    if str_eq(a, "rounded") {
        return Some("border-radius".to_owned());
    }
    if str_eq(a, "border") {
        return Some("border-color".to_owned());
    }
    if str_eq(a, "z") {
        return Some("z-index".to_owned());
    }
    if str_eq(a, "order") {
        return Some("order".to_owned());
    }
    if str_eq(a, "opacity") {
        return Some("opacity".to_owned());
    }
    if str_eq(a, "gap") {
        return Some("gap".to_owned());
    }
    if str_eq(a, "overflow") {
        return Some("overflow".to_owned());
    }
    if str_eq(a, "scale") {
        return Some("scale".to_owned());
    }
    if str_eq(a, "rotate") {
        return Some("rotate".to_owned());
    }
    if str_eq(a, "items") {
        return Some("align-items".to_owned());
    }
    if str_eq(a, "justify") {
        return Some("justify-content".to_owned());
    }
    if str_eq(a, "self") {
        return Some("align-self".to_owned());
    }
    if str_eq(a, "content") {
        return Some("align-content".to_owned());
    }
    if str_eq(a, "leading") {
        return Some("line-height".to_owned());
    }
    if str_eq(a, "tracking") {
        return Some("letter-spacing".to_owned());
    }
    if str_eq(a, "shadow") {
        return Some("box-shadow".to_owned());
    }
    if str_eq(a, "cursor") {
        return Some("cursor".to_owned());
    }
    if str_eq(a, "select") {
        return Some("user-select".to_owned());
    }
    if str_eq(a, "duration") {
        return Some("transition-duration".to_owned());
    }
    if str_eq(a, "delay") {
        return Some("transition-delay".to_owned());
    }
    if str_eq(a, "ease") {
        return Some("transition-timing-function".to_owned());
    }
    if str_eq(a, "transition") {
        return Some("transition-property".to_owned());
    }
    if str_eq(a, "col") {
        return Some("grid-column".to_owned());
    }
    if str_eq(a, "row") {
        return Some("grid-row".to_owned());
    }
    if str_eq(a, "basis") {
        return Some("flex-basis".to_owned());
    }
    if str_eq(a, "grow") {
        return Some("flex-grow".to_owned());
    }
    if str_eq(a, "shrink") {
        return Some("flex-shrink".to_owned());
    }
    None
}

/// Classifies a base, given its dash-delimited elements: the collision
/// identifier of the property group the utility affects, or `None` when the
/// static table does not cover it.
pub fn get_collision_id(elements: &Vec<String>) -> (r: Option<String>)
    ensures
        option_view(r) == collision_id_spec(views_of(elements@)),
{
    if elements.len() == 0 {
        return None;
    }
    if elements.len() >= 2 {
        let pr = pair_rule_exec(elements[0].as_str(), elements[1].as_str());
        if pr.is_some() {
            return pr;
        }
    }
    if elements.len() == 1 {
        let sr = single_rule_exec(elements[0].as_str());
        if sr.is_some() {
            return sr;
        }
    }
    head_rule_exec(elements[0].as_str())
}

} // verus!
