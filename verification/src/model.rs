//! The model of a capability string: what each parser computes, stated
//! over the lowercased text as a sequence of characters.

use crate::extensions::{STANDARD_EXTENSIONS, VLEN_MARKERS};
use crate::text::{find, join, occurs, split};
use vstd::prelude::*;

verus! {

/// One row of a named-extension table: (pattern, display name, description,
/// category).
pub type NamedRow = (&'static str, &'static str, &'static str, &'static str);

/// What an [`ExtensionInfo`] stands for.
pub ghost struct ExtensionInfoView {
    pub name: Seq<char>,
    pub description: Seq<char>,
    pub category: Seq<char>,
    pub supported: bool,
}

/// Which named tokens a projection keeps.
#[derive(Debug, Clone, Copy, PartialEq, Eq, Structural)]
pub enum TokenScope {
    /// Unprivileged and privileged tokens together.
    Named,
    /// Tokens that begin with `z`.
    Z,
    /// Tokens that begin with `s`.
    S,
}

/// The address-width marker of 64-bit strings.
pub open spec fn rv64_marker() -> Seq<char> {
    seq!['r', 'v', '6', '4']
}

/// The address-width marker of 32-bit strings.
pub open spec fn rv32_marker() -> Seq<char> {
    seq!['r', 'v', '3', '2']
}

/// The text before the first `_`, or all of it when there is none.
pub open spec fn base_segment(isa: Seq<char>) -> Seq<char> {
    isa.take(find(isa, '_'))
}

/// `base` without a leading `rv64` or `rv32`.
pub open spec fn strip_rv(base: Seq<char>) -> Seq<char> {
    if rv64_marker().is_prefix_of(base) || rv32_marker().is_prefix_of(base) {
        base.skip(4)
    } else {
        base
    }
}

/// The extension letters of a lowercased capability string: its base
/// segment without the address-width marker.
pub open spec fn extension_letters(isa: Seq<char>) -> Seq<char> {
    strip_rv(base_segment(isa))
}

/// Whether the letters use the shorthand `g`.
pub open spec fn has_g(isa: Seq<char>) -> bool {
    extension_letters(isa).contains('g')
}

/// Whether the base extension with letter `code` is reported for the
/// extension letters `letters`: the letter is there, or `g` stands for it.
/// `g` stands for M, A, F and D, and for I unless the embedded base E is
/// named.
pub open spec fn base_selected(letters: Seq<char>, code: char) -> bool {
    ||| letters.contains(code)
    ||| letters.contains('g') && (code == 'm' || code == 'a' || code == 'f' || code == 'd')
    ||| letters.contains('g') && code == 'i' && !letters.contains('e')
}

/// The display names of the first `n` base extensions that are reported for
/// `letters`, in declaration order.
pub open spec fn selected_names(letters: Seq<char>, n: int) -> Seq<Seq<char>>
    decreases n,
{
    if n <= 0 {
        Seq::empty()
    } else {
        let before = selected_names(letters, n - 1);
        if base_selected(letters, STANDARD_EXTENSIONS[n - 1].0) {
            before.push(STANDARD_EXTENSIONS[n - 1].1@)
        } else {
            before
        }
    }
}

/// The compact base-extension string of a lowercased capability string.
pub open spec fn compact(isa: Seq<char>) -> Seq<char> {
    join(selected_names(extension_letters(isa), STANDARD_EXTENSIONS@.len() as int), seq![' '])
}

/// Whether a `_`-delimited segment is a named token of the scope.
pub open spec fn admits(scope: TokenScope, segment: Seq<char>) -> bool {
    segment.len() > 0 && match scope {
        TokenScope::Named => segment[0] == 'z' || segment[0] == 's',
        TokenScope::Z => segment[0] == 'z',
        TokenScope::S => segment[0] == 's',
    }
}

/// The named tokens that `g` implies: CSR access and instruction-fetch
/// fence, in that order. They belong to the unprivileged namespace.
pub open spec fn implied_tokens(isa: Seq<char>, scope: TokenScope) -> Seq<Seq<char>> {
    if has_g(isa) && scope != TokenScope::S {
        seq!["zicsr"@, "zifencei"@]
    } else {
        Seq::empty()
    }
}

/// `seed` followed by the segments that the scope admits, each kept where
/// it is first seen and dropped where it repeats a token already there.
pub open spec fn collect_tokens(
    seed: Seq<Seq<char>>,
    segments: Seq<Seq<char>>,
    scope: TokenScope,
) -> Seq<Seq<char>>
    decreases segments.len(),
{
    if segments.len() == 0 {
        seed
    } else {
        let before = collect_tokens(seed, segments.drop_last(), scope);
        let segment = segments.last();
        if admits(scope, segment) && !before.contains(segment) {
            before.push(segment)
        } else {
            before
        }
    }
}

/// The named tokens of a lowercased capability string: the implied ones,
/// then those found by scanning all `_`-delimited segments from the left.
pub open spec fn named_tokens(isa: Seq<char>, scope: TokenScope) -> Seq<Seq<char>> {
    collect_tokens(implied_tokens(isa, scope), split(isa, '_'), scope)
}

/// The named tokens joined by single spaces.
pub open spec fn named_compact(isa: Seq<char>, scope: TokenScope) -> Seq<char> {
    join(named_tokens(isa, scope), seq![' '])
}

/// The first row at or after `from` whose pattern occurs in `token`.
pub open spec fn lookup_from(token: Seq<char>, table: Seq<NamedRow>, from: int) -> Option<int>
    decreases table.len() - from,
{
    if from < 0 || from >= table.len() {
        None
    } else if occurs(token, table[from].0@) {
        Some(from)
    } else {
        lookup_from(token, table, from + 1)
    }
}

/// The first catalog row that a token stands for: the first row, in
/// declaration order, whose pattern is a substring of the token.
pub open spec fn lookup(token: Seq<char>, table: Seq<NamedRow>) -> Option<int> {
    lookup_from(token, table, 0)
}

/// The rows among the first `n` that a token stands for: those whose
/// pattern is a substring of the token, in declaration order.
pub open spec fn matching_rows(token: Seq<char>, table: Seq<NamedRow>, n: int) -> Seq<int>
    decreases n,
{
    if n <= 0 {
        Seq::empty()
    } else {
        let before = matching_rows(token, table, n - 1);
        if occurs(token, table[n - 1].0@) {
            before.push(n - 1)
        } else {
            before
        }
    }
}

/// `list` followed by the rows of `more` that it does not hold yet.
pub open spec fn with_new(list: Seq<int>, more: Seq<int>) -> Seq<int>
    decreases more.len(),
{
    if more.len() == 0 {
        list
    } else {
        let before = with_new(list, more.drop_last());
        if before.contains(more.last()) {
            before
        } else {
            before.push(more.last())
        }
    }
}

/// The rows that the tokens stand for: token by token, for each token its
/// rows in declaration order, each row where it is first met and never
/// twice. Tokens that no row matches are passed over.
pub open spec fn detected(tokens: Seq<Seq<char>>, table: Seq<NamedRow>) -> Seq<int>
    decreases tokens.len(),
{
    if tokens.len() == 0 {
        Seq::empty()
    } else {
        with_new(
            detected(tokens.drop_last(), table),
            matching_rows(tokens.last(), table, table.len() as int),
        )
    }
}

/// A table row as a classified extension.
pub open spec fn info_of(row: NamedRow, supported: bool) -> ExtensionInfoView {
    ExtensionInfoView { name: row.1@, description: row.2@, category: row.3@, supported }
}

/// The detected-only view: the rows that the named tokens of the scope
/// stand for, in token order and, for one token, in declaration order.
pub open spec fn classified(isa: Seq<char>, table: Seq<NamedRow>, scope: TokenScope) -> Seq<
    ExtensionInfoView,
> {
    let found = detected(named_tokens(isa, scope), table);
    Seq::new(found.len(), |k: int| info_of(table[found[k]], true))
}

/// The all-known view: every row of the table in declaration order,
/// flagged with whether the detected-only view holds it.
pub open spec fn all_with_status(isa: Seq<char>, table: Seq<NamedRow>, scope: TokenScope) -> Seq<
    ExtensionInfoView,
> {
    let found = detected(named_tokens(isa, scope), table);
    Seq::new(table.len(), |i: int| info_of(table[i], found.contains(i)))
}

/// The all-known view of the base extensions: (name, description,
/// reported) for every base extension in declaration order.
pub open spec fn standard_with_status(isa: Seq<char>) -> Seq<(Seq<char>, Seq<char>, bool)> {
    Seq::new(
        STANDARD_EXTENSIONS@.len(),
        |i: int|
            (
                STANDARD_EXTENSIONS[i].1@,
                STANDARD_EXTENSIONS[i].2@,
                base_selected(extension_letters(isa), STANDARD_EXTENSIONS[i].0),
            ),
    )
}

/// (name, description) of those among the first `n` base extensions whose
/// letter stands in the extension letters. `g` is not expanded here.
pub open spec fn explained(letters: Seq<char>, n: int) -> Seq<(Seq<char>, Seq<char>)>
    decreases n,
{
    if n <= 0 {
        Seq::empty()
    } else {
        let before = explained(letters, n - 1);
        if letters.contains(STANDARD_EXTENSIONS[n - 1].0) {
            before.push((STANDARD_EXTENSIONS[n - 1].1@, STANDARD_EXTENSIONS[n - 1].2@))
        } else {
            before
        }
    }
}

/// (name, description) of those among the first `n` rows whose pattern
/// occurs anywhere in the lowercased capability string.
pub open spec fn named_explained(isa: Seq<char>, table: Seq<NamedRow>, n: int) -> Seq<
    (Seq<char>, Seq<char>),
>
    decreases n,
{
    if n <= 0 {
        Seq::empty()
    } else {
        let before = named_explained(isa, table, n - 1);
        if occurs(isa, table[n - 1].0@) {
            before.push((table[n - 1].1@, table[n - 1].2@))
        } else {
            before
        }
    }
}

/// Whether the string attests a vector unit: `v` among the extension
/// letters, or a member of the embedded `zve` family anywhere.
pub open spec fn vector_present(isa: Seq<char>) -> bool {
    extension_letters(isa).contains('v') || occurs(isa, "zve"@)
}

/// The first width marker at or after `from` that occurs in the string,
/// which is the widest of them; the table's length when there is none.
pub open spec fn widest_marker(isa: Seq<char>, from: int) -> int
    decreases VLEN_MARKERS@.len() - from,
{
    if from < 0 || from >= VLEN_MARKERS@.len() {
        VLEN_MARKERS@.len() as int
    } else if occurs(isa, VLEN_MARKERS[from].0@) {
        from
    } else {
        widest_marker(isa, from + 1)
    }
}

/// The vector detail of a lowercased capability string: nothing without a
/// vector unit, else `Enabled`, followed by the widest width that a marker
/// attests, if any does.
pub open spec fn vector_detail(isa: Seq<char>) -> Option<Seq<char>> {
    if !vector_present(isa) {
        None
    } else {
        let widest = widest_marker(isa, 0);
        if widest < VLEN_MARKERS@.len() {
            Some("Enabled"@ + ", "@ + VLEN_MARKERS[widest].1@)
        } else {
            Some("Enabled"@)
        }
    }
}

/// The indices of a list as mathematical integers.
pub open spec fn indices(list: Seq<usize>) -> Seq<int> {
    Seq::new(list.len(), |k: int| list[k] as int)
}

/// The label of the first row at or after `from` whose id is `category`;
/// `Other` when there is none.
pub open spec fn label_from(
    category: Seq<char>,
    table: Seq<(&'static str, &'static str)>,
    from: int,
) -> Seq<char>
    decreases table.len() - from,
{
    if from < 0 || from >= table.len() {
        "Other"@
    } else if table[from].0@ == category {
        table[from].1@
    } else {
        label_from(category, table, from + 1)
    }
}

/// The display label of a category id in a table of (id, label) rows.
pub open spec fn category_label(
    category: Seq<char>,
    table: Seq<(&'static str, &'static str)>,
) -> Seq<char> {
    label_from(category, table, 0)
}

} // verus!
