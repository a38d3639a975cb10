//! The ISA tokenizer and classifier.
//!
//! A capability string is an optional `rv32` / `rv64` marker, a run of
//! single-letter base extensions, and `_`-separated named extensions. Every
//! parser first lowercases the string; what it then computes is stated over
//! the lowercased text, and [`LoweredIsa`] gives direct access to that part.

use crate::extensions::{
    STANDARD_EXTENSIONS, S_CATEGORY_NAMES, S_EXTENSIONS, VLEN_MARKERS, Z_CATEGORY_NAMES,
    Z_EXTENSIONS,
};
use crate::model::{
    admits, all_with_status, category_label, classified, collect_tokens, compact, detected,
    explained, extension_letters, implied_tokens, indices, info_of, label_from, lookup, lookup_from,
    matching_rows, named_compact, named_explained, named_tokens, rv32_marker, rv64_marker,
    selected_names, standard_with_status, strip_rv, vector_detail, vector_present, widest_marker,
    with_new, ExtensionInfoView, NamedRow, TokenScope,
};
use crate::text::{
    contains_char, contains_seq, copy_range, find_char, from_chars, join_with, lowercase_of, rows,
    same_chars, split_on, starts_with, to_chars,
};
use vstd::prelude::*;

verus! {

/// A classified extension.
#[derive(Debug, Clone)]
pub struct ExtensionInfo {
    pub name: String,
    pub description: String,
    pub category: String,
    /// Whether the capability string attests the extension. Always `true` in
    /// the detected-only views.
    pub supported: bool,
}

impl View for ExtensionInfo {
    type V = ExtensionInfoView;

    open spec fn view(&self) -> ExtensionInfoView {
        ExtensionInfoView {
            name: self.name@,
            description: self.description@,
            category: self.category@,
            supported: self.supported,
        }
    }
}

/// The views of a list of classified extensions.
pub open spec fn infos(list: Seq<ExtensionInfo>) -> Seq<ExtensionInfoView> {
    Seq::new(list.len(), |i: int| list[i]@)
}

/// The views of a list of (name, description) pairs.
pub open spec fn pairs(list: Seq<(String, String)>) -> Seq<(Seq<char>, Seq<char>)> {
    Seq::new(list.len(), |i: int| (list[i].0@, list[i].1@))
}

/// Whether a `_`-delimited segment is a named token of the scope.
pub fn admitted(scope: TokenScope, segment: &[char]) -> (yes: bool)
    ensures
        yes == admits(scope, segment@),
{
    if segment.len() == 0 {
        return false;
    }
    let first = segment[0];
    match scope {
        TokenScope::Named => first == 'z' || first == 's',
        TokenScope::Z => first == 'z',
        TokenScope::S => first == 's',
    }
}

/// Whether `list` holds a row with the characters of `row`.
pub fn contains_row(list: &Vec<Vec<char>>, row: &[char]) -> (found: bool)
    ensures
        found == rows(list@).contains(row@),
{
    let mut i: usize = 0;
    while i < list.len()
        invariant
            i <= list.len(),
            forall|j: int| 0 <= j < i ==> rows(list@)[j] != row@,
        decreases list.len() - i,
    {
        if same_chars(list[i].as_slice(), row) {
            assert(rows(list@)[i as int] == row@);
            return true;
        }
        i += 1;
    }
    false
}

/// Whether `list` holds `index`.
pub fn contains_index(list: &Vec<usize>, index: usize) -> (found: bool)
    ensures
        found == indices(list@).contains(index as int),
{
    let mut i: usize = 0;
    while i < list.len()
        invariant
            i <= list.len(),
            forall|j: int| 0 <= j < i ==> indices(list@)[j] != index as int,
        decreases list.len() - i,
    {
        if list[i] == index {
            assert(indices(list@)[i as int] == index as int);
            return true;
        }
        i += 1;
    }
    false
}

/// The first row of `table` whose pattern is a substring of `token`.
pub fn lookup_row(token: &[char], table: &[NamedRow]) -> (hit: Option<usize>)
    ensures
        match hit {
            Some(row) => row < table@.len() && lookup(token@, table@) == Some(row as int),
            None => lookup(token@, table@) is None,
        },
{
    let mut i: usize = 0;
    while i < table.len()
        invariant
            i <= table.len(),
            lookup(token@, table@) == lookup_from(token@, table@, i as int),
        decreases table.len() - i,
    {
        let pattern = to_chars(table[i].0);
        if contains_seq(token, pattern.as_slice()) {
            return Some(i);
        }
        i += 1;
    }
    None
}

/// The rows that the tokens stand for: token by token every row whose
/// pattern is a substring of the token, in declaration order, each row once.
pub fn detect(tokens: &Vec<Vec<char>>, table: &[NamedRow]) -> (found: Vec<usize>)
    ensures
        indices(found@) == detected(rows(tokens@), table@),
        forall|k: int| 0 <= k < found@.len() ==> found@[k] < table@.len(),
{
    let mut found: Vec<usize> = Vec::new();
    let mut t: usize = 0;
    proof {
        assert(indices(found@) =~= detected(rows(tokens@).take(0), table@));
    }
    while t < tokens.len()
        invariant
            t <= tokens.len(),
            indices(found@) == detected(rows(tokens@).take(t as int), table@),
            forall|k: int| 0 <= k < found@.len() ==> found@[k] < table@.len(),
        decreases tokens.len() - t,
    {
        let token = tokens[t].as_slice();
        let ghost before = detected(rows(tokens@).take(t as int), table@);
        let mut i: usize = 0;
        while i < table.len()
            invariant
                i <= table.len(),
                indices(found@) == with_new(before, matching_rows(token@, table@, i as int)),
                forall|k: int| 0 <= k < found@.len() ==> found@[k] < table@.len(),
            decreases table.len() - i,
        {
            let pattern = to_chars(table[i].0);
            if contains_seq(token, pattern.as_slice()) {
                proof {
                    let more = matching_rows(token@, table@, i + 1);
                    assert(more.drop_last() =~= matching_rows(token@, table@, i as int));
                    assert(more.last() == i);
                }
                if !contains_index(&found, i) {
                    assert(indices(found@.push(i)) =~= indices(found@).push(i as int));
                    found.push(i);
                }
            }
            i += 1;
        }
        proof {
            let next = rows(tokens@).take(t + 1);
            assert(next.drop_last() =~= rows(tokens@).take(t as int));
            assert(next.last() == token@);
        }
        t += 1;
    }
    proof {
        assert(rows(tokens@).take(tokens@.len() as int) =~= rows(tokens@));
    }
    found
}

/// A table row as a classified extension.
pub fn info_from(row: NamedRow, supported: bool) -> (info: ExtensionInfo)
    ensures
        info@ == info_of(row, supported),
{
    ExtensionInfo {
        name: row.1.to_owned(),
        description: row.2.to_owned(),
        category: row.3.to_owned(),
        supported,
    }
}

/// A capability string after lowercasing, held as characters.
pub struct LoweredIsa {
    chars: Vec<char>,
}

impl View for LoweredIsa {
    type V = Seq<char>;

    closed spec fn view(&self) -> Seq<char> {
        self.chars@
    }
}

impl LoweredIsa {
    /// Lowercases `isa`.
    pub fn new(isa: &str) -> (lowered: Self)
        ensures
            lowered@ == lowercase_of(isa@),
    {
        let lower = isa.to_lowercase();
        LoweredIsa { chars: to_chars(lower.as_str()) }
    }

    /// Takes `text` as it stands, for a caller that holds lowercased text.
    pub fn from_lowered(text: &str) -> (lowered: Self)
        ensures
            lowered@ == text@,
    {
        LoweredIsa { chars: to_chars(text) }
    }

    /// The text as a string.
    pub fn text(&self) -> (text: String)
        ensures
            text@ == self@,
    {
        from_chars(self.chars.as_slice())
    }

    /// The extension letters: the base segment without `rv32` / `rv64`.
    pub fn letters(&self) -> (letters: Vec<char>)
        ensures
            letters@ == extension_letters(self@),
    {
        let text = self.chars.as_slice();
        let end = find_char(text, '_');
        let rv64 = ['r', 'v', '6', '4'];
        let rv32 = ['r', 'v', '3', '2'];
        let base = copy_range(text, 0, end);
        assert(rv64@ =~= rv64_marker());
        assert(rv32@ =~= rv32_marker());
        let from: usize = if starts_with(base.as_slice(), rv64.as_slice()) || starts_with(
            base.as_slice(),
            rv32.as_slice(),
        ) {
            4
        } else {
            0
        };
        let letters = copy_range(base.as_slice(), from, end);
        assert(letters@ =~= extension_letters(self@));
        letters
    }

    /// The base extensions as display letters joined by single spaces, in
    /// declaration order.
    pub fn extensions_compact(&self) -> (out: String)
        ensures
            out@ == compact(self@),
    {
        let letters = self.letters();
        let has_g = contains_char(letters.as_slice(), 'g');
        let has_e = contains_char(letters.as_slice(), 'e');
        let mut names: Vec<Vec<char>> = Vec::new();
        let mut i: usize = 0;
        while i < STANDARD_EXTENSIONS.len()
            invariant
                i <= STANDARD_EXTENSIONS@.len(),
                has_g == letters@.contains('g'),
                has_e == letters@.contains('e'),
                rows(names@) == selected_names(letters@, i as int),
            decreases STANDARD_EXTENSIONS@.len() - i,
        {
            let (code, name, _) = STANDARD_EXTENSIONS[i];
            let by_g = has_g && (code == 'm' || code == 'a' || code == 'f' || code == 'd' || (code
                == 'i' && !has_e));
            if contains_char(letters.as_slice(), code) || by_g {
                let row = to_chars(name);
                assert(rows(names@.push(row)) =~= rows(names@).push(row@));
                names.push(row);
            }
            i += 1;
        }
        let space = [' '];
        assert(space@ =~= seq![' ']);
        let joined = join_with(&names, space.as_slice());
        from_chars(joined.as_slice())
    }

    /// The named tokens of the scope: the implied ones, then the admitted
    /// segments in first-seen order, none twice.
    pub fn tokens(&self, scope: TokenScope) -> (tokens: Vec<Vec<char>>)
        ensures
            rows(tokens@) == named_tokens(self@, scope),
    {
        let letters = self.letters();
        let implied = match scope {
            TokenScope::S => false,
            _ => contains_char(letters.as_slice(), 'g'),
        };
        let mut tokens: Vec<Vec<char>> = Vec::new();
        if implied {
            tokens.push(to_chars("zicsr"));
            tokens.push(to_chars("zifencei"));
        }
        let segments = split_on(self.chars.as_slice(), '_');
        let mut i: usize = 0;
        proof {
            assert(rows(tokens@) =~= implied_tokens(self@, scope));
            assert(rows(segments@).take(0).len() == 0);
        }
        while i < segments.len()
            invariant
                i <= segments.len(),
                rows(tokens@) == collect_tokens(
                    implied_tokens(self@, scope),
                    rows(segments@).take(i as int),
                    scope,
                ),
            decreases segments.len() - i,
        {
            let segment = segments[i].as_slice();
            proof {
                let next = rows(segments@).take(i + 1);
                assert(next.drop_last() =~= rows(segments@).take(i as int));
                assert(next.last() == segment@);
            }
            if admitted(scope, segment) && !contains_row(&tokens, segment) {
                let kept = copy_range(segment, 0, segment.len());
                assert(kept@ =~= segment@);
                assert(rows(tokens@.push(kept)) =~= rows(tokens@).push(kept@));
                tokens.push(kept);
            }
            i += 1;
        }
        proof {
            assert(rows(segments@).take(segments@.len() as int) =~= rows(segments@));
        }
        tokens
    }

    /// The named tokens of the scope joined by single spaces.
    pub fn named_extensions(&self, scope: TokenScope) -> (out: String)
        ensures
            out@ == named_compact(self@, scope),
    {
        let tokens = self.tokens(scope);
        let space = [' '];
        assert(space@ =~= seq![' ']);
        let joined = join_with(&tokens, space.as_slice());
        from_chars(joined.as_slice())
    }

    /// The detected-only view over `table`: token by token the rows whose
    /// pattern is a substring of the token, each row once and flagged as
    /// supported.
    pub fn classify(&self, table: &[NamedRow], scope: TokenScope) -> (out: Vec<ExtensionInfo>)
        ensures
            infos(out@) == classified(self@, table@, scope),
    {
        let tokens = self.tokens(scope);
        let found = detect(&tokens, table);
        let mut out: Vec<ExtensionInfo> = Vec::new();
        let mut k: usize = 0;
        while k < found.len()
            invariant
                k <= found.len(),
                forall|j: int| 0 <= j < found@.len() ==> found@[j] < table@.len(),
                out@.len() == k,
                forall|j: int| 0 <= j < k ==> out@[j]@ == info_of(table@[found@[j] as int], true),
            decreases found.len() - k,
        {
            out.push(info_from(table[found[k]], true));
            k += 1;
        }
        proof {
            assert(indices(found@).len() == found@.len());
            assert forall|j: int| 0 <= j < found@.len() implies indices(found@)[j]
                == found@[j] as int by {}
            assert(infos(out@) =~= classified(self@, table@, scope));
        }
        out
    }

    /// The all-known view over `table`: every row in declaration order,
    /// flagged with whether the detected-only view holds it.
    pub fn all_known(&self, table: &[NamedRow], scope: TokenScope) -> (out: Vec<ExtensionInfo>)
        ensures
            infos(out@) == all_with_status(self@, table@, scope),
    {
        let tokens = self.tokens(scope);
        let found = detect(&tokens, table);
        let mut out: Vec<ExtensionInfo> = Vec::new();
        let mut i: usize = 0;
        while i < table.len()
            invariant
                i <= table.len(),
                out@.len() == i,
                forall|j: int|
                    0 <= j < i ==> out@[j]@ == info_of(
                        table@[j],
                        indices(found@).contains(j),
                    ),
            decreases table.len() - i,
        {
            let supported = contains_index(&found, i);
            out.push(info_from(table[i], supported));
            i += 1;
        }
        proof {
            assert(infos(out@) =~= all_with_status(self@, table@, scope));
        }
        out
    }

    /// The all-known view of the base extensions: (name, description,
    /// reported) for each, in declaration order.
    pub fn standard_status(&self) -> (out: Vec<(String, String, bool)>)
        ensures
            out@.len() == STANDARD_EXTENSIONS@.len(),
            forall|i: int|
                0 <= i < out@.len() ==> (out@[i].0@, out@[i].1@, out@[i].2)
                    == standard_with_status(self@)[i],
    {
        let letters = self.letters();
        let has_g = contains_char(letters.as_slice(), 'g');
        let has_e = contains_char(letters.as_slice(), 'e');
        let mut out: Vec<(String, String, bool)> = Vec::new();
        let mut i: usize = 0;
        while i < STANDARD_EXTENSIONS.len()
            invariant
                i <= STANDARD_EXTENSIONS@.len(),
                letters@ == extension_letters(self@),
                has_g == letters@.contains('g'),
                has_e == letters@.contains('e'),
                out@.len() == i,
                forall|j: int|
                    0 <= j < i ==> (out@[j].0@, out@[j].1@, out@[j].2) == standard_with_status(
                        self@,
                    )[j],
            decreases STANDARD_EXTENSIONS@.len() - i,
        {
            let (code, name, description) = STANDARD_EXTENSIONS[i];
            let by_g = has_g && (code == 'm' || code == 'a' || code == 'f' || code == 'd' || (code
                == 'i' && !has_e));
            let reported = contains_char(letters.as_slice(), code) || by_g;
            out.push((name.to_owned(), description.to_owned(), reported));
            i += 1;
        }
        out
    }

    /// (name, description) of each base extension whose letter stands in
    /// the extension letters, in declaration order. `g` is not expanded.
    pub fn extensions_explained(&self) -> (out: Vec<(String, String)>)
        ensures
            pairs(out@) == explained(extension_letters(self@), STANDARD_EXTENSIONS@.len() as int),
    {
        let letters = self.letters();
        let mut out: Vec<(String, String)> = Vec::new();
        let mut i: usize = 0;
        proof {
            assert(pairs(out@) =~= explained(letters@, 0));
        }
        while i < STANDARD_EXTENSIONS.len()
            invariant
                i <= STANDARD_EXTENSIONS@.len(),
                pairs(out@) == explained(letters@, i as int),
            decreases STANDARD_EXTENSIONS@.len() - i,
        {
            let (code, name, description) = STANDARD_EXTENSIONS[i];
            if contains_char(letters.as_slice(), code) {
                let pair = (name.to_owned(), description.to_owned());
                assert(pairs(out@.push(pair)) =~= pairs(out@).push((pair.0@, pair.1@)));
                out.push(pair);
            }
            i += 1;
        }
        out
    }

    /// (name, description) of each row of `table` whose pattern occurs
    /// anywhere in the text, in declaration order.
    pub fn named_extensions_explained(&self, table: &[NamedRow]) -> (out: Vec<(String, String)>)
        ensures
            pairs(out@) == named_explained(self@, table@, table@.len() as int),
    {
        let mut out: Vec<(String, String)> = Vec::new();
        let mut i: usize = 0;
        proof {
            assert(pairs(out@) =~= named_explained(self@, table@, 0));
        }
        while i < table.len()
            invariant
                i <= table.len(),
                pairs(out@) == named_explained(self@, table@, i as int),
            decreases table.len() - i,
        {
            let row = table[i];
            let pattern = to_chars(row.0);
            if contains_seq(self.chars.as_slice(), pattern.as_slice()) {
                let pair = (row.1.to_owned(), row.2.to_owned());
                assert(pairs(out@.push(pair)) =~= pairs(out@).push((pair.0@, pair.1@)));
                out.push(pair);
            }
            i += 1;
        }
        out
    }

    /// The vector detail: `None` without a vector unit, else `Enabled`,
    /// followed by `, VLEN>=N` for the widest width marker in the text.
    pub fn vector(&self) -> (out: Option<String>)
        ensures
            match out {
                Some(detail) => vector_detail(self@) == Some(detail@),
                None => vector_detail(self@) is None,
            },
    {
        let letters = self.letters();
        let zve = to_chars("zve");
        if !contains_char(letters.as_slice(), 'v') && !contains_seq(
            self.chars.as_slice(),
            zve.as_slice(),
        ) {
            return None;
        }
        let mut detail = "Enabled".to_owned();
        let mut i: usize = 0;
        while i < VLEN_MARKERS.len()
            invariant
                i <= VLEN_MARKERS@.len(),
                vector_present(self@),
                detail@ == "Enabled"@,
                widest_marker(self@, 0) == widest_marker(self@, i as int),
            decreases VLEN_MARKERS@.len() - i,
        {
            let (marker, label) = VLEN_MARKERS[i];
            let pattern = to_chars(marker);
            if contains_seq(self.chars.as_slice(), pattern.as_slice()) {
                detail.append(", ");
                detail.append(label);
                assert(detail@ =~= "Enabled"@ + ", "@ + label@);
                return Some(detail);
            }
            i += 1;
        }
        Some(detail)
    }
}

/// `base` without a leading `rv64` or `rv32`.
pub fn strip_rv_prefix(base: &str) -> (rest: &str)
    ensures
        rest@ == strip_rv(base@),
{
    let chars = to_chars(base);
    let rv64 = ['r', 'v', '6', '4'];
    let rv32 = ['r', 'v', '3', '2'];
    assert(rv64@ =~= rv64_marker());
    assert(rv32@ =~= rv32_marker());
    if starts_with(chars.as_slice(), rv64.as_slice()) || starts_with(
        chars.as_slice(),
        rv32.as_slice(),
    ) {
        let rest = base.substring_char(4, chars.len());
        assert(rest@ =~= base@.skip(4));
        rest
    } else {
        base
    }
}

/// The base extensions of `isa` as display letters joined by single spaces,
/// in declaration order; empty when none is recognised.
pub fn parse_extensions_compact(isa: &str) -> (out: String)
    ensures
        out@ == compact(lowercase_of(isa@)),
{
    LoweredIsa::new(isa).extensions_compact()
}

/// The named extensions of `isa`, unprivileged and privileged together, as
/// lowercase tokens joined by single spaces: the two that `g` implies, then
/// the tokens in first-seen order, none twice.
pub fn parse_named_extensions(isa: &str) -> (out: String)
    ensures
        out@ == named_compact(lowercase_of(isa@), TokenScope::Named),
{
    LoweredIsa::new(isa).named_extensions(TokenScope::Named)
}

/// The unprivileged named extensions of `isa` as lowercase tokens joined by
/// single spaces: the two that `g` implies, then the `z` tokens in
/// first-seen order, none twice.
pub fn parse_z_extensions(isa: &str) -> (out: String)
    ensures
        out@ == named_compact(lowercase_of(isa@), TokenScope::Z),
{
    LoweredIsa::new(isa).named_extensions(TokenScope::Z)
}

/// The privileged named extensions of `isa` as lowercase tokens joined by
/// single spaces: the `s` tokens in first-seen order, none twice.
pub fn parse_s_extensions(isa: &str) -> (out: String)
    ensures
        out@ == named_compact(lowercase_of(isa@), TokenScope::S),
{
    LoweredIsa::new(isa).named_extensions(TokenScope::S)
}

/// (name, description) of each base extension whose letter stands among
/// the extension letters of `isa`, in declaration order.
pub fn parse_extensions_explained(isa: &str) -> (out: Vec<(String, String)>)
    ensures
        pairs(out@) == explained(
            extension_letters(lowercase_of(isa@)),
            STANDARD_EXTENSIONS@.len() as int,
        ),
{
    LoweredIsa::new(isa).extensions_explained()
}

/// (name, description) of each unprivileged extension whose pattern occurs
/// anywhere in the lowercased `isa`, in declaration order.
pub fn parse_z_extensions_explained(isa: &str) -> (out: Vec<(String, String)>)
    ensures
        pairs(out@) == named_explained(
            lowercase_of(isa@),
            Z_EXTENSIONS@,
            Z_EXTENSIONS@.len() as int,
        ),
{
    let table = Z_EXTENSIONS;
    LoweredIsa::new(isa).named_extensions_explained(table.as_slice())
}

/// (name, description) of each privileged extension whose pattern occurs
/// anywhere in the lowercased `isa`, in declaration order.
pub fn parse_s_extensions_explained(isa: &str) -> (out: Vec<(String, String)>)
    ensures
        pairs(out@) == named_explained(
            lowercase_of(isa@),
            S_EXTENSIONS@,
            S_EXTENSIONS@.len() as int,
        ),
{
    let table = S_EXTENSIONS;
    LoweredIsa::new(isa).named_extensions_explained(table.as_slice())
}

/// The unprivileged extensions that `isa` attests, with description and
/// category: for each `z` token, implied ones first, every catalog row
/// whose pattern is a substring of the token; each row once, unknown tokens
/// passed over.
pub fn parse_z_extensions_with_category(isa: &str) -> (out: Vec<ExtensionInfo>)
    ensures
        infos(out@) == classified(lowercase_of(isa@), Z_EXTENSIONS@, TokenScope::Z),
{
    let table = Z_EXTENSIONS;
    LoweredIsa::new(isa).classify(table.as_slice(), TokenScope::Z)
}

/// The privileged extensions that `isa` attests, with description and
/// category: for each `s` token every catalog row whose pattern is a
/// substring of the token; each row once, unknown tokens passed over.
pub fn parse_s_extensions_with_category(isa: &str) -> (out: Vec<ExtensionInfo>)
    ensures
        infos(out@) == classified(lowercase_of(isa@), S_EXTENSIONS@, TokenScope::S),
{
    let table = S_EXTENSIONS;
    LoweredIsa::new(isa).classify(table.as_slice(), TokenScope::S)
}

/// Every base extension in declaration order as (name, description,
/// reported), where `reported` says whether the compact string of `isa`
/// names it.
pub fn get_all_standard_extensions_with_status(isa: &str) -> (out: Vec<(String, String, bool)>)
    ensures
        out@.len() == STANDARD_EXTENSIONS@.len(),
        forall|i: int|
            0 <= i < out@.len() ==> (out@[i].0@, out@[i].1@, out@[i].2) == standard_with_status(
                lowercase_of(isa@),
            )[i],
{
    LoweredIsa::new(isa).standard_status()
}

/// Every unprivileged extension of the catalog in declaration order,
/// flagged with whether `isa` attests it.
pub fn get_all_z_extensions_with_status(isa: &str) -> (out: Vec<ExtensionInfo>)
    ensures
        infos(out@) == all_with_status(lowercase_of(isa@), Z_EXTENSIONS@, TokenScope::Z),
{
    let table = Z_EXTENSIONS;
    LoweredIsa::new(isa).all_known(table.as_slice(), TokenScope::Z)
}

/// Every privileged extension of the catalog in declaration order, flagged
/// with whether `isa` attests it.
pub fn get_all_s_extensions_with_status(isa: &str) -> (out: Vec<ExtensionInfo>)
    ensures
        infos(out@) == all_with_status(lowercase_of(isa@), S_EXTENSIONS@, TokenScope::S),
{
    let table = S_EXTENSIONS;
    LoweredIsa::new(isa).all_known(table.as_slice(), TokenScope::S)
}

/// The vector detail of `isa`: `None` without a vector unit, else
/// `Enabled`, followed by `, VLEN>=N` for the widest width marker that
/// `isa` holds. No width is made up where no marker stands.
pub fn parse_vector_from_isa(isa: &str) -> (out: Option<String>)
    ensures
        match out {
            Some(detail) => vector_detail(lowercase_of(isa@)) == Some(detail@),
            None => vector_detail(lowercase_of(isa@)) is None,
        },
{
    LoweredIsa::new(isa).vector()
}

/// The label of the first row of `table` whose id is `category`, or
/// `Other` when there is none.
pub fn category_name(category: &str, table: &[(&'static str, &'static str)]) -> (label:
    &'static str)
    ensures
        label@ == category_label(category@, table@),
{
    let wanted = to_chars(category);
    let mut i: usize = 0;
    while i < table.len()
        invariant
            i <= table.len(),
            wanted@ == category@,
            category_label(category@, table@) == label_from(category@, table@, i as int),
        decreases table.len() - i,
    {
        let (id, label) = table[i];
        let id_chars = to_chars(id);
        if same_chars(id_chars.as_slice(), wanted.as_slice()) {
            return label;
        }
        i += 1;
    }
    "Other"
}

/// The display label of a category of unprivileged extensions; `Other` for
/// an id that the catalog does not know.
pub fn get_z_category_name(category: &str) -> (label: &'static str)
    ensures
        label@ == category_label(category@, Z_CATEGORY_NAMES@),
{
    let table = Z_CATEGORY_NAMES;
    category_name(category, table.as_slice())
}

/// The display label of a category of privileged extensions; `Other` for
/// an id that the catalog does not know.
pub fn get_s_category_name(category: &str) -> (label: &'static str)
    ensures
        label@ == category_label(category@, S_CATEGORY_NAMES@),
{
    let table = S_CATEGORY_NAMES;
    category_name(category, table.as_slice())
}

/// The base extension with letter `code`: its row of the catalog, if the
/// catalog has one.
pub fn lookup_base(code: char) -> (hit: Option<(char, &'static str, &'static str)>)
    ensures
        match hit {
            Some(row) => exists|i: int|
                0 <= i < STANDARD_EXTENSIONS@.len() && row == STANDARD_EXTENSIONS[i] && row.0
                    == code && forall|j: int| 0 <= j < i ==> STANDARD_EXTENSIONS[j].0 != code,
            None => forall|i: int|
                0 <= i < STANDARD_EXTENSIONS@.len() ==> STANDARD_EXTENSIONS[i].0 != code,
        },
{
    let mut i: usize = 0;
    while i < STANDARD_EXTENSIONS.len()
        invariant
            i <= STANDARD_EXTENSIONS@.len(),
            forall|j: int| 0 <= j < i ==> STANDARD_EXTENSIONS[j].0 != code,
        decreases STANDARD_EXTENSIONS@.len() - i,
    {
        let row = STANDARD_EXTENSIONS[i];
        if row.0 == code {
            return Some(row);
        }
        i += 1;
    }
    None
}

/// The first row of `table` that `token` stands for: the first whose
/// pattern is a substring of the token. A token may stand for later rows
/// as well; the classified views report them all.
pub fn lookup_named(token: &str, table: &[NamedRow]) -> (hit: Option<NamedRow>)
    ensures
        match hit {
            Some(row) => match lookup(token@, table@) {
                Some(i) => 0 <= i < table@.len() && row == table@[i],
                None => false,
            },
            None => lookup(token@, table@) is None,
        },
{
    let chars = to_chars(token);
    match lookup_row(chars.as_slice(), table) {
        Some(i) => Some(table[i]),
        None => None,
    }
}

} // verus!
