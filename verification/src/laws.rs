//! What holds of the parsers whatever the input.

use crate::extensions::STANDARD_EXTENSIONS;
use crate::grouping::{ascending, category_keys, grouped, insert_key, lex_lt, members};
use crate::model::{
    admits, all_with_status, classified, collect_tokens, compact, detected, extension_letters,
    implied_tokens, info_of, lookup, lookup_from, matching_rows, named_compact, named_tokens,
    selected_names, standard_with_status, vector_detail, vector_present, with_new,
    ExtensionInfoView, NamedRow, TokenScope,
};
use crate::text::{lowercase_of, occurs, split};
use vstd::prelude::*;

verus! {

/// The parsers see a capability string through its lowercase form alone:
/// two strings with the same lowercase form, such as one string in two
/// spellings of case, give the same base extensions, the same named
/// extensions in every scope, and the same vector detail.
pub proof fn law_case_does_not_matter(isa: Seq<char>, respelled: Seq<char>, scope: TokenScope)
    ensures
        lowercase_of(isa) == lowercase_of(respelled) ==> {
            &&& compact(lowercase_of(isa)) == compact(lowercase_of(respelled))
            &&& named_compact(lowercase_of(isa), scope) == named_compact(
                lowercase_of(respelled),
                scope,
            )
            &&& vector_detail(lowercase_of(isa)) == vector_detail(lowercase_of(respelled))
        },
{
}

/// Parsing the lowercase form of a capability string gives the base
/// extensions of the string itself, for every string whose lowercase form
/// stays as it is when lowercased once more.
pub proof fn law_lowercase_parses_alike(isa: Seq<char>)
    ensures
        lowercase_of(lowercase_of(isa)) == lowercase_of(isa) ==> compact(
            lowercase_of(lowercase_of(isa)),
        ) == compact(lowercase_of(isa)),
{
}

/// Whether some token attests a row: the pattern of the row is a substring
/// of the token.
pub open spec fn attested(tokens: Seq<Seq<char>>, table: Seq<NamedRow>, row: int) -> bool {
    exists|t: int| 0 <= t < tokens.len() && occurs(#[trigger] tokens[t], table[row].0@)
}

/// The rows that a token stands for are the rows whose pattern is a
/// substring of it, in ascending order.
pub proof fn lemma_matching_rows(token: Seq<char>, table: Seq<NamedRow>, n: int)
    requires
        0 <= n <= table.len(),
    ensures
        forall|row: int| #[trigger]
            matching_rows(token, table, n).contains(row) <==> 0 <= row < n && occurs(
                token,
                table[row].0@,
            ),
        forall|i: int, j: int|
            0 <= i < j < matching_rows(token, table, n).len() ==> matching_rows(token, table, n)[i]
                < matching_rows(token, table, n)[j],
    decreases n,
{
    let out = matching_rows(token, table, n);
    if n > 0 {
        let before = matching_rows(token, table, n - 1);
        lemma_matching_rows(token, table, n - 1);
        assert forall|row: int| out.contains(row) <==> 0 <= row < n && occurs(
            token,
            table[row].0@,
        ) by {
            if before.contains(row) {
                let k = choose|k: int| 0 <= k < before.len() && before[k] == row;
                assert(out[k] == row);
            }
            if out.contains(row) && !before.contains(row) {
                let k = choose|k: int| 0 <= k < out.len() && out[k] == row;
                if k < before.len() {
                    assert(before[k] == row);
                }
            }
            if row == n - 1 && occurs(token, table[row].0@) {
                assert(out[before.len() as int] == row);
            }
        }
        assert forall|i: int, j: int| 0 <= i < j < out.len() implies out[i] < out[j] by {
            if j == before.len() {
                assert(before.contains(before[i]));
            }
        }
    } else {
        assert forall|row: int| out.contains(row) <==> 0 <= row < n && occurs(
            token,
            table[row].0@,
        ) by {}
    }
}

/// Adding rows keeps a list without repeats free of them and adds the rows,
/// nothing else.
pub proof fn lemma_with_new(list: Seq<int>, more: Seq<int>)
    requires
        list.no_duplicates(),
    ensures
        with_new(list, more).no_duplicates(),
        forall|row: int| #[trigger]
            with_new(list, more).contains(row) <==> list.contains(row) || more.contains(row),
    decreases more.len(),
{
    let out = with_new(list, more);
    if more.len() > 0 {
        let head = more.drop_last();
        let last = more.last();
        let before = with_new(list, head);
        lemma_with_new(list, head);
        assert(more.contains(last)) by {
            assert(more[more.len() - 1] == last);
        }
        assert forall|row: int| out.contains(row) <==> list.contains(row) || more.contains(
            row,
        ) by {
            if head.contains(row) {
                let i = choose|i: int| 0 <= i < head.len() && head[i] == row;
                assert(more[i] == row);
            }
            if more.contains(row) && row != last {
                let i = choose|i: int| 0 <= i < more.len() && more[i] == row;
                assert(head[i] == row);
            }
            if before.contains(row) {
                let i = choose|i: int| 0 <= i < before.len() && before[i] == row;
                assert(out[i] == row);
            }
            if out.contains(row) && !before.contains(row) {
                let i = choose|i: int| 0 <= i < out.len() && out[i] == row;
                if i < before.len() {
                    assert(before[i] == row);
                }
            }
            if out != before {
                assert(out[before.len() as int] == last);
            }
        }
    } else {
        assert forall|row: int| out.contains(row) <==> list.contains(row) || more.contains(
            row,
        ) by {}
    }
}

/// A row is detected exactly where some token attests it, and no row is
/// detected twice.
pub proof fn lemma_detected(tokens: Seq<Seq<char>>, table: Seq<NamedRow>)
    ensures
        detected(tokens, table).no_duplicates(),
        forall|row: int| #[trigger]
            detected(tokens, table).contains(row) <==> 0 <= row < table.len() && attested(
                tokens,
                table,
                row,
            ),
    decreases tokens.len(),
{
    let out = detected(tokens, table);
    if tokens.len() > 0 {
        let head = tokens.drop_last();
        let last = tokens.last();
        let more = matching_rows(last, table, table.len() as int);
        lemma_detected(head, table);
        lemma_matching_rows(last, table, table.len() as int);
        lemma_with_new(detected(head, table), more);
        assert(out == with_new(detected(head, table), more));
        assert forall|row: int| out.contains(row) <==> 0 <= row < table.len() && attested(
            tokens,
            table,
            row,
        ) by {
            assert(out.contains(row) <==> detected(head, table).contains(row) || more.contains(
                row,
            ));
            assert(more.contains(row) <==> 0 <= row < table.len() && occurs(last, table[row].0@));
            assert(detected(head, table).contains(row) <==> 0 <= row < table.len() && attested(
                head,
                table,
                row,
            ));
            if 0 <= row < table.len() {
                if attested(head, table, row) {
                    let t = choose|t: int|
                        0 <= t < head.len() && occurs(#[trigger] head[t], table[row].0@);
                    assert(tokens[t] == head[t]);
                }
                if occurs(last, table[row].0@) {
                    assert(tokens[tokens.len() - 1] == last);
                }
                if attested(tokens, table, row) {
                    let t = choose|t: int|
                        0 <= t < tokens.len() && occurs(#[trigger] tokens[t], table[row].0@);
                    if t < head.len() {
                        assert(head[t] == tokens[t]);
                    }
                }
            }
        }
    } else {
        assert forall|row: int| out.contains(row) <==> 0 <= row < table.len() && attested(
            tokens,
            table,
            row,
        ) by {}
    }
}

/// The all-known view has one entry for each row of the catalog, whatever
/// the capability string, and its entries keep the order of the catalog.
pub proof fn law_all_known_covers_the_catalog(
    isa: Seq<char>,
    table: Seq<NamedRow>,
    scope: TokenScope,
)
    ensures
        all_with_status(isa, table, scope).len() == table.len(),
        forall|i: int|
            0 <= i < table.len() ==> {
                &&& (#[trigger] all_with_status(isa, table, scope)[i]).name == table[i].1@
                &&& all_with_status(isa, table, scope)[i].description == table[i].2@
                &&& all_with_status(isa, table, scope)[i].category == table[i].3@
            },
        standard_with_status(isa).len() == STANDARD_EXTENSIONS@.len(),
{
}

/// The entries that the all-known view flags as supported are exactly the
/// entries of the detected-only view, and the detected-only view holds no
/// row of the catalog twice.
pub proof fn law_supported_is_detected(isa: Seq<char>, table: Seq<NamedRow>, scope: TokenScope)
    ensures
        forall|entry: ExtensionInfoView|
            classified(isa, table, scope).contains(entry) <==> entry.supported && all_with_status(
                isa,
                table,
                scope,
            ).contains(entry),
        forall|i: int|
            0 <= i < table.len() ==> (all_with_status(isa, table, scope)[i].supported <==> detected(
                named_tokens(isa, scope),
                table,
            ).contains(i)),
        detected(named_tokens(isa, scope), table).no_duplicates(),
        classified(isa, table, scope).len() == detected(named_tokens(isa, scope), table).len(),
{
    let found = detected(named_tokens(isa, scope), table);
    let all = all_with_status(isa, table, scope);
    let seen = classified(isa, table, scope);
    lemma_detected(named_tokens(isa, scope), table);
    assert forall|entry: ExtensionInfoView| seen.contains(entry) implies entry.supported
        && all.contains(entry) by {
        let k = choose|k: int| 0 <= k < seen.len() && seen[k] == entry;
        let row = found[k];
        assert(found.contains(row));
        assert(0 <= row < table.len());
        assert(all[row] == entry);
    }
    assert forall|entry: ExtensionInfoView|
        entry.supported && all.contains(entry) implies seen.contains(entry) by {
        let i = choose|i: int| 0 <= i < all.len() && all[i] == entry;
        assert(found.contains(i));
        let k = choose|k: int| 0 <= k < found.len() && found[k] == i;
        assert(seen[k] == entry);
    }
}

/// The names that the first `n` entries of a status list flag, in order.
pub open spec fn flagged_names(status: Seq<(Seq<char>, Seq<char>, bool)>, n: int) -> Seq<
    Seq<char>,
>
    decreases n,
{
    if n <= 0 {
        Seq::empty()
    } else {
        let before = flagged_names(status, n - 1);
        if status[n - 1].2 {
            before.push(status[n - 1].0)
        } else {
            before
        }
    }
}

/// The base extensions that the all-known view flags are, in order, the
/// names that the compact string is made of.
pub proof fn law_flagged_base_is_compact(isa: Seq<char>, n: int)
    requires
        0 <= n <= STANDARD_EXTENSIONS@.len(),
    ensures
        flagged_names(standard_with_status(isa), n) == selected_names(extension_letters(isa), n),
    decreases n,
{
    if n > 0 {
        law_flagged_base_is_compact(isa, n - 1);
    }
}

/// No text sorts before itself.
pub proof fn lemma_lex_irreflexive(a: Seq<char>)
    ensures
        !lex_lt(a, a),
    decreases a.len(),
{
    if a.len() > 0 {
        lemma_lex_irreflexive(a.drop_first());
    }
}

/// What sorts before a text sorts before all that the text sorts before.
pub proof fn lemma_lex_transitive(a: Seq<char>, b: Seq<char>, c: Seq<char>)
    requires
        lex_lt(a, b),
        lex_lt(b, c),
    ensures
        lex_lt(a, c),
    decreases a.len(),
{
    if a.len() > 0 && b.len() > 0 && c.len() > 0 && a[0] == b[0] && b[0] == c[0] {
        lemma_lex_transitive(a.drop_first(), b.drop_first(), c.drop_first());
    }
}

/// Of two different texts one sorts before the other.
pub proof fn lemma_lex_total(a: Seq<char>, b: Seq<char>)
    ensures
        a == b || lex_lt(a, b) || lex_lt(b, a),
    decreases a.len(),
{
    if a.len() > 0 && b.len() > 0 && a[0] == b[0] {
        lemma_lex_total(a.drop_first(), b.drop_first());
        if a.drop_first() == b.drop_first() {
            assert(a =~= seq![a[0]] + a.drop_first());
            assert(b =~= seq![b[0]] + b.drop_first());
        }
    } else if a.len() == 0 && b.len() == 0 {
        assert(a =~= b);
    }
}

/// Putting a key in its place keeps the keys ascending and adds the key to
/// them, nothing else.
pub proof fn lemma_insert_key(keys: Seq<Seq<char>>, key: Seq<char>)
    requires
        ascending(keys),
    ensures
        ascending(insert_key(keys, key)),
        forall|k: Seq<char>| #[trigger]
            insert_key(keys, key).contains(k) <==> keys.contains(k) || k == key,
    decreases keys.len(),
{
    let out = insert_key(keys, key);
    if keys.len() == 0 {
        assert(out[0] == key);
        assert forall|k: Seq<char>| out.contains(k) <==> keys.contains(k) || k == key by {}
    } else if keys.last() == key {
        assert(keys.contains(key));
    } else if lex_lt(keys.last(), key) {
        assert forall|i: int, j: int| 0 <= i < j < out.len() implies lex_lt(out[i], out[j]) by {
            if j == keys.len() {
                if i < keys.len() - 1 {
                    lemma_lex_transitive(keys[i], keys.last(), key);
                }
            }
        }
        assert forall|k: Seq<char>| out.contains(k) <==> keys.contains(k) || k == key by {
            if keys.contains(k) {
                let i = choose|i: int| 0 <= i < keys.len() && keys[i] == k;
                assert(out[i] == k);
            }
            if k == key {
                assert(out[keys.len() as int] == k);
            }
        }
    } else {
        let head = keys.drop_last();
        let last = keys.last();
        assert(ascending(head));
        lemma_insert_key(head, key);
        let inner = insert_key(head, key);
        lemma_lex_total(last, key);
        assert(lex_lt(key, last));
        assert forall|i: int, j: int| 0 <= i < j < out.len() implies lex_lt(out[i], out[j]) by {
            if j == inner.len() {
                let k = inner[i];
                assert(inner.contains(k));
                assert(out[i] == k && out[j] == last);
                if k != key {
                    assert(head.contains(k));
                    let t = choose|t: int| 0 <= t < head.len() && head[t] == k;
                    assert(keys[t] == k);
                    assert(lex_lt(keys[t], keys[keys.len() - 1]));
                }
            } else {
                assert(out[i] == inner[i] && out[j] == inner[j]);
            }
        }
        assert forall|k: Seq<char>| out.contains(k) <==> keys.contains(k) || k == key by {
            if out.contains(k) {
                let i = choose|i: int| 0 <= i < out.len() && out[i] == k;
                if i < inner.len() {
                    assert(inner[i] == k);
                    assert(inner.contains(k));
                    if k != key {
                        assert(head.contains(k));
                        let t = choose|t: int| 0 <= t < head.len() && head[t] == k;
                        assert(keys[t] == k);
                    }
                } else {
                    assert(keys[keys.len() - 1] == k);
                }
            }
            if keys.contains(k) {
                let t = choose|t: int| 0 <= t < keys.len() && keys[t] == k;
                if t < head.len() {
                    assert(head[t] == k);
                    assert(head.contains(k));
                    assert(inner.contains(k));
                    let i = choose|i: int| 0 <= i < inner.len() && inner[i] == k;
                    assert(out[i] == k);
                } else {
                    assert(out[inner.len() as int] == k);
                }
            }
            if k == key {
                assert(inner.contains(k));
                let i = choose|i: int| 0 <= i < inner.len() && inner[i] == k;
                assert(out[i] == k);
            }
        }
    }
}

/// Whether some item is of category `key`.
pub open spec fn has_category(items: Seq<ExtensionInfoView>, key: Seq<char>) -> bool {
    exists|i: int| 0 <= i < items.len() && #[trigger] items[i].category == key
}

/// The keys of a grouping are the categories of the items, each once, in
/// ascending order.
pub proof fn lemma_category_keys(items: Seq<ExtensionInfoView>)
    ensures
        ascending(category_keys(items)),
        forall|k: Seq<char>| #[trigger]
            category_keys(items).contains(k) <==> has_category(items, k),
    decreases items.len(),
{
    if items.len() > 0 {
        let head = items.drop_last();
        lemma_category_keys(head);
        lemma_insert_key(category_keys(head), items.last().category);
        assert forall|k: Seq<char>| category_keys(items).contains(k) <==> has_category(
            items,
            k,
        ) by {
            if has_category(head, k) {
                let i = choose|i: int| 0 <= i < head.len() && head[i].category == k;
                assert(items[i].category == k);
            }
            if has_category(items, k) {
                let i = choose|i: int| 0 <= i < items.len() && items[i].category == k;
                if i < head.len() {
                    assert(head[i].category == k);
                }
            }
            if k == items.last().category {
                assert(items[items.len() - 1].category == k);
            }
        }
    } else {
        assert forall|k: Seq<char>| category_keys(items).contains(k) <==> has_category(
            items,
            k,
        ) by {}
    }
}

/// There is one ascending list of any given keys.
pub proof fn lemma_ascending_unique(x: Seq<Seq<char>>, y: Seq<Seq<char>>)
    requires
        ascending(x),
        ascending(y),
        forall|k: Seq<char>| x.contains(k) <==> y.contains(k),
    ensures
        x == y,
    decreases x.len(),
{
    if x.len() == 0 {
        if y.len() > 0 {
            assert(y.contains(y[0]));
        }
        assert(x =~= y);
    } else {
        assert(x.contains(x.last()));
        assert(y.contains(x.last()));
        assert(y.len() > 0);
        assert(y.contains(y.last()));
        assert(x.contains(y.last()));
        let jx = choose|j: int| 0 <= j < x.len() && x[j] == y.last();
        let jy = choose|j: int| 0 <= j < y.len() && y[j] == x.last();
        if x.last() != y.last() {
            assert(lex_lt(x[jx], x[x.len() - 1]));
            assert(lex_lt(y[jy], y[y.len() - 1]));
            lemma_lex_transitive(x.last(), y.last(), x.last());
            lemma_lex_irreflexive(x.last());
        }
        let hx = x.drop_last();
        let hy = y.drop_last();
        assert forall|k: Seq<char>| hx.contains(k) <==> hy.contains(k) by {
            if hx.contains(k) {
                let i = choose|i: int| 0 <= i < hx.len() && hx[i] == k;
                assert(lex_lt(x[i], x[x.len() - 1]));
                lemma_lex_irreflexive(k);
                assert(x.contains(k));
                let j = choose|j: int| 0 <= j < y.len() && y[j] == k;
                assert(hy[j] == k);
            }
            if hy.contains(k) {
                let i = choose|i: int| 0 <= i < hy.len() && hy[i] == k;
                assert(lex_lt(y[i], y[y.len() - 1]));
                lemma_lex_irreflexive(k);
                assert(y.contains(k));
                let j = choose|j: int| 0 <= j < x.len() && x[j] == k;
                assert(hx[j] == k);
            }
        }
        lemma_ascending_unique(hx, hy);
        assert(x =~= hx.push(x.last()));
        assert(y =~= hy.push(y.last()));
    }
}

/// A category has members exactly where some item is of it.
pub proof fn lemma_members(items: Seq<ExtensionInfoView>, key: Seq<char>)
    ensures
        members(items, key).len() > 0 <==> has_category(items, key),
        forall|m: int|
            0 <= m < members(items, key).len() ==> (#[trigger] members(items, key)[m]).category
                == key,
    decreases items.len(),
{
    if items.len() > 0 {
        let head = items.drop_last();
        lemma_members(head, key);
        if has_category(head, key) {
            let i = choose|i: int| 0 <= i < head.len() && head[i].category == key;
            assert(items[i].category == key);
        }
        if has_category(items, key) {
            let i = choose|i: int| 0 <= i < items.len() && items[i].category == key;
            if i < head.len() {
                assert(head[i].category == key);
            }
        }
        if items.last().category == key {
            assert(items[items.len() - 1].category == key);
        }
    }
}

/// Grouping does not depend on the order of the input beyond the order of
/// the members within each category: two lists in which every category
/// has the same members in the same order, such as a list and a reordering
/// of it that moves no item past another of its category, have the same
/// groups in the same order.
pub proof fn law_grouping_ignores_order(a: Seq<ExtensionInfoView>, b: Seq<ExtensionInfoView>)
    requires
        forall|key: Seq<char>| members(a, key) == members(b, key),
    ensures
        grouped(a) == grouped(b),
{
    lemma_category_keys(a);
    lemma_category_keys(b);
    assert forall|k: Seq<char>| category_keys(a).contains(k) <==> category_keys(b).contains(
        k,
    ) by {
        lemma_members(a, k);
        lemma_members(b, k);
    }
    lemma_ascending_unique(category_keys(a), category_keys(b));
    assert(grouped(a) =~= grouped(b));
}

/// The groups come out in ascending order of their category ids, one group
/// for each category that occurs, and each group holds the items of its
/// category and no others.
pub proof fn law_groups_are_sorted(items: Seq<ExtensionInfoView>)
    ensures
        forall|g: int, h: int|
            0 <= g < h < grouped(items).len() ==> lex_lt(grouped(items)[g].0, grouped(items)[h].0),
        forall|key: Seq<char>|
            has_category(items, key) <==> exists|g: int|
                0 <= g < grouped(items).len() && #[trigger] grouped(items)[g].0 == key,
        forall|g: int|
            0 <= g < grouped(items).len() ==> (#[trigger] grouped(items)[g]).1 == members(
                items,
                grouped(items)[g].0,
            ) && grouped(items)[g].1.len() > 0,
{
    lemma_category_keys(items);
    let keys = category_keys(items);
    assert forall|key: Seq<char>| has_category(items, key) <==> exists|g: int|
        0 <= g < grouped(items).len() && #[trigger] grouped(items)[g].0 == key by {
        if has_category(items, key) {
            assert(keys.contains(key));
            let g = choose|g: int| 0 <= g < keys.len() && keys[g] == key;
            assert(grouped(items)[g].0 == key);
        }
        if exists|g: int| 0 <= g < grouped(items).len() && #[trigger] grouped(items)[g].0 == key {
            let g = choose|g: int| 0 <= g < grouped(items).len() && grouped(items)[g].0 == key;
            assert(keys[g] == key);
            assert(keys.contains(key));
        }
    }
    assert forall|g: int| 0 <= g < grouped(items).len() implies (#[trigger] grouped(items)[g]).1
        == members(items, grouped(items)[g].0) && grouped(items)[g].1.len() > 0 by {
        assert(keys.contains(keys[g]));
        lemma_members(items, keys[g]);
    }
}

/// How often an item stands among the members of a category: as often as
/// in the list where it is of that category, else never.
pub proof fn lemma_members_count(
    items: Seq<ExtensionInfoView>,
    key: Seq<char>,
    item: ExtensionInfoView,
)
    ensures
        members(items, key).to_multiset().count(item) == if item.category == key {
            items.to_multiset().count(item)
        } else {
            0
        },
    decreases items.len(),
{
    if items.len() == 0 {
        members(items, key).to_multiset_ensures();
        items.to_multiset_ensures();
        assert(!items.contains(item));
        assert(!members(items, key).contains(item));
    } else {
        let head = items.drop_last();
        lemma_members_count(head, key, item);
        head.to_multiset_ensures();
        members(head, key).to_multiset_ensures();
        assert(items =~= head.push(items.last()));
    }
}

/// Whatever the order of the input, the groups are the same categories in
/// the same order, and each group holds the same items as often: grouping
/// any reordering of a list changes at most the order inside the groups.
pub proof fn law_grouping_of_a_reordering(a: Seq<ExtensionInfoView>, b: Seq<ExtensionInfoView>)
    requires
        a.to_multiset() == b.to_multiset(),
    ensures
        grouped(a).len() == grouped(b).len(),
        forall|g: int|
            0 <= g < grouped(a).len() ==> (#[trigger] grouped(a)[g]).0 == grouped(b)[g].0
                && grouped(a)[g].1.to_multiset() == grouped(b)[g].1.to_multiset(),
{
    lemma_category_keys(a);
    lemma_category_keys(b);
    a.to_multiset_ensures();
    b.to_multiset_ensures();
    assert forall|k: Seq<char>| category_keys(a).contains(k) <==> category_keys(b).contains(
        k,
    ) by {
        if has_category(a, k) {
            let i = choose|i: int| 0 <= i < a.len() && a[i].category == k;
            assert(a.contains(a[i]));
            assert(a.to_multiset().count(a[i]) > 0);
            assert(b.to_multiset().count(a[i]) > 0);
            assert(b.contains(a[i]));
            let j = choose|j: int| 0 <= j < b.len() && b[j] == a[i];
            assert(b[j].category == k);
        }
        if has_category(b, k) {
            let i = choose|i: int| 0 <= i < b.len() && b[i].category == k;
            assert(b.contains(b[i]));
            assert(b.to_multiset().count(b[i]) > 0);
            assert(a.to_multiset().count(b[i]) > 0);
            assert(a.contains(b[i]));
            let j = choose|j: int| 0 <= j < a.len() && a[j] == b[i];
            assert(a[j].category == k);
        }
    }
    lemma_ascending_unique(category_keys(a), category_keys(b));
    assert forall|g: int| 0 <= g < grouped(a).len() implies (#[trigger] grouped(a)[g]).0
        == grouped(b)[g].0 && grouped(a)[g].1.to_multiset() == grouped(b)[g].1.to_multiset() by {
        let key = category_keys(a)[g];
        assert forall|item: ExtensionInfoView|
            members(a, key).to_multiset().count(item) == members(b, key).to_multiset().count(
                item,
            ) by {
            lemma_members_count(a, key, item);
            lemma_members_count(b, key, item);
        }
        assert(members(a, key).to_multiset() =~= members(b, key).to_multiset());
    }
}

/// Collecting keeps a list without repeats free of them, takes every
/// token from the seed or from the admitted segments, and leaves out no
/// admitted segment.
pub proof fn lemma_collect_tokens(
    seed: Seq<Seq<char>>,
    segments: Seq<Seq<char>>,
    scope: TokenScope,
)
    requires
        seed.no_duplicates(),
    ensures
        collect_tokens(seed, segments, scope).no_duplicates(),
        forall|token: Seq<char>| #[trigger]
            collect_tokens(seed, segments, scope).contains(token) <==> seed.contains(token) || (
            segments.contains(token) && admits(scope, token)),
    decreases segments.len(),
{
    let out = collect_tokens(seed, segments, scope);
    if segments.len() > 0 {
        let head = segments.drop_last();
        let last = segments.last();
        let before = collect_tokens(seed, head, scope);
        lemma_collect_tokens(seed, head, scope);
        assert(segments.contains(last)) by {
            assert(segments[segments.len() - 1] == last);
        }
        assert forall|token: Seq<char>| out.contains(token) <==> seed.contains(token) || (
        segments.contains(token) && admits(scope, token)) by {
            if head.contains(token) {
                let i = choose|i: int| 0 <= i < head.len() && head[i] == token;
                assert(segments[i] == token);
            }
            if segments.contains(token) && token != last {
                let i = choose|i: int| 0 <= i < segments.len() && segments[i] == token;
                assert(head[i] == token);
            }
            if before.contains(token) {
                let i = choose|i: int| 0 <= i < before.len() && before[i] == token;
                assert(out[i] == token);
            }
            if out.contains(token) && !before.contains(token) {
                let i = choose|i: int| 0 <= i < out.len() && out[i] == token;
                if i < before.len() {
                    assert(before[i] == token);
                }
            }
            if out != before {
                assert(out[before.len() as int] == last);
            }
        }
    } else {
        assert forall|token: Seq<char>| out.contains(token) <==> seed.contains(token) || (
        segments.contains(token) && admits(scope, token)) by {}
    }
}

/// The named tokens of a capability string hold no token twice. Each is
/// implied by `g` or is a `_`-delimited segment that the scope admits, and
/// every such segment is among them.
pub proof fn law_tokens_are_unique(isa: Seq<char>, scope: TokenScope)
    ensures
        named_tokens(isa, scope).no_duplicates(),
        forall|token: Seq<char>|
            named_tokens(isa, scope).contains(token) <==> implied_tokens(isa, scope).contains(
                token,
            ) || (split(isa, '_').contains(token) && admits(scope, token)),
{
    reveal_strlit("zicsr");
    reveal_strlit("zifencei");
    assert("zicsr"@.len() != "zifencei"@.len());
    lemma_collect_tokens(implied_tokens(isa, scope), split(isa, '_'), scope);
}

/// A lookup from row `from` on finds the first row whose pattern occurs
/// in the token.
pub proof fn lemma_lookup_first(token: Seq<char>, table: Seq<NamedRow>, from: int)
    requires
        0 <= from,
    ensures
        match lookup_from(token, table, from) {
            Some(row) => from <= row < table.len() && occurs(token, table[row].0@) && forall|j: int|
                from <= j < row ==> !occurs(token, #[trigger] table[j].0@),
            None => forall|j: int|
                from <= j < table.len() ==> !occurs(token, #[trigger] table[j].0@),
        },
    decreases table.len() - from,
{
    if from < table.len() {
        lemma_lookup_first(token, table, from + 1);
    }
}

/// A lookup finds a row exactly where the token stands for one, and then
/// it is the first of the rows that the token stands for.
pub proof fn law_lookup_is_the_first_match(token: Seq<char>, table: Seq<NamedRow>)
    ensures
        match lookup(token, table) {
            Some(row) => matching_rows(token, table, table.len() as int).len() > 0
                && matching_rows(token, table, table.len() as int)[0] == row,
            None => matching_rows(token, table, table.len() as int).len() == 0,
        },
{
    let rows = matching_rows(token, table, table.len() as int);
    lemma_lookup_first(token, table, 0);
    lemma_matching_rows(token, table, table.len() as int);
    match lookup(token, table) {
        Some(row) => {
            assert(rows.contains(row));
            assert(rows.contains(rows[0]));
            let k = choose|k: int| 0 <= k < rows.len() && rows[k] == row;
            if k > 0 {
                assert(rows[0] < rows[k]);
            }
        },
        None => {
            if rows.len() > 0 {
                assert(rows.contains(rows[0]));
            }
        },
    }
}

/// A capability string has a vector detail exactly where it attests a
/// vector unit: `v` among its extension letters, the address-width marker
/// set aside, or `zve` anywhere. The collectors flag the vector unit by the
/// same test.
pub proof fn law_vector_detail_needs_a_vector_unit(isa: Seq<char>)
    ensures
        vector_detail(isa) is Some <==> vector_present(isa),
        vector_present(isa) <==> extension_letters(isa).contains('v') || occurs(isa, "zve"@),
{
}

/// The detected-only view claims what the string attests and nothing else:
/// a row of the catalog is in it exactly where the pattern of the row is a
/// substring of a named token of the string, and each entry of the view is
/// such a row, flagged as supported.
pub proof fn law_detected_is_attested(isa: Seq<char>, table: Seq<NamedRow>, scope: TokenScope)
    ensures
        forall|row: int|
            detected(named_tokens(isa, scope), table).contains(row) <==> 0 <= row < table.len()
                && attested(named_tokens(isa, scope), table, row),
        forall|k: int|
            0 <= k < classified(isa, table, scope).len() ==> {
                let row = #[trigger] detected(named_tokens(isa, scope), table)[k];
                &&& 0 <= row < table.len()
                &&& attested(named_tokens(isa, scope), table, row)
                &&& classified(isa, table, scope)[k] == info_of(table[row], true)
            },
        forall|i: int|
            0 <= i < table.len() ==> (all_with_status(isa, table, scope)[i].supported <==> attested(
                named_tokens(isa, scope),
                table,
                i,
            )),
{
    let tokens = named_tokens(isa, scope);
    let found = detected(tokens, table);
    lemma_detected(tokens, table);
    assert forall|k: int| 0 <= k < found.len() implies 0 <= #[trigger] found[k] < table.len()
        && attested(tokens, table, found[k]) by {
        assert(found.contains(found[k]));
    }
}

} // verus!
