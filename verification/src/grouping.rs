//! Grouping classified extensions by category.
//!
//! Groups come out in ascending order of their category id, which makes the
//! output independent of the order in which categories first appear. Within
//! a group the members keep the order of the input.

use crate::model::ExtensionInfoView;
use crate::parsing::{infos, ExtensionInfo};
use crate::text::{from_chars, rows, same_chars, to_chars};
use vstd::prelude::*;

verus! {

/// Whether `a` sorts before `b` in the order of `str`: by the first
/// character in which they differ, a proper prefix before its extensions.
pub open spec fn lex_lt(a: Seq<char>, b: Seq<char>) -> bool
    decreases a.len(),
{
    if b.len() == 0 {
        false
    } else if a.len() == 0 {
        true
    } else if a[0] != b[0] {
        (a[0] as int) < (b[0] as int)
    } else {
        lex_lt(a.drop_first(), b.drop_first())
    }
}

/// Whether the keys are in strictly ascending order.
pub open spec fn ascending(keys: Seq<Seq<char>>) -> bool {
    forall|i: int, j: int| 0 <= i < j < keys.len() ==> lex_lt(keys[i], keys[j])
}

/// The ascending keys with `key` put in its place, unless it is there.
pub open spec fn insert_key(keys: Seq<Seq<char>>, key: Seq<char>) -> Seq<Seq<char>>
    decreases keys.len(),
{
    if keys.len() == 0 {
        seq![key]
    } else if keys.last() == key {
        keys
    } else if lex_lt(keys.last(), key) {
        keys.push(key)
    } else {
        insert_key(keys.drop_last(), key).push(keys.last())
    }
}

/// The category ids of the items, each once, in ascending order.
pub open spec fn category_keys(items: Seq<ExtensionInfoView>) -> Seq<Seq<char>>
    decreases items.len(),
{
    if items.len() == 0 {
        Seq::empty()
    } else {
        insert_key(category_keys(items.drop_last()), items.last().category)
    }
}

/// The items of category `key`, in the order of `items`.
pub open spec fn members(items: Seq<ExtensionInfoView>, key: Seq<char>) -> Seq<ExtensionInfoView>
    decreases items.len(),
{
    if items.len() == 0 {
        Seq::empty()
    } else {
        let before = members(items.drop_last(), key);
        if items.last().category == key {
            before.push(items.last())
        } else {
            before
        }
    }
}

/// The groups of `items`: one per category id, in ascending order of the
/// id, each with its members in the order of `items`.
pub open spec fn grouped(items: Seq<ExtensionInfoView>) -> Seq<
    (Seq<char>, Seq<ExtensionInfoView>),
> {
    let keys = category_keys(items);
    Seq::new(keys.len(), |g: int| (keys[g], members(items, keys[g])))
}

/// The views of borrowed classified extensions.
pub open spec fn borrowed_infos(list: Seq<&ExtensionInfo>) -> Seq<ExtensionInfoView> {
    Seq::new(list.len(), |m: int| (*list[m])@)
}

/// The views of a list of groups.
pub open spec fn groups(list: Seq<(String, Vec<&ExtensionInfo>)>) -> Seq<
    (Seq<char>, Seq<ExtensionInfoView>),
> {
    Seq::new(list.len(), |g: int| (list[g].0@, borrowed_infos(list[g].1@)))
}

/// Whether `a` sorts before `b` in the order of `str`.
pub fn lex_less(a: &[char], b: &[char]) -> (less: bool)
    ensures
        less == lex_lt(a@, b@),
{
    let mut i: usize = 0;
    proof {
        assert(a@.skip(0) =~= a@);
        assert(b@.skip(0) =~= b@);
    }
    while i < a.len() && i < b.len()
        invariant
            i <= a.len(),
            i <= b.len(),
            lex_lt(a@, b@) == lex_lt(a@.skip(i as int), b@.skip(i as int)),
        decreases a.len() - i,
    {
        proof {
            assert(a@.skip(i as int).drop_first() =~= a@.skip(i + 1));
            assert(b@.skip(i as int).drop_first() =~= b@.skip(i + 1));
            assert(a@.skip(i as int)[0] == a@[i as int]);
            assert(b@.skip(i as int)[0] == b@[i as int]);
        }
        let x: char = a[i];
        let y: char = b[i];
        if x != y {
            return x < y;
        }
        i += 1;
    }
    i < b.len()
}

/// Puts `key` in its place among the ascending keys, unless it is there.
pub fn insert_sorted(keys: &mut Vec<Vec<char>>, key: Vec<char>)
    ensures
        rows(final(keys)@) == insert_key(rows(old(keys)@), key@),
{
    let ghost before = rows(keys@);
    let mut at: usize = keys.len();
    proof {
        assert(before.take(at as int) =~= before);
        assert(insert_key(before, key@) =~= insert_key(before.take(at as int), key@) + before.skip(
            at as int,
        ));
    }
    while at > 0
        invariant
            at <= keys.len(),
            keys@ == old(keys)@,
            before == rows(keys@),
            insert_key(before, key@) == insert_key(before.take(at as int), key@) + before.skip(
                at as int,
            ),
        ensures
            at > 0 ==> before[at - 1] != key@ && lex_lt(before[at - 1], key@),
        decreases at,
    {
        let ghost head = before.take(at as int);
        proof {
            assert(head.last() == keys@[at - 1]@);
            assert(head.drop_last() =~= before.take(at - 1));
        }
        if same_chars(keys[at - 1].as_slice(), key.as_slice()) {
            proof {
                assert(head + before.skip(at as int) =~= before);
            }
            return ;
        }
        if lex_less(keys[at - 1].as_slice(), key.as_slice()) {
            break ;
        }
        proof {
            assert(insert_key(head, key@) == insert_key(before.take(at - 1), key@).push(
                head.last(),
            ));
            assert(insert_key(before.take(at - 1), key@).push(head.last()) + before.skip(at as int)
                =~= insert_key(before.take(at - 1), key@) + before.skip(at - 1));
        }
        at -= 1;
    }
    proof {
        let head = before.take(at as int);
        if at > 0 {
            assert(head.last() == before[at - 1]);
            assert(insert_key(head, key@) == head.push(key@));
        } else {
            assert(insert_key(head, key@) =~= head.push(key@));
        }
        assert(rows(keys@.insert(at as int, key)) =~= head.push(key@) + before.skip(at as int));
    }
    keys.insert(at, key);
}

/// Groups `extensions` by category. The groups are in ascending order of
/// the category id; the members of a group are in the order of the input.
pub fn group_by_category<'a>(extensions: &'a [ExtensionInfo]) -> (out: Vec<
    (String, Vec<&'a ExtensionInfo>),
>)
    ensures
        groups(out@) == grouped(infos(extensions@)),
{
    let ghost items = infos(extensions@);
    let mut categories: Vec<Vec<char>> = Vec::new();
    let mut keys: Vec<Vec<char>> = Vec::new();
    let mut i: usize = 0;
    proof {
        assert(rows(keys@) =~= category_keys(items.take(0)));
    }
    while i < extensions.len()
        invariant
            i <= extensions.len(),
            items == infos(extensions@),
            categories@.len() == i,
            forall|j: int| 0 <= j < i ==> categories@[j]@ == items[j].category,
            rows(keys@) == category_keys(items.take(i as int)),
        decreases extensions.len() - i,
    {
        proof {
            let next = items.take(i + 1);
            assert(next.drop_last() =~= items.take(i as int));
            assert(next.last() == items[i as int]);
        }
        let category = to_chars(extensions[i].category.as_str());
        insert_sorted(&mut keys, to_chars(extensions[i].category.as_str()));
        categories.push(category);
        i += 1;
    }
    proof {
        assert(items.take(items.len() as int) =~= items);
    }
    let mut out: Vec<(String, Vec<&'a ExtensionInfo>)> = Vec::new();
    let mut g: usize = 0;
    while g < keys.len()
        invariant
            g <= keys.len(),
            items == infos(extensions@),
            categories@.len() == extensions@.len(),
            forall|j: int| 0 <= j < categories@.len() ==> categories@[j]@ == items[j].category,
            rows(keys@) == category_keys(items),
            out@.len() == g,
            forall|h: int|
                0 <= h < g ==> groups(out@)[h] == (rows(keys@)[h], members(items, rows(keys@)[h])),
        decreases keys.len() - g,
    {
        let key = keys[g].as_slice();
        let mut group: Vec<&'a ExtensionInfo> = Vec::new();
        let mut m: usize = 0;
        proof {
            assert(borrowed_infos(group@) =~= members(items.take(0), key@));
        }
        while m < extensions.len()
            invariant
                m <= extensions.len(),
                items == infos(extensions@),
                categories@.len() == extensions@.len(),
                forall|j: int| 0 <= j < categories@.len() ==> categories@[j]@ == items[j].category,
                borrowed_infos(group@) == members(items.take(m as int), key@),
            decreases extensions.len() - m,
        {
            proof {
                let next = items.take(m + 1);
                assert(next.drop_last() =~= items.take(m as int));
                assert(next.last() == items[m as int]);
            }
            if same_chars(categories[m].as_slice(), key) {
                let member = &extensions[m];
                assert(borrowed_infos(group@.push(member)) =~= borrowed_infos(group@).push(
                    items[m as int],
                ));
                group.push(member);
            }
            m += 1;
        }
        proof {
            assert(items.take(items.len() as int) =~= items);
        }
        let ghost earlier = groups(out@);
        out.push((from_chars(key), group));
        proof {
            assert forall|h: int| 0 <= h < g + 1 implies groups(out@)[h] == (
                rows(keys@)[h],
                members(items, rows(keys@)[h]),
            ) by {
                if h < g {
                    assert(groups(out@)[h] == earlier[h]);
                }
            }
        }
        g += 1;
    }
    proof {
        assert(groups(out@) =~= grouped(items));
    }
    out
}

} // verus!
