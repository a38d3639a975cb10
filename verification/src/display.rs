//! The detected-only view as the lines of a report.
//!
//! A line is a label and a body, both plain text: `Z-Bit Manipulation:` and
//! `Zba Zbb`. Colour and output are the caller's part.

use crate::extensions::{S_CATEGORY_NAMES, Z_CATEGORY_NAMES};
use crate::grouping::{borrowed_infos, group_by_category, grouped, groups};
use crate::model::{category_label, ExtensionInfoView};
use crate::parsing::{category_name, infos, ExtensionInfo};
use crate::text::{from_chars, join, join_with, push_all, rows, to_chars};
use crate::types::HardwareIds;
use vstd::prelude::*;

verus! {

/// The names of the items, in order.
pub open spec fn names(items: Seq<ExtensionInfoView>) -> Seq<Seq<char>> {
    Seq::new(items.len(), |i: int| items[i].name)
}

/// The line of one group: the prefix of the namespace, the label of the
/// category and a colon; then the names of the members with single spaces
/// between them.
pub open spec fn group_line(
    prefix: Seq<char>,
    table: Seq<(&'static str, &'static str)>,
    group: (Seq<char>, Seq<ExtensionInfoView>),
) -> (Seq<char>, Seq<char>) {
    (prefix + category_label(group.0, table) + seq![':'], join(names(group.1), seq![' ']))
}

/// The lines of the groups of `items`, in ascending order of category id.
pub open spec fn group_lines(
    prefix: Seq<char>,
    table: Seq<(&'static str, &'static str)>,
    items: Seq<ExtensionInfoView>,
) -> Seq<(Seq<char>, Seq<char>)> {
    Seq::new(grouped(items).len(), |g: int| group_line(prefix, table, grouped(items)[g]))
}

/// The line of the base extensions, where there are any.
pub open spec fn base_lines(compact: Seq<char>) -> Seq<(Seq<char>, Seq<char>)> {
    if compact.len() > 0 {
        seq![("Ext:"@, compact)]
    } else {
        Seq::empty()
    }
}

/// The detected-only view: the base extensions, then the unprivileged
/// extensions group by group, then the privileged ones.
pub open spec fn compact_view(
    compact: Seq<char>,
    z: Seq<ExtensionInfoView>,
    s: Seq<ExtensionInfoView>,
) -> Seq<(Seq<char>, Seq<char>)> {
    base_lines(compact) + group_lines("Z-"@, Z_CATEGORY_NAMES@, z) + group_lines(
        "S-"@,
        S_CATEGORY_NAMES@,
        s,
    )
}

/// The views of a list of lines.
pub open spec fn line_views(list: Seq<(String, String)>) -> Seq<(Seq<char>, Seq<char>)> {
    Seq::new(list.len(), |i: int| (list[i].0@, list[i].1@))
}

/// One part of the hardware-id line, where the id is there.
pub open spec fn id_part(label: Seq<char>, id: Seq<char>) -> Seq<Seq<char>> {
    if id.len() > 0 {
        seq![label + id]
    } else {
        Seq::empty()
    }
}

/// The hardware-id line: `vendor:`, `arch:` and `impl:` with the ids that
/// are there, single spaces between them; nothing where all are missing.
pub open spec fn ids_line(mvendorid: Seq<char>, marchid: Seq<char>, mimpid: Seq<char>) -> Option<
    Seq<char>,
> {
    let parts = id_part("vendor:"@, mvendorid) + id_part("arch:"@, marchid) + id_part(
        "impl:"@,
        mimpid,
    );
    if parts.len() > 0 {
        Some(join(parts, seq![' ']))
    } else {
        None
    }
}

/// The mark before a name in the all-known view.
pub open spec fn mark_of(supported: bool) -> char {
    if supported {
        '\u{2713}'
    } else {
        '\u{2717}'
    }
}

/// The names of the members with single spaces between them.
pub fn member_names(members: &Vec<&ExtensionInfo>) -> (line: String)
    ensures
        line@ == join(names(borrowed_infos(members@)), seq![' ']),
{
    let mut parts: Vec<Vec<char>> = Vec::new();
    let mut i: usize = 0;
    while i < members.len()
        invariant
            i <= members.len(),
            parts@.len() == i,
            forall|j: int| 0 <= j < i ==> parts@[j]@ == (*members@[j])@.name,
        decreases members.len() - i,
    {
        parts.push(to_chars(members[i].name.as_str()));
        i += 1;
    }
    assert(rows(parts@) =~= names(borrowed_infos(members@)));
    let space = [' '];
    assert(space@ =~= seq![' ']);
    let joined = join_with(&parts, space.as_slice());
    from_chars(joined.as_slice())
}

/// Appends the lines of the groups of `extensions` to `lines`.
pub fn push_group_lines(
    lines: &mut Vec<(String, String)>,
    prefix: &str,
    table: &[(&'static str, &'static str)],
    extensions: &[ExtensionInfo],
)
    ensures
        line_views(final(lines)@) == line_views(old(lines)@) + group_lines(
            prefix@,
            table@,
            infos(extensions@),
        ),
{
    let ghost before = line_views(lines@);
    let ghost wanted = group_lines(prefix@, table@, infos(extensions@));
    let found = group_by_category(extensions);
    let mut g: usize = 0;
    assert(line_views(lines@) =~= before + wanted.take(0));
    while g < found.len()
        invariant
            g <= found.len(),
            groups(found@) == grouped(infos(extensions@)),
            wanted == group_lines(prefix@, table@, infos(extensions@)),
            line_views(lines@) == before + wanted.take(g as int),
        decreases found.len() - g,
    {
        let mut label = prefix.to_owned();
        label.append(category_name(found[g].0.as_str(), table));
        label.append(":");
        let body = member_names(&found[g].1);
        proof {
            let group = groups(found@)[g as int];
            assert(group == grouped(infos(extensions@))[g as int]);
            assert(label@ =~= prefix@ + category_label(group.0, table@) + seq![':']) by {
                reveal_strlit(":");
                assert(":"@ =~= seq![':']);
            }
            assert(wanted[g as int] == (label@, body@));
            assert(line_views(lines@.push((label, body))) =~= line_views(lines@).push(
                (label@, body@),
            ));
            assert(before + wanted.take(g + 1) =~= (before + wanted.take(g as int)).push(
                wanted[g as int],
            ));
        }
        lines.push((label, body));
        g += 1;
    }
    proof {
        assert(wanted.take(wanted.len() as int) =~= wanted);
    }
}

/// The detected-only view as lines of label and body: the base extensions
/// under `Ext:` where there are any, then one line for each category of
/// unprivileged extensions and one for each category of privileged ones,
/// the categories of a namespace in ascending order of their ids.
pub fn display_extensions_compact(
    std_exts: &str,
    z_exts: &[ExtensionInfo],
    s_exts: &[ExtensionInfo],
) -> (lines: Vec<(String, String)>)
    ensures
        line_views(lines@) == compact_view(std_exts@, infos(z_exts@), infos(s_exts@)),
{
    let mut lines: Vec<(String, String)> = Vec::new();
    if !std_exts.is_empty() {
        lines.push(("Ext:".to_owned(), std_exts.to_owned()));
    }
    assert(line_views(lines@) =~= base_lines(std_exts@));
    let z_table = Z_CATEGORY_NAMES;
    let s_table = S_CATEGORY_NAMES;
    push_group_lines(&mut lines, "Z-", z_table.as_slice(), z_exts);
    push_group_lines(&mut lines, "S-", s_table.as_slice(), s_exts);
    lines
}

/// The mark before a name in the all-known view: a check where the
/// extension is supported, a cross where it is not.
pub fn check_mark(supported: bool) -> (mark: char)
    ensures
        mark == mark_of(supported),
{
    if supported {
        '\u{2713}'
    } else {
        '\u{2717}'
    }
}

/// A name with its mark before it, as the all-known view shows it.
pub fn format_ext_with_check(name: &str, supported: bool) -> (out: String)
    ensures
        out@ == seq![mark_of(supported)] + name@,
{
    let mut out: Vec<char> = Vec::new();
    out.push(check_mark(supported));
    push_all(&mut out, to_chars(name).as_slice());
    from_chars(out.as_slice())
}

/// The hardware-id line of the report, such as `vendor:0x489 arch:0x7`;
/// `None` where the host shows no id.
pub fn hardware_ids_line(ids: &HardwareIds) -> (line: Option<String>)
    ensures
        match line {
            Some(text) => ids_line(ids.mvendorid@, ids.marchid@, ids.mimpid@) == Some(text@),
            None => ids_line(ids.mvendorid@, ids.marchid@, ids.mimpid@) is None,
        },
{
    let mut parts: Vec<Vec<char>> = Vec::new();
    assert(rows(parts@) =~= Seq::<Seq<char>>::empty());
    if !ids.mvendorid.as_str().is_empty() {
        let mut part = to_chars("vendor:");
        push_all(&mut part, to_chars(ids.mvendorid.as_str()).as_slice());
        assert(rows(parts@.push(part)) =~= rows(parts@).push(part@));
        parts.push(part);
    }
    assert(rows(parts@) =~= id_part("vendor:"@, ids.mvendorid@));
    if !ids.marchid.as_str().is_empty() {
        let mut part = to_chars("arch:");
        push_all(&mut part, to_chars(ids.marchid.as_str()).as_slice());
        assert(rows(parts@.push(part)) =~= rows(parts@).push(part@));
        parts.push(part);
    }
    assert(rows(parts@) =~= id_part("vendor:"@, ids.mvendorid@) + id_part(
        "arch:"@,
        ids.marchid@,
    ));
    if !ids.mimpid.as_str().is_empty() {
        let mut part = to_chars("impl:");
        push_all(&mut part, to_chars(ids.mimpid.as_str()).as_slice());
        assert(rows(parts@.push(part)) =~= rows(parts@).push(part@));
        parts.push(part);
    }
    assert(rows(parts@) =~= id_part("vendor:"@, ids.mvendorid@) + id_part(
        "arch:"@,
        ids.marchid@,
    ) + id_part("impl:"@, ids.mimpid@));
    if parts.len() == 0 {
        return None;
    }
    let space = [' '];
    assert(space@ =~= seq![' ']);
    let joined = join_with(&parts, space.as_slice());
    Some(from_chars(joined.as_slice()))
}

} // verus!
