//! Hardware facts from the text that the kernel exposes.
//!
//! Every function takes the content of the pseudo-file it reads from, or
//! `None` where the file could not be read, and computes what there is to
//! report. Reading the files is the caller's part.

use crate::model::vector_detail;
use crate::parsing::parse_vector_from_isa;
use crate::text::{
    copy_range, decimal, find_char, from_chars, join, join_with, lemma_split_first, lines,
    lowercase_of, piece_after, push_all, rows, same_chars, second_piece, split, split_lines,
    starts_with, strip_char, to_chars, to_decimal, trim_char, trim_text, trimmed,
};
use crate::types::HardwareIds;
use vstd::prelude::*;

verus! {

/// The trimmed value of a `key : value` line: what stands between the
/// first and the second colon. `None` for a line that does not begin with
/// `key` or holds no colon.
pub open spec fn field_of(line: Seq<char>, key: Seq<char>) -> Option<Seq<char>> {
    if key.is_prefix_of(line) {
        match second_piece(line, ':') {
            Some(value) => Some(trimmed(value)),
            None => None,
        }
    } else {
        None
    }
}

/// The field of the first line at or after `from` that has one.
pub open spec fn first_field(text_lines: Seq<Seq<char>>, key: Seq<char>, from: int) -> Option<
    Seq<char>,
>
    decreases text_lines.len() - from,
{
    if from < 0 || from >= text_lines.len() {
        None
    } else {
        match field_of(text_lines[from], key) {
            Some(value) => Some(value),
            None => first_field(text_lines, key, from + 1),
        }
    }
}

/// The raw ISA string of a `cpuinfo` text: the value of its first `isa`
/// line, or `unknown` where there is no text or no such line.
pub open spec fn isa_string(cpuinfo: Option<Seq<char>>) -> Seq<char> {
    match cpuinfo {
        Some(text) => match first_field(lines(text), "isa"@, 0) {
            Some(value) => value,
            None => "unknown"@,
        },
        None => "unknown"@,
    }
}

/// Whether a CSR value counts: it is there and is not zero.
pub open spec fn id_counts(value: Seq<char>) -> bool {
    value.len() > 0 && value != "0x0"@
}

/// The value of the last line that gives `key` a value that counts; empty
/// where no line does.
pub open spec fn last_id(text_lines: Seq<Seq<char>>, key: Seq<char>) -> Seq<char>
    decreases text_lines.len(),
{
    if text_lines.len() == 0 {
        Seq::empty()
    } else {
        match field_of(text_lines.last(), key) {
            Some(value) => if id_counts(value) {
                value
            } else {
                last_id(text_lines.drop_last(), key)
            },
            None => last_id(text_lines.drop_last(), key),
        }
    }
}

/// Whether `ids` are the hardware ids of a `cpuinfo` text: for each of
/// `mvendorid`, `marchid` and `mimpid` the value of the last line that
/// gives it one that counts; all empty without a text.
pub open spec fn ids_match(cpuinfo: Option<Seq<char>>, ids: HardwareIds) -> bool {
    match cpuinfo {
        Some(text) => {
            &&& ids.mvendorid@ == last_id(lines(text), "mvendorid"@)
            &&& ids.marchid@ == last_id(lines(text), "marchid"@)
            &&& ids.mimpid@ == last_id(lines(text), "mimpid"@)
        },
        None => ids.mvendorid@.len() == 0 && ids.marchid@.len() == 0 && ids.mimpid@.len() == 0,
    }
}

/// The number of lines that begin with `key`.
pub open spec fn count_lines(text_lines: Seq<Seq<char>>, key: Seq<char>) -> nat
    decreases text_lines.len(),
{
    if text_lines.len() == 0 {
        0
    } else {
        count_lines(text_lines.drop_last(), key) + if key.is_prefix_of(text_lines.last()) {
            1nat
        } else {
            0nat
        }
    }
}

/// The number of harts: the `processor` lines of `cpuinfo` where there are
/// any, else the count that the caller measured.
pub open spec fn hart_count(cpuinfo: Option<Seq<char>>, measured: nat) -> nat {
    match cpuinfo {
        Some(text) => if count_lines(lines(text), "processor"@) > 0 {
            count_lines(lines(text), "processor"@)
        } else {
            measured
        },
        None => measured,
    }
}

/// A hart count in words: `1 hart`, `4 harts`, `0 hart`.
pub open spec fn hart_phrase(count: nat) -> Seq<char> {
    decimal(count) + " hart"@ + if count > 1 {
        "s"@
    } else {
        Seq::empty()
    }
}

/// One cache level of the summary: the label and the trimmed size, where
/// the size could be read and is not blank.
pub open spec fn cache_part(label: Seq<char>, size: Option<Seq<char>>) -> Option<Seq<char>> {
    match size {
        Some(text) => if trimmed(text).len() > 0 {
            Some(label + trimmed(text))
        } else {
            None
        },
        None => None,
    }
}

/// `list` with `part` added where there is one.
pub open spec fn with_part(list: Seq<Seq<char>>, part: Option<Seq<char>>) -> Seq<Seq<char>> {
    match part {
        Some(text) => list.push(text),
        None => list,
    }
}

/// The parts of the cache summary, from the first level up.
pub open spec fn cache_parts(
    l1d: Option<Seq<char>>,
    l1i: Option<Seq<char>>,
    l2: Option<Seq<char>>,
    l3: Option<Seq<char>>,
) -> Seq<Seq<char>> {
    with_part(
        with_part(
            with_part(with_part(Seq::empty(), cache_part("L1D:"@, l1d)), cache_part("L1I:"@, l1i)),
            cache_part("L2:"@, l2),
        ),
        cache_part("L3:"@, l3),
    )
}

/// The board of a device tree: the model without NUL bytes around it and
/// trimmed, where that leaves something; else the first entry of the
/// NUL-separated compatible list, where that is not empty; else nothing.
pub open spec fn board(model: Option<Seq<char>>, compatible: Option<Seq<char>>) -> Seq<char> {
    let named = match model {
        Some(text) => trimmed(trim_char(text, '\0')),
        None => Seq::empty(),
    };
    if named.len() > 0 {
        named
    } else {
        match compatible {
            Some(text) => split(text, '\0')[0],
            None => Seq::empty(),
        }
    }
}

/// The vector detail of an ISA string, with the measured register width
/// behind it where there is a detail and a width could be read.
pub open spec fn vector_line(detail: Option<Seq<char>>, vlen: Option<Seq<char>>) -> Seq<char> {
    match detail {
        Some(text) => if text.len() > 0 {
            match vlen {
                Some(width) => text + ", VLEN="@ + trimmed(width),
                None => text,
            }
        } else {
            text
        },
        None => Seq::empty(),
    }
}

/// The view of an optional text.
pub open spec fn opt_view(text: Option<&str>) -> Option<Seq<char>> {
    match text {
        Some(held) => Some(held@),
        None => None,
    }
}

/// The trimmed value of a `key : value` line.
pub fn line_field(line: &[char], key: &[char]) -> (field: Option<Vec<char>>)
    ensures
        match field {
            Some(value) => field_of(line@, key@) == Some(value@),
            None => field_of(line@, key@) is None,
        },
{
    if !starts_with(line, key) {
        return None;
    }
    match piece_after(line, ':') {
        Some(value) => Some(trim_text(value.as_slice())),
        None => None,
    }
}

/// The raw ISA string of a `cpuinfo` text, such as `rv64imafdcv_zicsr`:
/// the value of its first `isa` line, or `unknown`.
pub fn get_isa_string(cpuinfo: Option<&str>) -> (isa: String)
    ensures
        isa@ == isa_string(opt_view(cpuinfo)),
{
    match cpuinfo {
        Some(content) => {
            let chars = to_chars(content);
            let text_lines = split_lines(chars.as_slice());
            let key = to_chars("isa");
            let mut i: usize = 0;
            while i < text_lines.len()
                invariant
                    i <= text_lines.len(),
                    key@ == "isa"@,
                    cpuinfo == Some(content),
                    rows(text_lines@) == lines(content@),
                    first_field(rows(text_lines@), key@, 0) == first_field(
                        rows(text_lines@),
                        key@,
                        i as int,
                    ),
                decreases text_lines.len() - i,
            {
                match line_field(text_lines[i].as_slice(), key.as_slice()) {
                    Some(value) => {
                        return from_chars(value.as_slice());
                    },
                    None => {},
                }
                i += 1;
            }
            "unknown".to_owned()
        },
        None => "unknown".to_owned(),
    }
}

/// The value of the last line that gives `key` a value that counts.
pub fn find_id(text_lines: &Vec<Vec<char>>, key: &str) -> (id: String)
    ensures
        id@ == last_id(rows(text_lines@), key@),
{
    let key_chars = to_chars(key);
    let zero = to_chars("0x0");
    let mut at: usize = text_lines.len();
    proof {
        assert(rows(text_lines@).take(at as int) =~= rows(text_lines@));
    }
    while at > 0
        invariant
            at <= text_lines.len(),
            key_chars@ == key@,
            zero@ == "0x0"@,
            last_id(rows(text_lines@), key@) == last_id(rows(text_lines@).take(at as int), key@),
        decreases at,
    {
        proof {
            let head = rows(text_lines@).take(at as int);
            assert(head.last() == text_lines@[at - 1]@);
            assert(head.drop_last() =~= rows(text_lines@).take(at - 1));
        }
        match line_field(text_lines[at - 1].as_slice(), key_chars.as_slice()) {
            Some(value) => {
                if value.len() > 0 && !same_chars(value.as_slice(), zero.as_slice()) {
                    return from_chars(value.as_slice());
                }
            },
            None => {},
        }
        at -= 1;
    }
    String::new()
}

/// The hardware ids of a `cpuinfo` text: for each of `mvendorid`,
/// `marchid` and `mimpid` the value of the last line that gives it one
/// other than `0x0`; empty where there is none.
pub fn get_hardware_ids(cpuinfo: Option<&str>) -> (ids: HardwareIds)
    ensures
        ids_match(opt_view(cpuinfo), ids),
{
    match cpuinfo {
        Some(content) => {
            let chars = to_chars(content);
            let text_lines = split_lines(chars.as_slice());
            HardwareIds {
                mvendorid: find_id(&text_lines, "mvendorid"),
                marchid: find_id(&text_lines, "marchid"),
                mimpid: find_id(&text_lines, "mimpid"),
            }
        },
        None => HardwareIds::default(),
    }
}

/// The number of harts: the `processor` lines of `cpuinfo` where there are
/// any, else `measured`.
pub fn get_hart_count_num(cpuinfo: Option<&str>, measured: usize) -> (count: usize)
    ensures
        count == hart_count(opt_view(cpuinfo), measured as nat),
{
    match cpuinfo {
        Some(content) => {
            let chars = to_chars(content);
            let text_lines = split_lines(chars.as_slice());
            let key = to_chars("processor");
            let mut count: usize = 0;
            let mut i: usize = 0;
            while i < text_lines.len()
                invariant
                    i <= text_lines.len(),
                    key@ == "processor"@,
                    count <= i,
                    count == count_lines(rows(text_lines@).take(i as int), key@),
                decreases text_lines.len() - i,
            {
                proof {
                    let next = rows(text_lines@).take(i + 1);
                    assert(next.drop_last() =~= rows(text_lines@).take(i as int));
                    assert(next.last() == text_lines@[i as int]@);
                }
                if starts_with(text_lines[i].as_slice(), key.as_slice()) {
                    count += 1;
                }
                i += 1;
            }
            proof {
                assert(rows(text_lines@).take(text_lines@.len() as int) =~= rows(text_lines@));
            }
            if count > 0 {
                count
            } else {
                measured
            }
        },
        None => measured,
    }
}

/// The number of harts in words, such as `4 harts`.
pub fn get_hart_count(cpuinfo: Option<&str>, measured: usize) -> (phrase: String)
    ensures
        phrase@ == hart_phrase(hart_count(opt_view(cpuinfo), measured as nat)),
{
    let count = get_hart_count_num(cpuinfo, measured);
    let mut out = to_decimal(count as u64);
    push_all(&mut out, to_chars(" hart").as_slice());
    if count > 1 {
        push_all(&mut out, to_chars("s").as_slice());
    }
    proof {
        assert(out@ =~= hart_phrase(count as nat));
    }
    from_chars(out.as_slice())
}

/// Adds one cache level to the summary where its size could be read and
/// is not blank.
pub fn push_cache_part(parts: &mut Vec<Vec<char>>, label: &str, size: Option<&str>)
    ensures
        rows(final(parts)@) == with_part(rows(old(parts)@), cache_part(label@, opt_view(size))),
{
    match size {
        Some(content) => {
            let chars = to_chars(content);
            let value = trim_text(chars.as_slice());
            if value.len() > 0 {
                let mut part = to_chars(label);
                push_all(&mut part, value.as_slice());
                assert(rows(parts@.push(part)) =~= rows(parts@).push(part@));
                parts.push(part);
            }
        },
        None => {},
    }
}

/// The cache summary, such as `L1D:32K L1I:32K L2:2048K`: one part for
/// each level whose size file could be read and is not blank.
pub fn get_cache_info(
    l1d: Option<&str>,
    l1i: Option<&str>,
    l2: Option<&str>,
    l3: Option<&str>,
) -> (summary: String)
    ensures
        summary@ == join(
            cache_parts(opt_view(l1d), opt_view(l1i), opt_view(l2), opt_view(l3)),
            seq![' '],
        ),
{
    let mut parts: Vec<Vec<char>> = Vec::new();
    assert(rows(parts@) =~= Seq::<Seq<char>>::empty());
    push_cache_part(&mut parts, "L1D:", l1d);
    push_cache_part(&mut parts, "L1I:", l1i);
    push_cache_part(&mut parts, "L2:", l2);
    push_cache_part(&mut parts, "L3:", l3);
    let space = [' '];
    assert(space@ =~= seq![' ']);
    let joined = join_with(&parts, space.as_slice());
    from_chars(joined.as_slice())
}

/// The board or model from the device tree: the model where it names one,
/// else the first entry of the compatible list, else nothing.
pub fn get_board_info(model: Option<&str>, compatible: Option<&str>) -> (name: String)
    ensures
        name@ == board(opt_view(model), opt_view(compatible)),
{
    match model {
        Some(content) => {
            let chars = to_chars(content);
            let bare = strip_char(chars.as_slice(), '\0');
            let named = trim_text(bare.as_slice());
            if named.len() > 0 {
                return from_chars(named.as_slice());
            }
        },
        None => {},
    }
    match compatible {
        Some(content) => {
            let chars = to_chars(content);
            let end = find_char(chars.as_slice(), '\0');
            proof {
                lemma_split_first(content@, '\0');
            }
            let first = copy_range(chars.as_slice(), 0, end);
            assert(first@ =~= content@.take(end as int));
            from_chars(first.as_slice())
        },
        None => String::new(),
    }
}

/// A vector detail with the measured register width behind it, where there
/// is a detail and the width could be read.
pub fn vector_with_width(detail: Option<String>, vlen: Option<&str>) -> (line: String)
    ensures
        line@ == vector_line(
            match detail {
                Some(text) => Some(text@),
                None => None,
            },
            opt_view(vlen),
        ),
{
    match detail {
        Some(text) => {
            let mut result = text;
            if !result.as_str().is_empty() {
                match vlen {
                    Some(width) => {
                        let ghost before = result@;
                        let measured = trim_text(to_chars(width).as_slice());
                        result.append(", VLEN=");
                        result.append(from_chars(measured.as_slice()).as_str());
                        assert(result@ =~= before + ", VLEN="@ + trimmed(width@));
                    },
                    None => {},
                }
            }
            result
        },
        None => String::new(),
    }
}

/// The vector detail of the host: that of its ISA string, with the
/// register width that the kernel reports behind it.
pub fn get_vector_detail(cpuinfo: Option<&str>, vlen: Option<&str>) -> (line: String)
    ensures
        line@ == vector_line(
            vector_detail(lowercase_of(isa_string(opt_view(cpuinfo)))),
            opt_view(vlen),
        ),
{
    let isa = get_isa_string(cpuinfo);
    vector_with_width(parse_vector_from_isa(isa.as_str()), vlen)
}

} // verus!
