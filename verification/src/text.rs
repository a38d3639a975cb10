//! Character-sequence primitives shared by the parsers.
//!
//! Text is modelled as `Seq<char>`; executable code works on `Vec<char>` and
//! `&[char]`, converting from and to `&str` / `String` at the edges.

use vstd::prelude::*;
use vstd::std_specs::iter::IteratorSpec;

verus! {

/// `pat` occurs in `text` starting at position `k`.
pub open spec fn occurs_at(text: Seq<char>, pat: Seq<char>, k: int) -> bool {
    &&& 0 <= k
    &&& k + pat.len() <= text.len()
    &&& text.subrange(k, k + pat.len()) == pat
}

/// `pat` is a contiguous substring of `text`. The empty pattern occurs in
/// every text.
pub open spec fn occurs(text: Seq<char>, pat: Seq<char>) -> bool {
    exists|k: int| occurs_at(text, pat, k)
}

/// Position of the first `c` in `s`, or `s.len()` when `s` holds no `c`.
pub open spec fn find(s: Seq<char>, c: char) -> int
    decreases s.len(),
{
    if s.len() == 0 || s[0] == c {
        0
    } else {
        1 + find(s.drop_first(), c)
    }
}

/// The pieces of `s` between occurrences of `sep`. There is always at least
/// one piece; pieces may be empty.
pub open spec fn split(s: Seq<char>, sep: char) -> Seq<Seq<char>>
    decreases s.len(),
{
    let p = find(s, sep);
    if 0 <= p < s.len() {
        seq![s.take(p)] + split(s.skip(p + 1), sep)
    } else {
        seq![s]
    }
}

/// The pieces joined in order with `sep` between neighbours.
pub open spec fn join(parts: Seq<Seq<char>>, sep: Seq<char>) -> Seq<char>
    decreases parts.len(),
{
    if parts.len() == 0 {
        Seq::empty()
    } else if parts.len() == 1 {
        parts[0]
    } else {
        join(parts.drop_last(), sep) + sep + parts.last()
    }
}

/// The character content of each row.
pub open spec fn rows(parts: Seq<Vec<char>>) -> Seq<Seq<char>> {
    Seq::new(parts.len(), |i: int| parts[i]@)
}

/// The character content of each string.
pub open spec fn texts(parts: Seq<String>) -> Seq<Seq<char>> {
    Seq::new(parts.len(), |i: int| parts[i]@)
}

/// `find` returns `p` exactly when `p` is the first position holding `c`,
/// or the length when there is none.
pub proof fn lemma_find(s: Seq<char>, c: char, p: int)
    requires
        0 <= p <= s.len(),
        forall|j: int| 0 <= j < p ==> s[j] != c,
        p < s.len() ==> s[p] == c,
    ensures
        find(s, c) == p,
    decreases p,
{
    if p > 0 {
        let t = s.drop_first();
        assert forall|j: int| 0 <= j < p - 1 implies t[j] != c by {
            assert(t[j] == s[j + 1]);
        }
        lemma_find(t, c, p - 1);
    }
}

/// `find` stays within the sequence and names a first occurrence.
pub proof fn lemma_find_range(s: Seq<char>, c: char)
    ensures
        0 <= find(s, c) <= s.len(),
        forall|j: int| 0 <= j < find(s, c) ==> s[j] != c,
        find(s, c) < s.len() ==> s[find(s, c)] == c,
        find(s, c) == s.len() <==> !s.contains(c),
    decreases s.len(),
{
    if s.len() == 0 || s[0] == c {
    } else {
        let t = s.drop_first();
        lemma_find_range(t, c);
        assert forall|j: int| 0 <= j < find(s, c) implies s[j] != c by {
            if j > 0 {
                assert(s[j] == t[j - 1]);
            }
        }
        if find(s, c) < s.len() {
            assert(s[find(s, c)] == t[find(t, c)]);
        }
    }
    if find(s, c) == s.len() {
        assert forall|j: int| 0 <= j < s.len() implies s[j] != c by {}
    }
}

/// Appending one more piece to a non-empty list adds the separator and the
/// piece.
pub proof fn lemma_join_push(parts: Seq<Seq<char>>, sep: Seq<char>, last: Seq<char>)
    ensures
        join(parts.push(last), sep) == if parts.len() == 0 {
            last
        } else {
            join(parts, sep) + sep + last
        },
{
    let all = parts.push(last);
    assert(all.drop_last() =~= parts);
    assert(all.last() == last);
}

/// The lowercase form of a text, as `str::to_lowercase` computes it from the
/// Unicode lowercase mappings. It depends on the text alone: the mapping is
/// unconditional and knows no locale.
pub uninterp spec fn lowercase_of(s: Seq<char>) -> Seq<char>;

/// Specifies `str::to_lowercase`: the result is the lowercase form of the
/// text. Nothing more is claimed of that form.
pub assume_specification[ str::to_lowercase ](s: &str) -> (lower: String)
    ensures
        lower@ == lowercase_of(s@),
;

/// Appends `c` to `s`. Specifies `String::push`, which std documents as
/// appending the given character to the end of the string.
pub assume_specification[ String::push ](s: &mut String, c: char)
    ensures
        final(s)@ == old(s)@.push(c),
;

/// The characters of `s`, in order.
pub fn to_chars(s: &str) -> (v: Vec<char>)
    ensures
        v@ == s@,
{
    let mut v: Vec<char> = Vec::new();
    for c in it: s.chars()
        invariant
            v@ == it.seq().take(it.index() as int),
    {
        v.push(c);
    }
    v
}

/// The string made of the characters of `v`, in order.
pub fn from_chars(v: &[char]) -> (s: String)
    ensures
        s@ == v@,
{
    let mut s = String::new();
    let mut i: usize = 0;
    while i < v.len()
        invariant
            i <= v.len(),
            s@ == v@.take(i as int),
        decreases v.len() - i,
    {
        s.push(v[i]);
        i += 1;
    }
    s
}

/// Whether `text` holds the character `c`.
pub fn contains_char(text: &[char], c: char) -> (found: bool)
    ensures
        found == text@.contains(c),
{
    let mut i: usize = 0;
    while i < text.len()
        invariant
            i <= text.len(),
            forall|j: int| 0 <= j < i ==> text@[j] != c,
        decreases text.len() - i,
    {
        if text[i] == c {
            return true;
        }
        i += 1;
    }
    false
}

/// Whether `pat` occurs in `text` at position `k`.
pub fn matches_at(text: &[char], pat: &[char], k: usize) -> (hit: bool)
    requires
        k + pat@.len() <= text@.len(),
    ensures
        hit == occurs_at(text@, pat@, k as int),
{
    let size: usize = text.len();
    let mut j: usize = 0;
    while j < pat.len()
        invariant
            j <= pat.len(),
            k + pat@.len() <= text@.len() == size,
            forall|t: int| 0 <= t < j ==> text@[k + t] == pat@[t],
        decreases pat.len() - j,
    {
        if text[k + j] != pat[j] {
            assert(text@.subrange(k as int, k + pat@.len())[j as int] != pat@[j as int]);
            return false;
        }
        j += 1;
    }
    assert(text@.subrange(k as int, k + pat@.len()) =~= pat@);
    true
}

/// Whether `pat` is a substring of `text`.
pub fn contains_seq(text: &[char], pat: &[char]) -> (found: bool)
    ensures
        found == occurs(text@, pat@),
{
    if pat.len() > text.len() {
        return false;
    }
    let last: usize = text.len() - pat.len();
    let mut k: usize = 0;
    loop
        invariant
            k <= last,
            last == text@.len() - pat@.len(),
            forall|j: int| 0 <= j < k ==> !occurs_at(text@, pat@, j),
        decreases last - k,
    {
        if matches_at(text, pat, k) {
            return true;
        }
        if k == last {
            return false;
        }
        k += 1;
    }
}

/// Whether `text` begins with `pat`.
pub fn starts_with(text: &[char], pat: &[char]) -> (hit: bool)
    ensures
        hit == pat@.is_prefix_of(text@),
{
    if pat.len() > text.len() {
        return false;
    }
    let hit = matches_at(text, pat, 0);
    assert(text@.subrange(0, pat@.len() as int) == pat@ <==> pat@.is_prefix_of(text@)) by {
        if pat@.is_prefix_of(text@) {
            assert(text@.subrange(0, pat@.len() as int) =~= pat@);
        }
    }
    hit
}

/// Whether two texts hold the same characters.
pub fn same_chars(a: &[char], b: &[char]) -> (same: bool)
    ensures
        same == (a@ == b@),
{
    if a.len() != b.len() {
        return false;
    }
    let same = matches_at(a, b, 0);
    assert(a@.subrange(0, a@.len() as int) =~= a@);
    same
}

/// Position of the first `c` in `text`, or its length when there is none.
pub fn find_char(text: &[char], c: char) -> (p: usize)
    ensures
        p == find(text@, c),
        p <= text@.len(),
{
    let mut i: usize = 0;
    while i < text.len() && text[i] != c
        invariant
            i <= text.len(),
            forall|j: int| 0 <= j < i ==> text@[j] != c,
        decreases text.len() - i,
    {
        i += 1;
    }
    proof {
        lemma_find(text@, c, i as int);
    }
    i
}

/// A copy of `text[from..to]`.
pub fn copy_range(text: &[char], from: usize, to: usize) -> (piece: Vec<char>)
    requires
        from <= to <= text@.len(),
    ensures
        piece@ == text@.subrange(from as int, to as int),
{
    let mut piece: Vec<char> = Vec::new();
    let mut i: usize = from;
    while i < to
        invariant
            from <= i <= to,
            to <= text@.len(),
            piece@ == text@.subrange(from as int, i as int),
        decreases to - i,
    {
        piece.push(text[i]);
        i += 1;
    }
    piece
}

/// The pieces of `text` between occurrences of `sep`.
pub fn split_on(text: &[char], sep: char) -> (pieces: Vec<Vec<char>>)
    ensures
        rows(pieces@) == split(text@, sep),
{
    let mut pieces: Vec<Vec<char>> = Vec::new();
    let mut start: usize = 0;
    let mut i: usize = 0;
    proof {
        assert(text@.skip(0) =~= text@);
        assert(rows(pieces@) + split(text@, sep) =~= split(text@, sep));
    }
    while i < text.len()
        invariant
            start <= i <= text.len(),
            forall|j: int| start <= j < i ==> text@[j] != sep,
            split(text@, sep) == rows(pieces@) + split(text@.skip(start as int), sep),
        decreases text.len() - i,
    {
        if text[i] == sep {
            let piece = copy_range(text, start, i);
            proof {
                let rest = text@.skip(start as int);
                assert forall|j: int| 0 <= j < i - start implies rest[j] != sep by {
                    assert(rest[j] == text@[start + j]);
                }
                lemma_find(rest, sep, i - start);
                assert(rest.take(i - start) =~= text@.subrange(start as int, i as int));
                assert(rest.skip(i - start + 1) =~= text@.skip(i + 1));
                assert(rows(pieces@.push(piece)) =~= rows(pieces@) + seq![piece@]);
            }
            pieces.push(piece);
            start = i + 1;
        }
        i += 1;
    }
    let piece = copy_range(text, start, text.len());
    proof {
        let rest = text@.skip(start as int);
        assert forall|j: int| 0 <= j < rest.len() implies rest[j] != sep by {
            assert(rest[j] == text@[start + j]);
        }
        lemma_find(rest, sep, rest.len() as int);
        assert(rest =~= text@.subrange(start as int, text@.len() as int));
        assert(rows(pieces@.push(piece)) =~= rows(pieces@) + seq![piece@]);
    }
    pieces.push(piece);
    pieces
}

/// Appends the characters of `extra` to `out`.
pub fn push_all(out: &mut Vec<char>, extra: &[char])
    ensures
        final(out)@ == old(out)@ + extra@,
{
    let mut i: usize = 0;
    while i < extra.len()
        invariant
            i <= extra.len(),
            out@ == old(out)@ + extra@.take(i as int),
        decreases extra.len() - i,
    {
        out.push(extra[i]);
        proof {
            assert(extra@.take(i + 1) =~= extra@.take(i as int).push(extra@[i as int]));
        }
        i += 1;
    }
    proof {
        assert(extra@.take(extra@.len() as int) =~= extra@);
    }
}

/// The pieces joined in order with `sep` between neighbours.
pub fn join_with(parts: &Vec<Vec<char>>, sep: &[char]) -> (out: Vec<char>)
    ensures
        out@ == join(rows(parts@), sep@),
{
    let mut out: Vec<char> = Vec::new();
    let mut i: usize = 0;
    while i < parts.len()
        invariant
            i <= parts.len(),
            out@ == join(rows(parts@).take(i as int), sep@),
        decreases parts.len() - i,
    {
        proof {
            let done = rows(parts@).take(i as int);
            lemma_join_push(done, sep@, parts@[i as int]@);
            assert(rows(parts@).take(i + 1) =~= done.push(parts@[i as int]@));
        }
        if i > 0 {
            push_all(&mut out, sep);
        }
        push_all(&mut out, parts[i].as_slice());
        i += 1;
    }
    proof {
        assert(rows(parts@).take(parts@.len() as int) =~= rows(parts@));
    }
    out
}

/// `line` without one trailing carriage return.
pub open spec fn strip_cr(line: Seq<char>) -> Seq<char> {
    if line.len() > 0 && line.last() == '\r' {
        line.drop_last()
    } else {
        line
    }
}

/// The lines of `text`. A line ends at a line feed, and a carriage return
/// right before that line feed belongs to the line ending. What follows the
/// last line feed is a line of its own unless it is empty.
pub open spec fn lines(text: Seq<char>) -> Seq<Seq<char>> {
    let pieces = split(text, '\n');
    let ended = Seq::new((pieces.len() - 1) as nat, |i: int| strip_cr(pieces[i]));
    if pieces.last().len() == 0 {
        ended
    } else {
        ended.push(pieces.last())
    }
}

/// `s` without the characters `c` that lead and trail it.
pub open spec fn trim_char(s: Seq<char>, c: char) -> Seq<char>
    decreases s.len(),
{
    if s.len() > 0 && s[0] == c {
        trim_char(s.drop_first(), c)
    } else if s.len() > 0 && s.last() == c {
        trim_char(s.drop_last(), c)
    } else {
        s
    }
}

/// The number of bytes that `c` takes in UTF-8.
pub open spec fn utf8_width(c: char) -> nat {
    if (c as u32) < 0x80 {
        1
    } else if (c as u32) < 0x800 {
        2
    } else if (c as u32) < 0x10000 {
        3
    } else {
        4
    }
}

/// The number of bytes that `s` takes in UTF-8.
pub open spec fn byte_len(s: Seq<char>) -> nat
    decreases s.len(),
{
    if s.len() == 0 {
        0
    } else {
        byte_len(s.drop_last()) + utf8_width(s.last())
    }
}

/// Whether `c` is whitespace: one of the characters that Unicode marks
/// with the property White_Space.
pub open spec fn is_space(c: char) -> bool {
    let code = c as u32;
    ||| 0x09 <= code <= 0x0D
    ||| code == 0x20
    ||| code == 0x85
    ||| code == 0xA0
    ||| code == 0x1680
    ||| 0x2000 <= code <= 0x200A
    ||| code == 0x2028
    ||| code == 0x2029
    ||| code == 0x202F
    ||| code == 0x205F
    ||| code == 0x3000
}

/// The text without the whitespace that leads and trails it.
pub open spec fn trimmed(s: Seq<char>) -> Seq<char>
    decreases s.len(),
{
    if s.len() > 0 && is_space(s[0]) {
        trimmed(s.drop_first())
    } else if s.len() > 0 && is_space(s.last()) {
        trimmed(s.drop_last())
    } else {
        s
    }
}

/// Whether `c` is whitespace.
pub fn space(c: char) -> (yes: bool)
    ensures
        yes == is_space(c),
{
    let code: u32 = c as u32;
    (0x09 <= code && code <= 0x0D) || code == 0x20 || code == 0x85 || code == 0xA0 || code
        == 0x1680 || (0x2000 <= code && code <= 0x200A) || code == 0x2028 || code == 0x2029
        || code == 0x202F || code == 0x205F || code == 0x3000
}

/// The pieces of `split` are never none.
pub proof fn lemma_split_nonempty(s: Seq<char>, sep: char)
    ensures
        split(s, sep).len() >= 1,
    decreases s.len(),
{
    let p = find(s, sep);
    if 0 <= p < s.len() {
        lemma_split_nonempty(s.skip(p + 1), sep);
    }
}

/// The lines of `text`.
pub fn split_lines(text: &[char]) -> (out: Vec<Vec<char>>)
    ensures
        rows(out@) == lines(text@),
{
    let mut pieces = split_on(text, '\n');
    proof {
        lemma_split_nonempty(text@, '\n');
    }
    let ghost all = rows(pieces@);
    let last = pieces.pop().unwrap();
    assert(last@ == all.last());
    let mut out: Vec<Vec<char>> = Vec::new();
    let mut i: usize = 0;
    while i < pieces.len()
        invariant
            i <= pieces.len(),
            pieces@.len() == all.len() - 1,
            forall|j: int| 0 <= j < pieces@.len() ==> pieces@[j]@ == all[j],
            out@.len() == i,
            forall|j: int| 0 <= j < i ==> out@[j]@ == strip_cr(all[j]),
        decreases pieces.len() - i,
    {
        let piece = pieces[i].as_slice();
        let size = piece.len();
        let end: usize = if size > 0 && piece[size - 1] == '\r' {
            size - 1
        } else {
            size
        };
        let line = copy_range(piece, 0, end);
        assert(line@ =~= strip_cr(all[i as int]));
        out.push(line);
        i += 1;
    }
    if last.len() > 0 {
        out.push(last);
    }
    assert(rows(out@) =~= lines(text@));
    out
}

/// `text` without the characters `c` that lead and trail it.
pub fn strip_char(text: &[char], c: char) -> (out: Vec<char>)
    ensures
        out@ == trim_char(text@, c),
{
    let mut from: usize = 0;
    proof {
        assert(text@.subrange(0, text@.len() as int) =~= text@);
    }
    while from < text.len() && text[from] == c
        invariant
            from <= text.len(),
            trim_char(text@, c) == trim_char(text@.subrange(from as int, text@.len() as int), c),
        decreases text.len() - from,
    {
        proof {
            let rest = text@.subrange(from as int, text@.len() as int);
            assert(rest[0] == text@[from as int]);
            assert(rest.drop_first() =~= text@.subrange(from + 1, text@.len() as int));
        }
        from += 1;
    }
    let mut to: usize = text.len();
    while to > from && text[to - 1] == c
        invariant
            from <= to <= text.len(),
            from < text.len() ==> text@[from as int] != c,
            trim_char(text@, c) == trim_char(text@.subrange(from as int, to as int), c),
        decreases to - from,
    {
        proof {
            let rest = text@.subrange(from as int, to as int);
            assert(rest[0] == text@[from as int]);
            assert(rest.last() == text@[to - 1]);
            assert(rest.drop_last() =~= text@.subrange(from as int, to - 1));
        }
        to -= 1;
    }
    proof {
        let rest = text@.subrange(from as int, to as int);
        if rest.len() > 0 {
            assert(rest[0] == text@[from as int]);
            assert(rest.last() == text@[to - 1]);
        }
    }
    copy_range(text, from, to)
}

/// The number of bytes that `c` takes in UTF-8.
pub fn char_width(c: char) -> (width: usize)
    ensures
        width == utf8_width(c),
        1 <= width <= 4,
{
    let code: u32 = c as u32;
    if code < 0x80 {
        1
    } else if code < 0x800 {
        2
    } else if code < 0x10000 {
        3
    } else {
        4
    }
}

/// The number of bytes that `text` takes in UTF-8.
pub fn utf8_len(text: &[char]) -> (size: u128)
    ensures
        size == byte_len(text@),
        size <= 4 * text@.len(),
{
    let mut size: u128 = 0;
    let mut i: usize = 0;
    while i < text.len()
        invariant
            i <= text.len(),
            size == byte_len(text@.take(i as int)),
            size <= 4 * i,
        decreases text.len() - i,
    {
        proof {
            let next = text@.take(i + 1);
            assert(next.drop_last() =~= text@.take(i as int));
            assert(next.last() == text@[i as int]);
        }
        let width = char_width(text[i]);
        size += width as u128;
        i += 1;
    }
    proof {
        assert(text@.take(text@.len() as int) =~= text@);
    }
    size
}

/// The second piece of `split(s, sep)`: what stands between the first and
/// the second `sep`. There is none when `s` holds no `sep`.
pub open spec fn second_piece(s: Seq<char>, sep: char) -> Option<Seq<char>> {
    if split(s, sep).len() >= 2 {
        Some(split(s, sep)[1])
    } else {
        None
    }
}

/// The first piece of a split ends at the first separator.
pub proof fn lemma_split_first(s: Seq<char>, sep: char)
    ensures
        split(s, sep).len() >= 1,
        split(s, sep)[0] == s.take(find(s, sep)),
        split(s, sep).len() >= 2 <==> find(s, sep) < s.len(),
        find(s, sep) < s.len() ==> split(s, sep)[1] == split(s.skip(find(s, sep) + 1), sep)[0],
{
    lemma_find_range(s, sep);
    let p = find(s, sep);
    if p < s.len() {
        lemma_split_nonempty(s.skip(p + 1), sep);
    } else {
        assert(s.take(p) =~= s);
    }
}

/// What stands between the first and the second `sep` of `text`.
pub fn piece_after(text: &[char], sep: char) -> (piece: Option<Vec<char>>)
    ensures
        match piece {
            Some(found) => second_piece(text@, sep) == Some(found@),
            None => second_piece(text@, sep) is None,
        },
{
    let p = find_char(text, sep);
    proof {
        lemma_split_first(text@, sep);
    }
    if p >= text.len() {
        return None;
    }
    let rest = copy_range(text, p + 1, text.len());
    let q = find_char(rest.as_slice(), sep);
    proof {
        assert(rest@ =~= text@.skip(p + 1));
        lemma_split_first(rest@, sep);
        assert(rest@.take(q as int) =~= rest@.subrange(0, q as int));
    }
    Some(copy_range(rest.as_slice(), 0, q))
}

/// `text` without the whitespace that leads and trails it.
pub fn trim_text(text: &[char]) -> (out: Vec<char>)
    ensures
        out@ == trimmed(text@),
{
    let mut from: usize = 0;
    proof {
        assert(text@.subrange(0, text@.len() as int) =~= text@);
    }
    while from < text.len() && space(text[from])
        invariant
            from <= text.len(),
            trimmed(text@) == trimmed(text@.subrange(from as int, text@.len() as int)),
        decreases text.len() - from,
    {
        proof {
            let rest = text@.subrange(from as int, text@.len() as int);
            assert(rest[0] == text@[from as int]);
            assert(rest.drop_first() =~= text@.subrange(from + 1, text@.len() as int));
        }
        from += 1;
    }
    let mut to: usize = text.len();
    while to > from && space(text[to - 1])
        invariant
            from <= to <= text.len(),
            from < text.len() ==> !is_space(text@[from as int]),
            trimmed(text@) == trimmed(text@.subrange(from as int, to as int)),
        decreases to - from,
    {
        proof {
            let rest = text@.subrange(from as int, to as int);
            assert(rest[0] == text@[from as int]);
            assert(rest.last() == text@[to - 1]);
            assert(rest.drop_last() =~= text@.subrange(from as int, to - 1));
        }
        to -= 1;
    }
    proof {
        let rest = text@.subrange(from as int, to as int);
        if rest.len() > 0 {
            assert(rest[0] == text@[from as int]);
            assert(rest.last() == text@[to - 1]);
        }
    }
    copy_range(text, from, to)
}

/// The decimal digit `d` as a character.
pub open spec fn digit(d: int) -> char {
    if d == 0 {
        '0'
    } else if d == 1 {
        '1'
    } else if d == 2 {
        '2'
    } else if d == 3 {
        '3'
    } else if d == 4 {
        '4'
    } else if d == 5 {
        '5'
    } else if d == 6 {
        '6'
    } else if d == 7 {
        '7'
    } else if d == 8 {
        '8'
    } else {
        '9'
    }
}

/// `n` in decimal, without leading zeros.
pub open spec fn decimal(n: nat) -> Seq<char>
    decreases n,
{
    if n < 10 {
        seq![digit(n as int)]
    } else {
        decimal(n / 10).push(digit((n % 10) as int))
    }
}

/// The decimal digit `d` as a character.
pub fn digit_char(d: u64) -> (c: char)
    requires
        d < 10,
    ensures
        c == digit(d as int),
{
    if d == 0 {
        '0'
    } else if d == 1 {
        '1'
    } else if d == 2 {
        '2'
    } else if d == 3 {
        '3'
    } else if d == 4 {
        '4'
    } else if d == 5 {
        '5'
    } else if d == 6 {
        '6'
    } else if d == 7 {
        '7'
    } else if d == 8 {
        '8'
    } else {
        '9'
    }
}

/// `n` in decimal, without leading zeros.
pub fn to_decimal(n: u64) -> (out: Vec<char>)
    ensures
        out@ == decimal(n as nat),
    decreases n,
{
    if n < 10 {
        let mut out: Vec<char> = Vec::new();
        out.push(digit_char(n));
        out
    } else {
        let mut out = to_decimal(n / 10);
        out.push(digit_char(n % 10));
        out
    }
}

/// The characters of `s` up to its first whitespace.
pub open spec fn word_prefix(s: Seq<char>) -> Seq<char>
    decreases s.len(),
{
    if s.len() == 0 || is_space(s[0]) {
        Seq::empty()
    } else {
        seq![s[0]] + word_prefix(s.drop_first())
    }
}

/// The first word of `s`: its first run of characters other than
/// whitespace; empty where there is none.
pub open spec fn first_word(s: Seq<char>) -> Seq<char>
    decreases s.len(),
{
    if s.len() > 0 && is_space(s[0]) {
        first_word(s.drop_first())
    } else {
        word_prefix(s)
    }
}

/// The first word of `text`.
pub fn first_word_of(text: &[char]) -> (word: Vec<char>)
    ensures
        word@ == first_word(text@),
{
    let mut from: usize = 0;
    proof {
        assert(text@.skip(0) =~= text@);
    }
    while from < text.len() && space(text[from])
        invariant
            from <= text.len(),
            first_word(text@) == first_word(text@.skip(from as int)),
        decreases text.len() - from,
    {
        proof {
            assert(text@.skip(from as int)[0] == text@[from as int]);
            assert(text@.skip(from as int).drop_first() =~= text@.skip(from + 1));
        }
        from += 1;
    }
    proof {
        if from < text.len() {
            assert(text@.skip(from as int)[0] == text@[from as int]);
        }
        assert(text@.subrange(from as int, from as int) =~= Seq::<char>::empty());
    }
    let mut to: usize = from;
    while to < text.len() && !space(text[to])
        invariant
            from <= to <= text.len(),
            first_word(text@) == text@.subrange(from as int, to as int) + word_prefix(
                text@.skip(to as int),
            ),
        decreases text.len() - to,
    {
        proof {
            assert(text@.skip(to as int)[0] == text@[to as int]);
            assert(text@.skip(to as int).drop_first() =~= text@.skip(to + 1));
            assert(text@.subrange(from as int, to as int) + (seq![text@[to as int]] + word_prefix(
                text@.skip(to + 1),
            )) =~= text@.subrange(from as int, to + 1) + word_prefix(text@.skip(to + 1)));
        }
        to += 1;
    }
    proof {
        if to < text.len() {
            assert(text@.skip(to as int)[0] == text@[to as int]);
        }
        assert(text@.subrange(from as int, to as int) + Seq::<char>::empty() =~= text@.subrange(
            from as int,
            to as int,
        ));
    }
    copy_range(text, from, to)
}

} // verus!
