//! Mount-table records and their textual form.
use vstd::prelude::*;

use crate::text::{
    chars_of, find_char, first_index, flat_map_chars, lemma_flat_map_identity, lemma_replace_codes,
    replace_all, replace_str, simple_code, split_on, split_str, str_views, trim, trim_str,
};

verus! {

/// One mount from the mount table.
#[derive(Debug, Clone, PartialEq, Eq)]
pub struct MountInfo {
    pub target: String,
    pub source: String,
    pub fstype: String,
    pub options: String,
}

/// The mathematical content of a [`MountInfo`].
pub struct MountView {
    pub target: Seq<char>,
    pub source: Seq<char>,
    pub fstype: Seq<char>,
    pub options: Seq<char>,
}

impl View for MountInfo {
    type V = MountView;

    open spec fn view(&self) -> MountView {
        MountView {
            target: self.target@,
            source: self.source@,
            fstype: self.fstype@,
            options: self.options@,
        }
    }
}

/// The mount-table escapes undone: `\x20`, `\x09`, `\x0a`, `\x0d` become
/// space, tab, line feed and carriage return, and `\x5c` becomes a
/// backslash last, so that a decoded backslash never starts an escape.
pub open spec fn unescape_findmnt_spec(s: Seq<char>) -> Seq<char> {
    let a = replace_all(s, "\\x20"@, " "@);
    let b = replace_all(a, "\\x09"@, "\t"@);
    let c = replace_all(b, "\\x0a"@, "\n"@);
    let d = replace_all(c, "\\x0d"@, "\r"@);
    replace_all(d, "\\x5c"@, "\\"@)
}

/// Undo the mount-table escapes in `s`; malformed escapes stay as they are.
pub fn unescape_findmnt(s: &str) -> (r: String)
    ensures
        r@ == unescape_findmnt_spec(s@),
{
    proof {
        reveal_strlit("\\x20");
        reveal_strlit("\\x09");
        reveal_strlit("\\x0a");
        reveal_strlit("\\x0d");
        reveal_strlit("\\x5c");
    }
    let a = replace_str(s, "\\x20", " ");
    let b = replace_str(a.as_str(), "\\x09", "\t");
    let c = replace_str(b.as_str(), "\\x0a", "\n");
    let d = replace_str(c.as_str(), "\\x0d", "\r");
    replace_str(d.as_str(), "\\x5c", "\\")
}

/// The record that one line of the mount table gives, if any.
///
/// The trimmed line is split at its first three spaces; the fourth field,
/// the options, keeps the rest of the line, spaces included. Target and
/// source are unescaped; a line without three spaces, or with an empty
/// target or type, gives none.
pub open spec fn parse_mount_spec(line: Seq<char>) -> Option<MountView> {
    let l = trim(line);
    let i0 = first_index(l, ' ');
    let r1 = l.subrange(i0 + 1int, l.len() as int);
    let i1 = first_index(r1, ' ');
    let r2 = r1.subrange(i1 + 1int, r1.len() as int);
    let i2 = first_index(r2, ' ');
    if i0 >= l.len() || i1 >= r1.len() || i2 >= r2.len() {
        None
    } else {
        let target = unescape_findmnt_spec(l.take(i0 as int));
        let fstype = r2.take(i2 as int);
        if target.len() == 0 || fstype.len() == 0 {
            None
        } else {
            Some(
                MountView {
                    target,
                    source: unescape_findmnt_spec(r1.take(i1 as int)),
                    fstype,
                    options: r2.subrange(i2 + 1int, r2.len() as int),
                },
            )
        }
    }
}

/// How the mount-table utility writes one character of a target or
/// source: space, tab, line feed, carriage return and backslash as `\xHH`
/// escapes, anything else as itself.
pub open spec fn findmnt_escape_char(c: char) -> Seq<char> {
    if c == ' ' {
        "\\x20"@
    } else if c == '\t' {
        "\\x09"@
    } else if c == '\n' {
        "\\x0a"@
    } else if c == '\r' {
        "\\x0d"@
    } else if c == '\\' {
        "\\x5c"@
    } else {
        seq![c]
    }
}

/// [`findmnt_escape_char`] as a function value.
pub open spec fn findmnt_escape_fn() -> spec_fn(char) -> Seq<char> {
    |c: char| findmnt_escape_char(c)
}

/// A text as the mount-table utility writes it.
pub open spec fn findmnt_escape_spec(x: Seq<char>) -> Seq<char> {
    flat_map_chars(x, findmnt_escape_fn())
}

/// The position of a character's escape in the order in which
/// [`unescape_findmnt_spec`] undoes them (5 for a character never escaped).
spec fn decode_rank(c: char) -> int {
    if c == ' ' {
        0
    } else if c == '\t' {
        1
    } else if c == '\n' {
        2
    } else if c == '\r' {
        3
    } else if c == '\\' {
        4
    } else {
        5
    }
}

/// The text after the first `k` replacement passes: characters whose
/// escape has been undone are literal, the others still escaped.
spec fn decoded_fn(k: int) -> spec_fn(char) -> Seq<char> {
    |c: char| if decode_rank(c) < k { seq![c] } else { findmnt_escape_char(c) }
}

/// Each pass of [`unescape_findmnt_spec`] undoes exactly one escape.
proof fn lemma_decode_pass(x: Seq<char>, k: int, p: Seq<char>, w: char)
    requires
        0 <= k < 5,
        decode_rank(w) == k,
        p == findmnt_escape_char(w),
    ensures
        replace_all(flat_map_chars(x, decoded_fn(k)), p, seq![w]) == flat_map_chars(
            x,
            decoded_fn(k + 1),
        ),
{
    reveal_strlit("\\x20");
    reveal_strlit("\\x09");
    reveal_strlit("\\x0a");
    reveal_strlit("\\x0d");
    reveal_strlit("\\x5c");
    let f = decoded_fn(k);
    let g = decoded_fn(k + 1);
    assert forall|c: char| simple_code(c, #[trigger] f(c)) by {}
    assert forall|c: char| #[trigger] g(c) == if f(c) == p { seq![w] } else { f(c) } by {
        if decode_rank(c) < 5 && decode_rank(c) != k && decode_rank(c) >= k {
            assert(f(c)[2] != p[2] || f(c)[3] != p[3]);
        }
    }
    lemma_replace_codes(x, f, g, p, seq![w]);
}

/// Undoing the mount-table escapes after the utility applied them gives
/// back the unescaped text, for every text (spaces, tabs, line breaks and
/// backslashes included).
pub proof fn lemma_findmnt_escape_round_trip(x: Seq<char>)
    ensures
        unescape_findmnt_spec(findmnt_escape_spec(x)) == x,
{
    reveal_strlit(" ");
    reveal_strlit("\t");
    reveal_strlit("\n");
    reveal_strlit("\r");
    reveal_strlit("\\");
    assert(decoded_fn(0) =~= findmnt_escape_fn());
    lemma_decode_pass(x, 0, "\\x20"@, ' ');
    lemma_decode_pass(x, 1, "\\x09"@, '\t');
    lemma_decode_pass(x, 2, "\\x0a"@, '\n');
    lemma_decode_pass(x, 3, "\\x0d"@, '\r');
    lemma_decode_pass(x, 4, "\\x5c"@, '\\');
    assert(" "@ =~= seq![' ']);
    assert("\t"@ =~= seq!['\t']);
    assert("\n"@ =~= seq!['\n']);
    assert("\r"@ =~= seq!['\r']);
    assert("\\"@ =~= seq!['\\']);
    lemma_flat_map_identity(x, decoded_fn(5));
}

/// Parse one line of the mount table (target, source, type, options).
pub fn parse_mount_line(line: &str) -> (r: Option<MountInfo>)
    ensures
        r is None <==> parse_mount_spec(line@) is None,
        r matches Some(m) ==> parse_mount_spec(line@) == Some(m@),
{
    let l = trim_str(line);
    let cs = chars_of(l);
    let i0 = find_char(&cs, ' ');
    if i0 == cs.len() {
        return None;
    }
    let r1 = l.substring_char(i0 + 1, cs.len());
    let cs1 = chars_of(r1);
    let i1 = find_char(&cs1, ' ');
    if i1 == cs1.len() {
        return None;
    }
    let r2 = r1.substring_char(i1 + 1, cs1.len());
    let cs2 = chars_of(r2);
    let i2 = find_char(&cs2, ' ');
    if i2 == cs2.len() {
        return None;
    }
    let target = unescape_findmnt(l.substring_char(0, i0));
    let source = unescape_findmnt(r1.substring_char(0, i1));
    let fstype = r2.substring_char(0, i2).to_owned();
    let options = r2.substring_char(i2 + 1, cs2.len()).to_owned();
    if target.as_str().is_empty() || fstype.as_str().is_empty() {
        return None;
    }
    Some(MountInfo { target, source, fstype, options })
}

/// The records of the mount-table lines in `lines`, in order; lines that
/// give none are left out.
pub open spec fn parse_mounts_spec(lines: Seq<Seq<char>>) -> Seq<MountView>
    decreases lines.len(),
{
    if lines.len() == 0 {
        Seq::empty()
    } else {
        let p = parse_mounts_spec(lines.drop_last());
        match parse_mount_spec(lines.last()) {
            Some(v) => p.push(v),
            None => p,
        }
    }
}

/// The views of a list of mounts.
pub open spec fn mount_views(v: Seq<MountInfo>) -> Seq<MountView> {
    v.map_values(|m: MountInfo| m@)
}

/// The records of the whole mount-table text, one line after another;
/// malformed lines are dropped.
pub fn parse_mounts(output: &str) -> (r: Vec<MountInfo>)
    ensures
        mount_views(r@) == parse_mounts_spec(split_on(output@, '\n')),
{
    let lines = split_str(output, '\n');
    let ghost ls = str_views(lines@);
    let mut mounts: Vec<MountInfo> = Vec::new();
    for i in 0..lines.len()
        invariant
            ls == str_views(lines@),
            ls == split_on(output@, '\n'),
            mount_views(mounts@) == parse_mounts_spec(ls.take(i as int)),
    {
        assert(ls.take(i + 1).drop_last() =~= ls.take(i as int));
        assert(ls[i as int] == lines@[i as int]@);
        match parse_mount_line(lines[i]) {
            Some(m) => {
                let ghost before = mounts@;
                mounts.push(m);
                assert(mount_views(mounts@) =~= mount_views(before).push(m@));
            },
            None => {},
        }
    }
    assert(ls.take(lines.len() as int) =~= ls);
    mounts
}

} // verus!
