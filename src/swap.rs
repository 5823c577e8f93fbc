//! Swap-table records and their fstab entries.
use vstd::prelude::*;

use crate::device::{get_device_identifier, identifier_spec, opt_view};
use crate::text::{
    chars_of, eq_str, has_prefix, push_char, skip_ws, split_on, split_str, starts_with,
    str_views, trim_end_char, trim_end_matches_char, trim_start, word_end, word_len,
};

verus! {

/// A character `0` to `7`.
pub open spec fn is_octal_digit(c: char) -> bool {
    48 <= c as u32 <= 55
}

/// The value of the three octal digits that follow the backslash.
pub open spec fn octal_value(s: Seq<char>) -> int {
    (s[1] as u32 - 48) * 64 + (s[2] as u32 - 48) * 8 + (s[3] as u32 - 48)
}

/// `s` starts with a backslash and three octal digits that name a byte.
pub open spec fn octal_escape_at(s: Seq<char>) -> bool {
    s.len() >= 4 && s[0] == '\\' && is_octal_digit(s[1]) && is_octal_digit(s[2])
        && is_octal_digit(s[3]) && octal_value(s) <= 255
}

/// The swap-table escapes undone: a backslash with exactly three octal
/// digits naming a byte becomes that byte's character; anything else,
/// backslash included, stays literal.
pub open spec fn unescape_octal(s: Seq<char>) -> Seq<char>
    decreases s.len(),
{
    if s.len() == 0 {
        s
    } else if octal_escape_at(s) {
        seq![(octal_value(s) as u8) as char] + unescape_octal(s.subrange(4, s.len() as int))
    } else {
        seq![s[0]] + unescape_octal(s.drop_first())
    }
}

fn is_octal(c: char) -> (r: bool)
    ensures
        r == is_octal_digit(c),
{
    let u = c as u32;
    48 <= u && u <= 55
}

/// Undo the octal escapes of a swap-table file name.
pub fn unescape_proc_swaps(s: &str) -> (r: String)
    ensures
        r@ == unescape_octal(s@),
{
    let cs = chars_of(s);
    let n = cs.len();
    let mut result = String::new();
    let mut i: usize = 0;
    assert(s@.subrange(0, n as int) =~= s@);
    assert(result@ + unescape_octal(s@) =~= unescape_octal(s@));
    while i < n
        invariant
            cs@ == s@,
            n == cs.len(),
            i <= n,
            result@ + unescape_octal(s@.subrange(i as int, n as int)) == unescape_octal(s@),
        decreases n - i,
    {
        let ghost rest = s@.subrange(i as int, n as int);
        if cs[i] == '\\' && n - i > 3 && is_octal(cs[i + 1]) && is_octal(cs[i + 2]) && is_octal(
            cs[i + 3],
        ) {
            let v: u32 = (cs[i + 1] as u32 - 48) * 64 + (cs[i + 2] as u32 - 48) * 8 + (cs[i + 3]
                as u32 - 48);
            if v <= 255 {
                assert(octal_escape_at(rest));
                assert(rest.subrange(4, rest.len() as int) =~= s@.subrange(i + 4, n as int));
                push_char(&mut result, (v as u8) as char);
                assert(result@ + unescape_octal(s@.subrange(i + 4, n as int)) =~= unescape_octal(
                    s@,
                ));
                i = i + 4;
                continue;
            }
        }
        assert(!octal_escape_at(rest));
        assert(rest.drop_first() =~= s@.subrange(i + 1, n as int));
        push_char(&mut result, cs[i]);
        assert(result@ + unescape_octal(s@.subrange(i + 1, n as int)) =~= unescape_octal(s@));
        i = i + 1;
    }
    assert(s@.subrange(n as int, n as int) =~= Seq::<char>::empty());
    assert(result@ + Seq::<char>::empty() =~= result@);
    result
}

/// One active swap area from the swap table.
#[derive(Debug, Clone, PartialEq, Eq)]
pub struct SwapInfo {
    /// The device or file path (e.g. /dev/sda2, /swapfile)
    pub filename: String,
    /// `partition` or `file`
    pub swap_type: String,
}

/// The mathematical content of a [`SwapInfo`].
pub struct SwapView {
    pub filename: Seq<char>,
    pub swap_type: Seq<char>,
}

impl View for SwapInfo {
    type V = SwapView;

    open spec fn view(&self) -> SwapView {
        SwapView { filename: self.filename@, swap_type: self.swap_type@ }
    }
}

/// The record that one body line of the swap table gives, if any: its
/// first white-space separated field, unescaped, is the file name and its
/// second the type; the rest is ignored. Blank lines and lines with fewer
/// than two fields give none.
pub open spec fn parse_swap_spec(line: Seq<char>) -> Option<SwapView> {
    let s = trim_start(line);
    let w0 = s.take(word_len(s) as int);
    let s2 = trim_start(s.subrange(word_len(s) as int, s.len() as int));
    let w1 = s2.take(word_len(s2) as int);
    if s.len() == 0 || s2.len() == 0 || unescape_octal(w0).len() == 0 {
        None
    } else {
        Some(SwapView { filename: unescape_octal(w0), swap_type: w1 })
    }
}

/// Parse one body line of the swap table (file name, type, size, used,
/// priority).
pub fn parse_swap_line(line: &str) -> (r: Option<SwapInfo>)
    ensures
        r is None <==> parse_swap_spec(line@) is None,
        r matches Some(w) ==> parse_swap_spec(line@) == Some(w@),
{
    let cs = chars_of(line);
    let n = cs.len();
    let i = skip_ws(&cs, 0);
    assert(line@.subrange(0, n as int) =~= line@);
    let j = word_end(&cs, i);
    let k = skip_ws(&cs, j);
    let l = word_end(&cs, k);
    let ghost s = line@.subrange(i as int, n as int);
    assert(s.subrange(word_len(s) as int, s.len() as int) =~= line@.subrange(j as int, n as int));
    assert(s.take(word_len(s) as int) =~= line@.subrange(i as int, j as int));
    assert(line@.subrange(k as int, n as int).take((l - k) as int) =~= line@.subrange(
        k as int,
        l as int,
    ));
    if i == n || k == n {
        return None;
    }
    let filename = unescape_proc_swaps(line.substring_char(i, j));
    if filename.as_str().is_empty() {
        return None;
    }
    let swap_type = line.substring_char(k, l).to_owned();
    Some(SwapInfo { filename, swap_type })
}

/// Whether a swap path is a zram device (runtime-managed, never persisted).
pub fn is_zram(path: &str) -> (r: bool)
    ensures
        r == has_prefix(path@, "/dev/zram"@),
{
    starts_with(path, "/dev/zram")
}

/// A swap path that is a regular file rather than a block device.
pub open spec fn is_swap_file_spec(path: Seq<char>) -> bool {
    !has_prefix(path, "/dev/"@)
}

/// Whether a swap path is a swap file (not under `/dev/`).
pub fn is_swap_file(path: &str) -> (r: bool)
    ensures
        r == is_swap_file_spec(path@),
{
    !starts_with(path, "/dev/")
}

/// The records of the swap-table text: the header line is skipped, and so
/// are lines that give no record and zram devices.
pub open spec fn parse_swaps_spec(lines: Seq<Seq<char>>) -> Seq<SwapView>
    decreases lines.len(),
{
    if lines.len() <= 1 {
        Seq::empty()
    } else {
        let p = parse_swaps_spec(lines.drop_last());
        match parse_swap_spec(lines.last()) {
            Some(v) => if has_prefix(v.filename, "/dev/zram"@) {
                p
            } else {
                p.push(v)
            },
            None => p,
        }
    }
}

/// The views of a list of swap records.
pub open spec fn swap_views(v: Seq<SwapInfo>) -> Seq<SwapView> {
    v.map_values(|w: SwapInfo| w@)
}

/// The active swap areas listed in the swap-table text, zram devices left
/// out.
pub fn parse_swaps(content: &str) -> (r: Vec<SwapInfo>)
    ensures
        swap_views(r@) == parse_swaps_spec(split_on(content@, '\n')),
{
    let lines = split_str(content, '\n');
    let ghost ls = str_views(lines@);
    let mut swaps: Vec<SwapInfo> = Vec::new();
    if lines.len() == 0 {
        return swaps;
    }
    assert(ls.take(1).len() == 1);
    for i in 1..lines.len()
        invariant
            ls == str_views(lines@),
            ls == split_on(content@, '\n'),
            1 <= i <= lines.len(),
            swap_views(swaps@) == parse_swaps_spec(ls.take(i as int)),
    {
        assert(ls.take(i + 1).drop_last() =~= ls.take(i as int));
        assert(ls[i as int] == lines@[i as int]@);
        match parse_swap_line(lines[i]) {
            Some(w) => {
                if !is_zram(w.filename.as_str()) {
                    let ghost before = swaps@;
                    swaps.push(w);
                    assert(swap_views(swaps@) =~= swap_views(before).push(w@));
                }
            },
            None => {},
        }
    }
    assert(ls.take(lines.len() as int) =~= ls);
    swaps
}

/// A swap area belongs to the scan rooted at `root`: block devices always
/// do; a swap file does when the root is `/`, or when the file is the root
/// (without trailing slashes) or lies below it.
pub open spec fn swap_under_root_spec(filename: Seq<char>, root: Seq<char>) -> bool {
    if is_swap_file_spec(filename) {
        let r = trim_end_char(root, '/');
        root == "/"@ || filename == r || has_prefix(filename, r + "/"@)
    } else {
        true
    }
}

/// Whether a swap area belongs to the scan rooted at `root`.
pub fn is_swap_under_root(swap: &SwapInfo, root: &str) -> (r: bool)
    ensures
        r == swap_under_root_spec(swap.filename@, root@),
{
    if is_swap_file(swap.filename.as_str()) {
        if eq_str(root, "/") {
            true
        } else {
            let canonical_root = trim_end_matches_char(root, '/');
            let mut with_slash = canonical_root.to_owned();
            with_slash.append("/");
            eq_str(swap.filename.as_str(), canonical_root) || starts_with(
                swap.filename.as_str(),
                with_slash.as_str(),
            )
        }
    } else {
        true
    }
}

/// The fstab identifier of a swap area: a swap file's own path, or the
/// resolved identifier of a block device. `blkid_output` is as for
/// [`get_device_identifier`].
pub open spec fn swap_identifier_spec(
    filename: Seq<char>,
    tag: Seq<char>,
    found: Option<Seq<char>>,
) -> Seq<char> {
    if is_swap_file_spec(filename) {
        filename
    } else {
        identifier_spec(filename, tag, found)
    }
}

/// Get the fstab source identifier for a swap area.
pub fn get_swap_identifier(swap: &SwapInfo, id_type: &str, blkid_output: Option<&str>) -> (r:
    String)
    ensures
        r@ == swap_identifier_spec(swap.filename@, id_type@, opt_view(blkid_output)),
{
    if is_swap_file(swap.filename.as_str()) {
        swap.filename.clone()
    } else {
        get_device_identifier(swap.filename.as_str(), id_type, blkid_output)
    }
}

/// The fstab mount point of a swap area: `none` for a block device; for a
/// swap file, its path relative to the root (with a leading `/`), or its
/// own path when the root is no prefix of it.
pub open spec fn swap_target_spec(filename: Seq<char>, root: Seq<char>) -> Seq<char> {
    if is_swap_file_spec(filename) {
        let r = if root == "/"@ {
            root
        } else {
            trim_end_char(root, '/')
        };
        if filename == r {
            "/"@
        } else if has_prefix(filename, r) {
            let rel = filename.subrange(r.len() as int, filename.len() as int);
            if rel.len() == 0 {
                "/"@
            } else if rel[0] == '/' {
                rel
            } else {
                "/"@ + rel
            }
        } else {
            filename
        }
    } else {
        "none"@
    }
}

/// Get the fstab target path for a swap area under the given root.
pub fn get_swap_target(swap: &SwapInfo, root: &str) -> (r: String)
    ensures
        r@ == swap_target_spec(swap.filename@, root@),
{
    let filename = swap.filename.as_str();
    if !is_swap_file(filename) {
        return "none".to_owned();
    }
    let canonical_root = if eq_str(root, "/") {
        root
    } else {
        trim_end_matches_char(root, '/')
    };
    if eq_str(filename, canonical_root) {
        "/".to_owned()
    } else if starts_with(filename, canonical_root) {
        let relative = filename.substring_char(canonical_root.unicode_len(), filename.unicode_len());
        if relative.is_empty() {
            "/".to_owned()
        } else if relative.get_char(0) == '/' {
            relative.to_owned()
        } else {
            let mut r = "/".to_owned();
            r.append(relative);
            r
        }
    } else {
        swap.filename.clone()
    }
}

} // verus!
