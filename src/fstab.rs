//! The fstab side: escaping, mount points relative to the root, fsck pass.
use vstd::prelude::*;

use crate::swap::{octal_escape_at, octal_value, unescape_octal};
use crate::text::{
    chars_of, eq_str, flat_map_chars, has_prefix, lemma_flat_map_first, push_char,
    starts_with,
};

verus! {

/// How one character is written in an fstab field: the six characters that
/// would split a field or start a comment become octal escapes.
pub open spec fn escape_char(c: char) -> Seq<char> {
    if c == '\\' {
        "\\134"@
    } else if c == ' ' {
        "\\040"@
    } else if c == '\t' {
        "\\011"@
    } else if c == '\n' {
        "\\012"@
    } else if c == '\r' {
        "\\015"@
    } else if c == '#' {
        "\\043"@
    } else {
        seq![c]
    }
}

/// [`escape_char`] as a function value.
pub open spec fn escape_char_fn() -> spec_fn(char) -> Seq<char> {
    |c: char| escape_char(c)
}

/// `s` with every character written as [`escape_char`] says.
pub open spec fn escape_fstab_spec(s: Seq<char>) -> Seq<char> {
    flat_map_chars(s, escape_char_fn())
}

/// Escape the characters that fstab(5) cannot hold literally in a field.
pub fn escape_fstab(s: &str) -> (r: String)
    ensures
        r@ == escape_fstab_spec(s@),
{
    let cs = chars_of(s);
    let mut result = String::new();
    for i in 0..cs.len()
        invariant
            cs@ == s@,
            result@ == escape_fstab_spec(s@.take(i as int)),
    {
        assert(s@.take(i + 1).drop_last() =~= s@.take(i as int));
        let c = cs[i];
        if c == '\\' {
            result.append("\\134");
        } else if c == ' ' {
            result.append("\\040");
        } else if c == '\t' {
            result.append("\\011");
        } else if c == '\n' {
            result.append("\\012");
        } else if c == '\r' {
            result.append("\\015");
        } else if c == '#' {
            result.append("\\043");
        } else {
            push_char(&mut result, c);
        }
    }
    assert(s@.take(cs.len() as int) =~= s@);
    result
}

/// Undoing the swap-table (octal) escapes after escaping for fstab gives
/// back the unescaped text, for every text.
pub proof fn lemma_fstab_escape_round_trip(x: Seq<char>)
    ensures
        unescape_octal(escape_fstab_spec(x)) == x,
    decreases x.len(),
{
    if x.len() > 0 {
        let c = x[0];
        let e = escape_char(c);
        let rest = escape_fstab_spec(x.drop_first());
        lemma_flat_map_first(x, escape_char_fn());
        lemma_fstab_escape_round_trip(x.drop_first());
        let s = e + rest;
        assert(escape_fstab_spec(x) == s);
        reveal_strlit("\\134");
        reveal_strlit("\\040");
        reveal_strlit("\\011");
        reveal_strlit("\\012");
        reveal_strlit("\\015");
        reveal_strlit("\\043");
        if c == '\\' || c == ' ' || c == '\t' || c == '\n' || c == '\r' || c == '#' {
            assert(e.len() == 4);
            assert(s.subrange(0, 4) =~= e);
            assert(octal_escape_at(s));
            assert((octal_value(s) as u8) as char == c);
            assert(s.subrange(4, s.len() as int) =~= rest);
        } else {
            assert(!octal_escape_at(s));
            assert(s.drop_first() =~= rest);
        }
        assert(seq![c] + x.drop_first() =~= x);
    }
}

/// The fstab mount point of `target` for a scan rooted at `root`.
///
/// An empty target, or the root itself, is `/`. Otherwise the root prefix
/// is stripped when present, and what is left is given a leading `/` if it
/// has none.
pub open spec fn fstab_target_spec(target: Seq<char>, root: Seq<char>) -> Seq<char> {
    if target.len() == 0 || target == root {
        "/"@
    } else {
        let stripped = if has_prefix(target, root) {
            target.subrange(root.len() as int, target.len() as int)
        } else {
            target
        };
        if stripped.len() == 0 {
            "/"@
        } else if stripped[0] == '/' {
            stripped
        } else {
            "/"@ + stripped
        }
    }
}

/// The mount at the scan root itself is always written as `/`.
pub proof fn lemma_root_target(root: Seq<char>)
    ensures
        fstab_target_spec(root, root) == "/"@,
{
}

/// Convert an absolute mount target to a path relative to the root.
pub fn make_fstab_target(target: &str, root_str: &str) -> (r: String)
    ensures
        r@ == fstab_target_spec(target@, root_str@),
{
    if target.is_empty() || eq_str(target, root_str) {
        return "/".to_owned();
    }
    let n = target.unicode_len();
    let stripped = if starts_with(target, root_str) {
        target.substring_char(root_str.unicode_len(), n)
    } else {
        target
    };
    if stripped.is_empty() {
        "/".to_owned()
    } else if stripped.get_char(0) == '/' {
        stripped.to_owned()
    } else {
        let mut r = "/".to_owned();
        r.append(stripped);
        r
    }
}

/// The filesystem types checked by fsck at boot.
pub open spec fn needs_fsck_spec(fstype: Seq<char>) -> bool {
    fstype == "ext2"@ || fstype == "ext3"@ || fstype == "ext4"@ || fstype == "xfs"@ || fstype
        == "f2fs"@
}

/// Whether a filesystem type is checked by fsck at boot. `btrfs` (checked
/// offline only) and `vfat` (rarely written, with an unreliable repair tool) are not.
pub fn needs_fsck(fstype: &str) -> (r: bool)
    ensures
        r == needs_fsck_spec(fstype@),
{
    eq_str(fstype, "ext2") || eq_str(fstype, "ext3") || eq_str(fstype, "ext4") || eq_str(
        fstype,
        "xfs",
    ) || eq_str(fstype, "f2fs")
}

/// The fsck pass: 1 for the root mount point, 2 for a type that fsck
/// checks, 0 for anything else.
pub open spec fn pass_spec(fstab_target: Seq<char>, fstype: Seq<char>) -> u8 {
    if fstab_target == "/"@ {
        1
    } else if needs_fsck_spec(fstype) {
        2
    } else {
        0
    }
}

/// Determine the fsck pass number for a filesystem.
pub fn determine_pass_number(fstab_target: &str, fstype: &str) -> (r: u8)
    ensures
        r == pass_spec(fstab_target@, fstype@),
{
    if eq_str(fstab_target, "/") {
        1
    } else if needs_fsck(fstype) {
        2
    } else {
        0
    }
}

} // verus!
