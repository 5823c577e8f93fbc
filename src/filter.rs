//! The filter policy: pseudo filesystems, runtime-only options, and the
//! root subtree.
use vstd::prelude::*;

use crate::text::{
    eq_str, has_prefix, split_on, split_str, starts_with, str_views, trim, trim_str,
};

verus! {

/// The filesystem types that the kernel synthesises; they never belong in
/// fstab. Names are compared case-sensitively.
pub open spec fn pseudo_fs_names() -> Seq<Seq<char>> {
    seq![
        "autofs"@, "binder"@, "binfmt_misc"@, "bpf"@, "cgroup"@, "cgroup2"@, "configfs"@,
        "debugfs"@, "devpts"@, "devtmpfs"@, "efivarfs"@, "fuse.gvfsd-fuse"@, "fuse.portal"@,
        "fusectl"@, "hugetlbfs"@, "mqueue"@, "nsfs"@, "overlay"@, "proc"@, "pstore"@, "ramfs"@,
        "rpc_pipefs"@, "securityfs"@, "selinuxfs"@, "sysfs"@, "tmpfs"@, "tracefs"@,
    ]
}

/// The pseudo filesystem types, in order.
pub fn pseudo_filesystems() -> (r: Vec<&'static str>)
    ensures
        str_views(r@) == pseudo_fs_names(),
{
    let r = vec![
        "autofs", "binder", "binfmt_misc", "bpf", "cgroup", "cgroup2", "configfs", "debugfs",
        "devpts", "devtmpfs", "efivarfs", "fuse.gvfsd-fuse", "fuse.portal", "fusectl",
        "hugetlbfs", "mqueue", "nsfs", "overlay", "proc", "pstore", "ramfs", "rpc_pipefs",
        "securityfs", "selinuxfs", "sysfs", "tmpfs", "tracefs",
    ];
    assert(str_views(r@) =~= pseudo_fs_names());
    r
}

/// Whether `name` is one of `names`.
fn contains_str(names: &Vec<&'static str>, name: &str) -> (r: bool)
    ensures
        r == str_views(names@).contains(name@),
{
    let mut i: usize = 0;
    while i < names.len()
        invariant
            i <= names.len(),
            forall|j: int| 0 <= j < i ==> names@[j]@ != name@,
        decreases names.len() - i,
    {
        if eq_str(names[i], name) {
            assert(str_views(names@)[i as int] == name@);
            return true;
        }
        i = i + 1;
    }
    assert(!str_views(names@).contains(name@)) by {
        if str_views(names@).contains(name@) {
            let k = choose|k: int| 0 <= k < names.len() && str_views(names@)[k] == name@;
            assert(names@[k]@ == name@);
        }
    }
    false
}

/// Whether a filesystem type is a pseudo filesystem to be excluded.
pub fn is_pseudo_filesystem(fstype: &str) -> (r: bool)
    ensures
        r == pseudo_fs_names().contains(fstype@),
{
    let names = pseudo_filesystems();
    contains_str(&names, fstype)
}

/// Mount options that describe runtime state only and are not persisted.
pub open spec fn runtime_option_names() -> Seq<Seq<char>> {
    seq!["lazytime"@, "noatime"@, "relatime"@, "ro"@, "rw"@, "seclabel"@]
}

/// The runtime-only mount options, in order.
pub fn runtime_options() -> (r: Vec<&'static str>)
    ensures
        str_views(r@) == runtime_option_names(),
{
    let r = vec!["lazytime", "noatime", "relatime", "ro", "rw", "seclabel"];
    assert(str_views(r@) =~= runtime_option_names());
    r
}

/// A trimmed option token that is kept: not empty, not runtime-only, and
/// not a `subvolid=` (the numeric subvolume id changes; `subvol=` stays).
pub open spec fn keep_option(t: Seq<char>) -> bool {
    t.len() > 0 && !runtime_option_names().contains(t) && !has_prefix(t, "subvolid="@)
}

/// The kept tokens among `tokens`, each trimmed, in order.
pub open spec fn kept_options(tokens: Seq<Seq<char>>) -> Seq<Seq<char>>
    decreases tokens.len(),
{
    if tokens.len() == 0 {
        Seq::empty()
    } else {
        let p = kept_options(tokens.drop_last());
        let t = trim(tokens.last());
        if keep_option(t) {
            p.push(t)
        } else {
            p
        }
    }
}

/// `parts` joined with `sep` between each two.
pub open spec fn join_with(parts: Seq<Seq<char>>, sep: Seq<char>) -> Seq<char>
    decreases parts.len(),
{
    if parts.len() == 0 {
        Seq::empty()
    } else if parts.len() == 1 {
        parts[0]
    } else {
        join_with(parts.drop_last(), sep) + sep + parts.last()
    }
}

/// The option string written to fstab: the kept comma-separated tokens,
/// joined by commas, or `defaults` when none is kept.
pub open spec fn filter_options_spec(options: Seq<char>) -> Seq<char> {
    let k = kept_options(split_on(options, ','));
    if k.len() == 0 {
        "defaults"@
    } else {
        join_with(k, ","@)
    }
}

/// Filter out the runtime-only mount options that do not belong in fstab.
pub fn filter_options(options: &str) -> (r: String)
    ensures
        r@ == filter_options_spec(options@),
{
    let tokens = split_str(options, ',');
    let ghost ts = str_views(tokens@);
    let runtime = runtime_options();
    let mut out = String::new();
    let mut count: usize = 0;
    for i in 0..tokens.len()
        invariant
            ts == str_views(tokens@),
            str_views(runtime@) == runtime_option_names(),
            out@ == join_with(kept_options(ts.take(i as int)), ","@),
            count == kept_options(ts.take(i as int)).len(),
            count <= i,
    {
        assert(ts.take(i + 1).drop_last() =~= ts.take(i as int));
        assert(ts[i as int] == tokens@[i as int]@);
        let ghost prev = kept_options(ts.take(i as int));
        let t = trim_str(tokens[i]);
        if !t.is_empty() && !contains_str(&runtime, t) && !starts_with(t, "subvolid=") {
            if count > 0 {
                out.append(",");
            }
            out.append(t);
            count = count + 1;
            assert(prev.push(t@).drop_last() =~= prev);
            if count == 1 {
                assert(out@ =~= t@);
            }
        }
    }
    assert(ts.take(tokens.len() as int) =~= ts);
    if count == 0 {
        "defaults".to_owned()
    } else {
        out
    }
}

/// Whether a filesystem type is more than white space.
pub fn is_valid_fstype(fstype: &str) -> (r: bool)
    ensures
        r == (trim(fstype@).len() > 0),
{
    !trim_str(fstype).is_empty()
}

/// `target` lies under `root`: every path does under `/`; otherwise the
/// target is the root itself or continues it after a `/` (so `/mnt2` is not
/// under `/mnt`).
pub open spec fn under_root_spec(target: Seq<char>, root: Seq<char>) -> bool {
    root == "/"@ || target == root || has_prefix(target, root + "/"@)
}

/// Whether a mount target is under the given root path.
pub fn is_under_root(target: &str, root_str: &str) -> (r: bool)
    ensures
        r == under_root_spec(target@, root_str@),
{
    if eq_str(root_str, "/") {
        true
    } else {
        let mut with_slash = root_str.to_owned();
        with_slash.append("/");
        eq_str(target, root_str) || starts_with(target, with_slash.as_str())
    }
}

} // verus!
