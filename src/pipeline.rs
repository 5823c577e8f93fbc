//! The steps of one fstab generation, as decisions on plain values.
//!
//! The caller validates the root with [`root_argument`] and [`check_root`]
//! (handing over what the filesystem says of it), normalises the
//! canonical root with [`normalize_root`], selects the records with
//! [`select_mounts`] and [`select_swaps`], runs the identifier lookup that
//! [`crate::device::blkid_device`] and [`swap_blkid_device`] ask for,
//! renders each record with [`mount_entry`] or [`swap_entry`], and joins the
//! blocks with [`assemble_fstab`].
use vstd::prelude::*;

use crate::device::{blkid_device, get_device_identifier, identifier_spec, lookup_device_spec, opt_view};
use crate::error::RecfstabError;
use crate::filter::{
    filter_options, filter_options_spec, is_pseudo_filesystem, is_under_root, pseudo_fs_names,
    under_root_spec,
};
use crate::fstab::{
    determine_pass_number, escape_fstab, escape_fstab_spec, fstab_target_spec, make_fstab_target,
    pass_spec,
};
use crate::mount::{mount_views, MountInfo, MountView};
use crate::swap::{
    get_swap_identifier, get_swap_target, is_swap_file, is_swap_file_spec, is_swap_under_root,
    swap_identifier_spec, swap_target_spec, swap_under_root_spec, swap_views, SwapInfo, SwapView,
};
use crate::text::{eq_str, trim, trim_end_char, trim_end_matches_char, trim_str};

verus! {

/// The scan root argument without surrounding white space; a blank
/// argument is a missing root.
pub fn root_argument(root_path: &str) -> (r: Result<&str, RecfstabError>)
    ensures
        trim(root_path@).len() == 0 <==> r is Err,
        r matches Ok(p) ==> p@ == trim(root_path@),
        r matches Err(e) ==> e.code == crate::error::ErrorCode::RootNotFound && e.message@
            == "root directory '"@ + "(empty path)"@ + "' does not exist"@,
{
    let p = trim_str(root_path);
    if p.is_empty() {
        Err(RecfstabError::root_not_found("(empty path)"))
    } else {
        Ok(p)
    }
}

/// The check of the scan root against what the filesystem says of it: it
/// must exist and be a directory.
pub fn check_root(root_path: &str, exists: bool, is_dir: bool) -> (r: Result<(), RecfstabError>)
    ensures
        r is Ok <==> exists && is_dir,
        r matches Err(e) ==> (!exists ==> e.code == crate::error::ErrorCode::RootNotFound
            && e.message@ == "root directory '"@ + root_path@ + "' does not exist"@),
        r matches Err(e) ==> (exists ==> e.code == crate::error::ErrorCode::NotADirectory
            && e.message@ == "'"@ + root_path@ + "' is not a directory"@),
{
    if !exists {
        Err(RecfstabError::root_not_found(root_path))
    } else if !is_dir {
        Err(RecfstabError::not_a_directory(root_path))
    } else {
        Ok(())
    }
}

/// The canonical root as compared with mount targets: `/` stays `/`, any
/// other path loses its trailing slashes.
pub open spec fn normalize_root_spec(canonical: Seq<char>) -> Seq<char> {
    if canonical == "/"@ {
        canonical
    } else {
        trim_end_char(canonical, '/')
    }
}

/// Normalise the trailing slash of the canonical root.
pub fn normalize_root(canonical: &str) -> (r: &str)
    ensures
        r@ == normalize_root_spec(canonical@),
{
    if eq_str(canonical, "/") {
        canonical
    } else {
        trim_end_matches_char(canonical, '/')
    }
}

/// Some record in `sel` has the fstab mount point that `t` has under
/// `root`.
pub open spec fn target_seen(sel: Seq<MountView>, t: Seq<char>, root: Seq<char>) -> bool {
    exists|j: int|
        0 <= j < sel.len() && fstab_target_spec(sel[j].target, root) == fstab_target_spec(t, root)
}

/// The mounts that get an fstab entry, in table order: those under the
/// root that are not pseudo filesystems, each fstab mount point only the
/// first time.
pub open spec fn select_mounts_spec(ms: Seq<MountView>, root: Seq<char>) -> Seq<MountView>
    decreases ms.len(),
{
    if ms.len() == 0 {
        Seq::empty()
    } else {
        let p = select_mounts_spec(ms.drop_last(), root);
        let m = ms.last();
        if under_root_spec(m.target, root) && !pseudo_fs_names().contains(m.fstype)
            && !target_seen(p, m.target, root) {
            p.push(m)
        } else {
            p
        }
    }
}

/// A field-by-field copy.
fn copy_mount(m: &MountInfo) -> (r: MountInfo)
    ensures
        r@ == m@,
{
    MountInfo {
        target: m.target.clone(),
        source: m.source.clone(),
        fstype: m.fstype.clone(),
        options: m.options.clone(),
    }
}

/// Whether some mount in `sel` has the fstab mount point `t` under `root`.
fn has_target(sel: &Vec<MountInfo>, t: &String, root: &str) -> (r: bool)
    ensures
        r == target_seen(mount_views(sel@), t@, root@),
{
    let wanted = make_fstab_target(t.as_str(), root);
    let mut j: usize = 0;
    while j < sel.len()
        invariant
            j <= sel.len(),
            wanted@ == fstab_target_spec(t@, root@),
            forall|k: int|
                0 <= k < j ==> fstab_target_spec(sel@[k].target@, root@) != wanted@,
        decreases sel.len() - j,
    {
        let other = make_fstab_target(sel[j].target.as_str(), root);
        if other == wanted {
            assert(fstab_target_spec(mount_views(sel@)[j as int].target, root@) == wanted@);
            return true;
        }
        j = j + 1;
    }
    assert(!target_seen(mount_views(sel@), t@, root@)) by {
        if target_seen(mount_views(sel@), t@, root@) {
            let k = choose|k: int|
                0 <= k < sel.len() && fstab_target_spec(mount_views(sel@)[k].target, root@)
                    == fstab_target_spec(t@, root@);
            assert(fstab_target_spec(sel@[k].target@, root@) == wanted@);
        }
    }
    false
}

/// The mounts that get an fstab entry under `root`, in table order.
pub fn select_mounts(mounts: &Vec<MountInfo>, root: &str) -> (r: Vec<MountInfo>)
    ensures
        mount_views(r@) == select_mounts_spec(mount_views(mounts@), root@),
{
    let ghost ms = mount_views(mounts@);
    let mut sel: Vec<MountInfo> = Vec::new();
    for i in 0..mounts.len()
        invariant
            ms == mount_views(mounts@),
            mount_views(sel@) == select_mounts_spec(ms.take(i as int), root@),
    {
        assert(ms.take(i + 1).drop_last() =~= ms.take(i as int));
        assert(ms.take(i + 1).last() == mounts@[i as int]@);
        let m = &mounts[i];
        if is_under_root(m.target.as_str(), root) && !is_pseudo_filesystem(m.fstype.as_str())
            && !has_target(&sel, &m.target, root) {
            let c = copy_mount(m);
            let ghost before = sel@;
            sel.push(c);
            assert(mount_views(sel@) =~= mount_views(before).push(c@));
        }
    }
    assert(ms.take(mounts.len() as int) =~= ms);
    sel
}

/// No fstab mount point appears twice among the selected mounts, and every
/// selected mount lies under the root and is no pseudo filesystem.
pub proof fn lemma_selected_mounts(ms: Seq<MountView>, root: Seq<char>)
    ensures
        forall|i: int, j: int|
            0 <= i < j < select_mounts_spec(ms, root).len() ==> fstab_target_spec(
                select_mounts_spec(ms, root)[i].target,
                root,
            ) != fstab_target_spec(select_mounts_spec(ms, root)[j].target, root),
        forall|i: int|
            0 <= i < select_mounts_spec(ms, root).len() ==> under_root_spec(
                #[trigger] select_mounts_spec(ms, root)[i].target,
                root,
            ) && !pseudo_fs_names().contains(select_mounts_spec(ms, root)[i].fstype),
    decreases ms.len(),
{
    if ms.len() > 0 {
        lemma_selected_mounts(ms.drop_last(), root);
        let p = select_mounts_spec(ms.drop_last(), root);
        let m = ms.last();
        if select_mounts_spec(ms, root) != p {
            assert(select_mounts_spec(ms, root) == p.push(m));
            assert forall|i: int|
                0 <= i < p.len() implies fstab_target_spec(p[i].target, root) != fstab_target_spec(
                m.target,
                root,
            ) by {
                if fstab_target_spec(p[i].target, root) == fstab_target_spec(m.target, root) {
                    assert(target_seen(p, m.target, root));
                }
            }
        }
    }
}

/// The swap areas that get an fstab entry under `root`, in table order.
pub open spec fn select_swaps_spec(ws: Seq<SwapView>, root: Seq<char>) -> Seq<SwapView> {
    ws.filter(|w: SwapView| swap_under_root_spec(w.filename, root))
}

/// A field-by-field copy.
fn copy_swap(w: &SwapInfo) -> (r: SwapInfo)
    ensures
        r@ == w@,
{
    SwapInfo { filename: w.filename.clone(), swap_type: w.swap_type.clone() }
}

/// The swap areas that get an fstab entry under `root`, in table order.
pub fn select_swaps(swaps: &Vec<SwapInfo>, root: &str) -> (r: Vec<SwapInfo>)
    ensures
        swap_views(r@) == select_swaps_spec(swap_views(swaps@), root@),
{
    let ghost ws = swap_views(swaps@);
    let mut sel: Vec<SwapInfo> = Vec::new();
    for i in 0..swaps.len()
        invariant
            ws == swap_views(swaps@),
            swap_views(sel@) == select_swaps_spec(ws.take(i as int), root@),
    {
        assert(ws.take(i + 1).drop_last() =~= ws.take(i as int));
        assert(ws.take(i + 1).last() == swaps@[i as int]@);
        reveal(Seq::filter);
        if is_swap_under_root(&swaps[i], root) {
            let c = copy_swap(&swaps[i]);
            let ghost before = sel@;
            sel.push(c);
            assert(swap_views(sel@) =~= swap_views(before).push(c@));
        }
    }
    assert(ws.take(swaps.len() as int) =~= ws);
    sel
}

/// The device to ask the lookup utility about for a swap area: none for a
/// swap file, as for a mount source otherwise.
pub open spec fn swap_lookup_spec(filename: Seq<char>) -> Option<Seq<char>> {
    if is_swap_file_spec(filename) {
        None
    } else {
        lookup_device_spec(filename)
    }
}

/// The device to ask the lookup utility about for a swap area, if any.
pub fn swap_blkid_device(swap: &SwapInfo) -> (r: Option<&str>)
    ensures
        r matches Some(d) ==> swap_lookup_spec(swap.filename@) == Some(d@),
        r is None ==> swap_lookup_spec(swap.filename@) is None,
{
    if is_swap_file(swap.filename.as_str()) {
        None
    } else {
        blkid_device(swap.filename.as_str())
    }
}

/// The digit of an fsck pass.
pub open spec fn pass_text(p: u8) -> Seq<char> {
    if p == 1 {
        "1"@
    } else if p == 2 {
        "2"@
    } else {
        "0"@
    }
}

fn pass_digit(p: u8) -> (r: &'static str)
    ensures
        r@ == pass_text(p),
{
    if p == 1 {
        "1"
    } else if p == 2 {
        "2"
    } else {
        "0"
    }
}

/// The three-line block of a mount: a comment with the raw source, the
/// six-field entry, and a blank line.
pub open spec fn mount_entry_spec(
    m: MountView,
    root: Seq<char>,
    tag: Seq<char>,
    found: Option<Seq<char>>,
) -> Seq<char> {
    let target = fstab_target_spec(m.target, root);
    "# "@ + m.source + "\n"@ + escape_fstab_spec(identifier_spec(m.source, tag, found)) + "\t"@
        + escape_fstab_spec(target) + "\t"@ + m.fstype + "\t"@ + filter_options_spec(m.options)
        + "\t0\t"@ + pass_text(pass_spec(target, m.fstype)) + "\n\n"@
}

/// Render the fstab block of a selected mount. `blkid_output` is what the
/// lookup utility printed for `blkid_device(&mount.source)` with tag
/// `id_type`, if it succeeded.
pub fn mount_entry(mount: &MountInfo, root: &str, id_type: &str, blkid_output: Option<&str>) -> (r:
    String)
    ensures
        r@ == mount_entry_spec(mount@, root@, id_type@, opt_view(blkid_output)),
{
    let fstab_target = make_fstab_target(mount.target.as_str(), root);
    let identifier = get_device_identifier(mount.source.as_str(), id_type, blkid_output);
    let pass = determine_pass_number(fstab_target.as_str(), mount.fstype.as_str());
    let options = filter_options(mount.options.as_str());
    let id_field = escape_fstab(identifier.as_str());
    let target_field = escape_fstab(fstab_target.as_str());
    let mut r = "# ".to_owned();
    r.append(mount.source.as_str());
    r.append("\n");
    r.append(id_field.as_str());
    r.append("\t");
    r.append(target_field.as_str());
    r.append("\t");
    r.append(mount.fstype.as_str());
    r.append("\t");
    r.append(options.as_str());
    r.append("\t0\t");
    r.append(pass_digit(pass));
    r.append("\n\n");
    r
}

/// The three-line block of a swap area: type `swap`, options `defaults`,
/// pass 0.
pub open spec fn swap_entry_spec(
    w: SwapView,
    root: Seq<char>,
    tag: Seq<char>,
    found: Option<Seq<char>>,
) -> Seq<char> {
    "# "@ + w.filename + "\n"@ + escape_fstab_spec(swap_identifier_spec(w.filename, tag, found))
        + "\t"@ + escape_fstab_spec(swap_target_spec(w.filename, root))
        + "\tswap\tdefaults\t0\t0"@ + "\n\n"@
}

/// Render the fstab block of a selected swap area. `blkid_output` is what
/// the lookup utility printed for `swap_blkid_device(swap)`, if it
/// succeeded.
pub fn swap_entry(swap: &SwapInfo, root: &str, id_type: &str, blkid_output: Option<&str>) -> (r:
    String)
    ensures
        r@ == swap_entry_spec(swap@, root@, id_type@, opt_view(blkid_output)),
{
    let identifier = get_swap_identifier(swap, id_type, blkid_output);
    let target = get_swap_target(swap, root);
    let id_field = escape_fstab(identifier.as_str());
    let target_field = escape_fstab(target.as_str());
    let mut r = "# ".to_owned();
    r.append(swap.filename.as_str());
    r.append("\n");
    r.append(id_field.as_str());
    r.append("\t");
    r.append(target_field.as_str());
    r.append("\tswap\tdefaults\t0\t0");
    r.append("\n\n");
    r
}

/// All of `parts`, one after another.
pub open spec fn concat_all(parts: Seq<Seq<char>>) -> Seq<char>
    decreases parts.len(),
{
    if parts.len() == 0 {
        Seq::empty()
    } else {
        concat_all(parts.drop_last()) + parts.last()
    }
}

/// The views of a list of strings.
pub open spec fn string_views(v: Seq<String>) -> Seq<Seq<char>> {
    v.map_values(|t: String| t@)
}

/// The fstab text of the rendered blocks, in order; no block at all means
/// that no filesystem was found under the root.
pub fn assemble_fstab(root_path: &str, blocks: &Vec<String>) -> (r: Result<String, RecfstabError>)
    ensures
        r is Err <==> blocks.len() == 0,
        r matches Ok(t) ==> t@ == concat_all(string_views(blocks@)),
        r matches Err(e) ==> e.code == crate::error::ErrorCode::NoFilesystems && e.message@
            == "no filesystems found under '"@ + root_path@
            + "' (make sure target filesystems are mounted)"@,
{
    if blocks.len() == 0 {
        return Err(RecfstabError::no_filesystems(root_path));
    }
    let ghost bs = string_views(blocks@);
    let mut out = String::new();
    for i in 0..blocks.len()
        invariant
            bs == string_views(blocks@),
            out@ == concat_all(bs.take(i as int)),
    {
        assert(bs.take(i + 1).drop_last() =~= bs.take(i as int));
        out.append(blocks[i].as_str());
    }
    assert(bs.take(blocks.len() as int) =~= bs);
    Ok(out)
}

} // verus!
