//! Device identifier resolution (UUID, LABEL, PARTUUID, PARTLABEL).
//!
//! Resolution needs the identifier-lookup utility only for block devices.
//! [`blkid_device`] says which device, if any, to ask about; the caller runs
//! the lookup and hands its output to [`get_device_identifier`], which
//! applies the fallback chain.
use vstd::prelude::*;

use crate::text::{
    chars_of, find_char, first_index, has_prefix, lemma_first_index_absent, starts_with, trim, trim_str,
};

verus! {

/// The kind of identifier written in the first fstab column.
#[derive(Debug, Clone, Copy, PartialEq, Eq, Structural, Default)]
pub enum IdType {
    /// Filesystem UUID (the default)
    #[default]
    Uuid,
    /// Filesystem LABEL
    Label,
    /// Partition UUID (GPT PARTUUID)
    Partuuid,
    /// Partition LABEL (GPT PARTLABEL)
    Partlabel,
}

/// The tag that the lookup utility is asked for.
pub open spec fn tag_text(t: IdType) -> Seq<char> {
    match t {
        IdType::Uuid => "UUID"@,
        IdType::Label => "LABEL"@,
        IdType::Partuuid => "PARTUUID"@,
        IdType::Partlabel => "PARTLABEL"@,
    }
}

/// The prefix written before `=` in the fstab identifier column.
pub open spec fn prefix_text(t: IdType) -> Seq<char> {
    match t {
        IdType::Uuid => "UUID"@,
        IdType::Label => "LABEL"@,
        IdType::Partuuid => "PARTUUID"@,
        IdType::Partlabel => "PARTLABEL"@,
    }
}

impl IdType {
    /// The lookup tag name for this identifier type.
    pub fn blkid_tag(&self) -> (r: &'static str)
        ensures
            r@ == tag_text(*self),
    {
        match self {
            IdType::Uuid => "UUID",
            IdType::Label => "LABEL",
            IdType::Partuuid => "PARTUUID",
            IdType::Partlabel => "PARTLABEL",
        }
    }

    /// The fstab prefix for this identifier type.
    pub fn fstab_prefix(&self) -> (r: &'static str)
        ensures
            r@ == prefix_text(*self),
    {
        match self {
            IdType::Uuid => "UUID",
            IdType::Label => "LABEL",
            IdType::Partuuid => "PARTUUID",
            IdType::Partlabel => "PARTLABEL",
        }
    }
}

/// The device part of a source: everything before the first `[` (btrfs
/// subvolume notation), or the whole source when it has none.
pub open spec fn device_path_spec(s: Seq<char>) -> Seq<char> {
    s.take(first_index(s, '[') as int)
}

/// Extract the base device path from a source such as `/dev/sda1[/subvol]`.
pub fn extract_device_path(source: &str) -> (r: &str)
    ensures
        r@ == device_path_spec(source@),
{
    let cs = chars_of(source);
    let i = find_char(&cs, '[');
    source.substring_char(0, i)
}

/// `s` already names a device by one of the four identifier tags.
pub open spec fn has_tag_prefix(s: Seq<char>) -> bool {
    has_prefix(s, "UUID="@) || has_prefix(s, "LABEL="@) || has_prefix(s, "PARTUUID="@)
        || has_prefix(s, "PARTLABEL="@)
}

/// Whether `source` already carries an identifier tag.
pub fn has_identifier_tag(source: &str) -> (r: bool)
    ensures
        r == has_tag_prefix(source@),
{
    starts_with(source, "UUID=") || starts_with(source, "LABEL=") || starts_with(
        source,
        "PARTUUID=",
    ) || starts_with(source, "PARTLABEL=")
}

/// The block device whose identifier is to be looked up for `s`, if any:
/// untagged sources whose device part starts with `/dev/`.
pub open spec fn lookup_device_spec(s: Seq<char>) -> Option<Seq<char>> {
    if !has_tag_prefix(s) && has_prefix(device_path_spec(s), "/dev/"@) {
        Some(device_path_spec(s))
    } else {
        None
    }
}

/// The device to ask the lookup utility about for `source`, if any.
pub fn blkid_device(source: &str) -> (r: Option<&str>)
    ensures
        r matches Some(d) ==> lookup_device_spec(source@) == Some(d@),
        r is None ==> lookup_device_spec(source@) is None,
{
    if has_identifier_tag(source) {
        return None;
    }
    let device = extract_device_path(source);
    if starts_with(device, "/dev/") {
        Some(device)
    } else {
        None
    }
}

/// The fstab identifier for `source`, given what the lookup utility printed
/// when it succeeded (`None` when it failed or was not run).
///
/// A tagged source is kept as it is. For a block device, a lookup that
/// printed a non-blank value gives `TAG=value`; otherwise the device path is
/// the fallback. Any other source (network, bind, pseudo) is kept.
pub open spec fn identifier_spec(s: Seq<char>, tag: Seq<char>, found: Option<Seq<char>>) -> Seq<
    char,
> {
    match lookup_device_spec(s) {
        None => s,
        Some(d) => match found {
            Some(out) => if trim(out).len() > 0 {
                tag + "="@ + trim(out)
            } else {
                d
            },
            None => d,
        },
    }
}

/// The optional output of a lookup, as characters.
pub open spec fn opt_view(o: Option<&str>) -> Option<Seq<char>> {
    match o {
        Some(t) => Some(t@),
        None => None,
    }
}

/// Get the device identifier for a source, falling back to the device path
/// when the lookup gave nothing. `blkid_output` is what the lookup utility
/// printed for [`blkid_device`]`(source)` with tag `id_type`, if it succeeded.
pub fn get_device_identifier(source: &str, id_type: &str, blkid_output: Option<&str>) -> (r:
    String)
    ensures
        r@ == identifier_spec(source@, id_type@, opt_view(blkid_output)),
{
    match blkid_device(source) {
        None => source.to_owned(),
        Some(device) => {
            if let Some(out) = blkid_output {
                let value = trim_str(out);
                if !value.is_empty() {
                    let mut r = id_type.to_owned();
                    r.append("=");
                    r.append(value);
                    return r;
                }
            }
            device.to_owned()
        },
    }
}

/// For a source with no `[` and no identifier tag, resolution gives either
/// `TAG=value` with the tag of the requested kind, or the source unchanged;
/// never another tag.
pub proof fn lemma_resolve_untagged(s: Seq<char>, kind: IdType, found: Option<Seq<char>>)
    requires
        !s.contains('['),
        !has_tag_prefix(s),
    ensures
        identifier_spec(s, tag_text(kind), found) == s || exists|v: Seq<char>|
            v.len() > 0 && identifier_spec(s, tag_text(kind), found) == tag_text(kind) + "="@ + v,
{
    lemma_first_index_absent(s, '[');
    assert(device_path_spec(s) =~= s);
    if let Some(out) = found {
        if lookup_device_spec(s) is Some && trim(out).len() > 0 {
            let v = trim(out);
            assert(identifier_spec(s, tag_text(kind), found) == tag_text(kind) + "="@ + v);
        }
    }
}

/// A source that already carries one of the four identifier tags resolves
/// to itself, whatever kind is requested and whatever the lookup gives.
pub proof fn lemma_resolve_tagged(s: Seq<char>, tag: Seq<char>, found: Option<Seq<char>>)
    requires
        has_tag_prefix(s),
    ensures
        identifier_spec(s, tag, found) == s,
{
}

} // verus!
