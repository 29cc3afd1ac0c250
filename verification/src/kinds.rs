//! The closed taxonomy of filesystem-change kinds the pipeline acts on, the
//! events that carry them, and the fixed case-insensitive name table that
//! maps configured kind names onto them.

use vstd::prelude::*;
use crate::text::ieq;
use crate::text::str_ieq;

verus! {

/// The category of one filesystem change: a closed rendering of the
/// notification layer's open-ended taxonomy, covering the variants this
/// system acts on plus an explicit unclassified fallback.
#[derive(Clone, Copy, Debug, PartialEq, Eq, Structural)]
pub enum EventKind {
    /// Something was read or had its access time touched.
    Access,
    /// A file came into being.
    CreateFile,
    /// A directory came into being.
    CreateFolder,
    /// Something was created that the notifier did not classify further.
    CreateOther,
    /// A file's contents changed.
    ModifyContent,
    /// A file's data changed in a way other than its contents.
    ModifyOtherData,
    /// Metadata such as permissions or timestamps changed.
    ModifyMetadata,
    /// A rename, reported at its destination path.
    RenameTo,
    /// A rename, reported at its source path.
    RenameFrom,
    /// A rename the notifier did not split into source and destination.
    RenameOther,
    /// A modification the notifier did not classify further.
    ModifyOther,
    /// A file was deleted.
    RemoveFile,
    /// A directory was deleted.
    RemoveFolder,
    /// Something was removed that the notifier did not classify further.
    RemoveOther,
    /// Anything this system does not classify.
    Other,
}

impl EventKind {
    /// The kind belongs to the access category.
    pub open spec fn spec_is_access(self) -> bool {
        self is Access
    }

    /// The kind belongs to the create category.
    pub open spec fn spec_is_create(self) -> bool {
        self is CreateFile || self is CreateFolder || self is CreateOther
    }

    /// The kind belongs to the modify category (data, metadata or rename).
    pub open spec fn spec_is_modify(self) -> bool {
        ||| self is ModifyContent
        ||| self is ModifyOtherData
        ||| self is ModifyMetadata
        ||| self is RenameTo
        ||| self is RenameFrom
        ||| self is RenameOther
        ||| self is ModifyOther
    }

    /// The kind belongs to the remove category.
    pub open spec fn spec_is_remove(self) -> bool {
        self is RemoveFile || self is RemoveFolder || self is RemoveOther
    }

    pub fn is_access(&self) -> (r: bool)
        ensures
            r == self.spec_is_access(),
    {
        matches!(self, EventKind::Access)
    }

    pub fn is_create(&self) -> (r: bool)
        ensures
            r == self.spec_is_create(),
    {
        matches!(self, EventKind::CreateFile | EventKind::CreateFolder | EventKind::CreateOther)
    }

    pub fn is_modify(&self) -> (r: bool)
        ensures
            r == self.spec_is_modify(),
    {
        matches!(
            self,
            EventKind::ModifyContent | EventKind::ModifyOtherData | EventKind::ModifyMetadata
                | EventKind::RenameTo | EventKind::RenameFrom | EventKind::RenameOther
                | EventKind::ModifyOther
        )
    }

    pub fn is_remove(&self) -> (r: bool)
        ensures
            r == self.spec_is_remove(),
    {
        matches!(self, EventKind::RemoveFile | EventKind::RemoveFolder | EventKind::RemoveOther)
    }
}

/// One debounced filesystem event: its kind and the affected paths.
pub struct Event {
    pub kind: EventKind,
    pub paths: Vec<String>,
}

/// The mathematical shape of an [`Event`].
pub ghost struct EventV {
    pub kind: EventKind,
    pub paths: Seq<Seq<char>>,
}

impl View for Event {
    type V = EventV;

    open spec fn view(&self) -> EventV {
        EventV { kind: self.kind, paths: self.paths.deep_view() }
    }
}

impl DeepView for Event {
    type V = EventV;

    open spec fn deep_view(&self) -> EventV {
        self.view()
    }
}

/// The canonical single label of a concrete kind, used for action matching;
/// kinds without a defined label yield none.
pub open spec fn primary_label(k: EventKind) -> Option<Seq<char>> {
    match k {
        EventKind::CreateFile => Some("create_file"@),
        EventKind::CreateFolder => Some("create_folder"@),
        EventKind::ModifyContent => Some("content_change"@),
        EventKind::RenameTo => Some("rename_to"@),
        EventKind::RenameFrom => Some("rename_from"@),
        EventKind::RemoveFile => Some("remove_file"@),
        EventKind::RemoveFolder => Some("remove_folder"@),
        _ => None,
    }
}

/// The canonical label of `kind`, or nothing for kinds without one.
pub fn event_kind_to_primary_string(kind: EventKind) -> (r: Option<String>)
    ensures
        r.deep_view() == primary_label(kind),
{
    match kind {
        EventKind::CreateFile => Some("create_file".to_owned()),
        EventKind::CreateFolder => Some("create_folder".to_owned()),
        EventKind::ModifyContent => Some("content_change".to_owned()),
        EventKind::RenameTo => Some("rename_to".to_owned()),
        EventKind::RenameFrom => Some("rename_from".to_owned()),
        EventKind::RemoveFile => Some("remove_file".to_owned()),
        EventKind::RemoveFolder => Some("remove_folder".to_owned()),
        _ => None,
    }
}

/// The fixed case-insensitive name table of the kind filter. Coarse names
/// match whole categories ("modify" and "write" also match pure access
/// events); fine-grained names match exactly one concrete kind; names
/// outside the table never match.
pub open spec fn kind_name_matches(k: EventKind, name: Seq<char>) -> bool {
    ||| (ieq(name, "access"@) && k.spec_is_access())
    ||| (ieq(name, "create"@) && k.spec_is_create())
    ||| ((ieq(name, "modify"@) || ieq(name, "write"@)) && (k.spec_is_modify()
        || k.spec_is_access()))
    ||| (ieq(name, "remove"@) && k.spec_is_remove())
    ||| (ieq(name, "content_change"@) && k is ModifyContent)
    ||| (ieq(name, "rename_to"@) && k is RenameTo)
    ||| (ieq(name, "rename_from"@) && k is RenameFrom)
    ||| (ieq(name, "create_file"@) && k is CreateFile)
    ||| (ieq(name, "create_folder"@) && k is CreateFolder)
    ||| (ieq(name, "remove_file"@) && k is RemoveFile)
    ||| (ieq(name, "remove_folder"@) && k is RemoveFolder)
}

/// Whether a configured kind name matches the event's kind, through the
/// fixed name table.
pub fn event_kind_matches(kind: EventKind, kind_str: &str) -> (r: bool)
    ensures
        r == kind_name_matches(kind, kind_str@),
{
    (str_ieq(kind_str, "access") && kind.is_access()) || (str_ieq(kind_str, "create")
        && kind.is_create()) || ((str_ieq(kind_str, "modify") || str_ieq(kind_str, "write")) && (
    kind.is_modify() || kind.is_access())) || (str_ieq(kind_str, "remove") && kind.is_remove()) || (
    str_ieq(kind_str, "content_change") && matches!(kind, EventKind::ModifyContent)) || (str_ieq(
        kind_str,
        "rename_to",
    ) && matches!(kind, EventKind::RenameTo)) || (str_ieq(kind_str, "rename_from") && matches!(
        kind,
        EventKind::RenameFrom,
    )) || (str_ieq(kind_str, "create_file") && matches!(kind, EventKind::CreateFile)) || (str_ieq(
        kind_str,
        "create_folder",
    ) && matches!(kind, EventKind::CreateFolder)) || (str_ieq(kind_str, "remove_file") && matches!(
        kind,
        EventKind::RemoveFile,
    )) || (str_ieq(kind_str, "remove_folder") && matches!(kind, EventKind::RemoveFolder))
}

} // verus!
