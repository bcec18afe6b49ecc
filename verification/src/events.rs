use vstd::prelude::*;

verus! {

/// How a filesystem change notification modified the watched path, as far as
/// the reload logic cares: only a change to the file's contents qualifies.
#[derive(Clone, Copy, Debug, PartialEq, Eq, Structural)]
pub enum FsModifyKind {
    Any,
    Data,
    Metadata,
    Name,
    Other,
}

/// The kind of a filesystem change notification for the watched config file.
#[derive(Clone, Copy, Debug, PartialEq, Eq, Structural)]
pub enum FsEventKind {
    Access,
    Create,
    Modify(FsModifyKind),
    Remove,
    Other,
}

/// A notification qualifies for a reload exactly when it reports a change to
/// the file's data; creations, removals and metadata touches are ignored.
pub open spec fn is_data_modify(k: FsEventKind) -> bool {
    k matches FsEventKind::Modify(FsModifyKind::Data)
}

pub fn is_modify_data_event(kind: &FsEventKind) -> (r: bool)
    ensures
        r == is_data_modify(*kind),
{
    match kind {
        FsEventKind::Modify(FsModifyKind::Data) => true,
        _ => false,
    }
}

} // verus!
