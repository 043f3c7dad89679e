use vstd::prelude::*;

verus! {

/// The kind of an archive node.
#[derive(Clone, Copy, Debug, PartialEq, Eq, Structural)]
pub enum NodeKind {
    File,
    Symlink,
    Dir,
    CharDevice,
    BlockDevice,
    NamedPipe,
    Socket,
}

/// The file type reported to the filesystem protocol.
#[derive(Clone, Copy, Debug, PartialEq, Eq, Structural)]
pub enum FileType {
    RegularFile,
    Symlink,
    Directory,
    CharDevice,
    BlockDevice,
    NamedPipe,
    Socket,
}

/// The fixed, total mapping from archive kinds to protocol file types.
pub open spec fn file_type_of(k: NodeKind) -> FileType {
    match k {
        NodeKind::File => FileType::RegularFile,
        NodeKind::Symlink => FileType::Symlink,
        NodeKind::Dir => FileType::Directory,
        NodeKind::CharDevice => FileType::CharDevice,
        NodeKind::BlockDevice => FileType::BlockDevice,
        NodeKind::NamedPipe => FileType::NamedPipe,
        NodeKind::Socket => FileType::Socket,
    }
}

/// Maps an archive node kind to the protocol's file type.
pub fn inner_to_fs_type(k: NodeKind) -> (r: FileType)
    ensures
        r == file_type_of(k),
{
    match k {
        NodeKind::File => FileType::RegularFile,
        NodeKind::Symlink => FileType::Symlink,
        NodeKind::Dir => FileType::Directory,
        NodeKind::CharDevice => FileType::CharDevice,
        NodeKind::BlockDevice => FileType::BlockDevice,
        NodeKind::NamedPipe => FileType::NamedPipe,
        NodeKind::Socket => FileType::Socket,
    }
}

} // verus!
