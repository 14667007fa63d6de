//! File status.

use vstd::prelude::*;

verus! {

#[derive(Debug, Clone, Copy, PartialEq, Eq, Structural)]
pub enum FileType {
    Regular,
    Directory,
    CharacterDevice,
    BlockDevice,
    Pipe,
}

impl Default for FileType {
    fn default() -> (file_type: Self)
        ensures
            file_type == FileType::Regular,
    {
        FileType::Regular
    }
}

#[derive(Debug, Clone, Copy, PartialEq, Eq, Structural)]
pub struct Stat {
    pub size: usize,
    pub file_type: FileType,
}

impl Default for Stat {
    fn default() -> (stat: Self)
        ensures
            stat == (Stat { size: 0, file_type: FileType::Regular }),
    {
        Stat { size: 0, file_type: FileType::Regular }
    }
}

} // verus!
