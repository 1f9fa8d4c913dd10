use vstd::prelude::*;

verus! {

/// One child of a listed directory.
#[derive(Clone, Debug)]
pub struct FileInfo {
    pub name: String,
    /// `"directory"` or `"file"`.
    pub kind: String,
    pub path: String,
}

/// The abstract value of a `FileInfo`.
pub struct FileInfoView {
    pub name: Seq<char>,
    pub kind: Seq<char>,
    pub path: Seq<char>,
}

impl View for FileInfo {
    type V = FileInfoView;

    open spec fn view(&self) -> FileInfoView {
        FileInfoView { name: self.name@, kind: self.kind@, path: self.path@ }
    }
}

/// A child as enumeration found it: its name and whether it is a directory.
#[derive(Clone, Debug)]
pub struct DirChild {
    pub name: String,
    pub is_dir: bool,
}

/// A post as the front-end exchanges it.
#[derive(Clone, Debug)]
pub struct Post {
    pub title: String,
    pub created: String,
    pub link: String,
    pub description: String,
    pub content: String,
    pub author: String,
}

} // verus!
