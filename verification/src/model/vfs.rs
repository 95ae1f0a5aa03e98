//! The virtual file tree that presentations materialize into.
use vstd::prelude::*;

use crate::model::reader::ReaderHandle;
use crate::model::source::SourceRef;
use crate::text::{str_eq, IntoText};

verus! {

#[derive(Debug, PartialEq, Eq)]
pub enum FileBacking {
    Source(SourceRef),
    Inline(Vec<u8>),
    Reader(ReaderHandle),
}

#[derive(Debug, PartialEq, Eq)]
pub struct VfsFile {
    pub name: String,
    pub size: u64,
    pub backing: FileBacking,
}

impl VfsFile {
    pub fn source_backed<S: IntoText>(name: S, size: u64, source: SourceRef) -> (r: Self)
        ensures
            r.name@ == name.text(),
            r.size == size,
            r.backing == FileBacking::Source(source),
    {
        VfsFile { name: name.into_text(), size, backing: FileBacking::Source(source) }
    }

    pub fn inline<S: IntoText>(name: S, contents: Vec<u8>) -> (r: Self)
        ensures
            r.name@ == name.text(),
            r.size == contents@.len(),
            r.backing == FileBacking::Inline(contents),
    {
        let size = contents.len() as u64;
        VfsFile { name: name.into_text(), size, backing: FileBacking::Inline(contents) }
    }

    pub fn reader_backed<S: IntoText>(name: S, size: u64, handle: ReaderHandle) -> (r: Self)
        ensures
            r.name@ == name.text(),
            r.size == size,
            r.backing == FileBacking::Reader(handle),
    {
        VfsFile { name: name.into_text(), size, backing: FileBacking::Reader(handle) }
    }
}

#[derive(Debug, PartialEq, Eq)]
pub struct VfsDirectory {
    pub name: String,
    pub children: Vec<VfsNode>,
}

#[derive(Debug, PartialEq, Eq)]
pub enum VfsNode {
    Directory(VfsDirectory),
    File(VfsFile),
}

pub open spec fn spec_node_name(node: VfsNode) -> Seq<char> {
    match node {
        VfsNode::Directory(d) => d.name@,
        VfsNode::File(f) => f.name@,
    }
}

impl VfsNode {
    pub fn name(&self) -> (r: &str)
        ensures
            r@ == spec_node_name(*self),
    {
        match self {
            VfsNode::Directory(d) => d.name.as_str(),
            VfsNode::File(f) => f.name.as_str(),
        }
    }
}

impl VfsDirectory {
    pub fn new<S: IntoText>(name: S) -> (r: Self)
        ensures
            r.name@ == name.text(),
            r.children@ == Seq::<VfsNode>::empty(),
    {
        VfsDirectory { name: name.into_text(), children: Vec::new() }
    }

    pub fn with_children<S: IntoText>(name: S, children: Vec<VfsNode>) -> (r: Self)
        ensures
            r.name@ == name.text(),
            r.children == children,
    {
        VfsDirectory { name: name.into_text(), children }
    }

    pub fn add_child(&mut self, child: VfsNode)
        ensures
            final(self).name == old(self).name,
            final(self).children@ == old(self).children@.push(child),
    {
        self.children.push(child);
    }

    pub fn children(&self) -> (r: &[VfsNode])
        ensures
            r@ == self.children@,
    {
        self.children.as_slice()
    }

    /// The first child directory with the given name.
    pub fn find_directory(&self, name: &str) -> (r: Option<&VfsDirectory>)
        ensures
            r matches Some(d) ==> d.name@ == name@ && exists|i: int| 0 <= i < self.children@.len() && self.children@[i] == VfsNode::Directory(*d),
            r is None ==> forall|i: int| 0 <= i < self.children@.len() ==> !(#[trigger] self.children@[i] matches VfsNode::Directory(d) && d.name@ == name@),
    {
        let mut i: usize = 0;
        while i < self.children.len()
            invariant
                i <= self.children@.len(),
                forall|j: int| 0 <= j < i ==> !(#[trigger] self.children@[j] matches VfsNode::Directory(d) && d.name@ == name@),
            decreases self.children@.len() - i,
        {
            match &self.children[i] {
                VfsNode::Directory(d) => {
                    if str_eq(d.name.as_str(), name) {
                        return Some(d);
                    }
                },
                VfsNode::File(_) => {},
            }
            i = i + 1;
        }
        None
    }

    /// The first child file with the given name.
    pub fn find_file(&self, name: &str) -> (r: Option<&VfsFile>)
        ensures
            r matches Some(f) ==> f.name@ == name@ && exists|i: int| 0 <= i < self.children@.len() && self.children@[i] == VfsNode::File(*f),
            r is None ==> forall|i: int| 0 <= i < self.children@.len() ==> !(#[trigger] self.children@[i] matches VfsNode::File(f) && f.name@ == name@),
    {
        let mut i: usize = 0;
        while i < self.children.len()
            invariant
                i <= self.children@.len(),
                forall|j: int| 0 <= j < i ==> !(#[trigger] self.children@[j] matches VfsNode::File(f) && f.name@ == name@),
            decreases self.children@.len() - i,
        {
            match &self.children[i] {
                VfsNode::File(f) => {
                    if str_eq(f.name.as_str(), name) {
                        return Some(f);
                    }
                },
                VfsNode::Directory(_) => {},
            }
            i = i + 1;
        }
        None
    }
}

} // verus!
