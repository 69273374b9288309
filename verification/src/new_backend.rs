//! An earlier shape of the entry types, kept for callers that build
//! named folders and files directly.
use vstd::prelude::*;

verus! {

#[derive(Debug)]
pub struct Folder {
    name: String,
    owner: String,
}

impl PartialEq for Folder {
    /// Folders compare by name alone.
    fn eq(&self, other: &Folder) -> (r: bool) {
        self.name.eq(&other.name)
    }
}

impl vstd::std_specs::cmp::PartialEqSpecImpl for Folder {
    open spec fn obeys_eq_spec() -> bool {
        true
    }

    closed spec fn eq_spec(&self, other: &Folder) -> bool {
        self.name@ == other.name@
    }
}

#[derive(Debug, PartialEq)]
pub struct File {
    contents: String,
    name: String,
    owner: String,
}

pub struct NamedFileV {
    pub contents: Seq<char>,
    pub name: Seq<char>,
    pub owner: Seq<char>,
}

impl View for File {
    type V = NamedFileV;

    closed spec fn view(&self) -> NamedFileV {
        NamedFileV { contents: self.contents@, name: self.name@, owner: self.owner@ }
    }
}

pub struct FolderV {
    pub name: Seq<char>,
    pub owner: Seq<char>,
}

impl View for Folder {
    type V = FolderV;

    closed spec fn view(&self) -> FolderV {
        FolderV { name: self.name@, owner: self.owner@ }
    }
}

pub fn make_folder(name: &str, owner: &str) -> (r: Folder)
    ensures
        r@ == (FolderV { name: name@, owner: owner@ }),
{
    Folder { name: name.to_owned(), owner: owner.to_owned() }
}

pub fn make_file(name: &str, owner: &str, contents: &str) -> (r: File)
    ensures
        r@ == (NamedFileV { contents: contents@, name: name@, owner: owner@ }),
{
    File { contents: contents.to_owned(), name: name.to_owned(), owner: owner.to_owned() }
}

} // verus!
