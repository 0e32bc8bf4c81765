use vstd::prelude::*;
use vstd::string::*;

verus! {

/// One item of a directory listing.
pub struct Entry {
    /// The entry's file name; names that are not valid Unicode are given
    /// with their invalid parts replaced.
    pub name: String,
    /// Whether `name` is the file name exactly (it was valid Unicode).
    pub unicode: bool,
    /// Whether the entry is a directory.
    pub is_dir: bool,
    /// Whether the entry, if a directory, can be listed.
    pub listable: bool,
}

/// The label shown for a name that is not valid Unicode.
pub open spec fn unknown_label() -> Seq<char> {
    seq!['U', 'n', 'k', 'n', 'o', 'w', 'n']
}

/// A file name whose extension is exactly `json`: it ends in `.json`, and
/// that final dot is not the name's first character.
pub open spec fn json_extension(name: Seq<char>) -> bool {
    let n = name.len();
    &&& n > 5
    &&& name[n - 5] == '.'
    &&& name[n - 4] == 'j'
    &&& name[n - 3] == 's'
    &&& name[n - 2] == 'o'
    &&& name[n - 1] == 'n'
}

/// An entry that is read and shown as a group of objectives.
pub open spec fn is_document(e: Entry) -> bool {
    !e.is_dir && json_extension(e.name@)
}

/// A directory that is shown as a folder: one that can be listed.
pub open spec fn is_folder(e: Entry) -> bool {
    e.is_dir && e.listable
}

/// An entry that shows up in the tree at all: a folder or a document.
/// Directories that cannot be listed and other files are passed over.
pub open spec fn is_shown(e: Entry) -> bool {
    is_folder(e) || is_document(e)
}

/// The label of an entry.
pub open spec fn label_of(e: Entry) -> Seq<char> {
    if e.unicode {
        e.name@
    } else {
        unknown_label()
    }
}

/// Whether a file name has the extension `json`.
pub fn has_json_extension(name: &str) -> (r: bool)
    ensures
        r == json_extension(name@),
{
    let n = name.unicode_len();
    if n <= 5 {
        return false;
    }
    name.get_char(n - 5) == '.' && name.get_char(n - 4) == 'j' && name.get_char(n - 3) == 's'
        && name.get_char(n - 2) == 'o' && name.get_char(n - 1) == 'n'
}

impl Entry {
    /// Whether this entry is a file to be read as a group of objectives.
    pub fn is_document(&self) -> (r: bool)
        ensures
            r == is_document(*self),
    {
        !self.is_dir && has_json_extension(self.name.as_str())
    }

    /// Whether this entry shows up in the tree.
    pub fn is_shown(&self) -> (r: bool)
        ensures
            r == is_shown(*self),
    {
        (self.is_dir && self.listable) || self.is_document()
    }

    /// The label under which this entry is shown.
    pub fn label(&self) -> (r: String)
        ensures
            r@ == label_of(*self),
    {
        if self.unicode {
            self.name.clone()
        } else {
            let mut s = String::new();
            s.append("Unknown");
            proof {
                reveal_strlit("Unknown");
                assert(s@ =~= unknown_label());
            }
            s
        }
    }
}

} // verus!
