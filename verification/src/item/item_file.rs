//! File items: a file's basename, origin path, bytes and extension,
//! read into memory by the sender and written out by the receiver.
use vstd::prelude::*;

verus! {

/// A file carried in a batch.  The receiver appends `data` to the file
/// named `name` under its save directory.
#[derive(Debug, Clone, PartialEq)]
pub struct ItemFile {
    name: String,
    path: String,
    data: Vec<u8>,
    extension: String,
}

impl ItemFile {
    /// The basename, as a spec value.
    pub closed spec fn spec_name(&self) -> Seq<char> {
        self.name@
    }

    /// The origin path, as a spec value.
    pub closed spec fn spec_path(&self) -> Seq<char> {
        self.path@
    }

    /// The carried bytes, as a spec value.
    pub closed spec fn spec_data(&self) -> Seq<u8> {
        self.data@
    }

    /// The extension, as a spec value.
    pub closed spec fn spec_extension(&self) -> Seq<char> {
        self.extension@
    }

    /// Assemble a file item from parts already read from disk: the
    /// basename, the origin path, the full contents and the extension
    /// (empty when the name has none).
    pub fn from_parts(name: String, path: String, data: Vec<u8>, extension: String) -> (r:
        ItemFile)
        ensures
            r.spec_name() == name@,
            r.spec_path() == path@,
            r.spec_data() == data@,
            r.spec_extension() == extension@,
    {
        ItemFile { name, path, data, extension }
    }

    /// The basename the receiver saves under.
    pub fn name(&self) -> (r: &String)
        ensures
            r@ == self.spec_name(),
    {
        &self.name
    }

    /// The path the sender read the file from.
    pub fn path(&self) -> (r: &String)
        ensures
            r@ == self.spec_path(),
    {
        &self.path
    }

    /// The carried bytes.
    pub fn data(&self) -> (r: &Vec<u8>)
        ensures
            r@ == self.spec_data(),
    {
        &self.data
    }

    /// The extension of the original file name.
    pub fn extension(&self) -> (r: &String)
        ensures
            r@ == self.spec_extension(),
    {
        &self.extension
    }
}

} // verus!
