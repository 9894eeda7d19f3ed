//! The single slot that holds the watched file's path.
use vstd::prelude::*;

verus! {

/// Holds the path of the file being watched, if one has been chosen. A new
/// path replaces the old one whole; the last one set wins.
pub struct PathRegistry {
    path: Option<String>,
}

impl View for PathRegistry {
    type V = Option<Seq<char>>;

    closed spec fn view(&self) -> Option<Seq<char>> {
        self.path.deep_view()
    }
}

impl PathRegistry {
    /// A registry with no path chosen yet.
    pub fn new() -> (r: PathRegistry)
        ensures
            r@ == None::<Seq<char>>,
    {
        PathRegistry { path: None }
    }

    /// Makes `path` the watched path, replacing any earlier one. The path is
    /// not checked here: whether it can be read shows when it is scanned.
    pub fn set_path(&mut self, path: String)
        ensures
            final(self)@ == Some(path@),
    {
        self.path = Some(path);
    }

    /// The watched path, or `None` while none has been chosen.
    pub fn get_path(&self) -> (r: Option<String>)
        ensures
            r.deep_view() == self@,
    {
        match &self.path {
            Some(p) => Some(p.clone()),
            None => None,
        }
    }
}

} // verus!
