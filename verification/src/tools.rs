//! Downloadable tools (compatibility layers and the like) the client can
//! install next to games.

use vstd::prelude::*;
use crate::keymap::AssocMap;

verus! {

/// Something the client installs besides games.
pub trait ExternalComponent {
    fn download(&mut self);

    fn version(&self) -> &String;

    fn is_installed(&self) -> bool;

    fn location(&self) -> &Option<String>;
}

/// The installable tools, by name.
pub struct Registry<T> {
    pub tools: AssocMap<String, T>,
}

impl<T> Registry<T> {
    pub fn new() -> (r: Self)
        ensures
            r.tools.view() == Map::<Seq<char>, T>::empty(),
    {
        Registry { tools: AssocMap::new() }
    }
}

/// Downloads one tool version to a location.
pub struct ToolDownloadAgent {
    pub id: String,
    pub version: String,
    pub location: String,
}

} // verus!
