//! The events that the build publishes for the dev server.
use vstd::prelude::*;

verus! {

/// A notification: the site changed and should be reloaded, or a watched
/// path changed.
#[derive(Debug, Clone)]
pub enum Event {
    Reload,
    Path(String),
}

impl Event {
    /// The text frame sent to browsers for this event, if any.
    pub fn frame(&self) -> (r: Option<&'static str>)
        ensures
            self is Reload ==> (r matches Some(s) && s@ == "reload"@),
            self is Path ==> r is None,
    {
        match self {
            Event::Reload => Some("reload"),
            Event::Path(_) => None,
        }
    }
}

} // verus!
