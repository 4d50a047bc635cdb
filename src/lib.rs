//! Live editing of an application's configuration record through a small
//! web page: codecs that render and parse field values, a record that routes
//! edits by dotted path, and the decisions of the background listener.
use vstd::prelude::*;

pub mod codec;
pub mod launch;
pub mod record;
pub mod server;
pub mod text;

use record::UpdateError;

verus! {

/// Options of the inspector as a whole: the port its web server listens on.
#[derive(Clone, Copy, Debug, PartialEq, Eq, Structural)]
pub struct InspectableOptions {
    pub port: u16,
}

impl Default for InspectableOptions {
    fn default() -> (r: InspectableOptions)
        ensures
            r.port == 5676,
    {
        InspectableOptions { port: 5676 }
    }
}

/// A record that can be drawn as a page and edited through it.
pub trait Inspectable: Sized {
    /// The invariant that every value of the type keeps.
    spec fn inv(&self) -> bool;

    /// The page of the value.
    spec fn html_spec(&self) -> Seq<char>;

    /// `after` and `r` are what the edit `path:value` makes of `self`.
    spec fn update_spec(
        &self,
        path: Seq<char>,
        value: Seq<char>,
        after: Self,
        r: Result<(), UpdateError>,
    ) -> bool;

    spec fn options_spec(&self) -> InspectableOptions;

    /// The page that the web server hands out.
    fn html(&self) -> (r: String)
        requires
            self.inv(),
        ensures
            r@ == self.html_spec(),
    ;

    /// Applies the edit `field:value`; an edit that names no field or holds
    /// a value of the wrong form is reported and changes nothing.
    fn update(&mut self, field: &str, value: &str) -> (r: Result<(), UpdateError>)
        requires
            old(self).inv(),
        ensures
            final(self).inv(),
            old(self).update_spec(field@, value@, *final(self), r),
    ;

    /// Options such as the port of the web server.
    fn options(&self) -> (r: InspectableOptions)
        ensures
            r == self.options_spec(),
    ;
}

} // verus!
