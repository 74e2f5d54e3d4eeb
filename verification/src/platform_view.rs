//! Factory for native iOS views embedded in the GPUI render tree.

use vstd::prelude::*;

verus! {

/// Creates iOS platform views of one view type (e.g. `"webview"`).
pub struct IosPlatformViewFactory {
    view_type: String,
}

impl View for IosPlatformViewFactory {
    type V = Seq<char>;

    /// The view type the factory creates.
    closed spec fn view(&self) -> Seq<char> {
        self.view_type@
    }
}

impl IosPlatformViewFactory {
    /// A factory for views of type `view_type`.
    pub fn new(view_type: &str) -> (r: Self)
        ensures
            r@ == view_type@,
    {
        IosPlatformViewFactory { view_type: view_type.to_owned() }
    }

    /// The view type the factory creates.
    pub fn view_type(&self) -> (r: &str)
        ensures
            r@ == self@,
    {
        self.view_type.as_str()
    }
}

} // verus!
