pub mod joke;
pub mod lookup;

use vstd::prelude::*;

verus! {

/// A renderable page wrapped for the transport layer. The wrapper keeps
/// the page value itself; turning it into an HTTP response is the
/// embedding application's concern.
pub struct HtmlTemplate<T>(pub T);

} // verus!
