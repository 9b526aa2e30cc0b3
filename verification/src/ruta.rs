use vstd::prelude::*;

verus! {

/// The views of the web client.
#[derive(Clone, Copy, Debug, PartialEq, Eq, Structural)]
pub enum View {
    List,
    Detail(i64),
    /// Everything that meets the filter, whole and in a single page.
    Hilo,
}

}
