//! The error of turning a wire request into its SDK form.
use vstd::prelude::*;

verus! {

/// Why a wire request could not be turned into its SDK form.
#[derive(Clone, Debug, PartialEq, Eq)]
pub enum ConvertFromError<E> {
    /// The request carried no plugin context.
    MissingPluginContext,
    /// The request's plugin context could not be converted.
    PluginContext(E),
}

} // verus!
