//! A safe, verified model of a bridge to a native Japanese text-analysis
//! toolkit: resource lifecycle management, text normalization, a
//! dictionary-backed analyzer, a linguistic feature list with an
//! extract/transform/rebuild protocol, and a label generator.

pub mod jpcommon;
pub mod mecab;
pub mod njd;
pub mod resource;
pub mod text2mecab;

pub use jpcommon::{JpCommon, JpCommonLabelFeature, JpCommonLabelFeatureIter};
pub use mecab::{Mecab, MecabDictionary, MecabDictionaryEntry, MecabFeature, MecabLoadError};
pub use njd::{Njd, NjdNode, Utf8LibcString};
pub use resource::{InitializeError, ManagedResource, Resource};
pub use text2mecab::{text2mecab, Text2MecabError};

use vstd::prelude::*;

verus! {

/// The native calls report success as the integer 1.
pub fn bool_number_to_bool(bool_number: i32) -> (b: bool)
    ensures
        b == (bool_number == 1),
{
    bool_number == 1
}

} // verus!
