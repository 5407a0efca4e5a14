use vstd::prelude::*;

verus! {

/// Every failure of the boundary layer as one inspectable value.
///
/// Engine failures carry the raw native status code; pointer and length
/// anomalies in returned lists, missing files and encoding problems each
/// have a variant of their own, so that no condition has to terminate the
/// process.
#[derive(Debug, PartialEq, Eq)]
pub enum Error {
    /// The engine reported a nonzero status for a lexicon mutation.
    HunspellLibError(i32),
    /// A returned list carried a negative element count.
    NegativeListLength(i32),
    /// A returned list, or one of its elements, was a null pointer.
    NullPtr,
    /// The affix path does not name an existing regular file.
    AffixFileIsNoFile(String),
    /// The dictionary path does not name an existing regular file.
    DictionaryFileIsNoFile(String),
    /// A session already holds the maximum of twenty additional dictionaries.
    CannotAddMoreDictionaries(String),
    /// The engine returned a null handle on construction.
    EngineConstructionFailed,
    /// Bytes of a returned list element are not valid UTF-8.
    Utf8Error,
    /// An input holds an embedded NUL byte and cannot become a C string.
    NulError,
}

} // verus!
