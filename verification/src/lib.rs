//! Session management around the Hunspell spell-checking engine.
//!
//! The engine itself is an opaque native library driven through a C-style
//! interface; this crate owns the boundary layer around it: validating the
//! affix and dictionary paths of a session, keeping the session's
//! configuration (paths, additional dictionaries, optional decryption key)
//! with its invariants, rejecting words that could not be handed to the
//! engine as C strings, interpreting the engine's status codes, and decoding
//! the string lists the engine returns.

mod error;
mod native_list;
mod paths;
mod spell_checker;
mod views;

pub use error::Error;
pub use native_list::{
    decoded_entry, entry_ok, list_to_vec, spec_decode, spec_decode_entries, NativeStringList,
};
pub use paths::{
    check_paths, classify_paths, has_nul_byte, lemma_nul_byte_iff_nul_char, str_has_nul,
    validate_word,
};
pub use spell_checker::{
    dictionary_added, engine_opened, engine_status, lemma_parts_round_trip, parts_view,
    spell_result, ConfigView, SpellChecker,
};
pub use views::{key_view, string_views};
