use vstd::prelude::*;

use crate::error::Error;
use crate::paths::{check_paths, path_is_file, str_has_nul, validate_word};
use crate::views::{key_view, string_views};

verus! {

/// The abstract configuration of a session: everything a caller may observe
/// of it except the native handle, and exactly what its serialization form
/// carries.
#[verifier::ext_equal]
pub struct ConfigView {
    pub affix: Seq<char>,
    pub dictionary: Seq<char>,
    pub additional_dictionaries: Seq<Seq<char>>,
    pub key: Option<Seq<char>>,
}

/// Assembles a configuration view from its four serialized parts.
pub open spec fn parts_view(
    affix: Seq<char>,
    dictionary: Seq<char>,
    additional_dictionaries: Seq<Seq<char>>,
    key: Option<Seq<char>>,
) -> ConfigView {
    ConfigView { affix, dictionary, additional_dictionaries, key }
}

/// A session's host-side state: the affix and dictionary paths it was opened
/// with, the additional dictionaries added so far (at most twenty, in the
/// order they were added), and the optional decryption key.
///
/// The native handle itself lives with whoever drives the engine; a session
/// value holds only what is needed to validate inputs, to enforce the
/// dictionary cap, and to reopen an equivalent session.
#[derive(Debug)]
pub struct SpellChecker {
    affix: String,
    dictionary: String,
    additional_dictionaries: Vec<String>,
    key: Option<String>,
}

impl View for SpellChecker {
    type V = ConfigView;

    closed spec fn view(&self) -> ConfigView {
        ConfigView {
            affix: self.affix@,
            dictionary: self.dictionary@,
            additional_dictionaries: string_views(self.additional_dictionaries@),
            key: key_view(self.key),
        }
    }
}

impl SpellChecker {
    /// At most twenty additional dictionaries, and nothing stored that could
    /// not be handed to the engine as a C string.
    #[verifier::type_invariant]
    spec fn wf(self) -> bool {
        &&& self.additional_dictionaries@.len() <= 20
        &&& !str_has_nul(self.affix@)
        &&& !str_has_nul(self.dictionary@)
        &&& forall|i: int|
            0 <= i < self.additional_dictionaries@.len() ==> !str_has_nul(
                #[trigger] self.additional_dictionaries@[i]@,
            )
        &&& (self.key matches Some(k) ==> !str_has_nul(k@))
    }

    /// Opens a session configuration for an affix file and a dictionary
    /// file. Both paths must name existing regular files and must be free of
    /// embedded NUL bytes; the additional-dictionary list starts empty and
    /// no key is stored.
    pub fn new(affix: String, dictionary: String) -> (r: Result<SpellChecker, Error>)
        ensures
            r matches Ok(s) ==> s@ == parts_view(affix@, dictionary@, Seq::empty(), None),
            r matches Ok(s) ==> !str_has_nul(affix@) && !str_has_nul(dictionary@),
            r matches Err(e) ==> match e {
                Error::AffixFileIsNoFile(p) => p@ == affix@,
                Error::DictionaryFileIsNoFile(p) => p@ == dictionary@,
                Error::NulError => str_has_nul(affix@) || str_has_nul(dictionary@),
                _ => false,
            },
    {
        let (affix_path, dictionary_path) = match check_paths(affix, dictionary) {
            Ok(p) => p,
            Err(e) => {
                return Err(e);
            },
        };
        if let Err(e) = validate_word(affix_path.as_str()) {
            return Err(e);
        }
        if let Err(e) = validate_word(dictionary_path.as_str()) {
            return Err(e);
        }
        let s = SpellChecker {
            affix: affix_path,
            dictionary: dictionary_path,
            additional_dictionaries: Vec::new(),
            key: None,
        };
        proof {
            assert(s@ =~= parts_view(affix@, dictionary@, Seq::empty(), None));
        }
        Ok(s)
    }

    /// Opens a session configuration for an encrypted dictionary: as `new`,
    /// with a decryption key that must itself be free of embedded NUL bytes.
    pub fn new_with_key(affix: String, dictionary: String, key: String) -> (r: Result<
        SpellChecker,
        Error,
    >)
        ensures
            r matches Ok(s) ==> s@ == parts_view(affix@, dictionary@, Seq::empty(), Some(key@)),
            r matches Ok(s) ==> !str_has_nul(affix@) && !str_has_nul(dictionary@) && !str_has_nul(
                key@,
            ),
            r matches Err(e) ==> match e {
                Error::AffixFileIsNoFile(p) => p@ == affix@,
                Error::DictionaryFileIsNoFile(p) => p@ == dictionary@,
                Error::NulError => str_has_nul(affix@) || str_has_nul(dictionary@) || str_has_nul(
                    key@,
                ),
                _ => false,
            },
    {
        let (affix_path, dictionary_path) = match check_paths(affix, dictionary) {
            Ok(p) => p,
            Err(e) => {
                return Err(e);
            },
        };
        if let Err(e) = validate_word(affix_path.as_str()) {
            return Err(e);
        }
        if let Err(e) = validate_word(dictionary_path.as_str()) {
            return Err(e);
        }
        if let Err(e) = validate_word(key.as_str()) {
            return Err(e);
        }
        let s = SpellChecker {
            affix: affix_path,
            dictionary: dictionary_path,
            additional_dictionaries: Vec::new(),
            key: Some(key),
        };
        proof {
            assert(s@ =~= parts_view(affix@, dictionary@, Seq::empty(), Some(key@)));
        }
        Ok(s)
    }

    /// The path of the affix file the session was opened with.
    pub fn affix(&self) -> (r: &String)
        ensures
            r@ == self@.affix,
    {
        &self.affix
    }

    /// The path of the dictionary file the session was opened with.
    pub fn dictionary(&self) -> (r: &String)
        ensures
            r@ == self@.dictionary,
    {
        &self.dictionary
    }

    /// The additional dictionaries added so far, in the order they were
    /// added. In every reachable state there are at most twenty of them.
    pub fn additional_dictionaries(&self) -> (r: &Vec<String>)
        ensures
            string_views(r@) == self@.additional_dictionaries,
            r@.len() <= 20,
            self@.additional_dictionaries.len() <= 20,
    {
        proof {
            use_type_invariant(self);
            assert(string_views(self.additional_dictionaries@).len()
                == self.additional_dictionaries@.len());
        }
        &self.additional_dictionaries
    }

    /// The decryption key the session was opened with, if any.
    pub fn key(&self) -> (r: &Option<String>)
        ensures
            key_view(*r) == self@.key,
    {
        &self.key
    }

    /// Decides whether a dictionary may be added now: the session must still
    /// be below the cap of twenty additional dictionaries, the path must
    /// name an existing regular file, and it must be free of embedded NUL
    /// bytes. Nothing is changed; run this before asking the engine.
    pub fn can_add_dictionary(&self, dictionary: &String) -> (r: Result<(), Error>)
        ensures
            r is Ok ==> self@.additional_dictionaries.len() < 20 && !str_has_nul(dictionary@),
            self@.additional_dictionaries.len() >= 20 ==> (r matches Err(e) && e
                matches Error::CannotAddMoreDictionaries(p) && p@ == dictionary@),
            r matches Err(e) ==> match e {
                Error::CannotAddMoreDictionaries(p) => p@ == dictionary@
                    && self@.additional_dictionaries.len() >= 20,
                Error::DictionaryFileIsNoFile(p) => p@ == dictionary@,
                Error::NulError => str_has_nul(dictionary@),
                _ => false,
            },
    {
        proof {
            use_type_invariant(self);
        }
        if self.additional_dictionaries.len() == 20 {
            return Err(Error::CannotAddMoreDictionaries(dictionary.clone()));
        }
        if !path_is_file(dictionary.as_str()) {
            return Err(Error::DictionaryFileIsNoFile(dictionary.clone()));
        }
        if let Err(e) = validate_word(dictionary.as_str()) {
            return Err(e);
        }
        Ok(())
    }

    /// Records an additional dictionary once the engine has been asked to
    /// load it; `status` is the engine's report for that call, zero meaning
    /// success. The same checks as `can_add_dictionary` are applied, and on
    /// any failure the session is left unchanged. The engine's answer is
    /// returned as a boolean, and the path is appended exactly when the
    /// engine took the dictionary: on `Ok(false)` the session is unchanged.
    pub fn add_dictionary(&mut self, dictionary: String, status: i32) -> (r: Result<bool, Error>)
        ensures
            r matches Ok(b) ==> b == (status == 0),
            r is Ok && status == 0 ==> final(self)@ == parts_view(
                old(self)@.affix,
                old(self)@.dictionary,
                old(self)@.additional_dictionaries.push(dictionary@),
                old(self)@.key,
            ),
            r is Ok && status != 0 ==> *final(self) == *old(self),
            r matches Err(e) ==> *final(self) == *old(self) && (match e {
                Error::CannotAddMoreDictionaries(p) => p@ == dictionary@ && old(
                    self,
                )@.additional_dictionaries.len() >= 20,
                Error::DictionaryFileIsNoFile(p) => p@ == dictionary@,
                Error::NulError => str_has_nul(dictionary@),
                _ => false,
            }),
            old(self)@.additional_dictionaries.len() >= 20 ==> (r matches Err(e) && e
                matches Error::CannotAddMoreDictionaries(p) && p@ == dictionary@),
    {
        proof {
            use_type_invariant(&*self);
        }
        if self.additional_dictionaries.len() == 20 {
            return Err(Error::CannotAddMoreDictionaries(dictionary));
        }
        if !path_is_file(dictionary.as_str()) {
            return Err(Error::DictionaryFileIsNoFile(dictionary));
        }
        if let Err(e) = validate_word(dictionary.as_str()) {
            return Err(e);
        }
        if status != 0 {
            return Ok(false);
        }
        let ghost dict_chars = dictionary@;
        let mut dicts: Vec<String> = Vec::new();
        std::mem::swap(&mut dicts, &mut self.additional_dictionaries);
        dicts.push(dictionary);
        proof {
            assert forall|i: int| 0 <= i < dicts@.len() implies !str_has_nul(
                #[trigger] dicts@[i]@,
            ) by {
                if i < dicts@.len() - 1 {
                    assert(dicts@[i] == old(self).additional_dictionaries@[i]);
                } else {
                    assert(dicts@[i]@ == dict_chars);
                }
            }
        }
        self.additional_dictionaries = dicts;
        proof {
            crate::views::lemma_string_views_push(
                old(self).additional_dictionaries@,
                self.additional_dictionaries@[self.additional_dictionaries@.len() - 1],
            );
            assert(final(self)@ =~= parts_view(
                old(self)@.affix,
                old(self)@.dictionary,
                old(self)@.additional_dictionaries.push(dict_chars),
                old(self)@.key,
            ));
        }
        Ok(true)
    }

    /// The serialization form of the session: affix path, dictionary path,
    /// additional dictionaries in order, and the optional key — never the
    /// native handle.
    pub fn config(&self) -> (r: (String, String, Vec<String>, Option<String>))
        ensures
            r.0@ == self@.affix,
            r.1@ == self@.dictionary,
            string_views(r.2@) == self@.additional_dictionaries,
            key_view(r.3) == self@.key,
    {
        proof {
            use_type_invariant(self);
        }
        let mut dicts: Vec<String> = Vec::new();
        let mut i: usize = 0;
        while i < self.additional_dictionaries.len()
            invariant
                i <= self.additional_dictionaries@.len(),
                string_views(dicts@) =~= string_views(self.additional_dictionaries@).take(i as int),
            decreases self.additional_dictionaries@.len() - i,
        {
            let d = self.additional_dictionaries[i].clone();
            let ghost pre = dicts@;
            dicts.push(d);
            proof {
                crate::views::lemma_string_views_push(pre, dicts@[pre.len() as int]);
                assert(string_views(dicts@) =~= string_views(self.additional_dictionaries@).take(
                    i as int + 1,
                ));
            }
            i += 1;
        }
        proof {
            assert(string_views(self.additional_dictionaries@).take(i as int) =~= string_views(
                self.additional_dictionaries@,
            ));
        }
        let key = match &self.key {
            Some(k) => Some(k.clone()),
            None => None,
        };
        (self.affix.clone(), self.dictionary.clone(), dicts, key)
    }

    /// Rebuilds a session configuration from its serialized parts: the two
    /// paths are validated as in `new`, and every additional dictionary is
    /// replayed in order through the same checks as `add_dictionary`. More
    /// than twenty additional dictionaries, a missing file or an embedded
    /// NUL byte anywhere fail the reconstruction.
    pub fn from_parts(
        affix: String,
        dictionary: String,
        additional_dictionaries: Vec<String>,
        key: Option<String>,
    ) -> (r: Result<SpellChecker, Error>)
        ensures
            r matches Ok(s) ==> s@ == parts_view(
                affix@,
                dictionary@,
                string_views(additional_dictionaries@),
                key_view(key),
            ),
            r matches Err(e) ==> match e {
                Error::AffixFileIsNoFile(p) => p@ == affix@,
                Error::DictionaryFileIsNoFile(p) => p@ == dictionary@ || string_views(
                    additional_dictionaries@,
                ).contains(p@),
                Error::CannotAddMoreDictionaries(p) => additional_dictionaries@.len() > 20
                    && string_views(additional_dictionaries@).contains(p@),
                Error::NulError => str_has_nul(affix@) || str_has_nul(dictionary@) || (
                key_view(key) matches Some(k) && str_has_nul(k)) || (exists|i: int|
                    0 <= i < additional_dictionaries@.len() && str_has_nul(
                        #[trigger] additional_dictionaries@[i]@,
                    )),
                _ => false,
            },
            additional_dictionaries@.len() > 20 ==> r is Err,
    {
        let mut s = match key {
            Some(k) => {
                match Self::new_with_key(affix, dictionary, k) {
                    Ok(s) => s,
                    Err(e) => {
                        return Err(e);
                    },
                }
            },
            None => {
                match Self::new(affix, dictionary) {
                    Ok(s) => s,
                    Err(e) => {
                        return Err(e);
                    },
                }
            },
        };
        let mut i: usize = 0;
        while i < additional_dictionaries.len()
            invariant
                i <= additional_dictionaries@.len(),
                i <= 20,
                s@.affix == affix@,
                s@.dictionary == dictionary@,
                s@.key == key_view(key),
                s@.additional_dictionaries =~= string_views(additional_dictionaries@).take(
                    i as int,
                ),
            decreases additional_dictionaries@.len() - i,
        {
            let d = additional_dictionaries[i].clone();
            if i == 20 {
                proof {
                    assert(string_views(additional_dictionaries@).contains(
                        string_views(additional_dictionaries@)[i as int],
                    ));
                }
                return Err(Error::CannotAddMoreDictionaries(d));
            }
            match s.add_dictionary(d, 0) {
                Ok(_) => {},
                Err(e) => {
                    proof {
                        assert(string_views(additional_dictionaries@)[i as int]
                            == additional_dictionaries@[i as int]@);
                        assert(string_views(additional_dictionaries@).contains(
                            string_views(additional_dictionaries@)[i as int],
                        ));
                    }
                    return Err(e);
                },
            }
            proof {
                assert(s@.additional_dictionaries =~= string_views(additional_dictionaries@).take(
                    i as int + 1,
                ));
            }
            i += 1;
        }
        proof {
            assert(string_views(additional_dictionaries@).take(i as int) =~= string_views(
                additional_dictionaries@,
            ));
            assert(s@ =~= parts_view(
                affix@,
                dictionary@,
                string_views(additional_dictionaries@),
                key_view(key),
            ));
        }
        Ok(s)
    }

    /// Produces an independent session configuration by re-validating the
    /// same paths and replaying every additional dictionary, in the original
    /// order. Where the original aborted if a file had meanwhile vanished,
    /// this reports the failure as a value.
    pub fn try_clone(&self) -> (r: Result<SpellChecker, Error>)
        ensures
            r matches Ok(t) ==> t@ == self@,
            r matches Err(e) ==> match e {
                Error::AffixFileIsNoFile(p) => p@ == self@.affix,
                Error::DictionaryFileIsNoFile(p) => p@ == self@.dictionary
                    || self@.additional_dictionaries.contains(p@),
                _ => false,
            },
    {
        proof {
            use_type_invariant(self);
        }
        let (affix, dictionary, additional_dictionaries, key) = self.config();
        let r = Self::from_parts(affix, dictionary, additional_dictionaries, key);
        match r {
            Ok(t) => {
                proof {
                    assert(t@ =~= self@);
                }
                Ok(t)
            },
            Err(e) => {
                proof {
                    use_type_invariant(self);
                    match e {
                        Error::NulError => {
                            if exists|i: int|
                                0 <= i < additional_dictionaries@.len() && str_has_nul(
                                    #[trigger] additional_dictionaries@[i]@,
                                ) {
                                let i = choose|i: int|
                                    0 <= i < additional_dictionaries@.len() && str_has_nul(
                                        #[trigger] additional_dictionaries@[i]@,
                                    );
                                assert(string_views(additional_dictionaries@).len()
                                    == additional_dictionaries@.len());
                                assert(string_views(self.additional_dictionaries@).len()
                                    == self.additional_dictionaries@.len());
                                assert(string_views(additional_dictionaries@)[i]
                                    == additional_dictionaries@[i]@);
                                assert(string_views(self.additional_dictionaries@)[i]
                                    == self.additional_dictionaries@[i]@);
                                assert(false);
                            }
                            match &self.key {
                                Some(k0) => {
                                    assert(!str_has_nul(k0@));
                                },
                                None => {},
                            }
                            assert(false);
                        },
                        Error::CannotAddMoreDictionaries(_) => {
                            assert(string_views(self.additional_dictionaries@).len()
                                == self.additional_dictionaries@.len());
                            assert(false);
                        },
                        _ => {},
                    }
                }
                Err(e)
            },
        }
    }
}

/// Interprets the handle the engine returned at construction: a null handle
/// means the engine could not be built from the given files.
pub fn engine_opened(handle_is_null: bool) -> (r: Result<(), Error>)
    ensures
        r is Ok <==> !handle_is_null,
        r matches Err(e) ==> e == Error::EngineConstructionFailed,
{
    if handle_is_null {
        Err(Error::EngineConstructionFailed)
    } else {
        Ok(())
    }
}

/// Interprets the engine's status for a lexicon mutation: zero is success,
/// anything else is surfaced with its code.
pub fn engine_status(status: i32) -> (r: Result<(), Error>)
    ensures
        r is Ok <==> status == 0,
        r matches Err(e) ==> e == Error::HunspellLibError(status),
{
    if status == 0 {
        Ok(())
    } else {
        Err(Error::HunspellLibError(status))
    }
}

/// Interprets the engine's spell answer: the native return is not a boolean;
/// zero means misspelled and anything nonzero means correctly spelled.
pub fn spell_result(status: i32) -> (r: bool)
    ensures
        r == (status != 0),
{
    status != 0
}

/// Interprets the engine's answer to a dictionary add: zero means the
/// dictionary was taken.
pub fn dictionary_added(status: i32) -> (r: bool)
    ensures
        r == (status == 0),
{
    status == 0
}

/// The serialization form loses nothing: the four parts of a configuration
/// view assemble back to that very view.
pub proof fn lemma_parts_round_trip(v: ConfigView)
    ensures
        parts_view(v.affix, v.dictionary, v.additional_dictionaries, v.key) == v,
{
    assert(parts_view(v.affix, v.dictionary, v.additional_dictionaries, v.key) =~= v);
}

} // verus!
