use vstd::prelude::*;
use vstd::utf8::{decode_utf8, valid_utf8};

use crate::error::Error;
use crate::views::string_views;

verus! {

/// One string list returned by the engine: the array pointer's nullness, the
/// signed element count the engine reported, and the element bytes already
/// copied out of native memory. `entries[i]` is `None` where the i-th element
/// pointer was null, else that element's bytes up to its terminating NUL.
pub struct NativeStringList {
    pub list_is_null: bool,
    pub count: i32,
    pub entries: Vec<Option<Vec<u8>>>,
}

impl NativeStringList {
    /// The copied entries match the reported count whenever the count says
    /// there is anything to read at all.
    pub open spec fn wf(self) -> bool {
        !self.list_is_null && self.count > 0 ==> self.entries@.len() == self.count as int
    }
}

/// An element was read (its pointer was not null) and its bytes are text.
pub open spec fn entry_ok(e: Option<Vec<u8>>) -> bool {
    e matches Some(b) && valid_utf8(b@)
}

/// The characters an element decodes to.
pub open spec fn decoded_entry(e: Option<Vec<u8>>) -> Seq<char> {
    match e {
        Some(b) => decode_utf8(b@),
        None => Seq::empty(),
    }
}

/// Every element of a sequence of copied entries, decoded.
pub open spec fn decoded_entries(s: Seq<Option<Vec<u8>>>) -> Seq<Seq<char>> {
    s.map_values(|e: Option<Vec<u8>>| decoded_entry(e))
}

/// What decoding the copied elements yields, element by element: the first
/// null element is a `NullPtr` error, the first non-UTF-8 element an
/// `Utf8Error`, otherwise every element as its decoded characters.
pub open spec fn spec_decode_entries(entries: Seq<Option<Vec<u8>>>) -> Result<
    Seq<Seq<char>>,
    Error,
>
    decreases entries.len(),
{
    if entries.len() == 0 {
        Ok(Seq::empty())
    } else if !(entries[0] matches Some(b)) {
        Err(Error::NullPtr)
    } else if !valid_utf8(entries[0]->0@) {
        Err(Error::Utf8Error)
    } else {
        match spec_decode_entries(entries.drop_first()) {
            Ok(rest) => Ok(seq![decoded_entry(entries[0])] + rest),
            Err(e) => Err(e),
        }
    }
}

/// What decoding a whole list yields: a null array with a nonzero count is a
/// `NullPtr` error, a negative count a `NegativeListLength` error, a zero
/// count an empty sequence whatever the pointer was, and otherwise the
/// elements are decoded in order.
pub open spec fn spec_decode(l: NativeStringList) -> Result<Seq<Seq<char>>, Error> {
    if l.list_is_null && l.count != 0 {
        Err(Error::NullPtr)
    } else if l.count < 0 {
        Err(Error::NegativeListLength(l.count))
    } else if l.count == 0 {
        Ok(Seq::empty())
    } else {
        spec_decode_entries(l.entries@)
    }
}

/// Relies on String::from_utf8: it returns `Ok` exactly on valid UTF-8, and
/// then the string holds the decoded characters of the given bytes.
#[verifier::external_body]
fn string_from_utf8(bytes: Vec<u8>) -> (r: Option<String>)
    ensures
        r is Some <==> valid_utf8(bytes@),
        r matches Some(s) ==> s@ == decode_utf8(bytes@),
{
    String::from_utf8(bytes).ok()
}

/// Decoding all of a sequence equals decoding a fully-good prefix and the
/// rest separately.
proof fn lemma_decode_entries_prefix(entries: Seq<Option<Vec<u8>>>, i: int)
    requires
        0 <= i <= entries.len(),
        forall|j: int| 0 <= j < i ==> entry_ok(#[trigger] entries[j]),
    ensures
        spec_decode_entries(entries.skip(i)) matches Ok(rest) ==> spec_decode_entries(entries)
            == Ok::<Seq<Seq<char>>, Error>(decoded_entries(entries.take(i)) + rest),
        spec_decode_entries(entries.skip(i)) matches Err(e) ==> spec_decode_entries(entries)
            == Err::<Seq<Seq<char>>, Error>(e),
    decreases i,
{
    if i == 0 {
        assert(entries.skip(0) =~= entries);
        match spec_decode_entries(entries) {
            Ok(rest) => {
                assert(decoded_entries(entries.take(0)) + rest =~= rest);
            },
            Err(_) => {},
        }
    } else {
        lemma_decode_entries_prefix(entries, i - 1);
        let tail_prev = entries.skip(i - 1);
        let tail = entries.skip(i);
        assert(tail_prev.len() > 0);
        assert(tail_prev[0] == entries[i - 1]);
        assert(tail_prev.drop_first() =~= tail);
        assert(entry_ok(entries[i - 1]));
        match spec_decode_entries(tail) {
            Ok(rest) => {
                assert(spec_decode_entries(tail_prev) == Ok::<Seq<Seq<char>>, Error>(
                    seq![decoded_entry(entries[i - 1])] + rest,
                ));
                assert(decoded_entries(entries.take(i - 1)) + (seq![decoded_entry(
                    entries[i - 1],
                )] + rest) =~= decoded_entries(entries.take(i)) + rest);
            },
            Err(_) => {
                assert(spec_decode_entries(tail_prev) == spec_decode_entries(tail));
            },
        }
    }
}

/// Converts a list the engine returned into host-owned strings, exactly as
/// `spec_decode` says: every element must have been read and must be valid
/// UTF-8, and the elements keep their order.
pub fn list_to_vec(list: NativeStringList) -> (r: Result<Vec<String>, Error>)
    requires
        list.wf(),
    ensures
        r matches Ok(v) ==> (spec_decode(list) matches Ok(s) && string_views(v@) == s),
        r matches Err(e) ==> (spec_decode(list) matches Err(e2) && e == e2),
{
    let NativeStringList { list_is_null, count, entries } = list;
    if list_is_null && count != 0 {
        return Err(Error::NullPtr);
    }
    if count < 0 {
        return Err(Error::NegativeListLength(count));
    }
    if count == 0 {
        return Ok(Vec::new());
    }
    let ghost entries0 = entries@;
    let mut remaining = entries;
    let mut out: Vec<String> = Vec::new();
    let mut i: usize = 0;
    while remaining.len() > 0
        invariant
            !list.list_is_null,
            list.count > 0,
            list.entries@ == entries0,
            entries0.len() == list.count as int,
            i + remaining@.len() == entries0.len(),
            remaining@ =~= entries0.skip(i as int),
            forall|j: int| 0 <= j < i ==> entry_ok(#[trigger] entries0[j]),
            string_views(out@) =~= decoded_entries(entries0.take(i as int)),
        decreases remaining@.len(),
    {
        let ghost head = entries0[i as int];
        assert(remaining@[0] == head);
        let e = remaining.remove(0);
        assert(remaining@ =~= entries0.skip(i as int + 1));
        match e {
            None => {
                proof {
                    let tail = entries0.skip(i as int);
                    assert(tail.len() > 0);
                    assert(tail[0] == head);
                    assert(spec_decode_entries(tail) == Err::<Seq<Seq<char>>, Error>(
                        Error::NullPtr,
                    ));
                    lemma_decode_entries_prefix(entries0, i as int);
                    assert(spec_decode(list) == Err::<Seq<Seq<char>>, Error>(Error::NullPtr));
                }
                return Err(Error::NullPtr);
            },
            Some(bytes) => {
                match string_from_utf8(bytes) {
                    None => {
                        proof {
                            let tail = entries0.skip(i as int);
                            assert(tail.len() > 0);
                            assert(tail[0] == head);
                            assert(spec_decode_entries(tail) == Err::<Seq<Seq<char>>, Error>(
                                Error::Utf8Error,
                            ));
                            lemma_decode_entries_prefix(entries0, i as int);
                            assert(spec_decode(list) == Err::<Seq<Seq<char>>, Error>(
                                Error::Utf8Error,
                            ));
                        }
                        return Err(Error::Utf8Error);
                    },
                    Some(s) => {
                        let ghost pre = out@;
                        out.push(s);
                        proof {
                            assert(entry_ok(head));
                            assert(out@ == pre.push(s));
                            assert(string_views(pre).len() == pre.len());
                            assert(decoded_entries(entries0.take(i as int)).len() == i as int);
                            assert(pre.len() == i as int);
                            assert(out@.len() == i as int + 1);
                            assert forall|j: int| 0 <= j < i as int + 1 implies string_views(out@)[j]
                                == decoded_entries(entries0.take(i as int + 1))[j] by {
                                assert(entries0.take(i as int + 1)[j] == entries0[j]);
                                if j < i as int {
                                    assert(out@[j] == pre[j]);
                                    assert(string_views(pre)[j] == decoded_entries(
                                        entries0.take(i as int),
                                    )[j]);
                                    assert(entries0.take(i as int)[j] == entries0[j]);
                                } else {
                                    assert(out@[j] == s);
                                }
                            }
                            assert(string_views(out@) =~= decoded_entries(
                                entries0.take(i as int + 1),
                            ));
                        }
                        i += 1;
                    },
                }
            },
        }
    }
    proof {
        assert(entries0.skip(i as int) =~= Seq::empty());
        lemma_decode_entries_prefix(entries0, i as int);
        assert(entries0.take(i as int) =~= entries0);
    }
    Ok(out)
}

} // verus!
