use vstd::prelude::*;

verus! {

/// The character sequences of a vector of strings.
pub open spec fn string_views(v: Seq<String>) -> Seq<Seq<char>> {
    v.map_values(|x: String| x@)
}

/// The characters of an optional string.
pub open spec fn key_view(k: Option<String>) -> Option<Seq<char>> {
    match k {
        Some(s) => Some(s@),
        None => None,
    }
}

/// Appending a string appends exactly its characters to the views.
pub proof fn lemma_string_views_push(v: Seq<String>, s: String)
    ensures
        string_views(v.push(s)) =~= string_views(v).push(s@),
{
    assert(string_views(v.push(s)).len() == v.len() + 1);
    assert(string_views(v).push(s@).len() == v.len() + 1);
    assert forall|j: int| 0 <= j < v.len() + 1 implies string_views(v.push(s))[j] == string_views(
        v,
    ).push(s@)[j] by {
        if j < v.len() {
            assert(v.push(s)[j] == v[j]);
            assert(string_views(v)[j] == v[j]@);
        } else {
            assert(v.push(s)[j] == s);
        }
    }
}

} // verus!
