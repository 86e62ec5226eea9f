//! Header names and values as text, their validation and the canonical
//! (lowercase) form of a name, together with the map model of a header list.
//!
//! `http_types` accepts any ASCII string as a header name or value; names are
//! folded to lowercase, which is what makes name lookup case-insensitive.

use vstd::prelude::*;

verus! {

/// Text that HTTP headers accept: ASCII characters only.
pub open spec fn ascii_text(s: Seq<char>) -> bool {
    vstd::utf8::is_ascii_chars(s)
}

/// ASCII lowercasing of one character, as header names are folded.
pub open spec fn fold_char(c: char) -> char {
    if 'A' <= c && c <= 'Z' {
        (((c as u8) + 32) as char)
    } else {
        c
    }
}

/// The canonical form of a header name: every character lowercased.
pub open spec fn canonical_name(s: Seq<char>) -> Seq<char> {
    s.map_values(|c: char| fold_char(c))
}

/// A name already in canonical form: ASCII with no uppercase letter left.
pub open spec fn is_canonical_name(s: Seq<char>) -> bool {
    ascii_text(s) && forall|i: int| 0 <= i < s.len() ==> !('A' <= #[trigger] s[i] && s[i] <= 'Z')
}

/// Folding an ASCII name yields a canonical name, and folding a canonical
/// name leaves it unchanged.
pub proof fn lemma_canonical_name_folds(s: Seq<char>)
    ensures
        ascii_text(s) ==> is_canonical_name(canonical_name(s)),
        is_canonical_name(s) ==> canonical_name(s) == s,
{
    if ascii_text(s) {
        assert forall|i: int| 0 <= i < canonical_name(s).len() implies !('A'
            <= #[trigger] canonical_name(s)[i] && canonical_name(s)[i] <= 'Z') by {
            assert(canonical_name(s)[i] == fold_char(s[i]));
        }
        assert(ascii_text(canonical_name(s))) by {
            assert forall|i: int| 0 <= i < canonical_name(s).len() implies '\0'
                <= #[trigger] canonical_name(s)[i] <= '\u{7f}' by {
                assert(canonical_name(s)[i] == fold_char(s[i]));
                assert('\0' <= s[i] <= '\u{7f}');
            }
        }
    }
    if is_canonical_name(s) {
        assert(canonical_name(s) =~= s);
    }
}

/// Relies on `http_types::headers::HeaderName::from_string`: it accepts
/// exactly the ASCII strings and folds them to ASCII lowercase.
#[verifier::external_body]
pub(crate) fn parse_header_name(s: &str) -> (r: Option<String>)
    ensures
        r is Some <==> s.is_ascii(),
        r matches Some(n) ==> n@ == canonical_name(s@),
{
    match http_types::headers::HeaderName::from_string(s.to_string()) {
        Ok(n) => Some(n.as_str().to_string()),
        Err(_) => None,
    }
}

/// Relies on `http_types::headers::HeaderValue`'s `FromStr`: it accepts
/// exactly the ASCII strings and stores them unchanged.
#[verifier::external_body]
pub(crate) fn parse_header_value(s: &str) -> (r: Option<String>)
    ensures
        r is Some <==> s.is_ascii(),
        r matches Some(v) ==> v@ == s@,
{
    match <http_types::headers::HeaderValue as std::str::FromStr>::from_str(s) {
        Ok(v) => Some(v.as_str().to_string()),
        Err(_) => None,
    }
}

/// The mapping that a list of header entries denotes: each entry's name
/// points at its ordered list of values. With unique names the order of the
/// entries themselves does not matter.
pub open spec fn entries_map(entries: Seq<(String, Vec<String>)>) -> Map<Seq<char>, Seq<Seq<char>>>
    decreases entries.len(),
{
    if entries.len() == 0 {
        Map::empty()
    } else {
        entries_map(entries.drop_last()).insert(
            entries.last().0@,
            entries.last().1.deep_view(),
        )
    }
}

/// Entry names are pairwise distinct.
pub open spec fn unique_names(entries: Seq<(String, Vec<String>)>) -> bool {
    forall|i: int, j: int| 0 <= i < j < entries.len() ==> entries[i].0@ != entries[j].0@
}

/// A name carried by none of the entries is absent from their map.
pub proof fn lemma_entries_map_absent(entries: Seq<(String, Vec<String>)>, name: Seq<char>)
    requires
        forall|j: int| 0 <= j < entries.len() ==> entries[j].0@ != name,
    ensures
        !entries_map(entries).contains_key(name),
    decreases entries.len(),
{
    if entries.len() > 0 {
        lemma_entries_map_absent(entries.drop_last(), name);
    }
}

/// With unique names, the map sends each entry's name to that entry's values.
pub proof fn lemma_entries_map_at(entries: Seq<(String, Vec<String>)>, i: int)
    requires
        0 <= i < entries.len(),
        unique_names(entries),
    ensures
        entries_map(entries).contains_key(entries[i].0@),
        entries_map(entries)[entries[i].0@] == entries[i].1.deep_view(),
    decreases entries.len(),
{
    if i < entries.len() - 1 {
        lemma_entries_map_at(entries.drop_last(), i);
    }
}

/// Replacing the entry at `i` by one with the same name updates the map at
/// that name alone.
pub proof fn lemma_entries_map_update(
    entries: Seq<(String, Vec<String>)>,
    i: int,
    e: (String, Vec<String>),
)
    requires
        0 <= i < entries.len(),
        unique_names(entries),
        e.0@ == entries[i].0@,
    ensures
        entries_map(entries.update(i, e)) == entries_map(entries).insert(e.0@, e.1.deep_view()),
    decreases entries.len(),
{
    let n = entries.len() - 1;
    if i == n {
        assert(entries.update(i, e).drop_last() =~= entries.drop_last());
        assert(entries.update(i, e).last() == e);
        assert(entries_map(entries.update(i, e)) =~= entries_map(entries).insert(
            e.0@,
            e.1.deep_view(),
        ));
    } else {
        lemma_entries_map_update(entries.drop_last(), i, e);
        assert(entries.update(i, e).drop_last() =~= entries.drop_last().update(i, e));
        assert(entries.update(i, e).last() == entries.last());
        assert(entries_map(entries.update(i, e)) =~= entries_map(entries).insert(
            e.0@,
            e.1.deep_view(),
        ));
    }
}

/// Taking one more entry extends the prefix's map at that entry's name.
pub proof fn lemma_entries_map_take_step(entries: Seq<(String, Vec<String>)>, i: int)
    requires
        0 <= i < entries.len(),
    ensures
        entries_map(entries.take(i + 1)) == entries_map(entries.take(i)).insert(
            entries[i].0@,
            entries[i].1.deep_view(),
        ),
{
    assert(entries.take(i + 1).drop_last() =~= entries.take(i));
    assert(entries.take(i + 1).last() == entries[i]);
}

} // verus!
