//! The blueprint for the response a mock server returns when a stubbed
//! expectation matches an incoming request.

use vstd::prelude::*;

use crate::headers::{
    ascii_text, canonical_name, entries_map, is_canonical_name, lemma_canonical_name_folds,
    lemma_entries_map_absent, lemma_entries_map_at, lemma_entries_map_take_step,
    lemma_entries_map_update, parse_header_name, parse_header_value, unique_names,
};
use crate::response::{
    empty_headers, materialized_body, materialized_headers, response_append_header, response_body,
    response_headers, response_new, response_set_body, response_status,
};
use crate::status::{is_valid_status, status_code_accepted};
use vstd::pervasive::unreached;

verus! {

/// A not-yet-materialized description of an HTTP response: a status code, a
/// header map, and an optional body.
///
/// Header names are kept in their canonical (ASCII lowercase) form, each with
/// the ordered, non-empty list of its values; a name missing from the map has
/// no values declared for it. The body, when present, is a verbatim byte
/// payload.
#[derive(Clone, Debug, PartialEq)]
pub struct ResponseTemplate {
    status: u16,
    headers: Vec<(String, Vec<String>)>,
    body: Option<Vec<u8>>,
}

impl ResponseTemplate {
    /// The template's status code.
    pub closed spec fn status_spec(self) -> u16 {
        self.status
    }

    /// The template's header map: each canonical name with its ordered
    /// values.
    pub closed spec fn headers_map(self) -> Map<Seq<char>, Seq<Seq<char>>> {
        entries_map(self.headers@)
    }

    /// The values declared under a canonical header name, in order; empty
    /// when the name was never given a value.
    pub open spec fn values_of(self, name: Seq<char>) -> Seq<Seq<char>> {
        if self.headers_map().contains_key(name) {
            self.headers_map()[name]
        } else {
            Seq::empty()
        }
    }

    /// The template's body: `None` when no body was ever set.
    pub closed spec fn body_spec(self) -> Option<Seq<u8>> {
        match self.body {
            Some(b) => Some(b@),
            None => None,
        }
    }

    /// Well-formedness: the status code is valid, every stored name is
    /// canonical and unique, and every name carries a non-empty list of
    /// ASCII values.
    pub closed spec fn wf(self) -> bool {
        &&& is_valid_status(self.status)
        &&& unique_names(self.headers@)
        &&& forall|i: int|
            0 <= i < self.headers@.len() ==> is_canonical_name(#[trigger] self.headers@[i].0@)
        &&& forall|i: int|
            0 <= i < self.headers@.len() ==> (#[trigger] self.headers@[i].1@.len()) > 0
        &&& forall|i: int, j: int|
            0 <= i < self.headers@.len() && 0 <= j < self.headers@[i].1@.len() ==> ascii_text(
                #[trigger] self.headers@[i].1@[j]@,
            )
    }

    /// Start building a template with the given status code, no headers and
    /// no body. The code must be one that HTTP defines; `try_new` checks that
    /// at run time.
    pub fn new(code: u16) -> (r: ResponseTemplate)
        requires
            is_valid_status(code),
        ensures
            r.wf(),
            r.status_spec() == code,
            r.headers_map() == empty_headers(),
            r.body_spec() is None,
    {
        ResponseTemplate { status: code, headers: Vec::new(), body: None }
    }

    /// Start building a template, rejecting a status code that HTTP does not
    /// define instead of producing a template.
    pub fn try_new(code: u16) -> (r: Option<ResponseTemplate>)
        ensures
            r is Some <==> is_valid_status(code),
            r matches Some(t) ==> {
                &&& t.wf()
                &&& t.status_spec() == code
                &&& t.headers_map() == empty_headers()
                &&& t.body_spec() is None
            },
    {
        if status_code_accepted(code) {
            Some(ResponseTemplate::new(code))
        } else {
            None
        }
    }

    /// The index of the entry holding `name`, if any.
    fn position_of(headers: &Vec<(String, Vec<String>)>, name: &String) -> (r: Option<usize>)
        ensures
            r matches Some(i) ==> i < headers@.len() && headers@[i as int].0@ == name@,
            r is None ==> forall|j: int| 0 <= j < headers@.len() ==> headers@[j].0@ != name@,
    {
        let mut i: usize = 0;
        while i < headers.len()
            invariant
                i <= headers@.len(),
                forall|j: int| 0 <= j < i ==> headers@[j].0@ != name@,
            decreases headers@.len() - i,
        {
            if headers[i].0 == *name {
                return Some(i);
            }
            i += 1;
        }
        None
    }

    /// Append `value` at the end of the list held under the canonical `name`,
    /// starting a fresh single-element list when the name is new.
    fn append_entry(self, name: String, value: String) -> (r: ResponseTemplate)
        requires
            self.wf(),
            is_canonical_name(name@),
            ascii_text(value@),
        ensures
            r.wf(),
            r.status_spec() == self.status_spec(),
            r.body_spec() == self.body_spec(),
            r.headers_map() == self.headers_map().insert(
                name@,
                self.values_of(name@).push(value@),
            ),
    {
        let ghost entries0 = self.headers@;
        let mut this = self;
        match Self::position_of(&this.headers, &name) {
            Some(i) => {
                let mut entry = this.headers.remove(i);
                let ghost values0 = entry.1.deep_view();
                entry.1.push(value);
                proof {
                    assert(entry.1.deep_view() =~= values0.push(value@));
                }
                this.headers.insert(i, entry);
                proof {
                    assert(this.headers@ =~= entries0.update(i as int, entry));
                    lemma_entries_map_at(entries0, i as int);
                    lemma_entries_map_update(entries0, i as int, entry);
                    assert(unique_names(this.headers@));
                }
                this
            },
            None => {
                let mut values: Vec<String> = Vec::new();
                values.push(value);
                this.headers.push((name, values));
                proof {
                    assert(this.headers@.drop_last() =~= entries0);
                    lemma_entries_map_absent(entries0, name@);
                    assert(this.headers@.last().1.deep_view() =~= self.values_of(name@).push(
                        value@,
                    ));
                    assert(unique_names(this.headers@));
                }
                this
            },
        }
    }

    /// Replace whatever list is held under the canonical `name` by the
    /// single-element list of `value`.
    fn replace_entry(self, name: String, value: String) -> (r: ResponseTemplate)
        requires
            self.wf(),
            is_canonical_name(name@),
            ascii_text(value@),
        ensures
            r.wf(),
            r.status_spec() == self.status_spec(),
            r.body_spec() == self.body_spec(),
            r.headers_map() == self.headers_map().insert(name@, seq![value@]),
    {
        let ghost entries0 = self.headers@;
        let mut this = self;
        let mut values: Vec<String> = Vec::new();
        values.push(value);
        let ghost entry_view = values.deep_view();
        match Self::position_of(&this.headers, &name) {
            Some(i) => {
                let _ = this.headers.remove(i);
                this.headers.insert(i, (name, values));
                proof {
                    let e = this.headers@[i as int];
                    assert(this.headers@ =~= entries0.update(i as int, e));
                    lemma_entries_map_update(entries0, i as int, e);
                    assert(e.1.deep_view() =~= seq![value@]);
                    assert(unique_names(this.headers@));
                }
                this
            },
            None => {
                this.headers.push((name, values));
                proof {
                    assert(this.headers@.drop_last() =~= entries0);
                    assert(this.headers@.last().1.deep_view() =~= seq![value@]);
                    assert(unique_names(this.headers@));
                }
                this
            },
        }
    }

    /// Append a header `value` to the list of values held under `key`.
    ///
    /// Unlike `insert_header` this does not override the contents of a
    /// header: a new name starts a single-element list, a known name has the
    /// value appended at the end of its list. The name is folded to its
    /// canonical lowercase form first. Both texts must be ASCII;
    /// `try_append_header` checks that at run time.
    pub fn append_header(self, key: &str, value: &str) -> (r: ResponseTemplate)
        requires
            self.wf(),
            key.is_ascii(),
            value.is_ascii(),
        ensures
            r.wf(),
            r.status_spec() == self.status_spec(),
            r.body_spec() == self.body_spec(),
            r.headers_map() == self.headers_map().insert(
                canonical_name(key@),
                self.values_of(canonical_name(key@)).push(value@),
            ),
    {
        let name = match parse_header_name(key) {
            Some(n) => n,
            None => unreached(),
        };
        let val = match parse_header_value(value) {
            Some(v) => v,
            None => unreached(),
        };
        proof {
            lemma_canonical_name_folds(key@);
        }
        self.append_entry(name, val)
    }

    /// `append_header`, rejecting non-ASCII input instead of requiring it
    /// away: `None` exactly when the name or the value is not ASCII.
    pub fn try_append_header(self, key: &str, value: &str) -> (r: Option<ResponseTemplate>)
        requires
            self.wf(),
        ensures
            r is Some <==> key.is_ascii() && value.is_ascii(),
            r matches Some(t) ==> {
                &&& t.wf()
                &&& t.status_spec() == self.status_spec()
                &&& t.body_spec() == self.body_spec()
                &&& t.headers_map() == self.headers_map().insert(
                    canonical_name(key@),
                    self.values_of(canonical_name(key@)).push(value@),
                )
            },
    {
        match (parse_header_name(key), parse_header_value(value)) {
            (Some(name), Some(val)) => {
                proof {
                    lemma_canonical_name_folds(key@);
                }
                Some(self.append_entry(name, val))
            },
            _ => None,
        }
    }

    /// Insert a header `value` under `key`, discarding any values the name
    /// already held: afterwards the name holds exactly the one given value.
    /// The name is folded to its canonical lowercase form first. Both texts
    /// must be ASCII; `try_insert_header` checks that at run time.
    pub fn insert_header(self, key: &str, value: &str) -> (r: ResponseTemplate)
        requires
            self.wf(),
            key.is_ascii(),
            value.is_ascii(),
        ensures
            r.wf(),
            r.status_spec() == self.status_spec(),
            r.body_spec() == self.body_spec(),
            r.headers_map() == self.headers_map().insert(canonical_name(key@), seq![value@]),
    {
        let name = match parse_header_name(key) {
            Some(n) => n,
            None => unreached(),
        };
        let val = match parse_header_value(value) {
            Some(v) => v,
            None => unreached(),
        };
        proof {
            lemma_canonical_name_folds(key@);
        }
        self.replace_entry(name, val)
    }

    /// `insert_header`, rejecting non-ASCII input instead of requiring it
    /// away: `None` exactly when the name or the value is not ASCII.
    pub fn try_insert_header(self, key: &str, value: &str) -> (r: Option<ResponseTemplate>)
        requires
            self.wf(),
        ensures
            r is Some <==> key.is_ascii() && value.is_ascii(),
            r matches Some(t) ==> {
                &&& t.wf()
                &&& t.status_spec() == self.status_spec()
                &&& t.body_spec() == self.body_spec()
                &&& t.headers_map() == self.headers_map().insert(
                    canonical_name(key@),
                    seq![value@],
                )
            },
    {
        match (parse_header_name(key), parse_header_value(value)) {
            (Some(name), Some(val)) => {
                proof {
                    lemma_canonical_name_folds(key@);
                }
                Some(self.replace_entry(name, val))
            },
            _ => None,
        }
    }

    /// Set the response body, replacing any body set before.
    pub fn set_body(self, body: Vec<u8>) -> (r: ResponseTemplate)
        ensures
            r.status_spec() == self.status_spec(),
            r.headers_map() == self.headers_map(),
            r.body_spec() == Some(body@),
            self.wf() ==> r.wf(),
    {
        ResponseTemplate { status: self.status, headers: self.headers, body: Some(body) }
    }

    /// The template's status code.
    pub fn status_code(&self) -> (r: u16)
        ensures
            r == self.status_spec(),
    {
        self.status
    }

    /// The body set on the template, if any.
    pub fn body(&self) -> (r: Option<&Vec<u8>>)
        ensures
            r matches Some(b) ==> self.body_spec() == Some(b@),
            r is None ==> self.body_spec() is None,
    {
        self.body.as_ref()
    }

    /// The values declared under `key`, which is folded to its canonical
    /// form first: in order, and empty when the header was never given a
    /// value (a name that is not ASCII names no header).
    pub fn header_values(&self, key: &str) -> (r: Vec<String>)
        requires
            self.wf(),
        ensures
            key.is_ascii() ==> r.deep_view() == self.values_of(canonical_name(key@)),
            !key.is_ascii() ==> r@.len() == 0,
    {
        proof {
            lemma_canonical_name_folds(key@);
        }
        match parse_header_name(key) {
            None => Vec::new(),
            Some(name) => {
                match Self::position_of(&self.headers, &name) {
                    None => {
                        proof {
                            lemma_entries_map_absent(self.headers@, name@);
                        }
                        Vec::new()
                    },
                    Some(i) => {
                        let vs = self.headers[i].1.clone();
                        proof {
                            lemma_entries_map_at(self.headers@, i as int);
                            assert forall|k: int|
                                0 <= k < vs.deep_view().len() implies vs.deep_view()[k]
                                == self.headers@[i as int].1.deep_view()[k] by {
                                assert(vstd::pervasive::cloned::<String>(
                                    self.headers@[i as int].1@[k],
                                    vs@[k],
                                ));
                            }
                            assert(vs.deep_view() =~= self.headers@[i as int].1.deep_view());
                        }
                        vs
                    },
                }
            },
        }
    }

    /// Generate a concrete response from the template: the stored status,
    /// under every stored name all its values in order, and the stored body
    /// verbatim (no bytes when none was set). The template is not consumed:
    /// the operation is repeatable and every call yields a response with the
    /// same contents.
    pub fn generate_response(&self) -> (r: http_types::Response)
        requires
            self.wf(),
        ensures
            response_status(r) == self.status_spec(),
            response_headers(r) == materialized_headers(*self),
            response_body(r) == materialized_body(*self),
    {
        let mut resp = response_new(self.status);
        let ghost entries = self.headers@;
        let mut i: usize = 0;
        while i < self.headers.len()
            invariant
                self.wf(),
                entries == self.headers@,
                i <= entries.len(),
                response_status(resp) == self.status,
                response_body(resp) == Seq::<u8>::empty(),
                response_headers(resp) == entries_map(entries.take(i as int)),
            decreases entries.len() - i,
        {
            let entry = &self.headers[i];
            let ghost prefix = entries_map(entries.take(i as int));
            let ghost name = entry.0@;
            proof {
                assert(forall|j: int|
                    0 <= j < entries.take(i as int).len() ==> entries.take(i as int)[j].0@
                        != name);
                lemma_entries_map_absent(entries.take(i as int), name);
            }
            let mut j: usize = 0;
            while j < entry.1.len()
                invariant
                    self.wf(),
                    entries == self.headers@,
                    i < entries.len(),
                    *entry == entries[i as int],
                    name == entry.0@,
                    prefix == entries_map(entries.take(i as int)),
                    !prefix.contains_key(name),
                    j <= entry.1@.len(),
                    response_status(resp) == self.status,
                    response_body(resp) == Seq::<u8>::empty(),
                    j == 0 ==> response_headers(resp) == prefix,
                    j > 0 ==> response_headers(resp) == prefix.insert(
                        name,
                        entry.1.deep_view().take(j as int),
                    ),
                decreases entry.1@.len() - j,
            {
                let ghost before = response_headers(resp);
                response_append_header(&mut resp, &entry.0, &entry.1[j]);
                proof {
                    if j == 0 {
                        assert(seq![entry.1@[0]@] =~= entry.1.deep_view().take(1));
                    } else {
                        assert(before.contains_key(name));
                        assert(before[name].push(entry.1@[j as int]@) =~= entry.1.deep_view()
                            .take(j as int + 1));
                        assert(before.insert(name, entry.1.deep_view().take(j as int + 1))
                            =~= prefix.insert(name, entry.1.deep_view().take(j as int + 1)));
                    }
                }
                j += 1;
            }
            proof {
                assert(entry.1@.len() > 0);
                assert(entry.1.deep_view().take(entry.1@.len() as int) =~= entry.1.deep_view());
                lemma_entries_map_take_step(entries, i as int);
            }
            i += 1;
        }
        proof {
            assert(entries.take(entries.len() as int) =~= entries);
        }
        match &self.body {
            Some(b) => {
                response_set_body(&mut resp, b);
            },
            None => {},
        }
        resp
    }
}

} // verus!
