//! Laws that the template operations obey, stated over the same views their
//! contracts use and proved once for all templates.
//!
//! Each law speaks of templates related as the operations' `ensures` clauses
//! relate them, so it applies to any chain of calls that built them.

use vstd::prelude::*;

use crate::response::{materialized_body, materialized_headers};
use crate::response_template::ResponseTemplate;

verus! {

/// Appending under one name accumulates: on a template where the name holds
/// no values yet, a first append yields the single-element list and a second
/// append the two values in order, while every other name keeps exactly the
/// values it had.
pub proof fn lemma_append_header_accumulates(
    t0: ResponseTemplate,
    t1: ResponseTemplate,
    t2: ResponseTemplate,
    name: Seq<char>,
    v1: Seq<char>,
    v2: Seq<char>,
)
    requires
        t0.values_of(name) == Seq::<Seq<char>>::empty(),
        t1.headers_map() == t0.headers_map().insert(name, t0.values_of(name).push(v1)),
        t2.headers_map() == t1.headers_map().insert(name, t1.values_of(name).push(v2)),
    ensures
        t1.values_of(name) == seq![v1],
        t2.values_of(name) == seq![v1, v2],
        forall|other: Seq<char>| other != name ==> t1.values_of(other) == t0.values_of(other),
        forall|other: Seq<char>| other != name ==> t2.values_of(other) == t0.values_of(other),
{
    assert(t0.values_of(name).push(v1) =~= seq![v1]);
    assert(t1.values_of(name).push(v2) =~= seq![v1, v2]);
}

/// Inserting replaces rather than accumulates: after an append of `v1` under
/// a name, an insert of `v2` leaves exactly the single-element list of `v2`
/// there, and every other name keeps exactly the values it had.
pub proof fn lemma_insert_header_replaces(
    t0: ResponseTemplate,
    t1: ResponseTemplate,
    t2: ResponseTemplate,
    name: Seq<char>,
    v1: Seq<char>,
    v2: Seq<char>,
)
    requires
        t1.headers_map() == t0.headers_map().insert(name, t0.values_of(name).push(v1)),
        t2.headers_map() == t1.headers_map().insert(name, seq![v2]),
    ensures
        t2.values_of(name) == seq![v2],
        forall|other: Seq<char>| other != name ==> t2.values_of(other) == t0.values_of(other),
{
}

/// The last body written wins: after setting a body twice, the template
/// holds the second one, and a template that never had a body set
/// materializes with no body bytes at all.
pub proof fn lemma_set_body_last_wins(
    t0: ResponseTemplate,
    t1: ResponseTemplate,
    t2: ResponseTemplate,
    b1: Seq<u8>,
    b2: Seq<u8>,
)
    requires
        t1.body_spec() == Some(b1),
        t2.body_spec() == Some(b2),
        t0.body_spec() is None,
    ensures
        t2.body_spec() == Some(b2),
        materialized_body(t2) == b2,
        materialized_body(t0) == Seq::<u8>::empty(),
{
}

/// Materialization is repeatable: any two responses generated from one
/// template agree on status, header map, and body.
pub proof fn lemma_generate_response_repeatable(
    t: ResponseTemplate,
    status1: u16,
    headers1: Map<Seq<char>, Seq<Seq<char>>>,
    body1: Seq<u8>,
    status2: u16,
    headers2: Map<Seq<char>, Seq<Seq<char>>>,
    body2: Seq<u8>,
)
    requires
        status1 == t.status_spec() && status2 == t.status_spec(),
        headers1 == materialized_headers(t) && headers2 == materialized_headers(t),
        body1 == materialized_body(t) && body2 == materialized_body(t),
    ensures
        status1 == status2,
        headers1 == headers2,
        body1 == body2,
{
}

} // verus!
