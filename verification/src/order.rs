//! The order of the manifest: by moment, then by name.

use vstd::prelude::*;

use crate::timestamp::{earlier, simultaneous, Moment};

verus! {

/// One row of the manifest, as plain values.
#[verifier::ext_equal]
pub struct Record {
    /// The file's base name, byte for byte as the platform has it.
    pub name: Seq<u8>,
    /// The length of the file's content in bytes.
    pub size: int,
    /// The moment that places the file, with the offset it is shown in.
    pub moment: Moment,
}

/// Whether `a` comes strictly before `b` byte by byte, a proper prefix before
/// what it is a prefix of.
pub open spec fn name_before(a: Seq<u8>, b: Seq<u8>) -> bool
    decreases a.len(),
{
    if b.len() == 0 {
        false
    } else if a.len() == 0 {
        true
    } else if a[0] != b[0] {
        a[0] < b[0]
    } else {
        name_before(a.drop_first(), b.drop_first())
    }
}

/// Whether `a` stands strictly before `b` in the manifest.
pub open spec fn precedes(a: Record, b: Record) -> bool {
    earlier(a.moment, b.moment) || (simultaneous(a.moment, b.moment) && name_before(
        a.name,
        b.name,
    ))
}

/// Whether the order cannot tell `a` and `b` apart: same moment, same name.
pub open spec fn same_place(a: Record, b: Record) -> bool {
    simultaneous(a.moment, b.moment) && a.name == b.name
}

/// Whether `a` may stand before `b`: `b` does not come strictly first.
pub open spec fn in_order(a: Record, b: Record) -> bool {
    !precedes(b, a)
}

/// Whether every record stands before all that follow it.
pub open spec fn ordered(records: Seq<Record>) -> bool {
    forall|i: int, j: int| 0 <= i < j < records.len() ==> in_order(records[i], records[j])
}

/// No name comes before itself.
pub proof fn lemma_name_irreflexive(a: Seq<u8>)
    ensures
        !name_before(a, a),
    decreases a.len(),
{
    if a.len() > 0 {
        lemma_name_irreflexive(a.drop_first());
    }
}

/// Of two different names one comes before the other.
pub proof fn lemma_name_connected(a: Seq<u8>, b: Seq<u8>)
    ensures
        name_before(a, b) || a == b || name_before(b, a),
    decreases a.len(),
{
    if a.len() == 0 || b.len() == 0 {
        assert(a.len() == 0 && b.len() == 0 ==> a =~= b);
    } else if a[0] == b[0] {
        lemma_name_connected(a.drop_first(), b.drop_first());
        if a.drop_first() == b.drop_first() {
            assert(a =~= seq![a[0]] + a.drop_first());
            assert(b =~= seq![b[0]] + b.drop_first());
        }
    }
}

/// A name before a second that is before a third is before the third.
pub proof fn lemma_name_transitive(a: Seq<u8>, b: Seq<u8>, c: Seq<u8>)
    requires
        name_before(a, b),
        name_before(b, c),
    ensures
        name_before(a, c),
    decreases a.len(),
{
    if a.len() > 0 && a[0] == b[0] && b[0] == c[0] {
        lemma_name_transitive(a.drop_first(), b.drop_first(), c.drop_first());
    }
}

/// Two names are never each before the other.
pub proof fn lemma_name_asymmetric(a: Seq<u8>, b: Seq<u8>)
    requires
        name_before(a, b),
    ensures
        !name_before(b, a),
{
    if name_before(b, a) {
        lemma_name_transitive(a, b, a);
        lemma_name_irreflexive(a);
    }
}

/// The order of the manifest is a strict total order on moment and name:
/// of two records exactly one of three holds, the first precedes the second,
/// the second precedes the first, or both have the same moment and name.
pub proof fn lemma_precedes_trichotomy(a: Record, b: Record)
    ensures
        precedes(a, b) || precedes(b, a) || same_place(a, b),
        !(precedes(a, b) && precedes(b, a)),
        !(precedes(a, b) && same_place(a, b)),
        !(precedes(b, a) && same_place(a, b)),
{
    lemma_name_connected(a.name, b.name);
    lemma_name_irreflexive(a.name);
    if name_before(a.name, b.name) {
        lemma_name_asymmetric(a.name, b.name);
    }
}

/// Standing strictly before is transitive.
pub proof fn lemma_precedes_transitive(a: Record, b: Record, c: Record)
    requires
        precedes(a, b),
        precedes(b, c),
    ensures
        precedes(a, c),
{
    if name_before(a.name, b.name) && name_before(b.name, c.name) {
        lemma_name_transitive(a.name, b.name, c.name);
    }
}

/// Standing in order is transitive.
pub proof fn lemma_in_order_transitive(a: Record, b: Record, c: Record)
    requires
        in_order(a, b),
        in_order(b, c),
    ensures
        in_order(a, c),
{
    lemma_precedes_trichotomy(a, b);
    lemma_precedes_trichotomy(b, c);
    if precedes(c, a) {
        if precedes(a, b) {
            lemma_precedes_transitive(c, a, b);
        } else if precedes(b, c) {
            lemma_precedes_transitive(b, c, a);
        } else {
            assert(same_place(a, b) && same_place(b, c));
        }
    }
}

/// Of two records one may always stand before the other.
pub proof fn lemma_in_order_total(a: Record, b: Record)
    ensures
        in_order(a, b) || in_order(b, a),
{
    lemma_precedes_trichotomy(a, b);
}

/// Whether the name `a` comes strictly before the name `b`.
pub fn name_is_before(a: &Vec<u8>, b: &Vec<u8>) -> (before: bool)
    ensures
        before == name_before(a@, b@),
{
    let mut at: usize = 0;
    proof {
        assert(a@.skip(0) =~= a@);
        assert(b@.skip(0) =~= b@);
    }
    while at < a.len() && at < b.len()
        invariant
            at <= a.len(),
            at <= b.len(),
            name_before(a@, b@) == name_before(a@.skip(at as int), b@.skip(at as int)),
        decreases a.len() - at,
    {
        proof {
            assert(a@.skip(at as int).drop_first() =~= a@.skip(at + 1));
            assert(b@.skip(at as int).drop_first() =~= b@.skip(at + 1));
            assert(a@.skip(at as int)[0] == a@[at as int]);
            assert(b@.skip(at as int)[0] == b@[at as int]);
        }
        if a[at] != b[at] {
            return a[at] < b[at];
        }
        at += 1;
    }
    at < b.len()
}

/// Whether two names are the same, byte for byte.
pub fn names_match(a: &Vec<u8>, b: &Vec<u8>) -> (same: bool)
    ensures
        same == (a@ == b@),
{
    if a.len() != b.len() {
        return false;
    }
    let mut at: usize = 0;
    while at < a.len()
        invariant
            at <= a.len(),
            a.len() == b.len(),
            a@.take(at as int) == b@.take(at as int),
        decreases a.len() - at,
    {
        if a[at] != b[at] {
            return false;
        }
        proof {
            assert(a@.take(at + 1) =~= a@.take(at as int).push(a@[at as int]));
            assert(b@.take(at + 1) =~= b@.take(at as int).push(b@[at as int]));
        }
        at += 1;
    }
    proof {
        assert(a@.take(at as int) =~= a@);
        assert(b@.take(at as int) =~= b@);
    }
    true
}

} // verus!
