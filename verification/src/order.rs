use vstd::prelude::*;

use crate::CRDTOperation;
use crate::timestamp::ts_lt;

verus! {

/// Strict lexicographic order on byte sequences: the order on node ids. It is
/// arbitrary but total, which is all deterministic tie-breaking needs.
pub open spec fn lex_lt(a: Seq<u8>, b: Seq<u8>) -> bool
    decreases a.len(),
{
    if b.len() == 0 {
        false
    } else if a.len() == 0 {
        true
    } else if a[0] < b[0] {
        true
    } else if a[0] > b[0] {
        false
    } else {
        lex_lt(a.drop_first(), b.drop_first())
    }
}

/// The replay order on operations: compare timestamps first; on equal
/// timestamps, break the tie deterministically by node id. Every node sorts
/// any set of operations into the same sequence under this order.
pub open spec fn op_lt(a: CRDTOperation, b: CRDTOperation) -> bool {
    ||| ts_lt(a.timestamp, b.timestamp)
    ||| (a.timestamp == b.timestamp && lex_lt(a.node@, b.node@))
}

/// True when `a`'s bytes strictly precede `b`'s in lexicographic order.
pub fn id_lt(a: &Vec<u8>, b: &Vec<u8>) -> (r: bool)
    ensures
        r == lex_lt(a@, b@),
{
    let mut i: usize = 0;
    proof {
        assert(a@.skip(0) =~= a@);
        assert(b@.skip(0) =~= b@);
    }
    while i < a.len() && i < b.len()
        invariant
            i <= a@.len(),
            i <= b@.len(),
            lex_lt(a@, b@) == lex_lt(a@.skip(i as int), b@.skip(i as int)),
        decreases a@.len() - i,
    {
        let x = a[i];
        let y = b[i];
        proof {
            assert(a@.skip(i as int)[0] == a@[i as int]);
            assert(b@.skip(i as int)[0] == b@[i as int]);
            assert(a@.skip(i as int).drop_first() =~= a@.skip(i as int + 1));
            assert(b@.skip(i as int).drop_first() =~= b@.skip(i as int + 1));
        }
        if x < y {
            return true;
        }
        if x > y {
            return false;
        }
        i = i + 1;
    }
    proof {
        assert(a@.skip(i as int).len() == a@.len() - i);
        assert(b@.skip(i as int).len() == b@.len() - i);
    }
    a.len() < b.len()
}

impl CRDTOperation {
    /// True when `self` is applied before `other` in the replay order over
    /// `(timestamp, node)`.
    pub fn precedes(&self, other: &CRDTOperation) -> (r: bool)
        ensures
            r == op_lt(*self, *other),
    {
        if self.timestamp.lt(&other.timestamp) {
            true
        } else if other.timestamp.lt(&self.timestamp) {
            false
        } else {
            proof {
                assert(self.timestamp == other.timestamp);
            }
            id_lt(&self.node, &other.node)
        }
    }
}

/// Total order law, first half: an operation with a strictly smaller timestamp
/// always sorts first, whatever the two node ids are.
pub proof fn lemma_timestamp_order_dominates(a: CRDTOperation, b: CRDTOperation)
    requires
        ts_lt(a.timestamp, b.timestamp),
    ensures
        op_lt(a, b),
        !op_lt(b, a),
{
}

/// Total order law, second half: with equal timestamps, the order is a
/// deterministic function of the node ids alone.
pub proof fn lemma_equal_timestamps_order_by_node(a: CRDTOperation, b: CRDTOperation)
    requires
        a.timestamp == b.timestamp,
    ensures
        op_lt(a, b) == lex_lt(a.node@, b.node@),
{
}

/// Byte sequences are totally ordered: two sequences are equal, or exactly one
/// strictly precedes the other.
pub proof fn lemma_lex_trichotomy(x: Seq<u8>, y: Seq<u8>)
    ensures
        lex_lt(x, y) || lex_lt(y, x) || x == y,
        lex_lt(x, y) ==> !lex_lt(y, x),
    decreases x.len(),
{
    if x.len() == 0 || y.len() == 0 {
        if x.len() == 0 && y.len() == 0 {
            assert(x =~= y);
        }
    } else if x[0] == y[0] {
        lemma_lex_trichotomy(x.drop_first(), y.drop_first());
        if x.drop_first() == y.drop_first() {
            assert(x =~= seq![x[0]] + x.drop_first());
            assert(y =~= seq![y[0]] + y.drop_first());
        }
    }
}

/// The lexicographic order on byte sequences is transitive.
pub proof fn lemma_lex_transitive(x: Seq<u8>, y: Seq<u8>, z: Seq<u8>)
    requires
        lex_lt(x, y),
        lex_lt(y, z),
    ensures
        lex_lt(x, z),
    decreases x.len(),
{
    if x.len() != 0 && y.len() != 0 && z.len() != 0 {
        if x[0] == y[0] && y[0] == z[0] {
            lemma_lex_transitive(x.drop_first(), y.drop_first(), z.drop_first());
        }
    }
}

/// The replay order is a strict total order: any two operations are ordered
/// one way or the other, unless they carry the same timestamp and the same
/// node bytes; and the order is asymmetric.
pub proof fn lemma_op_order_trichotomy(a: CRDTOperation, b: CRDTOperation)
    ensures
        op_lt(a, b) || op_lt(b, a) || (a.timestamp == b.timestamp && a.node@ == b.node@),
        op_lt(a, b) ==> !op_lt(b, a),
{
    lemma_lex_trichotomy(a.node@, b.node@);
}

/// The replay order is transitive.
pub proof fn lemma_op_order_transitive(a: CRDTOperation, b: CRDTOperation, c: CRDTOperation)
    requires
        op_lt(a, b),
        op_lt(b, c),
    ensures
        op_lt(a, c),
{
    if a.timestamp == b.timestamp && b.timestamp == c.timestamp {
        lemma_lex_transitive(a.node@, b.node@, c.node@);
    }
}

} // verus!
