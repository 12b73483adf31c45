//! Bracket matching: the specification of matched loop brackets, and the
//! precomputed index from each bracket to its partner.
//!
//! Matching follows the usual nested-parenthesis rules, stated here through
//! prefix sums: `net(s, lo, hi)` counts loop-opens minus loop-closes in
//! `s[lo..hi)`. Positions `i < j` are partners exactly when `s[i]` opens,
//! `s[j]` closes, the whole span `[i..j]` nets to zero, and every proper
//! prefix of the span stays strictly positive.

use vstd::prelude::*;

use crate::op::Op;
use crate::program::OpList;

verus! {

/// What a single instruction contributes to the bracket depth.
pub open spec fn bracket_delta(op: Op) -> int {
    if op == Op::Open {
        1
    } else if op == Op::Close {
        -1
    } else {
        0
    }
}

/// Loop-opens minus loop-closes among `s[lo..hi)`.
pub open spec fn net(s: Seq<Op>, lo: int, hi: int) -> int
    decreases hi - lo,
{
    if lo >= hi {
        0
    } else {
        net(s, lo, hi - 1) + bracket_delta(s[hi - 1])
    }
}

/// `net` adds up over adjacent ranges.
pub proof fn lemma_net_split(s: Seq<Op>, lo: int, mid: int, hi: int)
    requires
        lo <= mid <= hi,
    ensures
        net(s, lo, hi) == net(s, lo, mid) + net(s, mid, hi),
    decreases hi - mid,
{
    if mid < hi {
        lemma_net_split(s, lo, mid, hi - 1);
    }
}

/// Positions `i` and `j` are matching brackets of `s`.
pub open spec fn is_match(s: Seq<Op>, i: int, j: int) -> bool {
    &&& 0 <= i < j < s.len()
    &&& s[i] == Op::Open
    &&& s[j] == Op::Close
    &&& net(s, i, j + 1) == 0
    &&& forall|p: int| i < p <= j ==> net(s, i, p) > 0
}

/// Every bracket of `s` has a partner: no prefix closes more than it has
/// opened, and the whole sequence nets to zero.
pub open spec fn well_bracketed(s: Seq<Op>) -> bool {
    &&& forall|p: int| 0 <= p <= s.len() ==> net(s, 0, p) >= 0
    &&& net(s, 0, s.len() as int) == 0
}

/// A loop-open has at most one matching close.
pub proof fn lemma_match_unique_close(s: Seq<Op>, i: int, j1: int, j2: int)
    requires
        is_match(s, i, j1),
        is_match(s, i, j2),
    ensures
        j1 == j2,
{
    if j1 < j2 {
        assert(net(s, i, j1 + 1) > 0);
    } else if j2 < j1 {
        assert(net(s, i, j2 + 1) > 0);
    }
}

/// A loop-close has at most one matching open.
pub proof fn lemma_match_unique_open(s: Seq<Op>, i1: int, i2: int, j: int)
    requires
        is_match(s, i1, j),
        is_match(s, i2, j),
    ensures
        i1 == i2,
{
    if i1 < i2 {
        lemma_net_split(s, i1, i2, j + 1);
        assert(net(s, i1, i2) > 0);
    } else if i2 < i1 {
        lemma_net_split(s, i2, i1, j + 1);
        assert(net(s, i2, i1) > 0);
    }
}

/// The position of the close matching the open at `i`; meaningful only when
/// such a match exists.
pub open spec fn close_of(s: Seq<Op>, i: int) -> int {
    choose|j: int| is_match(s, i, j)
}

/// The position of the open matching the close at `j`; meaningful only when
/// such a match exists.
pub open spec fn open_of(s: Seq<Op>, j: int) -> int {
    choose|i: int| is_match(s, i, j)
}

/// A witnessed match pins `close_of` down.
pub proof fn lemma_close_of(s: Seq<Op>, i: int, j: int)
    requires
        is_match(s, i, j),
    ensures
        close_of(s, i) == j,
{
    lemma_match_unique_close(s, i, close_of(s, i), j);
}

/// A witnessed match pins `open_of` down.
pub proof fn lemma_open_of(s: Seq<Op>, i: int, j: int)
    requires
        is_match(s, i, j),
    ensures
        open_of(s, j) == i,
{
    lemma_match_unique_open(s, open_of(s, j), i, j);
}

/// Why a program was rejected at build time.
#[derive(Clone, Copy, PartialEq, Eq, Structural, Debug)]
pub enum BuildError {
    /// Some loop-open is never closed.
    UnmatchedOpen,
    /// Some loop-close has no preceding open.
    UnmatchedClose,
}

/// The precomputed bracket index: for every bracket position, the position
/// of its partner. Built once per program in a single linear pass; lookups
/// are then constant-time.
pub struct BracketIndex {
    partner: Vec<usize>,
    gops: Ghost<Seq<Op>>,
}

impl BracketIndex {
    /// The program this index was built for.
    pub closed spec fn ops(&self) -> Seq<Op> {
        self.gops@
    }

    /// The partner position recorded for position `p`; meaningful only at
    /// bracket positions.
    pub closed spec fn partner_of(&self, p: int) -> int {
        self.partner@[p] as int
    }

    /// Well-formed: one entry per instruction, every loop-open's entry is
    /// its matching close, every loop-close's entry is its matching open,
    /// and following an entry twice returns to the start.
    pub closed spec fn wf(&self) -> bool {
        &&& self.partner@.len() == self.ops().len()
        &&& forall|i: int|
            0 <= i < self.ops().len() && self.ops()[i] == Op::Open ==> is_match(
                self.ops(),
                i,
                #[trigger] self.partner_of(i),
            ) && self.partner_of(self.partner_of(i)) == i
        &&& forall|j: int|
            0 <= j < self.ops().len() && self.ops()[j] == Op::Close ==> is_match(
                self.ops(),
                #[trigger] self.partner_of(j),
                j,
            ) && self.partner_of(self.partner_of(j)) == j
    }

    /// The close matching the open at `p`.
    pub fn matching_close(&self, p: usize) -> (r: usize)
        requires
            self.wf(),
            0 <= p < self.ops().len(),
            self.ops()[p as int] == Op::Open,
        ensures
            r == self.partner_of(p as int),
            is_match(self.ops(), p as int, r as int),
            r == close_of(self.ops(), p as int),
    {
        proof {
            lemma_close_of(self.ops(), p as int, self.partner_of(p as int));
        }
        self.partner[p]
    }

    /// The open matching the close at `p`.
    pub fn matching_open(&self, p: usize) -> (r: usize)
        requires
            self.wf(),
            0 <= p < self.ops().len(),
            self.ops()[p as int] == Op::Close,
        ensures
            r == self.partner_of(p as int),
            is_match(self.ops(), r as int, p as int),
            r == open_of(self.ops(), p as int),
    {
        proof {
            lemma_open_of(self.ops(), self.partner_of(p as int), p as int);
        }
        self.partner[p]
    }

    /// For every bracket position of a well-formed index, following the
    /// matching map there and back returns to the same position: the close
    /// recorded for an open records that open in turn, and vice versa.
    pub proof fn lemma_matching_round_trip(&self, p: int)
        requires
            self.wf(),
            0 <= p < self.ops().len(),
            self.ops()[p] == Op::Open || self.ops()[p] == Op::Close,
        ensures
            self.partner_of(self.partner_of(p)) == p,
            self.ops()[p] == Op::Open ==> self.partner_of(p) == close_of(self.ops(), p)
                && open_of(self.ops(), close_of(self.ops(), p)) == p,
            self.ops()[p] == Op::Close ==> self.partner_of(p) == open_of(self.ops(), p)
                && close_of(self.ops(), open_of(self.ops(), p)) == p,
    {
        if self.ops()[p] == Op::Open {
            lemma_close_of(self.ops(), p, self.partner_of(p));
            lemma_open_of(self.ops(), p, self.partner_of(p));
        } else {
            lemma_open_of(self.ops(), self.partner_of(p), p);
            lemma_close_of(self.ops(), self.partner_of(p), p);
        }
    }

    /// Validate the program's bracket nesting and record every pair, in one
    /// linear pass with a stack of pending opens. Succeeds exactly on
    /// well-bracketed programs; a prefix with more closes than opens is an
    /// unmatched close, and pending opens left at the end are unmatched.
    pub fn build(prog: &OpList) -> (r: Result<BracketIndex, BuildError>)
        ensures
            r is Ok <==> well_bracketed(prog.ops_seq()),
            r matches Ok(bi) ==> bi.wf() && bi.ops() == prog.ops_seq(),
            r == Result::<BracketIndex, BuildError>::Err(BuildError::UnmatchedClose) ==> exists|
                p: int,
            |
                0 <= p <= prog.ops_seq().len() && net(prog.ops_seq(), 0, p) < 0,
            r == Result::<BracketIndex, BuildError>::Err(BuildError::UnmatchedOpen) ==> (forall|
                p: int,
            |
                0 <= p <= prog.ops_seq().len() ==> net(prog.ops_seq(), 0, p) >= 0) && net(
                prog.ops_seq(),
                0,
                prog.ops_seq().len() as int,
            ) > 0,
    {
        let ghost s = prog.ops_seq();
        let n = prog.len();
        let mut partner: Vec<usize> = Vec::new();
        let mut i: usize = 0;
        while i < n
            invariant
                i <= n,
                partner@.len() == i,
            decreases n - i,
        {
            partner.push(0);
            i = i + 1;
        }
        let mut stack: Vec<usize> = Vec::new();
        let mut k: usize = 0;
        while k < n
            invariant
                k <= n,
                n == s.len(),
                s == prog.ops_seq(),
                partner@.len() == n,
                // the stack holds the pending opens, in increasing order
                forall|t: int|
                    0 <= t < stack@.len() ==> 0 <= #[trigger] stack@[t] < k && s[stack@[t] as int]
                        == Op::Open,
                forall|t1: int, t2: int|
                    0 <= t1 < t2 < stack@.len() ==> stack@[t1] < stack@[t2],
                // depth bookkeeping
                forall|t: int|
                    0 <= t < stack@.len() ==> net(s, 0, #[trigger] stack@[t] as int) == t,
                net(s, 0, k as int) == stack@.len(),
                forall|p: int| 0 <= p <= k ==> net(s, 0, p) >= 0,
                forall|t: int, p: int|
                    0 <= t < stack@.len() && #[trigger] stack@[t] < p <= k ==> #[trigger] net(
                        s,
                        0,
                        p,
                    ) > t,
                // positions already settled carry their final partner
                forall|i2: int|
                    0 <= i2 < k && s[i2] == Op::Open && !stack@.contains(i2 as usize) ==> is_match(
                        s,
                        i2,
                        #[trigger] partner@[i2] as int,
                    ) && partner@[i2] < k && partner@[partner@[i2] as int] == i2,
                forall|j2: int|
                    0 <= j2 < k && s[j2] == Op::Close ==> is_match(
                        s,
                        #[trigger] partner@[j2] as int,
                        j2,
                    ) && partner@[partner@[j2] as int] == j2,
            decreases n - k,
        {
            let ghost prev_stack = stack@;
            let ghost prev_partner = partner@;
            let op = prog.get_at(k);
            if op == Op::Open {
                stack.push(k);
                proof {
                    assert(stack@[stack@.len() - 1] == k);
                    assert(stack@.contains(k));
                    assert forall|x: usize| #[trigger] stack@.contains(x) implies prev_stack
                        .contains(x) || x == k by {
                        let t = choose|t: int| 0 <= t < stack@.len() && stack@[t] == x;
                        if t < prev_stack.len() {
                            assert(prev_stack[t] == x);
                        }
                    }
                    assert forall|x: usize| prev_stack.contains(x) implies #[trigger] stack@
                        .contains(x) by {
                        let t = choose|t: int| 0 <= t < prev_stack.len() && prev_stack[t] == x;
                        assert(stack@[t] == x);
                    }
                }
            } else if op == Op::Close {
                if stack.len() == 0 {
                    proof {
                        assert(net(s, 0, k + 1) < 0);
                    }
                    return Err(BuildError::UnmatchedClose);
                }
                let iopen = stack.pop().unwrap();
                proof {
                    let m = prev_stack.len() as int;
                    assert(iopen == prev_stack[m - 1]);
                    assert(stack@ == prev_stack.subrange(0, m - 1));
                    assert forall|x: usize| #[trigger] stack@.contains(x) implies prev_stack
                        .contains(x) && x != iopen by {
                        let t = choose|t: int| 0 <= t < stack@.len() && stack@[t] == x;
                        assert(prev_stack[t] == x);
                        assert(prev_stack[t] < prev_stack[m - 1]);
                    }
                    assert forall|x: usize|
                        prev_stack.contains(x) && x != iopen implies #[trigger] stack@.contains(
                        x,
                    ) by {
                        let t = choose|t: int| 0 <= t < prev_stack.len() && prev_stack[t] == x;
                        assert(t < m - 1);
                        assert(stack@[t] == x);
                    }
                    assert(net(s, 0, k + 1) == m - 1);
                    lemma_net_split(s, 0, iopen as int, k + 1);
                    assert forall|p: int| iopen < p <= k implies net(s, iopen as int, p) > 0 by {
                        lemma_net_split(s, 0, iopen as int, p);
                    }
                    assert(is_match(s, iopen as int, k as int));
                    // no close settled so far is matched with `iopen`: its
                    // match would then be both that close and `k`
                    assert forall|j2: int|
                        0 <= j2 < k && s[j2] == Op::Close implies #[trigger] prev_partner[j2]
                        != iopen by {
                        if prev_partner[j2] == iopen {
                            lemma_match_unique_close(s, iopen as int, j2, k as int);
                        }
                    }
                }
                partner.set(iopen, k);
                partner.set(k, iopen);
            }
            k = k + 1;
        }
        if stack.len() > 0 {
            proof {
                assert(net(s, 0, s.len() as int) == stack@.len());
            }
            return Err(BuildError::UnmatchedOpen);
        }
        Ok(BracketIndex { partner, gops: Ghost(prog.ops_seq()) })
    }
}

} // verus!
