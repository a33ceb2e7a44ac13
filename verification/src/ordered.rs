//! Sorted, duplicate-free lists of integers.

use vstd::prelude::*;

verus! {

pub open spec fn strictly_ascending(s: Seq<usize>) -> bool {
    forall|i: int, j: int| 0 <= i < j < s.len() ==> #[trigger] s[i] < #[trigger] s[j]
}

pub open spec fn strictly_descending(s: Seq<usize>) -> bool {
    forall|i: int, j: int| 0 <= i < j < s.len() ==> #[trigger] s[i] > #[trigger] s[j]
}

pub open spec fn strictly_ascending_i32(s: Seq<i32>) -> bool {
    forall|i: int, j: int| 0 <= i < j < s.len() ==> #[trigger] s[i] < #[trigger] s[j]
}

/// The values of `s` that pass `keep`, as a set.
pub open spec fn positive_values(s: Seq<i32>) -> Set<i32> {
    s.to_set().filter(|r: i32| r > 0)
}

/// The distinct values of `values`, largest first.
pub fn distinct_descending(values: &Vec<usize>) -> (out: Vec<usize>)
    ensures
        strictly_descending(out@),
        out@.to_set() == values@.to_set(),
{
    let mut out: Vec<usize> = Vec::new();
    let mut i: usize = 0;
    while i < values.len()
        invariant
            i <= values@.len(),
            strictly_descending(out@),
            out@.to_set() == values@.subrange(0, i as int).to_set(),
        decreases values@.len() - i,
    {
        let x = values[i];
        let mut pos: usize = 0;
        while pos < out.len() && out[pos] > x
            invariant
                pos <= out@.len(),
                forall|k: int| 0 <= k < pos ==> #[trigger] out@[k] > x,
            decreases out@.len() - pos,
        {
            pos += 1;
        }
        let ghost before = out@;
        if pos < out.len() && out[pos] == x {
            proof {
                assert(values@.subrange(0, i + 1) =~= values@.subrange(0, i as int).push(x));
                lemma_push_to_set(values@.subrange(0, i as int), x);
                assert(before.to_set().contains(x));
                assert(before.to_set().insert(x) =~= before.to_set());
            }
        } else {
            out.insert(pos, x);
            proof {
                assert(values@.subrange(0, i + 1) =~= values@.subrange(0, i as int).push(x));
                lemma_push_to_set(values@.subrange(0, i as int), x);
                assert forall|a: int, b: int| 0 <= a < b < out@.len() implies #[trigger] out@[a] > #[trigger] out@[b] by {
                    if b < pos {
                    } else if b == pos {
                    } else if a < pos {
                        assert(out@[b] == before[b - 1]);
                        if pos < before.len() {
                            assert(before[pos as int] < x);
                            assert(before[pos as int] >= before[b - 1]);
                        }
                    } else if a == pos {
                        assert(out@[b] == before[b - 1]);
                        assert(before[pos as int] < x);
                    } else {
                        assert(out@[a] == before[a - 1]);
                        assert(out@[b] == before[b - 1]);
                    }
                }
                assert(out@ =~= before.insert(pos as int, x));
                lemma_insert_to_set(before, pos as int, x);
            }
        }
        i += 1;
    }
    proof { assert(values@.subrange(0, values@.len() as int) =~= values@); }
    out
}

/// The distinct values of `values`, smallest first.
pub fn distinct_ascending(values: &Vec<usize>) -> (out: Vec<usize>)
    ensures
        strictly_ascending(out@),
        out@.to_set() == values@.to_set(),
{
    let mut out: Vec<usize> = Vec::new();
    let mut i: usize = 0;
    while i < values.len()
        invariant
            i <= values@.len(),
            strictly_ascending(out@),
            out@.to_set() == values@.subrange(0, i as int).to_set(),
        decreases values@.len() - i,
    {
        let x = values[i];
        let mut pos: usize = 0;
        while pos < out.len() && out[pos] < x
            invariant
                pos <= out@.len(),
                forall|k: int| 0 <= k < pos ==> #[trigger] out@[k] < x,
            decreases out@.len() - pos,
        {
            pos += 1;
        }
        let ghost before = out@;
        if pos < out.len() && out[pos] == x {
            proof {
                assert(values@.subrange(0, i + 1) =~= values@.subrange(0, i as int).push(x));
                lemma_push_to_set(values@.subrange(0, i as int), x);
                assert(before.to_set().contains(x));
                assert(before.to_set().insert(x) =~= before.to_set());
            }
        } else {
            out.insert(pos, x);
            proof {
                assert(values@.subrange(0, i + 1) =~= values@.subrange(0, i as int).push(x));
                lemma_push_to_set(values@.subrange(0, i as int), x);
                assert forall|a: int, b: int| 0 <= a < b < out@.len() implies #[trigger] out@[a] < #[trigger] out@[b] by {
                    if b < pos {
                    } else if b == pos {
                    } else if a < pos {
                        assert(out@[b] == before[b - 1]);
                        if pos < before.len() {
                            assert(before[pos as int] > x);
                            assert(before[pos as int] <= before[b - 1]);
                        }
                    } else if a == pos {
                        assert(out@[b] == before[b - 1]);
                        assert(before[pos as int] > x);
                    } else {
                        assert(out@[a] == before[a - 1]);
                        assert(out@[b] == before[b - 1]);
                    }
                }
                assert(out@ =~= before.insert(pos as int, x));
                lemma_insert_to_set(before, pos as int, x);
            }
        }
        i += 1;
    }
    proof { assert(values@.subrange(0, values@.len() as int) =~= values@); }
    out
}

/// The distinct positive values of `values`, smallest first.
pub fn distinct_positive_ascending(values: &Vec<i32>) -> (out: Vec<i32>)
    ensures
        strictly_ascending_i32(out@),
        out@.to_set() == positive_values(values@),
        forall|k: int| 0 <= k < out@.len() ==> #[trigger] out@[k] > 0,
{
    let mut out: Vec<i32> = Vec::new();
    let mut i: usize = 0;
    while i < values.len()
        invariant
            i <= values@.len(),
            strictly_ascending_i32(out@),
            forall|k: int| 0 <= k < out@.len() ==> #[trigger] out@[k] > 0,
            out@.to_set() == positive_values(values@.subrange(0, i as int)),
        decreases values@.len() - i,
    {
        let x = values[i];
        proof {
            assert(values@.subrange(0, i + 1) =~= values@.subrange(0, i as int).push(x));
            lemma_push_to_set(values@.subrange(0, i as int), x);
        }
        if x > 0 {
            let mut pos: usize = 0;
            while pos < out.len() && out[pos] < x
                invariant
                    pos <= out@.len(),
                    forall|k: int| 0 <= k < pos ==> #[trigger] out@[k] < x,
                decreases out@.len() - pos,
            {
                pos += 1;
            }
            let ghost before = out@;
            if pos < out.len() && out[pos] == x {
                proof {
                    assert(before.to_set().contains(x));
                    assert(positive_values(values@.subrange(0, i + 1)) =~= positive_values(values@.subrange(0, i as int)));
                }
            } else {
                out.insert(pos, x);
                proof {
                    assert forall|a: int, b: int| 0 <= a < b < out@.len() implies #[trigger] out@[a] < #[trigger] out@[b] by {
                        if b < pos {
                        } else if b == pos {
                        } else if a < pos {
                            assert(out@[b] == before[b - 1]);
                            if pos < before.len() {
                                assert(before[pos as int] > x);
                                assert(before[pos as int] <= before[b - 1]);
                            }
                        } else if a == pos {
                            assert(out@[b] == before[b - 1]);
                            assert(before[pos as int] > x);
                        } else {
                            assert(out@[a] == before[a - 1]);
                            assert(out@[b] == before[b - 1]);
                        }
                    }
                    assert forall|k: int| 0 <= k < out@.len() implies #[trigger] out@[k] > 0 by {
                        if k < pos {
                        } else if k > pos {
                            assert(out@[k] == before[k - 1]);
                        }
                    }
                    assert(out@ =~= before.insert(pos as int, x));
                    lemma_insert_to_set_i32(before, pos as int, x);
                    assert(positive_values(values@.subrange(0, i + 1)) =~= positive_values(values@.subrange(0, i as int)).insert(x));
                }
            }
        } else {
            proof {
                assert(positive_values(values@.subrange(0, i + 1)) =~= positive_values(values@.subrange(0, i as int)));
            }
        }
        i += 1;
    }
    proof { assert(values@.subrange(0, values@.len() as int) =~= values@); }
    out
}

proof fn lemma_push_to_set<A>(s: Seq<A>, x: A)
    ensures
        s.push(x).to_set() == s.to_set().insert(x),
{
    assert(s.push(x).to_set() =~= s.to_set().insert(x)) by {
        assert forall|y: A| s.push(x).to_set().contains(y) <==> s.to_set().insert(x).contains(y) by {
            if s.push(x).to_set().contains(y) {
                let k = choose|k: int| 0 <= k < s.push(x).len() && s.push(x)[k] == y;
                if k < s.len() { assert(s[k] == y); }
            }
            if s.to_set().contains(y) {
                let k = choose|k: int| 0 <= k < s.len() && s[k] == y;
                assert(s.push(x)[k] == y);
            }
            if y == x {
                assert(s.push(x)[s.len() as int] == x);
            }
        }
    }
}

proof fn lemma_insert_to_set(s: Seq<usize>, pos: int, x: usize)
    requires
        0 <= pos <= s.len(),
    ensures
        s.insert(pos, x).to_set() == s.to_set().insert(x),
{
    let t = s.insert(pos, x);
    assert(t.to_set() =~= s.to_set().insert(x)) by {
        assert forall|y: usize| t.to_set().contains(y) <==> s.to_set().insert(x).contains(y) by {
            if t.to_set().contains(y) {
                let k = choose|k: int| 0 <= k < t.len() && t[k] == y;
                if k < pos { assert(s[k] == y); } else if k > pos { assert(s[k - 1] == y); }
            }
            if s.to_set().contains(y) {
                let k = choose|k: int| 0 <= k < s.len() && s[k] == y;
                if k < pos { assert(t[k] == y); } else { assert(t[k + 1] == y); }
            }
            if y == x {
                assert(t[pos] == x);
            }
        }
    }
}

proof fn lemma_insert_to_set_i32(s: Seq<i32>, pos: int, x: i32)
    requires
        0 <= pos <= s.len(),
    ensures
        s.insert(pos, x).to_set() == s.to_set().insert(x),
{
    let t = s.insert(pos, x);
    assert(t.to_set() =~= s.to_set().insert(x)) by {
        assert forall|y: i32| t.to_set().contains(y) <==> s.to_set().insert(x).contains(y) by {
            if t.to_set().contains(y) {
                let k = choose|k: int| 0 <= k < t.len() && t[k] == y;
                if k < pos { assert(s[k] == y); } else if k > pos { assert(s[k - 1] == y); }
            }
            if s.to_set().contains(y) {
                let k = choose|k: int| 0 <= k < s.len() && s[k] == y;
                if k < pos { assert(t[k] == y); } else { assert(t[k + 1] == y); }
            }
            if y == x {
                assert(t[pos] == x);
            }
        }
    }
}

} // verus!
