//! Posting new logs.tf logs: each log uploaded after the last one posted, once, in
//! order of id.
use vstd::prelude::*;

use crate::text::{push_signed_decimal, signed_decimal};

verus! {

/// A log on logs.tf.
#[derive(Debug, Clone, Copy, PartialEq, Eq, Structural)]
pub struct Log {
    pub id: i64,
}

impl Log {
    /// The page of the log.
    pub fn url(&self) -> (s: String)
        ensures
            s@ == "https://logs.tf/"@ + signed_decimal(self.id as int),
    {
        let mut s = String::from_str("https://logs.tf/");
        push_signed_decimal(&mut s, self.id);
        s
    }
}

/// The smallest id above `cur`, if any.
fn next_above(ids: &Vec<i64>, cur: i64) -> (r: Option<i64>)
    ensures
        match r {
            Some(m) => m > cur && ids@.contains(m) && forall|x: i64| ids@.contains(x) && x > cur ==> m <= x,
            None => forall|x: i64| ids@.contains(x) ==> x <= cur,
        },
{
    let mut best: Option<i64> = None;
    let mut i: usize = 0;
    while i < ids.len()
        invariant
            i <= ids@.len(),
            match best {
                Some(m) => m > cur && ids@.contains(m) && forall|j: int| 0 <= j < i && ids@[j] > cur ==> m <= ids@[j],
                None => forall|j: int| 0 <= j < i ==> ids@[j] <= cur,
            },
        decreases ids@.len() - i,
    {
        let x = ids[i];
        if x > cur {
            match best {
                None => {
                    best = Some(x);
                },
                Some(m) => {
                    if x < m {
                        best = Some(x);
                    }
                },
            }
        }
        i = i + 1;
    }
    proof {
        match best {
            Some(m) => {
                assert forall|x: i64| ids@.contains(x) && x > cur implies m <= x by {
                    let j = choose|j: int| 0 <= j < ids@.len() && ids@[j] == x;
                }
            },
            None => {
                assert forall|x: i64| ids@.contains(x) implies x <= cur by {
                    let j = choose|j: int| 0 <= j < ids@.len() && ids@[j] == x;
                }
            },
        }
    }
    best
}

/// The ids of the logs to post after the one with id `last_id`: every id above it,
/// once each, smallest first; and the id posted last afterwards.
pub fn logs_to_post(ids: &Vec<i64>, last_id: i64) -> (r: (Vec<i64>, i64))
    ensures
        forall|i: int, j: int| 0 <= i < j < r.0@.len() ==> r.0@[i] < r.0@[j],
        forall|i: int| 0 <= i < r.0@.len() ==> r.0@[i] > last_id && ids@.contains(#[trigger] r.0@[i]),
        forall|x: i64| ids@.contains(x) && x > last_id ==> r.0@.contains(x),
        r.1 == if r.0@.len() == 0 {
            last_id
        } else {
            r.0@.last()
        },
{
    let mut out: Vec<i64> = Vec::new();
    let mut cur = last_id;
    loop
        invariant
            forall|i: int, j: int| 0 <= i < j < out@.len() ==> out@[i] < out@[j],
            forall|i: int| 0 <= i < out@.len() ==> out@[i] > last_id && ids@.contains(#[trigger] out@[i]),
            forall|x: i64| ids@.contains(x) && last_id < x <= cur ==> out@.contains(x),
            cur == if out@.len() == 0 {
                last_id
            } else {
                out@.last()
            },
            cur >= last_id,
        decreases i64::MAX - cur,
    {
        match next_above(ids, cur) {
            None => {
                proof {
                    assert forall|x: i64| ids@.contains(x) && x > last_id implies out@.contains(x) by {
                        assert(x <= cur);
                    }
                }
                return (out, cur);
            },
            Some(m) => {
                let ghost before = out@;
                out.push(m);
                proof {
                    assert forall|x: i64| ids@.contains(x) && last_id < x <= m implies out@.contains(x) by {
                        if x <= cur {
                            assert(before.contains(x));
                            let k = choose|k: int| 0 <= k < before.len() && before[k] == x;
                            assert(out@[k] == x);
                        } else {
                            assert(x == m);
                            assert(out@[before.len() as int] == x);
                        }
                    }
                    assert forall|i: int, j: int| 0 <= i < j < out@.len() implies out@[i] < out@[j] by {
                        if j == before.len() {
                            if before.len() > 0 {
                                assert(before[i] <= before.last());
                            }
                        }
                    }
                }
                cur = m;
            },
        }
    }
}

} // verus!
