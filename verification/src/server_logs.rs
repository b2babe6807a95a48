//! Relaying the game servers' log lines to discord: which lines are taken, and how
//! the lines of each server are gathered into one message.
use vstd::prelude::*;

verus! {

/// The log password from the environment: none when it is unset or empty.
pub fn log_password(var: Option<String>) -> (r: Option<String>)
    ensures
        match var {
            Some(p) => if p@.len() > 0 {
                r matches Some(q) && q@ == p@
            } else {
                r is None
            },
            None => r is None,
        },
{
    match var {
        Some(p) => if p.unicode_len() > 0 {
            Some(p)
        } else {
            None
        },
        None => None,
    }
}

/// Whether a log packet carrying `secret` is taken: without a password every packet
/// is; with one, only the packets that carry it.
pub fn accepts_log(expected: &Option<String>, secret: &Option<String>) -> (b: bool)
    ensures
        b == match expected {
            None => true,
            Some(p) => secret matches Some(s) && s@ == p@,
        },
{
    match expected {
        None => true,
        Some(p) => match secret {
            Some(s) => crate::text::text_eq(s.as_str(), p.as_str()),
            None => false,
        },
    }
}

/// The position of the batch of source `k`, if there is one.
pub open spec fn batch_index(out: Seq<(u64, Seq<char>)>, k: u64) -> Option<int> {
    if exists|i: int| 0 <= i < out.len() && #[trigger] out[i].0 == k {
        Some(choose|i: int| 0 <= i < out.len() && #[trigger] out[i].0 == k)
    } else {
        None
    }
}

/// The lines gathered by source: one batch per source, in the order in which the
/// sources first sent a line, each holding that source's lines in order, every line
/// followed by a line break.
pub open spec fn batched(lines: Seq<(u64, Seq<char>)>) -> Seq<(u64, Seq<char>)>
    decreases lines.len(),
{
    if lines.len() == 0 {
        seq![]
    } else {
        let out = batched(lines.drop_last());
        let (k, t) = lines.last();
        match batch_index(out, k) {
            Some(i) => out.update(i, (k, out[i].1 + t + "\n"@)),
            None => out.push((k, t + "\n"@)),
        }
    }
}

/// No source has two batches.
pub open spec fn sources_unique(out: Seq<(u64, Seq<char>)>) -> bool {
    forall|i: int, j: int| 0 <= i < j < out.len() ==> #[trigger] out[i].0 != #[trigger] out[j].0
}

proof fn lemma_batch_index_unique(out: Seq<(u64, Seq<char>)>, k: u64, i: int)
    requires
        sources_unique(out),
        0 <= i < out.len(),
        out[i].0 == k,
    ensures
        batch_index(out, k) == Some(i),
{
    let j = choose|j: int| 0 <= j < out.len() && #[trigger] out[j].0 == k;
    if j != i {
        if j < i {
            assert(out[j].0 != out[i].0);
        } else {
            assert(out[i].0 != out[j].0);
        }
    }
}

proof fn lemma_batched_unique(lines: Seq<(u64, Seq<char>)>)
    ensures
        sources_unique(batched(lines)),
    decreases lines.len(),
{
    if lines.len() > 0 {
        lemma_batched_unique(lines.drop_last());
        let out = batched(lines.drop_last());
        let k = lines.last().0;
        match batch_index(out, k) {
            Some(i) => {
                let r = batched(lines);
                assert forall|a: int, b: int| 0 <= a < b < r.len() implies #[trigger] r[a].0 != #[trigger] r[b].0 by {
                    assert(r[a].0 == out[a].0 && r[b].0 == out[b].0);
                }
            },
            None => {
                let r = batched(lines);
                assert forall|a: int, b: int| 0 <= a < b < r.len() implies #[trigger] r[a].0 != #[trigger] r[b].0 by {
                    if b == out.len() {
                        assert(r[a] == out[a]);
                    } else {
                        assert(r[a] == out[a] && r[b] == out[b]);
                    }
                }
            },
        }
    }
}

/// The position of the batch of source `k` among `out`, whose sources are unique.
fn find_source(out: &Vec<(u64, String)>, k: u64) -> (r: Option<usize>)
    requires
        sources_unique(out@.map_values(|b: (u64, String)| (b.0, b.1@))),
    ensures
        match r {
            Some(j) => j < out@.len() && out@[j as int].0 == k,
            None => batch_index(out@.map_values(|b: (u64, String)| (b.0, b.1@)), k) is None,
        },
{
    let ghost ov = out@.map_values(|b: (u64, String)| (b.0, b.1@));
    let mut j: usize = 0;
    while j < out.len()
        invariant
            j <= out@.len(),
            ov == out@.map_values(|b: (u64, String)| (b.0, b.1@)),
            forall|a: int| 0 <= a < j ==> #[trigger] ov[a].0 != k,
        decreases out@.len() - j,
    {
        if out[j].0 == k {
            return Some(j);
        }
        j = j + 1;
    }
    None
}

/// Gathers the lines of each source (see [`batched`]); a source is a server, by
/// position.
pub fn batch_by_source(lines: &Vec<(u64, String)>) -> (r: Vec<(u64, String)>)
    ensures
        r@.map_values(|b: (u64, String)| (b.0, b.1@)) == batched(
            lines@.map_values(|l: (u64, String)| (l.0, l.1@)),
        ),
{
    let ghost lv = lines@.map_values(|l: (u64, String)| (l.0, l.1@));
    let mut out: Vec<(u64, String)> = Vec::new();
    let mut i: usize = 0;
    assert(out@.map_values(|b: (u64, String)| (b.0, b.1@)) =~= batched(lv.take(0)));
    while i < lines.len()
        invariant
            i <= lines@.len(),
            lv == lines@.map_values(|l: (u64, String)| (l.0, l.1@)),
            out@.map_values(|b: (u64, String)| (b.0, b.1@)) == batched(lv.take(i as int)),
        decreases lines@.len() - i,
    {
        let ghost ov = out@.map_values(|b: (u64, String)| (b.0, b.1@));
        proof {
            lemma_batched_unique(lv.take(i as int));
        }
        assert(lv.take(i + 1).drop_last() =~= lv.take(i as int));
        assert(lv.take(i + 1).last() == (lines@[i as int].0, lines@[i as int].1@));
        let k = lines[i].0;
        let found = find_source(&out, k);
        match found {
            Some(j) => {
                proof {
                    lemma_batch_index_unique(ov, k, j as int);
                }
                let mut text = out[j].1.clone();
                text.append(lines[i].1.as_str());
                text.append("\n");
                out.set(j, (k, text));
                assert(out@.map_values(|b: (u64, String)| (b.0, b.1@)) =~= ov.update(
                    j as int,
                    (k, ov[j as int].1 + lines@[i as int].1@ + "\n"@),
                ));
            },
            None => {
                let mut text = lines[i].1.clone();
                text.append("\n");
                out.push((k, text));
                assert(out@.map_values(|b: (u64, String)| (b.0, b.1@)) =~= ov.push(
                    (k, lines@[i as int].1@ + "\n"@),
                ));
            },
        }
        i = i + 1;
    }
    assert(lv.take(lines@.len() as int) =~= lv);
    out
}

} // verus!
