use vstd::prelude::*;

verus! {

/// The kind of a slider event, as the curve evaluator reports it.
#[derive(Copy, Clone, Debug, PartialEq, Eq, Structural)]
pub enum SliderEventKind {
    Head,
    Tick,
    Repeat,
    LastTick,
    Tail,
}

/// The kind of an object nested in an osu!catch juice stream.
#[derive(Copy, Clone, Debug, PartialEq, Eq, Structural)]
pub enum NestedJuiceStreamObjectKind {
    Fruit,
    Droplet,
    TinyDroplet,
}

/// How many of each nested kind a juice stream holds.
#[derive(Copy, Clone, Debug, PartialEq, Eq, Structural)]
pub struct JuiceStreamCounts {
    pub fruits: u64,
    pub droplets: u64,
    pub tiny_droplets: u64,
}

/// The object that a slider event becomes: ticks are droplets, heads,
/// repeats and tails are fruits, and the last tick is nothing.
pub open spec fn nested_kind(kind: SliderEventKind) -> Option<NestedJuiceStreamObjectKind> {
    match kind {
        SliderEventKind::Tick => Some(NestedJuiceStreamObjectKind::Droplet),
        SliderEventKind::LastTick => None,
        _ => Some(NestedJuiceStreamObjectKind::Fruit),
    }
}

/// The smallest `p`, doubling from `p`, with `gap <= 100 * p`.
pub open spec fn pieces_from(gap: int, p: int) -> int
    decreases gap - p,
    when p >= 1
{
    if gap <= 100 * p {
        p
    } else {
        pieces_from(gap, 2 * p)
    }
}

/// The tiny droplets between two events `gap` milliseconds apart: none up
/// to 80 ms; otherwise the gap is halved until it is at most 100 ms, and a
/// tiny droplet sits at each multiple of that step within the gap.
pub open spec fn tiny_droplets_spec(gap: int) -> int {
    if gap > 80 {
        pieces_from(gap, 1) - 1
    } else {
        0
    }
}

/// The nested objects of the first `n` events, each with the index of the
/// event it belongs to (for a tiny droplet, the event after it).
pub open spec fn nested_upto(events: Seq<(i32, SliderEventKind)>, n: int) -> Seq<(NestedJuiceStreamObjectKind, usize)>
    decreases n,
{
    if n <= 0 {
        Seq::empty()
    } else {
        let prev = nested_upto(events, n - 1);
        let tiny = if n >= 2 {
            tiny_droplets_spec(events[n - 1].0 - events[n - 2].0)
        } else {
            0
        };
        let with_tiny = prev + Seq::new(
            tiny as nat,
            |i: int| (NestedJuiceStreamObjectKind::TinyDroplet, (n - 1) as usize),
        );
        match nested_kind(events[n - 1].1) {
            Some(k) => with_tiny.push((k, (n - 1) as usize)),
            None => with_tiny,
        }
    }
}

/// The number of entries of `s` of kind `k`.
pub open spec fn count_kind(s: Seq<(NestedJuiceStreamObjectKind, usize)>, k: NestedJuiceStreamObjectKind) -> int
    decreases s.len(),
{
    if s.len() == 0 {
        0
    } else {
        count_kind(s.drop_last(), k) + if s.last().0 == k {
            1int
        } else {
            0int
        }
    }
}

proof fn lemma_pieces_bound(gap: int, p: int)
    requires
        p >= 1,
    ensures
        pieces_from(gap, p) >= p,
        pieces_from(gap, p) <= if gap > 100 * p { gap / 50 } else { p },
    decreases gap - p,
{
    if gap > 100 * p {
        lemma_pieces_bound(gap, 2 * p);
    }
}

/// The number of tiny droplets between two events `gap` milliseconds apart.
pub fn tiny_droplets_between(gap: i64) -> (r: u64)
    requires
        gap <= u32::MAX,
    ensures
        r == tiny_droplets_spec(gap as int),
        r <= MAX_TINY_PER_GAP,
{
    if gap <= 80 {
        return 0;
    }
    proof {
        lemma_pieces_bound(gap as int, 1);
    }
    let mut p: i64 = 1;
    while gap > 100 * p
        invariant
            gap > 80,
            gap <= u32::MAX,
            1 <= p,
            gap > 100 * p ==> p <= gap / 100,
            gap <= 100 * p ==> p <= gap / 50 + 1,
            pieces_from(gap as int, 1) == pieces_from(gap as int, p as int),
        decreases gap - p,
    {
        p = 2 * p;
    }
    proof {
        lemma_pieces_bound(gap as int, 1);
    }
    (p - 1) as u64
}

/// The most tiny droplets that one gap between events can hold.
pub const MAX_TINY_PER_GAP: u64 = 85899345;

proof fn lemma_count_push(s: Seq<(NestedJuiceStreamObjectKind, usize)>, x: (NestedJuiceStreamObjectKind, usize), k: NestedJuiceStreamObjectKind)
    ensures
        count_kind(s.push(x), k) == count_kind(s, k) + if x.0 == k { 1int } else { 0int },
{
    assert(s.push(x).drop_last() =~= s);
}

/// Pushes `x` and counts it.
fn push_counted(
    out: &mut Vec<(NestedJuiceStreamObjectKind, usize)>,
    counts: &mut JuiceStreamCounts,
    x: (NestedJuiceStreamObjectKind, usize),
)
    requires
        old(out)@.len() < u64::MAX,
        old(counts).fruits == count_kind(old(out)@, NestedJuiceStreamObjectKind::Fruit),
        old(counts).droplets == count_kind(old(out)@, NestedJuiceStreamObjectKind::Droplet),
        old(counts).tiny_droplets == count_kind(old(out)@, NestedJuiceStreamObjectKind::TinyDroplet),
        count_kind(old(out)@, NestedJuiceStreamObjectKind::Fruit) <= old(out)@.len(),
        count_kind(old(out)@, NestedJuiceStreamObjectKind::Droplet) <= old(out)@.len(),
        count_kind(old(out)@, NestedJuiceStreamObjectKind::TinyDroplet) <= old(out)@.len(),
    ensures
        final(out)@ == old(out)@.push(x),
        final(counts).fruits == count_kind(final(out)@, NestedJuiceStreamObjectKind::Fruit),
        final(counts).droplets == count_kind(final(out)@, NestedJuiceStreamObjectKind::Droplet),
        final(counts).tiny_droplets == count_kind(final(out)@, NestedJuiceStreamObjectKind::TinyDroplet),
        count_kind(final(out)@, NestedJuiceStreamObjectKind::Fruit) <= final(out)@.len(),
        count_kind(final(out)@, NestedJuiceStreamObjectKind::Droplet) <= final(out)@.len(),
        count_kind(final(out)@, NestedJuiceStreamObjectKind::TinyDroplet) <= final(out)@.len(),
{
    proof {
        lemma_count_push(out@, x, NestedJuiceStreamObjectKind::Fruit);
        lemma_count_push(out@, x, NestedJuiceStreamObjectKind::Droplet);
        lemma_count_push(out@, x, NestedJuiceStreamObjectKind::TinyDroplet);
    }
    match x.0 {
        NestedJuiceStreamObjectKind::Fruit => counts.fruits = counts.fruits + 1,
        NestedJuiceStreamObjectKind::Droplet => counts.droplets = counts.droplets + 1,
        NestedJuiceStreamObjectKind::TinyDroplet => counts.tiny_droplets = counts.tiny_droplets + 1,
    }
    out.push(x);
}

/// The objects nested in a juice stream whose slider events, in order, come
/// at the given times (in whole milliseconds) with the given kinds: tiny
/// droplets in the gaps between events, then a fruit or droplet for each
/// event but the last tick. Each entry holds the index of its event, whose
/// position the object takes (tiny droplets need none). Also counts them.
pub fn nested_objects(events: &Vec<(i32, SliderEventKind)>) -> (r: (
    Vec<(NestedJuiceStreamObjectKind, usize)>,
    JuiceStreamCounts,
))
    requires
        events@.len() <= u32::MAX,
    ensures
        r.0@ == nested_upto(events@, events@.len() as int),
        r.1.fruits == count_kind(r.0@, NestedJuiceStreamObjectKind::Fruit),
        r.1.droplets == count_kind(r.0@, NestedJuiceStreamObjectKind::Droplet),
        r.1.tiny_droplets == count_kind(r.0@, NestedJuiceStreamObjectKind::TinyDroplet),
{
    let mut out: Vec<(NestedJuiceStreamObjectKind, usize)> = Vec::new();
    let mut counts = JuiceStreamCounts { fruits: 0, droplets: 0, tiny_droplets: 0 };
    let mut i: usize = 0;
    while i < events.len()
        invariant
            i <= events@.len() <= u32::MAX,
            out@ == nested_upto(events@, i as int),
            out@.len() <= i * (MAX_TINY_PER_GAP + 1),
            counts.fruits == count_kind(out@, NestedJuiceStreamObjectKind::Fruit),
            counts.droplets == count_kind(out@, NestedJuiceStreamObjectKind::Droplet),
            counts.tiny_droplets == count_kind(out@, NestedJuiceStreamObjectKind::TinyDroplet),
            count_kind(out@, NestedJuiceStreamObjectKind::Fruit) <= out@.len(),
            count_kind(out@, NestedJuiceStreamObjectKind::Droplet) <= out@.len(),
            count_kind(out@, NestedJuiceStreamObjectKind::TinyDroplet) <= out@.len(),
        decreases events@.len() - i,
    {
        let ghost before = out@;
        let (time, kind) = events[i];
        let tiny: u64 = if i >= 1 {
            tiny_droplets_between(time as i64 - events[i - 1].0 as i64)
        } else {
            0
        };
        proof {
            assert(i * (MAX_TINY_PER_GAP + 1) <= u32::MAX * (MAX_TINY_PER_GAP + 1)) by (nonlinear_arith)
                requires
                    i <= u32::MAX,
            ;
        }
        let mut j: u64 = 0;
        while j < tiny
            invariant
                before.len() + tiny + 1 < u64::MAX,
                j <= tiny <= MAX_TINY_PER_GAP,
                i < events@.len() <= u32::MAX,
                before.len() <= i * (MAX_TINY_PER_GAP + 1),
                out@ == before + Seq::new(
                    j as nat,
                    |_k: int| (NestedJuiceStreamObjectKind::TinyDroplet, i),
                ),
                counts.fruits == count_kind(out@, NestedJuiceStreamObjectKind::Fruit),
                counts.droplets == count_kind(out@, NestedJuiceStreamObjectKind::Droplet),
                counts.tiny_droplets == count_kind(out@, NestedJuiceStreamObjectKind::TinyDroplet),
                count_kind(out@, NestedJuiceStreamObjectKind::Fruit) <= out@.len(),
                count_kind(out@, NestedJuiceStreamObjectKind::Droplet) <= out@.len(),
                count_kind(out@, NestedJuiceStreamObjectKind::TinyDroplet) <= out@.len(),
            decreases tiny - j,
        {
            push_counted(&mut out, &mut counts, (NestedJuiceStreamObjectKind::TinyDroplet, i));
            j = j + 1;
            assert(out@ =~= before + Seq::new(
                j as nat,
                |_k: int| (NestedJuiceStreamObjectKind::TinyDroplet, i),
            ));
        }
        match kind {
            SliderEventKind::Tick => push_counted(&mut out, &mut counts, (NestedJuiceStreamObjectKind::Droplet, i)),
            SliderEventKind::LastTick => {},
            _ => push_counted(&mut out, &mut counts, (NestedJuiceStreamObjectKind::Fruit, i)),
        }
        i = i + 1;
        proof {
            assert(i * (MAX_TINY_PER_GAP + 1) == (i - 1) * (MAX_TINY_PER_GAP + 1) + MAX_TINY_PER_GAP + 1) by (nonlinear_arith);
        }
    }
    (out, counts)
}

} // verus!
