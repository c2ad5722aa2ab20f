//! The layout engine's geometry: rectangles, sizing rules, and the one
//! partition utility every split in the renderer goes through. Given a
//! length and an ordered list of rules (fixed cells, a percentage, or
//! the remainder), it deterministically divides the length: each rule
//! first asks for its size, any surplus goes to the first remainder rule
//! (or to the last region when there is none), and when space is short
//! the regions are clipped in order.

use vstd::prelude::*;

verus! {

/// An axis-aligned rectangle of terminal cells.
#[derive(Clone, Copy, Debug, PartialEq, Eq, Structural)]
pub struct Rect {
    pub x: u16,
    pub y: u16,
    pub width: u16,
    pub height: u16,
}

impl Rect {
    /// The rectangle stays inside the addressable cell grid.
    pub open spec fn wf(self) -> bool {
        self.x + self.width <= u16::MAX && self.y + self.height <= u16::MAX
    }

    /// The rectangle shrunk by `m` cells on every side; collapses to a
    /// zero-sized rectangle at its own origin when it is too small.
    pub open spec fn spec_inner(self, m: u16) -> Rect {
        if self.width >= 2 * m && self.height >= 2 * m {
            Rect {
                x: (self.x + m) as u16,
                y: (self.y + m) as u16,
                width: (self.width - 2 * m) as u16,
                height: (self.height - 2 * m) as u16,
            }
        } else {
            Rect { x: self.x, y: self.y, width: 0, height: 0 }
        }
    }

    /// The interior left after an `m`-cell margin on every side.
    pub fn inner(&self, m: u16) -> (r: Rect)
        requires
            self.wf(),
        ensures
            r == self.spec_inner(m),
            r.wf(),
    {
        let m2: u32 = 2 * (m as u32);
        if (self.width as u32) >= m2 && (self.height as u32) >= m2 {
            Rect {
                x: self.x + m,
                y: self.y + m,
                width: self.width - 2 * m,
                height: self.height - 2 * m,
            }
        } else {
            Rect { x: self.x, y: self.y, width: 0, height: 0 }
        }
    }
}

/// How one region of a split is sized.
#[derive(Clone, Copy, Debug, PartialEq, Eq, Structural)]
pub enum SizeRule {
    /// Exactly this many cells, when available.
    Fixed(u16),
    /// This percentage of the whole length, rounded down.
    Percent(u16),
    /// Whatever is left over, but at least this many cells, when available.
    Remainder(u16),
}

/// A percentage rule holds an actual percentage.
pub open spec fn rule_wf(r: SizeRule) -> bool {
    match r {
        SizeRule::Percent(p) => p <= 100,
        _ => true,
    }
}

pub open spec fn rules_wf(rules: Seq<SizeRule>) -> bool {
    forall|i: int| 0 <= i < rules.len() ==> rule_wf(#[trigger] rules[i])
}

/// The size a rule asks for, before any surplus is distributed.
pub open spec fn rule_desired(r: SizeRule, total: u16) -> u16
    recommends
        rule_wf(r),
{
    match r {
        SizeRule::Fixed(n) => n,
        SizeRule::Percent(p) => ((total * p) / 100) as u16,
        SizeRule::Remainder(m) => m,
    }
}

pub open spec fn desireds(rules: Seq<SizeRule>, total: u16) -> Seq<u16> {
    Seq::new(rules.len(), |i: int| rule_desired(rules[i], total))
}

/// Sum of a sequence of sizes.
pub open spec fn seq_sum(s: Seq<u16>) -> int
    decreases s.len(),
{
    if s.len() == 0 {
        0
    } else {
        s[0] + seq_sum(s.drop_first())
    }
}

/// Index of the first remainder rule, or -1 when there is none.
pub open spec fn first_remainder(rules: Seq<SizeRule>) -> int
    decreases rules.len(),
{
    if rules.len() == 0 {
        -1
    } else if rules[0] is Remainder {
        0
    } else {
        let t = first_remainder(rules.drop_first());
        if t == -1 {
            -1
        } else {
            t + 1
        }
    }
}

/// Sizes after handing any surplus to the first remainder rule (or, with
/// no remainder rule, to the last region).
pub open spec fn boosted(rules: Seq<SizeRule>, total: u16) -> Seq<u16> {
    let d = desireds(rules, total);
    let s = seq_sum(d);
    if rules.len() == 0 || s >= total {
        d
    } else {
        let fr = first_remainder(rules);
        let idx = if fr >= 0 {
            fr
        } else {
            rules.len() - 1
        };
        d.update(idx, (d[idx] + (total - s)) as u16)
    }
}

/// Sizes clipped, in order, to the space that remains.
pub open spec fn capped(d: Seq<u16>, rem: u16) -> Seq<u16>
    decreases d.len(),
{
    if d.len() == 0 {
        Seq::<u16>::empty()
    } else {
        let a = if d[0] <= rem {
            d[0]
        } else {
            rem
        };
        seq![a] + capped(d.drop_first(), (rem - a) as u16)
    }
}

/// The deterministic partition of `total` cells among `rules`.
pub open spec fn spec_partition(total: u16, rules: Seq<SizeRule>) -> Seq<u16> {
    capped(boosted(rules, total), total)
}

pub proof fn lemma_seq_sum_take_step(s: Seq<u16>, i: int)
    requires
        0 <= i < s.len(),
    ensures
        seq_sum(s.take(i + 1)) == seq_sum(s.take(i)) + s[i],
    decreases i,
{
    if i == 0 {
        assert(s.take(1) =~= seq![s[0]]);
        assert(s.take(1).drop_first() =~= Seq::<u16>::empty());
        assert(s.take(0) =~= Seq::<u16>::empty());
    } else {
        lemma_seq_sum_take_step(s.drop_first(), i - 1);
        assert(s.take(i + 1).drop_first() =~= s.drop_first().take(i));
        assert(s.take(i).drop_first() =~= s.drop_first().take(i - 1));
        assert(s.take(i + 1)[0] == s[0]);
        assert(s.take(i)[0] == s[0]);
    }
}

pub proof fn lemma_seq_sum_bounds(s: Seq<u16>)
    ensures
        0 <= seq_sum(s),
        forall|i: int| 0 <= i < s.len() ==> s[i] <= seq_sum(s),
    decreases s.len(),
{
    if s.len() > 0 {
        lemma_seq_sum_bounds(s.drop_first());
        assert forall|i: int| 0 <= i < s.len() implies s[i] <= seq_sum(s) by {
            if i > 0 {
                assert(s.drop_first()[i - 1] == s[i]);
            }
        }
    }
}

pub proof fn lemma_seq_sum_prefix_le(s: Seq<u16>, i: int)
    requires
        0 <= i <= s.len(),
    ensures
        seq_sum(s.take(i)) <= seq_sum(s),
    decreases s.len() - i,
{
    if i == s.len() {
        assert(s.take(i) =~= s);
    } else {
        lemma_seq_sum_take_step(s, i);
        lemma_seq_sum_prefix_le(s, i + 1);
    }
}

pub proof fn lemma_capped_len(d: Seq<u16>, rem: u16)
    ensures
        capped(d, rem).len() == d.len(),
    decreases d.len(),
{
    if d.len() > 0 {
        let a = if d[0] <= rem {
            d[0]
        } else {
            rem
        };
        lemma_capped_len(d.drop_first(), (rem - a) as u16);
    }
}

pub proof fn lemma_capped_sum(d: Seq<u16>, rem: u16)
    ensures
        seq_sum(capped(d, rem)) <= rem,
    decreases d.len(),
{
    if d.len() > 0 {
        let a = if d[0] <= rem {
            d[0]
        } else {
            rem
        };
        lemma_capped_sum(d.drop_first(), (rem - a) as u16);
        assert(capped(d, rem).drop_first() =~= capped(d.drop_first(), (rem - a) as u16));
    }
}

proof fn lemma_first_remainder_at(rules: Seq<SizeRule>, i: int)
    requires
        0 <= i < rules.len(),
        rules[i] is Remainder,
        forall|j: int| 0 <= j < i ==> !(#[trigger] rules[j] is Remainder),
    ensures
        first_remainder(rules) == i,
    decreases rules.len(),
{
    if i > 0 {
        assert forall|j: int| 0 <= j < i - 1 implies !(#[trigger] rules.drop_first()[j]
            is Remainder) by {
            assert(rules.drop_first()[j] == rules[j + 1]);
        }
        assert(rules.drop_first()[i - 1] == rules[i]);
        lemma_first_remainder_at(rules.drop_first(), i - 1);
    }
}

proof fn lemma_first_remainder_none(rules: Seq<SizeRule>)
    requires
        forall|j: int| 0 <= j < rules.len() ==> !(#[trigger] rules[j] is Remainder),
    ensures
        first_remainder(rules) == -1,
    decreases rules.len(),
{
    if rules.len() > 0 {
        assert forall|j: int| 0 <= j < rules.len() - 1 implies !(#[trigger] rules.drop_first()[j]
            is Remainder) by {
            assert(rules.drop_first()[j] == rules[j + 1]);
        }
        lemma_first_remainder_none(rules.drop_first());
    }
}

/// Divides `total` cells among the rules, in order.
pub fn partition(total: u16, rules: &Vec<SizeRule>) -> (r: Vec<u16>)
    requires
        rules_wf(rules@),
    ensures
        r@ == spec_partition(total, rules@),
        r@.len() == rules@.len(),
{
    let n: usize = rules.len();
    let mut desired: Vec<u16> = Vec::new();
    let mut i: usize = 0;
    while i < n
        invariant
            n == rules@.len(),
            0 <= i <= n,
            rules_wf(rules@),
            desired@ =~= desireds(rules@, total).take(i as int),
        decreases n - i,
    {
        let d: u16 = match rules[i] {
            SizeRule::Fixed(v) => v,
            SizeRule::Percent(p) => {
                proof {
                    assert((total * p) / 100 <= total) by (nonlinear_arith)
                        requires
                            p <= 100,
                    ;
                }
                (((total as u32) * (p as u32)) / 100) as u16
            },
            SizeRule::Remainder(m) => m,
        };
        proof {
            assert(d == rule_desired(rules@[i as int], total));
        }
        desired.push(d);
        i = i + 1;
        proof {
            assert(desired@ =~= desireds(rules@, total).take(i as int));
        }
    }
    proof {
        assert(desired@ =~= desireds(rules@, total));
    }
    let ghost dseq = desireds(rules@, total);

    // Sum of the desired sizes; u128 cannot overflow for any vector length.
    let mut s: u128 = 0;
    let mut i: usize = 0;
    while i < n
        invariant
            n == rules@.len(),
            0 <= i <= n,
            desired@ == dseq,
            desired@.len() == n,
            s == seq_sum(dseq.take(i as int)),
            s <= (i as int) * 65535,
        decreases n - i,
    {
        proof {
            lemma_seq_sum_take_step(dseq, i as int);
        }
        s = s + (desired[i] as u128);
        i = i + 1;
    }
    proof {
        assert(dseq.take(n as int) =~= dseq);
    }

    // Hand any surplus to the first remainder rule, else to the last region.
    if n > 0 && s < (total as u128) {
        let extra: u16 = (total as u128 - s) as u16;
        let mut idx: usize = 0;
        let mut found: bool = false;
        let mut i: usize = 0;
        while i < n
            invariant
                n == rules@.len(),
                0 <= i <= n,
                !found ==> forall|j: int|
                    0 <= j < i ==> !(#[trigger] rules@[j] is Remainder),
                found ==> (0 <= idx < n && rules@[idx as int] is Remainder && forall|j: int|
                    0 <= j < idx ==> !(#[trigger] rules@[j] is Remainder)),
                found ==> i == n,
            decreases n - i,
        {
            let is_rem: bool = match rules[i] {
                SizeRule::Remainder(_) => true,
                _ => false,
            };
            if is_rem {
                idx = i;
                found = true;
                i = n;
            } else {
                i = i + 1;
            }
        }
        let target: usize = if found {
            idx
        } else {
            n - 1
        };
        proof {
            if found {
                lemma_first_remainder_at(rules@, idx as int);
            } else {
                lemma_first_remainder_none(rules@);
            }
            lemma_seq_sum_bounds(dseq);
            assert(dseq[target as int] <= s);
        }
        let bumped: u16 = desired[target] + extra;
        desired.set(target, bumped);
        proof {
            assert(desired@ =~= boosted(rules@, total));
        }
    } else {
        proof {
            assert(desired@ =~= boosted(rules@, total));
        }
    }
    let ghost bseq = boosted(rules@, total);
    proof {
        lemma_capped_len(bseq, total);
    }

    // Clip the sizes, in order, to the space that remains.
    let mut out: Vec<u16> = Vec::new();
    let mut rem: u16 = total;
    proof {
        assert(bseq.skip(0) =~= bseq);
        assert(Seq::<u16>::empty() + capped(bseq, total) =~= capped(bseq, total));
    }
    let mut i: usize = 0;
    while i < n
        invariant
            n == rules@.len(),
            0 <= i <= n,
            desired@ == bseq,
            desired@.len() == n,
            out@.len() == i,
            capped(bseq, total) =~= out@ + capped(bseq.skip(i as int), rem),
        decreases n - i,
    {
        let d: u16 = desired[i];
        let a: u16 = if d <= rem {
            d
        } else {
            rem
        };
        proof {
            assert(bseq.skip(i as int)[0] == bseq[i as int]);
            assert(bseq.skip(i as int).drop_first() =~= bseq.skip(i as int + 1));
        }
        let ghost old_out = out@;
        let ghost old_rem = rem;
        out.push(a);
        rem = rem - a;
        i = i + 1;
        proof {
            assert(capped(bseq.skip(i as int - 1), old_rem) =~= seq![a] + capped(
                bseq.skip(i as int),
                rem,
            ));
            assert(old_out + (seq![a] + capped(bseq.skip(i as int), rem)) =~= out@ + capped(
                bseq.skip(i as int),
                rem,
            ));
        }
    }
    proof {
        assert(bseq.skip(n as int) =~= Seq::<u16>::empty());
        assert(out@ + capped(bseq.skip(n as int), rem) =~= out@);
        assert(out@ =~= spec_partition(total, rules@));
    }
    out
}

/// The `j`-th sub-rectangle of a split of `area`.
pub open spec fn spec_chunk(area: Rect, vertical: bool, rules: Seq<SizeRule>, j: int) -> Rect {
    let sizes = spec_partition(if vertical {
        area.height
    } else {
        area.width
    }, rules);
    let off = seq_sum(sizes.take(j));
    if vertical {
        Rect { x: area.x, y: (area.y + off) as u16, width: area.width, height: sizes[j] }
    } else {
        Rect { x: (area.x + off) as u16, y: area.y, width: sizes[j], height: area.height }
    }
}

/// Splits `area` along one axis into one sub-rectangle per rule, in
/// order, starting at the area's origin.
pub fn split(area: Rect, vertical: bool, rules: &Vec<SizeRule>) -> (r: Vec<Rect>)
    requires
        area.wf(),
        rules_wf(rules@),
    ensures
        r@.len() == rules@.len(),
        forall|j: int| 0 <= j < r@.len() ==> r@[j] == spec_chunk(area, vertical, rules@, j),
        forall|j: int| 0 <= j < r@.len() ==> (#[trigger] r@[j]).wf(),
{
    let total: u16 = if vertical {
        area.height
    } else {
        area.width
    };
    let sizes = partition(total, rules);
    let ghost sseq = spec_partition(total, rules@);
    proof {
        lemma_capped_sum(boosted(rules@, total), total);
        lemma_seq_sum_bounds(sseq);
    }
    let n: usize = sizes.len();
    let start: u16 = if vertical {
        area.y
    } else {
        area.x
    };
    let mut out: Vec<Rect> = Vec::new();
    let mut off: u16 = start;
    let mut i: usize = 0;
    while i < n
        invariant
            n == sseq.len(),
            sizes@ == sseq,
            sseq == spec_partition(total, rules@),
            0 <= i <= n,
            out@.len() == i,
            area.wf(),
            total == if vertical { area.height } else { area.width },
            start == if vertical { area.y } else { area.x },
            seq_sum(sseq) <= total,
            off == start + seq_sum(sseq.take(i as int)),
            forall|j: int| 0 <= j < i ==> out@[j] == spec_chunk(area, vertical, rules@, j),
            forall|j: int| 0 <= j < i ==> (#[trigger] out@[j]).wf(),
        decreases n - i,
    {
        proof {
            lemma_seq_sum_prefix_le(sseq, i as int + 1);
            lemma_seq_sum_take_step(sseq, i as int);
            lemma_seq_sum_bounds(sseq.take(i as int));
        }
        let sz: u16 = sizes[i];
        let rect = if vertical {
            Rect { x: area.x, y: off, width: area.width, height: sz }
        } else {
            Rect { x: off, y: area.y, width: sz, height: area.height }
        };
        let ghost prev_i = i as int;
        out.push(rect);
        off = off + sz;
        i = i + 1;
        proof {
            assert(seq_sum(sseq.take(prev_i + 1)) == seq_sum(sseq.take(prev_i)) + sseq[prev_i]);
            assert(out@[prev_i] == spec_chunk(area, vertical, rules@, prev_i));
            assert(out@[prev_i].wf());
        }
    }
    out
}

/// The layout strategy a terminal size selects.
#[derive(Clone, Copy, Debug, PartialEq, Eq, Structural)]
pub enum LayoutMode {
    Compact,
    Narrow,
    Wide,
}

pub open spec fn spec_layout_mode(width: u16, height: u16) -> LayoutMode {
    if height < 20 || width < 60 {
        LayoutMode::Compact
    } else if width < 100 {
        LayoutMode::Narrow
    } else {
        LayoutMode::Wide
    }
}

/// Law: layout-mode selection is a pure function of the terminal size:
/// compact exactly when the height is under 20 or the width under 60;
/// otherwise narrow exactly when the width is under 100; otherwise wide.
pub fn layout_mode(width: u16, height: u16) -> (m: LayoutMode)
    ensures
        m == spec_layout_mode(width, height),
        m is Compact <==> (height < 20 || width < 60),
        m is Narrow <==> (height >= 20 && width >= 60 && width < 100),
        m is Wide <==> (height >= 20 && width >= 60 && width >= 100),
{
    if height < 20 || width < 60 {
        LayoutMode::Compact
    } else if width < 100 {
        LayoutMode::Narrow
    } else {
        LayoutMode::Wide
    }
}

} // verus!
