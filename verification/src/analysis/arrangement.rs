//! Arrangement analysis: what plays when, and where the structure turns.
//!
//! Sections are inferred from *which tracks are active*, not from labels or
//! genre convention. A change in instrumentation is the one structural signal
//! that is actually in the data.
use vstd::prelude::*;

verus! {

broadcast use vstd::std_specs::vec::group_vec_axioms;

/// One inferred section of the arrangement: bars `start_bar..=end_bar`
/// (counted from 1) and the tracks active throughout them.
#[derive(Debug, Clone)]
pub struct Section {
    pub start_bar: usize,
    pub end_bar: usize,
    pub active: Vec<usize>,
}

/// How many bars a section spans.
pub open spec fn span(s: Section) -> int {
    s.end_bar - s.start_bar + 1
}

/// `sections` cover bars `1..=bars` in order, one after the other, each
/// at least one bar long.
pub open spec fn tiles(sections: Seq<Section>, bars: nat) -> bool {
    &&& (sections.len() == 0 <==> bars == 0)
    &&& sections.len() > 0 ==> sections[0].start_bar == 1 && sections.last().end_bar == bars
    &&& forall|i: int|
        0 <= i < sections.len() ==> 1 <= (#[trigger] sections[i]).start_bar <= sections[i].end_bar <= bars
    &&& forall|i: int, j: int|
        #![trigger sections[i], sections[j]]
        0 <= i < j < sections.len() ==> sections[i].end_bar < sections[j].start_bar
    &&& forall|i: int, j: int|
        #![trigger sections[i], sections[j]]
        0 <= i && j == i + 1 && j < sections.len() ==> sections[j].start_bar == sections[i].end_bar + 1
}

/// `sections` group the bars of `grid` (the tracks active in each bar) into
/// maximal runs of bars with the same tracks.
pub open spec fn groups_grid(grid: Seq<Seq<usize>>, sections: Seq<Section>) -> bool {
    &&& tiles(sections, grid.len())
    &&& forall|i: int, b: int|
        0 <= i < sections.len() && sections[i].start_bar <= b + 1 <= sections[i].end_bar ==> #[trigger] grid[b]
            == (#[trigger] sections[i]).active@
    &&& forall|i: int, j: int|
        #![trigger sections[i], sections[j]]
        0 <= i && j == i + 1 && j < sections.len() ==> sections[j].active@ != sections[i].active@
}

fn same_tracks(a: &Vec<usize>, b: &Vec<usize>) -> (r: bool)
    ensures
        r == (a@ == b@),
{
    if a.len() != b.len() {
        return false;
    }
    let mut i: usize = 0;
    while i < a.len()
        invariant
            i <= a@.len(),
            a@.len() == b@.len(),
            forall|k: int| 0 <= k < i ==> a@[k] == b@[k],
        decreases a.len() - i,
    {
        if a[i] != b[i] {
            return false;
        }
        i += 1;
    }
    assert(a@ =~= b@);
    true
}

fn copy_tracks(a: &Vec<usize>) -> (r: Vec<usize>)
    ensures
        r@ == a@,
{
    let mut r: Vec<usize> = Vec::new();
    let mut i: usize = 0;
    while i < a.len()
        invariant
            i <= a@.len(),
            r@ == a@.take(i as int),
        decreases a.len() - i,
    {
        r.push(a[i]);
        assert(a@.take(i + 1) =~= a@.take(i as int).push(a@[i as int]));
        i += 1;
    }
    assert(a@.take(a@.len() as int) =~= a@);
    r
}

proof fn lemma_extend_last(g: Seq<Seq<usize>>, bar: int, before: Seq<Section>, after: Seq<Section>)
    requires
        0 <= bar < g.len(),
        groups_grid(g.take(bar), before),
        before.len() > 0,
        before.last().active@ == g[bar],
        after.len() == before.len(),
        forall|i: int| 0 <= i < before.len() - 1 ==> after[i] == before[i],
        after.last().start_bar == before.last().start_bar,
        after.last().end_bar == bar + 1,
        after.last().active@ == before.last().active@,
    ensures
        groups_grid(g.take(bar + 1), after),
{
    let t = g.take(bar + 1);
    let n = before.len();
    assert forall|i: int, b: int|
        0 <= i < after.len() && after[i].start_bar <= b + 1 <= after[i].end_bar implies #[trigger] t[b]
            == (#[trigger] after[i]).active@ by {
        if i < n - 1 {
            assert(g.take(bar)[b] == t[b]);
        } else if b < bar {
            assert(g.take(bar)[b] == t[b]);
        }
    }
    assert forall|i: int, j: int|
        #![trigger after[i], after[j]]
        0 <= i && j == i + 1 && j < after.len() implies after[j].active@ != after[i].active@ by {
        if j < n - 1 {
            assert(after[j] == before[j]);
        }
        assert(after[i] == before[i]);
        assert(before[j].active@ != before[i].active@);
    }
    assert forall|i: int| 0 <= i < after.len() implies 1 <= (#[trigger] after[i]).start_bar <= after[i].end_bar <= bar + 1 by {
        if i < n - 1 {
            assert(after[i] == before[i]);
        }
    }
    assert forall|i: int, j: int|
        #![trigger after[i], after[j]]
        0 <= i < j < after.len() implies after[i].end_bar < after[j].start_bar by {
        assert(after[i] == before[i]);
        if j < n - 1 {
            assert(after[j] == before[j]);
        }
        assert(before[i].end_bar < before[j].start_bar);
    }
    assert forall|i: int, j: int|
        #![trigger after[i], after[j]]
        0 <= i && j == i + 1 && j < after.len() implies after[j].start_bar == after[i].end_bar + 1 by {
        if j < n - 1 {
            assert(after[j] == before[j]);
        }
        assert(after[i] == before[i]);
        assert(before[j].start_bar == before[i].end_bar + 1);
    }
    if n > 1 {
        assert(after[0] == before[0]);
    }
}

proof fn lemma_start_new(g: Seq<Seq<usize>>, bar: int, before: Seq<Section>, after: Seq<Section>)
    requires
        0 <= bar < g.len(),
        groups_grid(g.take(bar), before),
        before.len() == 0 || before.last().active@ != g[bar],
        after.len() == before.len() + 1,
        forall|i: int| 0 <= i < before.len() ==> after[i] == before[i],
        after.last().start_bar == bar + 1,
        after.last().end_bar == bar + 1,
        after.last().active@ == g[bar],
    ensures
        groups_grid(g.take(bar + 1), after),
{
    let t = g.take(bar + 1);
    let n = before.len();
    assert forall|i: int, b: int|
        0 <= i < after.len() && after[i].start_bar <= b + 1 <= after[i].end_bar implies #[trigger] t[b]
            == (#[trigger] after[i]).active@ by {
        if i < n {
            assert(g.take(bar)[b] == t[b]);
        }
    }
    assert forall|i: int, j: int|
        #![trigger after[i], after[j]]
        0 <= i && j == i + 1 && j < after.len() implies after[j].active@ != after[i].active@ by {
        assert(after[i] == before[i]);
        if j < n {
            assert(after[j] == before[j]);
            assert(before[j].active@ != before[i].active@);
        }
    }
    assert forall|i: int| 0 <= i < after.len() implies 1 <= (#[trigger] after[i]).start_bar <= after[i].end_bar <= bar + 1 by {
        if i < n {
            assert(after[i] == before[i]);
        }
    }
    assert forall|i: int, j: int|
        #![trigger after[i], after[j]]
        0 <= i < j < after.len() implies after[i].end_bar < after[j].start_bar by {
        assert(after[i] == before[i]);
        if j < n {
            assert(after[j] == before[j]);
            assert(before[i].end_bar < before[j].start_bar);
        }
    }
    assert forall|i: int, j: int|
        #![trigger after[i], after[j]]
        0 <= i && j == i + 1 && j < after.len() implies after[j].start_bar == after[i].end_bar + 1 by {
        assert(after[i] == before[i]);
        if j < n {
            assert(after[j] == before[j]);
            assert(before[j].start_bar == before[i].end_bar + 1);
        }
    }
    if n > 0 {
        assert(after[0] == before[0]);
    }
}

/// Group consecutive bars that share the same set of active tracks.
pub fn sections(grid: &Vec<Vec<usize>>) -> (r: Vec<Section>)
    ensures
        groups_grid(grid@.map_values(|g: Vec<usize>| g@), r@),
{
    let ghost g = grid@.map_values(|v: Vec<usize>| v@);
    let mut out: Vec<Section> = Vec::new();
    let mut bar: usize = 0;
    assert(g.take(0) =~= Seq::<Seq<usize>>::empty());
    while bar < grid.len()
        invariant
            bar <= grid@.len(),
            g == grid@.map_values(|v: Vec<usize>| v@),
            groups_grid(g.take(bar as int), out@),
        decreases grid.len() - bar,
    {
        let n = out.len();
        assert(g[bar as int] == grid@[bar as int]@);
        let extend = n > 0 && same_tracks(&out[n - 1].active, &grid[bar]);
        let ghost before = out@;
        if extend {
            let last = out.pop().unwrap();
            out.push(Section { start_bar: last.start_bar, end_bar: bar + 1, active: last.active });
            proof {
                lemma_extend_last(g, bar as int, before, out@);
            }
        } else {
            let active = copy_tracks(&grid[bar]);
            out.push(Section { start_bar: bar + 1, end_bar: bar + 1, active });
            proof {
                lemma_start_new(g, bar as int, before, out@);
            }
        }
        bar += 1;
    }
    assert(g.take(grid@.len() as int) =~= g);
    out
}

/// `merged` is `raw` with each section shorter than `min_bars` bars, after
/// the first, folded into the section before it.
pub open spec fn merged_sections(raw: Seq<Section>, min_bars: nat) -> Seq<(usize, usize, Seq<usize>)>
    decreases raw.len(),
{
    if raw.len() == 0 {
        Seq::empty()
    } else {
        let m = merged_sections(raw.drop_last(), min_bars);
        let x = raw.last();
        if m.len() > 0 && span(x) < min_bars {
            m.update(m.len() - 1, (m.last().0, x.end_bar, m.last().2))
        } else {
            m.push((x.start_bar, x.end_bar, x.active@))
        }
    }
}

/// The view of a section.
pub open spec fn section_view(s: Section) -> (usize, usize, Seq<usize>) {
    (s.start_bar, s.end_bar, s.active@)
}

/// Merge runs shorter than `min_bars` into their predecessor: a one-bar gap
/// where a clip happens to end early is not a section of the song.
pub fn merge_short(raw: Vec<Section>, min_bars: usize) -> (r: Vec<Section>)
    requires
        forall|i: int| 0 <= i < raw@.len() ==> 1 <= (#[trigger] raw@[i]).start_bar <= raw@[i].end_bar,
    ensures
        r@.map_values(|s: Section| section_view(s)) == merged_sections(raw@, min_bars as nat),
{
    let ghost all = raw@;
    let mut raw = raw;
    let count = raw.len();
    let mut merged: Vec<Section> = Vec::new();
    let mut taken: usize = 0;
    assert(all.skip(0) =~= all);
    assert(all.take(0) =~= Seq::<Section>::empty());
    while raw.len() > 0
        invariant
            taken + raw@.len() == all.len(),
            all.len() == count,
            raw@ == all.skip(taken as int),
            forall|i: int| 0 <= i < all.len() ==> 1 <= (#[trigger] all[i]).start_bar <= all[i].end_bar,
            merged@.map_values(|s: Section| section_view(s)) == merged_sections(all.take(taken as int), min_bars as nat),
        decreases raw.len(),
    {
        let section = raw.remove(0);
        assert(raw@ =~= all.skip(taken + 1));
        assert(section == all[taken as int]);
        let ghost prefix = all.take(taken + 1);
        assert(prefix.drop_last() =~= all.take(taken as int));
        let ghost before = merged@;
        let length = section.end_bar - section.start_bar + 1;
        let n = merged.len();
        if n > 0 && length < min_bars {
            let previous = merged.pop().unwrap();
            merged.push(Section { start_bar: previous.start_bar, end_bar: section.end_bar, active: previous.active });
            assert(merged@.map_values(|s: Section| section_view(s)) =~= merged_sections(prefix, min_bars as nat));
        } else {
            merged.push(section);
            assert(merged@.map_values(|s: Section| section_view(s)) =~= merged_sections(prefix, min_bars as nat));
        }
        taken += 1;
    }
    assert(all.take(all.len() as int) =~= all);
    merged
}

/// Folding short runs into their predecessors moves only end bars: every
/// merged section starts where a raw section starts, the first one or one
/// that spans at least `min_bars` bars, and keeps that raw section's tracks;
/// it ends where that or a later raw section ends.
pub proof fn lemma_merging_keeps_tracks(raw: Seq<Section>, min_bars: nat)
    ensures
        ({
            let m = merged_sections(raw, min_bars);
            forall|i: int|
                0 <= i < m.len() ==> exists|k: int, j: int|
                    0 <= k <= j < raw.len() && (k == 0 || span(raw[k]) >= min_bars) && raw[k].start_bar
                        == (#[trigger] m[i]).0 && m[i].2 == raw[k].active@ && raw[j].end_bar == m[i].1
        }),
    decreases raw.len(),
{
    if raw.len() > 0 {
        let p = raw.drop_last();
        lemma_merging_keeps_tracks(p, min_bars);
        let pm = merged_sections(p, min_bars);
        let m = merged_sections(raw, min_bars);
        let last = raw.len() - 1;
        assert forall|i: int| 0 <= i < m.len() implies exists|k: int, j: int|
            0 <= k <= j < raw.len() && (k == 0 || span(raw[k]) >= min_bars) && raw[k].start_bar == (
            #[trigger] m[i]).0 && m[i].2 == raw[k].active@ && raw[j].end_bar == m[i].1 by {
            if i < pm.len() && !(pm.len() > 0 && span(raw.last()) < min_bars && i == pm.len() - 1) {
                let (k, j) = choose|k: int, j: int|
                    0 <= k <= j < p.len() && (k == 0 || span(p[k]) >= min_bars) && p[k].start_bar == (
                    #[trigger] pm[i]).0 && pm[i].2 == p[k].active@ && p[j].end_bar == pm[i].1;
                assert(m[i] == pm[i]);
                assert(p[k] == raw[k] && p[j] == raw[j]);
            } else if i < pm.len() {
                let (k, j) = choose|k: int, j: int|
                    0 <= k <= j < p.len() && (k == 0 || span(p[k]) >= min_bars) && p[k].start_bar == (
                    #[trigger] pm[i]).0 && pm[i].2 == p[k].active@ && p[j].end_bar == pm[i].1;
                assert(p[k] == raw[k]);
                assert(m[i].1 == raw[last].end_bar);
            } else {
                assert(m[i] == (raw[last].start_bar, raw[last].end_bar, raw[last].active@));
                assert(last == 0 || span(raw[last]) >= min_bars);
            }
        }
    }
}

/// Some section of `m` starts where `x` starts, with its tracks.
pub open spec fn starts_section(m: Seq<(usize, usize, Seq<usize>)>, x: Section) -> bool {
    exists|i: int| 0 <= i < m.len() && m[i].0 == x.start_bar && m[i].2 == x.active@
}

/// A raw section that spans at least `min_bars` bars, and the first one,
/// is never folded away: a merged section starts where it starts, with its
/// tracks.
pub proof fn lemma_merging_keeps_long_runs(raw: Seq<Section>, min_bars: nat)
    ensures
        forall|k: int|
            0 <= k < raw.len() && (k == 0 || span(raw[k]) >= min_bars) ==> starts_section(
                merged_sections(raw, min_bars),
                #[trigger] raw[k],
            ),
    decreases raw.len(),
{
    if raw.len() > 0 {
        let p = raw.drop_last();
        lemma_merging_keeps_long_runs(p, min_bars);
        let pm = merged_sections(p, min_bars);
        let m = merged_sections(raw, min_bars);
        let last = raw.len() - 1;
        assert forall|k: int|
            0 <= k < raw.len() && (k == 0 || span(raw[k]) >= min_bars) implies starts_section(
            m,
            #[trigger] raw[k],
        ) by {
            if k < last {
                assert(p[k] == raw[k]);
                assert(starts_section(pm, p[k]));
                let i = choose|i: int| 0 <= i < pm.len() && pm[i].0 == p[k].start_bar && pm[i].2 == p[k].active@;
                assert(m[i].0 == pm[i].0 && m[i].2 == pm[i].2);
            } else {
                assert(m[m.len() - 1] == (raw[last].start_bar, raw[last].end_bar, raw[last].active@));
            }
        }
    }
}

/// Merging keeps the bars covered (the merged sections still tile the same
/// bars, one after the other), and every merged section after the first
/// spans at least `min_bars` bars.
pub proof fn lemma_merged_sections(raw: Seq<Section>, min_bars: nat, bars: nat)
    requires
        tiles(raw, bars),
    ensures
        ({
            let m = merged_sections(raw, min_bars);
            &&& (m.len() == 0 <==> bars == 0)
            &&& m.len() > 0 ==> m[0].0 == 1 && m.last().1 == bars
            &&& forall|i: int| 0 <= i < m.len() ==> (#[trigger] m[i]).0 <= m[i].1
            &&& forall|i: int| 0 < i < m.len() ==> (#[trigger] m[i]).0 == m[i - 1].1 + 1
            &&& forall|i: int| 0 < i < m.len() ==> (#[trigger] m[i]).1 - m[i].0 + 1 >= min_bars
        }),
    decreases raw.len(),
{
    if raw.len() > 0 {
        let p = raw.drop_last();
        let x = raw.last();
        if p.len() > 0 {
            assert(tiles(p, p.last().end_bar as nat)) by {
                assert forall|i: int| 0 <= i < p.len() implies 1 <= (#[trigger] p[i]).start_bar <= p[i].end_bar <= p.last().end_bar by {
                    assert(p[i] == raw[i]);
                    assert(p.last() == raw[p.len() - 1]);
                    if i < p.len() - 1 {
                        assert(raw[i].end_bar < raw[p.len() - 1].start_bar);
                    }
                }
                assert forall|i: int, j: int|
                    #![trigger p[i], p[j]]
                    0 <= i < j < p.len() implies p[i].end_bar < p[j].start_bar by {
                    assert(p[i] == raw[i]);
                    assert(p[j] == raw[j]);
                }
                assert forall|i: int, j: int|
                    #![trigger p[i], p[j]]
                    0 <= i && j == i + 1 && j < p.len() implies p[j].start_bar == p[i].end_bar + 1 by {
                    assert(p[i] == raw[i]);
                    assert(p[j] == raw[j]);
                }
                assert(p[0] == raw[0]);
            }
            lemma_merged_sections(p, min_bars, p.last().end_bar as nat);
            assert(raw[raw.len() - 1].start_bar == raw[raw.len() - 2].end_bar + 1);
            assert(raw[raw.len() - 1].start_bar <= raw[raw.len() - 1].end_bar);
            let mp = merged_sections(p, min_bars);
            let m = merged_sections(raw, min_bars);
            if mp.len() > 0 && span(x) < min_bars {
                assert forall|i: int| 0 <= i < m.len() implies (#[trigger] m[i]).0 <= m[i].1 by {
                    if i < mp.len() - 1 {
                        assert(m[i] == mp[i]);
                    }
                }
                assert forall|i: int| 0 < i < m.len() implies (#[trigger] m[i]).0 == m[i - 1].1 + 1 by {
                    assert(m[i - 1] == mp[i - 1]);
                    if i < mp.len() - 1 {
                        assert(m[i] == mp[i]);
                    }
                }
                assert forall|i: int| 0 < i < m.len() implies (#[trigger] m[i]).1 - m[i].0 + 1 >= min_bars by {
                    if i < mp.len() - 1 {
                        assert(m[i] == mp[i]);
                    } else {
                        assert(mp[i].1 - mp[i].0 + 1 >= min_bars);
                    }
                }
            } else {
                assert forall|i: int| 0 <= i < m.len() implies (#[trigger] m[i]).0 <= m[i].1 by {
                    if i < mp.len() {
                        assert(m[i] == mp[i]);
                    }
                }
                assert forall|i: int| 0 < i < m.len() implies (#[trigger] m[i]).0 == m[i - 1].1 + 1 by {
                    assert(m[i - 1] == mp[i - 1]);
                    if i < mp.len() {
                        assert(m[i] == mp[i]);
                    }
                }
                assert forall|i: int| 0 < i < m.len() implies (#[trigger] m[i]).1 - m[i].0 + 1 >= min_bars by {
                    if i < mp.len() {
                        assert(m[i] == mp[i]);
                    }
                }
            }
        } else {
            assert(merged_sections(p, min_bars).len() == 0);
        }
    }
}

/// What changes between two sections: the tracks that enter (active after
/// but not before) and the tracks that exit (active before but not after),
/// each in the order its section lists them.
pub fn transition(before: &Vec<usize>, after: &Vec<usize>) -> (r: (Vec<usize>, Vec<usize>))
    ensures
        r.0@ == after@.filter(|t: usize| !before@.contains(t)),
        r.1@ == before@.filter(|t: usize| !after@.contains(t)),
{
    let entered = missing_from(after, before);
    let exited = missing_from(before, after);
    (entered, exited)
}

/// A change between two consecutive sections: the bar the second starts at,
/// the tracks that enter and exit there, and how many tracks play before and
/// after.
pub struct Turn {
    pub at_bar: usize,
    pub enters: Vec<usize>,
    pub exits: Vec<usize>,
    pub tracks_before: usize,
    pub tracks_after: usize,
}

/// The view of a [`Turn`].
pub open spec fn turn_view(t: Turn) -> (usize, Seq<usize>, Seq<usize>, usize, usize) {
    (t.at_bar, t.enters@, t.exits@, t.tracks_before, t.tracks_after)
}

/// The change from section `before` to section `after`.
pub open spec fn turn_of(before: Section, after: Section) -> (usize, Seq<usize>, Seq<usize>, usize, usize) {
    (
        after.start_bar,
        after.active@.filter(|t: usize| !before.active@.contains(t)),
        before.active@.filter(|t: usize| !after.active@.contains(t)),
        before.active@.len() as usize,
        after.active@.len() as usize,
    )
}

/// The changes between consecutive sections of `s`, in order, leaving out
/// the boundaries where nothing enters or exits.
pub open spec fn changes(s: Seq<Section>) -> Seq<(usize, Seq<usize>, Seq<usize>, usize, usize)>
    decreases s.len(),
{
    if s.len() < 2 {
        Seq::empty()
    } else {
        let t = turn_of(s[s.len() - 2], s.last());
        if t.1.len() == 0 && t.2.len() == 0 {
            changes(s.drop_last())
        } else {
            changes(s.drop_last()).push(t)
        }
    }
}

/// The transitions of an arrangement: for each boundary between
/// consecutive sections where a track enters or exits, what changes there.
pub fn transitions(sections: &Vec<Section>) -> (r: Vec<Turn>)
    ensures
        Seq::new(r@.len(), |i: int| turn_view(r@[i])) == changes(sections@),
        forall|i: int|
            0 <= i < r@.len() ==> ((#[trigger] r@[i]).enters@.len() > 0 || r@[i].exits@.len() > 0) && exists|k: int|
                1 <= k < sections@.len() && r@[i].at_bar == sections@[k].start_bar,
{
    let mut out: Vec<Turn> = Vec::new();
    if sections.len() < 2 {
        assert(Seq::new(out@.len(), |i: int| turn_view(out@[i])) =~= changes(sections@));
        return out;
    }
    let mut k: usize = 1;
    assert(sections@.take(1).len() < 2);
    assert(Seq::new(out@.len(), |i: int| turn_view(out@[i])) =~= changes(sections@.take(1)));
    while k < sections.len()
        invariant
            1 <= k <= sections@.len(),
            Seq::new(out@.len(), |i: int| turn_view(out@[i])) == changes(sections@.take(k as int)),
            forall|i: int|
                0 <= i < out@.len() ==> ((#[trigger] out@[i]).enters@.len() > 0 || out@[i].exits@.len() > 0)
                    && exists|j: int| 1 <= j < k && out@[i].at_bar == sections@[j].start_bar,
        decreases sections.len() - k,
    {
        let before = &sections[k - 1];
        let after = &sections[k];
        let (enters, exits) = transition(&before.active, &after.active);
        let ghost s = sections@.take(k + 1);
        proof {
            assert(s.drop_last() =~= sections@.take(k as int));
            assert(s[s.len() - 2] == sections@[k - 1]);
            assert(s.last() == sections@[k as int]);
        }
        let ghost prev = Seq::new(out@.len(), |i: int| turn_view(out@[i]));
        if enters.len() > 0 || exits.len() > 0 {
            let t = Turn {
                at_bar: after.start_bar,
                enters,
                exits,
                tracks_before: before.active.len(),
                tracks_after: after.active.len(),
            };
            out.push(t);
            assert(Seq::new(out@.len(), |i: int| turn_view(out@[i])) =~= prev.push(turn_view(t)));
            assert(out@[out@.len() - 1].at_bar == sections@[k as int].start_bar);
        }
        k += 1;
    }
    assert(sections@.take(sections@.len() as int) =~= sections@);
    out
}

/// Whether `v` holds `t`.
fn holds(v: &Vec<usize>, t: usize) -> (r: bool)
    ensures
        r == v@.contains(t),
{
    let mut i: usize = 0;
    while i < v.len()
        invariant
            i <= v@.len(),
            forall|k: int| 0 <= k < i ==> v@[k] != t,
        decreases v.len() - i,
    {
        if v[i] == t {
            return true;
        }
        i += 1;
    }
    false
}

/// The entries of `from` that `other` does not hold, in order.
fn missing_from(from: &Vec<usize>, other: &Vec<usize>) -> (r: Vec<usize>)
    ensures
        r@ == from@.filter(|t: usize| !other@.contains(t)),
{
    let ghost keep = |t: usize| !other@.contains(t);
    let mut out: Vec<usize> = Vec::new();
    let mut i: usize = 0;
    while i < from.len()
        invariant
            i <= from@.len(),
            keep == (|t: usize| !other@.contains(t)),
            out@ == from@.take(i as int).filter(keep),
        decreases from.len() - i,
    {
        proof {
            assert(from@.take(i + 1).drop_last() =~= from@.take(i as int));
            reveal_with_fuel(Seq::filter, 1);
        }
        if !holds(other, from[i]) {
            out.push(from[i]);
        }
        i += 1;
    }
    assert(from@.take(from@.len() as int) =~= from@);
    out
}

/// The bar at `i` (0-based) is the last busiest one.
pub open spec fn is_last_busiest(d: Seq<usize>, i: int) -> bool {
    &&& 0 <= i < d.len()
    &&& forall|j: int| 0 <= j < d.len() ==> d[j] <= d[i]
    &&& forall|j: int| i < j < d.len() ==> d[j] < d[i]
}

/// The bar at `i` (0-based) is the first of the sparsest bars that sound at
/// all.
pub open spec fn is_first_sparsest(d: Seq<usize>, i: int) -> bool {
    &&& 0 <= i < d.len()
    &&& d[i] > 0
    &&& forall|j: int| 0 <= j < d.len() && d[j] > 0 ==> d[i] <= d[j]
    &&& forall|j: int| 0 <= j < i && d[j] > 0 ==> d[i] < d[j]
}

/// The busiest bar, the sparsest bar that sounds, each as `(bar, tracks)`
/// with bars counted from 1, and how many bars are silent, given the number
/// of tracks sounding in each bar.
pub fn density(d: &Vec<usize>) -> (r: (Option<(usize, usize)>, Option<(usize, usize)>, usize))
    ensures
        match r.0 {
            Some((bar, n)) => is_last_busiest(d@, bar - 1) && n == d@[bar - 1],
            None => d@.len() == 0,
        },
        match r.1 {
            Some((bar, n)) => is_first_sparsest(d@, bar - 1) && n == d@[bar - 1],
            None => forall|j: int| 0 <= j < d@.len() ==> d@[j] == 0,
        },
        r.2 == d@.filter(|n: usize| n == 0).len(),
{
    let mut busiest: Option<usize> = None;
    let mut sparsest: Option<usize> = None;
    let mut silent: usize = 0;
    let ghost zero = |n: usize| n == 0;
    let mut i: usize = 0;
    while i < d.len()
        invariant
            i <= d@.len(),
            zero == (|n: usize| n == 0),
            silent == d@.take(i as int).filter(zero).len(),
            silent <= i,
            match busiest {
                Some(b) => is_last_busiest(d@.take(i as int), b as int),
                None => i == 0,
            },
            match sparsest {
                Some(s) => is_first_sparsest(d@.take(i as int), s as int),
                None => forall|j: int| 0 <= j < i ==> d@[j] == 0,
            },
        decreases d.len() - i,
    {
        proof {
            assert(d@.take(i + 1).drop_last() =~= d@.take(i as int));
            reveal_with_fuel(Seq::filter, 1);
        }
        let n = d[i];
        match busiest {
            Some(b) => {
                if n >= d[b] {
                    busiest = Some(i);
                }
            },
            None => {
                busiest = Some(i);
            },
        }
        if n > 0 {
            match sparsest {
                Some(s) => {
                    if n < d[s] {
                        sparsest = Some(i);
                    }
                },
                None => {
                    sparsest = Some(i);
                },
            }
        } else {
            silent += 1;
        }
        proof {
            let t = d@.take(i + 1);
            let t0 = d@.take(i as int);
            assert forall|j: int| 0 <= j < i implies t[j] == t0[j] by {}
        }
        i += 1;
    }
    assert(d@.take(d@.len() as int) =~= d@);
    let b = match busiest {
        Some(b) => Some((b + 1, d[b])),
        None => None,
    };
    let s = match sparsest {
        Some(s) => Some((s + 1, d[s])),
        None => None,
    };
    (b, s, silent)
}

} // verus!
