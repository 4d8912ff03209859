//! Harmonic analysis of MIDI notes: key names, scales and chord names.
use vstd::prelude::*;

use super::{pitch_name, pitch_name_spec};
use crate::text::{append_str, string_from};

verus! {

/// The name of the key on `tonic`, major or minor (`C major`).
pub open spec fn key_name_spec(tonic: u8, is_minor: bool) -> Seq<char> {
    pitch_name_spec((tonic % 12) as nat) + " "@ + (if is_minor {
        "minor"@
    } else {
        "major"@
    })
}

pub fn key_name(tonic: u8, is_minor: bool) -> (r: String)
    ensures
        r@ == key_name_spec(tonic, is_minor),
{
    let mut v: Vec<char> = Vec::new();
    append_str(&mut v, pitch_name(tonic));
    append_str(&mut v, " ");
    append_str(&mut v, if is_minor { "minor" } else { "major" });
    string_from(&v)
}

/// The steps of the major or natural minor scale, in semitones above the
/// tonic.
pub open spec fn scale_steps(is_minor: bool) -> Seq<u8> {
    if is_minor {
        seq![0u8, 2, 3, 5, 7, 8, 10]
    } else {
        seq![0u8, 2, 4, 5, 7, 9, 11]
    }
}

/// Scale degrees of the key on `tonic`, as pitch classes.
pub fn key_scale(tonic: u8, is_minor: bool) -> (r: Vec<u8>)
    requires
        tonic <= 244,
    ensures
        r@.len() == 7,
        forall|i: int| 0 <= i < 7 ==> r@[i] == (tonic + scale_steps(is_minor)[i]) % 12,
{
    let steps: Vec<u8> = if is_minor {
        vec![0, 2, 3, 5, 7, 8, 10]
    } else {
        vec![0, 2, 4, 5, 7, 9, 11]
    };
    assert(steps@ =~= scale_steps(is_minor));
    let mut r: Vec<u8> = Vec::new();
    let mut i: usize = 0;
    while i < 7
        invariant
            i <= 7,
            tonic <= 244,
            steps@ == scale_steps(is_minor),
            r@.len() == i,
            forall|k: int| 0 <= k < i ==> r@[k] == (tonic + scale_steps(is_minor)[k]) % 12,
        decreases 7 - i,
    {
        r.push((tonic + steps[i]) % 12);
        i += 1;
    }
    r
}

/// The chord templates: a label and the semitone offsets of its degrees from
/// the root, ordered so that richer spellings win over the triads they
/// contain.
pub open spec fn template(t: int) -> (Seq<char>, Seq<u8>) {
    if t == 0 {
        ("maj7"@, seq![0u8, 4, 7, 11])
    } else if t == 1 {
        ("min7"@, seq![0u8, 3, 7, 10])
    } else if t == 2 {
        ("7"@, seq![0u8, 4, 7, 10])
    } else if t == 3 {
        ("min7b5"@, seq![0u8, 3, 6, 10])
    } else if t == 4 {
        ("dim7"@, seq![0u8, 3, 6, 9])
    } else if t == 5 {
        ("minmaj7"@, seq![0u8, 3, 7, 11])
    } else if t == 6 {
        ("6"@, seq![0u8, 4, 7, 9])
    } else if t == 7 {
        ("min6"@, seq![0u8, 3, 7, 9])
    } else if t == 8 {
        ("add9"@, seq![0u8, 4, 7, 2])
    } else if t == 9 {
        ("maj"@, seq![0u8, 4, 7])
    } else if t == 10 {
        ("min"@, seq![0u8, 3, 7])
    } else if t == 11 {
        ("dim"@, seq![0u8, 3, 6])
    } else if t == 12 {
        ("aug"@, seq![0u8, 4, 8])
    } else if t == 13 {
        ("sus4"@, seq![0u8, 5, 7])
    } else if t == 14 {
        ("sus2"@, seq![0u8, 2, 7])
    } else {
        ("5"@, seq![0u8, 7])
    }
}

/// How many templates there are.
pub const TEMPLATE_COUNT: usize = 16;

fn template_at(t: usize) -> (r: (&'static str, Vec<u8>))
    requires
        t < TEMPLATE_COUNT,
    ensures
        r.0@ == template(t as int).0,
        r.1@ == template(t as int).1,
{
    let r = if t == 0 {
        ("maj7", vec![0u8, 4, 7, 11])
    } else if t == 1 {
        ("min7", vec![0u8, 3, 7, 10])
    } else if t == 2 {
        ("7", vec![0u8, 4, 7, 10])
    } else if t == 3 {
        ("min7b5", vec![0u8, 3, 6, 10])
    } else if t == 4 {
        ("dim7", vec![0u8, 3, 6, 9])
    } else if t == 5 {
        ("minmaj7", vec![0u8, 3, 7, 11])
    } else if t == 6 {
        ("6", vec![0u8, 4, 7, 9])
    } else if t == 7 {
        ("min6", vec![0u8, 3, 7, 9])
    } else if t == 8 {
        ("add9", vec![0u8, 4, 7, 2])
    } else if t == 9 {
        ("maj", vec![0u8, 4, 7])
    } else if t == 10 {
        ("min", vec![0u8, 3, 7])
    } else if t == 11 {
        ("dim", vec![0u8, 3, 6])
    } else if t == 12 {
        ("aug", vec![0u8, 4, 8])
    } else if t == 13 {
        ("sus4", vec![0u8, 5, 7])
    } else if t == 14 {
        ("sus2", vec![0u8, 2, 7])
    } else {
        ("5", vec![0u8, 7])
    };
    assert(r.1@ =~= template(t as int).1);
    r
}

/// Pitch class `pc` sounds among `pcs`.
pub open spec fn sounds(pcs: Seq<u8>, pc: int) -> bool {
    exists|i: int| 0 <= i < pcs.len() && pcs[i] % 12 == pc
}

/// The pitch classes template `t` asks for over `root`.
pub open spec fn wanted(root: int, t: int) -> Seq<int> {
    template(t).1.map_values(|s: u8| (root + s) % 12)
}

/// Every degree template `t` asks for over `root` sounds: a "maj7" missing
/// its seventh is a triad, not a weak maj7.
pub open spec fn fits(pcs: Seq<u8>, root: int, t: int) -> bool {
    forall|k: int| 0 <= k < wanted(root, t).len() ==> sounds(pcs, #[trigger] wanted(root, t)[k])
}

/// How many of the pitch classes below `upto` sound.
pub open spec fn count_sounding(pcs: Seq<u8>, upto: int) -> nat
    decreases upto,
{
    if upto <= 0 {
        0
    } else {
        count_sounding(pcs, upto - 1) + if sounds(pcs, upto - 1) {
            1nat
        } else {
            0nat
        }
    }
}

/// How many of the pitch classes below `upto` sound without template `t`
/// over `root` accounting for them.
pub open spec fn count_extra(pcs: Seq<u8>, root: int, t: int, upto: int) -> nat
    decreases upto,
{
    if upto <= 0 {
        0
    } else {
        count_extra(pcs, root, t, upto - 1) + if sounds(pcs, upto - 1) && !wanted(root, t).contains(
            upto - 1,
        ) {
            1nat
        } else {
            0nat
        }
    }
}

/// The score of template `t` over `root`, in tenths: a point for each
/// degree, half a point off for each note it does not account for, and a
/// nudge of 0.4 towards the root actually sounding in the bass.
pub open spec fn score(pcs: Seq<u8>, bass: Option<u8>, root: int, t: int) -> int {
    10 * template(t).1.len() - 5 * count_extra(pcs, root, t, 12) + (match bass {
        Some(b) => if b % 12 == root {
            4int
        } else {
            0int
        },
        None => 0int,
    })
}

/// The candidates are tried root by root, template by template; candidate
/// `c` is template `c % 16` over root `c / 16`.
pub open spec fn candidate_fits(pcs: Seq<u8>, c: int) -> bool {
    fits(pcs, c / 16, c % 16)
}

pub open spec fn candidate_score(pcs: Seq<u8>, bass: Option<u8>, c: int) -> int {
    score(pcs, bass, c / 16, c % 16)
}

/// Candidate `c` names the chord: it fits, no candidate scores higher, and
/// no earlier one scores as high.
pub open spec fn best_candidate(pcs: Seq<u8>, bass: Option<u8>, c: int) -> bool {
    &&& 0 <= c < 192
    &&& candidate_fits(pcs, c)
    &&& forall|d: int|
        0 <= d < 192 && candidate_fits(pcs, d) ==> candidate_score(pcs, bass, d) <= candidate_score(pcs, bass, c)
    &&& forall|d: int|
        0 <= d < c && candidate_fits(pcs, d) ==> candidate_score(pcs, bass, d) < candidate_score(pcs, bass, c)
}

/// The name of candidate `c`: root and label, then `/` and the bass when the
/// bass is not the root.
pub open spec fn chord_label(bass: Option<u8>, c: int) -> Seq<char> {
    let root = c / 16;
    pitch_name_spec(root as nat) + template(c % 16).0 + match bass {
        Some(b) => if b % 12 != root {
            "/"@ + pitch_name_spec((b % 12) as nat)
        } else {
            Seq::empty()
        },
        None => Seq::empty(),
    }
}

/// `r` is what [`name_chord`] names `pcs` over `bass`: nothing for silence,
/// the note itself for one pitch class, else the best fitting candidate.
pub open spec fn chord_named(pcs: Seq<u8>, bass: Option<u8>, r: Option<(Seq<char>, int)>) -> bool {
    &&& count_sounding(pcs, 12) == 0 ==> r is None
    &&& count_sounding(pcs, 12) == 1 ==> (r matches Some((n, s)) && s == 10 && exists|pc: int|
        0 <= pc < 12 && sounds(pcs, pc) && n == pitch_name_spec(pc as nat) + " (single note)"@)
    &&& count_sounding(pcs, 12) >= 2 ==> match r {
        None => forall|c: int| 0 <= c < 192 ==> !candidate_fits(pcs, c),
        Some((n, s)) => exists|c: int|
            best_candidate(pcs, bass, c) && n == chord_label(bass, c) && s == candidate_score(pcs, bass, c),
    }
}

/// `a` and `b` sound the same pitch classes.
pub open spec fn same_classes(a: Seq<u8>, b: Seq<u8>) -> bool {
    forall|pc: int| 0 <= pc < 12 ==> sounds(a, pc) == sounds(b, pc)
}

/// The pitch class of the bass, when there is one.
pub open spec fn bass_class(bass: Option<u8>) -> Option<int> {
    match bass {
        Some(b) => Some((b % 12) as int),
        None => None,
    }
}

proof fn lemma_same_counts(a: Seq<u8>, b: Seq<u8>, root: int, t: int, upto: int)
    requires
        same_classes(a, b),
        upto <= 12,
    ensures
        count_sounding(a, upto) == count_sounding(b, upto),
        count_extra(a, root, t, upto) == count_extra(b, root, t, upto),
    decreases upto,
{
    if upto > 0 {
        lemma_same_counts(a, b, root, t, upto - 1);
    }
}

proof fn lemma_two_sound(pcs: Seq<u8>, x: int, y: int, upto: int)
    requires
        0 <= x < y < upto <= 12,
        sounds(pcs, x),
        sounds(pcs, y),
    ensures
        count_sounding(pcs, upto) >= 2,
    decreases upto,
{
    if y < upto - 1 {
        lemma_two_sound(pcs, x, y, upto - 1);
    } else {
        lemma_one_sounds(pcs, x, upto - 1);
    }
}

proof fn lemma_one_sounds(pcs: Seq<u8>, x: int, upto: int)
    requires
        0 <= x < upto <= 12,
        sounds(pcs, x),
    ensures
        count_sounding(pcs, upto) >= 1,
    decreases upto,
{
    if x < upto - 1 {
        lemma_one_sounds(pcs, x, upto - 1);
    }
}

proof fn lemma_same_candidates(a: Seq<u8>, b: Seq<u8>, ba: Option<u8>, bb: Option<u8>, c: int)
    requires
        same_classes(a, b),
        bass_class(ba) == bass_class(bb),
        0 <= c < 192,
    ensures
        candidate_fits(a, c) == candidate_fits(b, c),
        candidate_score(a, ba, c) == candidate_score(b, bb, c),
        chord_label(ba, c) == chord_label(bb, c),
{
    let root = c / 16;
    let t = c % 16;
    assert forall|k: int| 0 <= k < wanted(root, t).len() implies sounds(a, #[trigger] wanted(root, t)[k]) == sounds(
        b,
        wanted(root, t)[k],
    ) by {
        assert(0 <= wanted(root, t)[k] < 12);
    }
    lemma_same_counts(a, b, root, t, 12);
}

/// The chord named depends on which pitch classes sound and on the bass's
/// pitch class alone: the same classes over the same bass class, however
/// voiced, get the same name and score.
pub proof fn lemma_chord_depends_on_classes(
    a: Seq<u8>,
    b: Seq<u8>,
    ba: Option<u8>,
    bb: Option<u8>,
    ra: Option<(Seq<char>, int)>,
    rb: Option<(Seq<char>, int)>,
)
    requires
        same_classes(a, b),
        bass_class(ba) == bass_class(bb),
        chord_named(a, ba, ra),
        chord_named(b, bb, rb),
    ensures
        ra == rb,
{
    lemma_same_counts(a, b, 0, 0, 12);
    assert forall|c: int| 0 <= c < 192 implies candidate_fits(a, c) == candidate_fits(b, c) && candidate_score(
        a,
        ba,
        c,
    ) == candidate_score(b, bb, c) && chord_label(ba, c) == chord_label(bb, c) by {
        lemma_same_candidates(a, b, ba, bb, c);
    }
    let n = count_sounding(a, 12);
    if n == 1 {
        let x = choose|pc: int|
            0 <= pc < 12 && sounds(a, pc) && (ra->0).0 == pitch_name_spec(pc as nat) + " (single note)"@;
        let y = choose|pc: int|
            0 <= pc < 12 && sounds(b, pc) && (rb->0).0 == pitch_name_spec(pc as nat) + " (single note)"@;
        if x < y {
            lemma_two_sound(a, x, y, 12);
        } else if y < x {
            lemma_two_sound(a, y, x, 12);
        }
    } else if n >= 2 {
        match (ra, rb) {
            (Some(p), Some(q)) => {
                let x = choose|c: int|
                    best_candidate(a, ba, c) && p.0 == chord_label(ba, c) && p.1 == candidate_score(a, ba, c);
                let y = choose|c: int|
                    best_candidate(b, bb, c) && q.0 == chord_label(bb, c) && q.1 == candidate_score(b, bb, c);
                assert(candidate_fits(a, y));
                assert(candidate_fits(a, x));
                if x < y {
                    assert(candidate_score(b, bb, x) < candidate_score(b, bb, y));
                } else if y < x {
                    assert(candidate_score(a, ba, y) < candidate_score(a, ba, x));
                }
            },
            (Some(p), None) => {
                let x = choose|c: int|
                    best_candidate(a, ba, c) && p.0 == chord_label(ba, c) && p.1 == candidate_score(a, ba, c);
                assert(candidate_fits(b, x));
            },
            (None, Some(q)) => {
                let y = choose|c: int|
                    best_candidate(b, bb, c) && q.0 == chord_label(bb, c) && q.1 == candidate_score(b, bb, c);
                assert(candidate_fits(a, y));
            },
            (None, None) => {},
        }
    }
}

/// How many of `0..u` satisfy `p`.
pub open spec fn count_where(p: spec_fn(int) -> bool, u: int) -> nat
    decreases u,
{
    if u <= 0 {
        0
    } else {
        count_where(p, u - 1) + if p(u - 1) {
            1nat
        } else {
            0nat
        }
    }
}

proof fn lemma_count_ext(p: spec_fn(int) -> bool, q: spec_fn(int) -> bool, u: int)
    requires
        forall|x: int| 0 <= x < u ==> #[trigger] p(x) == q(x),
    ensures
        count_where(p, u) == count_where(q, u),
    decreases u,
{
    if u > 0 {
        lemma_count_ext(p, q, u - 1);
    }
}

proof fn lemma_count_split(p: spec_fn(int) -> bool, q: spec_fn(int) -> bool, u: int)
    ensures
        count_where(p, u) == count_where(|x: int| p(x) && q(x), u) + count_where(|x: int| p(x) && !q(x), u),
    decreases u,
{
    if u > 0 {
        lemma_count_split(p, q, u - 1);
    }
}

proof fn lemma_count_mono(p: spec_fn(int) -> bool, q: spec_fn(int) -> bool, u: int)
    requires
        forall|x: int| 0 <= x < u && #[trigger] p(x) ==> q(x),
    ensures
        count_where(p, u) <= count_where(q, u),
    decreases u,
{
    if u > 0 {
        lemma_count_mono(p, q, u - 1);
    }
}

proof fn lemma_count_none(p: spec_fn(int) -> bool, u: int)
    requires
        forall|x: int| 0 <= x < u ==> !#[trigger] p(x),
    ensures
        count_where(p, u) == 0,
    decreases u,
{
    if u > 0 {
        lemma_count_none(p, u - 1);
    }
}

proof fn lemma_count_one(x: int, u: int)
    requires
        0 <= x < u,
    ensures
        count_where(|y: int| y == x, u) == 1,
    decreases u,
{
    if u - 1 > x {
        lemma_count_one(x, u - 1);
    } else {
        lemma_count_none(|y: int| y == x, u - 1);
    }
}

/// The values of `w` differ from one another.
pub open spec fn all_different(w: Seq<int>) -> bool {
    forall|i: int, j: int| 0 <= i < j < w.len() ==> w[i] != w[j]
}

proof fn lemma_count_seq(w: Seq<int>, u: int)
    requires
        all_different(w),
        forall|i: int| 0 <= i < w.len() ==> 0 <= #[trigger] w[i] < u,
    ensures
        count_where(|y: int| w.contains(y), u) == w.len(),
    decreases w.len(),
{
    if w.len() == 0 {
        lemma_count_none(|y: int| w.contains(y), u);
    } else {
        let v = w.drop_last();
        let x = w.last();
        assert(all_different(v));
        lemma_count_seq(v, u);
        let p = |y: int| w.contains(y);
        let q = |y: int| y == x;
        lemma_count_split(p, q, u);
        assert forall|y: int| 0 <= y < u implies (#[trigger] p(y) && q(y)) == q(y) by {
            if y == x {
                assert(w[w.len() - 1] == x);
            }
        }
        lemma_count_ext(|y: int| p(y) && q(y), q, u);
        assert forall|y: int| 0 <= y < u implies (#[trigger] p(y) && !q(y)) == v.contains(y) by {
            if v.contains(y) {
                let i = choose|i: int| 0 <= i < v.len() && v[i] == y;
                assert(w[i] == y);
                assert(w[i] != w[w.len() - 1]);
            }
            if p(y) && !q(y) {
                let i = choose|i: int| 0 <= i < w.len() && w[i] == y;
                assert(v[i] == y);
            }
        }
        lemma_count_ext(|y: int| p(y) && !q(y), |y: int| v.contains(y), u);
        lemma_count_one(x, u);
    }
}

proof fn lemma_sounding_count(pcs: Seq<u8>, u: int)
    ensures
        count_sounding(pcs, u) == count_where(|pc: int| sounds(pcs, pc), u),
    decreases u,
{
    if u > 0 {
        lemma_sounding_count(pcs, u - 1);
    }
}

proof fn lemma_extra_count(pcs: Seq<u8>, root: int, t: int, u: int)
    ensures
        count_extra(pcs, root, t, u) == count_where(
            |pc: int| sounds(pcs, pc) && !wanted(root, t).contains(pc),
            u,
        ),
    decreases u,
{
    if u > 0 {
        lemma_extra_count(pcs, root, t, u - 1);
    }
}

/// Each template's degrees are distinct pitch classes over any root.
pub(crate) proof fn lemma_wanted_distinct(root: int, t: int)
    requires
        0 <= root < 12,
        0 <= t < 16,
    ensures
        all_different(wanted(root, t)),
        forall|i: int| 0 <= i < wanted(root, t).len() ==> 0 <= #[trigger] wanted(root, t)[i] < 12,
        2 <= template(t).1.len() <= 4,
{
    let w = wanted(root, t);
    let o = template(t).1;
    assert forall|i: int, j: int| 0 <= i < j < w.len() implies w[i] != w[j] by {
        assert(w[i] == (root + o[i]) % 12 && w[j] == (root + o[j]) % 12);
        assert(o[i] != o[j] && o[i] < 12 && o[j] < 12);
    }
}

/// What any candidate that fits scores, with no bass: ten for each of its
/// degrees, less five for each sounding class it leaves out, which comes to
/// at most ten for each sounding class, and to that only when its degrees
/// are exactly the sounding classes.
pub(crate) proof fn lemma_fitting_score(pcs: Seq<u8>, d: int)
    requires
        0 <= d < 192,
        candidate_fits(pcs, d),
    ensures
        candidate_score(pcs, None, d) <= 10 * count_sounding(pcs, 12),
        candidate_score(pcs, None, d) == 10 * count_sounding(pcs, 12) ==> forall|pc: int|
            0 <= pc < 12 ==> (sounds(pcs, pc) <==> wanted(d / 16, d % 16).contains(pc)),
{
    let root = d / 16;
    let t = d % 16;
    let w = wanted(root, t);
    lemma_wanted_distinct(root, t);
    let s = |pc: int| sounds(pcs, pc);
    let inw = |pc: int| w.contains(pc);
    lemma_sounding_count(pcs, 12);
    lemma_extra_count(pcs, root, t, 12);
    lemma_count_seq(w, 12);
    lemma_count_split(s, inw, 12);
    assert forall|x: int| 0 <= x < 12 implies (#[trigger] s(x) && inw(x)) == inw(x) by {
        if inw(x) {
            let k = choose|k: int| 0 <= k < w.len() && w[k] == x;
            assert(sounds(pcs, w[k]));
        }
    }
    lemma_count_ext(|x: int| s(x) && inw(x), inw, 12);
    lemma_count_ext(|x: int| s(x) && !inw(x), |pc: int| sounds(pcs, pc) && !wanted(root, t).contains(pc), 12);
    assert(w.len() == template(t).1.len());
    if candidate_score(pcs, None, d) == 10 * count_sounding(pcs, 12) {
        let extra = |pc: int| sounds(pcs, pc) && !wanted(root, t).contains(pc);
        assert(count_where(extra, 12) == 0);
        assert forall|pc: int| 0 <= pc < 12 implies (sounds(pcs, pc) <==> wanted(d / 16, d % 16).contains(pc)) by {
            if sounds(pcs, pc) && !w.contains(pc) {
                lemma_count_positive(extra, pc, 12);
            }
        }
    }
}

proof fn lemma_count_positive(p: spec_fn(int) -> bool, x: int, u: int)
    requires
        0 <= x < u,
        p(x),
    ensures
        count_where(p, u) >= 1,
    decreases u,
{
    if x < u - 1 {
        lemma_count_positive(p, x, u - 1);
    }
}

/// A candidate whose degrees are exactly the sounding classes fits and
/// scores ten for each of them, with no bass.
pub(crate) proof fn lemma_exact_score(pcs: Seq<u8>, c: int)
    requires
        0 <= c < 192,
        forall|pc: int| 0 <= pc < 12 ==> (sounds(pcs, pc) <==> wanted(c / 16, c % 16).contains(pc)),
    ensures
        candidate_fits(pcs, c),
        candidate_score(pcs, None, c) == 10 * count_sounding(pcs, 12),
        count_sounding(pcs, 12) == template(c % 16).1.len(),
{
    let root = c / 16;
    let t = c % 16;
    let w = wanted(root, t);
    lemma_wanted_distinct(root, t);
    assert forall|k: int| 0 <= k < w.len() implies sounds(pcs, #[trigger] w[k]) by {
        assert(w.contains(w[k]));
    }
    lemma_sounding_count(pcs, 12);
    lemma_count_seq(w, 12);
    lemma_count_ext(|pc: int| sounds(pcs, pc), |y: int| w.contains(y), 12);
    lemma_extra_count(pcs, root, t, 12);
    lemma_count_none(|pc: int| sounds(pcs, pc) && !wanted(root, t).contains(pc), 12);
}

/// When the sounding classes are exactly the degrees of candidate `c`, with
/// no bass, the chord is named with a score of ten for each of them.
proof fn lemma_exact_chord_score(pcs: Seq<u8>, c: int, res: Option<(Seq<char>, int)>)
    requires
        0 <= c < 192,
        forall|pc: int| 0 <= pc < 12 ==> (sounds(pcs, pc) <==> wanted(c / 16, c % 16).contains(pc)),
        chord_named(pcs, None, res),
    ensures
        res matches Some((_, s)) && s == 10 * template(c % 16).1.len(),
{
    lemma_exact_score(pcs, c);
    lemma_wanted_distinct(c / 16, c % 16);
    match res {
        Some((n, s)) => {
            let x = choose|x: int|
                best_candidate(pcs, None, x) && n == chord_label(None, x) && s == candidate_score(pcs, None, x);
            lemma_fitting_score(pcs, x);
        },
        None => {
            assert(!candidate_fits(pcs, c));
        },
    }
}

/// Candidates whose templates have different numbers of degrees have
/// different degrees.
pub(crate) proof fn lemma_sizes_differ(d: int, c: int)
    requires
        0 <= d < 192,
        0 <= c < 192,
        template(d % 16).1.len() != template(c % 16).1.len(),
    ensures
        other_tones(d, c),
{
    if !other_tones(d, c) {
        let wd = wanted(d / 16, d % 16);
        let wc = wanted(c / 16, c % 16);
        lemma_wanted_distinct(d / 16, d % 16);
        lemma_wanted_distinct(c / 16, c % 16);
        assert forall|pc: int| 0 <= pc < 12 implies #[trigger] wd.contains(pc) == wc.contains(pc) by {
            assert(!differs_at(d, c, pc));
        }
        lemma_count_ext(|y: int| wd.contains(y), |y: int| wc.contains(y), 12);
        lemma_count_seq(wd, 12);
        lemma_count_seq(wc, 12);
    }
}

/// Candidates `d` and `c` disagree on the pitch class `pc`.
pub open spec fn differs_at(d: int, c: int, pc: int) -> bool {
    wanted(d / 16, d % 16).contains(pc) != wanted(c / 16, c % 16).contains(pc)
}

/// Candidates `d` and `c` have different degrees.
pub open spec fn other_tones(d: int, c: int) -> bool {
    exists|pc: int| 0 <= pc < 12 && #[trigger] differs_at(d, c, pc)
}

/// When the sounding classes are exactly the degrees of candidate `c`, with
/// no bass, and no earlier candidate has those degrees, the chord is named
/// by `c`.
pub(crate) proof fn lemma_exact_chord_name(pcs: Seq<u8>, c: int, res: Option<(Seq<char>, int)>)
    requires
        0 <= c < 192,
        forall|pc: int| 0 <= pc < 12 ==> (sounds(pcs, pc) <==> wanted(c / 16, c % 16).contains(pc)),
        forall|d: int| 0 <= d < c ==> #[trigger] other_tones(d, c),
        chord_named(pcs, None, res),
    ensures
        res == Some((chord_label(None, c), (10 * template(c % 16).1.len()) as int)),
{
    lemma_exact_score(pcs, c);
    lemma_wanted_distinct(c / 16, c % 16);
    let (n, s) = res->0;
    let x = choose|x: int|
        best_candidate(pcs, None, x) && n == chord_label(None, x) && s == candidate_score(pcs, None, x);
    lemma_fitting_score(pcs, x);
    if x < c {
        assert(other_tones(x, c));
        let pc = choose|pc: int| 0 <= pc < 12 && #[trigger] differs_at(x, c, pc);
        assert(sounds(pcs, pc) <==> wanted(c / 16, c % 16).contains(pc));
    } else if x > c {
        assert(candidate_score(pcs, None, c) < candidate_score(pcs, None, x));
    }
}

/// Whether `seen` marks exactly the sounding pitch classes.
spec fn marks(pcs: Seq<u8>, seen: Seq<bool>) -> bool {
    seen.len() == 12 && forall|pc: int| 0 <= pc < 12 ==> seen[pc] == sounds(pcs, pc)
}

fn sounding_classes(pcs: &Vec<u8>) -> (seen: Vec<bool>)
    ensures
        marks(pcs@, seen@),
{
    let mut seen: Vec<bool> = Vec::new();
    let mut k: usize = 0;
    while k < 12
        invariant
            k <= 12,
            seen@.len() == k,
            forall|pc: int| 0 <= pc < k ==> !seen@[pc],
        decreases 12 - k,
    {
        seen.push(false);
        k += 1;
    }
    let mut i: usize = 0;
    while i < pcs.len()
        invariant
            i <= pcs@.len(),
            seen@.len() == 12,
            forall|pc: int|
                0 <= pc < 12 ==> seen@[pc] == exists|j: int| 0 <= j < i && pcs@[j] % 12 == pc,
        decreases pcs.len() - i,
    {
        let pc = (pcs[i] % 12) as usize;
        seen.set(pc, true);
        proof {
            assert forall|q: int| 0 <= q < 12 implies seen@[q] == exists|j: int|
                0 <= j < i + 1 && pcs@[j] % 12 == q by {
                if q == pc {
                    assert(pcs@[i as int] % 12 == q);
                }
            }
        }
        i += 1;
    }
    seen
}

/// Whether template `t` over `root` asks for `pc`.
fn asks_for(root: usize, offsets: &Vec<u8>, t: Ghost<int>, pc: usize) -> (r: bool)
    requires
        root < 12,
        offsets@ == template(t@).1,
    ensures
        r == wanted(root as int, t@).contains(pc as int),
{
    let mut k: usize = 0;
    while k < offsets.len()
        invariant
            k <= offsets@.len(),
            root < 12,
            offsets@ == template(t@).1,
            forall|j: int| 0 <= j < k ==> wanted(root as int, t@)[j] != pc,
        decreases offsets.len() - k,
    {
        if (root + offsets[k] as usize) % 12 == pc {
            assert(wanted(root as int, t@)[k as int] == pc);
            return true;
        }
        k += 1;
    }
    false
}

/// Name the chord formed by a set of pitch classes, with its score in
/// tenths.
///
/// Scores every root against every template, rewarding matched template
/// degrees and penalising notes the template does not account for, so a
/// dense pad voicing still resolves to something sensible.
pub fn name_chord(pitch_classes: &Vec<u8>, bass: Option<u8>) -> (r: Option<(String, i64)>)
    ensures
        count_sounding(pitch_classes@, 12) == 0 ==> r is None,
        count_sounding(pitch_classes@, 12) == 1 ==> (r matches Some((n, s)) && s == 10 && exists|pc: int|
            0 <= pc < 12 && sounds(pitch_classes@, pc) && n@ == pitch_name_spec(pc as nat) + " (single note)"@),
        count_sounding(pitch_classes@, 12) >= 2 ==> match r {
            None => forall|c: int| 0 <= c < 192 ==> !candidate_fits(pitch_classes@, c),
            Some((n, s)) => exists|c: int|
                best_candidate(pitch_classes@, bass, c) && n@ == chord_label(bass, c) && s == candidate_score(
                    pitch_classes@,
                    bass,
                    c,
                ),
        },
        chord_named(pitch_classes@, bass, match r {
            Some((n, s)) => Some((n@, s as int)),
            None => None,
        }),
{
    let ghost pcs = pitch_classes@;
    let seen = sounding_classes(pitch_classes);
    let mut count: usize = 0;
    let mut last: usize = 0;
    let mut pc: usize = 0;
    while pc < 12
        invariant
            pc <= 12,
            marks(pcs, seen@),
            count == count_sounding(pcs, pc as int),
            count <= pc,
            count > 0 ==> last < 12 && sounds(pcs, last as int),
        decreases 12 - pc,
    {
        if seen[pc] {
            count += 1;
            last = pc;
        }
        pc += 1;
    }
    if count == 0 {
        return None;
    }
    if count == 1 {
        let mut v: Vec<char> = Vec::new();
        append_str(&mut v, pitch_name(last as u8));
        append_str(&mut v, " (single note)");
        return Some((string_from(&v), 10));
    }
    let mut best: Option<usize> = None;
    let mut best_score: i64 = 0;
    let mut c: usize = 0;
    while c < 192
        invariant
            c <= 192,
            marks(pcs, seen@),
            match best {
                Some(b) => b < c && candidate_fits(pcs, b as int) && best_score == candidate_score(pcs, bass, b as int)
                    && (forall|d: int| 0 <= d < c && candidate_fits(pcs, d) ==> candidate_score(pcs, bass, d) <= best_score)
                    && (forall|d: int| 0 <= d < b && candidate_fits(pcs, d) ==> candidate_score(pcs, bass, d) < best_score),
                None => forall|d: int| 0 <= d < c ==> !candidate_fits(pcs, d),
            },
        decreases 192 - c,
    {
        match candidate(&seen, Ghost(pcs), bass, c) {
            Some(sc) => {
                let better = match best {
                    None => true,
                    Some(_) => sc > best_score,
                };
                if better {
                    best = Some(c);
                    best_score = sc;
                }
            },
            None => {},
        }
        c += 1;
    }
    match best {
        None => None,
        Some(b) => {
            assert(best_candidate(pcs, bass, b as int));
            Some((candidate_name(bass, b), best_score))
        },
    }
}

/// The score of candidate `c`, when it fits.
fn candidate(seen: &Vec<bool>, pcs: Ghost<Seq<u8>>, bass: Option<u8>, c: usize) -> (r: Option<i64>)
    requires
        c < 192,
        marks(pcs@, seen@),
    ensures
        match r {
            Some(sc) => candidate_fits(pcs@, c as int) && sc == candidate_score(pcs@, bass, c as int),
            None => !candidate_fits(pcs@, c as int),
        },
{
    let root = c / 16;
    let t = c % 16;
    let (_label, offsets) = template_at(t);
    let ghost tg = t as int;
    assert(root as int == c as int / 16 && tg == c as int % 16);
    assert(candidate_fits(pcs@, c as int) == fits(pcs@, root as int, tg));
    let mut k: usize = 0;
    while k < offsets.len()
        invariant
            k <= offsets@.len(),
            root < 12,
            marks(pcs@, seen@),
            offsets@ == template(tg).1,
            candidate_fits(pcs@, c as int) == fits(pcs@, root as int, tg),
            forall|j: int| 0 <= j < k ==> sounds(pcs@, #[trigger] wanted(root as int, tg)[j]),
        decreases offsets.len() - k,
    {
        let q = (root + offsets[k] as usize) % 12;
        assert(wanted(root as int, tg)[k as int] == q);
        if !seen[q] {
            proof {
                assert(!sounds(pcs@, wanted(root as int, tg)[k as int]));
                assert(!fits(pcs@, root as int, tg));
            }
            return None;
        }
        k += 1;
    }
    let mut extra: usize = 0;
    let mut p: usize = 0;
    while p < 12
        invariant
            p <= 12,
            root < 12,
            marks(pcs@, seen@),
            offsets@ == template(tg).1,
            extra == count_extra(pcs@, root as int, tg, p as int),
            extra <= p,
        decreases 12 - p,
    {
        if seen[p] && !asks_for(root, &offsets, Ghost(tg), p) {
            extra += 1;
        }
        p += 1;
    }
    let bonus: i64 = match bass {
        Some(b) => if (b % 12) as usize == root {
            4
        } else {
            0
        },
        None => 0,
    };
    Some(10 * (offsets.len() as i64) - 5 * (extra as i64) + bonus)
}

/// The name of candidate `c`.
fn candidate_name(bass: Option<u8>, c: usize) -> (r: String)
    requires
        c < 192,
    ensures
        r@ == chord_label(bass, c as int),
{
    let root = c / 16;
    let (label, _offsets) = template_at(c % 16);
    let mut v: Vec<char> = Vec::new();
    append_str(&mut v, pitch_name(root as u8));
    append_str(&mut v, label);
    match bass {
        Some(bv) => {
            if (bv % 12) as usize != root {
                append_str(&mut v, "/");
                append_str(&mut v, pitch_name(bv % 12));
            }
        },
        None => {},
    }
    string_from(&v)
}

} // verus!
