//! What the chord namer calls each kind of chord: the laws that tie its
//! templates to the musical interval sets they stand for.
use vstd::prelude::*;

use super::harmony::{
    best_candidate, candidate_fits, candidate_score, chord_label, chord_named, differs_at,
    lemma_exact_chord_name, lemma_exact_score, lemma_fitting_score, lemma_sizes_differ,
    lemma_wanted_distinct, other_tones, sounds, template, wanted,
};
use super::pitch_name_spec;

verus! {

/// The offset `o` above the root is one of template `t`'s degrees.
pub open spec fn offset_in(t: int, o: int) -> bool {
    if t == 0 {
        o == 0 || o == 4 || o == 7 || o == 11
    } else if t == 1 {
        o == 0 || o == 3 || o == 7 || o == 10
    } else if t == 2 {
        o == 0 || o == 4 || o == 7 || o == 10
    } else if t == 3 {
        o == 0 || o == 3 || o == 6 || o == 10
    } else if t == 4 {
        o == 0 || o == 3 || o == 6 || o == 9
    } else if t == 5 {
        o == 0 || o == 3 || o == 7 || o == 11
    } else if t == 6 {
        o == 0 || o == 4 || o == 7 || o == 9
    } else if t == 7 {
        o == 0 || o == 3 || o == 7 || o == 9
    } else if t == 8 {
        o == 0 || o == 4 || o == 7 || o == 2
    } else if t == 9 {
        o == 0 || o == 4 || o == 7
    } else if t == 10 {
        o == 0 || o == 3 || o == 7
    } else if t == 11 {
        o == 0 || o == 3 || o == 6
    } else if t == 12 {
        o == 0 || o == 4 || o == 8
    } else if t == 13 {
        o == 0 || o == 5 || o == 7
    } else if t == 14 {
        o == 0 || o == 2 || o == 7
    } else {
        o == 0 || o == 7
    }
}

proof fn lemma_mod_offset(root: int, o: int, pc: int)
    requires
        0 <= root < 12,
        0 <= o < 12,
        0 <= pc < 12,
    ensures
        ((root + o) % 12 == pc) <==> ((pc - root + 12) % 12 == o),
{
    if root + o < 12 {
        assert((root + o) % 12 == root + o);
    } else {
        assert((root + o) % 12 == root + o - 12);
    }
    if pc - root + 12 < 12 {
        assert((pc - root + 12) % 12 == pc - root + 12);
    } else {
        assert((pc - root + 12) % 12 == pc - root);
    }
}

proof fn lemma_wanted_contains(root: int, t: int, pc: int)
    requires
        0 <= root < 12,
        0 <= t < 16,
        0 <= pc < 12,
    ensures
        wanted(root, t).contains(pc) <==> offset_in(t, (pc - root + 12) % 12),
{
    let w = wanted(root, t);
    let o = template(t).1;
    let x = (pc - root + 12) % 12;
    assert(0 <= x < 12);
    if t == 0 {
        assert(o =~= seq![0u8, 4u8, 7u8, 11u8]);
        lemma_mod_offset(root, 0, pc);
        assert(w[0] == (root + 0) % 12);
        lemma_mod_offset(root, 4, pc);
        assert(w[1] == (root + 4) % 12);
        lemma_mod_offset(root, 7, pc);
        assert(w[2] == (root + 7) % 12);
        lemma_mod_offset(root, 11, pc);
        assert(w[3] == (root + 11) % 12);
        if w.contains(pc) {
            let i = choose|i: int| 0 <= i < w.len() && w[i] == pc;
            assert(i == 0 || i == 1 || i == 2 || i == 3);
        }
        if offset_in(0, x) {
            if x == 0 {
                assert(w[0] == pc);
            }
            if x == 4 {
                assert(w[1] == pc);
            }
            if x == 7 {
                assert(w[2] == pc);
            }
            if x == 11 {
                assert(w[3] == pc);
            }
        }
    } else if t == 1 {
        assert(o =~= seq![0u8, 3u8, 7u8, 10u8]);
        lemma_mod_offset(root, 0, pc);
        assert(w[0] == (root + 0) % 12);
        lemma_mod_offset(root, 3, pc);
        assert(w[1] == (root + 3) % 12);
        lemma_mod_offset(root, 7, pc);
        assert(w[2] == (root + 7) % 12);
        lemma_mod_offset(root, 10, pc);
        assert(w[3] == (root + 10) % 12);
        if w.contains(pc) {
            let i = choose|i: int| 0 <= i < w.len() && w[i] == pc;
            assert(i == 0 || i == 1 || i == 2 || i == 3);
        }
        if offset_in(1, x) {
            if x == 0 {
                assert(w[0] == pc);
            }
            if x == 3 {
                assert(w[1] == pc);
            }
            if x == 7 {
                assert(w[2] == pc);
            }
            if x == 10 {
                assert(w[3] == pc);
            }
        }
    } else if t == 2 {
        assert(o =~= seq![0u8, 4u8, 7u8, 10u8]);
        lemma_mod_offset(root, 0, pc);
        assert(w[0] == (root + 0) % 12);
        lemma_mod_offset(root, 4, pc);
        assert(w[1] == (root + 4) % 12);
        lemma_mod_offset(root, 7, pc);
        assert(w[2] == (root + 7) % 12);
        lemma_mod_offset(root, 10, pc);
        assert(w[3] == (root + 10) % 12);
        if w.contains(pc) {
            let i = choose|i: int| 0 <= i < w.len() && w[i] == pc;
            assert(i == 0 || i == 1 || i == 2 || i == 3);
        }
        if offset_in(2, x) {
            if x == 0 {
                assert(w[0] == pc);
            }
            if x == 4 {
                assert(w[1] == pc);
            }
            if x == 7 {
                assert(w[2] == pc);
            }
            if x == 10 {
                assert(w[3] == pc);
            }
        }
    } else if t == 3 {
        assert(o =~= seq![0u8, 3u8, 6u8, 10u8]);
        lemma_mod_offset(root, 0, pc);
        assert(w[0] == (root + 0) % 12);
        lemma_mod_offset(root, 3, pc);
        assert(w[1] == (root + 3) % 12);
        lemma_mod_offset(root, 6, pc);
        assert(w[2] == (root + 6) % 12);
        lemma_mod_offset(root, 10, pc);
        assert(w[3] == (root + 10) % 12);
        if w.contains(pc) {
            let i = choose|i: int| 0 <= i < w.len() && w[i] == pc;
            assert(i == 0 || i == 1 || i == 2 || i == 3);
        }
        if offset_in(3, x) {
            if x == 0 {
                assert(w[0] == pc);
            }
            if x == 3 {
                assert(w[1] == pc);
            }
            if x == 6 {
                assert(w[2] == pc);
            }
            if x == 10 {
                assert(w[3] == pc);
            }
        }
    } else if t == 4 {
        assert(o =~= seq![0u8, 3u8, 6u8, 9u8]);
        lemma_mod_offset(root, 0, pc);
        assert(w[0] == (root + 0) % 12);
        lemma_mod_offset(root, 3, pc);
        assert(w[1] == (root + 3) % 12);
        lemma_mod_offset(root, 6, pc);
        assert(w[2] == (root + 6) % 12);
        lemma_mod_offset(root, 9, pc);
        assert(w[3] == (root + 9) % 12);
        if w.contains(pc) {
            let i = choose|i: int| 0 <= i < w.len() && w[i] == pc;
            assert(i == 0 || i == 1 || i == 2 || i == 3);
        }
        if offset_in(4, x) {
            if x == 0 {
                assert(w[0] == pc);
            }
            if x == 3 {
                assert(w[1] == pc);
            }
            if x == 6 {
                assert(w[2] == pc);
            }
            if x == 9 {
                assert(w[3] == pc);
            }
        }
    } else if t == 5 {
        assert(o =~= seq![0u8, 3u8, 7u8, 11u8]);
        lemma_mod_offset(root, 0, pc);
        assert(w[0] == (root + 0) % 12);
        lemma_mod_offset(root, 3, pc);
        assert(w[1] == (root + 3) % 12);
        lemma_mod_offset(root, 7, pc);
        assert(w[2] == (root + 7) % 12);
        lemma_mod_offset(root, 11, pc);
        assert(w[3] == (root + 11) % 12);
        if w.contains(pc) {
            let i = choose|i: int| 0 <= i < w.len() && w[i] == pc;
            assert(i == 0 || i == 1 || i == 2 || i == 3);
        }
        if offset_in(5, x) {
            if x == 0 {
                assert(w[0] == pc);
            }
            if x == 3 {
                assert(w[1] == pc);
            }
            if x == 7 {
                assert(w[2] == pc);
            }
            if x == 11 {
                assert(w[3] == pc);
            }
        }
    } else if t == 6 {
        assert(o =~= seq![0u8, 4u8, 7u8, 9u8]);
        lemma_mod_offset(root, 0, pc);
        assert(w[0] == (root + 0) % 12);
        lemma_mod_offset(root, 4, pc);
        assert(w[1] == (root + 4) % 12);
        lemma_mod_offset(root, 7, pc);
        assert(w[2] == (root + 7) % 12);
        lemma_mod_offset(root, 9, pc);
        assert(w[3] == (root + 9) % 12);
        if w.contains(pc) {
            let i = choose|i: int| 0 <= i < w.len() && w[i] == pc;
            assert(i == 0 || i == 1 || i == 2 || i == 3);
        }
        if offset_in(6, x) {
            if x == 0 {
                assert(w[0] == pc);
            }
            if x == 4 {
                assert(w[1] == pc);
            }
            if x == 7 {
                assert(w[2] == pc);
            }
            if x == 9 {
                assert(w[3] == pc);
            }
        }
    } else if t == 7 {
        assert(o =~= seq![0u8, 3u8, 7u8, 9u8]);
        lemma_mod_offset(root, 0, pc);
        assert(w[0] == (root + 0) % 12);
        lemma_mod_offset(root, 3, pc);
        assert(w[1] == (root + 3) % 12);
        lemma_mod_offset(root, 7, pc);
        assert(w[2] == (root + 7) % 12);
        lemma_mod_offset(root, 9, pc);
        assert(w[3] == (root + 9) % 12);
        if w.contains(pc) {
            let i = choose|i: int| 0 <= i < w.len() && w[i] == pc;
            assert(i == 0 || i == 1 || i == 2 || i == 3);
        }
        if offset_in(7, x) {
            if x == 0 {
                assert(w[0] == pc);
            }
            if x == 3 {
                assert(w[1] == pc);
            }
            if x == 7 {
                assert(w[2] == pc);
            }
            if x == 9 {
                assert(w[3] == pc);
            }
        }
    } else if t == 8 {
        assert(o =~= seq![0u8, 4u8, 7u8, 2u8]);
        lemma_mod_offset(root, 0, pc);
        assert(w[0] == (root + 0) % 12);
        lemma_mod_offset(root, 4, pc);
        assert(w[1] == (root + 4) % 12);
        lemma_mod_offset(root, 7, pc);
        assert(w[2] == (root + 7) % 12);
        lemma_mod_offset(root, 2, pc);
        assert(w[3] == (root + 2) % 12);
        if w.contains(pc) {
            let i = choose|i: int| 0 <= i < w.len() && w[i] == pc;
            assert(i == 0 || i == 1 || i == 2 || i == 3);
        }
        if offset_in(8, x) {
            if x == 0 {
                assert(w[0] == pc);
            }
            if x == 4 {
                assert(w[1] == pc);
            }
            if x == 7 {
                assert(w[2] == pc);
            }
            if x == 2 {
                assert(w[3] == pc);
            }
        }
    } else if t == 9 {
        assert(o =~= seq![0u8, 4u8, 7u8]);
        lemma_mod_offset(root, 0, pc);
        assert(w[0] == (root + 0) % 12);
        lemma_mod_offset(root, 4, pc);
        assert(w[1] == (root + 4) % 12);
        lemma_mod_offset(root, 7, pc);
        assert(w[2] == (root + 7) % 12);
        if w.contains(pc) {
            let i = choose|i: int| 0 <= i < w.len() && w[i] == pc;
            assert(i == 0 || i == 1 || i == 2);
        }
        if offset_in(9, x) {
            if x == 0 {
                assert(w[0] == pc);
            }
            if x == 4 {
                assert(w[1] == pc);
            }
            if x == 7 {
                assert(w[2] == pc);
            }
        }
    } else if t == 10 {
        assert(o =~= seq![0u8, 3u8, 7u8]);
        lemma_mod_offset(root, 0, pc);
        assert(w[0] == (root + 0) % 12);
        lemma_mod_offset(root, 3, pc);
        assert(w[1] == (root + 3) % 12);
        lemma_mod_offset(root, 7, pc);
        assert(w[2] == (root + 7) % 12);
        if w.contains(pc) {
            let i = choose|i: int| 0 <= i < w.len() && w[i] == pc;
            assert(i == 0 || i == 1 || i == 2);
        }
        if offset_in(10, x) {
            if x == 0 {
                assert(w[0] == pc);
            }
            if x == 3 {
                assert(w[1] == pc);
            }
            if x == 7 {
                assert(w[2] == pc);
            }
        }
    } else if t == 11 {
        assert(o =~= seq![0u8, 3u8, 6u8]);
        lemma_mod_offset(root, 0, pc);
        assert(w[0] == (root + 0) % 12);
        lemma_mod_offset(root, 3, pc);
        assert(w[1] == (root + 3) % 12);
        lemma_mod_offset(root, 6, pc);
        assert(w[2] == (root + 6) % 12);
        if w.contains(pc) {
            let i = choose|i: int| 0 <= i < w.len() && w[i] == pc;
            assert(i == 0 || i == 1 || i == 2);
        }
        if offset_in(11, x) {
            if x == 0 {
                assert(w[0] == pc);
            }
            if x == 3 {
                assert(w[1] == pc);
            }
            if x == 6 {
                assert(w[2] == pc);
            }
        }
    } else if t == 12 {
        assert(o =~= seq![0u8, 4u8, 8u8]);
        lemma_mod_offset(root, 0, pc);
        assert(w[0] == (root + 0) % 12);
        lemma_mod_offset(root, 4, pc);
        assert(w[1] == (root + 4) % 12);
        lemma_mod_offset(root, 8, pc);
        assert(w[2] == (root + 8) % 12);
        if w.contains(pc) {
            let i = choose|i: int| 0 <= i < w.len() && w[i] == pc;
            assert(i == 0 || i == 1 || i == 2);
        }
        if offset_in(12, x) {
            if x == 0 {
                assert(w[0] == pc);
            }
            if x == 4 {
                assert(w[1] == pc);
            }
            if x == 8 {
                assert(w[2] == pc);
            }
        }
    } else if t == 13 {
        assert(o =~= seq![0u8, 5u8, 7u8]);
        lemma_mod_offset(root, 0, pc);
        assert(w[0] == (root + 0) % 12);
        lemma_mod_offset(root, 5, pc);
        assert(w[1] == (root + 5) % 12);
        lemma_mod_offset(root, 7, pc);
        assert(w[2] == (root + 7) % 12);
        if w.contains(pc) {
            let i = choose|i: int| 0 <= i < w.len() && w[i] == pc;
            assert(i == 0 || i == 1 || i == 2);
        }
        if offset_in(13, x) {
            if x == 0 {
                assert(w[0] == pc);
            }
            if x == 5 {
                assert(w[1] == pc);
            }
            if x == 7 {
                assert(w[2] == pc);
            }
        }
    } else if t == 14 {
        assert(o =~= seq![0u8, 2u8, 7u8]);
        lemma_mod_offset(root, 0, pc);
        assert(w[0] == (root + 0) % 12);
        lemma_mod_offset(root, 2, pc);
        assert(w[1] == (root + 2) % 12);
        lemma_mod_offset(root, 7, pc);
        assert(w[2] == (root + 7) % 12);
        if w.contains(pc) {
            let i = choose|i: int| 0 <= i < w.len() && w[i] == pc;
            assert(i == 0 || i == 1 || i == 2);
        }
        if offset_in(14, x) {
            if x == 0 {
                assert(w[0] == pc);
            }
            if x == 2 {
                assert(w[1] == pc);
            }
            if x == 7 {
                assert(w[2] == pc);
            }
        }
    } else if t == 15 {
        assert(o =~= seq![0u8, 7u8]);
        lemma_mod_offset(root, 0, pc);
        assert(w[0] == (root + 0) % 12);
        lemma_mod_offset(root, 7, pc);
        assert(w[1] == (root + 7) % 12);
        if w.contains(pc) {
            let i = choose|i: int| 0 <= i < w.len() && w[i] == pc;
            assert(i == 0 || i == 1);
        }
        if offset_in(15, x) {
            if x == 0 {
                assert(w[0] == pc);
            }
            if x == 7 {
                assert(w[1] == pc);
            }
        }
    }
}

/// Candidates `d` and `c` differ where the degree `a` above `c`'s root is in
/// one and not in the other.
proof fn lemma_differs(d: int, c: int, a: int)
    requires
        0 <= d < 192,
        0 <= c < 192,
        0 <= a < 12,
        offset_in(d % 16, (a - (d / 16 - c / 16 + 12) % 12 + 12) % 12) != offset_in(c % 16, a),
    ensures
        other_tones(d, c),
{
    let x = d / 16;
    let y = c / 16;
    assert(0 <= x < 12 && 0 <= y < 12);
    let k = (x - y + 12) % 12;
    if x >= y {
        assert(k == x - y);
    } else {
        assert(k == x - y + 12);
    }
    let pc = (y + a) % 12;
    if y + a < 12 {
        assert(pc == y + a);
    } else {
        assert(pc == y + a - 12);
    }
    let l = (a - k + 12) % 12;
    if a >= k {
        assert(l == a - k);
    } else {
        assert(l == a - k + 12);
    }
    let m = (pc - x + 12) % 12;
    if pc >= x {
        assert(m == pc - x);
    } else {
        assert(m == pc - x + 12);
    }
    let n = (pc - y + 12) % 12;
    if pc >= y {
        assert(n == pc - y);
    } else {
        assert(n == pc - y + 12);
    }
    assert(m == l);
    assert(n == a);
    lemma_wanted_contains(x, d % 16, pc);
    lemma_wanted_contains(y, c % 16, pc);
    assert(differs_at(d, c, pc));
}

/// A witness that reading `t2` over a root `k` above that of template 0
/// (`maj7`) does not give the same pitch classes.
proof fn lemma_other_reading_0(t2: int, k: int) -> (a: int)
    requires
        0 <= t2 < 16,
        0 <= k < 12,
        offset_in(0, k),
        template(t2).1.len() == 4,
        !(t2 == 0 && k == 0),
    ensures
        0 <= a < 12,
        offset_in(t2, (a - k + 12) % 12) != offset_in(0, a),
{
    if t2 == 0 {
        if k == 0 {
            0
        } else if k == 4 {
            0
        } else if k == 7 {
            0
        } else if k == 11 {
            0
        } else {
            0
        }
    } else if t2 == 1 {
        if k == 0 {
            3
        } else if k == 4 {
            0
        } else if k == 7 {
            0
        } else if k == 11 {
            0
        } else {
            0
        }
    } else if t2 == 2 {
        if k == 0 {
            10
        } else if k == 4 {
            0
        } else if k == 7 {
            0
        } else if k == 11 {
            0
        } else {
            0
        }
    } else if t2 == 3 {
        if k == 0 {
            3
        } else if k == 4 {
            0
        } else if k == 7 {
            0
        } else if k == 11 {
            0
        } else {
            0
        }
    } else if t2 == 4 {
        if k == 0 {
            3
        } else if k == 4 {
            0
        } else if k == 7 {
            0
        } else if k == 11 {
            0
        } else {
            0
        }
    } else if t2 == 5 {
        if k == 0 {
            3
        } else if k == 4 {
            0
        } else if k == 7 {
            0
        } else if k == 11 {
            0
        } else {
            0
        }
    } else if t2 == 6 {
        if k == 0 {
            9
        } else if k == 4 {
            0
        } else if k == 7 {
            0
        } else if k == 11 {
            0
        } else {
            0
        }
    } else if t2 == 7 {
        if k == 0 {
            3
        } else if k == 4 {
            0
        } else if k == 7 {
            0
        } else if k == 11 {
            0
        } else {
            0
        }
    } else if t2 == 8 {
        if k == 0 {
            2
        } else if k == 4 {
            0
        } else if k == 7 {
            0
        } else if k == 11 {
            0
        } else {
            0
        }
    } else if t2 == 9 {
        assert(template(9).1.len() == 3);
        0
    } else if t2 == 10 {
        assert(template(10).1.len() == 3);
        0
    } else if t2 == 11 {
        assert(template(11).1.len() == 3);
        0
    } else if t2 == 12 {
        assert(template(12).1.len() == 3);
        0
    } else if t2 == 13 {
        assert(template(13).1.len() == 3);
        0
    } else if t2 == 14 {
        assert(template(14).1.len() == 3);
        0
    } else {
        assert(template(15).1.len() == 2);
        0
    }
}

/// A witness that reading `t2` over a root `k` above that of template 1
/// (`min7`) does not give the same pitch classes.
proof fn lemma_other_reading_1(t2: int, k: int) -> (a: int)
    requires
        0 <= t2 < 16,
        0 <= k < 12,
        offset_in(1, k),
        template(t2).1.len() == 4,
        !(t2 == 1 && k == 0),
        !(t2 == 6 && k == 3),
    ensures
        0 <= a < 12,
        offset_in(t2, (a - k + 12) % 12) != offset_in(1, a),
{
    if t2 == 0 {
        if k == 0 {
            3
        } else if k == 3 {
            0
        } else if k == 7 {
            0
        } else if k == 10 {
            0
        } else {
            0
        }
    } else if t2 == 1 {
        if k == 0 {
            0
        } else if k == 3 {
            0
        } else if k == 7 {
            0
        } else if k == 10 {
            0
        } else {
            0
        }
    } else if t2 == 2 {
        if k == 0 {
            3
        } else if k == 3 {
            0
        } else if k == 7 {
            0
        } else if k == 10 {
            0
        } else {
            0
        }
    } else if t2 == 3 {
        if k == 0 {
            6
        } else if k == 3 {
            0
        } else if k == 7 {
            0
        } else if k == 10 {
            0
        } else {
            0
        }
    } else if t2 == 4 {
        if k == 0 {
            6
        } else if k == 3 {
            6
        } else if k == 7 {
            0
        } else if k == 10 {
            0
        } else {
            0
        }
    } else if t2 == 5 {
        if k == 0 {
            10
        } else if k == 3 {
            0
        } else if k == 7 {
            0
        } else if k == 10 {
            0
        } else {
            0
        }
    } else if t2 == 6 {
        if k == 0 {
            3
        } else if k == 3 {
            0
        } else if k == 7 {
            0
        } else if k == 10 {
            0
        } else {
            0
        }
    } else if t2 == 7 {
        if k == 0 {
            9
        } else if k == 3 {
            6
        } else if k == 7 {
            0
        } else if k == 10 {
            0
        } else {
            0
        }
    } else if t2 == 8 {
        if k == 0 {
            2
        } else if k == 3 {
            0
        } else if k == 7 {
            0
        } else if k == 10 {
            2
        } else {
            0
        }
    } else if t2 == 9 {
        assert(template(9).1.len() == 3);
        0
    } else if t2 == 10 {
        assert(template(10).1.len() == 3);
        0
    } else if t2 == 11 {
        assert(template(11).1.len() == 3);
        0
    } else if t2 == 12 {
        assert(template(12).1.len() == 3);
        0
    } else if t2 == 13 {
        assert(template(13).1.len() == 3);
        0
    } else if t2 == 14 {
        assert(template(14).1.len() == 3);
        0
    } else {
        assert(template(15).1.len() == 2);
        0
    }
}

/// A witness that reading `t2` over a root `k` above that of template 2
/// (`7`) does not give the same pitch classes.
proof fn lemma_other_reading_2(t2: int, k: int) -> (a: int)
    requires
        0 <= t2 < 16,
        0 <= k < 12,
        offset_in(2, k),
        template(t2).1.len() == 4,
        !(t2 == 2 && k == 0),
    ensures
        0 <= a < 12,
        offset_in(t2, (a - k + 12) % 12) != offset_in(2, a),
{
    if t2 == 0 {
        if k == 0 {
            10
        } else if k == 4 {
            0
        } else if k == 7 {
            0
        } else if k == 10 {
            0
        } else {
            0
        }
    } else if t2 == 1 {
        if k == 0 {
            3
        } else if k == 4 {
            0
        } else if k == 7 {
            0
        } else if k == 10 {
            0
        } else {
            0
        }
    } else if t2 == 2 {
        if k == 0 {
            0
        } else if k == 4 {
            0
        } else if k == 7 {
            0
        } else if k == 10 {
            0
        } else {
            0
        }
    } else if t2 == 3 {
        if k == 0 {
            3
        } else if k == 4 {
            0
        } else if k == 7 {
            0
        } else if k == 10 {
            0
        } else {
            0
        }
    } else if t2 == 4 {
        if k == 0 {
            3
        } else if k == 4 {
            0
        } else if k == 7 {
            0
        } else if k == 10 {
            0
        } else {
            0
        }
    } else if t2 == 5 {
        if k == 0 {
            3
        } else if k == 4 {
            0
        } else if k == 7 {
            0
        } else if k == 10 {
            0
        } else {
            0
        }
    } else if t2 == 6 {
        if k == 0 {
            9
        } else if k == 4 {
            0
        } else if k == 7 {
            0
        } else if k == 10 {
            0
        } else {
            0
        }
    } else if t2 == 7 {
        if k == 0 {
            3
        } else if k == 4 {
            0
        } else if k == 7 {
            0
        } else if k == 10 {
            0
        } else {
            0
        }
    } else if t2 == 8 {
        if k == 0 {
            2
        } else if k == 4 {
            0
        } else if k == 7 {
            0
        } else if k == 10 {
            2
        } else {
            0
        }
    } else if t2 == 9 {
        assert(template(9).1.len() == 3);
        0
    } else if t2 == 10 {
        assert(template(10).1.len() == 3);
        0
    } else if t2 == 11 {
        assert(template(11).1.len() == 3);
        0
    } else if t2 == 12 {
        assert(template(12).1.len() == 3);
        0
    } else if t2 == 13 {
        assert(template(13).1.len() == 3);
        0
    } else if t2 == 14 {
        assert(template(14).1.len() == 3);
        0
    } else {
        assert(template(15).1.len() == 2);
        0
    }
}

/// A witness that reading `t2` over a root `k` above that of template 3
/// (`min7b5`) does not give the same pitch classes.
proof fn lemma_other_reading_3(t2: int, k: int) -> (a: int)
    requires
        0 <= t2 < 16,
        0 <= k < 12,
        offset_in(3, k),
        template(t2).1.len() == 4,
        !(t2 == 3 && k == 0),
        !(t2 == 7 && k == 3),
    ensures
        0 <= a < 12,
        offset_in(t2, (a - k + 12) % 12) != offset_in(3, a),
{
    if t2 == 0 {
        if k == 0 {
            3
        } else if k == 3 {
            0
        } else if k == 6 {
            0
        } else if k == 10 {
            0
        } else {
            0
        }
    } else if t2 == 1 {
        if k == 0 {
            6
        } else if k == 3 {
            0
        } else if k == 6 {
            0
        } else if k == 10 {
            0
        } else {
            0
        }
    } else if t2 == 2 {
        if k == 0 {
            3
        } else if k == 3 {
            0
        } else if k == 6 {
            0
        } else if k == 10 {
            0
        } else {
            0
        }
    } else if t2 == 3 {
        if k == 0 {
            0
        } else if k == 3 {
            0
        } else if k == 6 {
            3
        } else if k == 10 {
            0
        } else {
            0
        }
    } else if t2 == 4 {
        if k == 0 {
            9
        } else if k == 3 {
            9
        } else if k == 6 {
            9
        } else if k == 10 {
            0
        } else {
            0
        }
    } else if t2 == 5 {
        if k == 0 {
            6
        } else if k == 3 {
            0
        } else if k == 6 {
            0
        } else if k == 10 {
            0
        } else {
            0
        }
    } else if t2 == 6 {
        if k == 0 {
            3
        } else if k == 3 {
            6
        } else if k == 6 {
            0
        } else if k == 10 {
            0
        } else {
            0
        }
    } else if t2 == 7 {
        if k == 0 {
            6
        } else if k == 3 {
            0
        } else if k == 6 {
            0
        } else if k == 10 {
            0
        } else {
            0
        }
    } else if t2 == 8 {
        if k == 0 {
            2
        } else if k == 3 {
            0
        } else if k == 6 {
            0
        } else if k == 10 {
            2
        } else {
            0
        }
    } else if t2 == 9 {
        assert(template(9).1.len() == 3);
        0
    } else if t2 == 10 {
        assert(template(10).1.len() == 3);
        0
    } else if t2 == 11 {
        assert(template(11).1.len() == 3);
        0
    } else if t2 == 12 {
        assert(template(12).1.len() == 3);
        0
    } else if t2 == 13 {
        assert(template(13).1.len() == 3);
        0
    } else if t2 == 14 {
        assert(template(14).1.len() == 3);
        0
    } else {
        assert(template(15).1.len() == 2);
        0
    }
}

/// A witness that reading `t2` over a root `k` above that of template 4
/// (`dim7`) does not give the same pitch classes.
proof fn lemma_other_reading_4(t2: int, k: int) -> (a: int)
    requires
        0 <= t2 < 16,
        0 <= k < 12,
        offset_in(4, k),
        template(t2).1.len() == 4,
        !(t2 == 4 && k == 0),
        !(t2 == 4 && k == 3),
        !(t2 == 4 && k == 6),
        !(t2 == 4 && k == 9),
    ensures
        0 <= a < 12,
        offset_in(t2, (a - k + 12) % 12) != offset_in(4, a),
{
    if t2 == 0 {
        if k == 0 {
            3
        } else if k == 3 {
            0
        } else if k == 6 {
            0
        } else if k == 9 {
            0
        } else {
            0
        }
    } else if t2 == 1 {
        if k == 0 {
            6
        } else if k == 3 {
            0
        } else if k == 6 {
            0
        } else if k == 9 {
            3
        } else {
            0
        }
    } else if t2 == 2 {
        if k == 0 {
            3
        } else if k == 3 {
            0
        } else if k == 6 {
            0
        } else if k == 9 {
            0
        } else {
            0
        }
    } else if t2 == 3 {
        if k == 0 {
            9
        } else if k == 3 {
            0
        } else if k == 6 {
            3
        } else if k == 9 {
            6
        } else {
            0
        }
    } else if t2 == 4 {
        if k == 0 {
            0
        } else if k == 3 {
            0
        } else if k == 6 {
            0
        } else if k == 9 {
            0
        } else {
            0
        }
    } else if t2 == 5 {
        if k == 0 {
            6
        } else if k == 3 {
            0
        } else if k == 6 {
            0
        } else if k == 9 {
            3
        } else {
            0
        }
    } else if t2 == 6 {
        if k == 0 {
            3
        } else if k == 3 {
            6
        } else if k == 6 {
            0
        } else if k == 9 {
            0
        } else {
            0
        }
    } else if t2 == 7 {
        if k == 0 {
            6
        } else if k == 3 {
            9
        } else if k == 6 {
            0
        } else if k == 9 {
            3
        } else {
            0
        }
    } else if t2 == 8 {
        if k == 0 {
            2
        } else if k == 3 {
            0
        } else if k == 6 {
            0
        } else if k == 9 {
            0
        } else {
            0
        }
    } else if t2 == 9 {
        assert(template(9).1.len() == 3);
        0
    } else if t2 == 10 {
        assert(template(10).1.len() == 3);
        0
    } else if t2 == 11 {
        assert(template(11).1.len() == 3);
        0
    } else if t2 == 12 {
        assert(template(12).1.len() == 3);
        0
    } else if t2 == 13 {
        assert(template(13).1.len() == 3);
        0
    } else if t2 == 14 {
        assert(template(14).1.len() == 3);
        0
    } else {
        assert(template(15).1.len() == 2);
        0
    }
}

/// A witness that reading `t2` over a root `k` above that of template 5
/// (`minmaj7`) does not give the same pitch classes.
proof fn lemma_other_reading_5(t2: int, k: int) -> (a: int)
    requires
        0 <= t2 < 16,
        0 <= k < 12,
        offset_in(5, k),
        template(t2).1.len() == 4,
        !(t2 == 5 && k == 0),
    ensures
        0 <= a < 12,
        offset_in(t2, (a - k + 12) % 12) != offset_in(5, a),
{
    if t2 == 0 {
        if k == 0 {
            3
        } else if k == 3 {
            0
        } else if k == 7 {
            0
        } else if k == 11 {
            0
        } else {
            0
        }
    } else if t2 == 1 {
        if k == 0 {
            10
        } else if k == 3 {
            0
        } else if k == 7 {
            0
        } else if k == 11 {
            0
        } else {
            0
        }
    } else if t2 == 2 {
        if k == 0 {
            3
        } else if k == 3 {
            0
        } else if k == 7 {
            0
        } else if k == 11 {
            0
        } else {
            0
        }
    } else if t2 == 3 {
        if k == 0 {
            6
        } else if k == 3 {
            0
        } else if k == 7 {
            0
        } else if k == 11 {
            0
        } else {
            0
        }
    } else if t2 == 4 {
        if k == 0 {
            6
        } else if k == 3 {
            6
        } else if k == 7 {
            0
        } else if k == 11 {
            0
        } else {
            0
        }
    } else if t2 == 5 {
        if k == 0 {
            0
        } else if k == 3 {
            0
        } else if k == 7 {
            0
        } else if k == 11 {
            0
        } else {
            0
        }
    } else if t2 == 6 {
        if k == 0 {
            3
        } else if k == 3 {
            10
        } else if k == 7 {
            0
        } else if k == 11 {
            0
        } else {
            0
        }
    } else if t2 == 7 {
        if k == 0 {
            9
        } else if k == 3 {
            6
        } else if k == 7 {
            0
        } else if k == 11 {
            0
        } else {
            0
        }
    } else if t2 == 8 {
        if k == 0 {
            2
        } else if k == 3 {
            0
        } else if k == 7 {
            0
        } else if k == 11 {
            0
        } else {
            0
        }
    } else if t2 == 9 {
        assert(template(9).1.len() == 3);
        0
    } else if t2 == 10 {
        assert(template(10).1.len() == 3);
        0
    } else if t2 == 11 {
        assert(template(11).1.len() == 3);
        0
    } else if t2 == 12 {
        assert(template(12).1.len() == 3);
        0
    } else if t2 == 13 {
        assert(template(13).1.len() == 3);
        0
    } else if t2 == 14 {
        assert(template(14).1.len() == 3);
        0
    } else {
        assert(template(15).1.len() == 2);
        0
    }
}

/// A witness that reading `t2` over a root `k` above that of template 6
/// (`6`) does not give the same pitch classes.
proof fn lemma_other_reading_6(t2: int, k: int) -> (a: int)
    requires
        0 <= t2 < 16,
        0 <= k < 12,
        offset_in(6, k),
        template(t2).1.len() == 4,
        !(t2 == 6 && k == 0),
        !(t2 == 1 && k == 9),
    ensures
        0 <= a < 12,
        offset_in(t2, (a - k + 12) % 12) != offset_in(6, a),
{
    if t2 == 0 {
        if k == 0 {
            9
        } else if k == 4 {
            0
        } else if k == 7 {
            0
        } else if k == 9 {
            0
        } else {
            0
        }
    } else if t2 == 1 {
        if k == 0 {
            3
        } else if k == 4 {
            0
        } else if k == 7 {
            0
        } else if k == 9 {
            0
        } else {
            0
        }
    } else if t2 == 2 {
        if k == 0 {
            9
        } else if k == 4 {
            0
        } else if k == 7 {
            0
        } else if k == 9 {
            0
        } else {
            0
        }
    } else if t2 == 3 {
        if k == 0 {
            3
        } else if k == 4 {
            0
        } else if k == 7 {
            0
        } else if k == 9 {
            3
        } else {
            0
        }
    } else if t2 == 4 {
        if k == 0 {
            3
        } else if k == 4 {
            0
        } else if k == 7 {
            0
        } else if k == 9 {
            3
        } else {
            0
        }
    } else if t2 == 5 {
        if k == 0 {
            3
        } else if k == 4 {
            0
        } else if k == 7 {
            0
        } else if k == 9 {
            7
        } else {
            0
        }
    } else if t2 == 6 {
        if k == 0 {
            0
        } else if k == 4 {
            0
        } else if k == 7 {
            0
        } else if k == 9 {
            0
        } else {
            0
        }
    } else if t2 == 7 {
        if k == 0 {
            3
        } else if k == 4 {
            0
        } else if k == 7 {
            0
        } else if k == 9 {
            6
        } else {
            0
        }
    } else if t2 == 8 {
        if k == 0 {
            2
        } else if k == 4 {
            0
        } else if k == 7 {
            0
        } else if k == 9 {
            0
        } else {
            0
        }
    } else if t2 == 9 {
        assert(template(9).1.len() == 3);
        0
    } else if t2 == 10 {
        assert(template(10).1.len() == 3);
        0
    } else if t2 == 11 {
        assert(template(11).1.len() == 3);
        0
    } else if t2 == 12 {
        assert(template(12).1.len() == 3);
        0
    } else if t2 == 13 {
        assert(template(13).1.len() == 3);
        0
    } else if t2 == 14 {
        assert(template(14).1.len() == 3);
        0
    } else {
        assert(template(15).1.len() == 2);
        0
    }
}

/// A witness that reading `t2` over a root `k` above that of template 7
/// (`min6`) does not give the same pitch classes.
proof fn lemma_other_reading_7(t2: int, k: int) -> (a: int)
    requires
        0 <= t2 < 16,
        0 <= k < 12,
        offset_in(7, k),
        template(t2).1.len() == 4,
        !(t2 == 7 && k == 0),
        !(t2 == 3 && k == 9),
    ensures
        0 <= a < 12,
        offset_in(t2, (a - k + 12) % 12) != offset_in(7, a),
{
    if t2 == 0 {
        if k == 0 {
            3
        } else if k == 3 {
            0
        } else if k == 7 {
            0
        } else if k == 9 {
            0
        } else {
            0
        }
    } else if t2 == 1 {
        if k == 0 {
            9
        } else if k == 3 {
            0
        } else if k == 7 {
            0
        } else if k == 9 {
            3
        } else {
            0
        }
    } else if t2 == 2 {
        if k == 0 {
            3
        } else if k == 3 {
            0
        } else if k == 7 {
            0
        } else if k == 9 {
            0
        } else {
            0
        }
    } else if t2 == 3 {
        if k == 0 {
            6
        } else if k == 3 {
            0
        } else if k == 7 {
            0
        } else if k == 9 {
            0
        } else {
            0
        }
    } else if t2 == 4 {
        if k == 0 {
            6
        } else if k == 3 {
            6
        } else if k == 7 {
            0
        } else if k == 9 {
            6
        } else {
            0
        }
    } else if t2 == 5 {
        if k == 0 {
            9
        } else if k == 3 {
            0
        } else if k == 7 {
            0
        } else if k == 9 {
            3
        } else {
            0
        }
    } else if t2 == 6 {
        if k == 0 {
            3
        } else if k == 3 {
            9
        } else if k == 7 {
            0
        } else if k == 9 {
            0
        } else {
            0
        }
    } else if t2 == 7 {
        if k == 0 {
            0
        } else if k == 3 {
            6
        } else if k == 7 {
            0
        } else if k == 9 {
            3
        } else {
            0
        }
    } else if t2 == 8 {
        if k == 0 {
            2
        } else if k == 3 {
            0
        } else if k == 7 {
            0
        } else if k == 9 {
            0
        } else {
            0
        }
    } else if t2 == 9 {
        assert(template(9).1.len() == 3);
        0
    } else if t2 == 10 {
        assert(template(10).1.len() == 3);
        0
    } else if t2 == 11 {
        assert(template(11).1.len() == 3);
        0
    } else if t2 == 12 {
        assert(template(12).1.len() == 3);
        0
    } else if t2 == 13 {
        assert(template(13).1.len() == 3);
        0
    } else if t2 == 14 {
        assert(template(14).1.len() == 3);
        0
    } else {
        assert(template(15).1.len() == 2);
        0
    }
}

/// A witness that reading `t2` over a root `k` above that of template 8
/// (`add9`) does not give the same pitch classes.
proof fn lemma_other_reading_8(t2: int, k: int) -> (a: int)
    requires
        0 <= t2 < 16,
        0 <= k < 12,
        offset_in(8, k),
        template(t2).1.len() == 4,
        !(t2 == 8 && k == 0),
    ensures
        0 <= a < 12,
        offset_in(t2, (a - k + 12) % 12) != offset_in(8, a),
{
    if t2 == 0 {
        if k == 0 {
            2
        } else if k == 2 {
            0
        } else if k == 4 {
            0
        } else if k == 7 {
            0
        } else {
            0
        }
    } else if t2 == 1 {
        if k == 0 {
            2
        } else if k == 2 {
            4
        } else if k == 4 {
            0
        } else if k == 7 {
            0
        } else {
            0
        }
    } else if t2 == 2 {
        if k == 0 {
            2
        } else if k == 2 {
            4
        } else if k == 4 {
            0
        } else if k == 7 {
            0
        } else {
            0
        }
    } else if t2 == 3 {
        if k == 0 {
            2
        } else if k == 2 {
            4
        } else if k == 4 {
            0
        } else if k == 7 {
            0
        } else {
            0
        }
    } else if t2 == 4 {
        if k == 0 {
            2
        } else if k == 2 {
            0
        } else if k == 4 {
            0
        } else if k == 7 {
            0
        } else {
            0
        }
    } else if t2 == 5 {
        if k == 0 {
            2
        } else if k == 2 {
            0
        } else if k == 4 {
            0
        } else if k == 7 {
            0
        } else {
            0
        }
    } else if t2 == 6 {
        if k == 0 {
            2
        } else if k == 2 {
            0
        } else if k == 4 {
            0
        } else if k == 7 {
            0
        } else {
            0
        }
    } else if t2 == 7 {
        if k == 0 {
            2
        } else if k == 2 {
            0
        } else if k == 4 {
            0
        } else if k == 7 {
            0
        } else {
            0
        }
    } else if t2 == 8 {
        if k == 0 {
            0
        } else if k == 2 {
            0
        } else if k == 4 {
            0
        } else if k == 7 {
            0
        } else {
            0
        }
    } else if t2 == 9 {
        assert(template(9).1.len() == 3);
        0
    } else if t2 == 10 {
        assert(template(10).1.len() == 3);
        0
    } else if t2 == 11 {
        assert(template(11).1.len() == 3);
        0
    } else if t2 == 12 {
        assert(template(12).1.len() == 3);
        0
    } else if t2 == 13 {
        assert(template(13).1.len() == 3);
        0
    } else if t2 == 14 {
        assert(template(14).1.len() == 3);
        0
    } else {
        assert(template(15).1.len() == 2);
        0
    }
}

/// A witness that reading `t2` over a root `k` above that of template 9
/// (`maj`) does not give the same pitch classes.
proof fn lemma_other_reading_9(t2: int, k: int) -> (a: int)
    requires
        0 <= t2 < 16,
        0 <= k < 12,
        offset_in(9, k),
        template(t2).1.len() == 3,
        !(t2 == 9 && k == 0),
    ensures
        0 <= a < 12,
        offset_in(t2, (a - k + 12) % 12) != offset_in(9, a),
{
    if t2 == 0 {
        assert(template(0).1.len() == 4);
        0
    } else if t2 == 1 {
        assert(template(1).1.len() == 4);
        0
    } else if t2 == 2 {
        assert(template(2).1.len() == 4);
        0
    } else if t2 == 3 {
        assert(template(3).1.len() == 4);
        0
    } else if t2 == 4 {
        assert(template(4).1.len() == 4);
        0
    } else if t2 == 5 {
        assert(template(5).1.len() == 4);
        0
    } else if t2 == 6 {
        assert(template(6).1.len() == 4);
        0
    } else if t2 == 7 {
        assert(template(7).1.len() == 4);
        0
    } else if t2 == 8 {
        assert(template(8).1.len() == 4);
        0
    } else if t2 == 9 {
        if k == 0 {
            0
        } else if k == 4 {
            0
        } else if k == 7 {
            0
        } else {
            0
        }
    } else if t2 == 10 {
        if k == 0 {
            3
        } else if k == 4 {
            0
        } else if k == 7 {
            0
        } else {
            0
        }
    } else if t2 == 11 {
        if k == 0 {
            3
        } else if k == 4 {
            0
        } else if k == 7 {
            0
        } else {
            0
        }
    } else if t2 == 12 {
        if k == 0 {
            7
        } else if k == 4 {
            7
        } else if k == 7 {
            0
        } else {
            0
        }
    } else if t2 == 13 {
        if k == 0 {
            4
        } else if k == 4 {
            0
        } else if k == 7 {
            2
        } else {
            0
        }
    } else if t2 == 14 {
        if k == 0 {
            2
        } else if k == 4 {
            0
        } else if k == 7 {
            0
        } else {
            0
        }
    } else {
        assert(template(15).1.len() == 2);
        0
    }
}

/// A witness that reading `t2` over a root `k` above that of template 10
/// (`min`) does not give the same pitch classes.
proof fn lemma_other_reading_10(t2: int, k: int) -> (a: int)
    requires
        0 <= t2 < 16,
        0 <= k < 12,
        offset_in(10, k),
        template(t2).1.len() == 3,
        !(t2 == 10 && k == 0),
    ensures
        0 <= a < 12,
        offset_in(t2, (a - k + 12) % 12) != offset_in(10, a),
{
    if t2 == 0 {
        assert(template(0).1.len() == 4);
        0
    } else if t2 == 1 {
        assert(template(1).1.len() == 4);
        0
    } else if t2 == 2 {
        assert(template(2).1.len() == 4);
        0
    } else if t2 == 3 {
        assert(template(3).1.len() == 4);
        0
    } else if t2 == 4 {
        assert(template(4).1.len() == 4);
        0
    } else if t2 == 5 {
        assert(template(5).1.len() == 4);
        0
    } else if t2 == 6 {
        assert(template(6).1.len() == 4);
        0
    } else if t2 == 7 {
        assert(template(7).1.len() == 4);
        0
    } else if t2 == 8 {
        assert(template(8).1.len() == 4);
        0
    } else if t2 == 9 {
        if k == 0 {
            3
        } else if k == 3 {
            0
        } else if k == 7 {
            0
        } else {
            0
        }
    } else if t2 == 10 {
        if k == 0 {
            0
        } else if k == 3 {
            0
        } else if k == 7 {
            0
        } else {
            0
        }
    } else if t2 == 11 {
        if k == 0 {
            6
        } else if k == 3 {
            0
        } else if k == 7 {
            0
        } else {
            0
        }
    } else if t2 == 12 {
        if k == 0 {
            3
        } else if k == 3 {
            0
        } else if k == 7 {
            0
        } else {
            0
        }
    } else if t2 == 13 {
        if k == 0 {
            3
        } else if k == 3 {
            0
        } else if k == 7 {
            2
        } else {
            0
        }
    } else if t2 == 14 {
        if k == 0 {
            2
        } else if k == 3 {
            0
        } else if k == 7 {
            0
        } else {
            0
        }
    } else {
        assert(template(15).1.len() == 2);
        0
    }
}

/// A witness that reading `t2` over a root `k` above that of template 11
/// (`dim`) does not give the same pitch classes.
proof fn lemma_other_reading_11(t2: int, k: int) -> (a: int)
    requires
        0 <= t2 < 16,
        0 <= k < 12,
        offset_in(11, k),
        template(t2).1.len() == 3,
        !(t2 == 11 && k == 0),
    ensures
        0 <= a < 12,
        offset_in(t2, (a - k + 12) % 12) != offset_in(11, a),
{
    if t2 == 0 {
        assert(template(0).1.len() == 4);
        0
    } else if t2 == 1 {
        assert(template(1).1.len() == 4);
        0
    } else if t2 == 2 {
        assert(template(2).1.len() == 4);
        0
    } else if t2 == 3 {
        assert(template(3).1.len() == 4);
        0
    } else if t2 == 4 {
        assert(template(4).1.len() == 4);
        0
    } else if t2 == 5 {
        assert(template(5).1.len() == 4);
        0
    } else if t2 == 6 {
        assert(template(6).1.len() == 4);
        0
    } else if t2 == 7 {
        assert(template(7).1.len() == 4);
        0
    } else if t2 == 8 {
        assert(template(8).1.len() == 4);
        0
    } else if t2 == 9 {
        if k == 0 {
            3
        } else if k == 3 {
            0
        } else if k == 6 {
            0
        } else {
            0
        }
    } else if t2 == 10 {
        if k == 0 {
            6
        } else if k == 3 {
            0
        } else if k == 6 {
            0
        } else {
            0
        }
    } else if t2 == 11 {
        if k == 0 {
            0
        } else if k == 3 {
            0
        } else if k == 6 {
            3
        } else {
            0
        }
    } else if t2 == 12 {
        if k == 0 {
            3
        } else if k == 3 {
            0
        } else if k == 6 {
            0
        } else {
            0
        }
    } else if t2 == 13 {
        if k == 0 {
            3
        } else if k == 3 {
            0
        } else if k == 6 {
            0
        } else {
            0
        }
    } else if t2 == 14 {
        if k == 0 {
            2
        } else if k == 3 {
            0
        } else if k == 6 {
            0
        } else {
            0
        }
    } else {
        assert(template(15).1.len() == 2);
        0
    }
}

/// A witness that reading `t2` over a root `k` above that of template 12
/// (`aug`) does not give the same pitch classes.
proof fn lemma_other_reading_12(t2: int, k: int) -> (a: int)
    requires
        0 <= t2 < 16,
        0 <= k < 12,
        offset_in(12, k),
        template(t2).1.len() == 3,
        !(t2 == 12 && k == 0),
        !(t2 == 12 && k == 4),
        !(t2 == 12 && k == 8),
    ensures
        0 <= a < 12,
        offset_in(t2, (a - k + 12) % 12) != offset_in(12, a),
{
    if t2 == 0 {
        assert(template(0).1.len() == 4);
        0
    } else if t2 == 1 {
        assert(template(1).1.len() == 4);
        0
    } else if t2 == 2 {
        assert(template(2).1.len() == 4);
        0
    } else if t2 == 3 {
        assert(template(3).1.len() == 4);
        0
    } else if t2 == 4 {
        assert(template(4).1.len() == 4);
        0
    } else if t2 == 5 {
        assert(template(5).1.len() == 4);
        0
    } else if t2 == 6 {
        assert(template(6).1.len() == 4);
        0
    } else if t2 == 7 {
        assert(template(7).1.len() == 4);
        0
    } else if t2 == 8 {
        assert(template(8).1.len() == 4);
        0
    } else if t2 == 9 {
        if k == 0 {
            7
        } else if k == 4 {
            0
        } else if k == 8 {
            3
        } else {
            0
        }
    } else if t2 == 10 {
        if k == 0 {
            3
        } else if k == 4 {
            0
        } else if k == 8 {
            0
        } else {
            0
        }
    } else if t2 == 11 {
        if k == 0 {
            3
        } else if k == 4 {
            0
        } else if k == 8 {
            0
        } else {
            0
        }
    } else if t2 == 12 {
        if k == 0 {
            0
        } else if k == 4 {
            0
        } else if k == 8 {
            0
        } else {
            0
        }
    } else if t2 == 13 {
        if k == 0 {
            4
        } else if k == 4 {
            0
        } else if k == 8 {
            0
        } else {
            0
        }
    } else if t2 == 14 {
        if k == 0 {
            2
        } else if k == 4 {
            0
        } else if k == 8 {
            0
        } else {
            0
        }
    } else {
        assert(template(15).1.len() == 2);
        0
    }
}

/// A witness that reading `t2` over a root `k` above that of template 13
/// (`sus4`) does not give the same pitch classes.
proof fn lemma_other_reading_13(t2: int, k: int) -> (a: int)
    requires
        0 <= t2 < 16,
        0 <= k < 12,
        offset_in(13, k),
        template(t2).1.len() == 3,
        !(t2 == 13 && k == 0),
        !(t2 == 14 && k == 5),
    ensures
        0 <= a < 12,
        offset_in(t2, (a - k + 12) % 12) != offset_in(13, a),
{
    if t2 == 0 {
        assert(template(0).1.len() == 4);
        0
    } else if t2 == 1 {
        assert(template(1).1.len() == 4);
        0
    } else if t2 == 2 {
        assert(template(2).1.len() == 4);
        0
    } else if t2 == 3 {
        assert(template(3).1.len() == 4);
        0
    } else if t2 == 4 {
        assert(template(4).1.len() == 4);
        0
    } else if t2 == 5 {
        assert(template(5).1.len() == 4);
        0
    } else if t2 == 6 {
        assert(template(6).1.len() == 4);
        0
    } else if t2 == 7 {
        assert(template(7).1.len() == 4);
        0
    } else if t2 == 8 {
        assert(template(8).1.len() == 4);
        0
    } else if t2 == 9 {
        if k == 0 {
            4
        } else if k == 5 {
            7
        } else if k == 7 {
            0
        } else {
            0
        }
    } else if t2 == 10 {
        if k == 0 {
            3
        } else if k == 5 {
            7
        } else if k == 7 {
            0
        } else {
            0
        }
    } else if t2 == 11 {
        if k == 0 {
            3
        } else if k == 5 {
            0
        } else if k == 7 {
            0
        } else {
            0
        }
    } else if t2 == 12 {
        if k == 0 {
            4
        } else if k == 5 {
            0
        } else if k == 7 {
            0
        } else {
            0
        }
    } else if t2 == 13 {
        if k == 0 {
            0
        } else if k == 5 {
            7
        } else if k == 7 {
            2
        } else {
            0
        }
    } else if t2 == 14 {
        if k == 0 {
            2
        } else if k == 5 {
            0
        } else if k == 7 {
            0
        } else {
            0
        }
    } else {
        assert(template(15).1.len() == 2);
        0
    }
}

/// A witness that reading `t2` over a root `k` above that of template 14
/// (`sus2`) does not give the same pitch classes.
proof fn lemma_other_reading_14(t2: int, k: int) -> (a: int)
    requires
        0 <= t2 < 16,
        0 <= k < 12,
        offset_in(14, k),
        template(t2).1.len() == 3,
        !(t2 == 14 && k == 0),
        !(t2 == 13 && k == 7),
    ensures
        0 <= a < 12,
        offset_in(t2, (a - k + 12) % 12) != offset_in(14, a),
{
    if t2 == 0 {
        assert(template(0).1.len() == 4);
        0
    } else if t2 == 1 {
        assert(template(1).1.len() == 4);
        0
    } else if t2 == 2 {
        assert(template(2).1.len() == 4);
        0
    } else if t2 == 3 {
        assert(template(3).1.len() == 4);
        0
    } else if t2 == 4 {
        assert(template(4).1.len() == 4);
        0
    } else if t2 == 5 {
        assert(template(5).1.len() == 4);
        0
    } else if t2 == 6 {
        assert(template(6).1.len() == 4);
        0
    } else if t2 == 7 {
        assert(template(7).1.len() == 4);
        0
    } else if t2 == 8 {
        assert(template(8).1.len() == 4);
        0
    } else if t2 == 9 {
        if k == 0 {
            2
        } else if k == 2 {
            0
        } else if k == 7 {
            0
        } else {
            0
        }
    } else if t2 == 10 {
        if k == 0 {
            2
        } else if k == 2 {
            0
        } else if k == 7 {
            0
        } else {
            0
        }
    } else if t2 == 11 {
        if k == 0 {
            2
        } else if k == 2 {
            0
        } else if k == 7 {
            0
        } else {
            0
        }
    } else if t2 == 12 {
        if k == 0 {
            2
        } else if k == 2 {
            0
        } else if k == 7 {
            0
        } else {
            0
        }
    } else if t2 == 13 {
        if k == 0 {
            2
        } else if k == 2 {
            0
        } else if k == 7 {
            0
        } else {
            0
        }
    } else if t2 == 14 {
        if k == 0 {
            0
        } else if k == 2 {
            0
        } else if k == 7 {
            0
        } else {
            0
        }
    } else {
        assert(template(15).1.len() == 2);
        0
    }
}

/// A witness that reading `t2` over a root `k` above that of template 15
/// (`5`) does not give the same pitch classes.
proof fn lemma_other_reading_15(t2: int, k: int) -> (a: int)
    requires
        0 <= t2 < 16,
        0 <= k < 12,
        offset_in(15, k),
        template(t2).1.len() == 2,
        !(t2 == 15 && k == 0),
    ensures
        0 <= a < 12,
        offset_in(t2, (a - k + 12) % 12) != offset_in(15, a),
{
    if t2 == 0 {
        assert(template(0).1.len() == 4);
        0
    } else if t2 == 1 {
        assert(template(1).1.len() == 4);
        0
    } else if t2 == 2 {
        assert(template(2).1.len() == 4);
        0
    } else if t2 == 3 {
        assert(template(3).1.len() == 4);
        0
    } else if t2 == 4 {
        assert(template(4).1.len() == 4);
        0
    } else if t2 == 5 {
        assert(template(5).1.len() == 4);
        0
    } else if t2 == 6 {
        assert(template(6).1.len() == 4);
        0
    } else if t2 == 7 {
        assert(template(7).1.len() == 4);
        0
    } else if t2 == 8 {
        assert(template(8).1.len() == 4);
        0
    } else if t2 == 9 {
        assert(template(9).1.len() == 3);
        0
    } else if t2 == 10 {
        assert(template(10).1.len() == 3);
        0
    } else if t2 == 11 {
        assert(template(11).1.len() == 3);
        0
    } else if t2 == 12 {
        assert(template(12).1.len() == 3);
        0
    } else if t2 == 13 {
        assert(template(13).1.len() == 3);
        0
    } else if t2 == 14 {
        assert(template(14).1.len() == 3);
        0
    } else {
        if k == 0 {
            0
        } else if k == 7 {
            0
        } else {
            0
        }
    }
}

/// A major seventh: root, major third, fifth and major seventh, over any root, however voiced and with no bass, is named
/// by the reading of those pitch classes that comes first root by root from
/// C, and scores ten for each of its 4 notes.
pub proof fn lemma_major_seventh(pcs: Seq<u8>, r: int, res: Option<(Seq<char>, int)>)
    requires
        0 <= r < 12,
        forall|pc: int| 0 <= pc < 12 ==> (sounds(pcs, pc) <==> (pc == r || pc == (r + 4) % 12 || pc == (r + 7) % 12 || pc == (r + 11) % 12)),
        chord_named(pcs, None, res),
    ensures
        res == Some(
            (
                pitch_name_spec((r) as nat) + "maj7"@,
                40int,
            ),
        ),
{
    if true {
        let c: int = 16 * (r) + 0;
        assert forall|pc: int| 0 <= pc < 12 implies (sounds(pcs, pc) <==> wanted(c / 16, c % 16).contains(pc)) by {
            lemma_wanted_contains(c / 16, 0, pc);
        }
        assert forall|d: int| 0 <= d < c implies #[trigger] other_tones(d, c) by {
            let k = (d / 16 - c / 16 + 12) % 12;
            if !offset_in(0, k) {
                lemma_differs(d, c, k);
            } else if d % 16 == 0 && k == 0 {
                assert(false);
            } else if template(d % 16).1.len() != 4 {
                lemma_sizes_differ(d, c);
            } else {
                let a = lemma_other_reading_0(d % 16, k);
                lemma_differs(d, c, a);
            }
        }
        lemma_exact_chord_name(pcs, c, res);
    }
}

/// A minor seventh: root, minor third, fifth and minor seventh, over any root, however voiced and with no bass, is named
/// by the reading of those pitch classes that comes first root by root from
/// C, and scores ten for each of its 4 notes.
pub proof fn lemma_minor_seventh(pcs: Seq<u8>, r: int, res: Option<(Seq<char>, int)>)
    requires
        0 <= r < 12,
        forall|pc: int| 0 <= pc < 12 ==> (sounds(pcs, pc) <==> (pc == r || pc == (r + 3) % 12 || pc == (r + 7) % 12 || pc == (r + 10) % 12)),
        chord_named(pcs, None, res),
    ensures
        res == Some(
            (
                if r <= 8 {
                    pitch_name_spec((r) as nat) + "min7"@
                } else {
                    pitch_name_spec(((r + 3) % 12) as nat) + "6"@
                },
                40int,
            ),
        ),
{
    if r <= 8 {
        let c: int = 16 * (r) + 1;
        assert forall|pc: int| 0 <= pc < 12 implies (sounds(pcs, pc) <==> wanted(c / 16, c % 16).contains(pc)) by {
            lemma_wanted_contains(c / 16, 1, pc);
        }
        assert forall|d: int| 0 <= d < c implies #[trigger] other_tones(d, c) by {
            let k = (d / 16 - c / 16 + 12) % 12;
            if !offset_in(1, k) {
                lemma_differs(d, c, k);
            } else if d % 16 == 1 && k == 0 {
                assert(false);
            } else if d % 16 == 6 && k == 3 {
                assert(false);
            } else if template(d % 16).1.len() != 4 {
                lemma_sizes_differ(d, c);
            } else {
                let a = lemma_other_reading_1(d % 16, k);
                lemma_differs(d, c, a);
            }
        }
        lemma_exact_chord_name(pcs, c, res);
    } else {
        let c: int = 16 * ((r + 3) % 12) + 6;
        assert forall|pc: int| 0 <= pc < 12 implies (sounds(pcs, pc) <==> wanted(c / 16, c % 16).contains(pc)) by {
            lemma_wanted_contains(c / 16, 6, pc);
        }
        assert forall|d: int| 0 <= d < c implies #[trigger] other_tones(d, c) by {
            let k = (d / 16 - c / 16 + 12) % 12;
            if !offset_in(6, k) {
                lemma_differs(d, c, k);
            } else if d % 16 == 6 && k == 0 {
                assert(false);
            } else if d % 16 == 1 && k == 9 {
                assert(false);
            } else if template(d % 16).1.len() != 4 {
                lemma_sizes_differ(d, c);
            } else {
                let a = lemma_other_reading_6(d % 16, k);
                lemma_differs(d, c, a);
            }
        }
        lemma_exact_chord_name(pcs, c, res);
    }
}

/// A dominant seventh: root, major third, fifth and minor seventh, over any root, however voiced and with no bass, is named
/// by the reading of those pitch classes that comes first root by root from
/// C, and scores ten for each of its 4 notes.
pub proof fn lemma_dominant_seventh(pcs: Seq<u8>, r: int, res: Option<(Seq<char>, int)>)
    requires
        0 <= r < 12,
        forall|pc: int| 0 <= pc < 12 ==> (sounds(pcs, pc) <==> (pc == r || pc == (r + 4) % 12 || pc == (r + 7) % 12 || pc == (r + 10) % 12)),
        chord_named(pcs, None, res),
    ensures
        res == Some(
            (
                pitch_name_spec((r) as nat) + "7"@,
                40int,
            ),
        ),
{
    if true {
        let c: int = 16 * (r) + 2;
        assert forall|pc: int| 0 <= pc < 12 implies (sounds(pcs, pc) <==> wanted(c / 16, c % 16).contains(pc)) by {
            lemma_wanted_contains(c / 16, 2, pc);
        }
        assert forall|d: int| 0 <= d < c implies #[trigger] other_tones(d, c) by {
            let k = (d / 16 - c / 16 + 12) % 12;
            if !offset_in(2, k) {
                lemma_differs(d, c, k);
            } else if d % 16 == 2 && k == 0 {
                assert(false);
            } else if template(d % 16).1.len() != 4 {
                lemma_sizes_differ(d, c);
            } else {
                let a = lemma_other_reading_2(d % 16, k);
                lemma_differs(d, c, a);
            }
        }
        lemma_exact_chord_name(pcs, c, res);
    }
}

/// A half-diminished seventh: root, minor third, diminished fifth and minor seventh, over any root, however voiced and with no bass, is named
/// by the reading of those pitch classes that comes first root by root from
/// C, and scores ten for each of its 4 notes.
pub proof fn lemma_half_diminished_seventh(pcs: Seq<u8>, r: int, res: Option<(Seq<char>, int)>)
    requires
        0 <= r < 12,
        forall|pc: int| 0 <= pc < 12 ==> (sounds(pcs, pc) <==> (pc == r || pc == (r + 3) % 12 || pc == (r + 6) % 12 || pc == (r + 10) % 12)),
        chord_named(pcs, None, res),
    ensures
        res == Some(
            (
                if r <= 8 {
                    pitch_name_spec((r) as nat) + "min7b5"@
                } else {
                    pitch_name_spec(((r + 3) % 12) as nat) + "min6"@
                },
                40int,
            ),
        ),
{
    if r <= 8 {
        let c: int = 16 * (r) + 3;
        assert forall|pc: int| 0 <= pc < 12 implies (sounds(pcs, pc) <==> wanted(c / 16, c % 16).contains(pc)) by {
            lemma_wanted_contains(c / 16, 3, pc);
        }
        assert forall|d: int| 0 <= d < c implies #[trigger] other_tones(d, c) by {
            let k = (d / 16 - c / 16 + 12) % 12;
            if !offset_in(3, k) {
                lemma_differs(d, c, k);
            } else if d % 16 == 3 && k == 0 {
                assert(false);
            } else if d % 16 == 7 && k == 3 {
                assert(false);
            } else if template(d % 16).1.len() != 4 {
                lemma_sizes_differ(d, c);
            } else {
                let a = lemma_other_reading_3(d % 16, k);
                lemma_differs(d, c, a);
            }
        }
        lemma_exact_chord_name(pcs, c, res);
    } else {
        let c: int = 16 * ((r + 3) % 12) + 7;
        assert forall|pc: int| 0 <= pc < 12 implies (sounds(pcs, pc) <==> wanted(c / 16, c % 16).contains(pc)) by {
            lemma_wanted_contains(c / 16, 7, pc);
        }
        assert forall|d: int| 0 <= d < c implies #[trigger] other_tones(d, c) by {
            let k = (d / 16 - c / 16 + 12) % 12;
            if !offset_in(7, k) {
                lemma_differs(d, c, k);
            } else if d % 16 == 7 && k == 0 {
                assert(false);
            } else if d % 16 == 3 && k == 9 {
                assert(false);
            } else if template(d % 16).1.len() != 4 {
                lemma_sizes_differ(d, c);
            } else {
                let a = lemma_other_reading_7(d % 16, k);
                lemma_differs(d, c, a);
            }
        }
        lemma_exact_chord_name(pcs, c, res);
    }
}

/// A diminished seventh: root, minor third, diminished fifth and diminished seventh, over any root, however voiced and with no bass, is named
/// by the reading of those pitch classes that comes first root by root from
/// C, and scores ten for each of its 4 notes.
pub proof fn lemma_diminished_seventh(pcs: Seq<u8>, r: int, res: Option<(Seq<char>, int)>)
    requires
        0 <= r < 12,
        forall|pc: int| 0 <= pc < 12 ==> (sounds(pcs, pc) <==> (pc == r || pc == (r + 3) % 12 || pc == (r + 6) % 12 || pc == (r + 9) % 12)),
        chord_named(pcs, None, res),
    ensures
        res == Some(
            (
                if r <= 2 {
                    pitch_name_spec((r) as nat) + "dim7"@
                } else if r <= 5 {
                    pitch_name_spec(((r + 9) % 12) as nat) + "dim7"@
                } else if r <= 8 {
                    pitch_name_spec(((r + 6) % 12) as nat) + "dim7"@
                } else {
                    pitch_name_spec(((r + 3) % 12) as nat) + "dim7"@
                },
                40int,
            ),
        ),
{
    if r <= 2 {
        let c: int = 16 * (r) + 4;
        assert forall|pc: int| 0 <= pc < 12 implies (sounds(pcs, pc) <==> wanted(c / 16, c % 16).contains(pc)) by {
            lemma_wanted_contains(c / 16, 4, pc);
        }
        assert forall|d: int| 0 <= d < c implies #[trigger] other_tones(d, c) by {
            let k = (d / 16 - c / 16 + 12) % 12;
            if !offset_in(4, k) {
                lemma_differs(d, c, k);
            } else if d % 16 == 4 && k == 0 {
                assert(false);
            } else if d % 16 == 4 && k == 3 {
                assert(false);
            } else if d % 16 == 4 && k == 6 {
                assert(false);
            } else if d % 16 == 4 && k == 9 {
                assert(false);
            } else if template(d % 16).1.len() != 4 {
                lemma_sizes_differ(d, c);
            } else {
                let a = lemma_other_reading_4(d % 16, k);
                lemma_differs(d, c, a);
            }
        }
        lemma_exact_chord_name(pcs, c, res);
    } else if r <= 5 {
        let c: int = 16 * ((r + 9) % 12) + 4;
        assert forall|pc: int| 0 <= pc < 12 implies (sounds(pcs, pc) <==> wanted(c / 16, c % 16).contains(pc)) by {
            lemma_wanted_contains(c / 16, 4, pc);
        }
        assert forall|d: int| 0 <= d < c implies #[trigger] other_tones(d, c) by {
            let k = (d / 16 - c / 16 + 12) % 12;
            if !offset_in(4, k) {
                lemma_differs(d, c, k);
            } else if d % 16 == 4 && k == 0 {
                assert(false);
            } else if d % 16 == 4 && k == 3 {
                assert(false);
            } else if d % 16 == 4 && k == 6 {
                assert(false);
            } else if d % 16 == 4 && k == 9 {
                assert(false);
            } else if template(d % 16).1.len() != 4 {
                lemma_sizes_differ(d, c);
            } else {
                let a = lemma_other_reading_4(d % 16, k);
                lemma_differs(d, c, a);
            }
        }
        lemma_exact_chord_name(pcs, c, res);
    } else if r <= 8 {
        let c: int = 16 * ((r + 6) % 12) + 4;
        assert forall|pc: int| 0 <= pc < 12 implies (sounds(pcs, pc) <==> wanted(c / 16, c % 16).contains(pc)) by {
            lemma_wanted_contains(c / 16, 4, pc);
        }
        assert forall|d: int| 0 <= d < c implies #[trigger] other_tones(d, c) by {
            let k = (d / 16 - c / 16 + 12) % 12;
            if !offset_in(4, k) {
                lemma_differs(d, c, k);
            } else if d % 16 == 4 && k == 0 {
                assert(false);
            } else if d % 16 == 4 && k == 3 {
                assert(false);
            } else if d % 16 == 4 && k == 6 {
                assert(false);
            } else if d % 16 == 4 && k == 9 {
                assert(false);
            } else if template(d % 16).1.len() != 4 {
                lemma_sizes_differ(d, c);
            } else {
                let a = lemma_other_reading_4(d % 16, k);
                lemma_differs(d, c, a);
            }
        }
        lemma_exact_chord_name(pcs, c, res);
    } else {
        let c: int = 16 * ((r + 3) % 12) + 4;
        assert forall|pc: int| 0 <= pc < 12 implies (sounds(pcs, pc) <==> wanted(c / 16, c % 16).contains(pc)) by {
            lemma_wanted_contains(c / 16, 4, pc);
        }
        assert forall|d: int| 0 <= d < c implies #[trigger] other_tones(d, c) by {
            let k = (d / 16 - c / 16 + 12) % 12;
            if !offset_in(4, k) {
                lemma_differs(d, c, k);
            } else if d % 16 == 4 && k == 0 {
                assert(false);
            } else if d % 16 == 4 && k == 3 {
                assert(false);
            } else if d % 16 == 4 && k == 6 {
                assert(false);
            } else if d % 16 == 4 && k == 9 {
                assert(false);
            } else if template(d % 16).1.len() != 4 {
                lemma_sizes_differ(d, c);
            } else {
                let a = lemma_other_reading_4(d % 16, k);
                lemma_differs(d, c, a);
            }
        }
        lemma_exact_chord_name(pcs, c, res);
    }
}

/// A minor-major seventh: root, minor third, fifth and major seventh, over any root, however voiced and with no bass, is named
/// by the reading of those pitch classes that comes first root by root from
/// C, and scores ten for each of its 4 notes.
pub proof fn lemma_minor_major_seventh(pcs: Seq<u8>, r: int, res: Option<(Seq<char>, int)>)
    requires
        0 <= r < 12,
        forall|pc: int| 0 <= pc < 12 ==> (sounds(pcs, pc) <==> (pc == r || pc == (r + 3) % 12 || pc == (r + 7) % 12 || pc == (r + 11) % 12)),
        chord_named(pcs, None, res),
    ensures
        res == Some(
            (
                pitch_name_spec((r) as nat) + "minmaj7"@,
                40int,
            ),
        ),
{
    if true {
        let c: int = 16 * (r) + 5;
        assert forall|pc: int| 0 <= pc < 12 implies (sounds(pcs, pc) <==> wanted(c / 16, c % 16).contains(pc)) by {
            lemma_wanted_contains(c / 16, 5, pc);
        }
        assert forall|d: int| 0 <= d < c implies #[trigger] other_tones(d, c) by {
            let k = (d / 16 - c / 16 + 12) % 12;
            if !offset_in(5, k) {
                lemma_differs(d, c, k);
            } else if d % 16 == 5 && k == 0 {
                assert(false);
            } else if template(d % 16).1.len() != 4 {
                lemma_sizes_differ(d, c);
            } else {
                let a = lemma_other_reading_5(d % 16, k);
                lemma_differs(d, c, a);
            }
        }
        lemma_exact_chord_name(pcs, c, res);
    }
}

/// A major sixth: root, major third, fifth and major sixth, over any root, however voiced and with no bass, is named
/// by the reading of those pitch classes that comes first root by root from
/// C, and scores ten for each of its 4 notes.
pub proof fn lemma_major_sixth(pcs: Seq<u8>, r: int, res: Option<(Seq<char>, int)>)
    requires
        0 <= r < 12,
        forall|pc: int| 0 <= pc < 12 ==> (sounds(pcs, pc) <==> (pc == r || pc == (r + 4) % 12 || pc == (r + 7) % 12 || pc == (r + 9) % 12)),
        chord_named(pcs, None, res),
    ensures
        res == Some(
            (
                if r <= 2 {
                    pitch_name_spec((r) as nat) + "6"@
                } else {
                    pitch_name_spec(((r + 9) % 12) as nat) + "min7"@
                },
                40int,
            ),
        ),
{
    if r <= 2 {
        let c: int = 16 * (r) + 6;
        assert forall|pc: int| 0 <= pc < 12 implies (sounds(pcs, pc) <==> wanted(c / 16, c % 16).contains(pc)) by {
            lemma_wanted_contains(c / 16, 6, pc);
        }
        assert forall|d: int| 0 <= d < c implies #[trigger] other_tones(d, c) by {
            let k = (d / 16 - c / 16 + 12) % 12;
            if !offset_in(6, k) {
                lemma_differs(d, c, k);
            } else if d % 16 == 6 && k == 0 {
                assert(false);
            } else if d % 16 == 1 && k == 9 {
                assert(false);
            } else if template(d % 16).1.len() != 4 {
                lemma_sizes_differ(d, c);
            } else {
                let a = lemma_other_reading_6(d % 16, k);
                lemma_differs(d, c, a);
            }
        }
        lemma_exact_chord_name(pcs, c, res);
    } else {
        let c: int = 16 * ((r + 9) % 12) + 1;
        assert forall|pc: int| 0 <= pc < 12 implies (sounds(pcs, pc) <==> wanted(c / 16, c % 16).contains(pc)) by {
            lemma_wanted_contains(c / 16, 1, pc);
        }
        assert forall|d: int| 0 <= d < c implies #[trigger] other_tones(d, c) by {
            let k = (d / 16 - c / 16 + 12) % 12;
            if !offset_in(1, k) {
                lemma_differs(d, c, k);
            } else if d % 16 == 1 && k == 0 {
                assert(false);
            } else if d % 16 == 6 && k == 3 {
                assert(false);
            } else if template(d % 16).1.len() != 4 {
                lemma_sizes_differ(d, c);
            } else {
                let a = lemma_other_reading_1(d % 16, k);
                lemma_differs(d, c, a);
            }
        }
        lemma_exact_chord_name(pcs, c, res);
    }
}

/// A minor sixth: root, minor third, fifth and major sixth, over any root, however voiced and with no bass, is named
/// by the reading of those pitch classes that comes first root by root from
/// C, and scores ten for each of its 4 notes.
pub proof fn lemma_minor_sixth(pcs: Seq<u8>, r: int, res: Option<(Seq<char>, int)>)
    requires
        0 <= r < 12,
        forall|pc: int| 0 <= pc < 12 ==> (sounds(pcs, pc) <==> (pc == r || pc == (r + 3) % 12 || pc == (r + 7) % 12 || pc == (r + 9) % 12)),
        chord_named(pcs, None, res),
    ensures
        res == Some(
            (
                if r <= 2 {
                    pitch_name_spec((r) as nat) + "min6"@
                } else {
                    pitch_name_spec(((r + 9) % 12) as nat) + "min7b5"@
                },
                40int,
            ),
        ),
{
    if r <= 2 {
        let c: int = 16 * (r) + 7;
        assert forall|pc: int| 0 <= pc < 12 implies (sounds(pcs, pc) <==> wanted(c / 16, c % 16).contains(pc)) by {
            lemma_wanted_contains(c / 16, 7, pc);
        }
        assert forall|d: int| 0 <= d < c implies #[trigger] other_tones(d, c) by {
            let k = (d / 16 - c / 16 + 12) % 12;
            if !offset_in(7, k) {
                lemma_differs(d, c, k);
            } else if d % 16 == 7 && k == 0 {
                assert(false);
            } else if d % 16 == 3 && k == 9 {
                assert(false);
            } else if template(d % 16).1.len() != 4 {
                lemma_sizes_differ(d, c);
            } else {
                let a = lemma_other_reading_7(d % 16, k);
                lemma_differs(d, c, a);
            }
        }
        lemma_exact_chord_name(pcs, c, res);
    } else {
        let c: int = 16 * ((r + 9) % 12) + 3;
        assert forall|pc: int| 0 <= pc < 12 implies (sounds(pcs, pc) <==> wanted(c / 16, c % 16).contains(pc)) by {
            lemma_wanted_contains(c / 16, 3, pc);
        }
        assert forall|d: int| 0 <= d < c implies #[trigger] other_tones(d, c) by {
            let k = (d / 16 - c / 16 + 12) % 12;
            if !offset_in(3, k) {
                lemma_differs(d, c, k);
            } else if d % 16 == 3 && k == 0 {
                assert(false);
            } else if d % 16 == 7 && k == 3 {
                assert(false);
            } else if template(d % 16).1.len() != 4 {
                lemma_sizes_differ(d, c);
            } else {
                let a = lemma_other_reading_3(d % 16, k);
                lemma_differs(d, c, a);
            }
        }
        lemma_exact_chord_name(pcs, c, res);
    }
}

/// A major triad with an added ninth: root, major second, major third and fifth, over any root, however voiced and with no bass, is named
/// by the reading of those pitch classes that comes first root by root from
/// C, and scores ten for each of its 4 notes.
pub proof fn lemma_added_ninth(pcs: Seq<u8>, r: int, res: Option<(Seq<char>, int)>)
    requires
        0 <= r < 12,
        forall|pc: int| 0 <= pc < 12 ==> (sounds(pcs, pc) <==> (pc == r || pc == (r + 4) % 12 || pc == (r + 7) % 12 || pc == (r + 2) % 12)),
        chord_named(pcs, None, res),
    ensures
        res == Some(
            (
                pitch_name_spec((r) as nat) + "add9"@,
                40int,
            ),
        ),
{
    if true {
        let c: int = 16 * (r) + 8;
        assert forall|pc: int| 0 <= pc < 12 implies (sounds(pcs, pc) <==> wanted(c / 16, c % 16).contains(pc)) by {
            lemma_wanted_contains(c / 16, 8, pc);
        }
        assert forall|d: int| 0 <= d < c implies #[trigger] other_tones(d, c) by {
            let k = (d / 16 - c / 16 + 12) % 12;
            if !offset_in(8, k) {
                lemma_differs(d, c, k);
            } else if d % 16 == 8 && k == 0 {
                assert(false);
            } else if template(d % 16).1.len() != 4 {
                lemma_sizes_differ(d, c);
            } else {
                let a = lemma_other_reading_8(d % 16, k);
                lemma_differs(d, c, a);
            }
        }
        lemma_exact_chord_name(pcs, c, res);
    }
}

/// A major triad: root, major third and fifth, over any root, however voiced and with no bass, is named
/// by the reading of those pitch classes that comes first root by root from
/// C, and scores ten for each of its 3 notes.
pub proof fn lemma_major_triad(pcs: Seq<u8>, r: int, res: Option<(Seq<char>, int)>)
    requires
        0 <= r < 12,
        forall|pc: int| 0 <= pc < 12 ==> (sounds(pcs, pc) <==> (pc == r || pc == (r + 4) % 12 || pc == (r + 7) % 12)),
        chord_named(pcs, None, res),
    ensures
        res == Some(
            (
                pitch_name_spec((r) as nat) + "maj"@,
                30int,
            ),
        ),
{
    if true {
        let c: int = 16 * (r) + 9;
        assert forall|pc: int| 0 <= pc < 12 implies (sounds(pcs, pc) <==> wanted(c / 16, c % 16).contains(pc)) by {
            lemma_wanted_contains(c / 16, 9, pc);
        }
        assert forall|d: int| 0 <= d < c implies #[trigger] other_tones(d, c) by {
            let k = (d / 16 - c / 16 + 12) % 12;
            if !offset_in(9, k) {
                lemma_differs(d, c, k);
            } else if d % 16 == 9 && k == 0 {
                assert(false);
            } else if template(d % 16).1.len() != 3 {
                lemma_sizes_differ(d, c);
            } else {
                let a = lemma_other_reading_9(d % 16, k);
                lemma_differs(d, c, a);
            }
        }
        lemma_exact_chord_name(pcs, c, res);
    }
}

/// A minor triad: root, minor third and fifth, over any root, however voiced and with no bass, is named
/// by the reading of those pitch classes that comes first root by root from
/// C, and scores ten for each of its 3 notes.
pub proof fn lemma_minor_triad(pcs: Seq<u8>, r: int, res: Option<(Seq<char>, int)>)
    requires
        0 <= r < 12,
        forall|pc: int| 0 <= pc < 12 ==> (sounds(pcs, pc) <==> (pc == r || pc == (r + 3) % 12 || pc == (r + 7) % 12)),
        chord_named(pcs, None, res),
    ensures
        res == Some(
            (
                pitch_name_spec((r) as nat) + "min"@,
                30int,
            ),
        ),
{
    if true {
        let c: int = 16 * (r) + 10;
        assert forall|pc: int| 0 <= pc < 12 implies (sounds(pcs, pc) <==> wanted(c / 16, c % 16).contains(pc)) by {
            lemma_wanted_contains(c / 16, 10, pc);
        }
        assert forall|d: int| 0 <= d < c implies #[trigger] other_tones(d, c) by {
            let k = (d / 16 - c / 16 + 12) % 12;
            if !offset_in(10, k) {
                lemma_differs(d, c, k);
            } else if d % 16 == 10 && k == 0 {
                assert(false);
            } else if template(d % 16).1.len() != 3 {
                lemma_sizes_differ(d, c);
            } else {
                let a = lemma_other_reading_10(d % 16, k);
                lemma_differs(d, c, a);
            }
        }
        lemma_exact_chord_name(pcs, c, res);
    }
}

/// A diminished triad: root, minor third and diminished fifth, over any root, however voiced and with no bass, is named
/// by the reading of those pitch classes that comes first root by root from
/// C, and scores ten for each of its 3 notes.
pub proof fn lemma_diminished_triad(pcs: Seq<u8>, r: int, res: Option<(Seq<char>, int)>)
    requires
        0 <= r < 12,
        forall|pc: int| 0 <= pc < 12 ==> (sounds(pcs, pc) <==> (pc == r || pc == (r + 3) % 12 || pc == (r + 6) % 12)),
        chord_named(pcs, None, res),
    ensures
        res == Some(
            (
                pitch_name_spec((r) as nat) + "dim"@,
                30int,
            ),
        ),
{
    if true {
        let c: int = 16 * (r) + 11;
        assert forall|pc: int| 0 <= pc < 12 implies (sounds(pcs, pc) <==> wanted(c / 16, c % 16).contains(pc)) by {
            lemma_wanted_contains(c / 16, 11, pc);
        }
        assert forall|d: int| 0 <= d < c implies #[trigger] other_tones(d, c) by {
            let k = (d / 16 - c / 16 + 12) % 12;
            if !offset_in(11, k) {
                lemma_differs(d, c, k);
            } else if d % 16 == 11 && k == 0 {
                assert(false);
            } else if template(d % 16).1.len() != 3 {
                lemma_sizes_differ(d, c);
            } else {
                let a = lemma_other_reading_11(d % 16, k);
                lemma_differs(d, c, a);
            }
        }
        lemma_exact_chord_name(pcs, c, res);
    }
}

/// An augmented triad: root, major third and augmented fifth, over any root, however voiced and with no bass, is named
/// by the reading of those pitch classes that comes first root by root from
/// C, and scores ten for each of its 3 notes.
pub proof fn lemma_augmented_triad(pcs: Seq<u8>, r: int, res: Option<(Seq<char>, int)>)
    requires
        0 <= r < 12,
        forall|pc: int| 0 <= pc < 12 ==> (sounds(pcs, pc) <==> (pc == r || pc == (r + 4) % 12 || pc == (r + 8) % 12)),
        chord_named(pcs, None, res),
    ensures
        res == Some(
            (
                if r <= 3 {
                    pitch_name_spec((r) as nat) + "aug"@
                } else if r <= 7 {
                    pitch_name_spec(((r + 8) % 12) as nat) + "aug"@
                } else {
                    pitch_name_spec(((r + 4) % 12) as nat) + "aug"@
                },
                30int,
            ),
        ),
{
    if r <= 3 {
        let c: int = 16 * (r) + 12;
        assert forall|pc: int| 0 <= pc < 12 implies (sounds(pcs, pc) <==> wanted(c / 16, c % 16).contains(pc)) by {
            lemma_wanted_contains(c / 16, 12, pc);
        }
        assert forall|d: int| 0 <= d < c implies #[trigger] other_tones(d, c) by {
            let k = (d / 16 - c / 16 + 12) % 12;
            if !offset_in(12, k) {
                lemma_differs(d, c, k);
            } else if d % 16 == 12 && k == 0 {
                assert(false);
            } else if d % 16 == 12 && k == 4 {
                assert(false);
            } else if d % 16 == 12 && k == 8 {
                assert(false);
            } else if template(d % 16).1.len() != 3 {
                lemma_sizes_differ(d, c);
            } else {
                let a = lemma_other_reading_12(d % 16, k);
                lemma_differs(d, c, a);
            }
        }
        lemma_exact_chord_name(pcs, c, res);
    } else if r <= 7 {
        let c: int = 16 * ((r + 8) % 12) + 12;
        assert forall|pc: int| 0 <= pc < 12 implies (sounds(pcs, pc) <==> wanted(c / 16, c % 16).contains(pc)) by {
            lemma_wanted_contains(c / 16, 12, pc);
        }
        assert forall|d: int| 0 <= d < c implies #[trigger] other_tones(d, c) by {
            let k = (d / 16 - c / 16 + 12) % 12;
            if !offset_in(12, k) {
                lemma_differs(d, c, k);
            } else if d % 16 == 12 && k == 0 {
                assert(false);
            } else if d % 16 == 12 && k == 4 {
                assert(false);
            } else if d % 16 == 12 && k == 8 {
                assert(false);
            } else if template(d % 16).1.len() != 3 {
                lemma_sizes_differ(d, c);
            } else {
                let a = lemma_other_reading_12(d % 16, k);
                lemma_differs(d, c, a);
            }
        }
        lemma_exact_chord_name(pcs, c, res);
    } else {
        let c: int = 16 * ((r + 4) % 12) + 12;
        assert forall|pc: int| 0 <= pc < 12 implies (sounds(pcs, pc) <==> wanted(c / 16, c % 16).contains(pc)) by {
            lemma_wanted_contains(c / 16, 12, pc);
        }
        assert forall|d: int| 0 <= d < c implies #[trigger] other_tones(d, c) by {
            let k = (d / 16 - c / 16 + 12) % 12;
            if !offset_in(12, k) {
                lemma_differs(d, c, k);
            } else if d % 16 == 12 && k == 0 {
                assert(false);
            } else if d % 16 == 12 && k == 4 {
                assert(false);
            } else if d % 16 == 12 && k == 8 {
                assert(false);
            } else if template(d % 16).1.len() != 3 {
                lemma_sizes_differ(d, c);
            } else {
                let a = lemma_other_reading_12(d % 16, k);
                lemma_differs(d, c, a);
            }
        }
        lemma_exact_chord_name(pcs, c, res);
    }
}

/// A suspended fourth: root, fourth and fifth, over any root, however voiced and with no bass, is named
/// by the reading of those pitch classes that comes first root by root from
/// C, and scores ten for each of its 3 notes.
pub proof fn lemma_suspended_fourth(pcs: Seq<u8>, r: int, res: Option<(Seq<char>, int)>)
    requires
        0 <= r < 12,
        forall|pc: int| 0 <= pc < 12 ==> (sounds(pcs, pc) <==> (pc == r || pc == (r + 5) % 12 || pc == (r + 7) % 12)),
        chord_named(pcs, None, res),
    ensures
        res == Some(
            (
                if r <= 6 {
                    pitch_name_spec((r) as nat) + "sus4"@
                } else {
                    pitch_name_spec(((r + 5) % 12) as nat) + "sus2"@
                },
                30int,
            ),
        ),
{
    if r <= 6 {
        let c: int = 16 * (r) + 13;
        assert forall|pc: int| 0 <= pc < 12 implies (sounds(pcs, pc) <==> wanted(c / 16, c % 16).contains(pc)) by {
            lemma_wanted_contains(c / 16, 13, pc);
        }
        assert forall|d: int| 0 <= d < c implies #[trigger] other_tones(d, c) by {
            let k = (d / 16 - c / 16 + 12) % 12;
            if !offset_in(13, k) {
                lemma_differs(d, c, k);
            } else if d % 16 == 13 && k == 0 {
                assert(false);
            } else if d % 16 == 14 && k == 5 {
                assert(false);
            } else if template(d % 16).1.len() != 3 {
                lemma_sizes_differ(d, c);
            } else {
                let a = lemma_other_reading_13(d % 16, k);
                lemma_differs(d, c, a);
            }
        }
        lemma_exact_chord_name(pcs, c, res);
    } else {
        let c: int = 16 * ((r + 5) % 12) + 14;
        assert forall|pc: int| 0 <= pc < 12 implies (sounds(pcs, pc) <==> wanted(c / 16, c % 16).contains(pc)) by {
            lemma_wanted_contains(c / 16, 14, pc);
        }
        assert forall|d: int| 0 <= d < c implies #[trigger] other_tones(d, c) by {
            let k = (d / 16 - c / 16 + 12) % 12;
            if !offset_in(14, k) {
                lemma_differs(d, c, k);
            } else if d % 16 == 14 && k == 0 {
                assert(false);
            } else if d % 16 == 13 && k == 7 {
                assert(false);
            } else if template(d % 16).1.len() != 3 {
                lemma_sizes_differ(d, c);
            } else {
                let a = lemma_other_reading_14(d % 16, k);
                lemma_differs(d, c, a);
            }
        }
        lemma_exact_chord_name(pcs, c, res);
    }
}

/// A suspended second: root, major second and fifth, over any root, however voiced and with no bass, is named
/// by the reading of those pitch classes that comes first root by root from
/// C, and scores ten for each of its 3 notes.
pub proof fn lemma_suspended_second(pcs: Seq<u8>, r: int, res: Option<(Seq<char>, int)>)
    requires
        0 <= r < 12,
        forall|pc: int| 0 <= pc < 12 ==> (sounds(pcs, pc) <==> (pc == r || pc == (r + 2) % 12 || pc == (r + 7) % 12)),
        chord_named(pcs, None, res),
    ensures
        res == Some(
            (
                if r <= 4 {
                    pitch_name_spec((r) as nat) + "sus2"@
                } else {
                    pitch_name_spec(((r + 7) % 12) as nat) + "sus4"@
                },
                30int,
            ),
        ),
{
    if r <= 4 {
        let c: int = 16 * (r) + 14;
        assert forall|pc: int| 0 <= pc < 12 implies (sounds(pcs, pc) <==> wanted(c / 16, c % 16).contains(pc)) by {
            lemma_wanted_contains(c / 16, 14, pc);
        }
        assert forall|d: int| 0 <= d < c implies #[trigger] other_tones(d, c) by {
            let k = (d / 16 - c / 16 + 12) % 12;
            if !offset_in(14, k) {
                lemma_differs(d, c, k);
            } else if d % 16 == 14 && k == 0 {
                assert(false);
            } else if d % 16 == 13 && k == 7 {
                assert(false);
            } else if template(d % 16).1.len() != 3 {
                lemma_sizes_differ(d, c);
            } else {
                let a = lemma_other_reading_14(d % 16, k);
                lemma_differs(d, c, a);
            }
        }
        lemma_exact_chord_name(pcs, c, res);
    } else {
        let c: int = 16 * ((r + 7) % 12) + 13;
        assert forall|pc: int| 0 <= pc < 12 implies (sounds(pcs, pc) <==> wanted(c / 16, c % 16).contains(pc)) by {
            lemma_wanted_contains(c / 16, 13, pc);
        }
        assert forall|d: int| 0 <= d < c implies #[trigger] other_tones(d, c) by {
            let k = (d / 16 - c / 16 + 12) % 12;
            if !offset_in(13, k) {
                lemma_differs(d, c, k);
            } else if d % 16 == 13 && k == 0 {
                assert(false);
            } else if d % 16 == 14 && k == 5 {
                assert(false);
            } else if template(d % 16).1.len() != 3 {
                lemma_sizes_differ(d, c);
            } else {
                let a = lemma_other_reading_13(d % 16, k);
                lemma_differs(d, c, a);
            }
        }
        lemma_exact_chord_name(pcs, c, res);
    }
}

/// A power chord: root and fifth, over any root, however voiced and with no bass, is named
/// by the reading of those pitch classes that comes first root by root from
/// C, and scores ten for each of its 2 notes.
pub proof fn lemma_power_chord(pcs: Seq<u8>, r: int, res: Option<(Seq<char>, int)>)
    requires
        0 <= r < 12,
        forall|pc: int| 0 <= pc < 12 ==> (sounds(pcs, pc) <==> (pc == r || pc == (r + 7) % 12)),
        chord_named(pcs, None, res),
    ensures
        res == Some(
            (
                pitch_name_spec((r) as nat) + "5"@,
                20int,
            ),
        ),
{
    if true {
        let c: int = 16 * (r) + 15;
        assert forall|pc: int| 0 <= pc < 12 implies (sounds(pcs, pc) <==> wanted(c / 16, c % 16).contains(pc)) by {
            lemma_wanted_contains(c / 16, 15, pc);
        }
        assert forall|d: int| 0 <= d < c implies #[trigger] other_tones(d, c) by {
            let k = (d / 16 - c / 16 + 12) % 12;
            if !offset_in(15, k) {
                lemma_differs(d, c, k);
            } else if d % 16 == 15 && k == 0 {
                assert(false);
            } else if template(d % 16).1.len() != 2 {
                lemma_sizes_differ(d, c);
            } else {
                let a = lemma_other_reading_15(d % 16, k);
                lemma_differs(d, c, a);
            }
        }
        lemma_exact_chord_name(pcs, c, res);
    }
}



/// Two templates over the same root never give the same pitch classes.
proof fn lemma_same_root_differs(d: int, c: int)
    requires
        0 <= d < 192,
        0 <= c < 192,
        d / 16 == c / 16,
        d % 16 != c % 16,
    ensures
        other_tones(d, c),
{
    if template(d % 16).1.len() != template(c % 16).1.len() {
        lemma_sizes_differ(d, c);
    } else {
        let t = c % 16;
        assert(offset_in(t, 0));
        let a = if t == 0 {
            lemma_other_reading_0(d % 16, 0)
        } else if t == 1 {
            lemma_other_reading_1(d % 16, 0)
        } else if t == 2 {
            lemma_other_reading_2(d % 16, 0)
        } else if t == 3 {
            lemma_other_reading_3(d % 16, 0)
        } else if t == 4 {
            lemma_other_reading_4(d % 16, 0)
        } else if t == 5 {
            lemma_other_reading_5(d % 16, 0)
        } else if t == 6 {
            lemma_other_reading_6(d % 16, 0)
        } else if t == 7 {
            lemma_other_reading_7(d % 16, 0)
        } else if t == 8 {
            lemma_other_reading_8(d % 16, 0)
        } else if t == 9 {
            lemma_other_reading_9(d % 16, 0)
        } else if t == 10 {
            lemma_other_reading_10(d % 16, 0)
        } else if t == 11 {
            lemma_other_reading_11(d % 16, 0)
        } else if t == 12 {
            lemma_other_reading_12(d % 16, 0)
        } else if t == 13 {
            lemma_other_reading_13(d % 16, 0)
        } else if t == 14 {
            lemma_other_reading_14(d % 16, 0)
        } else {
            lemma_other_reading_15(d % 16, 0)
        };
        assert((d / 16 - c / 16 + 12) % 12 == 0);
        assert((a - 0 + 12) % 12 == a);
        lemma_differs(d, c, a);
    }
}

/// A chord played over its own root in the bass is named from that root,
/// with no slash, and the bass adds four tenths to its score: when the
/// sounding pitch classes are exactly the degrees of template `t` over root
/// `r` and the bass plays `r`, the chord is `r`'s name followed by `t`'s
/// label, scored ten for each degree and four more.
pub proof fn lemma_root_in_bass(pcs: Seq<u8>, r: int, t: int, b: u8, res: Option<(Seq<char>, int)>)
    requires
        0 <= r < 12,
        0 <= t < 16,
        b % 12 == r,
        forall|pc: int| 0 <= pc < 12 ==> (sounds(pcs, pc) <==> wanted(r, t).contains(pc)),
        chord_named(pcs, Some(b), res),
    ensures
        res == Some(
            (pitch_name_spec(r as nat) + template(t).0, (10 * template(t).1.len() + 4) as int),
        ),
{
    let c: int = 16 * r + t;
    assert(c / 16 == r && c % 16 == t);
    lemma_exact_score(pcs, c);
    lemma_wanted_distinct(r, t);
    assert(candidate_score(pcs, Some(b), c) == candidate_score(pcs, None, c) + 4);
    match res {
        Some((n, s)) => {
            let x = choose|x: int|
                best_candidate(pcs, Some(b), x) && n == chord_label(Some(b), x) && s == candidate_score(
                    pcs,
                    Some(b),
                    x,
                );
            lemma_fitting_score(pcs, x);
            assert(candidate_score(pcs, Some(b), c) <= candidate_score(pcs, Some(b), x));
            if x / 16 != r {
                assert(candidate_score(pcs, Some(b), x) == candidate_score(pcs, None, x));
                assert(false);
            }
            assert(candidate_score(pcs, Some(b), x) == candidate_score(pcs, None, x) + 4);
            if x != c {
                lemma_same_root_differs(x, c);
                let pc = choose|pc: int| 0 <= pc < 12 && #[trigger] differs_at(x, c, pc);
                assert(sounds(pcs, pc) <==> wanted(c / 16, c % 16).contains(pc));
                assert(false);
            }
            assert(chord_label(Some(b), c) =~= pitch_name_spec(r as nat) + template(t).0);
        },
        None => {
            assert(candidate_fits(pcs, c));
        },
    }
}

} // verus!
