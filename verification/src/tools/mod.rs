//! The tool surface, grouped by the part of Live each set drives.
use vstd::prelude::*;

use crate::json::Json;
use crate::json::JsonV;
use crate::mcp::registry::{
    arg_outlines, chosen, outlines, plain, tool_outline, ArgOutline, ArgTy, ToolDef, ToolOutline,
};
use crate::text::{chars_eq, chars_of, str_eq, trim_chars, trim_seq};

pub mod analysis;
pub mod commands;
pub mod arrangement;
pub mod browser;
pub mod clip;
pub mod device;
pub mod meta;
pub mod note;
pub mod scene;
pub mod song;
pub mod track;

verus! {

broadcast use vstd::std_specs::vec::group_vec_axioms;

/// Argument shapes shared across domains, so "which track" means exactly the
/// same thing on a mixer call as on a device call.
impl ToolDef {
    /// `track_index` plus the list it indexes into.
    pub fn track_ref(self) -> (r: Self)
        ensures
            r.name == self.name,
            r.command == self.command,
            r.description@ == self.description@,
            r.group == self.group,
            r.fixed == self.fixed,
            r.read_only == self.read_only,
            r.destructive == self.destructive,
            r.args@.len() == self.args@.len() + 2,
            arg_outlines(r.args@) == arg_outlines(self.args@) + track_ref_args(),
    {
        let r = self.integer("track_index", "0-based track index.").opt_text(
            "track_type",
            "Which list `track_index` indexes into. Ignored for \"master\".",
        ).choices(&["regular", "return", "master"]).default(Json::text("regular"));
        assert(arg_outlines(r.args@) =~~= arg_outlines(self.args@) + track_ref_args());
        r
    }

    /// A track reference plus a clip slot / arrangement position.
    pub fn clip_ref(self) -> (r: Self)
        ensures
            r.name == self.name,
            r.command == self.command,
            r.description@ == self.description@,
            r.group == self.group,
            r.fixed == self.fixed,
            r.read_only == self.read_only,
            r.destructive == self.destructive,
            r.args@.len() == self.args@.len() + 4,
            arg_outlines(r.args@) == arg_outlines(self.args@) + clip_ref_args(),
    {
        let r = self.track_ref().integer(
            "clip_index",
            "In the Session view, the clip slot index. In the Arrangement, \
             the clip's position in the track's timeline (as listed by \
             `get_arrangement_clips`).",
        ).opt_text("view", "Which view the clip lives in.").choices(
            &["session", "arrangement"],
        ).default(Json::text("session"));
        assert(arg_outlines(r.args@) =~~= arg_outlines(self.args@) + clip_ref_args());
        r
    }

    /// A track reference plus a device, including devices nested in racks.
    pub fn device_ref(self) -> (r: Self)
        ensures
            r.name == self.name,
            r.command == self.command,
            r.description@ == self.description@,
            r.group == self.group,
            r.fixed == self.fixed,
            r.read_only == self.read_only,
            r.destructive == self.destructive,
            r.args@.len() == self.args@.len() + 4,
            arg_outlines(r.args@) == arg_outlines(self.args@) + device_ref_args(),
    {
        let r = self.track_ref().integer("device_index", "0-based index into the track's device chain.").opt_text(
            "chain_path",
            "Reach a device nested inside a rack, as dot-separated \
             chain/device indices relative to `device_index`. For example \
             \"0.2\" is the third device of the rack's first chain, and \
             \"0.2.1.0\" descends one rack further.",
        );
        assert(arg_outlines(r.args@) =~~= arg_outlines(self.args@) + device_ref_args());
        r
    }
}

/// The arguments [`ToolDef::track_ref`] adds.
pub open spec fn track_ref_args() -> Seq<ArgOutline> {
    seq![
        plain("track_index"@, "0-based track index."@, ArgTy::Int, true),
        chosen(
            "track_type"@,
            "Which list `track_index` indexes into. Ignored for \"master\"."@,
            seq!["regular"@, "return"@, "master"@],
            Some(JsonV::Str("regular"@)),
        ),
    ]
}

/// The arguments [`ToolDef::clip_ref`] adds.
pub open spec fn clip_ref_args() -> Seq<ArgOutline> {
    track_ref_args() + seq![
        plain(
            "clip_index"@,
            "In the Session view, the clip slot index. In the Arrangement, \
             the clip's position in the track's timeline (as listed by \
             `get_arrangement_clips`)."@,
            ArgTy::Int,
            true,
        ),
        chosen(
            "view"@,
            "Which view the clip lives in."@,
            seq!["session"@, "arrangement"@],
            Some(JsonV::Str("session"@)),
        ),
    ]
}

/// The arguments [`ToolDef::device_ref`] adds.
pub open spec fn device_ref_args() -> Seq<ArgOutline> {
    track_ref_args() + seq![
        plain("device_index"@, "0-based index into the track's device chain."@, ArgTy::Int, true),
        plain(
            "chain_path"@,
            "Reach a device nested inside a rack, as dot-separated \
             chain/device indices relative to `device_index`. For example \
             \"0.2\" is the third device of the rack's first chain, and \
             \"0.2.1.0\" descends one rack further."@,
            ArgTy::Str,
            false,
        ),
    ]
}

/// Put every tool of `defs` in `group`, appending them to `out`.
fn tagged(out: &mut Vec<ToolDef>, group: &'static str, defs: Vec<ToolDef>)
    requires
        declared_group(group@),
        forall|i: int| 0 <= i < old(out)@.len() ==> declared_group(#[trigger] old(out)@[i].group@),
    ensures
        final(out)@.len() == old(out)@.len() + defs@.len(),
        final(out)@.take(old(out)@.len() as int) == old(out)@,
        forall|i: int| 0 <= i < final(out)@.len() ==> declared_group(#[trigger] final(out)@[i].group@),
        forall|i: int|
            0 <= i < defs@.len() ==> {
                let d = #[trigger] final(out)@[old(out)@.len() + i];
                &&& d.group == group
                &&& d.name == defs@[i].name
                &&& d.command == defs@[i].command
                &&& d.args == defs@[i].args
            },
        grouped(final(out)@) == grouped(old(out)@) + in_group(group@, outlines(defs@)),
{
    let ghost start = out@;
    let mut defs = defs;
    let ghost all = defs@;
    let count = defs.len();
    let mut taken: usize = 0;
    assert(all.skip(0) =~= all);
    while defs.len() > 0
        invariant
            taken + defs@.len() == all.len(),
            all.len() == count,
            declared_group(group@),
            defs@ == all.skip(taken as int),
            out@.len() == start.len() + taken,
            out@.take(start.len() as int) == start,
            forall|i: int| 0 <= i < out@.len() ==> declared_group(#[trigger] out@[i].group@),
            forall|i: int|
                0 <= i < taken ==> {
                    let d = #[trigger] out@[start.len() + i];
                    &&& d.group == group
                    &&& d.name == all[i].name
                    &&& d.command == all[i].command
                    &&& d.args == all[i].args
                },
            grouped(out@) == grouped(start) + in_group(group@, outlines(all.take(taken as int))),
        decreases defs.len(),
    {
        let mut d = defs.remove(0);
        assert(defs@ =~= all.skip(taken + 1));
        let ghost before = out@;
        let ghost was = d;
        d.group = group;
        out.push(d);
        assert(out@.take(start.len() as int) =~= start);
        proof {
            assert(all[taken as int] == was);
            assert(tool_outline(d) == tool_outline(was));
            assert(grouped(out@) =~= grouped(before).push((group@, tool_outline(d))));
            assert(in_group(group@, outlines(all.take(taken + 1))) =~= in_group(
                group@,
                outlines(all.take(taken as int)),
            ).push((group@, tool_outline(was))));
            assert(grouped(out@) =~= grouped(start) + in_group(group@, outlines(all.take(taken + 1))));
        }
        taken += 1;
    }
    assert(all.take(all.len() as int) =~= all);
}

/// Each tool's group, with what it looks like to a client.
pub open spec fn grouped(ts: Seq<ToolDef>) -> Seq<(Seq<char>, ToolOutline)> {
    Seq::new(ts.len(), |i: int| (ts[i].group@, tool_outline(ts[i])))
}

/// The tools `t`, each in the group `g`.
pub open spec fn in_group(g: Seq<char>, t: Seq<ToolOutline>) -> Seq<(Seq<char>, ToolOutline)> {
    Seq::new(t.len(), |i: int| (g, t[i]))
}

/// Every tool crableton knows how to serve, with its group, in order.
pub open spec fn catalogue() -> Seq<(Seq<char>, ToolOutline)> {
    in_group("meta"@, meta::table()) + in_group("song"@, song::table()) + in_group(
        "scene"@,
        scene::table(),
    ) + in_group("track"@, track::table()) + in_group("clip"@, clip::table()) + in_group(
        "note"@,
        note::table(),
    ) + in_group("device"@, device::table()) + in_group("browser"@, browser::table())
        + in_group("arrangement"@, arrangement::table()) + in_group(
        "analysis"@,
        analysis::table(),
    )
}

/// The catalogue holds 85 tools.
pub proof fn lemma_catalogue_size()
    ensures
        catalogue().len() == 85,
{
}

/// Whether the selection `spec` keeps the tools of group `g`.
pub open spec fn keeps_group(spec: Option<Seq<char>>, g: Seq<char>) -> bool {
    selects_all(spec) || g == "meta"@ || names_group(spec->0, g)
}

/// The part of the catalogue that `spec` keeps.
pub open spec fn catalogue_kept(spec: Option<Seq<char>>) -> Seq<(Seq<char>, ToolOutline)> {
    catalogue().filter(|e: (Seq<char>, ToolOutline)| keeps_group(spec, e.0))
}

/// Selecting tools: a selection that names nothing in particular (absent,
/// blank or `all`) lists every tool of the catalogue, in order; one that
/// names groups lists, in catalogue order, exactly the tools of `meta` and of
/// the groups it names.
pub proof fn lemma_selection(spec: Option<Seq<char>>)
    ensures
        selects_all(spec) ==> catalogue_kept(spec) == catalogue(),
        !selects_all(spec) ==> catalogue_kept(spec) == catalogue().filter(
            |e: (Seq<char>, ToolOutline)| e.0 == "meta"@ || wanted_names(spec->0).contains(e.0),
        ),
{
    let p = |e: (Seq<char>, ToolOutline)| keeps_group(spec, e.0);
    if selects_all(spec) {
        lemma_filter_keeps_all(catalogue(), p);
    } else {
        let q = |e: (Seq<char>, ToolOutline)| e.0 == "meta"@ || wanted_names(spec->0).contains(e.0);
        assert(p =~= q);
    }
}

proof fn lemma_filter_keeps_all<A>(s: Seq<A>, p: spec_fn(A) -> bool)
    requires
        forall|a: A| #[trigger] p(a),
    ensures
        s.filter(p) == s,
    decreases s.len(),
{
    reveal_with_fuel(Seq::filter, 1);
    if s.len() > 0 {
        lemma_filter_keeps_all(s.drop_last(), p);
        assert(s.drop_last().push(s.last()) =~= s);
    }
}

proof fn lemma_grouped_filter(s: Seq<ToolDef>, spec: Option<Seq<char>>)
    ensures
        grouped(s.filter(|d: ToolDef| kept(spec, d))) == grouped(s).filter(
            |e: (Seq<char>, ToolOutline)| keeps_group(spec, e.0),
        ),
    decreases s.len(),
{
    reveal_with_fuel(Seq::filter, 1);
    let p = |d: ToolDef| kept(spec, d);
    let q = |e: (Seq<char>, ToolOutline)| keeps_group(spec, e.0);
    if s.len() == 0 {
        assert(grouped(s.filter(p)) =~= grouped(s).filter(q));
    } else {
        lemma_grouped_filter(s.drop_last(), spec);
        assert(grouped(s).drop_last() =~= grouped(s.drop_last()));
        assert(grouped(s).last() == (s.last().group@, tool_outline(s.last())));
        if p(s.last()) {
            assert(grouped(s.drop_last().filter(p).push(s.last())) =~= grouped(
                s.drop_last().filter(p),
            ).push(grouped(s).last()));
        }
    }
}

/// The names of the groups, in the order the catalogue lists them.
pub open spec fn group_names() -> Seq<Seq<char>> {
    seq![
        "meta"@,
        "song"@,
        "scene"@,
        "track"@,
        "clip"@,
        "note"@,
        "device"@,
        "browser"@,
        "arrangement"@,
        "analysis"@,
    ]
}

/// `g` is one of the declared groups.
pub open spec fn declared_group(g: Seq<char>) -> bool {
    group_names().contains(g)
}

/// The groups that can be switched off via `CRABLETON_TOOLSETS`.
pub fn groups() -> (r: Vec<&'static str>)
    ensures
        r@.len() == group_names().len(),
        forall|i: int| 0 <= i < r@.len() ==> (#[trigger] r@[i])@ == group_names()[i],
{
    let r = vec![
        "meta",
        "song",
        "scene",
        "track",
        "clip",
        "note",
        "device",
        "browser",
        "arrangement",
        "analysis",
    ];
    proof {
        reveal_strlit("meta");
        reveal_strlit("song");
        reveal_strlit("scene");
        reveal_strlit("track");
        reveal_strlit("clip");
        reveal_strlit("note");
        reveal_strlit("device");
        reveal_strlit("browser");
        reveal_strlit("arrangement");
        reveal_strlit("analysis");
    }
    r
}

/// Every tool crableton knows how to serve, each tagged with a declared
/// group.
pub fn all() -> (r: Vec<ToolDef>)
    ensures
        forall|i: int| 0 <= i < r@.len() ==> declared_group(#[trigger] r@[i].group@),
        grouped(r@) == catalogue(),
{
    let mut out: Vec<ToolDef> = Vec::new();
    assert(grouped(out@) =~= Seq::empty());
    proof {
        let gs = group_names();
        assert(gs[0] == "meta"@);
        assert(gs[1] == "song"@);
        assert(gs[2] == "scene"@);
        assert(gs[3] == "track"@);
        assert(gs[4] == "clip"@);
        assert(gs[5] == "note"@);
        assert(gs[6] == "device"@);
        assert(gs[7] == "browser"@);
        assert(gs[8] == "arrangement"@);
        assert(gs[9] == "analysis"@);
    }
    tagged(&mut out, "meta", meta::tools());
    assert(grouped(out@) =~= in_group("meta"@, meta::table()));
    tagged(&mut out, "song", song::tools());
    tagged(&mut out, "scene", scene::tools());
    tagged(&mut out, "track", track::tools());
    tagged(&mut out, "clip", clip::tools());
    tagged(&mut out, "note", note::tools());
    tagged(&mut out, "device", device::tools());
    tagged(&mut out, "browser", browser::tools());
    tagged(&mut out, "arrangement", arrangement::tools());
    tagged(&mut out, "analysis", analysis::tools());
    assert(grouped(out@) =~= catalogue());
    out
}

/// The pieces of `s` between commas, scanning from the left with `cur` as
/// the piece read so far.
pub open spec fn split_from(s: Seq<char>, cur: Seq<char>) -> Seq<Seq<char>>
    decreases s.len(),
{
    if s.len() == 0 {
        seq![cur]
    } else if s[0] == ',' {
        seq![cur] + split_from(s.drop_first(), Seq::empty())
    } else {
        split_from(s.drop_first(), cur.push(s[0]))
    }
}

/// `s.split(',')`.
pub open spec fn comma_pieces(s: Seq<char>) -> Seq<Seq<char>> {
    split_from(s, Seq::empty())
}

/// The spec selects every tool: absent, blank after trimming, or `all`.
pub open spec fn selects_all(spec: Option<Seq<char>>) -> bool {
    match spec {
        None => true,
        Some(s) => trim_seq(s).len() == 0 || trim_seq(s) == "all"@,
    }
}

/// The comma-separated, trimmed, non-empty names of `s`.
pub open spec fn wanted_names(s: Seq<char>) -> Seq<Seq<char>> {
    comma_pieces(trim_seq(s)).map_values(|p: Seq<char>| trim_seq(p)).filter(
        |p: Seq<char>| p.len() > 0,
    )
}

/// `group` is one of the comma-separated, trimmed, non-empty names of `s`.
pub open spec fn names_group(s: Seq<char>, group: Seq<char>) -> bool {
    wanted_names(s).contains(group)
}

/// The contents of each vector.
pub open spec fn views(w: Seq<Vec<char>>) -> Seq<Seq<char>> {
    w.map_values(|v: Vec<char>| v@)
}

/// The tool `d` survives the selection `spec`.
pub open spec fn kept(spec: Option<Seq<char>>, d: ToolDef) -> bool {
    selects_all(spec) || d.group@ == "meta"@ || names_group(spec->0, d.group@)
}

fn comma_split(s: &Vec<char>) -> (r: Vec<Vec<char>>)
    ensures
        r@.len() == comma_pieces(s@).len(),
        forall|i: int| 0 <= i < r@.len() ==> (#[trigger] r@[i])@ == comma_pieces(s@)[i],
{
    let mut done: Vec<Vec<char>> = Vec::new();
    let mut cur: Vec<char> = Vec::new();
    let mut i: usize = 0;
    assert(s@.skip(0) =~= s@);
    assert(cur@ =~= Seq::<char>::empty());
    while i < s.len()
        invariant
            i <= s@.len(),
            done@.len() + split_from(s@.skip(i as int), cur@).len() == comma_pieces(s@).len(),
            forall|k: int| 0 <= k < done@.len() ==> (#[trigger] done@[k])@ == comma_pieces(s@)[k],
            forall|k: int|
                0 <= k < split_from(s@.skip(i as int), cur@).len() ==> comma_pieces(s@)[done@.len()
                    + k] == #[trigger] split_from(s@.skip(i as int), cur@)[k],
        decreases s.len() - i,
    {
        let ghost rest = s@.skip(i as int);
        let ghost old_done = done@;
        let ghost old_cur = cur@;
        assert(rest.drop_first() =~= s@.skip(i + 1));
        assert(rest[0] == s@[i as int]);
        if s[i] == ',' {
            let piece = cur;
            cur = Vec::new();
            let ghost tail = split_from(rest.drop_first(), Seq::empty());
            assert(split_from(rest, old_cur) == seq![old_cur] + tail);
            assert(cur@ =~= Seq::<char>::empty());
            done.push(piece);
            assert forall|k: int| 0 <= k < done@.len() implies (#[trigger] done@[k])@ == comma_pieces(s@)[k] by {
                if k == old_done.len() {
                    assert((seq![old_cur] + tail)[0] == old_cur);
                }
            }
            assert forall|k: int| 0 <= k < tail.len() implies comma_pieces(s@)[done@.len() + k] == #[trigger] tail[k] by {
                assert((seq![old_cur] + tail)[k + 1] == tail[k]);
            }
        } else {
            cur.push(s[i]);
            assert(split_from(rest, old_cur) == split_from(rest.drop_first(), old_cur.push(s@[i as int])));
        }
        i += 1;
    }
    proof {
        assert(s@.skip(i as int) =~= Seq::<char>::empty());
        assert(split_from(s@.skip(i as int), cur@) == seq![cur@]);
    }
    let ghost old_done = done@;
    let ghost last = cur@;
    done.push(cur);
    assert forall|k: int| 0 <= k < done@.len() implies (#[trigger] done@[k])@ == comma_pieces(s@)[k] by {
        if k == old_done.len() {
            assert(seq![last][0] == last);
        }
    }
    done
}

/// The non-empty trimmed comma-separated names in `s`, or `None` when `s`
/// selects every group.
fn wanted_groups(s: &str) -> (r: Option<Vec<Vec<char>>>)
    ensures
        r is None <==> selects_all(Some(s@)),
        r matches Some(w) ==> views(w@) == wanted_names(s@),
{
    let t = trim_chars(&chars_of(s));
    if t.len() == 0 || str_eq(crate::text::string_from(&t).as_str(), "all") {
        return None;
    }
    let pieces = comma_split(&t);
    let ghost ps = comma_pieces(trim_seq(s@));
    let ghost nonempty = |p: Seq<char>| p.len() > 0;
    let mut w: Vec<Vec<char>> = Vec::new();
    let mut k: usize = 0;
    while k < pieces.len()
        invariant
            k <= pieces@.len(),
            ps == comma_pieces(t@),
            pieces@.len() == ps.len(),
            forall|i: int| 0 <= i < pieces@.len() ==> (#[trigger] pieces@[i])@ == ps[i],
            nonempty == (|p: Seq<char>| p.len() > 0),
            views(w@) == ps.take(k as int).map_values(|p: Seq<char>| trim_seq(p)).filter(nonempty),
        decreases pieces.len() - k,
    {
        let p = trim_chars(&pieces[k]);
        proof {
            let m = ps.take(k + 1).map_values(|p: Seq<char>| trim_seq(p));
            assert(m =~= ps.take(k as int).map_values(|p: Seq<char>| trim_seq(p)).push(trim_seq(ps[k as int])));
            assert(m.drop_last() =~= ps.take(k as int).map_values(|p: Seq<char>| trim_seq(p)));
            reveal_with_fuel(Seq::filter, 1);
        }
        if p.len() > 0 {
            w.push(p);
            assert(views(w@) =~= ps.take(k + 1).map_values(|p: Seq<char>| trim_seq(p)).filter(nonempty));
        } else {
            assert(views(w@) =~= ps.take(k + 1).map_values(|p: Seq<char>| trim_seq(p)).filter(nonempty));
        }
        k += 1;
    }
    assert(ps.take(ps.len() as int) =~= ps);
    Some(w)
}

/// Filter `defs` down to the groups named by `spec`. `meta` is always
/// kept: without it a client cannot check which Remote Script it is
/// talking to.
pub fn select(defs: Vec<ToolDef>, spec: Option<&str>) -> (r: Vec<ToolDef>)
    ensures
        r@ == defs@.filter(|d: ToolDef| kept(spec_of(spec), d)),
{
    let ghost sv = spec_of(spec);
    let ghost pred = |d: ToolDef| kept(sv, d);
    let wanted: Option<Vec<Vec<char>>> = match spec {
        None => None,
        Some(s) => wanted_groups(s),
    };
    let mut defs = defs;
    let ghost all = defs@;
    let count = defs.len();
    assert(all.skip(0) =~= all);
    let mut out: Vec<ToolDef> = Vec::new();
    let mut taken: usize = 0;
    while defs.len() > 0
        invariant
            taken + defs@.len() == all.len(),
            all.len() == count,
            defs@ == all.skip(taken as int),
            out@ == all.take(taken as int).filter(pred),
            wanted is None <==> selects_all(sv),
            wanted matches Some(w) ==> views(w@) == wanted_names(sv->0),
            pred == (|d: ToolDef| kept(sv, d)),
        decreases defs.len(),
    {
        let d = defs.remove(0);
        proof {
            assert(defs@ =~= all.skip(taken + 1));
            assert(all.take(taken + 1).drop_last() =~= all.take(taken as int));
            reveal_with_fuel(Seq::filter, 1);
        }
        let keep = match &wanted {
            None => true,
            Some(w) => str_eq(d.group, "meta") || listed_group(w, d.group),
        };
        assert(keep == pred(d));
        if keep {
            out.push(d);
        }
        taken += 1;
    }
    assert(all.take(all.len() as int) =~= all);
    out
}

/// The view of an optional string.
pub open spec fn spec_of(spec: Option<&str>) -> Option<Seq<char>> {
    match spec {
        Some(s) => Some(s@),
        None => None,
    }
}

fn listed_group(wanted: &Vec<Vec<char>>, group: &str) -> (r: bool)
    ensures
        r == views(wanted@).contains(group@),
{
    let g = chars_of(group);
    let mut i: usize = 0;
    while i < wanted.len()
        invariant
            i <= wanted@.len(),
            g@ == group@,
            forall|j: int| 0 <= j < i ==> views(wanted@)[j] != group@,
        decreases wanted.len() - i,
    {
        if chars_eq(&wanted[i], &g) {
            assert(views(wanted@)[i as int] == group@);
            return true;
        }
        i += 1;
    }
    false
}

/// [`all`], filtered by [`select`].
pub fn selected(spec: Option<&str>) -> (r: Vec<ToolDef>)
    ensures
        forall|i: int|
            0 <= i < r@.len() ==> declared_group(#[trigger] r@[i].group@) && kept(spec_of(spec), r@[i]),
        grouped(r@) == catalogue_kept(spec_of(spec)),
{
    let every = all();
    let ghost e = every@;
    let r = select(every, spec);
    proof {
        lemma_grouped_filter(e, spec_of(spec));
        let pred = |d: ToolDef| kept(spec_of(spec), d);
        assert forall|i: int| 0 <= i < r@.len() implies declared_group(#[trigger] r@[i].group@) && kept(spec_of(spec), r@[i]) by {
            e.lemma_filter_pred(pred, i);
            e.lemma_filter_contains_rev(pred, r@[i]);
        }
    }
    r
}

/// However the selection reads, a `meta` tool survives it: without it a
/// client cannot check which Remote Script it is talking to.
pub proof fn lemma_select_keeps_meta(defs: Seq<ToolDef>, spec: Option<Seq<char>>, i: int)
    requires
        0 <= i < defs.len(),
        defs[i].group@ == "meta"@,
    ensures
        defs.filter(|d: ToolDef| kept(spec, d)).contains(defs[i]),
{
    defs.lemma_filter_contains(|d: ToolDef| kept(spec, d), i);
}

/// A selection that names nothing in particular (absent, blank or `all`)
/// keeps every tool, in order.
pub proof fn lemma_select_all_keeps_everything(defs: Seq<ToolDef>, spec: Option<Seq<char>>)
    requires
        selects_all(spec),
    ensures
        defs.filter(|d: ToolDef| kept(spec, d)) == defs,
    decreases defs.len(),
{
    reveal_with_fuel(Seq::filter, 1);
    if defs.len() > 0 {
        lemma_select_all_keeps_everything(defs.drop_last(), spec);
        assert(defs.drop_last().push(defs.last()) =~= defs);
    }
}

/// A selection that names groups keeps only tools of those groups (and
/// `meta`), each of which was offered.
pub proof fn lemma_select_only_named(defs: Seq<ToolDef>, spec: Option<Seq<char>>, d: ToolDef)
    requires
        !selects_all(spec),
        defs.filter(|t: ToolDef| kept(spec, t)).contains(d),
    ensures
        defs.contains(d),
        d.group@ == "meta"@ || names_group(spec->0, d.group@),
{
    let kept_by = |t: ToolDef| kept(spec, t);
    defs.lemma_filter_contains_rev(kept_by, d);
    let f = defs.filter(kept_by);
    let j = choose|j: int| 0 <= j < f.len() && f[j] == d;
    defs.lemma_filter_pred(kept_by, j);
}

}
