//! Which Remote Script command each tool forwards to.
use vstd::prelude::*;

use super::{
    analysis, arrangement, browser, catalogue, clip, device, grouped, in_group, meta, note, scene, song,
    track,
};
use crate::mcp::registry::{ToolDef, ToolOutline};

verus! {

/// The tools that do not forward to the command of their own name: the
/// references and the analyses, answered here, and three whose Live-side
/// handler is named otherwise.
pub open spec fn renamed_command(name: Seq<char>, command: Seq<char>) -> bool {
    ||| (name == "get_remote_script_info"@ && command == "get_script_info"@)
    ||| (name == "lom_reference"@ && command == "__local_lom"@)
    ||| (name == "device_reference"@ && command == "__local_device_reference"@)
    ||| (name == "set_song_time"@ && command == "set_current_song_time"@)
    ||| (name == "load_device"@ && command == "load_browser_item"@)
    ||| (name == "analyze_harmony"@ && command == "__local_analyze_harmony"@)
    ||| (name == "analyze_arrangement"@ && command == "__local_analyze_arrangement"@)
    ||| (name == "analyze_mix"@ && command == "__local_analyze_mix"@)
}

/// The tool forwards to the command of its own name, or is one of the
/// renamed ones with its command.
pub open spec fn forwards(t: ToolOutline) -> bool {
    t.command == t.name || renamed_command(t.name, t.command)
}

proof fn lemma_meta_commands()
    ensures
        forall|i: int| 0 <= i < meta::table().len() ==> forwards(#[trigger] meta::table()[i]),
{
    let t = meta::table();
    assert(t.len() == 5);
    assert forall|i: int| 0 <= i < t.len() implies forwards(#[trigger] t[i]) by {
        if i == 0 {
        } else if i == 1 {
        } else if i == 2 {
        } else if i == 3 {
        } else if i == 4 {
        }
    }
}

proof fn lemma_song_commands()
    ensures
        forall|i: int| 0 <= i < song::table().len() ==> forwards(#[trigger] song::table()[i]),
{
    let t = song::table();
    assert(t.len() == 18);
    assert forall|i: int| 0 <= i < t.len() implies forwards(#[trigger] t[i]) by {
        if i == 0 {
        } else if i == 1 {
        } else if i == 2 {
        } else if i == 3 {
        } else if i == 4 {
        } else if i == 5 {
        } else if i == 6 {
        } else if i == 7 {
        } else if i == 8 {
        } else if i == 9 {
        } else if i == 10 {
        } else if i == 11 {
        } else if i == 12 {
        } else if i == 13 {
        } else if i == 14 {
        } else if i == 15 {
        } else if i == 16 {
        } else if i == 17 {
        }
    }
}

proof fn lemma_scene_commands()
    ensures
        forall|i: int| 0 <= i < scene::table().len() ==> forwards(#[trigger] scene::table()[i]),
{
    let t = scene::table();
    assert(t.len() == 7);
    assert forall|i: int| 0 <= i < t.len() implies forwards(#[trigger] t[i]) by {
        if i == 0 {
        } else if i == 1 {
        } else if i == 2 {
        } else if i == 3 {
        } else if i == 4 {
        } else if i == 5 {
        } else if i == 6 {
        }
    }
}

proof fn lemma_track_commands()
    ensures
        forall|i: int| 0 <= i < track::table().len() ==> forwards(#[trigger] track::table()[i]),
{
    let t = track::table();
    assert(t.len() == 12);
    assert forall|i: int| 0 <= i < t.len() implies forwards(#[trigger] t[i]) by {
        if i == 0 {
        } else if i == 1 {
        } else if i == 2 {
        } else if i == 3 {
        } else if i == 4 {
        } else if i == 5 {
        } else if i == 6 {
        } else if i == 7 {
        } else if i == 8 {
        } else if i == 9 {
        } else if i == 10 {
        } else if i == 11 {
        }
    }
}

proof fn lemma_clip_commands()
    ensures
        forall|i: int| 0 <= i < clip::table().len() ==> forwards(#[trigger] clip::table()[i]),
{
    let t = clip::table();
    assert(t.len() == 14);
    assert forall|i: int| 0 <= i < t.len() implies forwards(#[trigger] t[i]) by {
        if i == 0 {
        } else if i == 1 {
        } else if i == 2 {
        } else if i == 3 {
        } else if i == 4 {
        } else if i == 5 {
        } else if i == 6 {
        } else if i == 7 {
        } else if i == 8 {
        } else if i == 9 {
        } else if i == 10 {
        } else if i == 11 {
        } else if i == 12 {
        } else if i == 13 {
        }
    }
}

proof fn lemma_note_commands()
    ensures
        forall|i: int| 0 <= i < note::table().len() ==> forwards(#[trigger] note::table()[i]),
{
    let t = note::table();
    assert(t.len() == 4);
    assert forall|i: int| 0 <= i < t.len() implies forwards(#[trigger] t[i]) by {
        if i == 0 {
        } else if i == 1 {
        } else if i == 2 {
        } else if i == 3 {
        }
    }
}

proof fn lemma_device_commands()
    ensures
        forall|i: int| 0 <= i < device::table().len() ==> forwards(#[trigger] device::table()[i]),
{
    let t = device::table();
    assert(t.len() == 8);
    assert forall|i: int| 0 <= i < t.len() implies forwards(#[trigger] t[i]) by {
        if i == 0 {
        } else if i == 1 {
        } else if i == 2 {
        } else if i == 3 {
        } else if i == 4 {
        } else if i == 5 {
        } else if i == 6 {
        } else if i == 7 {
        }
    }
}

proof fn lemma_browser_commands()
    ensures
        forall|i: int| 0 <= i < browser::table().len() ==> forwards(#[trigger] browser::table()[i]),
{
    let t = browser::table();
    assert(t.len() == 5);
    assert forall|i: int| 0 <= i < t.len() implies forwards(#[trigger] t[i]) by {
        if i == 0 {
        } else if i == 1 {
        } else if i == 2 {
        } else if i == 3 {
        } else if i == 4 {
        }
    }
}

proof fn lemma_arrangement_commands()
    ensures
        forall|i: int| 0 <= i < arrangement::table().len() ==> forwards(#[trigger] arrangement::table()[i]),
{
    let t = arrangement::table();
    assert(t.len() == 9);
    assert forall|i: int| 0 <= i < t.len() implies forwards(#[trigger] t[i]) by {
        if i == 0 {
        } else if i == 1 {
        } else if i == 2 {
        } else if i == 3 {
        } else if i == 4 {
        } else if i == 5 {
        } else if i == 6 {
        } else if i == 7 {
        } else if i == 8 {
        }
    }
}

proof fn lemma_analysis_commands()
    ensures
        forall|i: int| 0 <= i < analysis::table().len() ==> forwards(#[trigger] analysis::table()[i]),
{
    let t = analysis::table();
    assert(t.len() == 3);
    assert forall|i: int| 0 <= i < t.len() implies forwards(#[trigger] t[i]) by {
        if i == 0 {
        } else if i == 1 {
        } else if i == 2 {
        }
    }
}

/// Every entry of `s` forwards as its name says.
spec fn all_forward(s: Seq<(Seq<char>, ToolOutline)>) -> bool {
    forall|i: int| 0 <= i < s.len() ==> forwards(#[trigger] s[i].1)
}

proof fn lemma_group_forwards(g: Seq<char>, t: Seq<ToolOutline>)
    requires
        forall|i: int| 0 <= i < t.len() ==> forwards(#[trigger] t[i]),
    ensures
        all_forward(in_group(g, t)),
{
    assert forall|i: int| 0 <= i < in_group(g, t).len() implies forwards(
        #[trigger] in_group(g, t)[i].1,
    ) by {
        assert(in_group(g, t)[i].1 == t[i]);
    }
}

proof fn lemma_join_forwards(a: Seq<(Seq<char>, ToolOutline)>, b: Seq<(Seq<char>, ToolOutline)>)
    requires
        all_forward(a),
        all_forward(b),
    ensures
        all_forward(a + b),
{
    assert forall|i: int| 0 <= i < (a + b).len() implies forwards(#[trigger] (a + b)[i].1) by {
        if i < a.len() {
            assert((a + b)[i] == a[i]);
        } else {
            assert((a + b)[i] == b[i - a.len()]);
        }
    }
}

/// Each tool forwards to the Remote Script command of its own name
/// (`continue_playback` to `continue_playback`), but for the references and
/// analyses answered here and three tools whose Live-side handler is named
/// otherwise, which forward to theirs.
pub proof fn lemma_commands_follow_names(tools: Seq<ToolDef>)
    requires
        grouped(tools) == catalogue(),
    ensures
        forall|i: int|
            0 <= i < tools.len() ==> (#[trigger] tools[i]).command@ == tools[i].name@ || renamed_command(
                tools[i].name@,
                tools[i].command@,
            ),
{
    lemma_meta_commands();
    lemma_song_commands();
    lemma_scene_commands();
    lemma_track_commands();
    lemma_clip_commands();
    lemma_note_commands();
    lemma_device_commands();
    lemma_browser_commands();
    lemma_arrangement_commands();
    lemma_analysis_commands();
    let a0 = in_group("meta"@, meta::table());
    let a1 = in_group("song"@, song::table());
    let a2 = in_group("scene"@, scene::table());
    let a3 = in_group("track"@, track::table());
    let a4 = in_group("clip"@, clip::table());
    let a5 = in_group("note"@, note::table());
    let a6 = in_group("device"@, device::table());
    let a7 = in_group("browser"@, browser::table());
    let a8 = in_group("arrangement"@, arrangement::table());
    let a9 = in_group("analysis"@, analysis::table());
    lemma_group_forwards("meta"@, meta::table());
    lemma_group_forwards("song"@, song::table());
    lemma_group_forwards("scene"@, scene::table());
    lemma_group_forwards("track"@, track::table());
    lemma_group_forwards("clip"@, clip::table());
    lemma_group_forwards("note"@, note::table());
    lemma_group_forwards("device"@, device::table());
    lemma_group_forwards("browser"@, browser::table());
    lemma_group_forwards("arrangement"@, arrangement::table());
    lemma_group_forwards("analysis"@, analysis::table());
    lemma_join_forwards(a0, a1);
    lemma_join_forwards(a0 + a1, a2);
    lemma_join_forwards(a0 + a1 + a2, a3);
    lemma_join_forwards(a0 + a1 + a2 + a3, a4);
    lemma_join_forwards(a0 + a1 + a2 + a3 + a4, a5);
    lemma_join_forwards(a0 + a1 + a2 + a3 + a4 + a5, a6);
    lemma_join_forwards(a0 + a1 + a2 + a3 + a4 + a5 + a6, a7);
    lemma_join_forwards(a0 + a1 + a2 + a3 + a4 + a5 + a6 + a7, a8);
    lemma_join_forwards(a0 + a1 + a2 + a3 + a4 + a5 + a6 + a7 + a8, a9);
    let c = catalogue();
    assert(all_forward(c));
    assert forall|i: int|
        0 <= i < tools.len() implies (#[trigger] tools[i]).command@ == tools[i].name@ || renamed_command(
        tools[i].name@,
        tools[i].command@,
    ) by {
        assert(grouped(tools)[i] == c[i]);
        assert(forwards(c[i].1));
    }
}

} // verus!
