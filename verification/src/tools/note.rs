use vstd::prelude::*;

use crate::mcp::registry::{ArgOutline, ArgTy, ToolDef, ToolOutline, arg_outlines, outlines, plain, tool};
use super::clip_ref_args;

verus! {

/// The arguments [`note_window`] adds.
pub open spec fn note_window_args() -> Seq<ArgOutline> {
    seq![
        plain("from_time"@, "Start of the time window, in beats from the clip origin."@, ArgTy::Num, false),
        plain("time_span"@, "Length of the time window in beats. Omit for the whole clip."@, ArgTy::Num, false),
        plain("from_pitch"@, "Lowest MIDI note number in the window, 0 to 127."@, ArgTy::Int, false),
        plain("pitch_span"@, "How many semitones the window covers. Omit for all pitches."@, ArgTy::Int, false),
    ]
}

/// The four optional window arguments shared by the note read and clear tools.
fn note_window(def: ToolDef) -> (r: ToolDef)
    ensures
        r.name == def.name,
        r.command == def.command,
        r.description@ == def.description@,
        r.group == def.group,
        r.fixed == def.fixed,
        r.read_only == def.read_only,
        r.destructive == def.destructive,
        arg_outlines(r.args@) == arg_outlines(def.args@) + note_window_args(),
{
    let r = def.opt_num("from_time", "Start of the time window, in beats from the clip origin.")
        .opt_num("time_span", "Length of the time window in beats. Omit for the whole clip.")
        .opt_int("from_pitch", "Lowest MIDI note number in the window, 0 to 127.")
        .opt_int("pitch_span", "How many semitones the window covers. Omit for all pitches.");
    assert(arg_outlines(r.args@) =~~= arg_outlines(def.args@) + note_window_args());
    r
}

/// The tools of this group, as they are defined.
pub open spec fn table() -> Seq<ToolOutline> {
    seq![
        tool(
            "get_clip_notes"@,
            "get_clip_notes"@,
            "Read the MIDI notes of a clip: pitch, start time, duration, velocity and mute, \
                 plus per-note probability, velocity deviation and release velocity where Live \
                 supports them. Optionally restrict to a window of time and pitch, useful for \
                 reading one bar or one drum lane out of a busy clip."@,
            true,
            false,
            clip_ref_args() + note_window_args(),
        ),
        tool(
            "add_notes_to_clip"@,
            "add_notes_to_clip"@,
            "Add MIDI notes to a clip. This appends: existing notes are left alone, so calling \
             it twice with the same notes produces duplicates. Use `replace_clip_notes` to \
             rewrite a clip."@,
            false,
            false,
            clip_ref_args() + seq![
                plain(
                    "notes"@,
                    "Notes to add."@,
                    ArgTy::Notes,
                    true,
                ),
            ],
        ),
        tool(
            "replace_clip_notes"@,
            "replace_clip_notes"@,
            "Replace a clip's notes with a new set, in one atomic step. This is the tool to use \
             for editing: read with `get_clip_notes`, change the list, write it back. Doing it \
             as clear-then-add instead leaves the clip briefly empty and costs an extra round \
             trip."@,
            false,
            true,
            clip_ref_args() + seq![
                plain(
                    "notes"@,
                    "The complete new contents of the clip. An empty list clears it."@,
                    ArgTy::Notes,
                    true,
                ),
            ],
        ),
        tool(
            "clear_notes_from_clip"@,
            "clear_notes_from_clip"@,
            "Delete notes from a clip. With no window arguments it clears the whole clip; with \
                 them it deletes only the notes inside that range of time and pitch."@,
            false,
            true,
            clip_ref_args() + note_window_args(),
        ),
    ]
}

pub fn tools() -> (r: Vec<ToolDef>)
    ensures
        outlines(r@) == table(),
{
    let r = vec![
        note_window(
            ToolDef::new(
                "get_clip_notes",
                "get_clip_notes",
                "Read the MIDI notes of a clip: pitch, start time, duration, velocity and mute, \
                 plus per-note probability, velocity deviation and release velocity where Live \
                 supports them. Optionally restrict to a window of time and pitch, useful for \
                 reading one bar or one drum lane out of a busy clip.",
            )
            .read_only()
            .clip_ref(),
        ),

        ToolDef::new(
            "add_notes_to_clip",
            "add_notes_to_clip",
            "Add MIDI notes to a clip. This appends: existing notes are left alone, so calling \
             it twice with the same notes produces duplicates. Use `replace_clip_notes` to \
             rewrite a clip.",
        )
        .clip_ref()
        .notes("notes", "Notes to add."),

        ToolDef::new(
            "replace_clip_notes",
            "replace_clip_notes",
            "Replace a clip's notes with a new set, in one atomic step. This is the tool to use \
             for editing: read with `get_clip_notes`, change the list, write it back. Doing it \
             as clear-then-add instead leaves the clip briefly empty and costs an extra round \
             trip.",
        )
        .destructive()
        .clip_ref()
        .notes("notes", "The complete new contents of the clip. An empty list clears it."),

        note_window(
            ToolDef::new(
                "clear_notes_from_clip",
                "clear_notes_from_clip",
                "Delete notes from a clip. With no window arguments it clears the whole clip; with \
                 them it deletes only the notes inside that range of time and pitch.",
            )
            .destructive()
            .clip_ref(),
        ),
    ];
    assert(outlines(r@) =~~= table());
    r
}

}
