use vstd::prelude::*;

use crate::json::{Json, JsonV};
use crate::mcp::registry::{ArgTy, ToolDef, ToolOutline, chosen, defaulted, outlines, plain, tool};
use super::track_ref_args;

verus! {

/// The tools of this group, as they are defined.
pub open spec fn table() -> Seq<ToolOutline> {
    seq![
        tool(
            "get_tracks"@,
            "get_tracks"@,
            "List every track (regular, return and master) with its index, name, colour, \
             type, mixer state and arm/mute/solo flags."@,
            true,
            false,
            seq![
                defaulted(
                    "include_devices"@,
                    "Include each track's device chain."@,
                    ArgTy::Bool,
                    JsonV::Bool(true),
                ),
                defaulted(
                    "include_clips"@,
                    "Include a summary of each track's Session clips."@,
                    ArgTy::Bool,
                    JsonV::Bool(false),
                ),
            ],
        ),
        tool(
            "get_track_info"@,
            "get_track_info"@,
            "Everything about one track: mixer values, routing, devices, Session clip slots and \
             Arrangement clips."@,
            true,
            false,
            track_ref_args(),
        ),
        tool(
            "create_midi_track"@,
            "create_midi_track"@,
            "Add a MIDI track, for instruments and MIDI clips."@,
            false,
            false,
            seq![
                defaulted(
                    "index"@,
                    "Where to insert it. -1 appends to the end."@,
                    ArgTy::Int,
                    JsonV::Int(-1i64),
                ),
            ],
        ),
        tool(
            "create_audio_track"@,
            "create_audio_track"@,
            "Add an audio track, for samples, stems and recorded audio."@,
            false,
            false,
            seq![
                defaulted(
                    "index"@,
                    "Where to insert it. -1 appends to the end."@,
                    ArgTy::Int,
                    JsonV::Int(-1i64),
                ),
            ],
        ),
        tool(
            "create_return_track"@,
            "create_return_track"@,
            "Add a return track, for send effects like reverb and delay shared across tracks."@,
            false,
            false,
            Seq::empty(),
        ),
        tool(
            "delete_track"@,
            "delete_track"@,
            "Delete a track and everything on it. The master track cannot be deleted."@,
            false,
            true,
            track_ref_args(),
        ),
        tool(
            "duplicate_track"@,
            "duplicate_track"@,
            "Duplicate a track with its devices and clips, inserting the copy to its right."@,
            false,
            false,
            track_ref_args(),
        ),
        tool(
            "set_track_name"@,
            "set_track_name"@,
            "Rename a track."@,
            false,
            false,
            track_ref_args() + seq![
                plain(
                    "name"@,
                    "New track name."@,
                    ArgTy::Str,
                    true,
                ),
            ],
        ),
        tool(
            "set_track_mixer"@,
            "set_track_mixer"@,
            "Change any combination of a track's mixer and state controls in one call. Omit \
             anything you do not want to touch."@,
            false,
            false,
            track_ref_args() + seq![
                plain(
                    "volume"@,
                    "Fader position from 0.0 to 1.0, not decibels. 0.85 is unity (0 dB), 1.0 is +6 dB."@,
                    ArgTy::Num,
                    false,
                ),
                plain(
                    "panning"@,
                    "-1.0 hard left, 0.0 centre, 1.0 hard right."@,
                    ArgTy::Num,
                    false,
                ),
                plain(
                    "mute"@,
                    "Mute the track."@,
                    ArgTy::Bool,
                    false,
                ),
                plain(
                    "solo"@,
                    "Solo the track."@,
                    ArgTy::Bool,
                    false,
                ),
                plain(
                    "arm"@,
                    "Arm the track for recording. Return and master tracks cannot be armed."@,
                    ArgTy::Bool,
                    false,
                ),
                plain(
                    "color"@,
                    "Colour as 0xRRGGBB, e.g. 65280 for green."@,
                    ArgTy::Int,
                    false,
                ),
                plain(
                    "folded"@,
                    "For a group track, whether it is collapsed."@,
                    ArgTy::Bool,
                    false,
                ),
                chosen(
                    "crossfade_assign"@,
                    "Crossfader assignment."@,
                    seq!["a"@, "none"@, "b"@],
                    None,
                ),
                chosen(
                    "monitoring_state"@,
                    "Input monitoring mode."@,
                    seq!["in"@, "auto"@, "off"@],
                    None,
                ),
            ],
        ),
        tool(
            "set_track_send"@,
            "set_track_send"@,
            "Set how much of a track is sent to a return track."@,
            false,
            false,
            track_ref_args() + seq![
                plain(
                    "send_index"@,
                    "0-based index of the return track: 0 is Send A, 1 is Send B."@,
                    ArgTy::Int,
                    true,
                ),
                plain(
                    "value"@,
                    "Send amount from 0.0 (off) to 1.0."@,
                    ArgTy::Num,
                    true,
                ),
            ],
        ),
        tool(
            "get_track_routing"@,
            "get_track_routing"@,
            "Read a track's input and output routing, together with every routing type and \
             channel Live will accept for it. Call this before `set_track_routing`. The valid \
             names depend on the set's tracks and the machine's audio and MIDI hardware."@,
            true,
            false,
            track_ref_args(),
        ),
        tool(
            "set_track_routing"@,
            "set_track_routing"@,
            "Point a track's input or output somewhere else: feeding a track into another \
             track, picking a hardware input, or choosing a MIDI channel. Names must match \
             those reported by `get_track_routing` exactly."@,
            false,
            false,
            track_ref_args() + seq![
                plain(
                    "input_type"@,
                    "Input source, e.g. \"Ext. In\", \"Resampling\", or a track name."@,
                    ArgTy::Str,
                    false,
                ),
                plain(
                    "input_channel"@,
                    "Channel within the input source, e.g. \"1/2\" or \"Ch. 1\"."@,
                    ArgTy::Str,
                    false,
                ),
                plain(
                    "output_type"@,
                    "Output destination, e.g. \"Master\", \"Ext. Out\", or a track name."@,
                    ArgTy::Str,
                    false,
                ),
                plain(
                    "output_channel"@,
                    "Channel within the output destination."@,
                    ArgTy::Str,
                    false,
                ),
            ],
        ),
    ]
}

pub fn tools() -> (r: Vec<ToolDef>)
    ensures
        outlines(r@) == table(),
{
    let r = vec![
        ToolDef::new(
            "get_tracks",
            "get_tracks",
            "List every track (regular, return and master) with its index, name, colour, \
             type, mixer state and arm/mute/solo flags.",
        )
        .read_only()
        .opt_bool("include_devices", "Include each track's device chain.")
        .default(Json::Bool(true))
        .opt_bool("include_clips", "Include a summary of each track's Session clips.")
        .default(Json::Bool(false)),

        ToolDef::new(
            "get_track_info",
            "get_track_info",
            "Everything about one track: mixer values, routing, devices, Session clip slots and \
             Arrangement clips.",
        )
        .read_only()
        .track_ref(),

        ToolDef::new(
            "create_midi_track",
            "create_midi_track",
            "Add a MIDI track, for instruments and MIDI clips.",
        )
        .opt_int("index", "Where to insert it. -1 appends to the end.")
        .default(Json::Int(-1)),

        ToolDef::new(
            "create_audio_track",
            "create_audio_track",
            "Add an audio track, for samples, stems and recorded audio.",
        )
        .opt_int("index", "Where to insert it. -1 appends to the end.")
        .default(Json::Int(-1)),

        ToolDef::new(
            "create_return_track",
            "create_return_track",
            "Add a return track, for send effects like reverb and delay shared across tracks.",
        ),

        ToolDef::new(
            "delete_track",
            "delete_track",
            "Delete a track and everything on it. The master track cannot be deleted.",
        )
        .destructive()
        .track_ref(),

        ToolDef::new(
            "duplicate_track",
            "duplicate_track",
            "Duplicate a track with its devices and clips, inserting the copy to its right.",
        )
        .track_ref(),

        ToolDef::new("set_track_name", "set_track_name", "Rename a track.")
            .track_ref()
            .text("name", "New track name."),

        ToolDef::new(
            "set_track_mixer",
            "set_track_mixer",
            "Change any combination of a track's mixer and state controls in one call. Omit \
             anything you do not want to touch.",
        )
        .track_ref()
        .opt_num(
            "volume",
            "Fader position from 0.0 to 1.0, not decibels. 0.85 is unity (0 dB), 1.0 is +6 dB.",
        )
        .opt_num("panning", "-1.0 hard left, 0.0 centre, 1.0 hard right.")
        .opt_bool("mute", "Mute the track.")
        .opt_bool("solo", "Solo the track.")
        .opt_bool("arm", "Arm the track for recording. Return and master tracks cannot be armed.")
        .opt_int("color", "Colour as 0xRRGGBB, e.g. 65280 for green.")
        .opt_bool("folded", "For a group track, whether it is collapsed.")
        .opt_text("crossfade_assign", "Crossfader assignment.")
        .choices(&["a", "none", "b"])
        .opt_text("monitoring_state", "Input monitoring mode.")
        .choices(&["in", "auto", "off"]),

        ToolDef::new(
            "set_track_send",
            "set_track_send",
            "Set how much of a track is sent to a return track.",
        )
        .track_ref()
        .integer("send_index", "0-based index of the return track: 0 is Send A, 1 is Send B.")
        .num("value", "Send amount from 0.0 (off) to 1.0."),

        ToolDef::new(
            "get_track_routing",
            "get_track_routing",
            "Read a track's input and output routing, together with every routing type and \
             channel Live will accept for it. Call this before `set_track_routing`. The valid \
             names depend on the set's tracks and the machine's audio and MIDI hardware.",
        )
        .read_only()
        .track_ref(),

        ToolDef::new(
            "set_track_routing",
            "set_track_routing",
            "Point a track's input or output somewhere else: feeding a track into another \
             track, picking a hardware input, or choosing a MIDI channel. Names must match \
             those reported by `get_track_routing` exactly.",
        )
        .track_ref()
        .opt_text("input_type", "Input source, e.g. \"Ext. In\", \"Resampling\", or a track name.")
        .opt_text("input_channel", "Channel within the input source, e.g. \"1/2\" or \"Ch. 1\".")
        .opt_text("output_type", "Output destination, e.g. \"Master\", \"Ext. Out\", or a track name.")
        .opt_text("output_channel", "Channel within the output destination."),
    ];
    assert(outlines(r@) =~~= table());
    r
}

}
