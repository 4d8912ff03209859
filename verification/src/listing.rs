//! What the command line prints about the tools and about an install.
use vstd::prelude::*;

use crate::mcp::registry::ToolDef;
use crate::text::{append_chars, append_str, chars_of, str_eq, string_from};

verus! {

broadcast use vstd::std_specs::vec::group_vec_axioms;

/// The version of the Remote Script this binary installs.
pub const REMOTE_SCRIPT_VERSION: &'static str = "2.0.0";

/// How a listing marks a tool: blank for read-only, `*` for one that
/// modifies the set, `!` for one that can discard work.
pub fn marker(read_only: bool, destructive: bool) -> (r: &'static str)
    ensures
        r@ == (if read_only {
            " "@
        } else if destructive {
            "!"@
        } else {
            "*"@
        }),
{
    if read_only {
        " "
    } else if destructive {
        "!"
    } else {
        "*"
    }
}

/// The first sentence of a description: everything before its first `.`
/// or line break.
pub open spec fn first_sentence(d: Seq<char>) -> Seq<char>
    decreases d.len(),
{
    if d.len() == 0 || d[0] == '.' || d[0] == '\n' {
        Seq::empty()
    } else {
        seq![d[0]] + first_sentence(d.drop_first())
    }
}

pub fn summary(description: &str) -> (r: String)
    ensures
        r@ == first_sentence(description@),
{
    let d = chars_of(description);
    let mut i: usize = 0;
    while i < d.len() && d[i] != '.' && d[i] != '\n'
        invariant
            i <= d@.len(),
            forall|k: int| 0 <= k < i ==> d@[k] != '.' && d@[k] != '\n',
        decreases d.len() - i,
    {
        i += 1;
    }
    let mut out: Vec<char> = Vec::new();
    let mut k: usize = 0;
    assert(d@.skip(0) =~= d@);
    assert(out@ + first_sentence(d@) =~= first_sentence(d@));
    while k < i
        invariant
            k <= i <= d@.len(),
            forall|j: int| 0 <= j < i ==> d@[j] != '.' && d@[j] != '\n',
            out@ + first_sentence(d@.skip(k as int)) == first_sentence(d@),
        decreases i - k,
    {
        assert(d@.skip(k as int).drop_first() =~= d@.skip(k + 1));
        assert(d@.skip(k as int)[0] == d@[k as int]);
        out.push(d[k]);
        assert(out@ + first_sentence(d@.skip(k + 1)) =~= first_sentence(d@)) by {
            assert(first_sentence(d@.skip(k as int)) == seq![d@[k as int]] + first_sentence(d@.skip(k + 1)));
        }
        k += 1;
    }
    proof {
        assert(d@.skip(0) =~= d@);
        if i < d@.len() {
            assert(d@.skip(i as int)[0] == d@[i as int]);
        }
        assert(first_sentence(d@.skip(i as int)) =~= Seq::<char>::empty());
        assert(out@ =~= out@ + Seq::<char>::empty());
    }
    string_from(&out)
}

/// `s` padded with spaces to `width` characters, as `{:<width}` does.
pub open spec fn padded(s: Seq<char>, width: nat) -> Seq<char> {
    if s.len() >= width {
        s
    } else {
        s + Seq::new((width - s.len()) as nat, |i: int| ' ')
    }
}

/// One line of the tool listing: marker, name padded to 32 columns, and the
/// first sentence of the description.
pub fn tool_line(tool: &ToolDef) -> (r: String)
    ensures
        r@ == "  "@ + marker_of(tool.read_only, tool.destructive) + " "@ + padded(tool.name@, 32) + " "@
            + first_sentence(tool.description@) + "."@,
{
    let mut v: Vec<char> = Vec::new();
    append_str(&mut v, "  ");
    append_str(&mut v, marker(tool.read_only, tool.destructive));
    append_str(&mut v, " ");
    let name = chars_of(tool.name);
    append_chars(&mut v, &name);
    let ghost before = v@;
    let mut n = name.len();
    while n < 32
        invariant
            name@.len() <= n <= 32 || (n == name@.len() && n >= 32),
            v@ == before + Seq::new((n - name@.len()) as nat, |i: int| ' '),
        decreases 32 - n,
    {
        v.push(' ');
        assert(v@ =~= before + Seq::new((n + 1 - name@.len()) as nat, |i: int| ' '));
        n += 1;
    }
    proof {
        if name@.len() >= 32 {
            assert(v@ =~= before);
        }
    }
    append_str(&mut v, " ");
    let s = summary(tool.description.as_str());
    append_str(&mut v, s.as_str());
    append_str(&mut v, ".");
    assert(v@ =~= "  "@ + marker_of(tool.read_only, tool.destructive) + " "@ + padded(tool.name@, 32) + " "@
        + first_sentence(tool.description@) + "."@);
    string_from(&v)
}

/// The marker of a tool, as text.
pub open spec fn marker_of(read_only: bool, destructive: bool) -> Seq<char> {
    if read_only {
        " "@
    } else if destructive {
        "!"@
    } else {
        "*"@
    }
}

/// The first line `crableton install` prints, given the version of the
/// script it replaced, if any.
pub fn install_report(replaced: &Option<String>) -> (r: String)
    ensures
        r@ == (match replaced {
            Some(old) => if old@ == REMOTE_SCRIPT_VERSION@ {
                "Remote Script already at "@ + old@ + "; rewrote it anyway."@
            } else {
                "Updated the Remote Script from "@ + old@ + " to "@ + REMOTE_SCRIPT_VERSION@ + "."@
            },
            None => "Installed Remote Script "@ + REMOTE_SCRIPT_VERSION@ + "."@,
        }),
{
    let mut v: Vec<char> = Vec::new();
    match replaced {
        Some(old) => {
            if str_eq(old.as_str(), REMOTE_SCRIPT_VERSION) {
                append_str(&mut v, "Remote Script already at ");
                append_str(&mut v, old.as_str());
                append_str(&mut v, "; rewrote it anyway.");
            } else {
                append_str(&mut v, "Updated the Remote Script from ");
                append_str(&mut v, old.as_str());
                append_str(&mut v, " to ");
                append_str(&mut v, REMOTE_SCRIPT_VERSION);
                append_str(&mut v, ".");
            }
        },
        None => {
            append_str(&mut v, "Installed Remote Script ");
            append_str(&mut v, REMOTE_SCRIPT_VERSION);
            append_str(&mut v, ".");
        },
    }
    string_from(&v)
}

} // verus!
