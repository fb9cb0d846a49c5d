use vstd::prelude::*;
use vstd::string::StringExecFns;

verus! {

// The display palette: twelve ANSI SGR codes, assigned to workers in
// configuration order and reused in turn.

/// The SGR code that the palette holds at position `i` (for `0 <= i < 12`).
pub open spec fn spec_color(i: int) -> Seq<char> {
    if i == 0 {
        "0;31"@
    } else if i == 1 {
        "0;32"@
    } else if i == 2 {
        "0;33"@
    } else if i == 3 {
        "0;34"@
    } else if i == 4 {
        "0;35"@
    } else if i == 5 {
        "0;36"@
    } else if i == 6 {
        "1;31"@
    } else if i == 7 {
        "1;32"@
    } else if i == 8 {
        "1;33"@
    } else if i == 9 {
        "1;34"@
    } else if i == 10 {
        "1;35"@
    } else {
        "1;36"@
    }
}

/// The palette entry for a worker, chosen deterministically by its position
/// in the configured worker sequence.
pub fn color_for(worker_index: usize) -> (c: &'static str)
    ensures
        c@ == spec_color((worker_index % 12) as int),
{
    let i = worker_index % 12;
    if i == 0 {
        "0;31"
    } else if i == 1 {
        "0;32"
    } else if i == 2 {
        "0;33"
    } else if i == 3 {
        "0;34"
    } else if i == 4 {
        "0;35"
    } else if i == 5 {
        "0;36"
    } else if i == 6 {
        "1;31"
    } else if i == 7 {
        "1;32"
    } else if i == 8 {
        "1;33"
    } else if i == 9 {
        "1;34"
    } else if i == 10 {
        "1;35"
    } else {
        "1;36"
    }
}

/// What `colorize` builds: the escape that turns `color` on, then the text,
/// then the escape that resets all attributes.
pub open spec fn spec_colorize(text: Seq<char>, color: Seq<char>) -> Seq<char> {
    "\u{1b}["@ + color + "m"@ + text + "\u{1b}[0m"@
}

/// Wraps `text` in the ANSI escape sequence that selects `color`, with a
/// reset escape after it.
pub fn colorize(text: &str, color: &str) -> (r: String)
    ensures
        r@ == spec_colorize(text@, color@),
{
    let r = String::from_str("\u{1b}[");
    let r = r.concat(color);
    let r = r.concat("m");
    let r = r.concat(text);
    let r = r.concat("\u{1b}[0m");
    proof {
        assert(r@ =~= spec_colorize(text@, color@));
    }
    r
}

} // verus!
