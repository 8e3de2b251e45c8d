//! The front end's decisions: which mode an invocation asks for, and what a
//! listing of the registry says.

use vstd::prelude::*;
use vstd::string::StringExecFns;
use crate::names::Platform;
use crate::proxy::{proxy_views, Proxy, ProxyView};
use crate::text::{same_text, string_views};

verus! {

/// The first argument that asks for the list of available targets.
pub const LIST_FLAG: &'static str = "--list";

/// The heading above a listing.
pub const LISTING_HEADER: &'static str = "Available proxies:";

/// What the user is told when no record answers to the requested name.
pub const NO_SUCH_PROXY: &'static str =
    "No such proxy found, try --list for a list of available options";

/// What the user is told when no argument names a target.
pub const NO_COMMAND: &'static str =
    "No proxy command found, try --list for a list of available options";

/// What an invocation asks for.
#[derive(Debug)]
pub enum Mode {
    /// No argument was given: usage guidance is due.
    Usage,
    /// The targets are to be listed.
    List,
    /// The target `name` is to be run with the arguments `forwarded`.
    Invoke { name: String, forwarded: Vec<String> },
}

/// A [`Mode`] as plain sequences of characters.
pub enum ModeView {
    Usage,
    List,
    Invoke { name: Seq<char>, forwarded: Seq<Seq<char>> },
}

impl View for Mode {
    type V = ModeView;

    open spec fn view(&self) -> ModeView {
        match self {
            Mode::Usage => ModeView::Usage,
            Mode::List => ModeView::List,
            Mode::Invoke { name, forwarded } => ModeView::Invoke {
                name: name@,
                forwarded: string_views(forwarded@),
            },
        }
    }
}

/// The mode that an argument vector selects. The vector begins with the
/// invoking program's own name; the argument after it selects the mode, and
/// in invoke mode only what follows the requested name is forwarded.
pub open spec fn mode_of(args: Seq<Seq<char>>) -> ModeView {
    if args.len() < 2 {
        ModeView::Usage
    } else if args[1] == LIST_FLAG@ {
        ModeView::List
    } else {
        ModeView::Invoke { name: args[1], forwarded: args.skip(2) }
    }
}

/// Reads the mode off the argument vector of the process.
pub fn mode(args: &Vec<String>) -> (chosen: Mode)
    ensures
        chosen@ == mode_of(string_views(args@)),
{
    if args.len() < 2 {
        return Mode::Usage;
    }
    if same_text(args[1].as_str(), LIST_FLAG) {
        return Mode::List;
    }
    let mut forwarded: Vec<String> = Vec::new();
    let mut i: usize = 2;
    while i < args.len()
        invariant
            2 <= i <= args.len(),
            forwarded@.len() == i - 2,
            forall|k: int| 0 <= k < i - 2 ==> forwarded@[k]@ == args@[k + 2]@,
        decreases args.len() - i,
    {
        forwarded.push(args[i].clone());
        i += 1;
    }
    assert(string_views(forwarded@) =~= string_views(args@).skip(2));
    Mode::Invoke { name: args[1].clone(), forwarded }
}

/// The line of a listing that stands for one record: the target name, then
/// the path in brackets.
pub open spec fn listing_line_of(record: ProxyView, platform: Platform) -> Seq<char> {
    "  * "@ + record.target_name(platform) + " ("@ + record.path + ")"@
}

/// The lines of a listing: one per record, in the registry's order.
pub open spec fn listing_of(registry: Seq<ProxyView>, platform: Platform) -> Seq<Seq<char>> {
    registry.map_values(|record: ProxyView| listing_line_of(record, platform))
}

/// Writes the listing line of one record.
pub fn listing_line(proxy: &Proxy, platform: Platform) -> (line: String)
    ensures
        line@ == listing_line_of(proxy@, platform),
{
    let mut line = "  * ".to_owned();
    line.append(proxy.target_name(platform));
    line.append(" (");
    line.append(proxy.path());
    line.append(")");
    line
}

/// Writes the listing of the registry: one line per record, in order.
pub fn listing(registry: &Vec<Proxy>, platform: Platform) -> (lines: Vec<String>)
    ensures
        string_views(lines@) == listing_of(proxy_views(registry@), platform),
{
    let mut lines: Vec<String> = Vec::new();
    let mut i: usize = 0;
    while i < registry.len()
        invariant
            i <= registry.len(),
            lines@.len() == i,
            forall|k: int| 0 <= k < i ==> lines@[k]@ == listing_line_of(registry@[k]@, platform),
        decreases registry.len() - i,
    {
        lines.push(listing_line(&registry[i], platform));
        i += 1;
    }
    assert(string_views(lines@) =~= listing_of(proxy_views(registry@), platform));
    lines
}

} // verus!
