//! Dispatch: resolving a requested target name against the registry and
//! planning the launch of the program found. Spawning the process and
//! waiting for it is the caller's part.

use vstd::prelude::*;
use crate::laws::lemma_first_match;
use crate::names::Platform;
use crate::proxy::{proxy_views, Proxy, ProxyView};
use crate::text::{copy_strings, string_views};

verus! {

/// The place of the first record of `registry` that answers to `requested`,
/// if any record does.
pub open spec fn first_match(
    registry: Seq<ProxyView>,
    requested: Seq<char>,
    platform: Platform,
) -> Option<int>
    decreases registry.len(),
{
    if registry.len() == 0 {
        None
    } else if registry.first().is_target(requested, platform) {
        Some(0)
    } else {
        match first_match(registry.drop_first(), requested, platform) {
            Some(i) => Some(i + 1),
            None => None,
        }
    }
}

/// Finds the first record of the registry, in its stored order, whose target
/// name equals `requested`. That none is found is a normal outcome.
pub fn resolve<'a>(registry: &'a Vec<Proxy>, requested: &str, platform: Platform) -> (found:
    Option<&'a Proxy>)
    ensures
        match first_match(proxy_views(registry@), requested@, platform) {
            Some(i) => found is Some && found.unwrap()@ == registry@[i]@ && 0 <= i
                < registry@.len(),
            None => found is None,
        },
        found is Some ==> found.unwrap()@.target_name(platform) == requested@,
        found is None ==> forall|j: int|
            0 <= j < registry@.len() ==> registry@[j]@.target_name(platform) != requested@,
{
    let ghost all = proxy_views(registry@);
    let mut i: usize = 0;
    assert(all.skip(0) =~= all);
    while i < registry.len()
        invariant
            i <= registry.len(),
            all == proxy_views(registry@),
            first_match(all, requested@, platform) == match first_match(
                all.skip(i as int),
                requested@,
                platform,
            ) {
                Some(k) => Some(k + i),
                None => None,
            },
        decreases registry.len() - i,
    {
        proof {
            assert(all.skip(i as int).first() == registry@[i as int]@);
            assert(all.skip(i as int).drop_first() =~= all.skip(i + 1));
        }
        if registry[i].is_target(requested, platform) {
            return Some(&registry[i]);
        }
        i += 1;
    }
    proof {
        assert(all.skip(i as int).len() == 0);
        lemma_first_match(all, requested@, platform);
        assert forall|j: int| 0 <= j < registry@.len() implies registry@[j]@.target_name(platform)
            != requested@ by {
            assert(all[j] == registry@[j]@);
        }
    }
    None
}

/// How a child process is to be launched.
#[derive(Debug)]
pub struct Invocation {
    /// The program to run.
    pub program: String,
    /// Its full argument vector, the program's own name not included.
    pub args: Vec<String>,
}

/// An [`Invocation`] as plain sequences of characters.
pub struct InvocationView {
    pub program: Seq<char>,
    pub args: Seq<Seq<char>>,
}

impl View for Invocation {
    type V = InvocationView;

    open spec fn view(&self) -> InvocationView {
        InvocationView { program: self.program@, args: string_views(self.args@) }
    }
}

impl Proxy {
    /// Plans the launch of this record's executable: the program is the
    /// record's path, and the child gets exactly `forwarded` as its arguments.
    pub fn start_process(&self, forwarded: &Vec<String>) -> (plan: Invocation)
        ensures
            plan@.program == self@.path,
            plan@.args == string_views(forwarded@),
    {
        Invocation { program: self.path().to_owned(), args: copy_strings(forwarded) }
    }
}

/// Resolves `requested` against the registry and plans the launch of the
/// first record that answers to it.
pub fn dispatch(
    registry: &Vec<Proxy>,
    requested: &str,
    forwarded: &Vec<String>,
    platform: Platform,
) -> (plan: Option<Invocation>)
    ensures
        match first_match(proxy_views(registry@), requested@, platform) {
            Some(i) => plan is Some && plan.unwrap()@ == (InvocationView {
                program: registry@[i]@.path,
                args: string_views(forwarded@),
            }),
            None => plan is None,
        },
{
    match resolve(registry, requested, platform) {
        Some(proxy) => Some(proxy.start_process(forwarded)),
        None => None,
    }
}

/// The exit code that the dispatcher ends with once the child has ended: the
/// child's own code, or 0 where the child ended without one.
pub fn exit_code(child: Option<i32>) -> (code: i32)
    ensures
        code == match child {
            Some(n) => n,
            None => 0,
        },
{
    match child {
        Some(n) => n,
        None => 0,
    }
}

/// The exit code of a request whose name found no record.
pub const EXIT_NO_MATCH: i32 = 1;

/// The exit code of a request whose program could not be launched.
pub const EXIT_LAUNCH_FAILED: i32 = 1;

/// What came of a request to run a target.
#[derive(Clone, Copy, Debug, PartialEq, Eq, Structural)]
pub enum Outcome {
    /// No record answers to the requested name.
    NoMatch,
    /// A record answers, but its program could not be launched or waited for.
    LaunchFailed,
    /// The child has ended, with this exit code if it ended with one.
    Ended(Option<i32>),
}

impl Outcome {
    /// The exit code that the dispatcher ends with: exactly the child's where
    /// the child has ended, and one that is not 0 where no child ran.
    pub fn exit_code(self) -> (code: i32)
        ensures
            code == match self {
                Outcome::NoMatch => EXIT_NO_MATCH,
                Outcome::LaunchFailed => EXIT_LAUNCH_FAILED,
                Outcome::Ended(Some(n)) => n,
                Outcome::Ended(None) => 0,
            },
            !(self is Ended) ==> code != 0,
    {
        match self {
            Outcome::NoMatch => EXIT_NO_MATCH,
            Outcome::LaunchFailed => EXIT_LAUNCH_FAILED,
            Outcome::Ended(child) => exit_code(child),
        }
    }
}

} // verus!
