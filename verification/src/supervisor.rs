//! The bridge supervisor's decision step: one line of operator input is
//! interpreted against the registry, and the links to activate — if any —
//! are handed out, removed from the registry in the same step.
//!
//! The caller spawns one forwarding task per returned link and reports the
//! other outcomes to the operator; by the time it does either, the registry
//! no longer holds the activated links, so no name can be activated twice.
use vstd::prelude::*;
use crate::BusKind;
use crate::link::LinkConfig;
use crate::registry::Registry;
use crate::registry::contains_link;
use crate::registry::link_index;
use crate::registry::of_kind;
use crate::registry::without_kind;
use crate::registry::lemma_without_kind_whole;
use crate::command::parse_line;
use crate::command::parse_command;
use crate::command::Command;
use crate::command::CommandView;
use crate::command::Target;
use crate::command::TargetView;

verus! {

/// What one line of operator input led to.
#[derive(Debug, PartialEq, Eq)]
pub enum Outcome {
    /// `help`: answer with the command summary.
    Help,
    /// A bus verb without an argument: answer with its usage line.
    Usage(BusKind),
    /// An empty line or an unrecognized verb: answer with a diagnostic.
    Unknown,
    /// `all` on a kind with nothing left to activate: answer that no
    /// configurations are available.
    NoConfigs(BusKind),
    /// A name that is not in the registry — never configured, or already
    /// running: answer that the configuration is not available.
    NotFound(BusKind, Vec<u8>),
    /// The links to activate, each removed from the registry: the caller
    /// spawns one forwarding task per entry.
    Launch(Vec<LinkConfig>),
}

/// Interprets one line of operator input against the registry.
pub fn handle_line(registry: &mut Registry, line: &[u8]) -> (o: Outcome)
    requires
        old(registry).wf(),
    ensures
        final(registry).wf(),
        match parse_command(line@) {
            CommandView::Help => o == Outcome::Help && final(registry)@ == old(registry)@,
            CommandView::Usage(k) => o == Outcome::Usage(k) && final(registry)@ == old(registry)@,
            CommandView::Unknown => o == Outcome::Unknown && final(registry)@ == old(registry)@,
            CommandView::Start(k, TargetView::All) => {
                if of_kind(old(registry)@, k).len() == 0 {
                    &&& o == Outcome::NoConfigs(k)
                    &&& final(registry)@ == old(registry)@
                } else {
                    &&& o matches Outcome::Launch(v) && v@ == of_kind(old(registry)@, k)
                    &&& final(registry)@ == without_kind(old(registry)@, k)
                }
            },
            CommandView::Start(k, TargetView::Name(n)) => {
                if contains_link(old(registry)@, k, n) {
                    &&& o matches Outcome::Launch(v) && v@ == seq![
                        old(registry)@[link_index(old(registry)@, k, n)],
                    ]
                    &&& final(registry)@ == old(registry)@.remove(link_index(old(registry)@, k, n))
                } else {
                    &&& o matches Outcome::NotFound(k2, n2) && k2 == k && n2@ == n
                    &&& final(registry)@ == old(registry)@
                }
            },
        },
{
    let cmd = parse_line(line);
    match cmd {
        Command::Help => Outcome::Help,
        Command::Usage(kind) => Outcome::Usage(kind),
        Command::Unknown => Outcome::Unknown,
        Command::Start(kind, Target::All) => {
            let configs = registry.resolve_all(kind);
            if configs.len() == 0 {
                proof {
                    lemma_without_kind_whole(old(registry)@, kind);
                }
                Outcome::NoConfigs(kind)
            } else {
                Outcome::Launch(configs)
            }
        },
        Command::Start(kind, Target::Name(name)) => {
            match registry.resolve(kind, name.as_slice()) {
                Ok(config) => {
                    let mut v: Vec<LinkConfig> = Vec::new();
                    v.push(config);
                    proof {
                        assert(v@ =~= seq![config]);
                    }
                    Outcome::Launch(v)
                },
                Err(_) => Outcome::NotFound(kind, name),
            }
        },
    }
}

} // verus!
