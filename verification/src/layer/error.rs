//! Error-chain enrichment: error-level events evaluated against the active
//! scope, their cause chain turned into exportable attributes and a
//! structured exception sub-event.

use vstd::prelude::*;
use vstd::string::StringExecFns;

use crate::json::formatter::Level;
use crate::layer::AttrEntries;
use crate::text::{join_sep, join_strings, pairs_view, views_of};

verus! {

/// The enrichment capability for error-level events.
pub struct ErrorLayer;

/// The stack text of a cause chain: each level's display text, outermost
/// first, joined by newlines.
pub open spec fn spec_stack(displays: Seq<Seq<char>>) -> Seq<char> {
    join_sep(displays, seq!['\n'])
}

/// The attributes enrichment writes into the active scope's exportable set.
pub open spec fn spec_scope_attributes(msg: Seq<char>, stack: Seq<char>) -> AttrEntries {
    seq![
        ("error.message"@, msg),
        ("error.type"@, "Error"@),
        ("error.kind"@, "Error"@),
        ("error.stack"@, stack),
    ]
}

/// The attributes of the structured exception sub-event.
pub open spec fn spec_exception_attributes(msg: Seq<char>, stack: Seq<char>) -> AttrEntries {
    seq![
        ("exception.type"@, "Error"@),
        ("exception.message"@, msg),
        ("exception.stacktrace"@, stack),
        ("error.type"@, "Error"@),
        ("error.message"@, msg),
    ]
}

/// The views of an optional cause chain.
pub open spec fn opt_chain_views(o: Option<Vec<String>>) -> Option<Seq<Seq<char>>> {
    match o {
        Some(v) => Some(views_of(v@)),
        None => None,
    }
}

/// Whether an event triggers enrichment: error severity, an active scope,
/// and an attached error.
pub open spec fn spec_should_enrich(
    level: Level,
    scope_active: bool,
    chain: Option<Seq<Seq<char>>>,
) -> bool {
    level == Level::Error && scope_active && match chain {
        Some(c) => c.len() > 0,
        None => false,
    }
}

/// With no active scope, enrichment never fires: the evaluation yields
/// nothing, mutates nothing, and raises no error, whatever the severity and
/// whatever error is attached.
pub proof fn lemma_enrichment_requires_scope(level: Level, chain: Option<Seq<Seq<char>>>)
    ensures
        !spec_should_enrich(level, false, chain),
{
}

/// What one error-level event contributes: writes for the scope's
/// exportable attribute set, the attributes of the exception sub-event,
/// and the scope's error status message.
pub struct Enrichment {
    pub scope_attributes: Vec<(String, String)>,
    pub exception_attributes: Vec<(String, String)>,
    pub status_message: String,
}

/// Collects an error value recorded on an event: its display text, a fixed
/// kind discriminant, and the stack built from its cause chain.
pub struct ErrorVisitor {
    pub message: String,
    pub kind: String,
    pub stack: String,
    pub is_error: bool,
}

impl ErrorVisitor {
    /// A visitor that has seen no error.
    pub fn new() -> (r: Self)
        ensures
            !r.is_error,
            r.message@ == Seq::<char>::empty(),
            r.kind@ == Seq::<char>::empty(),
            r.stack@ == Seq::<char>::empty(),
    {
        ErrorVisitor {
            message: String::new(),
            kind: String::new(),
            stack: String::new(),
            is_error: false,
        }
    }

    /// Records an error through its cause chain, given as the display text
    /// of each level, outermost first: the message is the outermost text,
    /// the stack joins every level with newlines, and the kind is the fixed
    /// discriminant label.
    pub fn record_error(&mut self, displays: &Vec<String>)
        requires
            displays@.len() > 0,
        ensures
            final(self).is_error,
            final(self).message@ == displays@[0]@,
            final(self).kind@ == "Error"@,
            final(self).stack@ == spec_stack(views_of(displays@)),
    {
        let stack = join_strings(displays, "\n");
        proof {
            reveal_strlit("\n");
            assert(("\n")@ =~= seq!['\n']);
        }
        self.message = displays[0].clone();
        self.kind = String::from_str("Error");
        self.stack = stack;
        self.is_error = true;
    }
}

impl ErrorLayer {
    /// Evaluates one event: error severity with an active scope and an
    /// attached error yields the enrichment; anything else yields nothing,
    /// so that the evaluation never mutates any state and never fails.
    pub fn on_event(
        &self,
        level: Level,
        scope_active: bool,
        error_chain: &Option<Vec<String>>,
    ) -> (r: Option<Enrichment>)
        ensures
            r.is_some() == spec_should_enrich(level, scope_active, opt_chain_views(*error_chain)),
            r matches Some(en) ==> {
                let ds = opt_chain_views(*error_chain)->Some_0;
                &&& en.status_message@ == ds[0]
                &&& pairs_view(en.scope_attributes@) == spec_scope_attributes(
                    ds[0],
                    spec_stack(ds),
                )
                &&& pairs_view(en.exception_attributes@) == spec_exception_attributes(
                    ds[0],
                    spec_stack(ds),
                )
            },
    {
        if !scope_active {
            return None;
        }
        let is_error_level = match level {
            Level::Error => true,
            _ => false,
        };
        if !is_error_level {
            return None;
        }
        match error_chain {
            Some(chain) => {
                if chain.len() == 0 {
                    return None;
                }
                let mut visitor = ErrorVisitor::new();
                visitor.record_error(chain);
                let ghost ds = views_of(chain@);
                proof {
                    assert(ds[0] == chain@[0]@);
                }

                let mut scope_attributes: Vec<(String, String)> = Vec::new();
                scope_attributes.push((String::from_str("error.message"), visitor.message.clone()));
                scope_attributes.push((String::from_str("error.type"), String::from_str("Error")));
                scope_attributes.push((String::from_str("error.kind"), String::from_str("Error")));
                scope_attributes.push((String::from_str("error.stack"), visitor.stack.clone()));
                proof {
                    assert(pairs_view(scope_attributes@) =~= spec_scope_attributes(
                        ds[0],
                        spec_stack(ds),
                    ));
                }

                let mut exception_attributes: Vec<(String, String)> = Vec::new();
                exception_attributes.push(
                    (String::from_str("exception.type"), String::from_str("Error")),
                );
                exception_attributes.push(
                    (String::from_str("exception.message"), visitor.message.clone()),
                );
                exception_attributes.push(
                    (String::from_str("exception.stacktrace"), visitor.stack.clone()),
                );
                exception_attributes.push(
                    (String::from_str("error.type"), String::from_str("Error")),
                );
                exception_attributes.push(
                    (String::from_str("error.message"), visitor.message.clone()),
                );
                proof {
                    assert(pairs_view(exception_attributes@) =~= spec_exception_attributes(
                        ds[0],
                        spec_stack(ds),
                    ));
                }

                Some(
                    Enrichment {
                        scope_attributes,
                        exception_attributes,
                        status_message: visitor.message,
                    },
                )
            },
            None => None,
        }
    }
}

} // verus!
