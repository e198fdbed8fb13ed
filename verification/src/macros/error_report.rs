//! A report over an error's cause chain: renders the chain as a single
//! line, as numbered debug lines, and hands the levels out one by one.

use vstd::prelude::*;
use vstd::string::StringExecFns;

use crate::text::{
    append_u64, dec_uint_chars, join_sep, join_strings, push_char, views_of,
};

verus! {

/// One level of a cause chain: its display text and its debug text.
pub struct SourceInfo {
    pub display: String,
    pub debug: String,
}

/// A captured cause chain, outermost error first. Always holds at least the
/// top-level error itself.
pub struct Report {
    items: Vec<SourceInfo>,
}

/// The display texts of a chain.
pub open spec fn displays_of(items: Seq<SourceInfo>) -> Seq<Seq<char>> {
    items.map_values(|e: SourceInfo| e.display@)
}

/// The debug texts of a chain.
pub open spec fn debugs_of(items: Seq<SourceInfo>) -> Seq<Seq<char>> {
    items.map_values(|e: SourceInfo| e.debug@)
}

/// The numbered debug rendering: each level's debug text on its own line,
/// prefixed with its depth, the outermost error numbered zero.
pub open spec fn numbered_chars(ds: Seq<Seq<char>>) -> Seq<char>
    decreases ds.len(),
{
    if ds.len() == 0 {
        Seq::empty()
    } else {
        numbered_chars(ds.drop_last()) + (if ds.len() > 1 {
            seq!['\n']
        } else {
            Seq::empty()
        }) + dec_uint_chars((ds.len() - 1) as nat) + seq![':', ' '] + ds.last()
    }
}

impl Report {
    /// The display texts, outermost first.
    pub closed spec fn displays(self) -> Seq<Seq<char>> {
        displays_of(self.items@)
    }

    /// The debug texts, outermost first.
    pub closed spec fn debugs(self) -> Seq<Seq<char>> {
        debugs_of(self.items@)
    }

    /// A report over the given cause chain, outermost error first.
    pub fn new(sources: Vec<SourceInfo>) -> (r: Report)
        requires
            sources@.len() > 0,
        ensures
            r.displays() == displays_of(sources@),
            r.debugs() == debugs_of(sources@),
            r.displays().len() == sources@.len(),
    {
        let r = Report { items: sources };
        proof {
            assert(r.displays().len() == r.items@.len());
        }
        r
    }

    /// The single-line rendering: every level's display text, outermost
    /// first, joined by `: `.
    pub fn render(&self) -> (r: String)
        ensures
            r@ == join_sep(self.displays(), ": "@),
    {
        let n = self.items.len();
        let mut parts: Vec<String> = Vec::new();
        let mut i: usize = 0;
        while i < n
            invariant
                n == self.items@.len(),
                i <= n,
                parts@.len() == i,
                forall|j: int| 0 <= j < i ==> parts@[j]@ == self.displays()[j],
            decreases n - i,
        {
            parts.push(self.items[i].display.clone());
            i += 1;
        }
        let r = join_strings(&parts, ": ");
        proof {
            assert(views_of(parts@) =~= self.displays());
        }
        r
    }

    /// The numbered debug rendering: one line per level, `0: ` for the
    /// outermost error, each deeper cause on a fresh line.
    pub fn render_debug(&self) -> (r: String)
        ensures
            r@ == numbered_chars(self.debugs()),
    {
        let ghost ds = self.debugs();
        let mut out = String::new();
        proof {
            assert(ds.take(0) =~= Seq::<Seq<char>>::empty());
            assert(out@ =~= numbered_chars(ds.take(0)));
        }
        let n = self.items.len();
        let mut i: usize = 0;
        while i < n
            invariant
                n == self.items@.len(),
                ds == self.debugs(),
                ds.len() == n,
                i <= n,
                out@ == numbered_chars(ds.take(i as int)),
            decreases n - i,
        {
            if i > 0 {
                push_char(&mut out, '\n');
            }
            append_u64(&mut out, i as u64);
            push_char(&mut out, ':');
            push_char(&mut out, ' ');
            out.append(self.items[i].debug.as_str());
            proof {
                assert(ds[i as int] == self.items@[i as int].debug@);
                assert(ds.take(i as int + 1).drop_last() =~= ds.take(i as int));
                assert(ds.take(i as int + 1).last() == ds[i as int]);
                assert(out@ =~= numbered_chars(ds.take(i as int + 1)));
            }
            i += 1;
        }
        proof {
            assert(ds.take(n as int) =~= ds);
        }
        out
    }

    /// Hands out the chain's display texts, outermost first.
    pub fn sources(&self) -> (r: Sources)
        ensures
            r.spec_items() == self.displays(),
            r.spec_pos() == 0,
    {
        let n = self.items.len();
        let mut texts: Vec<String> = Vec::new();
        let mut i: usize = 0;
        while i < n
            invariant
                n == self.items@.len(),
                i <= n,
                texts@.len() == i,
                forall|j: int| 0 <= j < i ==> texts@[j]@ == self.displays()[j],
            decreases n - i,
        {
            texts.push(self.items[i].display.clone());
            i += 1;
        }
        proof {
            assert(views_of(texts@) =~= self.displays());
        }
        error_sources(texts)
    }
}

/// A cursor over the display texts of a cause chain.
pub struct Sources {
    items: Vec<String>,
    pos: usize,
}

impl Sources {
    /// The texts this cursor walks.
    pub closed spec fn spec_items(self) -> Seq<Seq<char>> {
        views_of(self.items@)
    }

    /// How many texts were already handed out.
    pub closed spec fn spec_pos(self) -> int {
        self.pos as int
    }

    /// The next display text, outermost first; nothing once the chain is
    /// exhausted.
    pub fn next(&mut self) -> (r: Option<String>)
        ensures
            final(self).spec_items() == old(self).spec_items(),
            r.is_some() == (old(self).spec_pos() < old(self).spec_items().len()),
            r matches Some(s) ==> s@ == old(self).spec_items()[old(self).spec_pos()]
                && final(self).spec_pos() == old(self).spec_pos() + 1,
            r is None ==> final(self).spec_pos() == old(self).spec_pos(),
    {
        if self.pos < self.items.len() {
            let r = self.items[self.pos].clone();
            self.pos = self.pos + 1;
            Some(r)
        } else {
            None
        }
    }
}

/// A cursor over the given display texts, starting at the outermost.
pub fn error_sources(items: Vec<String>) -> (r: Sources)
    ensures
        r.spec_items() == views_of(items@),
        r.spec_pos() == 0,
{
    Sources { items, pos: 0 }
}

} // verus!
