//! The search coordinator: it decides what a command invocation leads to,
//! materializes the results surface on first use, and renders the
//! status/results/summary sequence for a finished search. Running the scan
//! off the host thread and carrying its outcome back is the caller's
//! business; every decision along the way is made here.

use crate::buffer::{
    spec_status_line, BufferModel, GrepBuffer, Theme, ThemeView, spec_format_line,
};
use crate::outcome::{spec_error_text, ErrorKind, OutcomeView, SearchOutcome};
use crate::pattern::{regex_compiles, Pattern};
use crate::text::{dec_string, spec_dec};
use vstd::prelude::*;
use vstd::string::StringExecFns;

verus! {

/// The status text announcing a search.
pub open spec fn spec_search_status(pattern: Seq<char>) -> Seq<char> {
    "Search for "@ + pattern
}

/// The status text summarizing a finished search over `n` matching lines.
pub open spec fn spec_summary_text(n: nat) -> Seq<char> {
    "Summary of search: "@ + spec_dec(n) + " lines"@
}

/// The report handed back to the invoking context for a pattern the engine
/// rejects.
pub open spec fn spec_invalid_pattern_text(pattern: Seq<char>) -> Seq<char> {
    "Invalid regular expression: "@ + pattern
}

fn make_search_status(pattern: &str) -> (r: String)
    ensures
        r@ == spec_search_status(pattern@),
{
    let mut s = String::from_str("Search for ");
    s.append(pattern);
    s
}

fn make_summary(n: usize) -> (r: String)
    ensures
        r@ == spec_summary_text(n as nat),
{
    let mut s = String::from_str("Summary of search: ");
    let d = dec_string(n);
    s.append(d.as_str());
    s.append(" lines");
    s
}

fn make_invalid_pattern(pattern: &str) -> (r: String)
    ensures
        r@ == spec_invalid_pattern_text(pattern@),
{
    let mut s = String::from_str("Invalid regular expression: ");
    s.append(pattern);
    s
}

/// What one command invocation comes to, decided before anything runs.
pub enum DispatchDecision {
    /// Run the search: scan this file with this compiled pattern.
    Dispatch { file: String, pattern: Pattern },
    /// No transcript path is known for the window; nothing happens.
    AbortNoFile,
    /// The invocation named no pattern; the invoking context is told.
    MissingPattern,
    /// The pattern does not compile; the invoking context gets this report.
    InvalidPattern { report: String },
}

/// The coordinator: the theme the surface will render with, and the surface
/// itself once some search has needed it.
pub struct Grep {
    theme: Theme,
    buffer: Option<GrepBuffer>,
}

/// A coordinator at the specification level.
pub struct GrepModel {
    pub theme: ThemeView,
    pub buffer: Option<BufferModel>,
}

impl View for Grep {
    type V = GrepModel;

    closed spec fn view(&self) -> GrepModel {
        GrepModel {
            theme: self.theme@,
            buffer: match self.buffer {
                Some(b) => Some(b@),
                None => None,
            },
        }
    }
}

/// The coordinator after the results surface has been made sure of: an
/// existing surface is kept as it is; otherwise a fresh, empty one is made
/// from the coordinator's theme.
pub open spec fn spec_create_surface(g: GrepModel) -> GrepModel {
    if g.buffer is Some {
        g
    } else {
        GrepModel {
            theme: g.theme,
            buffer: Some(
                BufferModel { theme: g.theme, lines: Seq::empty(), switched: false },
            ),
        }
    }
}

/// The lines a delivery renders, in order: the announcement; then, for a
/// success, each matching line's display form and a summary, or, for a
/// failure, the error text as the summary.
pub open spec fn spec_deliver_lines(
    theme: ThemeView,
    pattern: Seq<char>,
    ov: OutcomeView,
) -> Seq<Seq<char>> {
    match ov {
        OutcomeView::Success(ms) => seq![
            spec_status_line(theme, spec_search_status(pattern)),
        ] + ms.map_values(|m: Seq<char>| spec_format_line(theme, m)) + seq![
            spec_status_line(theme, spec_summary_text(ms.len())),
        ],
        OutcomeView::Failure(kind) => seq![
            spec_status_line(theme, spec_search_status(pattern)),
            spec_status_line(theme, spec_error_text(kind)),
        ],
    }
}

/// The coordinator after a delivery: the surface exists, holds the delivered
/// lines after what it already held, and has focus requested if it already
/// had or the flag asks for it.
pub open spec fn spec_deliver(
    g: GrepModel,
    pattern: Seq<char>,
    ov: OutcomeView,
    auto_switch: bool,
) -> GrepModel {
    let g1 = spec_create_surface(g);
    let b = g1.buffer->Some_0;
    GrepModel {
        theme: g1.theme,
        buffer: Some(
            BufferModel {
                theme: b.theme,
                lines: b.lines + spec_deliver_lines(b.theme, pattern, ov),
                switched: b.switched || auto_switch,
            },
        ),
    }
}

impl Grep {
    /// A coordinator that has not yet needed a results surface.
    pub fn new(theme: Theme) -> (g: Grep)
        ensures
            g@ == (GrepModel { theme: theme@, buffer: None }),
    {
        Grep { theme, buffer: None }
    }

    /// Decides what an invocation with the resolved transcript path and the
    /// parsed pattern argument leads to. No path aborts silently; no pattern
    /// is reported; a pattern the engine rejects is reported; otherwise the
    /// search is ready to run.
    pub fn dispatch(&self, file: Option<String>, pattern_arg: Option<String>) -> (d:
        DispatchDecision)
        ensures
            (file is None ==> d is AbortNoFile),
            (file is Some && pattern_arg is None ==> d is MissingPattern),
            (file matches Some(f) ==> (pattern_arg matches Some(p) ==> (regex_compiles(p@) ==> (
            d matches DispatchDecision::Dispatch { file: df, pattern: dp } && df@ == f@ && dp@
                == p@)))),
            (file is Some ==> (pattern_arg matches Some(p) ==> (!regex_compiles(p@) ==> (
            d matches DispatchDecision::InvalidPattern { report } && report@
                == spec_invalid_pattern_text(p@))))),
    {
        match file {
            None => DispatchDecision::AbortNoFile,
            Some(f) => match pattern_arg {
                None => DispatchDecision::MissingPattern,
                Some(p) => match Pattern::compile(p.as_str()) {
                    Some(pat) => DispatchDecision::Dispatch { file: f, pattern: pat },
                    None => DispatchDecision::InvalidPattern {
                        report: make_invalid_pattern(p.as_str()),
                    },
                },
            },
        }
    }

    /// Makes sure the results surface exists; an existing one is reused, so
    /// later searches append to it rather than open a second one.
    pub fn get_or_create(&mut self)
        ensures
            final(self)@ == spec_create_surface(old(self)@),
    {
        if self.buffer.is_none() {
            let b = GrepBuffer::new(&self.theme);
            self.buffer = Some(b);
        }
    }

    /// The surface, for inspection; present once any search has reported.
    pub fn surface(&self) -> (r: &Option<GrepBuffer>)
        ensures
            (self@.buffer is Some <==> r is Some),
            (r matches Some(b) ==> self@.buffer == Some(b@)),
    {
        &self.buffer
    }

    /// Renders a finished search into the results surface, creating it on
    /// first use, and returns the rendered lines in order for the host to
    /// display: the announcement, each matching line's display form, and the
    /// summary — or the error text in place of lines and summary. Focus is
    /// requested exactly if `auto_switch` asks for it (or was requested
    /// before).
    pub fn deliver(&mut self, pattern: &str, outcome: SearchOutcome, auto_switch: bool) -> (r:
        Vec<String>)
        ensures
            final(self)@ == spec_deliver(old(self)@, pattern@, outcome@, auto_switch),
            r.deep_view() == spec_deliver_lines(
                spec_create_surface(old(self)@).buffer->Some_0.theme,
                pattern@,
                outcome@,
            ),
    {
        self.get_or_create();
        let opt = self.buffer.take();
        let mut b = match opt {
            Some(b) => b,
            None => {
                proof {
                    assert(false);
                }
                GrepBuffer::new(&self.theme)
            },
        };
        let ghost b0 = b@;
        let ghost t = b@.theme;
        let mut rendered: Vec<String> = Vec::new();
        let status = make_search_status(pattern);
        let first = b.print_status(status.as_str());
        rendered.push(first);
        let ghost st = spec_status_line(t, spec_search_status(pattern@));
        proof {
            assert(rendered.deep_view() =~= seq![st]);
        }
        match outcome {
            SearchOutcome::Success(ms) => {
                let ghost fmt = |m: Seq<char>| spec_format_line(t, m);
                let mut i: usize = 0;
                while i < ms.len()
                    invariant
                        i <= ms.len(),
                        b@.theme == t,
                        b@.switched == b0.switched,
                        b@.lines =~= b0.lines + seq![st] + ms.deep_view().take(
                            i as int,
                        ).map_values(fmt),
                        rendered.deep_view() =~= seq![st] + ms.deep_view().take(
                            i as int,
                        ).map_values(fmt),
                        fmt == (|m: Seq<char>| spec_format_line(t, m)),
                    decreases ms.len() - i,
                {
                    let ghost pre = ms.deep_view().take(i as int).map_values(fmt);
                    let line = b.print(ms[i].as_str());
                    proof {
                        assert(ms@[i as int].deep_view() =~= ms@[i as int]@);
                        assert(ms.deep_view().take(i + 1 as int).map_values(fmt) =~= pre.push(
                            fmt(ms@[i as int]@),
                        ));
                    }
                    let ghost prev = rendered.deep_view();
                    rendered.push(line);
                    proof {
                        assert(rendered.deep_view() =~~= prev.push(
                            spec_format_line(t, ms@[i as int]@),
                        ));
                    }
                    i = i + 1;
                }
                proof {
                    assert(ms.deep_view().take(ms.len() as int) =~= ms.deep_view());
                }
                let summary = make_summary(ms.len());
                let last = b.print_status(summary.as_str());
                let ghost prev = rendered.deep_view();
                rendered.push(last);
                proof {
                    let ghost sm = spec_status_line(t, spec_summary_text(ms.deep_view().len()));
                    assert(rendered.deep_view() =~~= prev.push(sm));
                    assert(rendered.deep_view() =~= spec_deliver_lines(t, pattern@, outcome@));
                    assert(b@.lines =~= b0.lines + spec_deliver_lines(t, pattern@, outcome@));
                }
            },
            SearchOutcome::Failure(kind) => {
                let text = kind.message();
                let line = b.print_status(text.as_str());
                let ghost prev = rendered.deep_view();
                rendered.push(line);
                proof {
                    assert(rendered.deep_view() =~~= prev.push(
                        spec_status_line(t, spec_error_text(kind)),
                    ));
                    assert(rendered.deep_view() =~= spec_deliver_lines(t, pattern@, outcome@));
                    assert(b@.lines =~= b0.lines + spec_deliver_lines(t, pattern@, outcome@));
                }
            },
        }
        if auto_switch {
            b.switch_to();
        }
        self.buffer = Some(b);
        rendered
    }
}

/// Making sure of the results surface twice is the same as doing it once:
/// later searches find the surface of the first.
pub proof fn lemma_create_surface_idempotent(g: GrepModel)
    ensures
        spec_create_surface(spec_create_surface(g)) == spec_create_surface(g),
{
}

/// A failed search renders exactly two lines — the announcement and the
/// error text as the summary — and no match lines; focus still follows the
/// flag.
pub proof fn lemma_failure_delivery(
    g: GrepModel,
    pattern: Seq<char>,
    kind: ErrorKind,
    auto_switch: bool,
)
    ensures
        ({
            let before = spec_create_surface(g).buffer->Some_0;
            let after = spec_deliver(
                g,
                pattern,
                OutcomeView::Failure(kind),
                auto_switch,
            ).buffer->Some_0;
            after.lines == before.lines + seq![
                spec_status_line(before.theme, spec_search_status(pattern)),
                spec_status_line(before.theme, spec_error_text(kind)),
            ] && after.lines.len() == before.lines.len() + 2 && (auto_switch ==> after.switched)
        }),
{
}

/// A successful search renders one line per matching record, in their scan
/// order, between the announcement and the summary.
pub proof fn lemma_success_delivery(
    g: GrepModel,
    pattern: Seq<char>,
    ms: Seq<Seq<char>>,
    auto_switch: bool,
)
    ensures
        ({
            let before = spec_create_surface(g).buffer->Some_0;
            let after = spec_deliver(
                g,
                pattern,
                OutcomeView::Success(ms),
                auto_switch,
            ).buffer->Some_0;
            after.lines.len() == before.lines.len() + ms.len() + 2 && after.lines[
                before.lines.len() as int
            ] == spec_status_line(before.theme, spec_search_status(pattern)) && (forall|i: int|
                0 <= i < ms.len() ==> after.lines[before.lines.len() + 1 + i]
                    == spec_format_line(before.theme, ms[i])) && after.lines.last()
                == spec_status_line(before.theme, spec_summary_text(ms.len()))
        }),
{
    let before = spec_create_surface(g).buffer->Some_0;
    let added = spec_deliver_lines(before.theme, pattern, OutcomeView::Success(ms));
    assert(added.len() == ms.len() + 2);
    assert(forall|i: int|
        0 <= i < ms.len() ==> added[1 + i] == spec_format_line(before.theme, ms[i]));
}

/// Delivery requests focus exactly when focus was already requested or the
/// flag asks for it; with the flag off, a delivery never requests focus.
pub proof fn lemma_switch_follows_flag(
    g: GrepModel,
    pattern: Seq<char>,
    ov: OutcomeView,
    auto_switch: bool,
)
    ensures
        spec_deliver(g, pattern, ov, auto_switch).buffer->Some_0.switched == (spec_create_surface(
            g,
        ).buffer->Some_0.switched || auto_switch),
{
}

} // verus!
