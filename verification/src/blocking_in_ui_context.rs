//! `blocking_in_ui_context`: a blocking call inside a handler, `async` scope,
//! `View::body`, or `GpuView::render`; and `thread_sleep_in_ui`, the same for
//! `std::thread::sleep`.

use crate::anyview;
use crate::diagnostics;
use crate::diagnostics::{Diagnostic, DiagnosticView};
use crate::hir;
use crate::hir::{ClosureKind, Hir, Kind};
use crate::known::Known;
use crate::lint::Lint;
use crate::text;
use vstd::prelude::*;

verus! {

/// A def-path pattern: `a::b::c` matches that item exactly; a trailing `::*`
/// makes it a prefix (`std::net::*` covers `std::net::tcp::TcpStream::connect`).
#[derive(Debug)]
pub struct PathPattern {
    pub segments: Vec<String>,
    pub prefix: bool,
}

/// What a pattern says.
pub ghost struct PatternView {
    pub segments: Seq<Seq<char>>,
    pub prefix: bool,
}

impl View for PathPattern {
    type V = PatternView;

    open spec fn view(&self) -> PatternView {
        PatternView { segments: text::texts(self.segments@), prefix: self.prefix }
    }
}

/// The segments of a path.
pub open spec fn segments_of(path: Seq<char>) -> Seq<Seq<char>> {
    text::pieces(path, "::"@)
}

/// What a pattern's text says.
pub open spec fn parsed(path: Seq<char>) -> PatternView {
    match text::without_suffix(path, "::*"@) {
        Some(stem) => PatternView { segments: segments_of(stem), prefix: true },
        None => PatternView { segments: segments_of(path), prefix: false },
    }
}

impl PatternView {
    /// The pattern matches the item with that path.
    pub open spec fn covers(self, path: Seq<Seq<char>>) -> bool {
        let n = self.segments.len() as int;
        &&& n <= path.len()
        &&& self.prefix || n == path.len()
        &&& path.take(n) == self.segments
    }
}

/// A pattern without `::*` matches the one path that it spells.
pub proof fn exact_pattern_matches_its_path_alone(pattern: Seq<char>, path: Seq<Seq<char>>)
    requires
        text::without_suffix(pattern, "::*"@) is None,
    ensures
        parsed(pattern).covers(path) <==> path == segments_of(pattern),
        parsed(pattern).covers(path) ==> text::joined(path, "::"@) == pattern,
{
    reveal_strlit("::");
    text::lemma_pieces_join(pattern, "::"@, 0);
    assert(pattern.skip(0) =~= pattern);
    assert(path.take(path.len() as int) =~= path);
}

/// A pattern `a::b::*` matches `a::b` and everything under it, and nothing else.
pub proof fn prefix_pattern_matches_what_lies_under(stem: Seq<char>, path: Seq<Seq<char>>)
    ensures
        parsed(stem + "::*"@).covers(path) <==> exists|rest: Seq<Seq<char>>|
            path == #[trigger] (segments_of(stem) + rest),
{
    reveal_strlit("::*");
    let pattern = stem + "::*"@;
    let own = segments_of(stem);
    let n = own.len() as int;
    assert(pattern.subrange(stem.len() as int, pattern.len() as int) =~= "::*"@);
    assert(pattern.take(stem.len() as int) =~= stem);
    if parsed(pattern).covers(path) {
        assert(path =~= own + path.skip(n));
    }
    if exists|rest: Seq<Seq<char>>| path == #[trigger] (own + rest) {
        assert(path.take(n) =~= own);
    }
}

/// What a pattern without `::*` matches, the same pattern with `::*` matches
/// together with everything under it; the first matches nothing under it.
pub proof fn prefix_pattern_reaches_further(
    pattern: Seq<char>,
    path: Seq<Seq<char>>,
    rest: Seq<Seq<char>>,
)
    requires
        text::without_suffix(pattern, "::*"@) is None,
        parsed(pattern).covers(path),
    ensures
        parsed(pattern + "::*"@).covers(path + rest),
        rest.len() > 0 ==> !parsed(pattern).covers(path + rest),
{
    exact_pattern_matches_its_path_alone(pattern, path);
    prefix_pattern_matches_what_lies_under(pattern, path + rest);
}

fn split_path(path: &str) -> (r: Vec<String>)
    ensures
        text::texts(r@) == segments_of(path@),
{
    proof {
        reveal_strlit("::");
    }
    text::split(path, "::")
}

impl PathPattern {
    /// The pattern that the text spells.
    pub fn parse(path: &str) -> (r: PathPattern)
        ensures
            r@ == parsed(path@),
    {
        match text::strip_suffix(path, "::*") {
            Some(stem) => PathPattern { segments: split_path(stem.as_str()), prefix: true },
            None => PathPattern { segments: split_path(path), prefix: false },
        }
    }

    /// Whether the path of an item, segment by segment, matches.
    pub fn matches(&self, path: &Vec<String>) -> (r: bool)
        ensures
            r == self@.covers(text::texts(path@)),
    {
        let n: usize = self.segments.len();
        if n > path.len() || (!self.prefix && n != path.len()) {
            return false;
        }
        let mut i: usize = 0;
        while i < n
            invariant
                i <= n,
                n == self.segments.len(),
                n <= path.len(),
                forall|k: int| 0 <= k < i ==> path@[k]@ == #[trigger] self.segments@[k]@,
            decreases n - i,
        {
            if !text::str_eq(path[i].as_str(), self.segments[i].as_str()) {
                proof {
                    assert(text::texts(path@).take(n as int)[i as int] != self@.segments[i as int]);
                }
                return false;
            }
            i = i + 1;
        }
        proof {
            assert(text::texts(path@).take(n as int) =~= self@.segments);
        }
        true
    }
}

/// Which UI context a blocking call sits in.
#[derive(Clone, Copy, Debug, PartialEq, Eq, Structural)]
pub enum Context {
    /// A closure in a `Handler` or `HandlerOnce` argument position.
    Handler,
    /// An `async` block or `async fn` body.
    AsyncBlock,
    /// `View::body`.
    ViewBody,
    /// `GpuView::render`.
    GpuRender,
}

impl Context {
    /// The name that the diagnostic uses.
    pub open spec fn written(self) -> Seq<char> {
        match self {
            Context::Handler => "handler"@,
            Context::AsyncBlock => "async block"@,
            Context::ViewBody => "View::body"@,
            Context::GpuRender => "GpuView::render"@,
        }
    }

    /// The name that the diagnostic uses.
    pub fn name(self) -> (r: &'static str)
        ensures
            r@ == self.written(),
    {
        match self {
            Context::Handler => "handler",
            Context::AsyncBlock => "async block",
            Context::ViewBody => "View::body",
            Context::GpuRender => "GpuView::render",
        }
    }
}

/// The closures among the first `n` handler arguments.
pub open spec fn closures_in(hir: Hir, args: Seq<usize>, n: int) -> Seq<usize>
    decreases n,
{
    if n <= 0 {
        seq![]
    } else {
        let rest = closures_in(hir, args, n - 1);
        let arg = anyview::peeled(hir, args[n - 1]);
        if hir.kind(arg) is Closure {
            rest.push(arg)
        } else {
            rest
        }
    }
}

/// The handler closures of a call.
pub open spec fn handler_closures(hir: Hir, n: usize) -> Seq<usize> {
    let args = hir.node(n).handler_args@;
    closures_in(hir, args, args.len() as int)
}

/// The expression lies in a function that the test harness calls.
pub open spec fn in_test_wrapper(hir: Hir, n: usize) -> bool
    decreases hir.nodes@.len() - n,
{
    match hir.up(n) {
        Some(p) => match hir.kind(p) {
            Kind::Item { .. } => hir.node(p).test_wrapper,
            Kind::TraitItem { .. } => hir.node(p).test_wrapper,
            Kind::ImplItem { .. } => hir.node(p).test_wrapper,
            _ => in_test_wrapper(hir, p),
        },
        None => false,
    }
}

fn is_in_test_wrapper(hir: &Hir, n: usize) -> (r: bool)
    requires
        hir.wf(),
        hir.has(n),
    ensures
        r == in_test_wrapper(*hir, n),
    decreases hir.nodes.len() - n,
{
    match hir.parent(n) {
        Some(p) => match &hir.nodes[p].kind {
            Kind::Item { .. } | Kind::TraitItem { .. } | Kind::ImplItem { .. } => {
                hir.nodes[p].test_wrapper
            },
            _ => is_in_test_wrapper(hir, p),
        },
        None => false,
    }
}

/// The context that an item's body is.
pub open spec fn item_context(hir: Hir, n: usize) -> Option<Context> {
    if hir.names_item(n, Known::ViewBody) {
        Some(Context::ViewBody)
    } else if hir.names_item(n, Known::GpuRender) {
        Some(Context::GpuRender)
    } else {
        None
    }
}

/// The context around an expression.
pub open spec fn context_around(hir: Hir, handlers: Seq<usize>, n: usize) -> Option<Context>
    decreases hir.nodes@.len() - n,
{
    match hir.up(n) {
        Some(p) => match hir.kind(p) {
            Kind::Closure { .. } => match hir.node(p).closure_kind {
                ClosureKind::Async => Some(Context::AsyncBlock),
                ClosureKind::Plain => if handlers.contains(p) {
                    Some(Context::Handler)
                } else {
                    None
                },
                ClosureKind::Other => None,
            },
            Kind::Item { .. } => item_context(hir, p),
            Kind::TraitItem { .. } => item_context(hir, p),
            Kind::ImplItem { .. } => item_context(hir, p),
            Kind::ForeignItem => None,
            _ => context_around(hir, handlers, p),
        },
        None => None,
    }
}

fn contains_id(list: &Vec<usize>, id: usize) -> (r: bool)
    ensures
        r == list@.contains(id),
{
    let mut i: usize = 0;
    while i < list.len()
        invariant
            i <= list.len(),
            forall|k: int| 0 <= k < i ==> list@[k] != id,
        decreases list.len() - i,
    {
        if list[i] == id {
            assert(list@[i as int] == id);
            return true;
        }
        i = i + 1;
    }
    false
}

fn enclosing_context(hir: &Hir, handlers: &Vec<usize>, n: usize) -> (r: Option<Context>)
    requires
        hir.wf(),
        hir.has(n),
    ensures
        r == context_around(*hir, handlers@, n),
    decreases hir.nodes.len() - n,
{
    let p: usize = match hir.parent(n) {
        Some(p) => p,
        None => {
            return None;
        },
    };
    match &hir.nodes[p].kind {
        Kind::Closure { .. } => match hir.nodes[p].closure_kind {
            ClosureKind::Async => Some(Context::AsyncBlock),
            ClosureKind::Plain => if contains_id(handlers, p) {
                Some(Context::Handler)
            } else {
                None
            },
            ClosureKind::Other => None,
        },
        Kind::Item { .. } | Kind::TraitItem { .. } | Kind::ImplItem { .. } => if hir.is_item(
            p,
            Known::ViewBody,
        ) {
            Some(Context::ViewBody)
        } else if hir.is_item(p, Known::GpuRender) {
            Some(Context::GpuRender)
        } else {
            None
        },
        Kind::ForeignItem => None,
        _ => enclosing_context(hir, handlers, p),
    }
}

/// The UI context of an expression.
pub open spec fn context_of(hir: Hir, handlers: Seq<usize>, n: usize) -> Option<Context> {
    if in_test_wrapper(hir, n) {
        None
    } else {
        context_around(hir, handlers, n)
    }
}

/// The UI context that the expression's enclosing scope is, if any. The first
/// closure around it decides: an `async` one is an async context, one of the
/// `handlers` is a handler context, and any other closure is a scope boundary (a
/// nested non-handler closure may run off the UI thread). The first enclosing
/// item decides between `View::body`, `GpuView::render` and no context: a `fn`
/// boundary ends the scope, so a blocking call inside a helper a handler calls is
/// out of scope. A test or bench wrapper body is a harness context, not a UI one.
pub fn ui_context(hir: &Hir, handlers: &Vec<usize>, n: usize) -> (r: Option<Context>)
    requires
        hir.wf(),
        hir.has(n),
    ensures
        r == context_of(*hir, handlers@, n),
{
    if is_in_test_wrapper(hir, n) {
        return None;
    }
    enclosing_context(hir, handlers, n)
}

/// The calls that block unless the configuration names more. The executors'
/// `block_on`s are those of the crates that define them.
pub open spec fn default_blocking_paths() -> Seq<Seq<char>> {
    seq![
        "std::fs::*"@,
        "std::net::*"@,
        "std::process::Command::output"@,
        "std::process::Command::status"@,
        "std::process::Child::wait"@,
        "futures_executor::local_pool::block_on"@,
        "async_io::driver::block_on"@,
        "reqwest::blocking::*"@,
        "std::sync::poison::mutex::Mutex::lock"@,
        "std::sync::poison::rwlock::RwLock::read"@,
        "std::sync::poison::rwlock::RwLock::write"@,
    ]
}

/// What the patterns say.
pub open spec fn pattern_views(patterns: Seq<PathPattern>) -> Seq<PatternView> {
    patterns.map_values(|pattern: PathPattern| pattern@)
}

/// The patterns that the texts spell.
pub open spec fn parse_all(paths: Seq<Seq<char>>) -> Seq<PatternView> {
    paths.map_values(|path: Seq<char>| parsed(path))
}

/// One of the patterns matches the path.
pub open spec fn any_covers(patterns: Seq<PatternView>, path: Seq<Seq<char>>) -> bool {
    exists|i: int| 0 <= i < patterns.len() && (#[trigger] patterns[i]).covers(path)
}

/// The lint pass: the closures seen in handler positions, and the calls that it
/// looks for.
#[derive(Debug)]
pub struct BlockingInUiContext {
    /// Closures seen in `Handler` or `HandlerOnce` argument positions. The
    /// enclosing call is looked at before the closure's body, so a blocking call
    /// can ask whether an enclosing closure is one of these.
    pub handlers: Vec<usize>,
    pub sleep: PathPattern,
    pub blocking: Vec<PathPattern>,
}

/// What a pass looks for.
pub ghost struct Patterns {
    pub sleep: PatternView,
    pub blocking: Seq<PatternView>,
}

/// The item that a call runs, by its path.
pub open spec fn callee_path(hir: Hir, n: usize) -> Option<Seq<Seq<char>>> {
    match hir.node(n).item {
        Some(def) => if def < hir.defs@.len() {
            Some(text::texts(hir.defs@[def as int].path@))
        } else {
            None
        },
        None => None,
    }
}

/// The handler closures known once an expression has been looked at.
pub open spec fn handlers_after(hir: Hir, handlers: Seq<usize>, n: usize) -> Seq<usize> {
    if hir.node(n).span.expanded() || !hir.is_call(n) {
        handlers
    } else {
        handlers + handler_closures(hir, n)
    }
}

/// What is said of a call of `path`.
pub open spec fn call_finding(
    hir: Hir,
    patterns: Patterns,
    n: usize,
    path: Seq<Seq<char>>,
    context: Context,
) -> Option<DiagnosticView> {
    if patterns.sleep.covers(path) {
        Some(
            DiagnosticView::with_help(
                Lint::ThreadSleepInUi,
                hir.node(n).span,
                "`std::thread::sleep` blocks the UI thread's executor"@,
                "await `waterui::task::sleep(duration)` in an `.action_async`/`.task(..)` future instead"@,
            ),
        )
    } else if any_covers(patterns.blocking, path) {
        Some(
            DiagnosticView::with_help(
                Lint::BlockingInUiContext,
                hir.node(n).span,
                "this call blocks inside a UI context ("@ + context.written() + ")"@,
                "move the blocking work to `waterui::task::spawn` (a worker thread) and await its handle, or use the async API"@,
            ),
        )
    } else {
        None
    }
}

/// What is said of an expression.
pub open spec fn finding_at(hir: Hir, patterns: Patterns, handlers: Seq<usize>, n: usize) -> Option<
    DiagnosticView,
> {
    if hir.node(n).span.expanded() || !hir.is_call(n) {
        None
    } else {
        match (callee_path(hir, n), context_of(hir, handlers_after(hir, handlers, n), n)) {
            (Some(path), Some(context)) => call_finding(hir, patterns, n, path, context),
            _ => None,
        }
    }
}

impl BlockingInUiContext {
    /// What the pass looks for.
    pub open spec fn patterns(self) -> Patterns {
        Patterns { sleep: self.sleep@, blocking: pattern_views(self.blocking@) }
    }

    fn push_pattern(blocking: &mut Vec<PathPattern>, path: &str)
        ensures
            pattern_views(final(blocking)@) == pattern_views(old(blocking)@).push(parsed(path@)),
    {
        let ghost before = blocking@;
        let pattern: PathPattern = PathPattern::parse(path);
        blocking.push(pattern);
        proof {
            assert(pattern_views(blocking@) =~= pattern_views(before).push(parsed(path@)));
        }
    }

    fn default_patterns() -> (r: Vec<PathPattern>)
        ensures
            pattern_views(r@) == parse_all(default_blocking_paths()),
    {
        let mut out: Vec<PathPattern> = Vec::new();
        BlockingInUiContext::push_pattern(&mut out, "std::fs::*");
        BlockingInUiContext::push_pattern(&mut out, "std::net::*");
        BlockingInUiContext::push_pattern(&mut out, "std::process::Command::output");
        BlockingInUiContext::push_pattern(&mut out, "std::process::Command::status");
        BlockingInUiContext::push_pattern(&mut out, "std::process::Child::wait");
        BlockingInUiContext::push_pattern(&mut out, "futures_executor::local_pool::block_on");
        BlockingInUiContext::push_pattern(&mut out, "async_io::driver::block_on");
        BlockingInUiContext::push_pattern(&mut out, "reqwest::blocking::*");
        BlockingInUiContext::push_pattern(&mut out, "std::sync::poison::mutex::Mutex::lock");
        BlockingInUiContext::push_pattern(&mut out, "std::sync::poison::rwlock::RwLock::read");
        BlockingInUiContext::push_pattern(&mut out, "std::sync::poison::rwlock::RwLock::write");
        proof {
            assert(pattern_views(out@) =~= parse_all(default_blocking_paths()));
        }
        out
    }

    /// A pass that looks for the default calls and those of the `extra`
    /// patterns.
    pub fn new(extra: &Vec<String>) -> (r: BlockingInUiContext)
        ensures
            r.handlers@.len() == 0,
            r.sleep@ == parsed("std::thread::sleep"@),
            pattern_views(r.blocking@) == parse_all(
                default_blocking_paths() + text::texts(extra@),
            ),
    {
        let mut blocking: Vec<PathPattern> = BlockingInUiContext::default_patterns();
        let ghost defaults = default_blocking_paths();
        let mut i: usize = 0;
        proof {
            assert(defaults + text::texts(extra@.take(0)) =~= defaults);
        }
        while i < extra.len()
            invariant
                i <= extra.len(),
                pattern_views(blocking@) == parse_all(
                    defaults + text::texts(extra@.take(i as int)),
                ),
            decreases extra.len() - i,
        {
            let ghost known = defaults + text::texts(extra@.take(i as int));
            let path: &str = extra[i].as_str();
            BlockingInUiContext::push_pattern(&mut blocking, path);
            proof {
                assert(defaults + text::texts(extra@.take(i + 1)) =~= known.push(path@));
                assert(parse_all(known.push(path@)) =~= parse_all(known).push(parsed(path@)));
            }
            i = i + 1;
        }
        proof {
            assert(extra@.take(extra@.len() as int) =~= extra@);
        }
        BlockingInUiContext {
            handlers: Vec::new(),
            sleep: PathPattern::parse("std::thread::sleep"),
            blocking,
        }
    }

    fn blocks(&self, path: &Vec<String>) -> (r: bool)
        ensures
            r == any_covers(pattern_views(self.blocking@), text::texts(path@)),
    {
        let ghost views = pattern_views(self.blocking@);
        let mut i: usize = 0;
        while i < self.blocking.len()
            invariant
                i <= self.blocking.len(),
                views == pattern_views(self.blocking@),
                forall|k: int| 0 <= k < i ==> !(#[trigger] views[k]).covers(text::texts(path@)),
            decreases self.blocking.len() - i,
        {
            if self.blocking[i].matches(path) {
                assert(views[i as int].covers(text::texts(path@)));
                return true;
            }
            assert(!views[i as int].covers(text::texts(path@)));
            i = i + 1;
        }
        false
    }

    fn note_handlers(&mut self, hir: &Hir, n: usize)
        requires
            hir.wf(),
            hir.has(n),
        ensures
            final(self).handlers@ == old(self).handlers@ + handler_closures(*hir, n),
            final(self).sleep == old(self).sleep,
            final(self).blocking == old(self).blocking,
    {
        let ghost before = self.handlers@;
        let args: &Vec<usize> = &hir.nodes[n].handler_args;
        proof {
            assert(hir.node_wf(n));
            assert(before =~= before + closures_in(*hir, args@, 0));
        }
        let mut i: usize = 0;
        while i < args.len()
            invariant
                i <= args.len(),
                hir.wf(),
                hir.has(n),
                hir::all_below(args@, n as int),
                self.sleep == old(self).sleep,
                self.blocking == old(self).blocking,
                self.handlers@ == before + closures_in(*hir, args@, i as int),
            decreases args.len() - i,
        {
            let ghost prior = self.handlers@;
            let arg: usize = anyview::peel(hir, args[i]);
            if let Kind::Closure { .. } = &hir.nodes[arg].kind {
                self.handlers.push(arg);
                proof {
                    assert(prior.push(arg) =~= before + closures_in(*hir, args@, i as int).push(
                        arg,
                    ));
                }
            }
            i = i + 1;
        }
    }

    /// Flags a call that blocks the current thread inside a scope that runs on
    /// the UI thread's executor. Only calls written directly in such a scope are
    /// flagged.
    pub fn check_expr(&mut self, hir: &Hir, n: usize) -> (r: Option<Diagnostic>)
        requires
            hir.wf(),
            hir.has(n),
        ensures
            diagnostics::found(r) == finding_at(
                *hir,
                old(self).patterns(),
                old(self).handlers@,
                n,
            ),
            final(self).handlers@ == handlers_after(*hir, old(self).handlers@, n),
            final(self).patterns() == old(self).patterns(),
    {
        if hir.nodes[n].span.from_expansion() || !hir.call(n) {
            return None;
        }
        self.note_handlers(hir, n);
        let def: usize = match hir.nodes[n].item {
            Some(def) => def,
            None => {
                return None;
            },
        };
        if def >= hir.defs.len() {
            return None;
        }
        let path: &Vec<String> = &hir.defs[def].path;
        let sleep: bool = self.sleep.matches(path);
        if !sleep && !self.blocks(path) {
            return None;
        }
        let context: Context = match ui_context(hir, &self.handlers, n) {
            Some(context) => context,
            None => {
                return None;
            },
        };
        if sleep {
            Some(
                Diagnostic::with_help(
                    Lint::ThreadSleepInUi,
                    hir.nodes[n].span,
                    "`std::thread::sleep` blocks the UI thread's executor",
                    "await `waterui::task::sleep(duration)` in an `.action_async`/`.task(..)` future instead".to_owned(),
                ),
            )
        } else {
            Some(
                Diagnostic::with_help(
                    Lint::BlockingInUiContext,
                    hir.nodes[n].span,
                    text::cat3(
                        "this call blocks inside a UI context (",
                        context.name(),
                        ")",
                    ).as_str(),
                    "move the blocking work to `waterui::task::spawn` (a worker thread) and await its handle, or use the async API".to_owned(),
                ),
            )
        }
    }
}

/// The nearest closure or item around a call decides where it runs: an async
/// closure is an async block, a closure that a handler parameter takes is a
/// handler, any other closure is no UI context, and of the items only
/// `View::body` and `GpuView::render` are.
pub proof fn nearest_scope_decides(hir: Hir, handlers: Seq<usize>, n: usize, p: usize)
    requires
        hir.up(n) == Some(p),
    ensures
        hir.kind(p) is Closure ==> context_around(hir, handlers, n) == match hir.node(
            p,
        ).closure_kind {
            ClosureKind::Async => Some(Context::AsyncBlock),
            ClosureKind::Plain => if handlers.contains(p) {
                Some(Context::Handler)
            } else {
                None
            },
            ClosureKind::Other => None,
        },
        (hir.kind(p) is Item || hir.kind(p) is TraitItem || hir.kind(p) is ImplItem)
            && hir.names_item(p, Known::ViewBody) ==> context_around(hir, handlers, n) == Some(
            Context::ViewBody,
        ),
        (hir.kind(p) is Item || hir.kind(p) is TraitItem || hir.kind(p) is ImplItem)
            && !hir.names_item(p, Known::ViewBody) && !hir.names_item(p, Known::GpuRender)
            ==> context_around(hir, handlers, n) is None,
        !(hir.kind(p) is Closure) && !(hir.kind(p) is Item) && !(hir.kind(p) is TraitItem) && !(
        hir.kind(p) is ImplItem) && !(hir.kind(p) is ForeignItem) ==> context_around(
            hir,
            handlers,
            n,
        ) == context_around(hir, handlers, p),
{
}

/// A call is reported exactly where it is in a UI context and its path is one of
/// those that block; a sleep goes by its own lint.
pub proof fn blocking_calls_are_reported(
    hir: Hir,
    patterns: Patterns,
    handlers: Seq<usize>,
    n: usize,
    path: Seq<Seq<char>>,
)
    requires
        callee_path(hir, n) == Some(path),
        hir.is_call(n),
        !hir.node(n).span.expanded(),
    ensures
        finding_at(hir, patterns, handlers, n) is Some <==> context_of(
            hir,
            handlers_after(hir, handlers, n),
            n,
        ) is Some && (patterns.sleep.covers(path) || exists|i: int|
            0 <= i < patterns.blocking.len() && (#[trigger] patterns.blocking[i]).covers(path)),
        finding_at(hir, patterns, handlers, n) matches Some(finding) ==> finding.span == hir.node(
            n,
        ).span && finding.lint == (if patterns.sleep.covers(path) {
            Lint::ThreadSleepInUi
        } else {
            Lint::BlockingInUiContext
        }),
{
}

proof fn lemma_closures(hir: Hir, args: Seq<usize>, n: int, closure: usize)
    requires
        0 <= n <= args.len(),
    ensures
        closures_in(hir, args, n).contains(closure) <==> hir.kind(closure) is Closure && exists|
            i: int,
        |
            0 <= i < n && anyview::peeled(hir, #[trigger] args[i]) == closure,
    decreases n,
{
    if n > 0 {
        lemma_closures(hir, args, n - 1, closure);
        let all = closures_in(hir, args, n);
        let rest = closures_in(hir, args, n - 1);
        if all.contains(closure) {
            let k = choose|k: int| 0 <= k < all.len() && all[k] == closure;
            if k < rest.len() {
                assert(rest[k] == closure);
                assert(rest.contains(closure));
            } else {
                assert(anyview::peeled(hir, args[n - 1]) == closure);
            }
        }
        if hir.kind(closure) is Closure && exists|i: int|
            0 <= i < n && anyview::peeled(hir, #[trigger] args[i]) == closure {
            let i = choose|i: int|
                0 <= i < n && anyview::peeled(hir, #[trigger] args[i]) == closure;
            if i < n - 1 {
                assert(rest.contains(closure));
                let k = choose|k: int| 0 <= k < rest.len() && rest[k] == closure;
                assert(all[k] == closure);
            } else {
                assert(all[rest.len() as int] == closure);
            }
        }
    }
}

/// The handlers that are remembered are those of the calls looked at: every
/// closure that a call hands to a handler parameter, and no other.
pub proof fn handlers_are_remembered(hir: Hir, handlers: Seq<usize>, n: usize, closure: usize)
    requires
        hir.is_call(n),
        !hir.node(n).span.expanded(),
    ensures
        handlers_after(hir, handlers, n).contains(closure) <==> handlers.contains(closure) || (
        hir.kind(closure) is Closure && exists|i: int|
            0 <= i < hir.node(n).handler_args@.len() && anyview::peeled(
                hir,
                #[trigger] hir.node(n).handler_args@[i],
            ) == closure),
{
    let args = hir.node(n).handler_args@;
    let new = handler_closures(hir, n);
    let all = handlers_after(hir, handlers, n);
    lemma_closures(hir, args, args.len() as int, closure);
    if all.contains(closure) {
        let k = choose|k: int| 0 <= k < all.len() && all[k] == closure;
        if k < handlers.len() {
            assert(handlers[k] == closure);
        } else {
            assert(new[k - handlers.len()] == closure);
        }
    }
    if handlers.contains(closure) {
        let k = choose|k: int| 0 <= k < handlers.len() && handlers[k] == closure;
        assert(all[k] == closure);
    }
    if new.contains(closure) {
        let k = choose|k: int| 0 <= k < new.len() && new[k] == closure;
        assert(all[handlers.len() + k] == closure);
    }
}

} // verus!
