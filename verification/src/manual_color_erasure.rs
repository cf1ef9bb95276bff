//! `manual_color_erasure`: a `Color` conversion written by hand where the
//! parameter already takes the colorspace value.

use crate::anyview;
use crate::color;
use crate::color::{Defs, Flag, FlagView, Replacement, ReplacementView};
use crate::diagnostics;
use crate::diagnostics::{Applicability, Diagnostic, DiagnosticView, RemarkView};
use crate::hir;
use crate::hir::{Bound, Hir, Kind, Namespace, Span};
use crate::imports;
use crate::imports::{Bare, Module, Query};
use crate::lint::Lint;
use crate::text;
use vstd::prelude::*;

verus! {

/// The message for a parameter with that bound.
pub open spec fn message(bound: Seq<char>) -> Seq<char> {
    "this parameter takes `impl "@ + bound + "`; pass the colorspace value"@
}

/// An erasing part for each span.
pub open spec fn erasures(spans: Seq<Span>) -> Seq<(Span, Seq<char>)> {
    spans.map_values(|span: Span| (span, Seq::<char>::empty()))
}

/// What is said of a constructor: how its colorspace type is named at `n`
/// decides whether an import comes with the fix.
pub open spec fn ctor_finding(
    hir: Hir,
    module: Module,
    flag: FlagView,
    n: usize,
    bound: Seq<char>,
    replace: Span,
    ty_name: Seq<char>,
    fn_name: Seq<char>,
    def: usize,
) -> Option<DiagnosticView> {
    let status = imports::bare_meaning(
        hir,
        module,
        n,
        flag.span.lo,
        ty_name,
        Namespace::Type,
        Some(def),
    );
    let plain = ty_name + "::"@ + fn_name;
    let alias = "color_"@ + ty_name;
    let use_path = "waterui::color::"@ + ty_name;
    let finding = DiagnosticView::bare(Lint::ManualColorErasure, flag.span, message(bound));
    if status is Same {
        let label = "use `"@ + plain + "`"@;
        Some(
            finding.with(
                if flag.erased.len() == 0 {
                    RemarkView::Suggestion {
                        label,
                        span: replace,
                        code: plain,
                        applicability: Applicability::MachineApplicable,
                    }
                } else {
                    RemarkView::Multipart {
                        label,
                        parts: seq![(replace, plain)] + erasures(flag.erased),
                        applicability: Applicability::MachineApplicable,
                    }
                },
            ),
        )
    } else {
        match imports::insertion(module, use_path) {
            Some((point, before, after)) => Some(
                finding.with(
                    if status is Free {
                        RemarkView::Multipart {
                            label: "import `"@ + use_path + "` and pass the colorspace value"@,
                            parts: seq![
                                (point, before + "use "@ + use_path + ";"@ + after),
                                (replace, plain),
                            ] + erasures(flag.erased),
                            applicability: Applicability::MachineApplicable,
                        }
                    } else {
                        RemarkView::Multipart {
                            label: "`"@ + ty_name
                                + "` resolves to a different item here — import under an alias"@,
                            parts: seq![
                                (
                                    point,
                                    before + ("use "@ + use_path + " as "@ + alias + ";"@) + after,
                                ),
                                (replace, alias + "::"@ + fn_name),
                            ] + erasures(flag.erased),
                            applicability: Applicability::MaybeIncorrect,
                        }
                    },
                ),
            ),
            None => None,
        }
    }
}

/// What is said of a flagged erasure.
pub open spec fn flag_finding(
    hir: Hir,
    module: Module,
    flag: FlagView,
    n: usize,
    bound: Seq<char>,
) -> Option<DiagnosticView> {
    match flag.repl {
        ReplacementView::Inner { text, ty: _ } => Some(
            DiagnosticView::with_sugg(
                Lint::ManualColorErasure,
                flag.span,
                message(bound),
                "pass the colorspace value directly"@,
                text,
                Applicability::MachineApplicable,
            ),
        ),
        ReplacementView::Ctor { replace, ty_name, fn_name, def, ty: _ } => ctor_finding(
            hir,
            module,
            flag,
            n,
            bound,
            replace,
            ty_name,
            fn_name,
            def,
        ),
    }
}

fn push_erasures(parts: &mut Vec<(Span, String)>, spans: &Vec<Span>)
    ensures
        diagnostics::part_views(final(parts)@) == diagnostics::part_views(old(parts)@) + erasures(
            spans@,
        ),
{
    let ghost before = diagnostics::part_views(parts@);
    let mut i: usize = 0;
    proof {
        assert(erasures(spans@.take(0)) =~= seq![]);
    }
    while i < spans.len()
        invariant
            i <= spans.len(),
            diagnostics::part_views(parts@) == before + erasures(spans@.take(i as int)),
        decreases spans.len() - i,
    {
        let ghost prior = parts@;
        parts.push((spans[i], String::new()));
        proof {
            let part = (spans@[i as int], Seq::<char>::empty());
            assert(diagnostics::part_views(parts@) =~= diagnostics::part_views(prior).push(part));
            assert(erasures(spans@.take(i + 1)) =~= erasures(spans@.take(i as int)).push(part));
        }
        i = i + 1;
    }
    proof {
        assert(spans@.take(spans.len() as int) =~= spans@);
    }
}

fn report_ctor(
    hir: &Hir,
    module: &Module,
    flag: &Flag,
    n: usize,
    bound: &str,
    replace: Span,
    ty_name: &'static str,
    fn_name: &'static str,
    def: usize,
) -> (r: Option<Diagnostic>)
    requires
        hir.wf(),
        hir.has(n),
    ensures
        diagnostics::found(r) == ctor_finding(
            *hir,
            *module,
            flag@,
            n,
            bound@,
            replace,
            ty_name@,
            fn_name@,
            def,
        ),
{
    let query: Query = Query {
        pos: flag.span.lo,
        name: ty_name,
        ns: Namespace::Type,
        target: Some(def),
    };
    let status: Bare = imports::bare_status(hir, module, n, &query);
    let text: String = text::cat3(
        "this parameter takes `impl ",
        bound,
        "`; pass the colorspace value",
    );
    let mut finding: Diagnostic = Diagnostic::bare(
        Lint::ManualColorErasure,
        flag.span,
        text.as_str(),
    );
    let plain: String = text::cat3(ty_name, "::", fn_name);
    if let Bare::Same = status {
        let label: String = text::cat3("use `", plain.as_str(), "`");
        if flag.erased.len() == 0 {
            finding.span_suggestion(
                replace,
                label.as_str(),
                plain,
                Applicability::MachineApplicable,
            );
        } else {
            let ghost spelled = plain@;
            let mut parts: Vec<(Span, String)> = Vec::new();
            parts.push((replace, plain));
            proof {
                assert(diagnostics::part_views(parts@) =~= seq![(replace, spelled)]);
            }
            push_erasures(&mut parts, &flag.erased);
            finding.multipart_suggestion(
                label.as_str(),
                parts,
                Applicability::MachineApplicable,
            );
        }
        return Some(finding);
    }
    let use_path: String = text::cat("waterui::color::", ty_name);
    let (point, before, after) = match imports::use_insertion(module, use_path.as_str()) {
        Some(place) => place,
        None => {
            return None;
        },
    };
    let free: bool = match status {
        Bare::Free => true,
        _ => false,
    };
    let (label, import, call): (String, String, String) = if free {
        (
            text::cat3("import `", use_path.as_str(), "` and pass the colorspace value"),
            text::cat5(before.as_str(), "use ", use_path.as_str(), ";", after.as_str()),
            plain,
        )
    } else {
        let alias: String = text::cat("color_", ty_name);
        let item: String = text::cat5("use ", use_path.as_str(), " as ", alias.as_str(), ";");
        (
            text::cat3(
                "`",
                ty_name,
                "` resolves to a different item here — import under an alias",
            ),
            text::cat3(before.as_str(), item.as_str(), after.as_str()),
            text::cat3(alias.as_str(), "::", fn_name),
        )
    };
    let ghost import_text = import@;
    let ghost call_text = call@;
    let mut parts: Vec<(Span, String)> = Vec::new();
    parts.push((point, import));
    parts.push((replace, call));
    proof {
        assert(diagnostics::part_views(parts@) =~= seq![
            (point, import_text),
            (replace, call_text),
        ]);
    }
    push_erasures(&mut parts, &flag.erased);
    finding.multipart_suggestion(
        label.as_str(),
        parts,
        if free {
            Applicability::MachineApplicable
        } else {
            Applicability::MaybeIncorrect
        },
    );
    Some(finding)
}

/// Reports a flagged erasure; nothing when the import that its fix needs has no
/// place to go.
pub fn report(hir: &Hir, module: &Module, flag: &Flag, n: usize, bound: &str) -> (r: Option<
    Diagnostic,
>)
    requires
        hir.wf(),
        hir.has(n),
    ensures
        diagnostics::found(r) == flag_finding(*hir, *module, flag@, n, bound@),
{
    match &flag.repl {
        Replacement::Inner { text, .. } => {
            let message: String = text::cat3(
                "this parameter takes `impl ",
                bound,
                "`; pass the colorspace value",
            );
            Some(
                Diagnostic::with_sugg(
                    Lint::ManualColorErasure,
                    flag.span,
                    message.as_str(),
                    "pass the colorspace value directly",
                    text.clone(),
                    Applicability::MachineApplicable,
                ),
            )
        },
        Replacement::Ctor { replace, ty_name, fn_name, def, .. } => report_ctor(
            hir,
            module,
            flag,
            n,
            bound,
            *replace,
            *ty_name,
            *fn_name,
            *def,
        ),
    }
}

/// The nearest `let` around a node.
pub open spec fn enclosing_let(hir: Hir, n: usize) -> Option<usize>
    decreases hir.nodes@.len() - n,
{
    match hir.up(n) {
        Some(p) => if hir.kind(p) is LetStmt {
            Some(p)
        } else {
            enclosing_let(hir, p)
        },
        None => None,
    }
}

fn find_let(hir: &Hir, n: usize) -> (r: Option<usize>)
    requires
        hir.wf(),
        hir.has(n),
    ensures
        r == enclosing_let(*hir, n),
        r matches Some(p) ==> hir.has(p),
    decreases hir.nodes.len() - n,
{
    match hir.parent(n) {
        Some(p) => match &hir.nodes[p].kind {
            Kind::LetStmt { .. } => Some(p),
            _ => find_let(hir, p),
        },
        None => None,
    }
}

/// The initializer of the unannotated `let` that binds the local by a plain
/// pattern.
pub open spec fn initializer(hir: Hir, local: usize) -> Option<usize> {
    if !hir.has(local) {
        None
    } else {
        match enclosing_let(hir, local) {
            Some(stmt) => match hir.kind(stmt) {
                Kind::LetStmt { pat, ty, init, els: _ } => if pat == local && ty is None {
                    init
                } else {
                    None
                },
                _ => None,
            },
            None => None,
        }
    }
}

fn find_initializer(hir: &Hir, local: usize) -> (r: Option<usize>)
    requires
        hir.wf(),
    ensures
        r == initializer(*hir, local),
        r matches Some(init) ==> hir.has(init),
{
    if local >= hir.nodes.len() {
        return None;
    }
    match find_let(hir, local) {
        Some(stmt) => {
            proof {
                assert(hir.node_wf(stmt));
            }
            match &hir.nodes[stmt].kind {
                Kind::LetStmt { pat, ty, init, .. } => if *pat == local && ty.is_none() {
                    *init
                } else {
                    None
                },
                _ => None,
            }
        },
        None => None,
    }
}

/// The erasure that a local's initializer performs, where every use of the local
/// is a color-bound argument that the rewritten type satisfies.
pub open spec fn local_flag(hir: Hir, defs: Option<Defs>, local: usize) -> Option<
    (usize, FlagView),
> {
    match (initializer(hir, local), defs) {
        (Some(init), Some(defs)) => match color::flag_of(hir, defs, init) {
            Some((flag, ty)) => if hir.node(init).span.expanded() || !color::all_color_uses(
                hir,
                local,
                ty,
            ) {
                None
            } else {
                Some((init, flag))
            },
            None => None,
        },
        _ => None,
    }
}

/// What one step of the pass says, and the initializers that are reported then.
pub ghost struct Step {
    pub finding: Option<DiagnosticView>,
    pub reported: Seq<usize>,
}

/// What is said of an argument at a color-bound parameter.
pub open spec fn arg_step(
    hir: Hir,
    module: Module,
    defs: Option<Defs>,
    arg: usize,
    bounds: Seq<Bound>,
    reported: Seq<usize>,
) -> Step {
    let n = anyview::peeled(hir, arg);
    let bound = color::bound_text(hir, bounds);
    let nothing = Step { finding: None, reported };
    if hir.node(n).span.expanded() {
        nothing
    } else {
        match hir.local(n) {
            Some(local) => match local_flag(hir, defs, local) {
                Some((init, flag)) => if reported.contains(init) {
                    nothing
                } else {
                    Step {
                        finding: flag_finding(hir, module, flag, init, bound),
                        reported: reported.push(init),
                    }
                },
                None => nothing,
            },
            None => match defs {
                Some(defs) => match color::flag_of(hir, defs, n) {
                    Some((flag, ty)) => if color::passes(hir, ty, bounds) {
                        Step { finding: flag_finding(hir, module, flag, n, bound), reported }
                    } else {
                        nothing
                    },
                    None => nothing,
                },
                None => nothing,
            },
        }
    }
}

/// What the first `count` operands of a call give.
pub open spec fn operand_steps(
    hir: Hir,
    module: Module,
    defs: Option<Defs>,
    n: usize,
    bounds: Seq<Vec<Bound>>,
    reported: Seq<usize>,
    count: int,
) -> (Seq<DiagnosticView>, Seq<usize>)
    decreases count,
{
    if count <= 0 {
        (seq![], reported)
    } else {
        let (findings, before) = operand_steps(
            hir,
            module,
            defs,
            n,
            bounds,
            reported,
            count - 1,
        );
        let i = count - 1;
        if i < bounds.len() && color::color_param(hir, bounds[i]@) {
            let step = arg_step(hir, module, defs, hir.operands(n)[i], bounds[i]@, before);
            (
                match step.finding {
                    Some(finding) => findings.push(finding),
                    None => findings,
                },
                step.reported,
            )
        } else {
            (findings, before)
        }
    }
}

/// What is said of an expression, and the initializers reported then.
pub open spec fn expr_steps(
    hir: Hir,
    module: Module,
    defs: Option<Defs>,
    n: usize,
    reported: Seq<usize>,
) -> (Seq<DiagnosticView>, Seq<usize>) {
    match hir.node(n).bounds {
        Some(bounds) => if hir.node(n).span.expanded() || color::wraps_color(hir, n) is Some
            || color::is_into_call(hir, n) {
            (seq![], reported)
        } else {
            operand_steps(
                hir,
                module,
                defs,
                n,
                bounds@,
                reported,
                hir.operands(n).len() as int,
            )
        },
        None => (seq![], reported),
    }
}

/// The lint pass. `flagged` holds the `let` initializers that were reported, so
/// that one reached through more than one argument position is reported once.
#[derive(Debug)]
pub struct ManualColorErasure {
    pub flagged: Vec<usize>,
}

impl Default for ManualColorErasure {
    fn default() -> (r: ManualColorErasure)
        ensures
            r.flagged@ == Seq::<usize>::empty(),
    {
        ManualColorErasure::new()
    }
}

impl ManualColorErasure {
    /// A pass that has seen nothing yet.
    pub fn new() -> (r: ManualColorErasure)
        ensures
            r.flagged@ == Seq::<usize>::empty(),
    {
        ManualColorErasure { flagged: Vec::new() }
    }

    fn is_flagged(&self, init: usize) -> (r: bool)
        ensures
            r == self.flagged@.contains(init),
    {
        let mut i: usize = 0;
        while i < self.flagged.len()
            invariant
                i <= self.flagged.len(),
                forall|k: int| 0 <= k < i ==> self.flagged@[k] != init,
            decreases self.flagged.len() - i,
        {
            if self.flagged[i] == init {
                return true;
            }
            i = i + 1;
        }
        false
    }

    /// `arg` sits at a color-bound parameter: flags the erasure it performs, or
    /// the `let` initializer it names.
    pub fn check_arg(
        &mut self,
        hir: &Hir,
        module: &Module,
        defs: Option<Defs>,
        arg: usize,
        bounds: &Vec<Bound>,
    ) -> (r: Option<Diagnostic>)
        requires
            hir.wf(),
            hir.has(arg),
            hir::bounds_below(bounds@, hir.types@.len() as int),
            defs matches Some(d) ==> d.wf(*hir),
        ensures
            arg_step(*hir, *module, defs, arg, bounds@, old(self).flagged@) == (Step {
                finding: diagnostics::found(r),
                reported: final(self).flagged@,
            }),
    {
        let n: usize = anyview::peel(hir, arg);
        if hir.nodes[n].span.from_expansion() {
            return None;
        }
        if let Some(local) = hir.res_local(n) {
            return self.check_local(hir, module, defs, local, color::bound_name(hir, bounds));
        }
        let defs: Defs = match defs {
            Some(defs) => defs,
            None => {
                return None;
            },
        };
        match color::flagged(hir, defs, n) {
            Some((flag, ty)) => if color::satisfies(hir, ty, bounds) {
                report(hir, module, &flag, n, color::bound_name(hir, bounds))
            } else {
                None
            },
            None => None,
        }
    }

    /// `let c = <ctor>` passed by name: flags the initializer when every use of
    /// `c` is a color-bound argument the rewritten type satisfies. Annotated
    /// (`let c: Color`) and destructured bindings keep their `Color`.
    pub fn check_local(
        &mut self,
        hir: &Hir,
        module: &Module,
        defs: Option<Defs>,
        local: usize,
        bound: &'static str,
    ) -> (r: Option<Diagnostic>)
        requires
            hir.wf(),
            defs matches Some(d) ==> d.wf(*hir),
        ensures
            match local_flag(*hir, defs, local) {
                Some((init, flag)) => if old(self).flagged@.contains(init) {
                    r is None && final(self).flagged@ == old(self).flagged@
                } else {
                    diagnostics::found(r) == flag_finding(*hir, *module, flag, init, bound@)
                        && final(self).flagged@ == old(self).flagged@.push(init)
                },
                None => r is None && final(self).flagged@ == old(self).flagged@,
            },
    {
        let init: usize = match find_initializer(hir, local) {
            Some(init) => init,
            None => {
                return None;
            },
        };
        if hir.nodes[init].span.from_expansion() || self.is_flagged(init) {
            return None;
        }
        let defs: Defs = match defs {
            Some(defs) => defs,
            None => {
                return None;
            },
        };
        let (flag, ty) = match color::flagged(hir, defs, init) {
            Some(found) => found,
            None => {
                return None;
            },
        };
        if !color::only_color_uses(hir, local, ty) {
            return None;
        }
        self.flagged.push(init);
        report(hir, module, &flag, init, bound)
    }

    fn check_operands(
        &mut self,
        hir: &Hir,
        module: &Module,
        defs: Option<Defs>,
        n: usize,
        bounds: &Vec<Vec<Bound>>,
    ) -> (r: Vec<Diagnostic>)
        requires
            hir.wf(),
            hir.has(n),
            hir.node(n).bounds == Some(*bounds),
            defs matches Some(d) ==> d.wf(*hir),
        ensures
            (diagnostics::found_all(r@), final(self).flagged@) == operand_steps(
                *hir,
                *module,
                defs,
                n,
                bounds@,
                old(self).flagged@,
                hir.operands(n).len() as int,
            ),
    {
        let ghost reported = self.flagged@;
        let args: Vec<usize> = hir.call_args(n);
        let mut out: Vec<Diagnostic> = Vec::new();
        let mut i: usize = 0;
        proof {
            assert(hir.node_wf(n));
            let held = hir.node(n).bounds;
            assert(hir::all_bounds_below(held, hir.types@.len() as int));
            assert forall|k: int| 0 <= k < bounds@.len() implies hir::bounds_below(
                (#[trigger] bounds@[k])@,
                hir.types@.len() as int,
            ) by {
                assert(held->0@[k] == bounds@[k]);
            }
            assert(diagnostics::found_all(out@) =~= seq![]);
        }
        while i < args.len()
            invariant
                i <= args.len(),
                hir.wf(),
                hir.has(n),
                args@ == hir.operands(n),
                hir::all_below(args@, n as int),
                defs matches Some(d) ==> d.wf(*hir),
                forall|k: int|
                    0 <= k < bounds@.len() ==> hir::bounds_below(
                        (#[trigger] bounds@[k])@,
                        hir.types@.len() as int,
                    ),
                (diagnostics::found_all(out@), self.flagged@) == operand_steps(
                    *hir,
                    *module,
                    defs,
                    n,
                    bounds@,
                    reported,
                    i as int,
                ),
            decreases args.len() - i,
        {
            if i < bounds.len() {
                if color::is_color_param(hir, &bounds[i]) {
                    let ghost before = out@;
                    if let Some(finding) = self.check_arg(hir, module, defs, args[i], &bounds[i]) {
                        out.push(finding);
                        proof {
                            assert(diagnostics::found_all(out@) =~= diagnostics::found_all(
                                before,
                            ).push(finding@));
                        }
                    }
                }
            }
            i = i + 1;
        }
        out
    }

    /// Flags arguments passed to an `impl Into<Color>`/`impl IntoBackground`
    /// parameter that erase the colorspace by hand. A `let`-bound constructor
    /// later passed to such a parameter is flagged on the `let`.
    ///
    /// A conversion call itself is left out: its `self` parameter carries
    /// `Self: Into<Color>`-shaped bounds, but its type is pinned by the call;
    /// the wrapper is flagged where it appears as an argument.
    pub fn check_expr(&mut self, hir: &Hir, module: &Module, defs: Option<Defs>, n: usize) -> (r:
        Vec<Diagnostic>)
        requires
            hir.wf(),
            hir.has(n),
            defs matches Some(d) ==> d.wf(*hir),
        ensures
            (diagnostics::found_all(r@), final(self).flagged@) == expr_steps(
                *hir,
                *module,
                defs,
                n,
                old(self).flagged@,
            ),
    {
        if !hir.nodes[n].span.from_expansion() && color::is_color_wrapper(hir, n).is_none()
            && !color::is_into(hir, n) {
            if let Some(bounds) = &hir.nodes[n].bounds {
                return self.check_operands(hir, module, defs, n, bounds);
            }
        }
        let none: Vec<Diagnostic> = Vec::new();
        proof {
            assert(diagnostics::found_all(none@) =~= seq![]);
        }
        none
    }
}

proof fn lemma_operands_report_once(
    hir: Hir,
    module: Module,
    defs: Option<Defs>,
    n: usize,
    bounds: Seq<Vec<Bound>>,
    reported: Seq<usize>,
    count: int,
)
    requires
        reported.no_duplicates(),
    ensures
        operand_steps(hir, module, defs, n, bounds, reported, count).1.no_duplicates(),
        reported.is_prefix_of(operand_steps(hir, module, defs, n, bounds, reported, count).1),
    decreases count,
{
    if count > 0 {
        lemma_operands_report_once(hir, module, defs, n, bounds, reported, count - 1);
    }
}

/// A `let` initializer is reported at most once: what an expression adds to the
/// reported initializers was not among them, and none is forgotten.
pub proof fn initializers_report_once(
    hir: Hir,
    module: Module,
    defs: Option<Defs>,
    n: usize,
    reported: Seq<usize>,
)
    requires
        reported.no_duplicates(),
    ensures
        expr_steps(hir, module, defs, n, reported).1.no_duplicates(),
        reported.is_prefix_of(expr_steps(hir, module, defs, n, reported).1),
{
    if let Some(bounds) = hir.node(n).bounds {
        lemma_operands_report_once(
            hir,
            module,
            defs,
            n,
            bounds@,
            reported,
            hir.operands(n).len() as int,
        );
    }
}

/// A rewritten constructor names the colourspace type and its function: by the
/// bare name where that means the type, by the bare name with an import where the
/// name is free, and else by an alias that is imported; and what wrapped the
/// colour is erased.
pub proof fn colorspace_values_are_named(
    hir: Hir,
    module: Module,
    flag: FlagView,
    n: usize,
    bound: Seq<char>,
    replace: Span,
    ty_name: Seq<char>,
    fn_name: Seq<char>,
    def: usize,
)
    ensures
        ctor_finding(
            hir,
            module,
            flag,
            n,
            bound,
            replace,
            ty_name,
            fn_name,
            def,
        ) matches Some(finding) ==> {
            let status = imports::bare_meaning(
                hir,
                module,
                n,
                flag.span.lo,
                ty_name,
                Namespace::Type,
                Some(def),
            );
            &&& finding.span == flag.span
            &&& finding.remarks.len() == 1
            &&& status is Same ==> match finding.remarks[0] {
                RemarkView::Suggestion { label: _, span, code, applicability: _ } => span == replace
                    && code == ty_name + "::"@ + fn_name && flag.erased.len() == 0,
                RemarkView::Multipart { label: _, parts, applicability: _ } => parts[0] == (
                    replace,
                    ty_name + "::"@ + fn_name,
                ) && parts.len() == 1 + flag.erased.len(),
                _ => false,
            }
            &&& !(status is Same) ==> {
                &&& finding.remarks[0] matches RemarkView::Multipart {
                    label: _,
                    parts,
                    applicability: _,
                }
                &&& parts.len() == 2 + flag.erased.len()
                &&& status is Free ==> parts[1] == (replace, ty_name + "::"@ + fn_name)
                &&& !(status is Free) ==> parts[1] == (
                    replace,
                    "color_"@ + ty_name + "::"@ + fn_name,
                )
                &&& forall|i: int|
                    0 <= i < flag.erased.len() ==> #[trigger] parts[i + 2] == (
                        flag.erased[i],
                        Seq::<char>::empty(),
                    )
            }
        },
{
}

} // verus!
