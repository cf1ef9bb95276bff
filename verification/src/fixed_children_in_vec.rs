//! `fixed_children_in_vec`: a fixed set of children as `vec!`; and
//! `push_loop_seed`: a `ReactiveList` seeded by a push loop.

use crate::diagnostics;
use crate::diagnostics::{Applicability, Diagnostic, DiagnosticView, RemarkView};
use crate::hir;
use crate::hir::{ForLoop, Hir, Kind, Span, VecMacro};
use crate::known::Known;
use crate::lexer;
use crate::lint::Lint;
use crate::manual_binding_mutation;
use crate::manual_edge_insets;
use crate::signal_map;
use crate::text;
use vstd::prelude::*;
use vstd::utf8::*;

verus! {

/// Stack constructors whose contents parameter is `impl TupleViews`: the free
/// functions take it alone, the `new`s take it last.
pub open spec fn stack_ctors() -> Seq<Known> {
    seq![
        Known::VstackFn,
        Known::HstackFn,
        Known::ZstackFn,
        Known::VstackNew,
        Known::HstackNew,
        Known::ZstackNew,
    ]
}

/// The children as a tuple.
pub open spec fn tuple_of(children: Seq<Seq<char>>) -> Seq<char> {
    if children.len() == 0 {
        "()"@
    } else if children.len() == 1 {
        "("@ + children[0] + ",)"@
    } else {
        "("@ + text::joined(children, ", "@) + ")"@
    }
}

fn tuple_text(children: &Vec<String>) -> (r: String)
    ensures
        r@ == tuple_of(text::texts(children@)),
{
    if children.len() == 0 {
        "()".to_owned()
    } else if children.len() == 1 {
        proof {
            assert(text::texts(children@)[0] == children@[0]@);
        }
        text::cat3("(", children[0].as_str(), ",)")
    } else {
        let list: String = text::join(children, ", ");
        text::cat3("(", list.as_str(), ")")
    }
}

/// The source holds a comment.
pub open spec fn commented(source: Option<String>) -> bool {
    match source {
        Some(source) => lexer::has_comment(source@),
        None => false,
    }
}

fn has_comment(source: &Option<String>) -> (r: bool)
    requires
        source matches Some(text) ==> encode_utf8(text@).len() <= u32::MAX,
    ensures
        r == commented(*source),
{
    match source {
        Some(source) => lexer::contains_comment(source.as_str()),
        None => false,
    }
}

/// What is said of a `vec![..]` of children.
pub open spec fn vec_finding(hir: Hir, call: VecMacro) -> DiagnosticView {
    let children = call.elements@;
    DiagnosticView::with_sugg(
        Lint::FixedChildrenInVec,
        call.span,
        "a fixed set of children as `vec!`"@,
        "use a tuple for a fixed set of children"@,
        tuple_of(manual_edge_insets::operand_texts(hir, children)),
        if commented(call.text) {
            Applicability::Unspecified
        } else {
            manual_edge_insets::after_operands(
                hir,
                children,
                children.len() as int,
                Applicability::MachineApplicable,
            )
        },
    )
}

/// What is said of a stack constructor call.
pub open spec fn contents_finding(hir: Hir, n: usize) -> Option<DiagnosticView> {
    let args = hir.operands(n);
    if hir.node(n).span.expanded() || !(hir.kind(n) is Call) || !hir.calls(n, stack_ctors())
        || args.len() == 0 {
        None
    } else {
        match hir.node(args.last()).vec_macro {
            Some(call) => Some(vec_finding(hir, call)),
            None => None,
        }
    }
}

/// Flags a stack-constructor call whose contents argument is a literal
/// `vec![a, b, c]`, and suggests the tuple.
pub fn check_stack_contents(hir: &Hir, n: usize) -> (r: Option<Diagnostic>)
    requires
        hir.wf(),
        hir.has(n),
    ensures
        diagnostics::found(r) == contents_finding(*hir, n),
{
    if hir.nodes[n].span.from_expansion() {
        return None;
    }
    match &hir.nodes[n].kind {
        Kind::Call { .. } => {},
        _ => {
            return None;
        },
    }
    let ctors = [
        Known::VstackFn,
        Known::HstackFn,
        Known::ZstackFn,
        Known::VstackNew,
        Known::HstackNew,
        Known::ZstackNew,
    ];
    proof {
        assert(ctors@ =~= stack_ctors());
    }
    if !hir.is_call_to(n, &ctors) {
        return None;
    }
    let args: Vec<usize> = hir.call_args(n);
    if args.len() == 0 {
        return None;
    }
    let contents: usize = args[args.len() - 1];
    proof {
        assert(hir.node_wf(contents));
    }
    match &hir.nodes[contents].vec_macro {
        Some(call) => {
            let (children, left) = manual_edge_insets::read_operands(
                hir,
                &call.elements,
                Applicability::MachineApplicable,
            );
            let code: String = tuple_text(&children);
            Some(
                Diagnostic::with_sugg(
                    Lint::FixedChildrenInVec,
                    call.span,
                    "a fixed set of children as `vec!`",
                    "use a tuple for a fixed set of children",
                    code,
                    if has_comment(&call.text) {
                        Applicability::Unspecified
                    } else {
                        left
                    },
                ),
            )
        },
        None => None,
    }
}

/// The one thing that a loop body does.
pub open spec fn sole_effect(hir: Hir, n: usize) -> Option<usize>
    decreases n,
{
    match hir.kind(n) {
        Kind::DropTemps { inner } => if inner < n {
            sole_effect(hir, inner)
        } else {
            None
        },
        Kind::BlockExpr { block } => match manual_binding_mutation::sole_expr(hir, block) {
            Some(expr) => if expr < n {
                sole_effect(hir, expr)
            } else {
                None
            },
            None => None,
        },
        _ => Some(n),
    }
}

/// The expression of a single-expression block: `{ e }`, `{ e; }`, nested
/// single-expression blocks, drop-temps peeled. Nothing for any other shape: a
/// two-statement body is more than one effect.
pub fn sole_expr(hir: &Hir, n: usize) -> (r: Option<usize>)
    requires
        hir.wf(),
        hir.has(n),
    ensures
        r == sole_effect(*hir, n),
        r matches Some(e) ==> e <= n,
    decreases n,
{
    proof {
        assert(hir.node_wf(n));
    }
    match &hir.nodes[n].kind {
        Kind::DropTemps { inner } => sole_expr(hir, *inner),
        Kind::BlockExpr { block } => {
            proof {
                assert(hir.node_wf(*block));
            }
            match &hir.nodes[*block].kind {
                Kind::Block { stmts, tail: Some(tail) } => if stmts.len() == 0 {
                    sole_expr(hir, *tail)
                } else {
                    None
                },
                Kind::Block { stmts, tail: None } => {
                    if stmts.len() != 1 {
                        return None;
                    }
                    proof {
                        assert(hir.node_wf(stmts@[0]));
                    }
                    match &hir.nodes[stmts[0]].kind {
                        Kind::ExprStmt { expr } | Kind::Semi { expr } => sole_expr(hir, *expr),
                        _ => None,
                    }
                },
                _ => None,
            }
        },
        _ => Some(n),
    }
}

/// The expression without references and drop-temps.
pub open spec fn bared(hir: Hir, n: usize) -> usize
    decreases n,
{
    match hir.kind(n) {
        Kind::AddrOf { mutable: _, raw: _, operand } => if operand < n {
            bared(hir, operand)
        } else {
            n
        },
        Kind::DropTemps { inner } => if inner < n {
            bared(hir, inner)
        } else {
            n
        },
        _ => n,
    }
}

fn bare(hir: &Hir, n: usize) -> (r: usize)
    requires
        hir.wf(),
        hir.has(n),
    ensures
        r == bared(*hir, n),
        r <= n,
    decreases n,
{
    proof {
        assert(hir.node_wf(n));
    }
    match &hir.nodes[n].kind {
        Kind::AddrOf { operand, .. } => bare(hir, *operand),
        Kind::DropTemps { inner } => bare(hir, *inner),
        _ => n,
    }
}

/// The expression is a local sequence or an iterator over one.
pub open spec fn over_local(hir: Hir, n: usize) -> bool {
    let head = bared(hir, n);
    hir.local(head) is Some || match hir.kind(head) {
        Kind::MethodCall { name, receiver, args: _ } => (name.name@ == "iter"@ || name.name@
            == "iter_mut"@ || name.name@ == "into_iter"@) && hir.local(
            bared(hir, receiver),
        ) is Some,
        _ => false,
    }
}

/// Whether the expression, references and drop-temps peeled, is a local or an
/// `iter()`, `iter_mut()` or `into_iter()` on one: an in-memory sequence the loop
/// could equally well have moved into `ReactiveList::from`.
pub fn iterates_local(hir: &Hir, n: usize) -> (r: bool)
    requires
        hir.wf(),
        hir.has(n),
    ensures
        r == over_local(*hir, n),
{
    let head: usize = bare(hir, n);
    if hir.res_local(head).is_some() {
        return true;
    }
    proof {
        assert(hir.node_wf(head));
    }
    match &hir.nodes[head].kind {
        Kind::MethodCall { name, receiver, .. } => (text::str_eq(name.name.as_str(), "iter")
            || text::str_eq(name.name.as_str(), "iter_mut") || text::str_eq(
            name.name.as_str(),
            "into_iter",
        )) && hir.res_local(bare(hir, *receiver)).is_some(),
        _ => false,
    }
}

/// The list that a loop body pushes to.
pub open spec fn pushed_to(hir: Hir, body: usize) -> Option<usize> {
    match sole_effect(hir, body) {
        Some(push) => match hir.kind(push) {
            Kind::MethodCall { name: _, receiver, args } => if args@.len() == 1
                && hir.calls_item(push, Known::ListPush) {
                hir.local(receiver)
            } else {
                None
            },
            _ => None,
        },
        None => None,
    }
}

fn push_target(hir: &Hir, body: usize) -> (r: Option<usize>)
    requires
        hir.wf(),
        hir.has(body),
    ensures
        r == pushed_to(*hir, body),
{
    let push: usize = match sole_expr(hir, body) {
        Some(push) => push,
        None => {
            return None;
        },
    };
    proof {
        assert(hir.node_wf(push));
    }
    match &hir.nodes[push].kind {
        Kind::MethodCall { receiver, args, .. } => if args.len() == 1 && hir.is_call_of(
            push,
            Known::ListPush,
        ) {
            hir.res_local(*receiver)
        } else {
            None
        },
        _ => None,
    }
}

/// Where the local was created as an empty list: the last of the first `n` seeds
/// that is it.
pub open spec fn seed_of(seeds: Seq<(usize, Span)>, local: usize, n: int) -> Option<Span>
    decreases n,
{
    if n <= 0 {
        None
    } else if seeds[n - 1].0 == local {
        Some(seeds[n - 1].1)
    } else {
        seed_of(seeds, local, n - 1)
    }
}

fn find_seed(seeds: &Vec<(usize, Span)>, local: usize) -> (r: Option<Span>)
    ensures
        r == seed_of(seeds@, local, seeds@.len() as int),
{
    let mut i: usize = seeds.len();
    while i > 0
        invariant
            i <= seeds.len(),
            seed_of(seeds@, local, seeds@.len() as int) == seed_of(seeds@, local, i as int),
        decreases i,
    {
        if seeds[i - 1].0 == local {
            return Some(seeds[i - 1].1);
        }
        i = i - 1;
    }
    None
}

/// What is said of a loop that seeds a list created at `span`.
pub open spec fn seed_report(head: ForLoop, span: Span) -> DiagnosticView {
    DiagnosticView::bare(
        Lint::PushLoopSeed,
        head.span,
        "a `ReactiveList` seeded by a push loop"@,
    ).with(
        RemarkView::Label(span, "the `ReactiveList` is created empty here"@),
    ).with(
        RemarkView::Help(
            "`ReactiveList::from(vec)` seeds in one move; map first, then convert: `ReactiveList::from(items.into_iter().map(f).collect::<Vec<_>>())`"@,
        ),
    )
}

/// What is said of an expression in statement position.
pub open spec fn seed_finding(hir: Hir, n: usize, seeds: Seq<(usize, Span)>) -> Option<
    DiagnosticView,
> {
    match hir.node(n).for_loop {
        Some(head) => match pushed_to(hir, head.body) {
            Some(local) => match seed_of(seeds, local, seeds.len() as int) {
                Some(span) => if !head.span.expanded() && over_local(hir, head.arg) {
                    Some(seed_report(head, span))
                } else {
                    None
                },
                None => None,
            },
            None => None,
        },
        None => None,
    }
}

/// Flags a statement-position `for` loop whose body is a single `list.push(..)`
/// on a local that an earlier `let` of the `seeds` created with
/// `ReactiveList::new()` and whose head iterates a local sequence.
pub fn check_seed_loop(hir: &Hir, n: usize, seeds: &Vec<(usize, Span)>) -> (r: Option<Diagnostic>)
    requires
        hir.wf(),
        hir.has(n),
    ensures
        diagnostics::found(r) == seed_finding(*hir, n, seeds@),
{
    let head: ForLoop = match hir.nodes[n].for_loop {
        Some(head) => head,
        None => {
            return None;
        },
    };
    proof {
        assert(hir.node_wf(n));
    }
    if head.span.from_expansion() {
        return None;
    }
    let local: usize = match push_target(hir, head.body) {
        Some(local) => local,
        None => {
            return None;
        },
    };
    let span: Span = match find_seed(seeds, local) {
        Some(span) => span,
        None => {
            return None;
        },
    };
    if !iterates_local(hir, head.arg) {
        return None;
    }
    let mut found: Diagnostic = Diagnostic::bare(
        Lint::PushLoopSeed,
        head.span,
        "a `ReactiveList` seeded by a push loop",
    );
    found.span_label(span, "the `ReactiveList` is created empty here".to_owned());
    found.help(
        "`ReactiveList::from(vec)` seeds in one move; map first, then convert: `ReactiveList::from(items.into_iter().map(f).collect::<Vec<_>>())`".to_owned(),
    );
    Some(found)
}

/// The bindings, each created at `span`.
pub open spec fn seeds_at(ids: Seq<usize>, span: Span) -> Seq<(usize, Span)> {
    ids.map_values(|id: usize| (id, span))
}

/// The seeds that a statement adds.
pub open spec fn seeds_in(hir: Hir, stmt: usize) -> Seq<(usize, Span)> {
    match hir.kind(stmt) {
        Kind::LetDecl { local } => match hir.kind(local) {
            Kind::LetStmt { pat, ty: _, init: Some(init), els: _ } => if hir.calls_item(
                init,
                Known::ListNew,
            ) {
                seeds_at(signal_map::binding_ids(hir, pat), hir.node(local).span)
            } else {
                seq![]
            },
            _ => seq![],
        },
        _ => seq![],
    }
}

/// The seeds of the first `n` statements.
pub open spec fn seeds_upto(hir: Hir, stmts: Seq<usize>, n: int) -> Seq<(usize, Span)>
    decreases n,
{
    if n <= 0 {
        seq![]
    } else {
        seeds_upto(hir, stmts, n - 1) + seeds_in(hir, stmts[n - 1])
    }
}

/// What is said of a statement.
pub open spec fn stmt_finding(hir: Hir, stmt: usize, seeds: Seq<(usize, Span)>) -> Option<
    DiagnosticView,
> {
    match hir.kind(stmt) {
        Kind::ExprStmt { expr } => seed_finding(hir, expr, seeds),
        Kind::Semi { expr } => seed_finding(hir, expr, seeds),
        _ => None,
    }
}

/// What is said of the first `n` statements.
pub open spec fn stmt_findings(hir: Hir, stmts: Seq<usize>, n: int) -> Seq<DiagnosticView>
    decreases n,
{
    if n <= 0 {
        seq![]
    } else {
        stmt_findings(hir, stmts, n - 1) + diagnostics::found_seq(
            stmt_finding(hir, stmts[n - 1], seeds_upto(hir, stmts, n - 1)),
        )
    }
}

/// What is said of a block.
pub open spec fn block_findings(hir: Hir, n: usize) -> Seq<DiagnosticView> {
    match hir.kind(n) {
        Kind::Block { stmts, tail } => if hir.node(n).span.expanded() {
            seq![]
        } else {
            let all = stmts@.len() as int;
            stmt_findings(hir, stmts@, all) + (match tail {
                Some(tail) => diagnostics::found_seq(
                    seed_finding(hir, tail, seeds_upto(hir, stmts@, all)),
                ),
                None => seq![],
            })
        },
        _ => seq![],
    }
}

fn push_seeds(hir: &Hir, stmt: usize, seeds: &mut Vec<(usize, Span)>)
    requires
        hir.wf(),
        hir.has(stmt),
    ensures
        final(seeds)@ == old(seeds)@ + seeds_in(*hir, stmt),
{
    let ghost before = seeds@;
    proof {
        assert(hir.node_wf(stmt));
        assert(before =~= before + seq![]);
    }
    if let Kind::LetDecl { local } = &hir.nodes[stmt].kind {
        proof {
            assert(hir.node_wf(*local));
        }
        if let Kind::LetStmt { pat, init: Some(init), .. } = &hir.nodes[*local].kind {
            if hir.is_call_of(*init, Known::ListNew) {
                let ids: Vec<usize> = signal_map::pat_bindings(hir, *pat);
                let span: Span = hir.nodes[*local].span;
                let mut i: usize = 0;
                proof {
                    assert(before =~= before + seeds_at(ids@.take(0), span));
                }
                while i < ids.len()
                    invariant
                        i <= ids.len(),
                        seeds@ == before + seeds_at(ids@.take(i as int), span),
                    decreases ids.len() - i,
                {
                    let ghost prior = seeds@;
                    seeds.push((ids[i], span));
                    proof {
                        assert(seeds_at(ids@.take(i + 1), span) =~= seeds_at(
                            ids@.take(i as int),
                            span,
                        ).push((ids@[i as int], span)));
                        assert(seeds@ =~= before + seeds_at(ids@.take(i + 1), span));
                    }
                    i = i + 1;
                }
                proof {
                    assert(ids@.take(ids@.len() as int) =~= ids@);
                }
            }
        }
    }
}

fn check_stmt(hir: &Hir, stmt: usize, seeds: &Vec<(usize, Span)>) -> (r: Option<Diagnostic>)
    requires
        hir.wf(),
        hir.has(stmt),
    ensures
        diagnostics::found(r) == stmt_finding(*hir, stmt, seeds@),
{
    proof {
        assert(hir.node_wf(stmt));
    }
    match &hir.nodes[stmt].kind {
        Kind::ExprStmt { expr } | Kind::Semi { expr } => check_seed_loop(hir, *expr, seeds),
        _ => None,
    }
}

/// Flags the loops of a block that seed a list which an earlier `let` of the block
/// created empty.
pub fn check_block(hir: &Hir, n: usize) -> (r: Vec<Diagnostic>)
    requires
        hir.wf(),
        hir.has(n),
    ensures
        diagnostics::found_all(r@) == block_findings(*hir, n),
{
    let mut out: Vec<Diagnostic> = Vec::new();
    proof {
        assert(hir.node_wf(n));
        assert(diagnostics::found_all(out@) =~= seq![]);
    }
    if hir.nodes[n].span.from_expansion() {
        return out;
    }
    let (stmts, tail): (&Vec<usize>, Option<usize>) = match &hir.nodes[n].kind {
        Kind::Block { stmts, tail } => (stmts, *tail),
        _ => {
            return out;
        },
    };
    let mut seeds: Vec<(usize, Span)> = Vec::new();
    let mut i: usize = 0;
    proof {
        assert(seeds@ =~= seq![]);
    }
    while i < stmts.len()
        invariant
            i <= stmts.len(),
            hir.wf(),
            hir::all_below(stmts@, hir.nodes@.len() as int),
            seeds@ == seeds_upto(*hir, stmts@, i as int),
            diagnostics::found_all(out@) == stmt_findings(*hir, stmts@, i as int),
        decreases stmts.len() - i,
    {
        let finding: Option<Diagnostic> = check_stmt(hir, stmts[i], &seeds);
        diagnostics::push_found(&mut out, finding);
        push_seeds(hir, stmts[i], &mut seeds);
        i = i + 1;
    }
    let ghost before = diagnostics::found_all(out@);
    proof {
        assert(before =~= before + seq![]);
    }
    if let Some(tail) = tail {
        let finding: Option<Diagnostic> = check_seed_loop(hir, tail, &seeds);
        diagnostics::push_found(&mut out, finding);
    }
    out
}

/// The tuple has the children of the `vec!` as its elements, in order: none makes
/// the unit, one keeps the comma that makes it a tuple, and each further one
/// stands behind a comma at the end.
pub proof fn tuples_keep_the_children(children: Seq<Seq<char>>, child: Seq<char>)
    ensures
        tuple_of(seq![]) == "()"@,
        tuple_of(seq![child]) == "("@ + child + ",)"@,
        children.len() == 1 ==> tuple_of(children.push(child)) == "("@ + children[0] + ", "@ + child
            + ")"@,
        children.len() >= 2 ==> tuple_of(children).len() > 0 && tuple_of(children.push(child))
            == tuple_of(children).drop_last() + ", "@ + child + ")"@,
{
    reveal_strlit("(");
    reveal_strlit(")");
    let all = children.push(child);
    assert(all.drop_last() =~= children);
    if children.len() == 1 {
        reveal_with_fuel(text::joined, 2);
        assert("("@ + (children[0] + ", "@ + child) + ")"@ =~= "("@ + children[0] + ", "@ + child
            + ")"@);
    } else if children.len() >= 2 {
        let list = text::joined(children, ", "@);
        assert(("("@ + list + ")"@).drop_last() =~= "("@ + list);
        assert("("@ + (list + ", "@ + child) + ")"@ =~= "("@ + list + ", "@ + child + ")"@);
    }
}

proof fn lemma_seed_of(seeds: Seq<(usize, Span)>, local: usize, n: int)
    requires
        0 <= n <= seeds.len(),
    ensures
        match seed_of(seeds, local, n) {
            Some(span) => exists|k: int|
                {
                    &&& 0 <= k < n
                    &&& #[trigger] seeds[k] == (local, span)
                    &&& forall|j: int| k < j < n ==> (#[trigger] seeds[j]).0 != local
                },
            None => forall|k: int| 0 <= k < n ==> (#[trigger] seeds[k]).0 != local,
        },
    decreases n,
{
    if n > 0 {
        lemma_seed_of(seeds, local, n - 1);
        if seeds[n - 1].0 == local {
            assert(seeds[n - 1] == (local, seeds[n - 1].1));
        }
    }
}

/// A loop is reported where all it does is push onto a list that an earlier `let`
/// of the block made empty, and the report points at the latest such `let`.
pub proof fn push_loops_point_at_their_list(
    hir: Hir,
    n: usize,
    seeds: Seq<(usize, Span)>,
    local: usize,
)
    requires
        hir.node(n).for_loop matches Some(head) && pushed_to(hir, head.body) == Some(local)
            && over_local(hir, head.arg) && !head.span.expanded(),
    ensures
        match seed_finding(hir, n, seeds) {
            Some(finding) => {
                &&& hir.node(n).for_loop matches Some(head)
                &&& finding.span == head.span
                &&& finding.remarks[0] matches RemarkView::Label(span, _)
                &&& exists|k: int|
                    {
                        &&& 0 <= k < seeds.len()
                        &&& #[trigger] seeds[k] == (local, span)
                        &&& forall|j: int| k < j < seeds.len() ==> (#[trigger] seeds[j]).0 != local
                    }
            },
            None => forall|k: int| 0 <= k < seeds.len() ==> (#[trigger] seeds[k]).0 != local,
        },
{
    lemma_seed_of(seeds, local, seeds.len() as int);
}

/// A `let` that makes an empty list seeds every name that it binds, at its own
/// place; no other statement seeds any.
pub proof fn empty_lists_are_seeds(hir: Hir, stmt: usize, local: usize, pat: usize, init: usize, k: int)
    requires
        hir.kind(stmt) == (Kind::LetDecl { local }),
        hir.kind(local) matches Kind::LetStmt { pat: bound, ty: _, init: Some(value), els: _ }
            && bound == pat && value == init,
    ensures
        hir.calls_item(init, Known::ListNew) && 0 <= k < signal_map::binding_ids(hir, pat).len()
            ==> seeds_in(hir, stmt).contains(
            (signal_map::binding_ids(hir, pat)[k], hir.node(local).span),
        ),
        !hir.calls_item(init, Known::ListNew) ==> seeds_in(hir, stmt).len() == 0,
{
    if hir.calls_item(init, Known::ListNew) && 0 <= k < signal_map::binding_ids(hir, pat).len() {
        assert(seeds_in(hir, stmt)[k] == (
            signal_map::binding_ids(hir, pat)[k],
            hir.node(local).span,
        ));
    }
}

proof fn lemma_seeds_upto(hir: Hir, stmts: Seq<usize>, n: int, i: int, seed: (usize, Span))
    requires
        0 <= i < n <= stmts.len(),
        seeds_in(hir, stmts[i]).contains(seed),
    ensures
        seeds_upto(hir, stmts, n).contains(seed),
    decreases n,
{
    let before = seeds_upto(hir, stmts, n - 1);
    let here = seeds_in(hir, stmts[n - 1]);
    if i < n - 1 {
        lemma_seeds_upto(hir, stmts, n - 1, i, seed);
        let k = choose|k: int| 0 <= k < before.len() && before[k] == seed;
        assert((before + here)[k] == seed);
    } else {
        let k = choose|k: int| 0 <= k < here.len() && here[k] == seed;
        assert((before + here)[before.len() + k] == seed);
    }
}

proof fn lemma_stmt_findings(hir: Hir, stmts: Seq<usize>, n: int, j: int)
    requires
        0 <= j < n <= stmts.len(),
    ensures
        stmt_finding(hir, stmts[j], seeds_upto(hir, stmts, j)) matches Some(found)
            ==> stmt_findings(hir, stmts, n).contains(found),
    decreases n,
{
    if let Some(found) = stmt_finding(hir, stmts[j], seeds_upto(hir, stmts, j)) {
        let before = stmt_findings(hir, stmts, n - 1);
        let here = diagnostics::found_seq(
            stmt_finding(hir, stmts[n - 1], seeds_upto(hir, stmts, n - 1)),
        );
        if j < n - 1 {
            lemma_stmt_findings(hir, stmts, n - 1, j);
            let k = choose|k: int| 0 <= k < before.len() && before[k] == found;
            assert((before + here)[k] == found);
        } else {
            assert(here[0] == found);
            assert((before + here)[before.len() as int] == found);
        }
    }
}

proof fn lemma_seed_found(seeds: Seq<(usize, Span)>, local: usize, n: int, k: int)
    requires
        0 <= k < n <= seeds.len(),
        seeds[k].0 == local,
    ensures
        seed_of(seeds, local, n) is Some,
    decreases n,
{
    if seeds[n - 1].0 != local {
        lemma_seed_found(seeds, local, n - 1, k);
    }
}

/// A loop that pushes onto a list which an earlier statement of the block made
/// empty is reported, at the loop.
pub proof fn later_push_loops_are_reported(
    hir: Hir,
    block: usize,
    stmts: Vec<usize>,
    tail: Option<usize>,
    i: int,
    j: int,
    expr: usize,
    local: usize,
    made: Span,
    head: ForLoop,
)
    requires
        hir.kind(block) == (Kind::Block { stmts, tail }),
        !hir.node(block).span.expanded(),
        0 <= i < j < stmts@.len(),
        seeds_in(hir, stmts@[i]).contains((local, made)),
        hir.kind(stmts@[j]) == (Kind::Semi { expr }) || hir.kind(stmts@[j]) == (Kind::ExprStmt {
            expr,
        }),
        hir.node(expr).for_loop == Some(head),
        !head.span.expanded(),
        pushed_to(hir, head.body) == Some(local),
        over_local(hir, head.arg),
    ensures
        exists|k: int|
            0 <= k < block_findings(hir, block).len() && (#[trigger] block_findings(
                hir,
                block,
            )[k]).span == head.span && block_findings(hir, block)[k].lint == Lint::PushLoopSeed,
{
    let seeds = seeds_upto(hir, stmts@, j);
    lemma_seeds_upto(hir, stmts@, j, i, (local, made));
    let s = choose|s: int| 0 <= s < seeds.len() && seeds[s] == (local, made);
    lemma_seed_found(seeds, local, seeds.len() as int, s);
    let all = stmts@.len() as int;
    lemma_stmt_findings(hir, stmts@, all, j);
    let found = stmt_finding(hir, stmts@[j], seeds)->0;
    let front = stmt_findings(hir, stmts@, all);
    let k = choose|k: int| 0 <= k < front.len() && front[k] == found;
    assert(block_findings(hir, block)[k] == found);
}

} // verus!
