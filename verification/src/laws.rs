//! What the expression lints have in common.

use vstd::prelude::*;

verus! {

/// No lint of views speaks of an expression that a macro wrote: there is no source
/// of the author's to change.
pub proof fn view_lints_leave_macro_output_alone(
    hir: crate::hir::Hir,
    module: crate::imports::Module,
    item: Option<usize>,
    seen: Seq<usize>,
    n: usize,
)
    requires
        hir.node(n).span.expanded(),
    ensures
        crate::anyview_new_in_free_fn::finding_at(hir, module, item, n) is None,
        crate::fixed_children_in_vec::contents_finding(hir, n) is None,
        crate::hardcoded_theme_value::finding_at(hir, n) is None,
        crate::if_else_view::finding_at(hir, module, item, seen, n) is None,
        crate::image_without_label::finding_at(hir, n) is None,
        crate::list_in_scroll::finding_at(hir, n) is None,
        crate::manual_muted_foreground::finding_at(hir, n) is None,
        crate::needless_anyview::findings(hir, n).len() == 0,
{
}

/// No lint of colors and insets speaks of an expression that a macro wrote.
pub proof fn color_lints_leave_macro_output_alone(
    hir: crate::hir::Hir,
    module: crate::imports::Module,
    defs: Option<crate::color::Defs>,
    seen: Seq<usize>,
    pointer_bits: u64,
    n: usize,
)
    requires
        hir.node(n).span.expanded(),
    ensures
        crate::literal_color_components::call_flag(hir, defs, n, pointer_bits) is None,
        crate::manual_color_erasure::expr_steps(hir, module, defs, n, seen) == (
            Seq::<crate::diagnostics::DiagnosticView>::empty(),
            seen,
        ),
        crate::manual_edge_insets::findings(hir, n).len() == 0,
{
}

/// No lint of signals speaks of an expression that a macro wrote.
pub proof fn signal_lints_leave_macro_output_alone(
    hir: crate::hir::Hir,
    module: crate::imports::Module,
    item: Option<usize>,
    n: usize,
)
    requires
        hir.node(n).span.expanded(),
    ensures
        crate::manual_computed::finding_at(hir, n) is None,
        crate::manual_signal_combinator::finding_at(hir, n) is None,
        crate::manual_signal_zip_op::finding_at(hir, n) is None,
        crate::manual_string_signal::finding_at(hir, item, n) is None,
        crate::manual_text_map::finding_at(hir, module, item, n) is None,
        crate::needless_computed::finding_at(hir, n) is None,
        crate::needless_signal_cast::finding_at(hir, n) is None,
{
}

/// No lint of bindings, lists and items speaks of an expression that a macro wrote.
pub proof fn state_lints_leave_macro_output_alone(
    hir: crate::hir::Hir,
    module: crate::imports::Module,
    krate: crate::manual_identifiable::Crate,
    nameable: crate::binding::Nameable,
    option: Option<usize>,
    patterns: crate::blocking_in_ui_context::Patterns,
    seen: Seq<usize>,
    n: usize,
)
    requires
        hir.node(n).span.expanded(),
    ensures
        crate::blocking_in_ui_context::finding_at(hir, patterns, seen, n) is None,
        crate::collection_item_snapshot::findings(hir, n).len() == 0,
        crate::default_binding_constructor::finding_at(hir, module, nameable, option, n) is None,
        crate::manual_binding_mutation::finding_at(hir, n) is None,
        crate::manual_identifiable::expr_finding(hir, krate, n) is None,
        crate::manual_list_mutation::finding_at(hir, n) is None,
{
}

} // verus!
