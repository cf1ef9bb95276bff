//! Which signal a placeholder of a rewritten template names: the laws that
//! formatting signals directly shows what the mapped closure formatted.

use crate::diagnostics::{Applicability, DiagnosticView, RemarkView};
use crate::format_args;
use crate::format_args::{ArgKind, FormatArg, FormatArgs, FormatPiece};
use crate::hir::{BinOp, Hir, Kind, Lit, Want};
use crate::imports::Module;
use crate::known::Known;
use crate::manual_string_signal;
use crate::manual_text_map;
use crate::manual_text_map::ArgClass;
use crate::signal_map;
use crate::signal_map::{ParamsView, SlotView};
use crate::template;
use vstd::prelude::*;

verus! {

proof fn lemma_unwrapped_is_no_later(hir: Hir, n: usize)
    ensures
        hir.unwrapped(n) <= n,
    decreases n,
{
    match (hir.kind(n), hir.first_operand(n)) {
        (Kind::AddrOf { mutable: _, raw: _, operand }, _) => {
            if operand < n {
                lemma_unwrapped_is_no_later(hir, operand);
            }
        },
        (Kind::DropTemps { inner }, _) => {
            if inner < n {
                lemma_unwrapped_is_no_later(hir, inner);
            }
        },
        (_, Some(first)) => {
            if first < n {
                lemma_unwrapped_is_no_later(hir, first);
            }
        },
        _ => {},
    }
}

/// The sources of several signals, one after the other.
pub open spec fn sources_in_turn(hir: Hir, list: Seq<usize>) -> Seq<usize>
    decreases list.len(),
{
    if list.len() == 0 {
        seq![]
    } else {
        sources_in_turn(hir, list.drop_last()) + signal_map::signal_sources(hir, list.last())
    }
}

proof fn lemma_sources_in_turn(hir: Hir, list: Seq<usize>, bound: int)
    requires
        forall|i: int| 0 <= i < list.len() ==> #[trigger] list[i] < bound,
    ensures
        signal_map::sources_of(hir, list, bound) == sources_in_turn(hir, list),
    decreases list.len(),
{
    if list.len() > 0 {
        let last = list.last();
        lemma_sources_in_turn(hir, list.drop_last(), bound);
        lemma_unwrapped_is_no_later(hir, last);
        assert(list[list.len() - 1] == last);
        reveal_with_fuel(signal_map::sources_of, 3);
        assert(seq![last].drop_last() =~= seq![]);
        assert(signal_map::signal_sources(hir, last) =~= signal_map::sources_of(
            hir,
            list,
            bound,
        ).skip(signal_map::sources_of(hir, list.drop_last(), bound).len() as int));
        assert(signal_map::sources_of(hir, list, bound) =~= signal_map::sources_of(
            hir,
            list.drop_last(),
            bound,
        ) + signal_map::signal_sources(hir, last));
    }
}

/// The sources of `a.zip(&b)` are those of `a` and then those of `b`; a signal
/// that is no zip is its own one source.
pub proof fn zipped_sources_stand_in_turn(hir: Hir, n: usize)
    ensures
        ({
            let zip = hir.unwrapped(n);
            let sources = signal_map::signal_sources(hir, n);
            &&& hir.calls(zip, seq![Known::SignalZip, Known::FreeZip]) && (forall|i: int|
                0 <= i < hir.operands(zip).len() ==> #[trigger] hir.operands(zip)[i] < zip)
                ==> sources == sources_in_turn(hir, hir.operands(zip))
            &&& !hir.calls(zip, seq![Known::SignalZip, Known::FreeZip]) ==> sources == seq![zip]
        }),
{
    let zip = hir.unwrapped(n);
    lemma_unwrapped_is_no_later(hir, n);
    reveal_with_fuel(signal_map::sources_of, 2);
    assert(seq![n].drop_last() =~= seq![]);
    assert(signal_map::zip_fns() =~= seq![Known::SignalZip, Known::FreeZip]);
    if hir.calls(zip, signal_map::zip_fns()) {
        let inner = signal_map::sources_of(hir, hir.operands(zip), zip as int);
        if forall|i: int| 0 <= i < hir.operands(zip).len() ==> #[trigger] hir.operands(zip)[i] < zip {
            lemma_sources_in_turn(hir, hir.operands(zip), zip as int);
        }
        assert(Seq::<usize>::empty() + inner =~= inner);
    } else {
        assert(signal_map::signal_sources(hir, n) =~= seq![zip]);
    }
}

/// The positions of several patterns, one after the other.
pub open spec fn slots_in_turn(hir: Hir, list: Seq<usize>) -> Seq<SlotView>
    decreases list.len(),
{
    if list.len() == 0 {
        seq![]
    } else {
        slots_in_turn(hir, list.drop_last()) + signal_map::pattern_slots(hir, list.last())
    }
}

proof fn lemma_slots_in_turn(hir: Hir, list: Seq<usize>, bound: int)
    requires
        forall|i: int| 0 <= i < list.len() ==> #[trigger] list[i] < bound,
    ensures
        signal_map::slots_of(hir, list, bound) == slots_in_turn(hir, list),
    decreases list.len(),
{
    if list.len() > 0 {
        let last = list.last();
        lemma_slots_in_turn(hir, list.drop_last(), bound);
        assert(list[list.len() - 1] == last);
        reveal_with_fuel(signal_map::slots_of, 3);
        assert(seq![last].drop_last() =~= seq![]);
        assert(signal_map::slots_of(hir, list, bound) =~= signal_map::slots_of(
            hir,
            list.drop_last(),
            bound,
        ) + signal_map::pattern_slots(hir, last));
    }
}

/// The positions of `(x, y)` are those of `x` and then those of `y`; a name is
/// one position, which it binds.
pub proof fn bound_positions_stand_in_turn(hir: Hir, pat: usize)
    ensures
        hir.kind(pat) matches Kind::TuplePat { parts } ==> ((forall|i: int|
            0 <= i < parts@.len() ==> #[trigger] parts@[i] < pat) ==> signal_map::pattern_slots(
            hir,
            pat,
        ) == slots_in_turn(hir, parts@)),
        hir.kind(pat) matches Kind::Binding { name, id, sub } ==> signal_map::pattern_slots(hir, pat)
            == seq![
            SlotView {
                id: Some(id),
                name: if name.usable {
                    Some(name.name@)
                } else {
                    None
                },
            },
        ],
{
    reveal_with_fuel(signal_map::slots_of, 2);
    assert(seq![pat].drop_last() =~= seq![]);
    match hir.kind(pat) {
        Kind::TuplePat { parts } => {
            if forall|i: int| 0 <= i < parts@.len() ==> #[trigger] parts@[i] < pat {
                lemma_slots_in_turn(hir, parts@, pat as int);
                let inner = signal_map::slots_of(hir, parts@, pat as int);
                assert(Seq::<SlotView>::empty() + inner =~= inner);
            }
        },
        Kind::Binding { name, id, sub } => {
            assert(signal_map::pattern_slots(hir, pat) =~= seq![signal_map::slot_at(hir, pat)]);
        },
        _ => {},
    }
}

/// The `i`th position of the parameter pattern, and no other, binds `x`, and the
/// pattern has a position for each of the sources.
pub open spec fn binds_source(params: ParamsView, sources: Seq<usize>, x: usize, i: int) -> bool {
    &&& params.whole
    &&& params.slots.len() == sources.len()
    &&& 0 <= i < params.slots.len()
    &&& params.slots[i].id == Some(x)
    &&& forall|k: int| 0 <= k < params.slots.len() && k != i ==> (#[trigger] params.slots[k]).id
        != Some(x)
    &&& params.all.contains(x)
}

proof fn lemma_last_slot(slots: Seq<SlotView>, x: usize, i: int, n: int)
    requires
        0 <= i < n <= slots.len(),
        slots[i].id == Some(x),
        forall|k: int| 0 <= k < slots.len() && k != i ==> (#[trigger] slots[k]).id != Some(x),
    ensures
        signal_map::last_slot(slots, x, n) == Some(i),
    decreases n,
{
    if n - 1 > i {
        lemma_last_slot(slots, x, i, n - 1);
    }
}

/// A bare read of the name that stands for the `i`th source is classified as the
/// parameter of the `i`th source.
pub proof fn bare_reads_name_their_source(
    hir: Hir,
    params: ParamsView,
    sources: Seq<usize>,
    arg: usize,
    x: usize,
    i: int,
)
    requires
        binds_source(params, sources, x, i),
        sources.len() <= usize::MAX,
        hir.local(hir.unwrapped(arg)) == Some(x),
    ensures
        manual_text_map::arg_class(hir, params, arg) == ArgClass::Param(i as usize),
{
    lemma_last_slot(params.slots, x, i, params.slots.len() as int);
}

/// The name stands for the signal: it is the signal's own, or an alias bound to
/// the signal's source text.
pub open spec fn stands_for(hir: Hir, signal: usize, name: Seq<char>, bindings: Seq<Seq<char>>) -> bool {
    match hir.kind(signal) {
        Kind::Path { plain: true, segments, res: _ } if segments@.len() == 1
            && segments@[0].usable => name == segments@[0].name@,
        _ => match hir.node(signal).snippet {
            Some(source) => bindings.contains(name + " = "@ + source@),
            None => false,
        },
    }
}

/// Every resolved slot stands for its source, and so does every name given to an
/// argument.
pub open spec fn names_fit(
    hir: Hir,
    sources: Seq<usize>,
    classes: Seq<ArgClass>,
    namer: manual_text_map::NamerView,
    names: Seq<Seq<char>>,
) -> bool {
    &&& namer.slots.len() == sources.len()
    &&& forall|i: int|
        0 <= i < sources.len() ==> (#[trigger] namer.slots[i] matches Some(name) ==> stands_for(
            hir,
            sources[i],
            name,
            namer.bindings,
        ))
    &&& forall|j: int|
        0 <= j < names.len() ==> match #[trigger] classes[j] {
            ArgClass::Param(i) => stands_for(hir, sources[i as int], names[j], namer.bindings),
            ArgClass::Capture(n) => signal_map::bare_name(hir, n) == Some(names[j]),
            _ => false,
        }
}

proof fn lemma_names_fit(
    hir: Hir,
    sources: Seq<usize>,
    params: ParamsView,
    classes: Seq<ArgClass>,
    n: int,
)
    requires
        0 <= n <= classes.len(),
        forall|j: int|
            0 <= j < classes.len() ==> (#[trigger] classes[j] matches ArgClass::Param(i) ==> i
                < sources.len()),
    ensures
        manual_text_map::slot_names(hir, sources, params, classes, n) matches Some(found)
            ==> found.1.len() == n && names_fit(hir, sources, classes, found.0, found.1),
    decreases n,
{
    if n > 0 {
        lemma_names_fit(hir, sources, params, classes, n - 1);
        if let Some((namer, names)) = manual_text_map::slot_names(
            hir,
            sources,
            params,
            classes,
            n,
        ) {
            let (before, fewer) = manual_text_map::slot_names(
                hir,
                sources,
                params,
                classes,
                n - 1,
            )->0;
            assert forall|name: Seq<char>, signal: usize|
                stands_for(hir, signal, name, before.bindings) implies #[trigger] stands_for(
                hir,
                signal,
                name,
                namer.bindings,
            ) by {
                if let Some(source) = hir.node(signal).snippet {
                    let text = name + " = "@ + source@;
                    if before.bindings.contains(text) {
                        let k = choose|k: int|
                            0 <= k < before.bindings.len() && before.bindings[k] == text;
                        assert(namer.bindings[k] == text);
                    }
                }
            }
            match classes[n - 1] {
                ArgClass::Param(i) => {
                    if namer.bindings.len() > before.bindings.len() {
                        assert(namer.bindings[before.bindings.len() as int]
                            == namer.bindings.last());
                    }
                    assert(stands_for(hir, sources[i as int], names[n - 1], namer.bindings));
                    assert forall|k: int| 0 <= k < sources.len() implies (
                    #[trigger] namer.slots[k] matches Some(name) ==> stands_for(
                        hir,
                        sources[k],
                        name,
                        namer.bindings,
                    )) by {
                        if k != i {
                            assert(namer.slots[k] == before.slots[k]);
                        }
                    }
                },
                _ => {},
            }
            assert forall|j: int| 0 <= j < names.len() implies match #[trigger] classes[j] {
                ArgClass::Param(i) => stands_for(hir, sources[i as int], names[j], namer.bindings),
                ArgClass::Capture(c) => signal_map::bare_name(hir, c) == Some(names[j]),
                _ => false,
            } by {
                if j < n - 1 {
                    assert(names[j] == fewer[j]);
                }
            }
        }
    }
}

proof fn lemma_last_slot_below(slots: Seq<SlotView>, x: usize, n: int)
    requires
        0 <= n <= slots.len(),
    ensures
        signal_map::last_slot(slots, x, n) matches Some(i) ==> 0 <= i < n,
    decreases n,
{
    if n > 0 {
        lemma_last_slot_below(slots, x, n - 1);
    }
}

proof fn lemma_classes_fit(
    hir: Hir,
    sources: Seq<usize>,
    params: ParamsView,
    args: Seq<FormatArg>,
    j: int,
)
    requires
        params.whole ==> params.slots.len() == sources.len(),
        sources.len() <= usize::MAX,
        0 <= j < args.len(),
    ensures
        manual_text_map::arg_classes(hir, params, args)[j] matches ArgClass::Param(i) ==> i
            < sources.len(),
{
    if let Some(n) = args[j].expr {
        if let Some(id) = signal_map::param_read(hir, hir.unwrapped(n), params.all) {
            lemma_last_slot_below(params.slots, id, params.slots.len() as int);
        }
    }
}

proof fn lemma_rebuilt_front(pieces: Seq<FormatPiece>, names: Seq<Seq<char>>, k: int, n: int) -> (rest:
    Seq<char>)
    requires
        0 <= k <= n <= pieces.len(),
        format_args::rebuilt(pieces, names, n) is Text,
    ensures
        format_args::rebuilt(pieces, names, k) is Text,
        format_args::rebuilt(pieces, names, n)->Text_0 == format_args::rebuilt(
            pieces,
            names,
            k,
        )->Text_0 + rest,
    decreases n,
{
    let all = format_args::rebuilt(pieces, names, n)->Text_0;
    if k == n {
        assert(all + seq![] =~= all);
        seq![]
    } else {
        let rest = lemma_rebuilt_front(pieces, names, k, n - 1);
        let before = format_args::rebuilt(pieces, names, n - 1)->Text_0;
        let front = format_args::rebuilt(pieces, names, k)->Text_0;
        let end = all.skip(before.len() as int);
        assert(all =~= before + end);
        assert(all =~= front + (rest + end));
        rest + end
    }
}

/// In the template of `text!` the placeholder that stood for the name of the
/// `i`th source names that source: by its own name, or by an alias that is bound
/// to its source text. The placeholder keeps its format options, and what stands
/// before it is the template of the pieces before it.
pub proof fn placeholders_keep_their_source(
    hir: Hir,
    receiver: usize,
    params: ParamsView,
    args: Seq<FormatArg>,
    pieces: Seq<FormatPiece>,
    j: int,
    x: usize,
    i: int,
    k: int,
) -> (r: (Seq<char>, Seq<char>, Seq<char>))
    requires
        signal_map::signal_sources(hir, receiver).len() <= usize::MAX,
        binds_source(params, signal_map::signal_sources(hir, receiver), x, i),
        0 <= j < args.len() <= usize::MAX,
        args[j].expr matches Some(arg) && hir.local(hir.unwrapped(arg)) == Some(x),
        0 <= k < pieces.len(),
        pieces[k] matches FormatPiece::Placeholder { index, options, trait_ } && index == Some(
            j as usize,
        ),
    ensures
        manual_text_map::render_format(
            hir,
            receiver,
            params,
            args,
            pieces,
        ) matches manual_text_map::RenderView::Text { template, bindings, all_bare } ==> {
            let (before, name, after) = r;
            &&& stands_for(hir, signal_map::signal_sources(hir, receiver)[i], name, bindings)
            &&& pieces[k] matches FormatPiece::Placeholder { index, options, trait_ }
            &&& format_args::options_text(options, trait_) matches Some(written)
            &&& template == before + seq!['{'] + name + written + seq!['}'] + after
        },
{
    let sources = signal_map::signal_sources(hir, receiver);
    let classes = manual_text_map::arg_classes(hir, params, args);
    let arg = args[j].expr->0;
    bare_reads_name_their_source(hir, params, sources, arg, x, i);
    assert(classes[j] == ArgClass::Param(i as usize));
    assert forall|j: int| 0 <= j < classes.len() implies (
    #[trigger] classes[j] matches ArgClass::Param(i) ==> i < sources.len()) by {
        lemma_classes_fit(hir, sources, params, args, j);
    }
    lemma_names_fit(hir, sources, params, classes, classes.len() as int);
    match manual_text_map::render_format(hir, receiver, params, args, pieces) {
        manual_text_map::RenderView::Text { template, bindings, all_bare } => {
            let (namer, names) = manual_text_map::slot_names(
                hir,
                sources,
                params,
                classes,
                classes.len() as int,
            )->0;
            let n = pieces.len() as int;
            let after = lemma_rebuilt_front(pieces, names, k + 1, n);
            let rest = lemma_rebuilt_front(pieces, names, k, n);
            let before = format_args::rebuilt(pieces, names, k)->Text_0;
            (before, names[j], after)
        },
        _ => (seq![], seq![], seq![]),
    }
}

/// Two placeholders that stood for two signals with names of their own keep
/// distinct names.
pub proof fn distinct_signals_keep_distinct_names(
    hir: Hir,
    a: usize,
    b: usize,
    name: Seq<char>,
    other: Seq<char>,
    bindings: Seq<Seq<char>>,
)
    requires
        stands_for(hir, a, name, bindings),
        stands_for(hir, b, other, bindings),
        signal_map::bare_name(hir, a) is Some,
        signal_map::bare_name(hir, b) is Some,
        signal_map::bare_name(hir, a) != signal_map::bare_name(hir, b),
    ensures
        name != other,
        signal_map::bare_name(hir, a) == Some(name),
        signal_map::bare_name(hir, b) == Some(other),
{
}

/// What a binding pattern binds.
pub open spec fn bound_by(hir: Hir, pat: usize) -> Option<usize> {
    match hir.kind(pat) {
        Kind::Binding { name: _, id, sub: _ } => Some(id),
        _ => None,
    }
}

proof fn lemma_single_slots(hir: Hir, list: Seq<usize>, i: int)
    requires
        forall|k: int| 0 <= k < list.len() ==> bound_by(hir, #[trigger] list[k]) is Some,
    ensures
        slots_in_turn(hir, list).len() == list.len(),
        0 <= i < list.len() ==> slots_in_turn(hir, list)[i].id == bound_by(hir, list[i]),
    decreases list.len(),
{
    if list.len() > 0 {
        let rest = list.drop_last();
        assert(forall|k: int| 0 <= k < rest.len() ==> #[trigger] rest[k] == list[k]);
        lemma_single_slots(hir, rest, i);
        assert(bound_by(hir, list[list.len() - 1]) is Some);
        bound_positions_stand_in_turn(hir, list.last());
    }
}

proof fn lemma_single_sources(hir: Hir, list: Seq<usize>, i: int)
    requires
        forall|k: int|
            0 <= k < list.len() ==> !hir.calls(
                hir.unwrapped(#[trigger] list[k]),
                seq![Known::SignalZip, Known::FreeZip],
            ),
    ensures
        sources_in_turn(hir, list).len() == list.len(),
        0 <= i < list.len() ==> sources_in_turn(hir, list)[i] == hir.unwrapped(list[i]),
    decreases list.len(),
{
    if list.len() > 0 {
        let rest = list.drop_last();
        assert(forall|k: int| 0 <= k < rest.len() ==> #[trigger] rest[k] == list[k]);
        lemma_single_sources(hir, rest, i);
        assert(list.last() == list[list.len() - 1]);
        zipped_sources_stand_in_turn(hir, list.last());
    }
}

proof fn lemma_walk_has(hir: Hir, list: Seq<usize>, bound: int, i: int)
    requires
        0 <= i < list.len(),
        list[i] < bound,
        bound_by(hir, list[i]) is Some,
    ensures
        hir.walk(list, bound, true, Want::Bindings).contains(list[i]),
    decreases list.len(),
{
    let all = hir.walk(list, bound, true, Want::Bindings);
    let rest = hir.walk(list.drop_last(), bound, true, Want::Bindings);
    if i < list.len() - 1 {
        assert(list.drop_last()[i] == list[i]);
        lemma_walk_has(hir, list.drop_last(), bound, i);
        let k = choose|k: int| 0 <= k < rest.len() && rest[k] == list[i];
        assert(all[k] == list[i]);
    } else {
        assert(all[rest.len() as int] == list[i]);
    }
}

/// In a map over zipped signals whose closure names each of them in a tuple
/// pattern, the `i`th name binds the `i`th of the signals.
pub proof fn tuple_names_bind_their_signals(hir: Hir, receiver: usize, pat: usize, i: int)
    requires
        ({
            let zip = hir.unwrapped(receiver);
            let signals = hir.operands(zip);
            &&& hir.calls(zip, seq![Known::SignalZip, Known::FreeZip])
            &&& hir.kind(pat) matches Kind::TuplePat { parts }
            &&& 0 <= i < parts@.len() == signals.len()
            &&& forall|k: int|
                0 <= k < signals.len() ==> #[trigger] signals[k] < zip && !hir.calls(
                    hir.unwrapped(signals[k]),
                    seq![Known::SignalZip, Known::FreeZip],
                )
            &&& forall|k: int|
                0 <= k < parts@.len() ==> #[trigger] parts@[k] < pat && bound_by(hir, parts@[k]) is Some
            &&& forall|k: int|
                0 <= k < parts@.len() && k != i ==> bound_by(hir, #[trigger] parts@[k]) != bound_by(
                    hir,
                    parts@[i],
                )
        }),
    ensures
        ({
            let signals = hir.operands(hir.unwrapped(receiver));
            let sources = signal_map::signal_sources(hir, receiver);
            &&& sources.len() == signals.len()
            &&& sources[i] == hir.unwrapped(signals[i])
            &&& hir.kind(pat) matches Kind::TuplePat { parts }
            &&& bound_by(hir, parts@[i]) matches Some(x)
            &&& binds_source(
                signal_map::params_of(hir, pat, sources.len() as int),
                sources,
                x,
                i,
            )
        }),
{
    let zip = hir.unwrapped(receiver);
    let signals = hir.operands(zip);
    let parts = match hir.kind(pat) {
        Kind::TuplePat { parts } => parts@,
        _ => seq![],
    };
    let sources = signal_map::signal_sources(hir, receiver);
    let slots = signal_map::pattern_slots(hir, pat);
    let x = bound_by(hir, parts[i])->0;
    zipped_sources_stand_in_turn(hir, receiver);
    bound_positions_stand_in_turn(hir, pat);
    lemma_single_sources(hir, signals, i);
    lemma_single_slots(hir, parts, i);
    assert forall|k: int| 0 <= k < slots.len() && k != i implies (#[trigger] slots[k]).id != Some(
        x,
    ) by {
        lemma_single_slots(hir, parts, k);
        assert(bound_by(hir, parts[k]) != bound_by(hir, parts[i]));
    }
    reveal_with_fuel(Hir::walk, 2);
    assert(seq![pat].drop_last() =~= seq![]);
    assert(hir.kids(pat, true) =~= parts);
    lemma_walk_has(hir, parts, pat as int, i);
    let all = hir.bindings(pat);
    let below = hir.walk(parts, pat as int, true, Want::Bindings);
    let k = choose|k: int| 0 <= k < below.len() && below[k] == parts[i];
    assert(all =~= below);
    assert(signal_map::binding_ids(hir, pat)[k] == x);
}

/// The slot shows the signal: it captures the signal by the signal's own name, or
/// binds a name to the signal's source text.
pub open spec fn shows(hir: Hir, signal: usize, slot: manual_string_signal::SlotView) -> bool {
    match (hir.kind(signal), slot) {
        (
            Kind::Path { plain: true, segments, res: _ },
            manual_string_signal::SlotView::Capture(name),
        ) => segments@.len() == 1 && segments@[0].usable && name == segments@[0].name@,
        (_, manual_string_signal::SlotView::Bind(_, value)) => hir.source(signal) == Some(value),
        _ => false,
    }
}

/// In `s!` a bare read of the name that stands for the `i`th source shows that
/// source, whatever conversions stand around the read.
pub proof fn string_slots_show_their_source(
    hir: Hir,
    params: ParamsView,
    sources: Seq<usize>,
    arg: usize,
    index: int,
    x: usize,
    i: int,
)
    requires
        binds_source(params, sources, x, i),
        hir.local(manual_string_signal::rendered_value(hir, arg)) == Some(x),
    ensures
        manual_string_signal::slot_of(hir, sources, params, arg, index) matches Some(slot) ==> shows(
            hir,
            sources[i],
            slot,
        ),
        hir.expr_ty(sources[i]).known_clone() && hir.source(sources[i]) is Some
            ==> manual_string_signal::slot_of(hir, sources, params, arg, index) is Some,
{
    lemma_last_slot(params.slots, x, i, params.slots.len() as int);
}

proof fn lemma_one_source(hir: Hir, list: Seq<usize>, params: ParamsView, n: int, k: int, x: usize)
    requires
        0 <= k < n <= list.len(),
        hir.local(list[k]) == Some(x),
        params.all.contains(x),
    ensures
        manual_string_signal::source_read(hir, list, params, n) matches Some(found) ==> found is Some
            && found == params.source_of(x),
    decreases n,
{
    if k < n - 1 {
        lemma_one_source(hir, list, params, n - 1, k, x);
    }
}

/// The binding of a projection in `s!` maps one source alone: every name of the
/// pattern that the projection reads stands for that source, and the closure
/// takes it under the pattern's name for it.
pub proof fn projections_map_their_one_source(
    hir: Hir,
    params: ParamsView,
    sources: Seq<usize>,
    n: usize,
    index: int,
    k: int,
    x: usize,
)
    requires
        signal_map::bare_name(hir, n) is None,
        !hir.node(n).snapshot,
        0 <= k < hir.exprs(n, false).len(),
        hir.local(hir.exprs(n, false)[k]) == Some(x),
        params.all.contains(x),
        signal_map::mentions(hir, n, params.all),
    ensures
        manual_string_signal::other_slot(hir, sources, params, n, index) matches Some(slot) ==> {
            &&& slot matches manual_string_signal::SlotView::Bind(_, value)
            &&& params.source_of(x) matches Some(i)
            &&& params.slots[i].name matches Some(pat)
            &&& hir.source(sources[i]) matches Some(source)
            &&& hir.source(n) matches Some(text)
            &&& value == source + ".map(|"@ + pat + "| "@ + text + ")"@
        },
{
    let list = hir.exprs(n, false);
    lemma_one_source(hir, list, params, list.len() as int, k, x);
}

/// A value that is no signal and no closure parameter is a constant in `s!`; a
/// signal is bound as it is.
pub proof fn other_values_keep_what_they_are(
    hir: Hir,
    params: ParamsView,
    sources: Seq<usize>,
    n: usize,
    index: int,
)
    requires
        !hir.node(n).snapshot,
        !signal_map::mentions(hir, n, params.all),
    ensures
        manual_string_signal::other_slot(hir, sources, params, n, index) matches Some(slot) ==> match slot {
            manual_string_signal::SlotView::Capture(name) => hir.expr_ty(n).known_signal()
                && signal_map::bare_name(hir, n) == Some(name),
            manual_string_signal::SlotView::Bind(name, value) => {
                let text = match signal_map::bare_name(hir, n) {
                    Some(name) => name,
                    None => hir.source(n)->0,
                };
                value == (if hir.expr_ty(n).known_signal() {
                    text
                } else {
                    "constant("@ + text + ")"@
                })
            },
        },
{
}

/// Each slot that needs one has its binding in `s!`: where any has a binding, all
/// are passed by name, `name = &value`, in order, one that has no binding under
/// its own name; where none has, nothing is passed.
pub proof fn string_slots_are_passed_by_name(
    slots: Seq<(Seq<char>, Option<Seq<char>>)>,
    i: int,
    k: int,
)
    requires
        0 <= i < slots.len(),
        0 <= k < slots.len(),
        slots[k].1 is Some,
    ensures
        manual_string_signal::named_args(slots).len() == slots.len(),
        slots[i].1 matches Some(value) ==> manual_string_signal::named_args(slots)[i] == slots[i].0
            + " = &"@ + value,
        slots[i].1 is None ==> manual_string_signal::named_args(slots)[i] == slots[i].0 + " = &"@
            + slots[i].0,
{
}

proof fn lemma_arg_slots(
    hir: Hir,
    sources: Seq<usize>,
    params: ParamsView,
    args: Seq<FormatArg>,
    n: int,
    j: int,
)
    requires
        0 <= j < n <= args.len(),
    ensures
        manual_string_signal::arg_slots(hir, sources, params, args, n) matches Some(slots)
            ==> slots.len() == n && manual_string_signal::arg_slot(
            hir,
            sources,
            params,
            args[j],
            j,
        ) == Some(slots[j]),
    decreases n,
{
    if n > 1 {
        if j < n - 1 {
            lemma_arg_slots(hir, sources, params, args, n - 1, j);
        } else {
            lemma_arg_slots(hir, sources, params, args, n - 1, 0);
        }
    } else {
        assert(manual_string_signal::arg_slots(hir, sources, params, args, 0) == Some(
            Seq::<(Seq<char>, Option<Seq<char>>)>::empty(),
        ));
    }
}

/// In the `s!` that replaces a mapped `format!`, the placeholder that stood for
/// the name of the `i`th source shows that source: it captures the source's own
/// name, or is passed the source by name.
pub proof fn string_placeholders_keep_their_source(
    hir: Hir,
    params: ParamsView,
    sources: Seq<usize>,
    format: FormatArgs,
    j: int,
    x: usize,
    i: int,
    k: int,
) -> (r: (Seq<char>, Seq<char>, Seq<char>, Seq<(Seq<char>, Option<Seq<char>>)>))
    requires
        binds_source(params, sources, x, i),
        0 <= j < format.args@.len() <= usize::MAX,
        format.args@[j].expr matches Some(arg) && hir.local(
            manual_string_signal::rendered_value(hir, arg),
        ) == Some(x),
        0 <= k < format.template@.len(),
        format.template@[k] matches FormatPiece::Placeholder { index, options, trait_ } && index
            == Some(j as usize),
    ensures
        manual_string_signal::format_call(hir, sources, params, format) matches Some(code) ==> {
            let (before, name, after, slots) = r;
            &&& code == template::macro_text(
                "s!("@,
                before + seq!['{'] + name + after,
                seq![],
                manual_string_signal::named_args(slots),
            )
            &&& slots.len() == format.args@.len()
            &&& slots[j].0 == name
            &&& match slots[j].1 {
                Some(value) => hir.source(sources[i]) == Some(value) || signal_map::bare_name(
                    hir,
                    sources[i],
                ) == Some(value),
                None => signal_map::bare_name(hir, sources[i]) == Some(name),
            }
            &&& format.args@[j].kind matches ArgKind::Named(ident) ==> name == ident.written@
        },
{
    let args = format.args@;
    let pieces = format.template@;
    let arg = args[j].expr->0;
    string_slots_show_their_source(hir, params, sources, arg, j, x, i);
    lemma_arg_slots(hir, sources, params, args, args.len() as int, j);
    match manual_string_signal::format_call(hir, sources, params, format) {
        Some(code) => {
            let slots = manual_string_signal::arg_slots(
                hir,
                sources,
                params,
                args,
                args.len() as int,
            )->0;
            let names = manual_string_signal::slot_names(slots);
            let n = pieces.len() as int;
            let rest = lemma_rebuilt_front(pieces, names, k + 1, n);
            let front = lemma_rebuilt_front(pieces, names, k, n);
            let before = format_args::rebuilt(pieces, names, k)->Text_0;
            let all = format_args::rebuilt(pieces, names, n)->Text_0;
            let name = names[j];
            let after = match pieces[k] {
                FormatPiece::Placeholder { index: _, options, trait_ } => format_args::options_text(
                    options,
                    trait_,
                )->0 + seq!['}'] + rest,
                _ => seq![],
            };
            assert(all =~= before + seq!['{'] + name + after);
            (before, name, after, slots)
        },
        None => (seq![], seq![], seq![], seq![]),
    }
}

/// A concatenation reads from left to right: its operands are those of its left
/// side and then those of its right side.
pub proof fn concatenations_read_in_order(hir: Hir, n: usize, lhs: usize, rhs: usize)
    requires
        hir.kind(n) == (Kind::Binary { op: BinOp::Add, lhs, rhs }),
        lhs < n,
        rhs < n,
    ensures
        manual_string_signal::addends(hir, n) == manual_string_signal::addends(hir, lhs)
            + manual_string_signal::addends(hir, rhs),
{
}

/// Each operand of a concatenation adds its own part at the end of the template:
/// a string literal its text, anything else a placeholder for its slot.
pub proof fn concatenated_operands_keep_their_place(
    hir: Hir,
    sources: Seq<usize>,
    params: ParamsView,
    operands: Seq<usize>,
    n: int,
)
    requires
        0 <= n < operands.len(),
    ensures
        manual_string_signal::chain_slots(hir, sources, params, operands, n + 1) matches Some(after)
            ==> {
            &&& manual_string_signal::chain_slots(hir, sources, params, operands, n) matches Some(
                before,
            )
            &&& match hir.kind(manual_string_signal::rendered_value(hir, operands[n])) {
                Kind::Lit { lit: Lit::Str(text) } => after == (
                    before.0 + format_args::escaped(text@),
                    before.1,
                ),
                _ => {
                    &&& after.1.len() == before.1.len() + 1
                    &&& after.1.drop_last() == before.1
                    &&& after.0 == before.0 + seq!['{'] + after.1.last().0 + seq!['}']
                    &&& manual_string_signal::slot_of(
                        hir,
                        sources,
                        params,
                        manual_string_signal::rendered_value(hir, operands[n]),
                        n,
                    ) == Some(
                        match after.1.last().1 {
                            Some(value) => manual_string_signal::SlotView::Bind(
                                after.1.last().0,
                                value,
                            ),
                            None => manual_string_signal::SlotView::Capture(after.1.last().0),
                        },
                    )
                },
            }
        },
{
    if let Some(after) = manual_string_signal::chain_slots(
        hir,
        sources,
        params,
        operands,
        n + 1,
    ) {
        let before = manual_string_signal::chain_slots(hir, sources, params, operands, n)->0;
        if after.1.len() > before.1.len() {
            assert(after.1.drop_last() =~= before.1);
        }
    }
}

/// Where the closure gives the name of the `i`th source as it is, the template is
/// one placeholder that names that source.
pub proof fn direct_reads_name_their_source(
    hir: Hir,
    receiver: usize,
    params: ParamsView,
    n: usize,
    x: usize,
    i: int,
)
    requires
        binds_source(params, signal_map::signal_sources(hir, receiver), x, i),
        hir.local(n) == Some(x),
    ensures
        manual_text_map::rendering(
            hir,
            receiver,
            params,
            manual_text_map::Mapped::Direct(n),
        ) matches manual_text_map::RenderView::Text { template, bindings, all_bare } ==> {
            &&& template.len() >= 2
            &&& template[0] == '{'
            &&& template.last() == '}'
            &&& stands_for(
                hir,
                signal_map::signal_sources(hir, receiver)[i],
                template.subrange(1, template.len() - 1),
                bindings,
            )
        },
{
    let sources = signal_map::signal_sources(hir, receiver);
    lemma_last_slot(params.slots, x, i, params.slots.len() as int);
    let namer = manual_text_map::fresh_namer(sources.len() as int);
    if let Some((after, name)) = manual_text_map::name_source(hir, sources, params, namer, i) {
        let template = seq!['{'] + name + seq!['}'];
        assert(template.subrange(1, template.len() - 1) =~= name);
        if after.bindings.len() > 0 {
            assert(after.bindings[0] == after.bindings.last());
        }
    }
}

/// Where a mapped text was the value of a slot in another `text!`, the template
/// takes the slot's place in that literal: texts and other placeholders stay as
/// they are, in their order, and the slot, which has no options of its own,
/// becomes the template.
pub proof fn templates_take_the_place_of_their_slot(
    pieces: Seq<template::PieceView>,
    slot: Seq<char>,
    inner: Seq<char>,
    n: int,
)
    requires
        0 <= n < pieces.len(),
    ensures
        manual_text_map::spliced(pieces, slot, inner, n + 1) matches Some(after) ==> {
            &&& manual_text_map::spliced(pieces, slot, inner, n) matches Some(before)
            &&& match pieces[n] {
                template::PieceView::Literal(text) => after == before + format_args::escaped(text),
                template::PieceView::Placeholder { name, spec } => if name == slot {
                    spec.len() == 0 && after == before + inner
                } else {
                    after == before + seq!['{'] + name + spec + seq!['}']
                },
            }
        },
{
}

/// The code goes where the text was: in place of the whole `text(..)` call, or of
/// the one argument that takes a text.
pub proof fn offers_replace_the_text(
    hir: Hir,
    module: Module,
    text_macro: Option<usize>,
    n: usize,
    render: manual_text_map::RenderView,
    position: manual_text_map::Position,
    finding: DiagnosticView,
    at: usize,
)
    requires
        position == manual_text_map::Position::TextCall(at) || position
            == manual_text_map::Position::BoundArg(at),
        finding.remarks.len() == 0,
        render is Text,
    ensures
        ({
            let said = manual_text_map::remarks_for(
                hir,
                module,
                text_macro,
                n,
                render,
                position,
                finding,
            );
            &&& said.remarks.len() == 1
            &&& match said.remarks[0] {
                RemarkView::Multipart { label: _, parts, applicability } => {
                    &&& parts.len() >= 1
                    &&& parts.last().0 == hir.node(at).span
                    &&& render matches manual_text_map::RenderView::Text {
                        template,
                        bindings,
                        all_bare,
                    }
                    &&& {
                        let code = template::macro_text("text!("@, template, seq![], bindings);
                        parts.last().1 == code || parts.last().1 == crate::text::replaced_first(
                            code,
                            "text!"@,
                            "waterui::text!"@,
                        )
                    }
                    &&& applicability == Applicability::MachineApplicable ==> all_bare
                },
                RemarkView::Help(_) => true,
                _ => false,
            }
        }),
{
}

/// The slot of a `text!` rewrite shows the argument of the `format!` that it stood
/// for: an argument captured by name keeps its name; one passed by name keeps the
/// name, bound to the argument; and one passed in order is named for what it is,
/// bound to it unless it is a plain name. Of `x.get()` the signal `x` is shown.
pub proof fn text_slots_show_their_argument(hir: Hir, arg: FormatArg, index: int)
    ensures
        format_args::arg_slot(hir, arg, index) matches Some(slot) ==> match arg.kind {
            ArgKind::Captured(ident) => slot == (ident.written@, None::<Seq<char>>),
            ArgKind::Named(ident) => {
                &&& arg.expr matches Some(expr)
                &&& slot.0 == ident.written@
                &&& slot.1 is Some
                &&& slot.1 == hir.source(
                    match hir.node(expr).get_receiver {
                        Some(receiver) => if hir.node(expr).snapshot {
                            receiver
                        } else {
                            expr
                        },
                        None => expr,
                    },
                )
            },
            ArgKind::Normal => {
                &&& arg.expr matches Some(expr)
                &&& {
                    let shown = match hir.node(expr).get_receiver {
                        Some(receiver) => if hir.node(expr).snapshot {
                            receiver
                        } else {
                            expr
                        },
                        None => expr,
                    };
                    match slot.1 {
                        Some(value) => hir.source(shown) == Some(value) || hir.source(shown) is None,
                        None => hir.kind(shown) matches Kind::Path { plain: true, segments, res: _ }
                            && segments@.len() == 1 && slot.0 == segments@[0].written@,
                    }
                }
            },
        },
{
}

} // verus!
