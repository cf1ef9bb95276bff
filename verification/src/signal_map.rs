//! `sig.map(|v| ..)` calls: the signals they read, the bindings their closures
//! make, and the names those go by.

use crate::hir;
use crate::hir::{Hir, Ident, Kind};
use crate::known::Known;
use crate::text;
use vstd::prelude::*;

verus! {

/// `SignalExt::map` and `nami::map`: the two spellings of "transform this
/// signal through a closure".
pub open spec fn map_fns() -> Seq<Known> {
    seq![Known::SignalMap, Known::FreeMap]
}

/// `SignalExt::zip` and `nami::zip`: both splice several signals into one.
pub open spec fn zip_fns() -> Seq<Known> {
    seq![Known::SignalZip, Known::FreeZip]
}

/// Calls a map result may pass through on its way to its consumer. They only
/// rewrap the signal.
pub open spec fn result_adapters() -> Seq<Known> {
    seq![
        Known::SignalComputed,
        Known::SignalWith,
        Known::SignalCached,
        Known::SignalDistinct,
        Known::SignalInspect,
        Known::IntoSignalFn,
        Known::IntoComputedFn,
    ]
}

impl Ident {
    /// The name, where it is an ordinary identifier.
    pub open spec fn ordinary(self) -> Option<Seq<char>> {
        if self.usable {
            Some(self.name@)
        } else {
            None
        }
    }
}

/// A candidate `text!` slot name must be a plain identifier: `text!` captures
/// slots by name and parses `name = expr` bindings.
pub fn usable_ident(ident: &Ident) -> (r: Option<String>)
    ensures
        text::text_opt(r) == ident.ordinary(),
{
    if ident.usable {
        Some(ident.name.clone())
    } else {
        None
    }
}

/// The name that the expression is, where it is a bare identifier path.
pub open spec fn bare_name(hir: Hir, n: usize) -> Option<Seq<char>> {
    match hir.kind(n) {
        Kind::Path { plain, segments, res: _ } => if plain && segments@.len() == 1 {
            segments@[0].ordinary()
        } else {
            None
        },
        _ => None,
    }
}

/// `expr` is a bare identifier path (`count`, `selection`): the shape a `text!`
/// slot can capture by name. `self.count` has two segments and does not
/// qualify.
pub fn bare_path_ident(hir: &Hir, n: usize) -> (r: Option<String>)
    requires
        hir.has(n),
    ensures
        text::text_opt(r) == bare_name(*hir, n),
{
    match &hir.nodes[n].kind {
        Kind::Path { plain, segments, .. } => if *plain && segments.len() == 1 {
            usable_ident(&segments[0])
        } else {
            None
        },
        _ => None,
    }
}

/// The signal and the function of a `map` call.
pub open spec fn map_parts(hir: Hir, n: usize) -> Option<(usize, usize)> {
    if hir.calls(n, map_fns()) && hir.operands(n).len() == 2 {
        Some((hir.operands(n)[0], hir.operands(n)[1]))
    } else {
        None
    }
}

/// `sig.map(f)` or `nami::map(sig, f)`: the receiver and the closure.
pub fn map_call(hir: &Hir, n: usize) -> (r: Option<(usize, usize)>)
    requires
        hir.wf(),
        hir.has(n),
    ensures
        r == map_parts(*hir, n),
        r matches Some(p) ==> p.0 < n && p.1 < n,
{
    if !hir.is_call_to(n, &[Known::SignalMap, Known::FreeMap]) {
        return None;
    }
    let args: Vec<usize> = hir.call_args(n);
    if args.len() == 2 {
        Some((args[0], args[1]))
    } else {
        None
    }
}

/// The pattern and the body of a closure with one parameter.
pub open spec fn one_param_closure(hir: Hir, func: usize) -> Option<(usize, usize)> {
    match hir.kind(hir.undropped(func)) {
        Kind::Closure { params, body, by_move: _ } => if params@.len() == 1 {
            match hir.kind(params@[0]) {
                Kind::Param { pat } => Some((pat, body)),
                _ => None,
            }
        } else {
            None
        },
        _ => None,
    }
}

/// The parameter pattern and the body of `|pat| body`: `map` closures take
/// exactly one parameter.
pub fn closure_parts(hir: &Hir, func: usize) -> (r: Option<(usize, usize)>)
    requires
        hir.wf(),
        hir.has(func),
    ensures
        r == one_param_closure(*hir, func),
        r matches Some(p) ==> p.0 < func && p.1 < func,
{
    let func: usize = hir.peel_drop_temps(func);
    proof {
        assert(hir.node_wf(func));
    }
    match &hir.nodes[func].kind {
        Kind::Closure { params, body, .. } => if params.len() == 1 {
            proof {
                assert(hir.node_wf(params@[0]));
            }
            match &hir.nodes[params[0]].kind {
                Kind::Param { pat } => Some((*pat, *body)),
                _ => None,
            }
        } else {
            None
        },
        _ => None,
    }
}

/// The signals that those of `list` before `bound` read.
pub open spec fn sources_of(hir: Hir, list: Seq<usize>, bound: int) -> Seq<usize>
    decreases bound, list.len(),
{
    if list.len() == 0 {
        seq![]
    } else {
        let n = hir.unwrapped(list.last());
        sources_of(hir, list.drop_last(), bound) + (if 0 <= n < bound && hir.calls(n, zip_fns()) {
            sources_of(hir, hir.operands(n), n as int)
        } else {
            seq![n]
        })
    }
}

/// The signals that `n` reads: `zip(a, b)` and `a.zip(&b)` flatten to their
/// arguments, nested zips too; anything else is the single source.
pub open spec fn signal_sources(hir: Hir, n: usize) -> Seq<usize> {
    sources_of(hir, seq![n], n + 1)
}

fn sources_into(hir: &Hir, list: &Vec<usize>, bound: usize, out: &mut Vec<usize>)
    requires
        hir.wf(),
        bound <= hir.nodes.len(),
        hir::all_below(list@, bound as int),
        hir::all_below(old(out)@, hir.nodes.len() as int),
    ensures
        final(out)@ == old(out)@ + sources_of(*hir, list@, bound as int),
        hir::all_below(final(out)@, hir.nodes.len() as int),
    decreases bound,
{
    let ghost before = out@;
    let mut i: usize = 0;
    proof {
        assert(list@.take(0) =~= seq![]);
        assert(before + sources_of(*hir, seq![], bound as int) =~= before);
    }
    while i < list.len()
        invariant
            i <= list.len(),
            hir.wf(),
            bound <= hir.nodes.len(),
            hir::all_below(list@, bound as int),
            hir::all_below(out@, hir.nodes.len() as int),
            out@ == before + sources_of(*hir, list@.take(i as int), bound as int),
        decreases list.len() - i,
    {
        let ghost prior = out@;
        proof {
            assert(list@.take(i + 1).drop_last() =~= list@.take(i as int));
            assert(list@.take(i + 1).last() == list@[i as int]);
        }
        let n: usize = hir.strip_wraps(list[i]);
        if hir.is_call_to(n, &[Known::SignalZip, Known::FreeZip]) {
            let args: Vec<usize> = hir.call_args(n);
            sources_into(hir, &args, n, out);
        } else {
            out.push(n);
            proof {
                assert(out@ =~= prior + seq![n]);
            }
        }
        proof {
            assert(out@ =~= before + sources_of(*hir, list@.take(i + 1), bound as int));
        }
        i = i + 1;
    }
    proof {
        assert(list@.take(list.len() as int) =~= list@);
    }
}

/// The signals the map reads: `zip(a, b)` / `a.zip(&b)` flatten to their
/// arguments (recursively, for nested zips); anything else is the single
/// source.
pub fn sources(hir: &Hir, n: usize) -> (r: Vec<usize>)
    requires
        hir.wf(),
        hir.has(n),
    ensures
        r@ == signal_sources(*hir, n),
        hir::all_below(r@, hir.nodes.len() as int),
{
    let mut list: Vec<usize> = Vec::new();
    list.push(n);
    let mut out: Vec<usize> = Vec::new();
    sources_into(hir, &list, n + 1, &mut out);
    proof {
        assert(list@ =~= seq![n]);
    }
    out
}

/// A position of a pattern: the binding there, if it is a bare one, and its
/// name.
#[derive(Debug)]
pub struct Slot {
    pub id: Option<usize>,
    pub name: Option<String>,
}

/// What a position of a pattern is.
#[verifier::ext_equal]
pub ghost struct SlotView {
    pub id: Option<usize>,
    pub name: Option<Seq<char>>,
}

impl View for Slot {
    type V = SlotView;

    open spec fn view(&self) -> SlotView {
        SlotView { id: self.id, name: text::text_opt(self.name) }
    }
}

pub open spec fn slot_views(slots: Seq<Slot>) -> Seq<SlotView> {
    slots.map_values(|slot: Slot| slot@)
}

/// The patterns that a pattern's positions lie in; nothing for one that is a
/// position itself.
pub open spec fn spread(hir: Hir, pat: usize) -> Option<Seq<usize>> {
    match hir.kind(pat) {
        Kind::TuplePat { parts } => Some(parts@),
        Kind::TupleStructPat { parts } => Some(parts@),
        Kind::PeelPat { inner } => Some(seq![inner]),
        Kind::OrPat { parts } => if parts@.len() > 0 {
            Some(seq![parts@[0]])
        } else {
            None
        },
        _ => None,
    }
}

/// What a pattern that is one position binds.
pub open spec fn slot_at(hir: Hir, pat: usize) -> SlotView {
    match hir.kind(pat) {
        Kind::Binding { name, id, sub: _ } => SlotView { id: Some(id), name: name.ordinary() },
        _ => SlotView { id: None, name: None },
    }
}

/// The positions of the patterns of `list` that come before `bound`, in order.
pub open spec fn slots_of(hir: Hir, list: Seq<usize>, bound: int) -> Seq<SlotView>
    decreases bound, list.len(),
{
    if list.len() == 0 {
        seq![]
    } else {
        let pat = list.last();
        slots_of(hir, list.drop_last(), bound) + (match spread(hir, pat) {
            Some(parts) => if 0 <= pat < bound {
                slots_of(hir, parts, pat as int)
            } else {
                seq![]
            },
            None => seq![slot_at(hir, pat)],
        })
    }
}

/// Pattern positions in order: `|(x, (y, _))|` flattens to three slots;
/// positions that are not a bare binding (`_`, literals, nested structs) bind
/// nothing.
pub open spec fn pattern_slots(hir: Hir, pat: usize) -> Seq<SlotView> {
    slots_of(hir, seq![pat], pat + 1)
}

fn flatten_list(hir: &Hir, list: &Vec<usize>, bound: usize, out: &mut Vec<Slot>)
    requires
        hir.wf(),
        bound <= hir.nodes.len(),
        hir::all_below(list@, bound as int),
    ensures
        slot_views(final(out)@) == slot_views(old(out)@) + slots_of(*hir, list@, bound as int),
    decreases bound,
{
    let ghost before = slot_views(out@);
    let mut i: usize = 0;
    proof {
        assert(list@.take(0) =~= seq![]);
        assert(before + slots_of(*hir, seq![], bound as int) =~= before);
    }
    while i < list.len()
        invariant
            i <= list.len(),
            hir.wf(),
            bound <= hir.nodes.len(),
            hir::all_below(list@, bound as int),
            slot_views(out@) == before + slots_of(*hir, list@.take(i as int), bound as int),
        decreases list.len() - i,
    {
        let pat: usize = list[i];
        let ghost prior = out@;
        proof {
            assert(list@.take(i + 1).drop_last() =~= list@.take(i as int));
            assert(list@.take(i + 1).last() == pat);
            assert(hir.node_wf(pat));
        }
        let mut one: Vec<usize> = Vec::new();
        match &hir.nodes[pat].kind {
            Kind::TuplePat { parts } => flatten_list(hir, parts, pat, out),
            Kind::TupleStructPat { parts } => flatten_list(hir, parts, pat, out),
            Kind::PeelPat { inner } => {
                one.push(*inner);
                proof {
                    assert(one@ =~= seq![*inner]);
                }
                flatten_list(hir, &one, pat, out);
            },
            Kind::OrPat { parts } => {
                if parts.len() > 0 {
                    one.push(parts[0]);
                    proof {
                        assert(one@ =~= seq![parts@[0]]);
                    }
                    flatten_list(hir, &one, pat, out);
                } else {
                    out.push(Slot { id: None, name: None });
                    proof {
                        assert(slot_views(out@) =~= slot_views(prior) + seq![slot_at(*hir, pat)]);
                    }
                }
            },
            Kind::Binding { name, id, .. } => {
                out.push(Slot { id: Some(*id), name: usable_ident(name) });
                proof {
                    assert(slot_views(out@) =~= slot_views(prior) + seq![slot_at(*hir, pat)]);
                }
            },
            _ => {
                out.push(Slot { id: None, name: None });
                proof {
                    assert(slot_views(out@) =~= slot_views(prior) + seq![slot_at(*hir, pat)]);
                }
            },
        }
        proof {
            assert(slot_views(out@) =~= before + slots_of(*hir, list@.take(i + 1), bound as int));
        }
        i = i + 1;
    }
    proof {
        assert(list@.take(list.len() as int) =~= list@);
    }
}

/// Pattern positions in order.
pub fn flatten_pat(hir: &Hir, pat: usize) -> (r: Vec<Slot>)
    requires
        hir.wf(),
        hir.has(pat),
    ensures
        slot_views(r@) == pattern_slots(*hir, pat),
{
    let mut list: Vec<usize> = Vec::new();
    list.push(pat);
    let mut out: Vec<Slot> = Vec::new();
    flatten_list(hir, &list, pat + 1, &mut out);
    proof {
        assert(list@ =~= seq![pat]);
        assert(slot_views(Seq::<Slot>::empty()) + pattern_slots(*hir, pat) =~= pattern_slots(
            *hir,
            pat,
        ));
        assert(slot_views(Seq::<Slot>::empty()) =~= seq![]);
    }
    out
}

/// The bindings a map-closure parameter pattern makes, related to the signal
/// sources it destructures.
#[derive(Debug)]
pub struct Params {
    /// The pattern's positions.
    pub slots: Vec<Slot>,
    /// Each position is a source of its own: `v` in `|v|`, `x` and `y` in
    /// `|(x, y)|` over `zip(a, b)`. Otherwise every binding is a partial
    /// destructure.
    pub whole: bool,
    /// Every binding the pattern makes, partial destructures included.
    pub all: Vec<usize>,
    /// The pattern's own source, reused in the help alias.
    pub source: Option<String>,
}

/// What a parameter pattern binds.
#[verifier::ext_equal]
pub ghost struct ParamsView {
    pub slots: Seq<SlotView>,
    pub whole: bool,
    pub all: Seq<usize>,
    pub source: Option<Seq<char>>,
}

impl View for Params {
    type V = ParamsView;

    open spec fn view(&self) -> ParamsView {
        ParamsView {
            slots: slot_views(self.slots@),
            whole: self.whole,
            all: self.all@,
            source: text::text_opt(self.source),
        }
    }
}

/// The binding that a binding node makes.
pub open spec fn binding_id(hir: Hir, n: usize) -> usize {
    match hir.kind(n) {
        Kind::Binding { name: _, id, sub: _ } => id,
        _ => n,
    }
}

/// The bindings that a pattern makes, by id.
pub open spec fn binding_ids(hir: Hir, pat: usize) -> Seq<usize> {
    hir.bindings(pat).map_values(|n: usize| binding_id(hir, n))
}

/// What the pattern binds of so many sources.
pub open spec fn params_of(hir: Hir, pat: usize, source_count: int) -> ParamsView {
    ParamsView {
        slots: pattern_slots(hir, pat),
        whole: pattern_slots(hir, pat).len() == source_count,
        all: binding_ids(hir, pat),
        source: text::text_opt(hir.node(pat).snippet),
    }
}

/// The last of the first `n` positions that is the binding `id`.
pub open spec fn last_slot(slots: Seq<SlotView>, id: usize, n: int) -> Option<int>
    decreases n,
{
    if n <= 0 {
        None
    } else if slots[n - 1].id == Some(id) {
        Some(n - 1)
    } else {
        last_slot(slots, id, n - 1)
    }
}

impl ParamsView {
    /// The source that the binding names as a whole.
    pub open spec fn source_of(self, id: usize) -> Option<int> {
        if self.whole {
            last_slot(self.slots, id, self.slots.len() as int)
        } else {
            None
        }
    }

    /// The name that the pattern gives source `i`.
    pub open spec fn name_of(self, i: int) -> Option<Seq<char>> {
        if self.whole && 0 <= i < self.slots.len() {
            self.slots[i].name
        } else {
            None
        }
    }
}

/// The bindings that a pattern makes, by id.
pub fn pat_bindings(hir: &Hir, pat: usize) -> (r: Vec<usize>)
    requires
        hir.wf(),
        hir.has(pat),
    ensures
        r@ == binding_ids(*hir, pat),
{
    let nodes: Vec<usize> = hir.bindings_in(pat);
    let mut out: Vec<usize> = Vec::new();
    let mut i: usize = 0;
    while i < nodes.len()
        invariant
            i <= nodes.len(),
            hir.has(pat),
            nodes@ == hir.bindings(pat),
            hir::all_below(nodes@, pat + 1),
            out@.len() == i,
            forall|k: int| 0 <= k < i ==> out@[k] == binding_id(*hir, #[trigger] nodes@[k]),
        decreases nodes.len() - i,
    {
        out.push(
            match &hir.nodes[nodes[i]].kind {
                Kind::Binding { id, .. } => *id,
                _ => nodes[i],
            },
        );
        i = i + 1;
    }
    proof {
        assert(out@ =~= binding_ids(*hir, pat));
    }
    out
}

/// A copy of an optional string.
pub fn clone_text(s: &Option<String>) -> (r: Option<String>)
    ensures
        text::text_opt(r) == text::text_opt(*s),
{
    match s {
        Some(s) => Some(s.clone()),
        None => None,
    }
}

impl Params {
    /// The bindings that `pat` makes over `source_count` sources.
    ///
    /// A binding names a whole source only when the pattern's arity matches the
    /// source count: `|(x, y)|` over `zip(a, b)`, `|v|` over a lone signal.
    pub fn new(hir: &Hir, pat: usize, source_count: usize) -> (r: Params)
        requires
            hir.wf(),
            hir.has(pat),
        ensures
            r@ == params_of(*hir, pat, source_count as int),
    {
        let slots: Vec<Slot> = flatten_pat(hir, pat);
        let whole: bool = slots.len() == source_count;
        proof {
            assert(slot_views(slots@).len() == slots.len());
        }
        Params {
            slots,
            whole,
            all: pat_bindings(hir, pat),
            source: clone_text(&hir.nodes[pat].snippet),
        }
    }

    /// The source that the binding names as a whole.
    pub fn source_of(&self, id: usize) -> (r: Option<usize>)
        ensures
            match r {
                Some(i) => self@.source_of(id) == Some(i as int) && i < self.slots.len(),
                None => self@.source_of(id) is None,
            },
    {
        if !self.whole {
            return None;
        }
        let mut i: usize = self.slots.len();
        while i > 0
            invariant
                i <= self.slots.len(),
                self.whole,
                self@.source_of(id) == last_slot(self@.slots, id, i as int),
            decreases i,
        {
            if let Some(bound) = self.slots[i - 1].id {
                if bound == id {
                    return Some(i - 1);
                }
            }
            i = i - 1;
        }
        None
    }

    /// The name that the pattern gives source `i`.
    pub fn name_of(&self, i: usize) -> (r: Option<String>)
        ensures
            text::text_opt(r) == self@.name_of(i as int),
    {
        if self.whole && i < self.slots.len() {
            clone_text(&self.slots[i].name)
        } else {
            None
        }
    }
}

/// The parameter that the expression is a bare read of.
pub open spec fn param_read(hir: Hir, n: usize, all: Seq<usize>) -> Option<usize> {
    match hir.local(n) {
        Some(id) => if all.contains(id) {
            Some(id)
        } else {
            None
        },
        None => None,
    }
}

/// A path expression resolving to one of the bindings.
pub fn param_hir_id(hir: &Hir, n: usize, all: &Vec<usize>) -> (r: Option<usize>)
    requires
        hir.has(n),
    ensures
        r == param_read(*hir, n, all@),
{
    match hir.res_local(n) {
        Some(id) => {
            let mut i: usize = 0;
            while i < all.len()
                invariant
                    i <= all.len(),
                    hir.local(n) == Some(id),
                    forall|k: int| 0 <= k < i ==> all@[k] != id,
                decreases all.len() - i,
            {
                if all[i] == id {
                    assert(all@.contains(id));
                    return Some(id);
                }
                i = i + 1;
            }
            None
        },
        None => None,
    }
}

/// The expression mentions one of the bindings, closures in it left out.
pub open spec fn mentions(hir: Hir, n: usize, all: Seq<usize>) -> bool {
    exists|i: int|
        0 <= i < hir.exprs(n, false).len() && param_read(
            hir,
            #[trigger] hir.exprs(n, false)[i],
            all,
        ) is Some
}

/// Whether `expr` mentions any of the bindings, not descending into closures.
pub fn touches_param(hir: &Hir, n: usize, all: &Vec<usize>) -> (r: bool)
    requires
        hir.wf(),
        hir.has(n),
    ensures
        r == mentions(*hir, n, all@),
{
    let list: Vec<usize> = hir.exprs_in(n, false);
    let mut i: usize = 0;
    while i < list.len()
        invariant
            i <= list.len(),
            hir.has(n),
            list@ == hir.exprs(n, false),
            hir::all_below(list@, n + 1),
            forall|k: int| 0 <= k < i ==> param_read(*hir, #[trigger] list@[k], all@) is None,
        decreases list.len() - i,
    {
        if param_hir_id(hir, list[i], all).is_some() {
            assert(param_read(*hir, list@[i as int], all@) is Some);
            return true;
        }
        i = i + 1;
    }
    false
}

/// `arg` and a number.
pub open spec fn numbered(index: int) -> Seq<char> {
    "arg"@ + text::decimal(index as nat)
}

/// `arg` and a number.
pub fn numbered_name(index: usize) -> (r: String)
    ensures
        r@ == numbered(index as int),
{
    let mut out: String = "arg".to_owned();
    text::push_decimal(&mut out, index as u64);
    out
}

/// A name for an alias binding derived from the expression itself.
pub open spec fn alias_text(hir: Hir, n: usize, index: int) -> Seq<char> {
    match hir.kind(n) {
        Kind::Field { base: _, name } => name.written@,
        Kind::Path { plain, segments, res: _ } => if plain && segments@.len() > 0
            && segments@.last().usable {
            segments@.last().name@
        } else {
            numbered(index)
        },
        _ => numbered(index),
    }
}

/// A name for an alias binding derived from the expression itself: `u.name`
/// gives `name`, `f(x)` gives `arg{index}`.
pub fn alias_name(hir: &Hir, n: usize, index: usize) -> (r: String)
    requires
        hir.has(n),
    ensures
        r@ == alias_text(*hir, n, index as int),
{
    match &hir.nodes[n].kind {
        Kind::Field { name, .. } => name.written.clone(),
        Kind::Path { plain, segments, .. } => {
            if *plain && segments.len() > 0 && segments[segments.len() - 1].usable {
                segments[segments.len() - 1].name.clone()
            } else {
                numbered_name(index)
            }
        },
        _ => numbered_name(index),
    }
}

} // verus!
