//! Building the tree from its leaves up. Every tree built here is in order.

use crate::format_args::FormatArgs;
use crate::hir;
use crate::hir::{
    Bound, Capture, CapturedVar, ClosureKind, Coercion, Def, Hir, Kind, Node, Span, Ty,
    TyKind,
};
use vstd::prelude::*;
use vstd::utf8::*;

verus! {

/// A node about which nothing but its kind and place is known, of type `ty`.
pub open spec fn plain_node(kind: Kind, span: Span, ty: usize, node: Node) -> bool {
    &&& node.kind == kind
    &&& node.span == span
    &&& node.ty == ty
    &&& node.adjusted == ty
    &&& node.parent is None
    &&& node.snippet is None
    &&& node.sugg is None
    &&& node.derefs == 0
    &&& node.callee is None
    &&& node.item is None
    &&& node.bounds is None
    &&& node.mac is None
    &&& node.root_mac is None
    &&& node.bang is None
    &&& node.format is None
    &&& !node.snapshot
    &&& node.get_receiver is None
    &&& !node.place
    &&& node.inherent is None
    &&& node.captures@.len() == 0
    &&& node.callsite is None
    &&& node.trait_call is None
    &&& node.float is None
    &&& node.ret is None
    &&& node.call_sig is None
    &&& node.fn_sig is None
    &&& node.names_fn is None
    &&& node.value_class is None
    &&& !node.by_ref
    &&& node.coercion == Coercion::Identity
    &&& !node.special_block
    &&& node.qself is None
    &&& node.path_args is None
    &&& node.required_args == 0
    &&& !node.borrowed
    &&& !node.shorthand
    &&& !node.mutable
    &&& node.indent is None
    &&& node.closure_kind == ClosureKind::Plain
    &&& !node.test_wrapper
    &&& node.handler_args@.len() == 0
    &&& node.row_builder is None
    &&& node.captured@.len() == 0
    &&& node.decl_span == span
    &&& node.text_key is None
    &&& node.vec_macro is None
    &&& node.for_loop is None
    &&& node.callsite_span == span
    &&& node.generics@.len() == 0
}

impl Node {
    /// A node about which nothing but its kind, place and type is known.
    pub fn new(kind: Kind, span: Span, ty: usize) -> (r: Node)
        ensures
            plain_node(kind, span, ty, r),
    {
        Node {
            kind,
            parent: None,
            span,
            ty,
            adjusted: ty,
            snippet: None,
            sugg: None,
            derefs: 0,
            callee: None,
            item: None,
            bounds: None,
            mac: None,
            root_mac: None,
            bang: None,
            format: None,
            snapshot: false,
            get_receiver: None,
            place: false,
            inherent: None,
            captures: Vec::new(),
            callsite: None,
            trait_call: None,
            float: None,
            ret: None,
            call_sig: None,
            fn_sig: None,
            names_fn: None,
            value_class: None,
            by_ref: false,
            coercion: Coercion::Identity,
            special_block: false,
            qself: None,
            path_args: None,
            required_args: 0,
            borrowed: false,
            shorthand: false,
            mutable: false,
            indent: None,
            closure_kind: ClosureKind::Plain,
            test_wrapper: false,
            handler_args: Vec::new(),
            row_builder: None,
            captured: Vec::new(),
            decl_span: span,
            text_key: None,
            vec_macro: None,
            for_loop: None,
            callsite_span: span,
            generics: Vec::new(),
        }
    }
}

/// Whether every id of the list is below `n`.
fn all_ids_below(list: &Vec<usize>, n: usize) -> (r: bool)
    ensures
        r == hir::all_below(list@, n as int),
{
    let mut i: usize = 0;
    while i < list.len()
        invariant
            i <= list.len(),
            forall|k: int| 0 <= k < i ==> #[trigger] list@[k] < n,
        decreases list.len() - i,
    {
        if list[i] >= n {
            assert(!(list@[i as int] < n));
            return false;
        }
        i = i + 1;
    }
    true
}

/// A type about which nothing but its shape is known.
pub open spec fn plain_ty(kind: TyKind, ty: Ty) -> bool {
    &&& ty.kind == kind
    &&& !ty.has_infer
    &&& !ty.has_param
    &&& ty.is_static
    &&& ty.text@.len() == 0
    &&& ty.impls@.len() == 0
    &&& ty.output is None
    &&& ty.resolved is None
    &&& ty.meets@.len() == 0
    &&& ty.derefs@.len() == 0
    &&& ty.methods@.len() == 0
    &&& !ty.opaque
    &&& ty.guard is None
}

impl Ty {
    /// A type about which nothing but its shape is known.
    pub fn new(kind: TyKind) -> (r: Ty)
        ensures
            plain_ty(kind, r),
    {
        Ty {
            kind,
            has_infer: false,
            has_param: false,
            is_static: true,
            text: String::new(),
            impls: Vec::new(),
            output: None,
            resolved: None,
            meets: Vec::new(),
            derefs: Vec::new(),
            methods: Vec::new(),
            opaque: false,
            guard: None,
        }
    }

    fn is_below(&self, n: usize) -> (r: bool)
        ensures
            r == self.below(n as int),
    {
        match &self.kind {
            TyKind::Ref { inner, .. } => *inner < n,
            TyKind::Adt { args, .. } => all_ids_below(args, n),
            TyKind::Tuple { parts } => all_ids_below(parts, n),
            TyKind::Closure { inputs } => all_ids_below(inputs, n),
            TyKind::Slice { element } => *element < n,
            TyKind::Alias { self_ty, args, .. } => *self_ty < n && all_ids_below(args, n),
            TyKind::Other { parts } => all_ids_below(parts, n),
            _ => true,
        }
    }
}

impl Hir {
    /// The expressions of a format call come before `n`.
    pub open spec fn format_below(self, f: usize, n: int) -> bool {
        f < self.formats@.len() && forall|i: int|
            0 <= i < self.formats@[f as int].args@.len() ==> hir::opt_below(
                #[trigger] self.formats@[f as int].args@[i].expr,
                n,
            )
    }

    /// The node can be added: what it is made of is there and has no parent
    /// yet, and its facts are in range.
    pub open spec fn accepts(self, node: Node) -> bool {
        let n = self.nodes@.len() as int;
        &&& n + 1 < usize::MAX
        &&& node.kind.below(n)
        &&& forall|i: int|
            0 <= i < node.kind.children().len() ==> self.node(
                #[trigger] node.kind.children()[i],
            ).parent is None
        &&& node.ty < self.types@.len()
        &&& node.adjusted < self.types@.len()
        &&& hir::opt_below(node.get_receiver, n)
        &&& node.snippet matches Some(source) ==> encode_utf8(source@).len() <= i32::MAX
        &&& node.for_loop matches Some(head) ==> head.arg < n && head.body < n
        &&& hir::vec_macro_below(node.vec_macro, n)
        &&& hir::captured_below(node.captured@, self.types@.len() as int)
        &&& hir::opt_below(node.row_builder, n)
        &&& hir::all_below(node.handler_args@, n)
        &&& hir::path_args_below(node.path_args, n)
        &&& hir::opt_below(node.qself, n)
        &&& node.call_sig matches Some(sig) ==> sig.output < self.types@.len()
        &&& hir::all_bounds_below(node.bounds, self.types@.len() as int)
        &&& hir::captures_below(node.captures@, self.types@.len() as int)
        &&& hir::opt_below(node.inherent, self.types@.len() as int)
        &&& node.format matches Some(f) ==> self.format_below(f, n)
    }

    /// Nothing.
    pub fn new() -> (r: Hir)
        ensures
            r.wf(),
            r.linked(),
            r.nodes@.len() == 0,
            r.types@.len() == 0,
            r.defs@.len() == 0,
            r.formats@.len() == 0,
    {
        Hir { nodes: Vec::new(), types: Vec::new(), defs: Vec::new(), formats: Vec::new() }
    }

    proof fn lemma_same_links(self, after: Hir)
        requires
            self.linked(),
            after.nodes == self.nodes,
        ensures
            after.linked(),
    {
        assert forall|n: usize| after.has(n) implies #[trigger] after.owns_children(n) by {
            assert(self.owns_children(n));
            assert(after.kind(n) == self.kind(n));
            assert forall|k: int| 0 <= k < after.kind(n).children().len() implies after.node(
                #[trigger] after.kind(n).children()[k],
            ).parent == Some(n) by {
                assert(self.node(self.kind(n).children()[k]).parent == Some(n));
            }
        }
        assert forall|n: usize| after.has(n) implies #[trigger] after.held_by_parent(n) by {
            assert(self.held_by_parent(n));
        }
    }

    /// Adds a type and gives its place; nothing where it is made of types that
    /// are not there yet.
    pub fn add_type(&mut self, ty: Ty) -> (r: Option<usize>)
        requires
            old(self).wf(),
        ensures
            final(self).wf(),
            old(self).linked() ==> final(self).linked(),
            final(self).nodes == old(self).nodes,
            final(self).defs == old(self).defs,
            final(self).formats == old(self).formats,
            r is Some <==> ty.below(old(self).types@.len() as int),
            match r {
                Some(t) => t == old(self).types@.len() && final(self).types@ == old(self).types@.push(
                    ty,
                ),
                None => final(self).types@ == old(self).types@,
            },
    {
        let t: usize = self.types.len();
        if !ty.is_below(t) {
            return None;
        }
        self.types.push(ty);
        proof {
            let before = *old(self);
            if before.linked() {
                before.lemma_same_links(*self);
            }
            assert forall|n: usize| self.has(n) implies #[trigger] self.node_wf(n) by {
                assert(before.node_wf(n));
            }
            assert forall|k: int| 0 <= k < self.types@.len() implies (
            #[trigger] self.types@[k]).below(k) by {
                if k < t {
                    assert(before.types@[k].below(k));
                }
            }
        }
        Some(t)
    }

    /// Adds an item and gives its place.
    pub fn add_def(&mut self, def: Def) -> (r: usize)
        requires
            old(self).wf(),
        ensures
            final(self).wf(),
            old(self).linked() ==> final(self).linked(),
            final(self).nodes == old(self).nodes,
            final(self).types == old(self).types,
            final(self).formats == old(self).formats,
            r == old(self).defs@.len(),
            final(self).defs@ == old(self).defs@.push(def),
    {
        let d: usize = self.defs.len();
        self.defs.push(def);
        proof {
            let before = *old(self);
            if before.linked() {
                before.lemma_same_links(*self);
            }
            assert forall|n: usize| self.has(n) implies #[trigger] self.node_wf(n) by {
                assert(before.node_wf(n));
            }
        }
        d
    }

    /// Adds the arguments and template of a `format!` call and gives their
    /// place.
    pub fn add_format(&mut self, format: FormatArgs) -> (r: usize)
        requires
            old(self).wf(),
        ensures
            final(self).wf(),
            old(self).linked() ==> final(self).linked(),
            final(self).nodes == old(self).nodes,
            final(self).types == old(self).types,
            final(self).defs == old(self).defs,
            r == old(self).formats@.len(),
            final(self).formats@ == old(self).formats@.push(format),
    {
        let f: usize = self.formats.len();
        self.formats.push(format);
        proof {
            let before = *old(self);
            if before.linked() {
                before.lemma_same_links(*self);
            }
            assert forall|n: usize| self.has(n) implies #[trigger] self.node_wf(n) by {
                assert(before.node_wf(n));
                if before.node(n).format is Some {
                    let g = before.node(n).format->0;
                    assert(self.formats@[g as int] == before.formats@[g as int]);
                }
            }
        }
        f
    }

    fn is_format_below(&self, f: usize, n: usize) -> (r: bool)
        ensures
            r == self.format_below(f, n as int),
    {
        if f >= self.formats.len() {
            return false;
        }
        let mut i: usize = 0;
        while i < self.formats[f].args.len()
            invariant
                f < self.formats.len(),
                i <= self.formats[f as int].args@.len(),
                forall|k: int|
                    0 <= k < i ==> hir::opt_below(
                        #[trigger] self.formats@[f as int].args@[k].expr,
                        n as int,
                    ),
            decreases self.formats[f as int].args@.len() - i,
        {
            if let Some(e) = self.formats[f].args[i].expr {
                if e >= n {
                    assert(!hir::opt_below(
                        self.formats@[f as int].args@[i as int].expr,
                        n as int,
                    ));
                    return false;
                }
            }
            i = i + 1;
        }
        true
    }

    fn captures_fit(&self, captures: &Vec<Capture>) -> (r: bool)
        ensures
            r == hir::captures_below(captures@, self.types@.len() as int),
    {
        let mut i: usize = 0;
        while i < captures.len()
            invariant
                i <= captures.len(),
                forall|k: int|
                    0 <= k < i ==> (#[trigger] captures@[k]).ty < self.types@.len(),
            decreases captures.len() - i,
        {
            if captures[i].ty >= self.types.len() {
                assert(!(captures@[i as int].ty < self.types@.len()));
                return false;
            }
            i = i + 1;
        }
        true
    }

    fn captured_fit(&self, captured: &Vec<CapturedVar>) -> (r: bool)
        ensures
            r == hir::captured_below(captured@, self.types@.len() as int),
    {
        let mut i: usize = 0;
        while i < captured.len()
            invariant
                i <= captured.len(),
                forall|k: int|
                    0 <= k < i ==> (#[trigger] captured@[k]).ty < self.types@.len(),
            decreases captured.len() - i,
        {
            if captured[i].ty >= self.types.len() {
                assert(!(captured@[i as int].ty < self.types@.len()));
                return false;
            }
            i = i + 1;
        }
        true
    }

    fn bound_list_fits(&self, list: &Vec<Bound>) -> (r: bool)
        ensures
            r == hir::bounds_below(list@, self.types@.len() as int),
    {
        let mut i: usize = 0;
        while i < list.len()
            invariant
                i <= list.len(),
                forall|k: int|
                    0 <= k < i ==> hir::opt_below(
                        (#[trigger] list@[k]).arg,
                        self.types@.len() as int,
                    ),
            decreases list.len() - i,
        {
            if let Some(t) = list[i].arg {
                if t >= self.types.len() {
                    assert(!hir::opt_below(list@[i as int].arg, self.types@.len() as int));
                    return false;
                }
            }
            i = i + 1;
        }
        true
    }

    fn bound_lists_fit(&self, lists: &Vec<Vec<Bound>>) -> (r: bool)
        ensures
            r == (forall|i: int|
                0 <= i < lists@.len() ==> hir::bounds_below(
                    (#[trigger] lists@[i])@,
                    self.types@.len() as int,
                )),
    {
        let mut i: usize = 0;
        while i < lists.len()
            invariant
                i <= lists.len(),
                forall|k: int|
                    0 <= k < i ==> hir::bounds_below(
                        (#[trigger] lists@[k])@,
                        self.types@.len() as int,
                    ),
            decreases lists.len() - i,
        {
            if !self.bound_list_fits(&lists[i]) {
                assert(!hir::bounds_below(lists@[i as int]@, self.types@.len() as int));
                return false;
            }
            i = i + 1;
        }
        true
    }

    fn bounds_fit(&self, bounds: &Option<Vec<Vec<Bound>>>) -> (r: bool)
        ensures
            r == hir::all_bounds_below(*bounds, self.types@.len() as int),
    {
        match bounds {
            Some(bounds) => self.bound_lists_fit(bounds),
            None => true,
        }
    }

    /// Whether the node can be added.
    fn fits(&self, node: &Node) -> (r: bool)
        ensures
            r == self.accepts(*node),
    {
        let n: usize = self.nodes.len();
        if n >= usize::MAX - 1 {
            return false;
        }
        let kids: Vec<usize> = node.kind.parts();
        proof {
            node.kind.lemma_children_below(n as int);
        }
        if !all_ids_below(&kids, n) {
            return false;
        }
        let mut i: usize = 0;
        while i < kids.len()
            invariant
                i <= kids.len(),
                n == self.nodes.len(),
                kids@ == node.kind.children(),
                hir::all_below(kids@, n as int),
                forall|k: int| 0 <= k < i ==> self.node(#[trigger] kids@[k]).parent is None,
            decreases kids.len() - i,
        {
            if self.nodes[kids[i]].parent.is_some() {
                assert(!(self.node(kids@[i as int]).parent is None));
                return false;
            }
            i = i + 1;
        }
        if node.ty >= self.types.len() || node.adjusted >= self.types.len() {
            return false;
        }
        if let Some(receiver) = node.get_receiver {
            if receiver >= n {
                return false;
            }
        }
        if let Some(source) = &node.snippet {
            if source.as_str().as_bytes().len() > i32::MAX as usize {
                return false;
            }
        }
        if let Some(t) = node.inherent {
            if t >= self.types.len() {
                return false;
            }
        }
        if !self.captures_fit(&node.captures) {
            return false;
        }
        if !self.bounds_fit(&node.bounds) {
            return false;
        }
        if let Some(sig) = node.call_sig {
            if sig.output >= self.types.len() {
                return false;
            }
        }
        if let Some(t) = node.qself {
            if t >= n {
                return false;
            }
        }
        if let Some(args) = &node.path_args {
            if !all_ids_below(&args.types, n) {
                return false;
            }
        }
        if !all_ids_below(&node.handler_args, n) {
            return false;
        }
        if let Some(closure) = node.row_builder {
            if closure >= n {
                return false;
            }
        }
        if !self.captured_fit(&node.captured) {
            return false;
        }
        if let Some(call) = &node.vec_macro {
            if !all_ids_below(&call.elements, n) {
                return false;
            }
            if let Some(source) = &call.text {
                if source.as_str().as_bytes().len() > u32::MAX as usize {
                    return false;
                }
            }
        }
        if let Some(head) = node.for_loop {
            if head.arg >= n || head.body >= n {
                return false;
            }
        }
        match node.format {
            Some(f) => self.is_format_below(f, n),
            None => true,
        }
    }

    proof fn lemma_add_links(self, after: Hir, n: usize)
        requires
            self.wf(),
            self.linked(),
            after.wf(),
            n == self.nodes@.len(),
            after.nodes@.len() == n + 1,
            after.node(n).parent is None,
            forall|k: int|
                0 <= k < after.kind(n).children().len() ==> self.node(
                    #[trigger] after.kind(n).children()[k],
                ).parent is None,
            forall|m: usize|
                m < n ==> #[trigger] after.node(m) == (Node {
                    parent: if after.kind(n).children().contains(m) {
                        Some(n)
                    } else {
                        self.node(m).parent
                    },
                    ..self.node(m)
                }),
        ensures
            after.linked(),
    {
        assert forall|m: usize| after.has(m) implies #[trigger] after.owns_children(m) by {
            assert(after.node_wf(m));
            after.kind(m).lemma_children_below(m as int);
            assert forall|k: int| 0 <= k < after.kind(m).children().len() implies after.node(
                #[trigger] after.kind(m).children()[k],
            ).parent == Some(m) by {
                let kid = after.kind(m).children()[k];
                assert(kid < m);
                assert(after.node(kid).kind == self.node(kid).kind);
                if m == n {
                    assert(after.kind(n).children().contains(kid));
                } else {
                    assert(after.node(m).kind == self.node(m).kind);
                    assert(self.owns_children(m));
                    assert(self.node(self.kind(m).children()[k]).parent == Some(m));
                    if after.kind(n).children().contains(kid) {
                        let j = choose|j: int|
                            0 <= j < after.kind(n).children().len() && after.kind(n).children()[j]
                                == kid;
                        assert(self.node(after.kind(n).children()[j]).parent is None);
                    }
                }
            }
        }
        assert forall|m: usize| after.has(m) implies #[trigger] after.held_by_parent(m) by {
            if m < n {
                assert(self.held_by_parent(m));
                assert(after.node(m).parent == if after.kind(n).children().contains(m) {
                    Some(n)
                } else {
                    self.node(m).parent
                });
                if let Some(p) = self.node(m).parent {
                    assert(after.node(p).kind == self.node(p).kind);
                }
            }
        }
    }

    /// Adds a node above those it is made of and gives its place; nothing where
    /// it does not fit.
    pub fn add_node(&mut self, node: Node) -> (r: Option<usize>)
        requires
            old(self).wf(),
        ensures
            final(self).wf(),
            old(self).linked() ==> final(self).linked(),
            final(self).types == old(self).types,
            final(self).defs == old(self).defs,
            final(self).formats == old(self).formats,
            r is Some <==> old(self).accepts(node),
            r is None ==> final(self).nodes@ == old(self).nodes@,
            r matches Some(n) ==> {
                &&& n == old(self).nodes@.len()
                &&& final(self).nodes@.len() == n + 1
                &&& final(self).node(n) == (Node { parent: None, ..node })
                &&& forall|m: usize|
                    m < n ==> #[trigger] final(self).node(m) == (Node {
                        parent: if node.kind.children().contains(m) {
                            Some(n)
                        } else {
                            old(self).node(m).parent
                        },
                        ..old(self).node(m)
                    })
            },
    {
        if !self.fits(&node) {
            return None;
        }
        let n: usize = self.nodes.len();
        let kids: Vec<usize> = node.kind.parts();
        let mut node: Node = node;
        node.parent = None;
        let ghost given = node;
        let ghost before = *self;
        proof {
            node.kind.lemma_children_below(n as int);
        }
        self.nodes.push(node);
        let mut i: usize = 0;
        while i < kids.len()
            invariant
                i <= kids.len(),
                self.nodes@.len() == n + 1,
                n == before.nodes@.len(),
                kids@ == given.kind.children(),
                hir::all_below(kids@, n as int),
                self.types == before.types,
                self.defs == before.defs,
                self.formats == before.formats,
                self.node(n) == given,
                forall|m: usize|
                    m < n ==> #[trigger] self.node(m) == (Node {
                        parent: if kids@.take(i as int).contains(m) {
                            Some(n)
                        } else {
                            before.node(m).parent
                        },
                        ..before.node(m)
                    }),
            decreases kids.len() - i,
        {
            let kid: usize = kids[i];
            let ghost prior = *self;
            self.nodes[kid].parent = Some(n);
            proof {
                let now = kids@.take(i + 1);
                let then = kids@.take(i as int);
                assert(now =~= then.push(kid));
                assert forall|m: usize| m < n implies #[trigger] self.node(m) == (Node {
                    parent: if now.contains(m) {
                        Some(n)
                    } else {
                        before.node(m).parent
                    },
                    ..before.node(m)
                }) by {
                    assert(prior.node(m) == (Node {
                        parent: if then.contains(m) {
                            Some(n)
                        } else {
                            before.node(m).parent
                        },
                        ..before.node(m)
                    }));
                    if m == kid {
                        assert(now[i as int] == m);
                    } else {
                        assert(self.node(m) == prior.node(m));
                        if then.contains(m) {
                            let k = choose|k: int| 0 <= k < then.len() && then[k] == m;
                            assert(now[k] == m);
                        }
                        if now.contains(m) {
                            let k = choose|k: int| 0 <= k < now.len() && now[k] == m;
                            assert(k < i);
                            assert(then[k] == m);
                        }
                    }
                }
            }
            i = i + 1;
        }
        proof {
            assert(kids@.take(kids.len() as int) =~= kids@);
            assert forall|m: usize| self.has(m) implies #[trigger] self.node_wf(m) by {
                if m < n {
                    assert(before.node_wf(m));
                }
            }
            if before.linked() {
                before.lemma_add_links(*self, n);
            }
        }
        Some(n)
    }
}

} // verus!
