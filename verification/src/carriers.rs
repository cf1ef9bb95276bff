//! Value carriers: wrappers and calls that rewrap a value without inspecting it
//! (`&`, `*`, `.clone()`, `.to_owned()`, `.to_string()`, `format!(..)`), shared
//! by lints that trace where a value flows.

use crate::hir;
use crate::hir::{Bound, Hir, Kind, Res, TyKind, UnOp};
use crate::known;
use crate::known::Known;
use crate::text;
use vstd::prelude::*;

verus! {

impl Hir {
    /// `def` is the item.
    pub open spec fn is_def(self, def: usize, item: Known) -> bool {
        def < self.defs@.len() && text::texts(self.defs@[def as int].path@) == item.segments()
    }

    /// `def` is one of the items.
    pub open spec fn def_in(self, def: usize, items: Seq<Known>) -> bool {
        def < self.defs@.len() && known::one_of(text::texts(self.defs@[def as int].path@), items)
    }

    /// Whether `def`'s path is that of the item, segment by segment.
    pub fn def_path_eq(&self, def: usize, item: Known) -> (r: bool)
        ensures
            r == self.is_def(def, item),
    {
        def < self.defs.len() && known::def_path_eq(&self.defs[def].path, item)
    }

    /// Whether `def`'s path is that of one of the items.
    pub fn def_path_in(&self, def: usize, items: &[Known]) -> (r: bool)
        ensures
            r == self.def_in(def, items@),
    {
        def < self.defs.len() && known::def_path_in(&self.defs[def].path, items)
    }

    /// `def`, or what it constructs where it is a constructor.
    pub open spec fn target(self, def: usize) -> usize {
        if def < self.defs@.len() {
            match self.defs@[def as int].ctor_of {
                Some(parent) => parent,
                None => def,
            }
        } else {
            def
        }
    }

    /// The item a bare `use`-bound name resolves to, normalized so a
    /// constructor and its parent type or variant compare equal.
    pub fn target_did(&self, def: usize) -> (r: usize)
        ensures
            r == self.target(def),
    {
        if def < self.defs.len() {
            match self.defs[def].ctor_of {
                Some(parent) => parent,
                None => def,
            }
        } else {
            def
        }
    }

    /// The operands of a call: the receiver of a method call first.
    pub open spec fn operands(self, n: usize) -> Seq<usize> {
        match self.kind(n) {
            Kind::Call { func: _, args } => args@,
            Kind::MethodCall { name: _, receiver, args } => seq![receiver] + args@,
            _ => seq![],
        }
    }

    /// The operands of a call: the receiver of a method call first.
    pub fn call_args(&self, n: usize) -> (r: Vec<usize>)
        requires
            self.wf(),
            self.has(n),
        ensures
            r@ == self.operands(n),
            hir::all_below(r@, n as int),
    {
        let mut out: Vec<usize> = Vec::new();
        let list: &Vec<usize> = match &self.nodes[n].kind {
            Kind::Call { args, .. } => args,
            Kind::MethodCall { receiver, args, .. } => {
                out.push(*receiver);
                args
            },
            _ => {
                return out;
            },
        };
        proof {
            assert(self.node_wf(n));
        }
        let ghost head = out@;
        let mut i: usize = 0;
        while i < list.len()
            invariant
                i <= list.len(),
                out@ == head + list@.take(i as int),
                hir::all_below(list@, n as int),
                hir::all_below(out@, n as int),
            decreases list.len() - i,
        {
            out.push(list[i]);
            i = i + 1;
        }
        proof {
            assert(list@.take(list.len() as int) =~= list@);
            assert(self.operands(n) =~= head + list@);
        }
        out
    }

    /// The first operand of a call.
    pub open spec fn first_operand(self, n: usize) -> Option<usize> {
        if self.operands(n).len() > 0 {
            Some(self.operands(n)[0])
        } else {
            None
        }
    }

    /// The first operand of a call.
    pub fn first_arg(&self, n: usize) -> (r: Option<usize>)
        requires
            self.wf(),
            self.has(n),
        ensures
            r == self.first_operand(n),
            r matches Some(a) ==> a < n,
    {
        proof {
            assert(self.node_wf(n));
        }
        match &self.nodes[n].kind {
            Kind::Call { args, .. } => if args.len() > 0 {
                Some(args[0])
            } else {
                None
            },
            Kind::MethodCall { receiver, .. } => Some(*receiver),
            _ => None,
        }
    }

    /// `expr` is a call or a method call.
    pub open spec fn is_call(self, n: usize) -> bool {
        self.kind(n) is Call || self.kind(n) is MethodCall
    }

    /// Whether `expr` is a call or a method call.
    pub fn call(&self, n: usize) -> (r: bool)
        requires
            self.has(n),
        ensures
            r == self.is_call(n),
    {
        match &self.nodes[n].kind {
            Kind::Call { .. } | Kind::MethodCall { .. } => true,
            _ => false,
        }
    }

    /// The call runs one of `items` itself.
    pub open spec fn calls(self, n: usize, items: Seq<Known>) -> bool {
        &&& self.is_call(n)
        &&& self.node(n).callee matches Some(def)
        &&& self.def_in(def, items)
    }

    /// The node stands for one of `items`, or for an impl's method that implements
    /// one.
    pub open spec fn names(self, n: usize, items: Seq<Known>) -> bool {
        self.node(n).item matches Some(def) && self.def_in(def, items)
    }

    /// The call runs one of `items`, or an impl's method that implements one.
    pub open spec fn resolves(self, n: usize, items: Seq<Known>) -> bool {
        self.is_call(n) && self.names(n, items)
    }

    /// Whether `expr` is a call that resolves to one of `items`.
    pub fn is_call_to(&self, n: usize, items: &[Known]) -> (r: bool)
        requires
            self.has(n),
        ensures
            r == self.calls(n, items@),
    {
        match self.nodes[n].callee {
            Some(def) => self.call(n) && self.def_path_in(def, items),
            None => false,
        }
    }

    /// Whether the node stands for one of `items`, or for an impl's method that
    /// implements one.
    pub fn is_named(&self, n: usize, items: &[Known]) -> (r: bool)
        requires
            self.has(n),
        ensures
            r == self.names(n, items@),
    {
        match self.nodes[n].item {
            Some(def) => self.def_path_in(def, items),
            None => false,
        }
    }

    /// [`Hir::is_call_to`] with trait-impl normalization: a `Str::from(..)`-style
    /// path call resolves to the impl's method, which counts as the trait's.
    pub fn resolves_to(&self, n: usize, items: &[Known]) -> (r: bool)
        requires
            self.has(n),
        ensures
            r == self.resolves(n, items@),
    {
        self.call(n) && self.is_named(n, items)
    }

    /// The call runs `item` itself.
    pub open spec fn calls_item(self, n: usize, item: Known) -> bool {
        &&& self.is_call(n)
        &&& self.node(n).callee matches Some(def)
        &&& self.is_def(def, item)
    }

    /// The node stands for `item`, or for an impl's method that implements it.
    pub open spec fn names_item(self, n: usize, item: Known) -> bool {
        self.node(n).item matches Some(def) && self.is_def(def, item)
    }

    /// The call runs `item`, or an impl's method that implements it.
    pub open spec fn resolves_item(self, n: usize, item: Known) -> bool {
        self.is_call(n) && self.names_item(n, item)
    }

    /// Whether `expr` is a call that resolves to `item`.
    pub fn is_call_of(&self, n: usize, item: Known) -> (r: bool)
        requires
            self.has(n),
        ensures
            r == self.calls_item(n, item),
    {
        match self.nodes[n].callee {
            Some(def) => self.call(n) && self.def_path_eq(def, item),
            None => false,
        }
    }

    /// Whether the node stands for `item`, or for an impl's method that implements
    /// it.
    pub fn is_item(&self, n: usize, item: Known) -> (r: bool)
        requires
            self.has(n),
        ensures
            r == self.names_item(n, item),
    {
        match self.nodes[n].item {
            Some(def) => self.def_path_eq(def, item),
            None => false,
        }
    }

    /// [`Hir::is_call_of`] with trait-impl normalization.
    pub fn resolves_of(&self, n: usize, item: Known) -> (r: bool)
        requires
            self.has(n),
        ensures
            r == self.resolves_item(n, item),
    {
        self.call(n) && self.is_item(n, item)
    }

    /// The local that the expression is a bare read of.
    pub open spec fn local(self, n: usize) -> Option<usize> {
        match self.kind(n) {
            Kind::Path { plain, segments: _, res: Res::Local(id) } => if plain {
                Some(id)
            } else {
                None
            },
            _ => None,
        }
    }

    /// The local that the expression is a bare read of.
    pub fn res_local(&self, n: usize) -> (r: Option<usize>)
        requires
            self.has(n),
        ensures
            r == self.local(n),
    {
        match &self.nodes[n].kind {
            Kind::Path { plain, res: Res::Local(id), .. } => if *plain {
                Some(*id)
            } else {
                None
            },
            _ => None,
        }
    }

    /// The type without the references around it.
    pub open spec fn referent(self, t: usize) -> usize
        decreases t,
    {
        match self.types@[t as int].kind {
            TyKind::Ref { inner, .. } => if inner < t {
                self.referent(inner)
            } else {
                t
            },
            _ => t,
        }
    }

    /// The type without the references around it.
    pub fn peel_refs(&self, t: usize) -> (r: usize)
        requires
            self.wf(),
            t < self.types.len(),
        ensures
            r == self.referent(t),
            r <= t,
        decreases t,
    {
        match &self.types[t].kind {
            TyKind::Ref { inner, .. } => {
                proof {
                    assert(self.types@[t as int].below(t as int));
                }
                self.peel_refs(*inner)
            },
            _ => t,
        }
    }

    /// The type is one of the structs or enums `items`.
    pub open spec fn ty_in(self, t: usize, items: Seq<Known>) -> bool {
        match self.types@[t as int].kind {
            TyKind::Adt { def, args: _ } => self.def_in(def, items),
            _ => false,
        }
    }

    /// Whether the type is one of the structs or enums `items`.
    pub fn is_adt_in(&self, t: usize, items: &[Known]) -> (r: bool)
        requires
            t < self.types.len(),
        ensures
            r == self.ty_in(t, items@),
    {
        match &self.types[t].kind {
            TyKind::Adt { def, .. } => self.def_path_in(*def, items),
            _ => false,
        }
    }

    /// `String`, `Str` or `str` behind any references.
    pub open spec fn stringy(self, t: usize) -> bool {
        let t = self.referent(t);
        self.types@[t as int].kind is Str || self.ty_in(t, seq![Known::StringTy, Known::StrTy])
    }

    /// `String`, `Str` or `&str`: the string shape that a `From`/`Into`
    /// conversion or a `.to_string()`/`.clone()` result must have to count as
    /// text.
    pub fn is_string_ty(&self, t: usize) -> (r: bool)
        requires
            self.wf(),
            t < self.types.len(),
        ensures
            r == self.stringy(t),
    {
        let t: usize = self.peel_refs(t);
        match &self.types[t].kind {
            TyKind::Str => true,
            _ => self.is_adt_in(t, &[Known::StringTy, Known::StrTy]),
        }
    }

    /// The expression without drop-temps around it.
    pub open spec fn undropped(self, n: usize) -> usize
        decreases n,
    {
        match self.kind(n) {
            Kind::DropTemps { inner } => if inner < n {
                self.undropped(inner)
            } else {
                n
            },
            _ => n,
        }
    }

    /// The expression without drop-temps around it.
    pub fn peel_drop_temps(&self, n: usize) -> (r: usize)
        requires
            self.wf(),
            self.has(n),
        ensures
            r == self.undropped(n),
            r <= n,
            !(self.kind(r) is DropTemps),
        decreases n,
    {
        match &self.nodes[n].kind {
            Kind::DropTemps { inner } => {
                proof {
                    assert(self.node_wf(n));
                }
                self.peel_drop_temps(*inner)
            },
            _ => n,
        }
    }

    /// The tail of a block, and whether statements come before it.
    pub open spec fn block_tail(self, n: usize) -> Option<usize> {
        match self.kind(n) {
            Kind::Block { stmts: _, tail } => tail,
            _ => None,
        }
    }

    pub open spec fn has_stmts(self, n: usize) -> bool {
        match self.kind(n) {
            Kind::Block { stmts, tail: _ } => stmts@.len() > 0,
            _ => false,
        }
    }

    /// What a block expression without statements evaluates to.
    pub open spec fn sole_tail(self, n: usize) -> Option<usize> {
        match self.kind(n) {
            Kind::BlockExpr { block } => if self.has_stmts(block) {
                None
            } else {
                self.block_tail(block)
            },
            _ => None,
        }
    }

    /// What a block expression without statements evaluates to.
    pub fn bare_tail(&self, n: usize) -> (r: Option<usize>)
        requires
            self.wf(),
            self.has(n),
        ensures
            r == self.sole_tail(n),
            r matches Some(t) ==> t < n,
    {
        proof {
            assert(self.node_wf(n));
        }
        match &self.nodes[n].kind {
            Kind::BlockExpr { block } => {
                proof {
                    assert(self.node_wf(*block));
                }
                match &self.nodes[*block].kind {
                    Kind::Block { stmts, tail } => if stmts.len() > 0 {
                        None
                    } else {
                        *tail
                    },
                    _ => None,
                }
            },
            _ => None,
        }
    }

    /// The expression a body actually evaluates: drop-temps and statement-free
    /// blocks around it removed.
    pub open spec fn evaluated(self, n: usize) -> usize
        decreases n,
    {
        match (self.kind(n), self.sole_tail(n)) {
            (Kind::DropTemps { inner }, _) => if inner < n {
                self.evaluated(inner)
            } else {
                n
            },
            (_, Some(tail)) => if tail < n {
                self.evaluated(tail)
            } else {
                n
            },
            _ => n,
        }
    }

    /// The expression a body actually evaluates: `{ x }` peels to `x`, while a
    /// block with statements stays whole (its statements do work a rewrite
    /// would drop).
    pub fn body_expr(&self, n: usize) -> (r: usize)
        requires
            self.wf(),
            self.has(n),
        ensures
            r == self.evaluated(n),
            r <= n,
        decreases n,
    {
        if let Kind::DropTemps { inner } = &self.nodes[n].kind {
            proof {
                assert(self.node_wf(n));
            }
            return self.body_expr(*inner);
        }
        match self.bare_tail(n) {
            Some(tail) => self.body_expr(tail),
            None => n,
        }
    }

    /// The expression without `&`, `.clone()` and drop-temps around it.
    pub open spec fn unwrapped(self, n: usize) -> usize
        decreases n,
    {
        match (self.kind(n), self.first_operand(n)) {
            (Kind::AddrOf { mutable: _, raw: _, operand }, _) => if operand < n {
                self.unwrapped(operand)
            } else {
                n
            },
            (Kind::DropTemps { inner }, _) => if inner < n {
                self.unwrapped(inner)
            } else {
                n
            },
            (_, Some(first)) => if self.calls_item(n, Known::Clone) && first < n {
                self.unwrapped(first)
            } else {
                n
            },
            _ => n,
        }
    }

    /// `&x`, `x.clone()`, drop-temps: wrappers a map receiver or a `zip`
    /// argument may carry; the analysis looks through them.
    pub fn strip_wraps(&self, n: usize) -> (r: usize)
        requires
            self.wf(),
            self.has(n),
        ensures
            r == self.unwrapped(n),
            r <= n,
        decreases n,
    {
        proof {
            assert(self.node_wf(n));
        }
        match &self.nodes[n].kind {
            Kind::AddrOf { operand, .. } => {
                return self.strip_wraps(*operand);
            },
            Kind::DropTemps { inner } => {
                return self.strip_wraps(*inner);
            },
            _ => {},
        }
        if self.is_call_of(n, Known::Clone) {
            if let Some(first) = self.first_arg(n) {
                return self.strip_wraps(first);
            }
        }
        n
    }

    /// A `From` or `Into` conversion to a string.
    pub open spec fn converts_to_string(self, n: usize) -> bool {
        self.resolves(n, seq![Known::Into, Known::From]) && self.stringy(self.node(n).ty)
    }

    /// The expression without the conversions and statement-free blocks around
    /// a produced string.
    pub open spec fn untailed(self, n: usize) -> usize
        decreases n,
    {
        match (self.kind(n), self.sole_tail(n), self.first_operand(n)) {
            (Kind::DropTemps { inner }, _, _) => if inner < n {
                self.untailed(inner)
            } else {
                n
            },
            (_, Some(tail), _) => if tail < n {
                self.untailed(tail)
            } else {
                n
            },
            (_, _, Some(first)) => if self.converts_to_string(n) && first < n {
                self.untailed(first)
            } else {
                n
            },
            _ => n,
        }
    }

    /// `format!(..).into()`, `String::from(format!(..))`, `{ format!(..) }`:
    /// tail conversions and blocks around a produced string are transparent to
    /// the lints that inspect how a `String`/`Str` value was built.
    pub fn strip_tail(&self, n: usize) -> (r: usize)
        requires
            self.wf(),
            self.has(n),
        ensures
            r == self.untailed(n),
            r <= n,
        decreases n,
    {
        proof {
            assert(self.node_wf(n));
        }
        if let Kind::DropTemps { inner } = &self.nodes[n].kind {
            return self.strip_tail(*inner);
        }
        if let Some(tail) = self.bare_tail(n) {
            return self.strip_tail(tail);
        }
        if let Some(first) = self.first_arg(n) {
            if self.resolves_to(n, &[Known::Into, Known::From]) && self.is_string_ty(
                self.nodes[n].ty,
            ) {
                return self.strip_tail(first);
            }
        }
        n
    }

    /// The place of `id` in `list`, where it first stands.
    pub open spec fn place(list: Seq<usize>, id: usize, from: int) -> Option<int>
        decreases list.len() - from,
    {
        if from < 0 || from >= list.len() {
            None
        } else if list[from] == id {
            Some(from)
        } else {
            Self::place(list, id, from + 1)
        }
    }

    /// The place of operand `arg` in the call `n`.
    pub open spec fn operand_place(self, n: usize, arg: usize) -> Option<int> {
        Self::place(self.operands(n), arg, 0)
    }

    /// The place of operand `arg` in the call `n`.
    pub fn arg_index(&self, n: usize, arg: usize) -> (r: Option<usize>)
        requires
            self.wf(),
            self.has(n),
        ensures
            match r {
                Some(i) => self.operand_place(n, arg) == Some(i as int) && i < self.operands(
                    n,
                ).len() && self.operands(n)[i as int] == arg,
                None => self.operand_place(n, arg) is None,
            },
    {
        let args: Vec<usize> = self.call_args(n);
        let mut i: usize = 0;
        while i < args.len()
            invariant
                i <= args.len(),
                args@ == self.operands(n),
                self.operand_place(n, arg) == Self::place(args@, arg, i as int),
            decreases args.len() - i,
        {
            if args[i] == arg {
                return Some(i);
            }
            i = i + 1;
        }
        None
    }

    /// The parent of a node.
    pub open spec fn up(self, n: usize) -> Option<usize> {
        match self.node(n).parent {
            Some(p) => if n < p < self.nodes@.len() {
                Some(p)
            } else {
                None
            },
            None => None,
        }
    }

    /// The parent of a node.
    pub fn parent(&self, n: usize) -> (r: Option<usize>)
        requires
            self.wf(),
            self.has(n),
        ensures
            r == self.up(n),
            r matches Some(p) ==> n < p < self.nodes.len(),
    {
        proof {
            assert(self.node_wf(n));
        }
        self.nodes[n].parent
    }

    /// The expression starts the expansion `expn`.
    pub open spec fn starts(self, n: usize, expn: u32) -> bool {
        &&& self.kind(n).is_expr()
        &&& self.node(n).mac matches Some(mac)
        &&& mac.expn == expn
    }

    /// The nearest expression above `n` that starts the expansion `expn`.
    pub open spec fn root_of(self, n: usize, expn: u32) -> Option<usize>
        decreases self.nodes@.len() - n,
    {
        match self.up(n) {
            Some(p) => if self.starts(p, expn) {
                Some(p)
            } else {
                self.root_of(p, expn)
            },
            None => None,
        }
    }

    /// The outermost expression of macro expansion `expn` containing `n`; nothing
    /// when the expansion's root cannot be found.
    pub fn expansion_root(&self, n: usize, expn: u32) -> (r: Option<usize>)
        requires
            self.wf(),
            self.has(n),
        ensures
            r == self.root_of(n, expn),
            r matches Some(p) ==> n < p < self.nodes.len(),
        decreases self.nodes.len() - n,
    {
        match self.parent(n) {
            Some(p) => {
                if self.nodes[p].kind.expr() {
                    if let Some(mac) = self.nodes[p].mac {
                        if mac.expn == expn {
                            return Some(p);
                        }
                    }
                }
                self.expansion_root(p, expn)
            },
            None => None,
        }
    }

    /// `n` is what `&`, `*` or drop-temps at `p` wraps.
    pub open spec fn wraps(self, p: usize, n: usize) -> bool {
        match self.kind(p) {
            Kind::AddrOf { mutable: _, raw: _, operand } => operand == n,
            Kind::Unary { op, operand } => op is Deref && operand == n,
            Kind::DropTemps { inner } => inner == n,
            _ => false,
        }
    }

    /// Whether `n` is what `&`, `*` or drop-temps at `p` wraps.
    pub fn wrapper_of(&self, p: usize, n: usize) -> (r: bool)
        requires
            self.has(p),
        ensures
            r == self.wraps(p, n),
    {
        match &self.nodes[p].kind {
            Kind::AddrOf { operand, .. } => *operand == n,
            Kind::Unary { op, operand } => *op == UnOp::Deref && *operand == n,
            Kind::DropTemps { inner } => *inner == n,
            _ => false,
        }
    }

    /// The call that `n`'s value is an argument of, and which: through
    /// `.clone()`, `.to_owned()` and `.to_string()`, `&` and `*`, drop-temps,
    /// and the `format!` that it is an argument of.
    pub open spec fn carried(self, n: usize) -> Option<(usize, int)>
        decreases self.nodes@.len() - n,
    {
        match self.up(n) {
            Some(p) => match self.node(p).root_mac {
                Some(mac) if mac.is_format => match self.root_of(p, mac.expn) {
                    Some(root) => if n < root < self.nodes@.len() {
                        self.carried(root)
                    } else {
                        None
                    },
                    None => None,
                },
                _ => if self.wraps(p, n) {
                    self.carried(p)
                } else if self.is_call(p) {
                    match self.operand_place(p, n) {
                        Some(i) => if i == 0 && self.calls(p, carrier_calls()) {
                            self.carried(p)
                        } else {
                            Some((p, i))
                        },
                        None => None,
                    }
                } else {
                    None
                },
            },
            None => None,
        }
    }

    /// The call and the place in it that `read` sits at after climbing through
    /// value carriers; nothing when the value is consumed any other way: a
    /// `match`/`if` scrutinee, a `let` init, a field, the callee, a non-carrier
    /// call like `.len()`.
    pub fn carried_arg(&self, read: usize) -> (r: Option<(usize, usize)>)
        requires
            self.wf(),
            self.has(read),
        ensures
            match r {
                Some((call, i)) => self.carried(read) == Some((call, i as int)) && self.has(call),
                None => self.carried(read) is None,
            },
        decreases self.nodes.len() - read,
    {
        let p: usize = match self.parent(read) {
            Some(p) => p,
            None => {
                return None;
            },
        };
        if let Some(mac) = self.nodes[p].root_mac {
            if mac.is_format {
                return match self.expansion_root(p, mac.expn) {
                    Some(root) => self.carried_arg(root),
                    None => None,
                };
            }
        }
        if self.wrapper_of(p, read) {
            return self.carried_arg(p);
        }
        if !self.call(p) {
            return None;
        }
        match self.arg_index(p, read) {
            Some(i) => {
                if i == 0 && self.is_call_to(p, &[Known::Clone, Known::ToOwned, Known::ToString]) {
                    self.carried_arg(p)
                } else {
                    Some((p, i))
                }
            },
            None => None,
        }
    }
}

impl Hir {
    /// One of the bounds is one of `items`.
    pub open spec fn any_bound(self, bounds: Seq<Bound>, items: Seq<Known>) -> bool {
        exists|k: int| 0 <= k < bounds.len() && self.def_in((#[trigger] bounds[k]).def, items)
    }

    /// The parameter that operand `i` of the call fills is bounded by one of
    /// `items`.
    pub open spec fn bounded(self, call: usize, i: int, items: Seq<Known>) -> bool {
        match self.node(call).bounds {
            Some(bounds) => 0 <= i < bounds@.len() && self.any_bound(bounds@[i]@, items),
            None => false,
        }
    }

    /// Whether one of the bounds is one of `items`.
    pub fn bounds_hold(&self, bounds: &Vec<Bound>, items: &[Known]) -> (r: bool)
        ensures
            r == self.any_bound(bounds@, items@),
    {
        let mut k: usize = 0;
        while k < bounds.len()
            invariant
                k <= bounds.len(),
                forall|j: int| 0 <= j < k ==> !self.def_in((#[trigger] bounds@[j]).def, items@),
            decreases bounds.len() - k,
        {
            if self.def_path_in(bounds[k].def, items) {
                assert(self.def_in(bounds@[k as int].def, items@));
                return true;
            }
            k = k + 1;
        }
        false
    }

    /// Whether the parameter that operand `i` of the call fills is bounded by
    /// one of `items`.
    pub fn arg_has_bound(&self, call: usize, i: usize, items: &[Known]) -> (r: bool)
        requires
            self.has(call),
        ensures
            r == self.bounded(call, i as int, items@),
    {
        match &self.nodes[call].bounds {
            Some(bounds) => i < bounds.len() && self.bounds_hold(&bounds[i], items),
            None => false,
        }
    }
}

/// Calls that carry a value into a new shape without reading it.
pub open spec fn carrier_calls() -> Seq<Known> {
    seq![Known::Clone, Known::ToOwned, Known::ToString]
}

/// `&x`, `x.clone()` and the like unwrap to what `x` does; what is none of them is
/// left as it is, and what is unwrapped has nothing more to unwrap.
pub proof fn wrappers_are_looked_through(hir: Hir, n: usize)
    ensures
        hir.kind(n) matches Kind::AddrOf { mutable: _, raw: _, operand } ==> (operand < n
            ==> hir.unwrapped(n) == hir.unwrapped(operand)),
        hir.kind(n) matches Kind::DropTemps { inner } ==> (inner < n ==> hir.unwrapped(n)
            == hir.unwrapped(inner) && hir.undropped(n) == hir.undropped(inner)),
        hir.kind(n) matches Kind::MethodCall { name: _, receiver, args: _ } ==> (receiver < n
            && hir.calls_item(n, Known::Clone) ==> hir.unwrapped(n) == hir.unwrapped(receiver)),
        !(hir.kind(n) is AddrOf) && !(hir.kind(n) is DropTemps) && !hir.calls_item(n, Known::Clone)
            ==> hir.unwrapped(n) == n,
        !(hir.kind(n) is DropTemps) ==> hir.undropped(n) == n,
        hir.unwrapped(hir.unwrapped(n)) == hir.unwrapped(n),
    decreases n,
{
    let inner = match (hir.kind(n), hir.first_operand(n)) {
        (Kind::AddrOf { mutable: _, raw: _, operand }, _) => operand,
        (Kind::DropTemps { inner }, _) => inner,
        (_, Some(first)) => first,
        _ => n,
    };
    if inner < n {
        wrappers_are_looked_through(hir, inner);
    }
}

/// `{ x }` is worth what `x` is; a block with statements is worth itself alone,
/// since its statements do work, and so is whatever is no block.
pub proof fn blocks_are_worth_their_tail(hir: Hir, n: usize)
    ensures
        hir.kind(n) matches Kind::BlockExpr { block } ==> match hir.kind(block) {
            Kind::Block { stmts, tail } => {
                &&& stmts@.len() == 0 ==> (tail matches Some(last) ==> (last < n ==> hir.evaluated(
                    n,
                ) == hir.evaluated(last)))
                &&& stmts@.len() > 0 ==> hir.evaluated(n) == n
            },
            _ => true,
        },
        hir.kind(n) matches Kind::DropTemps { inner } ==> (inner < n ==> hir.evaluated(n)
            == hir.evaluated(inner)),
        !(hir.kind(n) is BlockExpr) && !(hir.kind(n) is DropTemps) ==> hir.evaluated(n) == n,
{
}

/// The place of an operand is the first at which it stands among the call's
/// receiver and arguments; what is no operand has none.
pub proof fn operands_have_their_place(hir: Hir, n: usize, arg: usize)
    ensures
        match hir.operand_place(n, arg) {
            Some(i) => 0 <= i < hir.operands(n).len() && hir.operands(n)[i] == arg && forall|k: int|
                0 <= k < i ==> #[trigger] hir.operands(n)[k] != arg,
            None => !hir.operands(n).contains(arg),
        },
        hir.kind(n) matches Kind::MethodCall { name: _, receiver, args } ==> hir.operand_place(
            n,
            receiver,
        ) == Some(0int) && hir.operands(n).len() == args@.len() + 1,
{
    lemma_place(hir.operands(n), arg, 0);
    if let Kind::MethodCall { name: _, receiver, args } = hir.kind(n) {
        assert(hir.operands(n)[0] == receiver);
        lemma_place(hir.operands(n), receiver, 0);
    }
}

proof fn lemma_place(list: Seq<usize>, id: usize, from: int)
    requires
        0 <= from,
    ensures
        match Hir::place(list, id, from) {
            Some(i) => from <= i < list.len() && list[i] == id && forall|k: int|
                from <= k < i ==> #[trigger] list[k] != id,
            None => forall|k: int| from <= k < list.len() ==> #[trigger] list[k] != id,
        },
    decreases list.len() - from,
{
    if from < list.len() && list[from] != id {
        lemma_place(list, id, from + 1);
    }
}

/// What carries a value on to a call leaves it the operand that it was: a borrow,
/// a dereference, a `.clone()` or a conversion to text is passed through, and any
/// other call takes it at its own place.
pub proof fn carried_values_reach_their_call(hir: Hir, n: usize, p: usize)
    requires
        hir.up(n) == Some(p),
        hir.node(p).root_mac matches Some(mac) ==> !mac.is_format,
    ensures
        hir.kind(p) matches Kind::AddrOf { mutable: _, raw: _, operand } ==> (operand == n
            ==> hir.carried(n) == hir.carried(p)),
        hir.kind(p) matches Kind::DropTemps { inner } ==> (inner == n ==> hir.carried(n)
            == hir.carried(p)),
        hir.kind(p) matches Kind::MethodCall { name: _, receiver, args: _ } ==> (receiver == n
            ==> hir.carried(n) == (if hir.calls(
            p,
            seq![Known::Clone, Known::ToOwned, Known::ToString],
        ) {
            hir.carried(p)
        } else {
            Some((p, 0int))
        })),
        hir.kind(p) matches Kind::MethodCall { name: _, receiver, args } ==> (receiver != n
            && args@.contains(n) ==> (hir.carried(n) matches Some(place) && place.0 == p && place.1
            >= 1 && hir.operands(p)[place.1] == n)),
{
    operands_have_their_place(hir, p, n);
    assert(carrier_calls() =~= seq![Known::Clone, Known::ToOwned, Known::ToString]);
    if let Kind::MethodCall { name: _, receiver, args } = hir.kind(p) {
        if args@.contains(n) {
            let k = choose|k: int| 0 <= k < args@.len() && args@[k] == n;
            assert(hir.operands(p)[k + 1] == n);
        }
        assert(hir.operands(p)[0] == receiver);
    }
}

/// A call is known by what it runs: it runs one of the items exactly where the
/// definition that it resolves to has the path of one of them.
pub proof fn calls_are_known_by_what_they_run(hir: Hir, n: usize, items: Seq<Known>)
    ensures
        hir.resolves(n, items) <==> hir.is_call(n) && (exists|k: int|
            0 <= k < items.len() && (hir.node(n).item matches Some(def) && hir.is_def(
                def,
                #[trigger] items[k],
            ))),
        hir.converts_to_string(n) <==> hir.stringy(hir.node(n).ty) && hir.is_call(n) && (
        hir.node(n).item matches Some(def) && (hir.is_def(def, Known::From) || hir.is_def(
            def,
            Known::Into,
        ))),
{
    if let Some(def) = hir.node(n).item {
        if hir.def_in(def, items) {
            let k = choose|k: int|
                0 <= k < items.len() && (#[trigger] items[k]).segments() == text::texts(
                    hir.defs@[def as int].path@,
                );
            assert(hir.is_def(def, items[k]));
        }
        if exists|k: int| 0 <= k < items.len() && hir.is_def(def, #[trigger] items[k]) {
            let k = choose|k: int| 0 <= k < items.len() && hir.is_def(def, #[trigger] items[k]);
            assert(items[k].segments() == text::texts(hir.defs@[def as int].path@));
        }
        let pair = seq![Known::Into, Known::From];
        assert(pair[0] == Known::Into && pair[1] == Known::From);
    }
}

} // verus!
