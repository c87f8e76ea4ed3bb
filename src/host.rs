//! What the host compiler hands over: typed bodies as closed sets of node
//! shapes, the algebraic types they mention, the registered macro calls and
//! the source files; plus the mutable state of one lowering run.
use vstd::prelude::*;
use crate::adt::{AdtDescriptor, AdtError};
use crate::ast::{
    Attribute, BinOp, BindingMode, BorrowKind, CanonicalUserType, ExpnData, FnHeader,
    GenericArg, Generics, ImplicitSelfKind, IsAuto, ItemKind, LintLevel, LitKind, LogicalOp,
    PredicateKind, Scope, TraitItem, Ty, UnOp, Unsafety,
};
use crate::ids::{DefId, HirId};
use crate::namespace::Options;
use crate::span::{ExportedSpans, ReadSpanErr, SourceFile, Span, Spanned};

verus! {

/// The shape of a node's type, as far as lowering needs to know it.
#[derive(Debug)]
pub enum TyShape {
    /// An algebraic type: its index among the context's types, and its arguments.
    Adt { adt: usize, substs: Vec<GenericArg> },
    Tuple,
    /// A function item, by identifier.
    FnDef { def: DefId },
    FnPtr,
    Other,
}

/// The payload of a scalar constant: its bits and its size in bytes.
#[derive(Debug, Clone, Copy)]
pub struct ScalarInt {
    pub data: u128,
    pub size: u8,
}

/// A compile-time constant as the host's evaluator leaves it.
#[derive(Debug)]
pub enum HostConstant {
    /// Evaluated to a scalar; `debug` renders the constant.
    Scalar { lit: ScalarInt, debug: String },
    /// Still a type-level constant expression.
    Expr(Box<HostExpr>),
    /// Not evaluated; `debug` renders the constant.
    Unevaluated { debug: String },
}

/// A node of a typed body.
#[derive(Debug)]
pub struct HostExpr {
    pub ty: Ty,
    pub shape: TyShape,
    pub span: Span,
    /// The macro-expansion backtrace of `span`, innermost expansion first.
    pub backtrace: Vec<ExpnData>,
    pub kind: HostExprKind,
}

#[derive(Debug)]
pub struct HostFieldExpr {
    /// The field's position in its variant.
    pub field: usize,
    pub expr: HostExpr,
}

#[derive(Debug)]
pub struct HostFru {
    pub base: Box<HostExpr>,
    pub field_types: Vec<Ty>,
}

#[derive(Debug)]
pub struct HostBlock {
    pub targeted_by_break: bool,
    pub region_scope: Scope,
    pub opt_destruction_scope: Option<Scope>,
    pub span: Span,
    pub stmts: Vec<HostStmt>,
    pub expr: Option<Box<HostExpr>>,
    pub safety_mode: crate::ast::BlockSafety,
}

#[derive(Debug)]
pub enum HostStmtKind {
    Expr { scope: Scope, expr: HostExpr },
    Let {
        remainder_scope: Scope,
        init_scope: Scope,
        pattern: HostPat,
        initializer: Option<HostExpr>,
        else_block: Option<HostBlock>,
        lint_level: LintLevel,
        /// The attributes attached to the region of `init_scope`.
        attributes: Vec<Attribute>,
    },
}

#[derive(Debug)]
pub struct HostStmt {
    pub kind: HostStmtKind,
    pub opt_destruction_scope: Option<Scope>,
}

#[derive(Debug)]
pub struct HostArm {
    pub pattern: HostPat,
    pub guard: Option<HostExpr>,
    pub body: HostExpr,
    pub lint_level: LintLevel,
    pub scope: Scope,
    pub span: Span,
    /// The attributes attached to the arm's region.
    pub attributes: Vec<Attribute>,
}

#[derive(Debug)]
pub enum HostExprKind {
    /// A lexical-scope marker around `value`; `hir_id` and `attributes` are
    /// those of the syntax node the region belongs to, if any.
    Scope {
        region_scope: Scope,
        lint_level: LintLevel,
        value: Box<HostExpr>,
        hir_id: Option<(usize, usize)>,
        attributes: Vec<Attribute>,
    },
    NonHirLiteral { lit: ScalarInt },
    ZstLiteral { user_ty: Option<CanonicalUserType> },
    Field { lhs: Box<HostExpr>, variant_index: usize, name: usize },
    Literal { lit: Spanned<LitKind>, neg: bool },
    VarRef { var: usize, hir_id: HirId },
    Borrow { borrow_kind: BorrowKind, arg: Box<HostExpr> },
    Deref { arg: Box<HostExpr> },
    Unary { op: UnOp, arg: Box<HostExpr> },
    Binary { op: BinOp, lhs: Box<HostExpr>, rhs: Box<HostExpr> },
    LogicalOp { op: LogicalOp, lhs: Box<HostExpr>, rhs: Box<HostExpr> },
    Cast { source: Box<HostExpr> },
    Use { source: Box<HostExpr> },
    NeverToAny { source: Box<HostExpr> },
    If {
        if_then_scope: Scope,
        cond: Box<HostExpr>,
        then: Box<HostExpr>,
        else_opt: Option<Box<HostExpr>>,
    },
    Loop { body: Box<HostExpr> },
    Match { scrutinee: Box<HostExpr>, arms: Vec<HostArm> },
    Let { expr: Box<HostExpr>, pat: Box<HostPat> },
    Block { block: HostBlock },
    Assign { lhs: Box<HostExpr>, rhs: Box<HostExpr> },
    AssignOp { op: BinOp, lhs: Box<HostExpr>, rhs: Box<HostExpr> },
    Index { lhs: Box<HostExpr>, index: Box<HostExpr> },
    /// A call; `ty` is the type of the callee and `ty_shape` its shape.
    Call {
        ty: Ty,
        ty_shape: TyShape,
        fun: Box<HostExpr>,
        args: Vec<HostExpr>,
        from_hir_call: bool,
        fn_span: Span,
    },
    Adt {
        adt: usize,
        variant_index: usize,
        user_ty: Option<CanonicalUserType>,
        fields: Vec<HostFieldExpr>,
        base: Option<HostFru>,
    },
    Tuple { fields: Vec<HostExpr> },
    Array { fields: Vec<HostExpr> },
    Return { value: Option<Box<HostExpr>> },
    Break { label: Scope, value: Option<Box<HostExpr>> },
    Continue { label: Scope },
    /// A node shape the model does not cover, rendered for diagnosis.
    Unmodeled { debug: String },
}

/// A node of a pattern.
#[derive(Debug)]
pub struct HostPat {
    pub ty: Ty,
    pub shape: TyShape,
    pub span: Span,
    pub kind: HostPatKind,
}

#[derive(Debug)]
pub struct HostFieldPat {
    /// The field's position in its variant.
    pub field: usize,
    pub pattern: HostPat,
}

#[derive(Debug)]
pub enum HostPatKind {
    Wild,
    Binding {
        mutability: bool,
        name: String,
        mode: BindingMode,
        /// The host's key for the bound variable.
        var: usize,
        hir_id: HirId,
        ty: Ty,
        subpattern: Option<Box<HostPat>>,
        is_primary: bool,
    },
    Variant {
        adt: usize,
        variant_index: usize,
        substs: Vec<GenericArg>,
        subpatterns: Vec<HostFieldPat>,
    },
    /// The fields of a single-variant type or of a tuple.
    Leaf { subpatterns: Vec<HostFieldPat> },
    Deref { subpattern: Box<HostPat> },
    /// A constant of type `ty`.
    Constant { ty: Ty, value: HostConstant },
    Or { pats: Vec<HostPat> },
}

#[derive(Debug)]
pub struct HostParam {
    pub pat: Option<HostPat>,
    pub ty: Ty,
    pub ty_span: Option<Span>,
    pub self_kind: Option<ImplicitSelfKind>,
    pub hir_id: Option<HirId>,
    pub attributes: Vec<Attribute>,
}

/// A function body together with its signature.
#[derive(Debug)]
pub struct HostFn {
    pub header: FnHeader,
    pub params: Vec<HostParam>,
    pub ret: Ty,
    pub body: HostExpr,
    pub sig_span: Span,
}

/// What owns a list of bounds: an associated type and an opaque type are
/// described by their own item bounds, anything else by its predicates.
#[derive(Debug, Clone, Copy)]
pub enum BoundsOwner {
    AssocType,
    OpaqueType,
    Other,
}

/// A predicate of a bound list.
#[derive(Debug)]
pub struct HostPredicate {
    /// The predicate, when it has no bound variables.
    pub kind: Option<PredicateKind>,
    pub span: Span,
}

/// Both lists of predicates the host knows for an owner of bounds.
#[derive(Debug)]
pub struct HostBounds {
    pub owner: BoundsOwner,
    pub item_bounds: Vec<HostPredicate>,
    pub predicates: Vec<HostPredicate>,
}

#[derive(Debug)]
pub enum HostItemKind {
    Fn { generics: Generics, def: HostFn },
    Const { ty: Ty, body: HostExpr },
    Static { ty: Ty, mutability: bool, body: HostExpr },
    Mod { items: Vec<HostItem> },
    Trait {
        is_auto: IsAuto,
        unsafety: Unsafety,
        generics: Generics,
        bounds: HostBounds,
        items: Vec<TraitItem>,
    },
    TraitAlias { generics: Generics, bounds: HostBounds },
    /// A declaration with no body, already in its portable form.
    Portable(ItemKind),
}

/// A declaration of the declaration tree.
#[derive(Debug)]
pub struct HostItem {
    /// The declaration's own name.
    pub name: String,
    pub owner_id: DefId,
    pub span: Span,
    /// The macro-expansion backtrace of `span`, innermost expansion first.
    pub backtrace: Vec<ExpnData>,
    pub vis_span: Span,
    pub attributes: Vec<Attribute>,
    pub kind: HostItemKind,
}

/// A macro invocation the host recorded: its call site and the span of
/// its argument list.
#[derive(Debug)]
pub struct MacroCall {
    pub call_site: Span,
    pub argument: Span,
}

/// Everything lowering reads and never changes.
#[derive(Debug)]
pub struct Ctx {
    pub options: Options,
    pub macro_calls: Vec<MacroCall>,
    pub files: Vec<SourceFile>,
    pub adts: Vec<AdtDescriptor>,
    /// The size in bytes of `isize` and `usize` on the target.
    pub pointer_bytes: u8,
    /// The span given to nodes that have none of their own.
    pub dummy_span: Span,
}

impl Ctx {
    pub open spec fn wf(&self) -> bool {
        forall|a: int| 0 <= a < self.adts.len() ==> (#[trigger] self.adts@[a]).wf()
    }
}

#[derive(Debug)]
pub struct LocalVar {
    pub var: usize,
    pub name: String,
}

/// Declared names of local variables, by the host's key; insert-only, the
/// latest entry for a key wins.
#[derive(Debug)]
pub struct LocalVars {
    pub entries: Vec<LocalVar>,
}

/// The name recorded last for `var` among `entries`.
pub open spec fn lookup_var(entries: Seq<LocalVar>, var: usize) -> Option<Seq<char>>
    decreases entries.len(),
{
    if entries.len() == 0 {
        None
    } else if entries.last().var == var {
        Some(entries.last().name@)
    } else {
        lookup_var(entries.drop_last(), var)
    }
}

impl LocalVars {
    pub fn new() -> (r: LocalVars)
        ensures
            r.entries@ == Seq::<LocalVar>::empty(),
    {
        LocalVars { entries: Vec::new() }
    }

    pub fn insert(&mut self, var: usize, name: String)
        ensures
            final(self).entries@ == old(self).entries@.push(LocalVar { var, name }),
    {
        self.entries.push(LocalVar { var, name });
    }

    pub fn get(&self, var: usize) -> (r: Option<String>)
        ensures
            match r {
                Some(n) => lookup_var(self.entries@, var) == Some(n@),
                None => lookup_var(self.entries@, var) is None,
            },
    {
        let mut k: usize = self.entries.len();
        assert(self.entries@.subrange(0, k as int) =~= self.entries@);
        while k > 0
            invariant
                k <= self.entries.len(),
                lookup_var(self.entries@, var) == lookup_var(self.entries@.subrange(0, k as int), var),
            decreases k,
        {
            proof {
                let p = self.entries@.subrange(0, k as int);
                assert(p.drop_last() =~= self.entries@.subrange(0, k - 1));
                assert(p.last() == self.entries@[k - 1]);
            }
            if self.entries[k - 1].var == var {
                return Some(self.entries[k - 1].name.clone());
            }
            k = k - 1;
        }
        None
    }
}

/// The mutable state of one lowering run.
#[derive(Debug)]
pub struct State {
    pub locals: LocalVars,
    pub exported: ExportedSpans,
    /// Where a predicate had to be replaced by an ambiguous one.
    pub warnings: Vec<Span>,
    /// The errors of the declarations that were given up, in order.
    pub fatals: Vec<Fatal>,
}

/// `b` extends `a`: no local name and no exported span is ever dropped.
pub open spec fn grows(a: State, b: State) -> bool {
    &&& a.locals.entries@.len() <= b.locals.entries@.len()
    &&& b.locals.entries@.subrange(0, a.locals.entries@.len() as int) == a.locals.entries@
    &&& a.exported.spans@.len() <= b.exported.spans@.len()
    &&& b.exported.spans@.subrange(0, a.exported.spans@.len() as int) == a.exported.spans@
}

pub broadcast proof fn lemma_grows_refl(a: State)
    ensures
        #[trigger] grows(a, a),
{
    assert(a.locals.entries@.subrange(0, a.locals.entries@.len() as int) =~= a.locals.entries@);
    assert(a.exported.spans@.subrange(0, a.exported.spans@.len() as int) =~= a.exported.spans@);
}

pub broadcast proof fn lemma_grows_trans(a: State, b: State, c: State)
    requires
        #[trigger] grows(a, b),
        #[trigger] grows(b, c),
    ensures
        grows(a, c),
{
    assert(c.locals.entries@.subrange(0, a.locals.entries@.len() as int) =~= c.locals.entries@.subrange(
        0,
        b.locals.entries@.len() as int,
    ).subrange(0, a.locals.entries@.len() as int));
    assert(c.exported.spans@.subrange(0, a.exported.spans@.len() as int) =~= c.exported.spans@.subrange(
        0,
        b.exported.spans@.len() as int,
    ).subrange(0, a.exported.spans@.len() as int));
}

impl State {
    /// Records `s` as exported and hands it back for attaching.
    pub fn export(&mut self, s: &Span) -> (r: Span)
        ensures
            r == *s,
            final(self).exported.spans@ == old(self).exported.spans@.push(*s),
            final(self).locals == old(self).locals,
            final(self).warnings == old(self).warnings,
            final(self).fatals == old(self).fatals,
            grows(*old(self), *final(self)),
    {
        let r = self.exported.export(s);
        proof {
            assert(self.locals.entries@.subrange(0, old(self).locals.entries@.len() as int) =~= old(self).locals.entries@);
            assert(self.exported.spans@.subrange(0, old(self).exported.spans@.len() as int) =~= old(self).exported.spans@);
        }
        r
    }

    /// Records that variable `var` is declared with name `name`.
    pub fn bind(&mut self, var: usize, name: String)
        ensures
            final(self).locals.entries@ == old(self).locals.entries@.push(LocalVar { var, name }),
            final(self).exported == old(self).exported,
            final(self).warnings == old(self).warnings,
            final(self).fatals == old(self).fatals,
            grows(*old(self), *final(self)),
    {
        self.locals.insert(var, name);
        proof {
            assert(self.locals.entries@.subrange(0, old(self).locals.entries@.len() as int) =~= old(self).locals.entries@);
            assert(self.exported.spans@.subrange(0, old(self).exported.spans@.len() as int) =~= old(self).exported.spans@);
        }
    }

    pub fn new() -> (r: State)
        ensures
            r.locals.entries@ == Seq::<LocalVar>::empty(),
            r.exported.spans@ == Seq::<Span>::empty(),
            r.warnings@ == Seq::<Span>::empty(),
            r.fatals@ == Seq::<Fatal>::empty(),
    {
        State {
            locals: LocalVars::new(),
            exported: ExportedSpans::new(),
            warnings: Vec::new(),
            fatals: Vec::new(),
        }
    }
}

/// Why lowering a declaration was given up.
#[derive(Debug)]
pub enum FatalReason {
    Adt(AdtError),
    NoSuchType,
    /// A field access on a value that is neither a struct-like type nor a tuple.
    FieldOfNonAdt,
    /// A variable used before any binding named it.
    UnboundVariable,
    /// A call through a variable whose type is not a function pointer.
    CallNotFnPtr,
    /// A call of a constant whose type is not a function item.
    CallNotFnDef,
    /// A call of something that is neither a variable nor a function item.
    CallNotZstLiteral,
    /// A field-list pattern on a type that is neither struct-like nor a tuple.
    LeafOnNonAdt,
    /// A folded macro's call site is not among the registered calls.
    MacroCallNotRegistered,
    MacroArgumentUnreadable(ReadSpanErr),
    /// A scalar whose type is not one of a literal.
    NotALiteral,
    /// A scalar that does not fit its type.
    BadScalar,
    /// A node shape that an earlier step eliminates, still present.
    UnexpectedShape,
}

/// A fatal lowering error, bound to the span responsible for it.
#[derive(Debug)]
pub struct Fatal {
    pub span: Span,
    pub reason: FatalReason,
}

} // verus!
