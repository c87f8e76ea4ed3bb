//! The portable tree: every node kind that lowering can emit.
use vstd::prelude::*;
use crate::ids::{DefId, GlobalIdent, HirId, LocalIdent, Path, Symbol};
use crate::span::{Span, Spanned};

verus! {

pub type ItemLocalId = usize;

pub type FirstStatementIndex = usize;

pub type UniverseIndex = usize;

pub type BoundVar = usize;

pub type DebruijnIndex = usize;

/// `true` for mutable.
pub type Mutability = bool;

/// A calling convention, by name.
pub type Abi = String;

/// Inline assembly, as rendered text.
pub type InlineAsm = String;

/// A lifetime region, as rendered text.
pub type Region = String;

/// A predicate of a trait object type, as rendered text.
pub type ExistentialPredicate = String;

/// The kind of a resolved definition, by name.
pub type DefKind = String;

pub type TokenStream = String;

/// A name with the span it was written at.
#[derive(Debug)]
pub struct Ident {
    pub name: Symbol,
    pub span: Span,
}

pub type Binder<T> = Option<T>;

pub type Pat = Decorated<PatKind>;

pub type Expr = Decorated<ExprKind>;

pub type Body = Expr;

pub type FnBody = Expr;

pub type Const = Box<Expr>;

pub type AdtDef = DefId;

pub type EnumDef = Vec<Variant>;

pub type GenericBounds = Vec<PredicateKind>;

pub type HirGenericArgs = Vec<GenericArg>;

pub type PlaceholderRegion = Placeholder<BoundRegion>;

pub type PlaceholderConst = Placeholder<BoundVar>;

pub type PlaceholderType = Placeholder<BoundTy>;

pub type CanonicalUserType = Canonical<UserType>;

#[derive(Debug)]
pub enum LogicalOp {
    And,
    Or,
}

#[derive(Debug)]
pub enum LintLevel {
    Inherited,
    Explicit(HirId),
}

#[derive(Debug)]
pub enum AttrStyle {
    Outer,
    Inner,
}

#[derive(Debug)]
pub struct Attribute {
    pub kind: AttrKind,
    pub id: usize,
    pub style: AttrStyle,
    pub span: Span,
}

/// The envelope of every expression and pattern.
#[derive(Debug)]
pub struct Decorated<T> {
    pub ty: Ty,
    pub span: Span,
    pub contents: Box<T>,
    pub hir_id: Option<(usize, usize)>,
    pub attributes: Vec<Attribute>,
}

#[derive(Debug)]
pub enum UnOp {
    Not,
    Neg,
}

#[derive(Debug)]
pub enum BinOp {
    Add,
    Sub,
    Mul,
    Div,
    Rem,
    BitXor,
    BitAnd,
    BitOr,
    Shl,
    Shr,
    Eq,
    Lt,
    Le,
    Ne,
    Ge,
    Gt,
    Offset,
}

#[derive(Debug, Clone, Copy)]
pub enum ScopeData {
    Node,
    CallSite,
    Arguments,
    Destruction,
    IfThen,
    Remainder(FirstStatementIndex),
}

#[derive(Debug, Clone, Copy)]
pub struct Scope {
    pub id: ItemLocalId,
    pub data: ScopeData,
}

#[derive(Debug)]
pub enum ConstantKind {
    Ty(Const),
    Lit(LitKind),
    Todo(String),
}

#[derive(Debug)]
pub struct TypedConstantKind {
    pub ty: Ty,
    pub constant_kind: ConstantKind,
}

#[derive(Debug)]
pub enum LitFloatType {
    Suffixed(FloatTy),
    Unsuffixed,
}

#[derive(Debug)]
pub enum Movability {
    Static,
    Movable,
}

#[derive(Debug)]
pub enum CanonicalTyVarKind {
    General(UniverseIndex),
    Int,
    Float,
}

#[derive(Debug)]
pub struct ParamTy {
    pub index: u32,
    pub name: Symbol,
}

#[derive(Debug)]
pub struct ParamConst {
    pub index: u32,
    pub name: Symbol,
}

#[derive(Debug)]
pub enum DynKind {
    Dyn,
    DynStar,
}

#[derive(Debug)]
pub enum BoundTyKind {
    Anon,
    Param(DefId, Symbol),
}

#[derive(Debug)]
pub struct BoundTy {
    pub var: BoundVar,
    pub kind: BoundTyKind,
}

#[derive(Debug)]
pub enum BoundRegionKind {
    BrAnon(Option<Span>),
    BrNamed(DefId, Symbol),
    BrEnv,
}

#[derive(Debug)]
pub struct BoundRegion {
    pub var: BoundVar,
    pub kind: BoundRegionKind,
}

#[derive(Debug)]
pub struct Placeholder<T> {
    pub universe: UniverseIndex,
    pub bound: T,
}

#[derive(Debug)]
pub struct Canonical<T> {
    pub max_universe: UniverseIndex,
    pub variables: Vec<CanonicalVarInfo>,
    pub value: T,
}

#[derive(Debug)]
pub enum CanonicalVarInfo {
    Ty(CanonicalTyVarKind),
    PlaceholderTy(PlaceholderType),
    Region(UniverseIndex),
    PlaceholderRegion(PlaceholderRegion),
    Const(UniverseIndex, Ty),
    PlaceholderConst(PlaceholderConst, Ty),
}

#[derive(Debug)]
pub struct UserSelfTy {
    pub impl_def_id: DefId,
    pub self_ty: Ty,
}

#[derive(Debug)]
pub struct UserSubsts {
    pub substs: Vec<GenericArg>,
    pub user_self_ty: Option<UserSelfTy>,
}

#[derive(Debug)]
pub enum UserType {
    Ty(Ty),
    TypeOf(DefId, UserSubsts),
}

#[derive(Debug)]
pub enum CtorKind {
    Fn,
    Const,
}

#[derive(Debug)]
pub enum VariantDiscr {
    Explicit(DefId),
    Relative(u32),
}

#[derive(Debug)]
pub enum GenericArg {
    Lifetime(Region),
    Type(Ty),
    Const(Const),
}

#[derive(Debug, Clone, Copy)]
pub enum LitIntType {
    Signed(IntTy),
    Unsigned(UintTy),
    Unsuffixed,
}

/// `Constructor { fields.., ..base }`: the base and the types of its fields.
#[derive(Debug)]
pub struct FruInfo {
    pub base: Expr,
    pub field_types: Vec<Ty>,
}

#[derive(Debug)]
pub struct FieldExpr {
    pub field: DefId,
    pub value: Expr,
}

#[derive(Debug)]
pub struct FieldPat {
    pub field: DefId,
    pub pattern: Pat,
}

#[derive(Debug)]
pub enum DesugaringKind {
    CondTemporary,
    QuestionMark,
    TryBlock,
    YeetExpr,
    OpaqueTy,
    Async,
    Await,
    ForLoop,
    WhileLoop,
}

#[derive(Debug)]
pub enum AstPass {
    StdImports,
    TestHarness,
    ProcMacroHarness,
}

#[derive(Debug)]
pub enum MacroKind {
    Bang,
    Attr,
    Derive,
}

#[derive(Debug)]
pub enum ExpnKind {
    Root,
    Macro(MacroKind, Symbol),
    AstPass(AstPass),
    Desugaring(DesugaringKind),
}

#[derive(Debug)]
pub enum Edition {
    Edition2015,
    Edition2018,
    Edition2021,
    Edition2024,
}

/// One step of a span's macro-expansion backtrace.
#[derive(Debug)]
pub struct ExpnData {
    pub kind: ExpnKind,
    pub call_site: Span,
    pub def_site: Span,
    pub allow_internal_unstable: Option<Vec<Symbol>>,
    pub edition: Edition,
    pub macro_def_id: Option<DefId>,
    pub parent_module: Option<DefId>,
    pub allow_internal_unsafe: bool,
    pub local_inner_macros: bool,
    pub collapse_debuginfo: bool,
}

#[derive(Debug)]
pub enum InferTy {
    TyVar,
    IntVar,
    FloatVar,
    FreshTy(u32),
    FreshIntTy(u32),
    FreshFloatTy(u32),
}

#[derive(Debug, Clone, Copy)]
pub enum BlockSafety {
    Safe,
    BuiltinUnsafe,
    ExplicitUnsafe,
}

#[derive(Debug)]
pub struct Block {
    pub targeted_by_break: bool,
    pub region_scope: Scope,
    pub opt_destruction_scope: Option<Scope>,
    pub span: Span,
    pub stmts: Vec<Stmt>,
    pub expr: Option<Expr>,
    pub safety_mode: BlockSafety,
}

#[derive(Debug)]
pub struct AliasTy {
    pub substs: Vec<GenericArg>,
    pub trait_def_id: DefId,
    pub def_id: DefId,
}

#[derive(Debug)]
pub enum BindingMode {
    ByValue,
    ByRef(BorrowKind),
}

#[derive(Debug)]
pub struct Stmt {
    pub kind: StmtKind,
    pub opt_destruction_scope: Option<Scope>,
}

#[derive(Debug)]
pub enum MacDelimiter {
    Parenthesis,
    Bracket,
    Brace,
}

#[derive(Debug)]
pub enum Delimiter {
    Parenthesis,
    Brace,
    Bracket,
    Invisible,
}

#[derive(Debug)]
pub struct DelimSpan {
    pub open: Span,
    pub close: Span,
}

#[derive(Debug)]
pub enum TokenTree {
    Token(Token, Spacing),
    Delimited(DelimSpan, Delimiter, TokenStream),
}

#[derive(Debug)]
pub enum Spacing {
    Alone,
    Joint,
}

#[derive(Debug)]
pub enum BinOpToken {
    Plus,
    Minus,
    Star,
    Slash,
    Percent,
    Caret,
    And,
    Or,
    Shl,
    Shr,
}

#[derive(Debug)]
pub enum TokenKind {
    Eq,
    Lt,
    Le,
    EqEq,
    Ne,
    Ge,
    Gt,
    AndAnd,
    OrOr,
    Not,
    Tilde,
    BinOp(BinOpToken),
    BinOpEq(BinOpToken),
    At,
    Dot,
    DotDot,
    DotDotDot,
    DotDotEq,
    Comma,
    Semi,
    Colon,
    ModSep,
    RArrow,
    LArrow,
    FatArrow,
    Pound,
    Dollar,
    Question,
    SingleQuote,
    OpenDelim(Delimiter),
    CloseDelim(Delimiter),
    Ident(Symbol, bool),
    Lifetime(Symbol),
    Eof,
    Todo(String),
}

#[derive(Debug)]
pub struct Token {
    pub kind: TokenKind,
    pub span: Span,
}

#[derive(Debug)]
pub struct DelimArgs {
    pub dspan: DelimSpan,
    pub delim: MacDelimiter,
    pub tokens: TokenStream,
}

#[derive(Debug)]
pub struct MacCall {
    pub path: Path,
    pub args: DelimArgs,
}

#[derive(Debug, Clone, Copy)]
pub enum IntTy {
    Isize,
    I8,
    I16,
    I32,
    I64,
    I128,
}

#[derive(Debug, Clone, Copy)]
pub enum FloatTy {
    F32,
    F64,
}

#[derive(Debug, Clone, Copy)]
pub enum UintTy {
    Usize,
    U8,
    U16,
    U32,
    U64,
    U128,
}

#[derive(Debug)]
pub struct TypeAndMut {
    pub ty: Box<Ty>,
    pub mutbl: Mutability,
}

#[derive(Debug)]
pub enum ArrowKind {
    Constructor { payload: Ty },
    Function { params: Vec<Ty> },
}

#[derive(Debug)]
pub struct GenericParamDef {
    pub name: Symbol,
    pub def_id: DefId,
    pub index: u32,
    pub pure_wrt_drop: bool,
    pub kind: GenericParamDefKind,
}

#[derive(Debug)]
pub enum GenericParamDefKind {
    Lifetime,
    Type { has_default: bool, synthetic: bool },
    Const { has_default: bool },
}

#[derive(Debug)]
pub struct TyGenerics {
    pub parent: Option<DefId>,
    pub parent_count: usize,
    pub params: Vec<GenericParamDef>,
    pub has_self: bool,
    pub has_late_bound_regions: Option<Span>,
}

#[derive(Debug)]
pub enum AliasKind {
    Projection,
    Inherent,
    Opaque,
}

#[derive(Debug)]
pub enum Ty {
    Bool,
    Char,
    Int(IntTy),
    Uint(UintTy),
    Float(FloatTy),
    Arrow { params: Vec<Ty>, ret: Box<Ty> },
    NamedType { generic_args: Vec<GenericArg>, def_id: DefId },
    Foreign(DefId),
    Str,
    Array(Box<Ty>, Const),
    Slice(Box<Ty>),
    RawPtr(TypeAndMut),
    Ref(Region, Box<Ty>, Mutability),
    Dynamic(Vec<Binder<ExistentialPredicate>>, Region, DynKind),
    Generator(DefId, Vec<GenericArg>, Movability),
    Never,
    Tuple(Vec<Ty>),
    Alias(AliasKind, AliasTy),
    Param(ParamTy),
    Bound(DebruijnIndex, BoundTy),
    Placeholder(PlaceholderType),
    Infer(InferTy),
    Error,
    Todo(String),
}

#[derive(Debug)]
pub enum StmtKind {
    Expr { scope: Scope, expr: Expr },
    Let {
        remainder_scope: Scope,
        init_scope: Scope,
        pattern: Pat,
        initializer: Option<Expr>,
        else_block: Option<Block>,
        lint_level: LintLevel,
        attributes: Vec<Attribute>,
    },
}

#[derive(Debug)]
pub enum Variance {
    Covariant,
    Invariant,
    Contravariant,
    Bivariant,
}

#[derive(Debug)]
pub struct CanonicalUserTypeAnnotation {
    pub user_ty: CanonicalUserType,
    pub span: Span,
    pub inferred_ty: Ty,
}

#[derive(Debug)]
pub struct Ascription {
    pub annotation: CanonicalUserTypeAnnotation,
    pub variance: Variance,
}

#[derive(Debug)]
pub enum RangeEnd {
    Included,
    Excluded,
}

#[derive(Debug)]
pub struct PatRange {
    pub lo: TypedConstantKind,
    pub hi: TypedConstantKind,
    pub end: RangeEnd,
}

/// The normalized description of a construction or destructuring site.
#[derive(Debug)]
pub struct VariantInformations {
    /// The namespace the type is declared in: its path without the last segment.
    pub type_namespace: DefId,
    pub typ: DefId,
    pub variant: DefId,
    /// A record type has exactly one variant, which is a record variant.
    pub typ_is_record: bool,
    /// A record variant has at least one field whose name is not a number.
    pub variant_is_record: bool,
    /// A struct is a type with exactly one variant.
    pub typ_is_struct: bool,
}

#[derive(Debug)]
pub struct AdtExpr {
    pub info: VariantInformations,
    pub user_ty: Option<CanonicalUserType>,
    pub fields: Vec<FieldExpr>,
    pub base: Option<FruInfo>,
}

#[derive(Debug)]
pub enum PatKind {
    Wild,
    AscribeUserType { ascription: Ascription, subpattern: Pat },
    Binding {
        mutability: Mutability,
        mode: BindingMode,
        var: LocalIdent,
        ty: Ty,
        subpattern: Option<Pat>,
        is_primary: bool,
    },
    Variant { info: VariantInformations, substs: Vec<GenericArg>, subpatterns: Vec<FieldPat> },
    Tuple { subpatterns: Vec<Pat> },
    Deref { subpattern: Pat },
    Constant { value: TypedConstantKind },
    Range(PatRange),
    Slice { prefix: Vec<Pat>, slice: Option<Pat>, suffix: Vec<Pat> },
    Array { prefix: Vec<Pat>, slice: Option<Pat>, suffix: Vec<Pat> },
    Or { pats: Vec<Pat> },
}

#[derive(Debug)]
pub enum Guard {
    If(Expr),
    IfLet(Pat, Expr),
}

#[derive(Debug)]
pub struct Arm {
    pub pattern: Pat,
    pub guard: Option<Guard>,
    pub body: Expr,
    pub lint_level: LintLevel,
    pub scope: Scope,
    pub span: Span,
    pub attributes: Vec<Attribute>,
}

#[derive(Debug)]
pub enum Unsafety {
    Unsafe,
    Normal,
}

#[derive(Debug)]
pub enum PointerCast {
    ReifyFnPointer,
    UnsafeFnPointer,
    ClosureFnPointer(Unsafety),
    MutToConstPointer,
    ArrayToPointer,
    Unsize,
}

#[derive(Debug, Clone, Copy)]
pub enum BorrowKind {
    Shared,
    Shallow,
    Unique,
    Mut { allow_two_phase_borrow: bool },
}

#[derive(Debug, Clone, Copy)]
pub enum StrStyle {
    Cooked,
    Raw(u8),
}

#[derive(Debug)]
pub enum LitKind {
    Str(Symbol, StrStyle),
    ByteStr(Vec<u8>, StrStyle),
    CStr(Vec<u8>, StrStyle),
    Byte(u8),
    Char(char),
    Int(u128, LitIntType),
    Float(Symbol, LitFloatType),
    Bool(bool),
    Error,
}

/// A folded macro call: the macro, the raw text of its arguments, and the
/// call site.
#[derive(Debug)]
pub struct MacroInvokation {
    pub macro_ident: DefId,
    pub argument: String,
    pub span: Span,
}

#[derive(Debug)]
pub enum ImplicitSelfKind {
    Imm,
    Mut,
    ImmRef,
    MutRef,
    NoSelf,
}

#[derive(Debug)]
pub enum CommentKind {
    Line,
    Block,
}

#[derive(Debug)]
pub enum AttrArgs {
    Empty,
    Delimited(DelimArgs),
    Todo(String),
}

#[derive(Debug)]
pub struct AttrItem {
    pub path: String,
    pub args: AttrArgs,
    pub tokens: Option<TokenStream>,
}

#[derive(Debug)]
pub struct NormalAttr {
    pub item: AttrItem,
    pub tokens: Option<TokenStream>,
}

#[derive(Debug)]
pub enum AttrKind {
    Normal(NormalAttr),
    DocComment(CommentKind, Symbol),
}

#[derive(Debug)]
pub struct Param {
    pub pat: Option<Pat>,
    pub ty: Ty,
    pub ty_span: Option<Span>,
    pub self_kind: Option<ImplicitSelfKind>,
    pub hir_id: Option<HirId>,
    pub attributes: Vec<Attribute>,
}

#[derive(Debug)]
pub enum ExprKind {
    Box { value: Expr },
    MacroInvokation(MacroInvokation),
    If { if_then_scope: Scope, cond: Expr, then: Expr, else_opt: Option<Expr> },
    Call { ty: Ty, fun: Expr, args: Vec<Expr>, from_hir_call: bool, fn_span: Span },
    Deref { arg: Expr },
    Binary { op: BinOp, lhs: Expr, rhs: Expr },
    LogicalOp { op: LogicalOp, lhs: Expr, rhs: Expr },
    Unary { op: UnOp, arg: Expr },
    Cast { source: Expr },
    Use { source: Expr },
    NeverToAny { source: Expr },
    Pointer { cast: PointerCast, source: Expr },
    Loop { body: Expr },
    Match { scrutinee: Expr, arms: Vec<Arm> },
    Let { expr: Expr, pat: Pat },
    Block { block: Block },
    Assign { lhs: Expr, rhs: Expr },
    AssignOp { op: BinOp, lhs: Expr, rhs: Expr },
    Field { field: DefId, lhs: Expr },
    TupleField { field: usize, lhs: Expr },
    Index { lhs: Expr, index: Expr },
    VarRef { id: LocalIdent },
    ConstRef { id: ParamConst },
    GlobalName { id: GlobalIdent },
    UpvarRef { closure_def_id: DefId, var_hir_id: LocalIdent },
    Borrow { borrow_kind: BorrowKind, arg: Expr },
    AddressOf { mutability: Mutability, arg: Expr },
    Break { label: Scope, value: Option<Expr> },
    Continue { label: Scope },
    Return { value: Option<Expr> },
    ConstBlock { did: DefId, substs: Vec<GenericArg> },
    Repeat { value: Expr, count: Const },
    Array { fields: Vec<Expr> },
    Tuple { fields: Vec<Expr> },
    Adt(AdtExpr),
    PlaceTypeAscription { source: Expr, user_ty: Option<CanonicalUserType> },
    ValueTypeAscription { source: Expr, user_ty: Option<CanonicalUserType> },
    Closure { params: Vec<Param>, body: Body, upvars: Vec<Expr>, movability: Option<Movability> },
    Literal { lit: Spanned<LitKind>, neg: bool },
    ZstLiteral { user_ty: Option<CanonicalUserType> },
    NamedConst { def_id: GlobalIdent, substs: Vec<GenericArg>, user_ty: Option<CanonicalUserType> },
    ConstParam { param: ParamConst, def_id: GlobalIdent },
    StaticRef { alloc_id: u64, ty: Ty, def_id: GlobalIdent },
    Yield { value: Expr },
    Todo(String),
}

/// A function: header, parameters, return type, body and the span of its signature.
#[derive(Debug)]
pub struct FnDef {
    pub header: FnHeader,
    pub params: Vec<Param>,
    pub ret: Ty,
    pub body: Body,
    pub sig_span: Span,
}

#[derive(Debug)]
pub struct FnDecl {
    pub inputs: Vec<Ty>,
    pub output: FnRetTy,
    pub c_variadic: bool,
    pub implicit_self: ImplicitSelfKind,
    pub lifetime_elision_allowed: bool,
}

#[derive(Debug)]
pub struct FnSig {
    pub header: FnHeader,
    pub decl: FnDecl,
    pub span: Span,
}

#[derive(Debug)]
pub struct FnHeader {
    pub unsafety: Unsafety,
    pub constness: Constness,
    pub asyncness: IsAsync,
    pub abi: Abi,
}

#[derive(Debug)]
pub enum UseKind {
    Single,
    Glob,
    ListStem,
}

#[derive(Debug)]
pub enum IsAuto {
    Yes,
    No,
}

#[derive(Debug)]
pub enum Defaultness {
    Default { has_value: bool },
    Final,
}

#[derive(Debug)]
pub enum ImplPolarity {
    Positive,
    Negative(Span),
}

#[derive(Debug)]
pub enum Constness {
    Const,
    NotConst,
}

#[derive(Debug)]
pub struct Generics {
    pub params: Vec<GenericParam>,
    pub predicates: Vec<WherePredicate>,
    pub has_where_clause_predicates: bool,
    pub where_clause_span: Span,
    pub span: Span,
}

#[derive(Debug)]
pub enum WherePredicate {
    BoundPredicate(WhereBoundPredicate),
    RegionPredicate(WhereRegionPredicate),
    EqPredicate(WhereEqPredicate),
}

#[derive(Debug)]
pub struct WhereRegionPredicate {
    pub span: Span,
    pub in_where_clause: bool,
    pub lifetime: Lifetime,
    pub bounds: GenericBounds,
}

#[derive(Debug)]
pub struct WhereEqPredicate {
    pub span: Span,
    pub lhs_ty: Ty,
    pub rhs_ty: Ty,
}

#[derive(Debug)]
pub enum ParamName {
    Plain(LocalIdent),
    Fresh,
    Error,
}

#[derive(Debug)]
pub enum LifetimeParamKind {
    Explicit,
    Elided,
    Error,
}

#[derive(Debug)]
pub struct AnonConst {
    pub hir_id: HirId,
    pub def_id: GlobalIdent,
    pub body: Body,
}

#[derive(Debug)]
pub enum GenericParamKind {
    Lifetime { kind: LifetimeParamKind },
    Type { default: Option<Ty>, synthetic: bool },
    Const { ty: Ty, default: Option<AnonConst> },
}

#[derive(Debug)]
pub struct GenericParam {
    pub hir_id: HirId,
    pub def_id: GlobalIdent,
    pub name: ParamName,
    pub span: Span,
    pub pure_wrt_drop: bool,
    pub kind: GenericParamKind,
    pub colon_span: Option<Span>,
    pub attributes: Vec<Attribute>,
}

#[derive(Debug)]
pub struct ImplItem {
    pub ident: Ident,
    pub owner_id: DefId,
    pub generics: Generics,
    pub kind: ImplItemKind,
    pub defaultness: Defaultness,
    pub span: Span,
    pub vis_span: Span,
}

#[derive(Debug)]
pub enum ImplItemKind {
    Const(Ty, Body),
    Fn(FnDef),
    Type(Ty),
}

#[derive(Debug)]
pub enum AssocItemKind {
    Const,
    Fn { has_self: bool },
    Type,
}

#[derive(Debug)]
pub struct Impl {
    pub unsafety: Unsafety,
    pub polarity: ImplPolarity,
    pub defaultness: Defaultness,
    pub defaultness_span: Option<Span>,
    pub constness: Constness,
    pub generics: Generics,
    pub of_trait: Option<TraitRef>,
    pub self_ty: Ty,
    pub items: Vec<ImplItem>,
}

#[derive(Debug)]
pub enum IsAsync {
    Async,
    NotAsync,
}

#[derive(Debug)]
pub enum FnRetTy {
    DefaultReturn(Span),
    Return(Ty),
}

#[derive(Debug)]
pub enum VariantData {
    Struct(Vec<HirFieldDef>, bool),
    Tuple(Vec<HirFieldDef>, HirId, GlobalIdent),
    Unit(HirId, GlobalIdent),
}

#[derive(Debug)]
pub struct HirFieldDef {
    pub span: Span,
    pub vis_span: Span,
    pub ident: Ident,
    pub hir_id: HirId,
    pub def_id: GlobalIdent,
    pub ty: Ty,
    pub attributes: Vec<Attribute>,
}

#[derive(Debug)]
pub struct Variant {
    pub ident: Ident,
    pub hir_id: HirId,
    pub def_id: GlobalIdent,
    pub data: VariantData,
    pub disr_expr: Option<AnonConst>,
    pub span: Span,
    pub attributes: Vec<Attribute>,
}

#[derive(Debug)]
pub struct UsePath {
    pub span: Span,
    pub res: Vec<Res>,
    pub segments: Vec<PathSegment>,
    pub rename: Option<String>,
}

#[derive(Debug)]
pub enum Res {
    Def(DefKind, DefId),
    PrimTy(PrimTy),
    SelfTyParam { trait_: DefId },
    SelfTyAlias { alias_to: DefId, forbid_generic: bool, is_trait_impl: bool },
    SelfCtor(DefId),
    Local(HirId),
    ToolMod,
    NonMacroAttr(NonMacroAttrKind),
    Error,
}

#[derive(Debug)]
pub enum PrimTy {
    Int(IntTy),
    Uint(UintTy),
    Float(FloatTy),
    Str,
    Bool,
    Char,
}

#[derive(Debug)]
pub enum NonMacroAttrKind {
    Builtin(Symbol),
    Tool,
    DeriveHelper,
    DeriveHelperCompat,
}

#[derive(Debug)]
pub struct PathSegment {
    pub ident: Ident,
    pub hir_id: HirId,
    pub res: Res,
    pub args: Option<HirGenericArgs>,
    pub infer_args: bool,
}

#[derive(Debug)]
pub enum ItemKind {
    MacroInvokation(MacroInvokation),
    ExternCrate(Option<Symbol>),
    Use(UsePath, UseKind),
    Static(Ty, Mutability, Body),
    Const(Ty, Body),
    Fn(Generics, FnDef),
    Macro(MacroDef, MacroKind),
    Mod(Vec<Item>),
    ForeignMod { abi: Abi, items: Vec<ForeignItem> },
    GlobalAsm(InlineAsm),
    TyAlias(Ty, Generics),
    OpaqueTy(OpaqueTy),
    Enum(EnumDef, Generics),
    Struct(VariantData, Generics),
    Union(VariantData, Generics),
    Trait(IsAuto, Unsafety, Generics, GenericBounds, Vec<TraitItem>),
    TraitAlias(Generics, GenericBounds),
    Impl(Impl),
}

#[derive(Debug)]
pub enum TraitItemKind {
    Const(Ty, Option<Body>),
    RequiredFn(FnSig, Vec<Ident>),
    ProvidedFn(FnDef),
    Type(GenericBounds, Option<Ty>),
}

#[derive(Debug)]
pub struct TraitItem {
    pub ident: Ident,
    pub owner_id: DefId,
    pub generics: Generics,
    pub kind: TraitItemKind,
    pub span: Span,
    pub defaultness: Defaultness,
}

#[derive(Debug)]
pub enum ForeignItemKind {
    Fn(FnDecl, Vec<Ident>, Generics),
    Static(Ty, Mutability),
    Type,
}

#[derive(Debug)]
pub struct ForeignItem {
    pub ident: Ident,
    pub kind: ForeignItemKind,
    pub owner_id: DefId,
    pub span: Span,
    pub vis_span: Span,
}

#[derive(Debug)]
pub struct OpaqueTy {
    pub generics: Generics,
    pub bounds: GenericBounds,
    pub origin: OpaqueTyOrigin,
    pub in_trait: bool,
}

#[derive(Debug)]
pub enum LifetimeName {
    Param(GlobalIdent),
    ImplicitObjectLifetimeDefault,
    Error,
    Infer,
    Static,
}

#[derive(Debug)]
pub struct Lifetime {
    pub hir_id: HirId,
    pub ident: Ident,
    pub res: LifetimeName,
}

#[derive(Debug)]
pub struct TraitRef {
    pub def_id: DefId,
    pub generic_args: Vec<GenericArg>,
}

#[derive(Debug)]
pub struct TraitPredicate {
    pub trait_ref: TraitRef,
    pub is_const: bool,
    pub is_positive: bool,
}

#[derive(Debug)]
pub enum Clause {
    Trait(TraitPredicate),
    Todo(String),
}

#[derive(Debug)]
pub enum PredicateKind {
    Clause(Clause),
    ObjectSafe(DefId),
    Ambiguous,
    Todo(String),
}

#[derive(Debug)]
pub enum OpaqueTyOrigin {
    FnReturn(GlobalIdent),
    AsyncFn(GlobalIdent),
    TyAlias { in_assoc_ty: bool },
}

#[derive(Debug)]
pub struct MacroDef {
    pub body: DelimArgs,
    pub macro_rules: bool,
}

/// A top-level declaration of the output.
#[derive(Debug)]
pub struct Item {
    pub def_id: Option<GlobalIdent>,
    pub owner_id: DefId,
    pub span: Span,
    pub vis_span: Span,
    pub kind: ItemKind,
    pub attributes: Vec<Attribute>,
    pub expn_backtrace: Vec<ExpnData>,
}

#[derive(Debug)]
pub struct WhereBoundPredicate {
    pub hir_id: HirId,
    pub span: Span,
    pub origin: PredicateOrigin,
    pub bound_generic_params: Vec<GenericParam>,
    pub bounded_ty: Ty,
    pub bounds: GenericBounds,
}

#[derive(Debug)]
pub enum PredicateOrigin {
    WhereClause,
    GenericParam,
    ImplTrait,
}

impl Expr {
    /// The borrowed expression when `self` is a borrow, `self` otherwise.
    pub fn unwrap_borrow(self) -> (r: Expr)
        ensures
            match *self.contents {
                ExprKind::Borrow { arg, .. } => r == arg,
                _ => r == self,
            },
    {
        match *self.contents {
            ExprKind::Borrow { arg, .. } => arg,
            contents => Decorated {
                ty: self.ty,
                span: self.span,
                contents: Box::new(contents),
                hir_id: self.hir_id,
                attributes: self.attributes,
            },
        }
    }
}

} // verus!
