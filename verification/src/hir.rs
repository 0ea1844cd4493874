//! The program representation that the code generator's analyses read:
//! functions, their parameters, statements and expressions.
//!
//! Expressions that record or define locals (`LocalGet`, `LocalSet`,
//! `Update`, the array and set mutators that name a local, closures) and
//! those that integer specialization looks into have variants of their
//! own. Every other operation of the language is an `Op`: its kind and
//! the sub-expressions it is built from, in source order. An operation
//! whose operands are optional lists only the operands that are present.

use vstd::prelude::*;

verus! {

/// A source-level type; only `number` matters here.
pub enum Type {
    Number,
    Other,
}

pub enum BinaryOp {
    Add,
    Sub,
    Mul,
    /// Any other binary operator.
    Other,
}

pub enum CompareOp {
    Eq,
    Ne,
    Lt,
    Le,
    Gt,
    Ge,
    LooseEq,
    LooseNe,
}

/// The operations held by `Expr::Op`.
pub enum OpKind {
    Array,
    ArrayAt,
    ArrayCopyWithin,
    ArrayEntries,
    ArrayEvery,
    ArrayFilter,
    ArrayFind,
    ArrayFindIndex,
    ArrayFindLast,
    ArrayFindLastIndex,
    ArrayFlat,
    ArrayFlatMap,
    ArrayForEach,
    ArrayFrom,
    ArrayFromMapped,
    ArrayIncludes,
    ArrayIndexOf,
    ArrayIsArray,
    ArrayJoin,
    ArrayKeys,
    ArrayMap,
    ArrayPushSpread,
    ArrayReduce,
    ArrayReduceRight,
    ArraySlice,
    ArraySome,
    ArraySort,
    ArraySpread,
    ArrayToReversed,
    ArrayToSorted,
    ArrayToSpliced,
    ArrayUnshift,
    ArrayValues,
    ArrayWith,
    Atob,
    Await,
    BigIntCoerce,
    BooleanCoerce,
    Btoa,
    BufferAlloc,
    BufferAllocUnsafe,
    BufferByteLength,
    BufferConcat,
    BufferCopy,
    BufferEquals,
    BufferFill,
    BufferFrom,
    BufferIndexGet,
    BufferIndexSet,
    BufferIsBuffer,
    BufferLength,
    BufferSlice,
    BufferToString,
    BufferWrite,
    CallSpread,
    ChildProcessExec,
    ChildProcessExecSync,
    ChildProcessGetProcessStatus,
    ChildProcessKillProcess,
    ChildProcessSpawn,
    ChildProcessSpawnBackground,
    ChildProcessSpawnSync,
    CryptoMd5,
    CryptoRandomBytes,
    CryptoSha256,
    DateGetDate,
    DateGetFullYear,
    DateGetHours,
    DateGetMilliseconds,
    DateGetMinutes,
    DateGetMonth,
    DateGetSeconds,
    DateGetTime,
    DateNew,
    DateParse,
    DateToISOString,
    Delete,
    EnvGetDynamic,
    ErrorMessage,
    ErrorNew,
    ErrorNewWithCause,
    FetchGetWithAuth,
    FetchPostWithAuth,
    FetchWithOptions,
    FileURLToPath,
    FinalizationRegistryNew,
    FinalizationRegistryRegister,
    FinalizationRegistryUnregister,
    FsAppendFileSync,
    FsExistsSync,
    FsMkdirSync,
    FsReadFileBinary,
    FsReadFileSync,
    FsRmRecursive,
    FsUnlinkSync,
    FsWriteFileSync,
    GlobalSet,
    I18nString,
    In,
    IndexGet,
    IndexSet,
    IndexUpdate,
    InstanceOf,
    IsFinite,
    IsNaN,
    IsUndefinedOrBareNan,
    IteratorToArray,
    JsCallFunction,
    JsCallMethod,
    JsCreateCallback,
    JsGetExport,
    JsGetProperty,
    JsNew,
    JsNewFromHandle,
    JsSetProperty,
    JsonParse,
    JsonParseReviver,
    JsonParseWithReviver,
    JsonStringify,
    JsonStringifyFull,
    JsonStringifyPretty,
    Logical,
    MapClear,
    MapDelete,
    MapEntries,
    MapGet,
    MapHas,
    MapKeys,
    MapNew,
    MapSet,
    MapSize,
    MapValues,
    MathAbs,
    MathAcos,
    MathAsin,
    MathAtan,
    MathAtan2,
    MathCeil,
    MathClz32,
    MathCos,
    MathFloor,
    MathImul,
    MathLog,
    MathLog10,
    MathLog1p,
    MathLog2,
    MathMax,
    MathMaxSpread,
    MathMin,
    MathMinSpread,
    MathPow,
    MathRound,
    MathSin,
    MathSqrt,
    MathTan,
    NativeMethodCall,
    NetConnect,
    NetCreateConnection,
    NetCreateServer,
    New,
    NewDynamic,
    NumberCoerce,
    NumberIsFinite,
    NumberIsInteger,
    NumberIsNaN,
    NumberIsSafeInteger,
    Object,
    ObjectCreate,
    ObjectEntries,
    ObjectFromEntries,
    ObjectGroupBy,
    ObjectHasOwn,
    ObjectIs,
    ObjectIsExtensible,
    ObjectIsFrozen,
    ObjectIsSealed,
    ObjectKeys,
    ObjectRest,
    ObjectSpread,
    ObjectValues,
    ParseFloat,
    ParseInt,
    PathBasename,
    PathBasenameExt,
    PathDirname,
    PathExtname,
    PathFormat,
    PathIsAbsolute,
    PathJoin,
    PathNormalize,
    PathParse,
    PathRelative,
    PathResolve,
    ProcessNextTick,
    ProcessOn,
    PropertyGet,
    PropertySet,
    PropertyUpdate,
    QueueMicrotask,
    RegExpExec,
    RegExpTest,
    Sequence,
    SetClear,
    SetDelete,
    SetHas,
    SetNew,
    SetNewFromArray,
    SetSize,
    SetValues,
    StaticFieldSet,
    StaticMethodCall,
    StaticPluginResolve,
    StringCoerce,
    StringFromCharCode,
    StringMatch,
    StringMatchAll,
    StringReplace,
    StringSplit,
    StructuredClone,
    SuperCall,
    SuperMethodCall,
    TypeOf,
    TypedArrayNew,
    Uint8ArrayFrom,
    Uint8ArrayGet,
    Uint8ArrayLength,
    Uint8ArrayNew,
    Uint8ArraySet,
    Unary,
    UrlGetHash,
    UrlGetHost,
    UrlGetHostname,
    UrlGetHref,
    UrlGetOrigin,
    UrlGetPathname,
    UrlGetPort,
    UrlGetProtocol,
    UrlGetSearch,
    UrlGetSearchParams,
    UrlNew,
    UrlSearchParamsAppend,
    UrlSearchParamsDelete,
    UrlSearchParamsGet,
    UrlSearchParamsGetAll,
    UrlSearchParamsHas,
    UrlSearchParamsNew,
    UrlSearchParamsSet,
    UrlSearchParamsToString,
    Void,
    WeakRefDeref,
    WeakRefNew,
    Yield,
}

#[allow(inconsistent_fields)]
pub enum Expr {
    /// An integer literal.
    Integer(i64),
    /// A number literal, held as its value converted to `i64` (`as i64`,
    /// which saturates and maps NaN to 0).
    Number(i64),
    /// Read of a local variable or parameter.
    LocalGet(u32),
    /// Write of a local: its id and the value stored.
    LocalSet(u32, Box<Expr>),
    /// `++` / `--` on a local.
    Update { id: u32 },
    /// Reference to a function by id.
    FuncRef(u32),
    Binary { op: BinaryOp, left: Box<Expr>, right: Box<Expr> },
    Compare { op: CompareOp, left: Box<Expr>, right: Box<Expr> },
    Call { callee: Box<Expr>, args: Vec<Expr> },
    Conditional { condition: Box<Expr>, then_expr: Box<Expr>, else_expr: Box<Expr> },
    /// A closure literal.
    Closure {
        func_id: u32,
        params: Vec<Param>,
        body: Vec<Stmt>,
        captures: Vec<u32>,
        mutable_captures: Vec<u32>,
        captures_this: bool,
        enclosing_class: Option<String>,
        is_async: bool,
    },
    /// `push` onto the array held in local `array_id`.
    ArrayPush { array_id: u32, value: Box<Expr> },
    /// `pop` from the array held in a local.
    ArrayPop(u32),
    /// `shift` from the array held in a local.
    ArrayShift(u32),
    /// `splice` of the array held in local `array_id`.
    ArraySplice { array_id: u32, start: Box<Expr>, delete_count: Option<Box<Expr>>, items: Vec<Expr> },
    /// `add` to the set held in local `set_id`.
    SetAdd { set_id: u32, value: Box<Expr> },
    /// Any other operation, with its sub-expressions in source order.
    Op { kind: OpKind, args: Vec<Expr> },
    /// A leaf the analyses do not look into.
    Other,
}

pub struct CatchClause {
    pub body: Vec<Stmt>,
}

pub struct SwitchCase {
    /// `None` for `default:`.
    pub test: Option<Expr>,
    pub body: Vec<Stmt>,
}

#[allow(inconsistent_fields)]
pub enum Stmt {
    Expr(Expr),
    Throw(Expr),
    Return(Option<Expr>),
    Let { id: u32, init: Option<Expr> },
    If { condition: Expr, then_branch: Vec<Stmt>, else_branch: Option<Vec<Stmt>> },
    While { condition: Expr, body: Vec<Stmt> },
    DoWhile { body: Vec<Stmt>, condition: Expr },
    For { init: Option<Box<Stmt>>, condition: Option<Expr>, update: Option<Expr>, body: Vec<Stmt> },
    Try { body: Vec<Stmt>, catch: Option<CatchClause>, finally: Option<Vec<Stmt>> },
    Switch { discriminant: Expr, cases: Vec<SwitchCase> },
    Labeled { label: String, body: Box<Stmt> },
    /// Any other statement.
    Other,
}

pub struct Param {
    pub id: u32,
    pub ty: Type,
}

pub struct Function {
    pub id: u32,
    pub is_async: bool,
    pub is_generator: bool,
    pub return_type: Type,
    pub params: Vec<Param>,
    pub body: Vec<Stmt>,
}

} // verus!
