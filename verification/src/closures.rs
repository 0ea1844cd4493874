//! The closure pre-pass of the native back end: every closure literal in
//! a function body, in walk order, with what is needed to compile it as a
//! function of its own (its id, parameters, body, captures, whether it
//! captures `this`, its enclosing class, whether it is async).
//!
//! Unlike the walker in `collectors`, this one records a closure each
//! time it meets it (no de-duplication by id), and it looks into a
//! different set of operations: those of `entered_by_compiler_walk`. Of a
//! typed-array or buffer element store it visits only the array and the
//! index. On statements it looks into expression statements, `let`s with
//! an initializer, `return` with a value, `throw`, `if`, `while`, `for`,
//! `try` and `switch`.
//!
//! The module also holds the two analyses that closure compilation runs
//! over bodies: the locals a closure body refers to (so that only those
//! module-level variables are loaded) and the locals captured mutably by
//! any closure (so that they are boxed where they are declared).

use vstd::prelude::*;

use std::collections::HashSet;

use crate::collectors::{id_set, insert_ids, lemma_id_set_elems, locals_in, locals_in_list, locals_in_stmt, locals_in_stmts, locals_in_cases};
use crate::hir::{Expr, OpKind, Param, Stmt, SwitchCase};

verus! {

broadcast use vstd::std_specs::hash::group_hash_axioms;

/// Operations whose sub-expressions this walker visits.
pub open spec fn entered_by_compiler_walk(k: OpKind) -> bool {
    match k {
        OpKind::Array | OpKind::ArrayEvery | OpKind::ArrayFilter | OpKind::ArrayFind
        | OpKind::ArrayFindIndex | OpKind::ArrayFlat | OpKind::ArrayFlatMap | OpKind::ArrayForEach
        | OpKind::ArrayFrom | OpKind::ArrayIncludes | OpKind::ArrayIndexOf | OpKind::ArrayIsArray
        | OpKind::ArrayJoin | OpKind::ArrayMap | OpKind::ArrayPushSpread | OpKind::ArrayReduce
        | OpKind::ArraySlice | OpKind::ArraySome | OpKind::ArraySort | OpKind::ArraySpread
        | OpKind::ArrayUnshift | OpKind::Await | OpKind::BigIntCoerce | OpKind::BooleanCoerce
        | OpKind::BufferAlloc | OpKind::BufferAllocUnsafe | OpKind::BufferByteLength
        | OpKind::BufferConcat | OpKind::BufferCopy | OpKind::BufferEquals | OpKind::BufferFill
        | OpKind::BufferFrom | OpKind::BufferIndexGet | OpKind::BufferIndexSet
        | OpKind::BufferIsBuffer | OpKind::BufferLength | OpKind::BufferSlice
        | OpKind::BufferToString | OpKind::BufferWrite | OpKind::CallSpread
        | OpKind::ChildProcessExec | OpKind::ChildProcessExecSync
        | OpKind::ChildProcessGetProcessStatus | OpKind::ChildProcessKillProcess
        | OpKind::ChildProcessSpawn | OpKind::ChildProcessSpawnBackground
        | OpKind::ChildProcessSpawnSync | OpKind::CryptoMd5 | OpKind::CryptoRandomBytes
        | OpKind::CryptoSha256 | OpKind::DateGetDate | OpKind::DateGetFullYear
        | OpKind::DateGetHours | OpKind::DateGetMilliseconds | OpKind::DateGetMinutes
        | OpKind::DateGetMonth | OpKind::DateGetSeconds | OpKind::DateGetTime | OpKind::DateNew
        | OpKind::DateToISOString | OpKind::Delete | OpKind::EnvGetDynamic | OpKind::ErrorMessage
        | OpKind::ErrorNew | OpKind::FetchGetWithAuth | OpKind::FetchPostWithAuth
        | OpKind::FetchWithOptions | OpKind::FileURLToPath | OpKind::FsAppendFileSync
        | OpKind::FsExistsSync | OpKind::FsMkdirSync | OpKind::FsReadFileBinary
        | OpKind::FsReadFileSync | OpKind::FsRmRecursive | OpKind::FsUnlinkSync
        | OpKind::FsWriteFileSync | OpKind::GlobalSet | OpKind::In | OpKind::IndexGet
        | OpKind::IndexSet | OpKind::IndexUpdate | OpKind::InstanceOf | OpKind::IsFinite
        | OpKind::IsNaN | OpKind::IsUndefinedOrBareNan | OpKind::JsCallFunction
        | OpKind::JsCallMethod | OpKind::JsCreateCallback | OpKind::JsGetExport
        | OpKind::JsGetProperty | OpKind::JsNew | OpKind::JsNewFromHandle | OpKind::JsSetProperty
        | OpKind::JsonParse | OpKind::JsonStringify | OpKind::Logical | OpKind::MapClear
        | OpKind::MapDelete | OpKind::MapEntries | OpKind::MapGet | OpKind::MapHas | OpKind::MapKeys
        | OpKind::MapSet | OpKind::MapSize | OpKind::MapValues | OpKind::MathAbs | OpKind::MathAcos
        | OpKind::MathAsin | OpKind::MathAtan | OpKind::MathAtan2 | OpKind::MathCeil
        | OpKind::MathCos | OpKind::MathFloor | OpKind::MathImul | OpKind::MathLog
        | OpKind::MathLog10 | OpKind::MathLog2 | OpKind::MathMax | OpKind::MathMaxSpread
        | OpKind::MathMin | OpKind::MathMinSpread | OpKind::MathPow | OpKind::MathRound
        | OpKind::MathSin | OpKind::MathSqrt | OpKind::MathTan | OpKind::NativeMethodCall
        | OpKind::NetConnect | OpKind::NetCreateConnection | OpKind::NetCreateServer | OpKind::New
        | OpKind::NewDynamic | OpKind::NumberCoerce | OpKind::NumberIsFinite
        | OpKind::NumberIsInteger | OpKind::NumberIsNaN | OpKind::NumberIsSafeInteger
        | OpKind::Object | OpKind::ObjectEntries | OpKind::ObjectKeys | OpKind::ObjectRest
        | OpKind::ObjectSpread | OpKind::ObjectValues | OpKind::ParseFloat | OpKind::ParseInt
        | OpKind::PathBasename | OpKind::PathDirname | OpKind::PathExtname | OpKind::PathIsAbsolute
        | OpKind::PathJoin | OpKind::PathResolve | OpKind::PropertyGet | OpKind::PropertySet
        | OpKind::PropertyUpdate | OpKind::RegExpTest | OpKind::Sequence | OpKind::SetClear
        | OpKind::SetDelete | OpKind::SetHas | OpKind::SetNewFromArray | OpKind::SetSize
        | OpKind::SetValues | OpKind::StaticFieldSet | OpKind::StaticMethodCall
        | OpKind::StaticPluginResolve | OpKind::StringCoerce | OpKind::StringFromCharCode
        | OpKind::StringMatch | OpKind::StringMatchAll | OpKind::StringReplace | OpKind::StringSplit
        | OpKind::SuperCall | OpKind::SuperMethodCall | OpKind::TypeOf | OpKind::Uint8ArrayFrom
        | OpKind::Uint8ArrayGet | OpKind::Uint8ArrayLength | OpKind::Uint8ArrayNew
        | OpKind::Uint8ArraySet | OpKind::Unary | OpKind::UrlGetHash | OpKind::UrlGetHost
        | OpKind::UrlGetHostname | OpKind::UrlGetHref | OpKind::UrlGetOrigin
        | OpKind::UrlGetPathname | OpKind::UrlGetPort | OpKind::UrlGetProtocol
        | OpKind::UrlGetSearch | OpKind::UrlGetSearchParams | OpKind::UrlNew
        | OpKind::UrlSearchParamsAppend | OpKind::UrlSearchParamsDelete | OpKind::UrlSearchParamsGet
        | OpKind::UrlSearchParamsGetAll | OpKind::UrlSearchParamsHas | OpKind::UrlSearchParamsNew
        | OpKind::UrlSearchParamsSet | OpKind::UrlSearchParamsToString | OpKind::Void
        | OpKind::Yield => true,
        _ => false,
    }
}

fn enters_compiler_walk(k: &OpKind) -> (b: bool)
    ensures
        b == entered_by_compiler_walk(*k),
{
    match k {
        OpKind::Array | OpKind::ArrayEvery | OpKind::ArrayFilter | OpKind::ArrayFind
        | OpKind::ArrayFindIndex | OpKind::ArrayFlat | OpKind::ArrayFlatMap | OpKind::ArrayForEach
        | OpKind::ArrayFrom | OpKind::ArrayIncludes | OpKind::ArrayIndexOf | OpKind::ArrayIsArray
        | OpKind::ArrayJoin | OpKind::ArrayMap | OpKind::ArrayPushSpread | OpKind::ArrayReduce
        | OpKind::ArraySlice | OpKind::ArraySome | OpKind::ArraySort | OpKind::ArraySpread
        | OpKind::ArrayUnshift | OpKind::Await | OpKind::BigIntCoerce | OpKind::BooleanCoerce
        | OpKind::BufferAlloc | OpKind::BufferAllocUnsafe | OpKind::BufferByteLength
        | OpKind::BufferConcat | OpKind::BufferCopy | OpKind::BufferEquals | OpKind::BufferFill
        | OpKind::BufferFrom | OpKind::BufferIndexGet | OpKind::BufferIndexSet
        | OpKind::BufferIsBuffer | OpKind::BufferLength | OpKind::BufferSlice
        | OpKind::BufferToString | OpKind::BufferWrite | OpKind::CallSpread
        | OpKind::ChildProcessExec | OpKind::ChildProcessExecSync
        | OpKind::ChildProcessGetProcessStatus | OpKind::ChildProcessKillProcess
        | OpKind::ChildProcessSpawn | OpKind::ChildProcessSpawnBackground
        | OpKind::ChildProcessSpawnSync | OpKind::CryptoMd5 | OpKind::CryptoRandomBytes
        | OpKind::CryptoSha256 | OpKind::DateGetDate | OpKind::DateGetFullYear
        | OpKind::DateGetHours | OpKind::DateGetMilliseconds | OpKind::DateGetMinutes
        | OpKind::DateGetMonth | OpKind::DateGetSeconds | OpKind::DateGetTime | OpKind::DateNew
        | OpKind::DateToISOString | OpKind::Delete | OpKind::EnvGetDynamic | OpKind::ErrorMessage
        | OpKind::ErrorNew | OpKind::FetchGetWithAuth | OpKind::FetchPostWithAuth
        | OpKind::FetchWithOptions | OpKind::FileURLToPath | OpKind::FsAppendFileSync
        | OpKind::FsExistsSync | OpKind::FsMkdirSync | OpKind::FsReadFileBinary
        | OpKind::FsReadFileSync | OpKind::FsRmRecursive | OpKind::FsUnlinkSync
        | OpKind::FsWriteFileSync | OpKind::GlobalSet | OpKind::In | OpKind::IndexGet
        | OpKind::IndexSet | OpKind::IndexUpdate | OpKind::InstanceOf | OpKind::IsFinite
        | OpKind::IsNaN | OpKind::IsUndefinedOrBareNan | OpKind::JsCallFunction
        | OpKind::JsCallMethod | OpKind::JsCreateCallback | OpKind::JsGetExport
        | OpKind::JsGetProperty | OpKind::JsNew | OpKind::JsNewFromHandle | OpKind::JsSetProperty
        | OpKind::JsonParse | OpKind::JsonStringify | OpKind::Logical | OpKind::MapClear
        | OpKind::MapDelete | OpKind::MapEntries | OpKind::MapGet | OpKind::MapHas | OpKind::MapKeys
        | OpKind::MapSet | OpKind::MapSize | OpKind::MapValues | OpKind::MathAbs | OpKind::MathAcos
        | OpKind::MathAsin | OpKind::MathAtan | OpKind::MathAtan2 | OpKind::MathCeil
        | OpKind::MathCos | OpKind::MathFloor | OpKind::MathImul | OpKind::MathLog
        | OpKind::MathLog10 | OpKind::MathLog2 | OpKind::MathMax | OpKind::MathMaxSpread
        | OpKind::MathMin | OpKind::MathMinSpread | OpKind::MathPow | OpKind::MathRound
        | OpKind::MathSin | OpKind::MathSqrt | OpKind::MathTan | OpKind::NativeMethodCall
        | OpKind::NetConnect | OpKind::NetCreateConnection | OpKind::NetCreateServer | OpKind::New
        | OpKind::NewDynamic | OpKind::NumberCoerce | OpKind::NumberIsFinite
        | OpKind::NumberIsInteger | OpKind::NumberIsNaN | OpKind::NumberIsSafeInteger
        | OpKind::Object | OpKind::ObjectEntries | OpKind::ObjectKeys | OpKind::ObjectRest
        | OpKind::ObjectSpread | OpKind::ObjectValues | OpKind::ParseFloat | OpKind::ParseInt
        | OpKind::PathBasename | OpKind::PathDirname | OpKind::PathExtname | OpKind::PathIsAbsolute
        | OpKind::PathJoin | OpKind::PathResolve | OpKind::PropertyGet | OpKind::PropertySet
        | OpKind::PropertyUpdate | OpKind::RegExpTest | OpKind::Sequence | OpKind::SetClear
        | OpKind::SetDelete | OpKind::SetHas | OpKind::SetNewFromArray | OpKind::SetSize
        | OpKind::SetValues | OpKind::StaticFieldSet | OpKind::StaticMethodCall
        | OpKind::StaticPluginResolve | OpKind::StringCoerce | OpKind::StringFromCharCode
        | OpKind::StringMatch | OpKind::StringMatchAll | OpKind::StringReplace | OpKind::StringSplit
        | OpKind::SuperCall | OpKind::SuperMethodCall | OpKind::TypeOf | OpKind::Uint8ArrayFrom
        | OpKind::Uint8ArrayGet | OpKind::Uint8ArrayLength | OpKind::Uint8ArrayNew
        | OpKind::Uint8ArraySet | OpKind::Unary | OpKind::UrlGetHash | OpKind::UrlGetHost
        | OpKind::UrlGetHostname | OpKind::UrlGetHref | OpKind::UrlGetOrigin
        | OpKind::UrlGetPathname | OpKind::UrlGetPort | OpKind::UrlGetProtocol
        | OpKind::UrlGetSearch | OpKind::UrlGetSearchParams | OpKind::UrlNew
        | OpKind::UrlSearchParamsAppend | OpKind::UrlSearchParamsDelete | OpKind::UrlSearchParamsGet
        | OpKind::UrlSearchParamsGetAll | OpKind::UrlSearchParamsHas | OpKind::UrlSearchParamsNew
        | OpKind::UrlSearchParamsSet | OpKind::UrlSearchParamsToString | OpKind::Void
        | OpKind::Yield => true,
        _ => false,
    }
}

/// Element stores, of which the walker visits only the first two
/// operands (the array and the index).
pub open spec fn first_two_only(k: OpKind) -> bool {
    k is Uint8ArraySet || k is BufferIndexSet
}

/// A closure as found, by value.
pub struct ClosureFound {
    pub func_id: u32,
    pub params: Vec<Param>,
    pub body: Vec<Stmt>,
    pub captures: Vec<u32>,
    pub mutable_captures: Vec<u32>,
    pub captures_this: bool,
    pub enclosing_class: Option<String>,
    pub is_async: bool,
}

/// A closure as recorded: its id and flags, and references to its
/// parameters, body, captures and enclosing class.
pub struct ClosureInfo<'a> {
    pub func_id: u32,
    pub params: &'a Vec<Param>,
    pub body: &'a Vec<Stmt>,
    pub captures: &'a Vec<u32>,
    pub mutable_captures: &'a Vec<u32>,
    pub captures_this: bool,
    pub enclosing_class: &'a Option<String>,
    pub is_async: bool,
}

pub open spec fn found_of<'a>(i: ClosureInfo<'a>) -> ClosureFound {
    ClosureFound {
        func_id: i.func_id,
        params: *i.params,
        body: *i.body,
        captures: *i.captures,
        mutable_captures: *i.mutable_captures,
        captures_this: i.captures_this,
        enclosing_class: *i.enclosing_class,
        is_async: i.is_async,
    }
}

/// The closures recorded in a list, by value.
pub open spec fn infos_view<'a>(v: Seq<ClosureInfo<'a>>) -> Seq<ClosureFound> {
    v.map_values(|i: ClosureInfo<'a>| found_of(i))
}

/// The closures in `e`, in walk order: a closure comes before those in
/// its body; sub-expressions are walked left to right.
pub open spec fn closure_infos(e: Expr) -> Seq<ClosureFound>
    decreases e,
{
    match e {
        Expr::Closure {
            func_id,
            params,
            body,
            captures,
            mutable_captures,
            captures_this,
            enclosing_class,
            is_async,
        } => seq![
            ClosureFound {
                func_id,
                params,
                body,
                captures,
                mutable_captures,
                captures_this,
                enclosing_class,
                is_async,
            },
        ] + closure_infos_stmts(body@),
        Expr::Binary { left, right, .. } => closure_infos(*left) + closure_infos(*right),
        Expr::Compare { left, right, .. } => closure_infos(*left) + closure_infos(*right),
        Expr::Call { callee, args } => closure_infos(*callee) + closure_infos_list(args@),
        Expr::Conditional { condition, then_expr, else_expr } => closure_infos(*condition) + closure_infos(
            *then_expr,
        ) + closure_infos(*else_expr),
        Expr::LocalSet(_, value) => closure_infos(*value),
        Expr::ArrayPush { value, .. } => closure_infos(*value),
        Expr::SetAdd { value, .. } => closure_infos(*value),
        Expr::ArraySplice { start, delete_count, items, .. } => closure_infos(*start) + (match delete_count {
            Some(d) => closure_infos(*d),
            None => Seq::empty(),
        }) + closure_infos_list(items@),
        Expr::Op { kind, args } => if !entered_by_compiler_walk(kind) {
            Seq::empty()
        } else if first_two_only(kind) && args.len() > 2 {
            closure_infos(args@[0]) + closure_infos(args@[1])
        } else {
            closure_infos_list(args@)
        },
        _ => Seq::empty(),
    }
}

pub open spec fn closure_infos_list(es: Seq<Expr>) -> Seq<ClosureFound>
    decreases es,
{
    if es.len() == 0 {
        Seq::empty()
    } else {
        closure_infos_list(es.drop_last()) + closure_infos(es.last())
    }
}

pub open spec fn closure_infos_stmt(s: Stmt) -> Seq<ClosureFound>
    decreases s,
{
    match s {
        Stmt::Let { init: Some(e), .. } => closure_infos(e),
        Stmt::Expr(e) => closure_infos(e),
        Stmt::Return(Some(e)) => closure_infos(e),
        Stmt::If { condition, then_branch, else_branch } => closure_infos(condition) + closure_infos_stmts(
            then_branch@,
        ) + (match else_branch {
            Some(eb) => closure_infos_stmts(eb@),
            None => Seq::empty(),
        }),
        Stmt::While { condition, body } => closure_infos(condition) + closure_infos_stmts(body@),
        Stmt::For { init, condition, update, body } => (match init {
            Some(i) => closure_infos_stmt(*i),
            None => Seq::empty(),
        }) + (match condition {
            Some(c) => closure_infos(c),
            None => Seq::empty(),
        }) + (match update {
            Some(u) => closure_infos(u),
            None => Seq::empty(),
        }) + closure_infos_stmts(body@),
        Stmt::Throw(e) => closure_infos(e),
        Stmt::Try { body, catch, finally } => closure_infos_stmts(body@) + (match catch {
            Some(c) => closure_infos_stmts(c.body@),
            None => Seq::empty(),
        }) + (match finally {
            Some(f) => closure_infos_stmts(f@),
            None => Seq::empty(),
        }),
        Stmt::Switch { discriminant, cases } => closure_infos(discriminant) + closure_infos_cases(cases@),
        _ => Seq::empty(),
    }
}

pub open spec fn closure_infos_stmts(ss: Seq<Stmt>) -> Seq<ClosureFound>
    decreases ss,
{
    if ss.len() == 0 {
        Seq::empty()
    } else {
        closure_infos_stmts(ss.drop_last()) + closure_infos_stmt(ss.last())
    }
}

pub open spec fn closure_infos_cases(cs: Seq<SwitchCase>) -> Seq<ClosureFound>
    decreases cs,
{
    if cs.len() == 0 {
        Seq::empty()
    } else {
        closure_infos_cases(cs.drop_last()) + (match cs.last().test {
            Some(t) => closure_infos(t),
            None => Seq::empty(),
        }) + closure_infos_stmts(cs.last().body@)
    }
}

/// Appends the closures of each statement in turn.
pub fn collect_closures_from_stmts_into<'a>(
    stmts: &'a [Stmt],
    closures: &mut Vec<ClosureInfo<'a>>,
    enclosing_class: Option<&str>,
)
    ensures
        infos_view(final(closures)@) == infos_view(old(closures)@) + closure_infos_stmts(stmts@),
    decreases stmts@,
{
    let ghost start = infos_view(closures@);
    let mut i: usize = 0;
    while i < stmts.len()
        invariant
            i <= stmts.len(),
            infos_view(closures@) == start + closure_infos_stmts(stmts@.take(i as int)),
        decreases stmts.len() - i,
    {
        assert(stmts@.take(i + 1).drop_last() =~= stmts@.take(i as int));
        collect_closures_from_stmt(&stmts[i], closures, enclosing_class);
        i = i + 1;
        assert(infos_view(closures@) =~= start + closure_infos_stmts(stmts@.take(i as int)));
    }
    assert(stmts@.take(stmts.len() as int) =~= stmts@);
}

fn closures_from_cases<'a>(cases: &'a Vec<SwitchCase>, closures: &mut Vec<ClosureInfo<'a>>, enclosing_class: Option<&str>)
    ensures
        infos_view(final(closures)@) == infos_view(old(closures)@) + closure_infos_cases(cases@),
    decreases cases@,
{
    let ghost start = infos_view(closures@);
    let mut i: usize = 0;
    while i < cases.len()
        invariant
            i <= cases.len(),
            infos_view(closures@) == start + closure_infos_cases(cases@.take(i as int)),
        decreases cases.len() - i,
    {
        assert(cases@.take(i + 1).drop_last() =~= cases@.take(i as int));
        let c = &cases[i];
        if let Some(t) = &c.test {
            collect_closures_from_expr(t, closures, enclosing_class);
        }
        collect_closures_from_stmts_into(c.body.as_slice(), closures, enclosing_class);
        i = i + 1;
        assert(infos_view(closures@) =~= start + closure_infos_cases(cases@.take(i as int)));
    }
    assert(cases@.take(cases.len() as int) =~= cases@);
}

/// Appends the closures of one statement.
pub fn collect_closures_from_stmt<'a>(stmt: &'a Stmt, closures: &mut Vec<ClosureInfo<'a>>, enclosing_class: Option<&str>)
    ensures
        infos_view(final(closures)@) == infos_view(old(closures)@) + closure_infos_stmt(*stmt),
    decreases stmt,
{
    match stmt {
        Stmt::Let { init: Some(expr), .. } | Stmt::Expr(expr) | Stmt::Return(Some(expr)) | Stmt::Throw(expr) => {
            collect_closures_from_expr(expr, closures, enclosing_class);
        },
        Stmt::If { condition, then_branch, else_branch } => {
            collect_closures_from_expr(condition, closures, enclosing_class);
            collect_closures_from_stmts_into(then_branch.as_slice(), closures, enclosing_class);
            if let Some(else_stmts) = else_branch {
                collect_closures_from_stmts_into(else_stmts.as_slice(), closures, enclosing_class);
            }
        },
        Stmt::While { condition, body } => {
            collect_closures_from_expr(condition, closures, enclosing_class);
            collect_closures_from_stmts_into(body.as_slice(), closures, enclosing_class);
        },
        Stmt::For { init, condition, update, body } => {
            if let Some(init_stmt) = init {
                collect_closures_from_stmt(init_stmt, closures, enclosing_class);
            }
            if let Some(cond) = condition {
                collect_closures_from_expr(cond, closures, enclosing_class);
            }
            if let Some(upd) = update {
                collect_closures_from_expr(upd, closures, enclosing_class);
            }
            collect_closures_from_stmts_into(body.as_slice(), closures, enclosing_class);
        },
        Stmt::Try { body, catch, finally } => {
            collect_closures_from_stmts_into(body.as_slice(), closures, enclosing_class);
            if let Some(catch_clause) = catch {
                collect_closures_from_stmts_into(catch_clause.body.as_slice(), closures, enclosing_class);
            }
            if let Some(finally_stmts) = finally {
                collect_closures_from_stmts_into(finally_stmts.as_slice(), closures, enclosing_class);
            }
        },
        Stmt::Switch { discriminant, cases } => {
            collect_closures_from_expr(discriminant, closures, enclosing_class);
            closures_from_cases(cases, closures, enclosing_class);
        },
        _ => {},
    }
    assert(infos_view(closures@) =~= infos_view(old(closures)@) + closure_infos_stmt(*stmt));
}

fn closures_from_list<'a>(es: &'a Vec<Expr>, closures: &mut Vec<ClosureInfo<'a>>, enclosing_class: Option<&str>)
    ensures
        infos_view(final(closures)@) == infos_view(old(closures)@) + closure_infos_list(es@),
    decreases es@,
{
    let ghost start = infos_view(closures@);
    let mut i: usize = 0;
    while i < es.len()
        invariant
            i <= es.len(),
            infos_view(closures@) == start + closure_infos_list(es@.take(i as int)),
        decreases es.len() - i,
    {
        assert(es@.take(i + 1).drop_last() =~= es@.take(i as int));
        collect_closures_from_expr(&es[i], closures, enclosing_class);
        i = i + 1;
        assert(infos_view(closures@) =~= start + closure_infos_list(es@.take(i as int)));
    }
    assert(es@.take(es.len() as int) =~= es@);
}

/// Appends the closures of `expr` (`closure_infos`). The class context
/// handed down to nested closures is the closure's own class when it has
/// one; what is recorded for each closure is the class stored in it.
pub fn collect_closures_from_expr<'a>(expr: &'a Expr, closures: &mut Vec<ClosureInfo<'a>>, enclosing_class: Option<&str>)
    ensures
        infos_view(final(closures)@) == infos_view(old(closures)@) + closure_infos(*expr),
    decreases expr,
{
    match expr {
        Expr::Closure {
            func_id,
            params,
            body,
            captures,
            mutable_captures,
            captures_this,
            enclosing_class: closure_class,
            is_async,
        } => {
            let ghost before = closures@;
            let info = ClosureInfo {
                func_id: *func_id,
                params,
                body,
                captures,
                mutable_captures,
                captures_this: *captures_this,
                enclosing_class: closure_class,
                is_async: *is_async,
            };
            closures.push(info);
            assert(infos_view(closures@) =~= infos_view(before).push(found_of(info)));
            let nested_class: Option<&str> = match closure_class {
                Some(c) => Some(c.as_str()),
                None => enclosing_class,
            };
            collect_closures_from_stmts_into(body.as_slice(), closures, nested_class);
        },
        Expr::Binary { left, right, .. } | Expr::Compare { left, right, .. } => {
            collect_closures_from_expr(left, closures, enclosing_class);
            collect_closures_from_expr(right, closures, enclosing_class);
        },
        Expr::Call { callee, args } => {
            collect_closures_from_expr(callee, closures, enclosing_class);
            closures_from_list(args, closures, enclosing_class);
        },
        Expr::Conditional { condition, then_expr, else_expr } => {
            collect_closures_from_expr(condition, closures, enclosing_class);
            collect_closures_from_expr(then_expr, closures, enclosing_class);
            collect_closures_from_expr(else_expr, closures, enclosing_class);
        },
        Expr::LocalSet(_, value) | Expr::ArrayPush { value, .. } | Expr::SetAdd { value, .. } => {
            collect_closures_from_expr(value, closures, enclosing_class);
        },
        Expr::ArraySplice { start, delete_count, items, .. } => {
            collect_closures_from_expr(start, closures, enclosing_class);
            if let Some(dc) = delete_count {
                collect_closures_from_expr(dc, closures, enclosing_class);
            }
            closures_from_list(items, closures, enclosing_class);
        },
        Expr::Op { kind, args } => {
            if enters_compiler_walk(kind) {
                let two = match kind {
                    OpKind::Uint8ArraySet | OpKind::BufferIndexSet => true,
                    _ => false,
                };
                if two && args.len() > 2 {
                    collect_closures_from_expr(&args[0], closures, enclosing_class);
                    collect_closures_from_expr(&args[1], closures, enclosing_class);
                } else {
                    closures_from_list(args, closures, enclosing_class);
                }
            }
        },
        _ => {},
    }
    assert(infos_view(closures@) =~= infos_view(old(closures)@) + closure_infos(*expr));
}

/// Operations whose sub-expressions the mutable-capture walker visits.
pub open spec fn entered_by_capture_walk(k: OpKind) -> bool {
    match k {
        OpKind::Array | OpKind::ArrayEvery | OpKind::ArrayFilter | OpKind::ArrayFind
        | OpKind::ArrayFindIndex | OpKind::ArrayFlat | OpKind::ArrayFlatMap | OpKind::ArrayForEach
        | OpKind::ArrayJoin | OpKind::ArrayMap | OpKind::ArrayPushSpread | OpKind::ArrayReduce
        | OpKind::ArraySome | OpKind::ArraySort | OpKind::ArraySpread | OpKind::ArrayUnshift
        | OpKind::GlobalSet | OpKind::IndexGet | OpKind::IndexSet | OpKind::JsCallFunction
        | OpKind::JsCallMethod | OpKind::JsCreateCallback | OpKind::JsGetExport
        | OpKind::JsGetProperty | OpKind::JsNew | OpKind::JsNewFromHandle | OpKind::JsSetProperty
        | OpKind::NativeMethodCall | OpKind::New | OpKind::Object | OpKind::ObjectSpread
        | OpKind::PropertyGet | OpKind::PropertySet | OpKind::Unary => true,
        _ => false,
    }
}

fn enters_capture_walk(k: &OpKind) -> (b: bool)
    ensures
        b == entered_by_capture_walk(*k),
{
    match k {
        OpKind::Array | OpKind::ArrayEvery | OpKind::ArrayFilter | OpKind::ArrayFind
        | OpKind::ArrayFindIndex | OpKind::ArrayFlat | OpKind::ArrayFlatMap | OpKind::ArrayForEach
        | OpKind::ArrayJoin | OpKind::ArrayMap | OpKind::ArrayPushSpread | OpKind::ArrayReduce
        | OpKind::ArraySome | OpKind::ArraySort | OpKind::ArraySpread | OpKind::ArrayUnshift
        | OpKind::GlobalSet | OpKind::IndexGet | OpKind::IndexSet | OpKind::JsCallFunction
        | OpKind::JsCallMethod | OpKind::JsCreateCallback | OpKind::JsGetExport
        | OpKind::JsGetProperty | OpKind::JsNew | OpKind::JsNewFromHandle | OpKind::JsSetProperty
        | OpKind::NativeMethodCall | OpKind::New | OpKind::Object | OpKind::ObjectSpread
        | OpKind::PropertyGet | OpKind::PropertySet | OpKind::Unary => true,
        _ => false,
    }
}

/// Locals that closures in `e` capture mutably (nested closures
/// included); such locals must be boxed where they are declared.
pub open spec fn mutable_captures(e: Expr) -> Set<u32>
    decreases e,
{
    match e {
        Expr::Closure { mutable_captures, body, .. } => id_set(mutable_captures@) + mutable_captures_stmts(body@),
        Expr::Binary { left, right, .. } => mutable_captures(*left) + mutable_captures(*right),
        Expr::Call { callee, args } => mutable_captures(*callee) + mutable_captures_list(args@),
        Expr::Conditional { condition, then_expr, else_expr } => mutable_captures(*condition) + mutable_captures(
            *then_expr,
        ) + mutable_captures(*else_expr),
        Expr::LocalSet(_, value) => mutable_captures(*value),
        Expr::ArrayPush { value, .. } => mutable_captures(*value),
        Expr::Op { kind, args } => if entered_by_capture_walk(kind) {
            mutable_captures_list(args@)
        } else {
            Set::empty()
        },
        _ => Set::empty(),
    }
}

pub open spec fn mutable_captures_list(es: Seq<Expr>) -> Set<u32>
    decreases es,
{
    if es.len() == 0 {
        Set::empty()
    } else {
        mutable_captures_list(es.drop_last()) + mutable_captures(es.last())
    }
}

/// The statements this walker looks into: `let`s with an initializer,
/// expression statements, `return` with a value, `if`, `while`, `for`,
/// `try`, and `switch` (its discriminant and case bodies).
pub open spec fn mutable_captures_stmt(s: Stmt) -> Set<u32>
    decreases s,
{
    match s {
        Stmt::Let { init: Some(e), .. } => mutable_captures(e),
        Stmt::Expr(e) => mutable_captures(e),
        Stmt::Return(Some(e)) => mutable_captures(e),
        Stmt::If { condition, then_branch, else_branch } => mutable_captures(condition) + mutable_captures_stmts(
            then_branch@,
        ) + (match else_branch {
            Some(eb) => mutable_captures_stmts(eb@),
            None => Set::empty(),
        }),
        Stmt::While { condition, body } => mutable_captures(condition) + mutable_captures_stmts(body@),
        Stmt::For { init, condition, update, body } => (match init {
            Some(i) => mutable_captures_stmt(*i),
            None => Set::empty(),
        }) + (match condition {
            Some(c) => mutable_captures(c),
            None => Set::empty(),
        }) + (match update {
            Some(u) => mutable_captures(u),
            None => Set::empty(),
        }) + mutable_captures_stmts(body@),
        Stmt::Try { body, catch, finally } => mutable_captures_stmts(body@) + (match catch {
            Some(c) => mutable_captures_stmts(c.body@),
            None => Set::empty(),
        }) + (match finally {
            Some(f) => mutable_captures_stmts(f@),
            None => Set::empty(),
        }),
        Stmt::Switch { discriminant, cases } => mutable_captures(discriminant) + mutable_captures_cases(cases@),
        _ => Set::empty(),
    }
}

pub open spec fn mutable_captures_stmts(ss: Seq<Stmt>) -> Set<u32>
    decreases ss,
{
    if ss.len() == 0 {
        Set::empty()
    } else {
        mutable_captures_stmts(ss.drop_last()) + mutable_captures_stmt(ss.last())
    }
}

/// Case bodies only; case tests are not looked into.
pub open spec fn mutable_captures_cases(cs: Seq<SwitchCase>) -> Set<u32>
    decreases cs,
{
    if cs.len() == 0 {
        Set::empty()
    } else {
        mutable_captures_cases(cs.drop_last()) + mutable_captures_stmts(cs.last().body@)
    }
}

/// All mutable captures of closures in `stmts`: the locals that need to be
/// boxed at declaration time.
pub fn collect_mutable_captures_from_stmts(stmts: &[Stmt]) -> (r: HashSet<u32>)
    ensures
        r@ == mutable_captures_stmts(stmts@),
{
    let mut captures: HashSet<u32> = HashSet::new();
    mutable_captures_in_stmts(stmts, &mut captures);
    assert(captures@ =~= mutable_captures_stmts(stmts@));
    captures
}

fn mutable_captures_in_stmts(stmts: &[Stmt], captures: &mut HashSet<u32>)
    ensures
        final(captures)@ == old(captures)@ + mutable_captures_stmts(stmts@),
    decreases stmts@,
{
    let ghost start = captures@;
    let mut i: usize = 0;
    while i < stmts.len()
        invariant
            i <= stmts.len(),
            captures@ == start + mutable_captures_stmts(stmts@.take(i as int)),
        decreases stmts.len() - i,
    {
        assert(stmts@.take(i + 1).drop_last() =~= stmts@.take(i as int));
        collect_mutable_captures_from_stmt(&stmts[i], captures);
        i = i + 1;
        assert(captures@ =~= start + mutable_captures_stmts(stmts@.take(i as int)));
    }
    assert(stmts@.take(stmts.len() as int) =~= stmts@);
}

fn mutable_captures_in_cases(cases: &Vec<SwitchCase>, captures: &mut HashSet<u32>)
    ensures
        final(captures)@ == old(captures)@ + mutable_captures_cases(cases@),
    decreases cases@,
{
    let ghost start = captures@;
    let mut i: usize = 0;
    while i < cases.len()
        invariant
            i <= cases.len(),
            captures@ == start + mutable_captures_cases(cases@.take(i as int)),
        decreases cases.len() - i,
    {
        assert(cases@.take(i + 1).drop_last() =~= cases@.take(i as int));
        mutable_captures_in_stmts(cases[i].body.as_slice(), captures);
        i = i + 1;
        assert(captures@ =~= start + mutable_captures_cases(cases@.take(i as int)));
    }
    assert(cases@.take(cases.len() as int) =~= cases@);
}

pub fn collect_mutable_captures_from_stmt(stmt: &Stmt, captures: &mut HashSet<u32>)
    ensures
        final(captures)@ == old(captures)@ + mutable_captures_stmt(*stmt),
    decreases stmt,
{
    match stmt {
        Stmt::Let { init: Some(expr), .. } | Stmt::Expr(expr) | Stmt::Return(Some(expr)) => {
            collect_mutable_captures_from_expr(expr, captures);
        },
        Stmt::If { condition, then_branch, else_branch } => {
            collect_mutable_captures_from_expr(condition, captures);
            mutable_captures_in_stmts(then_branch.as_slice(), captures);
            if let Some(else_stmts) = else_branch {
                mutable_captures_in_stmts(else_stmts.as_slice(), captures);
            }
        },
        Stmt::While { condition, body } => {
            collect_mutable_captures_from_expr(condition, captures);
            mutable_captures_in_stmts(body.as_slice(), captures);
        },
        Stmt::For { init, condition, update, body } => {
            if let Some(init_stmt) = init {
                collect_mutable_captures_from_stmt(init_stmt, captures);
            }
            if let Some(cond) = condition {
                collect_mutable_captures_from_expr(cond, captures);
            }
            if let Some(upd) = update {
                collect_mutable_captures_from_expr(upd, captures);
            }
            mutable_captures_in_stmts(body.as_slice(), captures);
        },
        Stmt::Try { body, catch, finally } => {
            mutable_captures_in_stmts(body.as_slice(), captures);
            if let Some(catch_clause) = catch {
                mutable_captures_in_stmts(catch_clause.body.as_slice(), captures);
            }
            if let Some(finally_stmts) = finally {
                mutable_captures_in_stmts(finally_stmts.as_slice(), captures);
            }
        },
        Stmt::Switch { discriminant, cases } => {
            collect_mutable_captures_from_expr(discriminant, captures);
            mutable_captures_in_cases(cases, captures);
        },
        _ => {},
    }
    assert(captures@ =~= old(captures)@ + mutable_captures_stmt(*stmt));
}

fn mutable_captures_in_list(es: &Vec<Expr>, captures: &mut HashSet<u32>)
    ensures
        final(captures)@ == old(captures)@ + mutable_captures_list(es@),
    decreases es@,
{
    let ghost start = captures@;
    let mut i: usize = 0;
    while i < es.len()
        invariant
            i <= es.len(),
            captures@ == start + mutable_captures_list(es@.take(i as int)),
        decreases es.len() - i,
    {
        assert(es@.take(i + 1).drop_last() =~= es@.take(i as int));
        collect_mutable_captures_from_expr(&es[i], captures);
        i = i + 1;
        assert(captures@ =~= start + mutable_captures_list(es@.take(i as int)));
    }
    assert(es@.take(es.len() as int) =~= es@);
}

pub fn collect_mutable_captures_from_expr(expr: &Expr, captures: &mut HashSet<u32>)
    ensures
        final(captures)@ == old(captures)@ + mutable_captures(*expr),
    decreases expr,
{
    match expr {
        Expr::Closure { mutable_captures, body, .. } => {
            insert_ids(captures, mutable_captures);
            mutable_captures_in_stmts(body.as_slice(), captures);
        },
        Expr::Binary { left, right, .. } => {
            collect_mutable_captures_from_expr(left, captures);
            collect_mutable_captures_from_expr(right, captures);
        },
        Expr::Call { callee, args } => {
            collect_mutable_captures_from_expr(callee, captures);
            mutable_captures_in_list(args, captures);
        },
        Expr::Conditional { condition, then_expr, else_expr } => {
            collect_mutable_captures_from_expr(condition, captures);
            collect_mutable_captures_from_expr(then_expr, captures);
            collect_mutable_captures_from_expr(else_expr, captures);
        },
        Expr::LocalSet(_, value) | Expr::ArrayPush { value, .. } => {
            collect_mutable_captures_from_expr(value, captures);
        },
        Expr::Op { kind, args } => {
            if enters_capture_walk(kind) {
                mutable_captures_in_list(args, captures);
            }
        },
        _ => {},
    }
    assert(captures@ =~= old(captures)@ + mutable_captures(*expr));
}

/// Operations whose sub-expressions the referenced-locals walker visits.
pub open spec fn entered_by_locals_walk(k: OpKind) -> bool {
    match k {
        OpKind::Array | OpKind::ArraySpread | OpKind::Await | OpKind::CallSpread
        | OpKind::EnvGetDynamic | OpKind::In | OpKind::IndexGet | OpKind::IndexSet
        | OpKind::IndexUpdate | OpKind::InstanceOf | OpKind::Logical | OpKind::NativeMethodCall
        | OpKind::New | OpKind::NewDynamic | OpKind::Object | OpKind::ObjectSpread
        | OpKind::PropertyGet | OpKind::PropertySet | OpKind::PropertyUpdate
        | OpKind::StaticFieldSet | OpKind::StaticMethodCall | OpKind::SuperCall
        | OpKind::SuperMethodCall | OpKind::TypeOf | OpKind::Unary | OpKind::Void | OpKind::Yield => true,
        _ => false,
    }
}

fn enters_locals_walk(k: &OpKind) -> (b: bool)
    ensures
        b == entered_by_locals_walk(*k),
{
    match k {
        OpKind::Array | OpKind::ArraySpread | OpKind::Await | OpKind::CallSpread
        | OpKind::EnvGetDynamic | OpKind::In | OpKind::IndexGet | OpKind::IndexSet
        | OpKind::IndexUpdate | OpKind::InstanceOf | OpKind::Logical | OpKind::NativeMethodCall
        | OpKind::New | OpKind::NewDynamic | OpKind::Object | OpKind::ObjectSpread
        | OpKind::PropertyGet | OpKind::PropertySet | OpKind::PropertyUpdate
        | OpKind::StaticFieldSet | OpKind::StaticMethodCall | OpKind::SuperCall
        | OpKind::SuperMethodCall | OpKind::TypeOf | OpKind::Unary | OpKind::Void | OpKind::Yield => true,
        _ => false,
    }
}

/// Locals that `e` reads or writes, as the closure compiler counts them
/// (closure literals are not entered).
pub open spec fn referenced_locals(e: Expr) -> Set<u32>
    decreases e,
{
    match e {
        Expr::LocalGet(id) => set![id],
        Expr::LocalSet(id, value) => set![id] + referenced_locals(*value),
        Expr::Update { id } => set![id],
        Expr::Binary { left, right, .. } => referenced_locals(*left) + referenced_locals(*right),
        Expr::Compare { left, right, .. } => referenced_locals(*left) + referenced_locals(*right),
        Expr::Call { callee, args } => referenced_locals(*callee) + referenced_locals_list(args@),
        Expr::Conditional { condition, then_expr, else_expr } => referenced_locals(*condition)
            + referenced_locals(*then_expr) + referenced_locals(*else_expr),
        Expr::Op { kind, args } => if entered_by_locals_walk(kind) {
            referenced_locals_list(args@)
        } else {
            Set::empty()
        },
        _ => Set::empty(),
    }
}

pub open spec fn referenced_locals_list(es: Seq<Expr>) -> Set<u32>
    decreases es,
{
    if es.len() == 0 {
        Set::empty()
    } else {
        referenced_locals_list(es.drop_last()) + referenced_locals(es.last())
    }
}

pub open spec fn referenced_locals_stmt(s: Stmt) -> Set<u32>
    decreases s,
{
    match s {
        Stmt::Let { init: Some(e), .. } => referenced_locals(e),
        Stmt::Expr(e) => referenced_locals(e),
        Stmt::Return(Some(e)) => referenced_locals(e),
        Stmt::If { condition, then_branch, else_branch } => referenced_locals(condition)
            + referenced_locals_stmts(then_branch@) + (match else_branch {
            Some(eb) => referenced_locals_stmts(eb@),
            None => Set::empty(),
        }),
        Stmt::While { condition, body } => referenced_locals(condition) + referenced_locals_stmts(body@),
        Stmt::DoWhile { body, condition } => referenced_locals_stmts(body@) + referenced_locals(condition),
        Stmt::Labeled { body, .. } => referenced_locals_stmt(*body),
        Stmt::For { init, condition, update, body } => (match init {
            Some(i) => referenced_locals_stmt(*i),
            None => Set::empty(),
        }) + (match condition {
            Some(c) => referenced_locals(c),
            None => Set::empty(),
        }) + (match update {
            Some(u) => referenced_locals(u),
            None => Set::empty(),
        }) + referenced_locals_stmts(body@),
        Stmt::Throw(e) => referenced_locals(e),
        Stmt::Try { body, catch, finally } => referenced_locals_stmts(body@) + (match catch {
            Some(c) => referenced_locals_stmts(c.body@),
            None => Set::empty(),
        }) + (match finally {
            Some(f) => referenced_locals_stmts(f@),
            None => Set::empty(),
        }),
        Stmt::Switch { discriminant, cases } => referenced_locals(discriminant) + referenced_locals_cases(cases@),
        _ => Set::empty(),
    }
}

pub open spec fn referenced_locals_stmts(ss: Seq<Stmt>) -> Set<u32>
    decreases ss,
{
    if ss.len() == 0 {
        Set::empty()
    } else {
        referenced_locals_stmts(ss.drop_last()) + referenced_locals_stmt(ss.last())
    }
}

pub open spec fn referenced_locals_cases(cs: Seq<SwitchCase>) -> Set<u32>
    decreases cs,
{
    if cs.len() == 0 {
        Set::empty()
    } else {
        referenced_locals_cases(cs.drop_last()) + (match cs.last().test {
            Some(t) => referenced_locals(t),
            None => Set::empty(),
        }) + referenced_locals_stmts(cs.last().body@)
    }
}

/// Collects every local read or written in `stmts` (`referenced_locals`),
/// used to load only the module-level variables a closure uses.
pub fn collect_referenced_locals_stmts(stmts: &[Stmt], out: &mut HashSet<u32>)
    ensures
        final(out)@ == old(out)@ + referenced_locals_stmts(stmts@),
    decreases stmts@,
{
    let ghost start = out@;
    let mut i: usize = 0;
    while i < stmts.len()
        invariant
            i <= stmts.len(),
            out@ == start + referenced_locals_stmts(stmts@.take(i as int)),
        decreases stmts.len() - i,
    {
        assert(stmts@.take(i + 1).drop_last() =~= stmts@.take(i as int));
        collect_referenced_locals_stmt(&stmts[i], out);
        i = i + 1;
        assert(out@ =~= start + referenced_locals_stmts(stmts@.take(i as int)));
    }
    assert(stmts@.take(stmts.len() as int) =~= stmts@);
}

fn referenced_locals_in_cases(cases: &Vec<SwitchCase>, out: &mut HashSet<u32>)
    ensures
        final(out)@ == old(out)@ + referenced_locals_cases(cases@),
    decreases cases@,
{
    let ghost start = out@;
    let mut i: usize = 0;
    while i < cases.len()
        invariant
            i <= cases.len(),
            out@ == start + referenced_locals_cases(cases@.take(i as int)),
        decreases cases.len() - i,
    {
        assert(cases@.take(i + 1).drop_last() =~= cases@.take(i as int));
        let c = &cases[i];
        if let Some(t) = &c.test {
            collect_referenced_locals_expr(t, out);
        }
        collect_referenced_locals_stmts(c.body.as_slice(), out);
        i = i + 1;
        assert(out@ =~= start + referenced_locals_cases(cases@.take(i as int)));
    }
    assert(cases@.take(cases.len() as int) =~= cases@);
}

pub fn collect_referenced_locals_stmt(stmt: &Stmt, out: &mut HashSet<u32>)
    ensures
        final(out)@ == old(out)@ + referenced_locals_stmt(*stmt),
    decreases stmt,
{
    match stmt {
        Stmt::Let { init: Some(expr), .. } | Stmt::Expr(expr) | Stmt::Return(Some(expr)) | Stmt::Throw(expr) => {
            collect_referenced_locals_expr(expr, out);
        },
        Stmt::If { condition, then_branch, else_branch } => {
            collect_referenced_locals_expr(condition, out);
            collect_referenced_locals_stmts(then_branch.as_slice(), out);
            if let Some(els) = else_branch {
                collect_referenced_locals_stmts(els.as_slice(), out);
            }
        },
        Stmt::While { condition, body } => {
            collect_referenced_locals_expr(condition, out);
            collect_referenced_locals_stmts(body.as_slice(), out);
        },
        Stmt::DoWhile { body, condition } => {
            collect_referenced_locals_stmts(body.as_slice(), out);
            collect_referenced_locals_expr(condition, out);
        },
        Stmt::Labeled { body, .. } => {
            collect_referenced_locals_stmt(body, out);
        },
        Stmt::For { init, condition, update, body } => {
            if let Some(i) = init {
                collect_referenced_locals_stmt(i, out);
            }
            if let Some(c) = condition {
                collect_referenced_locals_expr(c, out);
            }
            if let Some(u) = update {
                collect_referenced_locals_expr(u, out);
            }
            collect_referenced_locals_stmts(body.as_slice(), out);
        },
        Stmt::Try { body, catch, finally } => {
            collect_referenced_locals_stmts(body.as_slice(), out);
            if let Some(c) = catch {
                collect_referenced_locals_stmts(c.body.as_slice(), out);
            }
            if let Some(f) = finally {
                collect_referenced_locals_stmts(f.as_slice(), out);
            }
        },
        Stmt::Switch { discriminant, cases } => {
            collect_referenced_locals_expr(discriminant, out);
            referenced_locals_in_cases(cases, out);
        },
        _ => {},
    }
    assert(out@ =~= old(out)@ + referenced_locals_stmt(*stmt));
}

fn referenced_locals_in_list(es: &Vec<Expr>, out: &mut HashSet<u32>)
    ensures
        final(out)@ == old(out)@ + referenced_locals_list(es@),
    decreases es@,
{
    let ghost start = out@;
    let mut i: usize = 0;
    while i < es.len()
        invariant
            i <= es.len(),
            out@ == start + referenced_locals_list(es@.take(i as int)),
        decreases es.len() - i,
    {
        assert(es@.take(i + 1).drop_last() =~= es@.take(i as int));
        collect_referenced_locals_expr(&es[i], out);
        i = i + 1;
        assert(out@ =~= start + referenced_locals_list(es@.take(i as int)));
    }
    assert(es@.take(es.len() as int) =~= es@);
}

pub fn collect_referenced_locals_expr(expr: &Expr, out: &mut HashSet<u32>)
    ensures
        final(out)@ == old(out)@ + referenced_locals(*expr),
    decreases expr,
{
    match expr {
        Expr::LocalGet(id) | Expr::Update { id } => {
            out.insert(*id);
        },
        Expr::LocalSet(id, value) => {
            out.insert(*id);
            collect_referenced_locals_expr(value, out);
        },
        Expr::Binary { left, right, .. } | Expr::Compare { left, right, .. } => {
            collect_referenced_locals_expr(left, out);
            collect_referenced_locals_expr(right, out);
        },
        Expr::Call { callee, args } => {
            collect_referenced_locals_expr(callee, out);
            referenced_locals_in_list(args, out);
        },
        Expr::Conditional { condition, then_expr, else_expr } => {
            collect_referenced_locals_expr(condition, out);
            collect_referenced_locals_expr(then_expr, out);
            collect_referenced_locals_expr(else_expr, out);
        },
        Expr::Op { kind, args } => {
            if enters_locals_walk(kind) {
                referenced_locals_in_list(args, out);
            }
        },
        _ => {},
    }
    assert(out@ =~= old(out)@ + referenced_locals(*expr));
}

/// Each element's part is included in the whole list's.
pub proof fn lemma_mutable_captures_list_elems(es: Seq<Expr>)
    ensures
        forall|i: int| 0 <= i < es.len() ==> mutable_captures(#[trigger] es[i]).subset_of(mutable_captures_list(es)),
    decreases es.len(),
{
    if es.len() > 0 {
        lemma_mutable_captures_list_elems(es.drop_last());
        assert forall|i: int| 0 <= i < es.len() implies mutable_captures(#[trigger] es[i]).subset_of(mutable_captures_list(es)) by {
            if i + 1 < es.len() {
                assert(es.drop_last()[i] == es[i]);
            }
        }
    }
}

/// Each element's part is included in the whole list's.
pub proof fn lemma_mutable_captures_stmts_elems(es: Seq<Stmt>)
    ensures
        forall|i: int| 0 <= i < es.len() ==> mutable_captures_stmt(#[trigger] es[i]).subset_of(mutable_captures_stmts(es)),
    decreases es.len(),
{
    if es.len() > 0 {
        lemma_mutable_captures_stmts_elems(es.drop_last());
        assert forall|i: int| 0 <= i < es.len() implies mutable_captures_stmt(#[trigger] es[i]).subset_of(mutable_captures_stmts(es)) by {
            if i + 1 < es.len() {
                assert(es.drop_last()[i] == es[i]);
            }
        }
    }
}

/// Each case's part is included in the whole switch's.
pub proof fn lemma_mutable_captures_cases_elems(cs: Seq<SwitchCase>)
    ensures
        forall|i: int| #![trigger cs[i]] 0 <= i < cs.len() ==> mutable_captures_stmts(cs[i].body@).subset_of(mutable_captures_cases(cs)),
    decreases cs.len(),
{
    if cs.len() > 0 {
        lemma_mutable_captures_cases_elems(cs.drop_last());
        assert forall|i: int| #![trigger cs[i]] 0 <= i < cs.len() implies mutable_captures_stmts(cs[i].body@).subset_of(mutable_captures_cases(cs)) by {
            if i + 1 < cs.len() {
                assert(cs.drop_last()[i] == cs[i]);
            }
        }
    }
}

/// Completeness of `mutable_captures`: every mutable capture of a
/// closure literal, and every one found in the sub-expressions (call
/// arguments among them) and closure bodies the walker visits, is in the
/// result.
pub proof fn lemma_mutable_captures_complete(e: Expr)
    ensures
        e matches Expr::LocalSet(id, value) ==> (mutable_captures(*value).subset_of(mutable_captures(e))),
        e matches Expr::Binary { left, right, .. } ==> (mutable_captures(*left).subset_of(mutable_captures(e))
            && mutable_captures(*right).subset_of(mutable_captures(e))),
        e matches Expr::Call { callee, args } ==> (mutable_captures(*callee).subset_of(mutable_captures(e))
            && (forall|i: int| 0 <= i < args@.len() ==> mutable_captures(#[trigger] args@[i]).subset_of(mutable_captures(e)))),
        e matches Expr::Conditional { condition, then_expr, else_expr } ==> (mutable_captures(*condition).subset_of(mutable_captures(e))
            && mutable_captures(*then_expr).subset_of(mutable_captures(e))
            && mutable_captures(*else_expr).subset_of(mutable_captures(e))),
        e matches Expr::Closure { mutable_captures: mc, body, .. } ==> ((forall|i: int| 0 <= i < mc@.len() ==> mutable_captures(e).contains(#[trigger] mc@[i]))
            && (forall|i: int| 0 <= i < body@.len() ==> mutable_captures_stmt(#[trigger] body@[i]).subset_of(mutable_captures(e)))),
        e matches Expr::ArrayPush { array_id, value } ==> (mutable_captures(*value).subset_of(mutable_captures(e))),
        e matches Expr::Op { kind, args } ==> ((entered_by_capture_walk(kind) ==> (forall|i: int| 0 <= i < args.len() ==> mutable_captures(#[trigger] args@[i]).subset_of(mutable_captures(e))))),
{
    match e {
        Expr::Call { args, .. } => {
            lemma_mutable_captures_list_elems(args@);
        },
        Expr::Closure { mutable_captures: mc, body, .. } => {
            lemma_id_set_elems(mc@);
            lemma_mutable_captures_stmts_elems(body@);
        },
        Expr::Op { args, .. } => {
            lemma_mutable_captures_list_elems(args@);
        },
        _ => {},
    }
}

/// Completeness of `mutable_captures_stmt` over the statements the
/// walker looks into.
pub proof fn lemma_mutable_captures_stmt_complete(s: Stmt)
    ensures
        s matches Stmt::Expr(x) ==> (mutable_captures(x).subset_of(mutable_captures_stmt(s))),
        s matches Stmt::Return(Some(x)) ==> (mutable_captures(x).subset_of(mutable_captures_stmt(s))),
        s matches Stmt::Let { init: Some(x), .. } ==> (mutable_captures(x).subset_of(mutable_captures_stmt(s))),
        s matches Stmt::If { condition, then_branch, else_branch } ==> (mutable_captures(condition).subset_of(mutable_captures_stmt(s))
            && (forall|i: int| 0 <= i < then_branch@.len() ==> mutable_captures_stmt(#[trigger] then_branch@[i]).subset_of(mutable_captures_stmt(s)))
            && (else_branch matches Some(eb) ==> (forall|i: int| 0 <= i < eb@.len() ==> mutable_captures_stmt(#[trigger] eb@[i]).subset_of(mutable_captures_stmt(s))))),
        s matches Stmt::While { condition, body } ==> (mutable_captures(condition).subset_of(mutable_captures_stmt(s))
            && (forall|i: int| 0 <= i < body@.len() ==> mutable_captures_stmt(#[trigger] body@[i]).subset_of(mutable_captures_stmt(s)))),
        s matches Stmt::For { init, condition, update, body } ==> ((init matches Some(i) ==> mutable_captures_stmt(*i).subset_of(mutable_captures_stmt(s)))
            && (condition matches Some(c) ==> mutable_captures(c).subset_of(mutable_captures_stmt(s)))
            && (update matches Some(u) ==> mutable_captures(u).subset_of(mutable_captures_stmt(s)))
            && (forall|i: int| 0 <= i < body@.len() ==> mutable_captures_stmt(#[trigger] body@[i]).subset_of(mutable_captures_stmt(s)))),
        s matches Stmt::Try { body, catch, finally } ==> ((forall|i: int| 0 <= i < body@.len() ==> mutable_captures_stmt(#[trigger] body@[i]).subset_of(mutable_captures_stmt(s)))
            && (catch matches Some(c) ==> (forall|i: int| 0 <= i < c.body.len() ==> mutable_captures_stmt(#[trigger] c.body@[i]).subset_of(mutable_captures_stmt(s))))
            && (finally matches Some(f) ==> (forall|i: int| 0 <= i < f@.len() ==> mutable_captures_stmt(#[trigger] f@[i]).subset_of(mutable_captures_stmt(s))))),
        s matches Stmt::Switch { discriminant, cases } ==> (mutable_captures(discriminant).subset_of(mutable_captures_stmt(s))
            && (forall|i: int, j: int| 0 <= i < cases@.len() && 0 <= j < cases@[i].body@.len() ==> mutable_captures_stmt(#[trigger] cases@[i].body@[j]).subset_of(mutable_captures_stmt(s)))),
{
    match s {
        Stmt::If { then_branch, else_branch, .. } => {
            lemma_mutable_captures_stmts_elems(then_branch@);
            if let Some(eb) = else_branch { lemma_mutable_captures_stmts_elems(eb@); };
        },
        Stmt::While { body, .. } => {
            lemma_mutable_captures_stmts_elems(body@);
        },
        Stmt::For { body, .. } => {
            lemma_mutable_captures_stmts_elems(body@);
        },
        Stmt::Try { body, catch, finally } => {
            lemma_mutable_captures_stmts_elems(body@);
            if let Some(c) = catch { lemma_mutable_captures_stmts_elems(c.body@); };
            if let Some(f) = finally { lemma_mutable_captures_stmts_elems(f@); };
        },
        Stmt::Switch { cases, .. } => {
            lemma_mutable_captures_cases_elems(cases@);
            assert forall|i: int, j: int| 0 <= i < cases.len() && 0 <= j < cases@[i].body@.len() implies mutable_captures_stmt(#[trigger] cases@[i].body@[j]).subset_of(mutable_captures_stmt(s)) by { lemma_mutable_captures_stmts_elems(cases@[i].body@); };
        },
        _ => {},
    }
}

/// Each element's part is included in the whole list's.
pub proof fn lemma_referenced_locals_list_elems(es: Seq<Expr>)
    ensures
        forall|i: int| 0 <= i < es.len() ==> referenced_locals(#[trigger] es[i]).subset_of(referenced_locals_list(es)),
    decreases es.len(),
{
    if es.len() > 0 {
        lemma_referenced_locals_list_elems(es.drop_last());
        assert forall|i: int| 0 <= i < es.len() implies referenced_locals(#[trigger] es[i]).subset_of(referenced_locals_list(es)) by {
            if i + 1 < es.len() {
                assert(es.drop_last()[i] == es[i]);
            }
        }
    }
}

/// Each element's part is included in the whole list's.
pub proof fn lemma_referenced_locals_stmts_elems(es: Seq<Stmt>)
    ensures
        forall|i: int| 0 <= i < es.len() ==> referenced_locals_stmt(#[trigger] es[i]).subset_of(referenced_locals_stmts(es)),
    decreases es.len(),
{
    if es.len() > 0 {
        lemma_referenced_locals_stmts_elems(es.drop_last());
        assert forall|i: int| 0 <= i < es.len() implies referenced_locals_stmt(#[trigger] es[i]).subset_of(referenced_locals_stmts(es)) by {
            if i + 1 < es.len() {
                assert(es.drop_last()[i] == es[i]);
            }
        }
    }
}

/// Each case's part is included in the whole switch's.
pub proof fn lemma_referenced_locals_cases_elems(cs: Seq<SwitchCase>)
    ensures
        forall|i: int| #![trigger cs[i]] 0 <= i < cs.len() ==> referenced_locals_stmts(cs[i].body@).subset_of(referenced_locals_cases(cs)),
        forall|i: int| #![trigger cs[i]] 0 <= i < cs.len() ==> (cs[i].test matches Some(t) ==> referenced_locals(t).subset_of(referenced_locals_cases(cs))),
    decreases cs.len(),
{
    if cs.len() > 0 {
        lemma_referenced_locals_cases_elems(cs.drop_last());
        assert forall|i: int| #![trigger cs[i]] 0 <= i < cs.len() implies referenced_locals_stmts(cs[i].body@).subset_of(referenced_locals_cases(cs)) && (cs[i].test matches Some(t) ==> referenced_locals(t).subset_of(referenced_locals_cases(cs))) by {
            if i + 1 < cs.len() {
                assert(cs.drop_last()[i] == cs[i]);
            }
        }
    }
}

/// Completeness of `referenced_locals`: every local read, written or
/// updated, directly or in a visited sub-expression, is in the result.
pub proof fn lemma_referenced_locals_complete(e: Expr)
    ensures
        e matches Expr::LocalGet(id) ==> (referenced_locals(e).contains(id)),
        e matches Expr::Update { id } ==> (referenced_locals(e).contains(id)),
        e matches Expr::LocalSet(id, value) ==> (referenced_locals(e).contains(id)
            && referenced_locals(*value).subset_of(referenced_locals(e))),
        e matches Expr::Binary { left, right, .. } ==> (referenced_locals(*left).subset_of(referenced_locals(e))
            && referenced_locals(*right).subset_of(referenced_locals(e))),
        e matches Expr::Compare { left, right, .. } ==> (referenced_locals(*left).subset_of(referenced_locals(e))
            && referenced_locals(*right).subset_of(referenced_locals(e))),
        e matches Expr::Call { callee, args } ==> (referenced_locals(*callee).subset_of(referenced_locals(e))
            && (forall|i: int| 0 <= i < args@.len() ==> referenced_locals(#[trigger] args@[i]).subset_of(referenced_locals(e)))),
        e matches Expr::Conditional { condition, then_expr, else_expr } ==> (referenced_locals(*condition).subset_of(referenced_locals(e))
            && referenced_locals(*then_expr).subset_of(referenced_locals(e))
            && referenced_locals(*else_expr).subset_of(referenced_locals(e))),
        e matches Expr::Op { kind, args } ==> ((entered_by_locals_walk(kind) ==> (forall|i: int| 0 <= i < args.len() ==> referenced_locals(#[trigger] args@[i]).subset_of(referenced_locals(e))))),
{
    match e {
        Expr::Call { args, .. } => {
            lemma_referenced_locals_list_elems(args@);
        },
        Expr::Op { args, .. } => {
            lemma_referenced_locals_list_elems(args@);
        },
        _ => {},
    }
}

/// Completeness of `referenced_locals_stmt` over the statements the
/// walker looks into.
pub proof fn lemma_referenced_locals_stmt_complete(s: Stmt)
    ensures
        s matches Stmt::Expr(x) ==> (referenced_locals(x).subset_of(referenced_locals_stmt(s))),
        s matches Stmt::Throw(x) ==> (referenced_locals(x).subset_of(referenced_locals_stmt(s))),
        s matches Stmt::Return(Some(x)) ==> (referenced_locals(x).subset_of(referenced_locals_stmt(s))),
        s matches Stmt::Let { init: Some(x), .. } ==> (referenced_locals(x).subset_of(referenced_locals_stmt(s))),
        s matches Stmt::If { condition, then_branch, else_branch } ==> (referenced_locals(condition).subset_of(referenced_locals_stmt(s))
            && (forall|i: int| 0 <= i < then_branch@.len() ==> referenced_locals_stmt(#[trigger] then_branch@[i]).subset_of(referenced_locals_stmt(s)))
            && (else_branch matches Some(eb) ==> (forall|i: int| 0 <= i < eb@.len() ==> referenced_locals_stmt(#[trigger] eb@[i]).subset_of(referenced_locals_stmt(s))))),
        s matches Stmt::While { condition, body } ==> (referenced_locals(condition).subset_of(referenced_locals_stmt(s))
            && (forall|i: int| 0 <= i < body@.len() ==> referenced_locals_stmt(#[trigger] body@[i]).subset_of(referenced_locals_stmt(s)))),
        s matches Stmt::DoWhile { body, condition } ==> (referenced_locals(condition).subset_of(referenced_locals_stmt(s))
            && (forall|i: int| 0 <= i < body@.len() ==> referenced_locals_stmt(#[trigger] body@[i]).subset_of(referenced_locals_stmt(s)))),
        s matches Stmt::For { init, condition, update, body } ==> ((init matches Some(i) ==> referenced_locals_stmt(*i).subset_of(referenced_locals_stmt(s)))
            && (condition matches Some(c) ==> referenced_locals(c).subset_of(referenced_locals_stmt(s)))
            && (update matches Some(u) ==> referenced_locals(u).subset_of(referenced_locals_stmt(s)))
            && (forall|i: int| 0 <= i < body@.len() ==> referenced_locals_stmt(#[trigger] body@[i]).subset_of(referenced_locals_stmt(s)))),
        s matches Stmt::Try { body, catch, finally } ==> ((forall|i: int| 0 <= i < body@.len() ==> referenced_locals_stmt(#[trigger] body@[i]).subset_of(referenced_locals_stmt(s)))
            && (catch matches Some(c) ==> (forall|i: int| 0 <= i < c.body.len() ==> referenced_locals_stmt(#[trigger] c.body@[i]).subset_of(referenced_locals_stmt(s))))
            && (finally matches Some(f) ==> (forall|i: int| 0 <= i < f@.len() ==> referenced_locals_stmt(#[trigger] f@[i]).subset_of(referenced_locals_stmt(s))))),
        s matches Stmt::Switch { discriminant, cases } ==> (referenced_locals(discriminant).subset_of(referenced_locals_stmt(s))
            && (forall|i: int| 0 <= i < cases@.len() ==> (#[trigger] cases@[i].test matches Some(t) ==> referenced_locals(t).subset_of(referenced_locals_stmt(s))))
            && (forall|i: int, j: int| 0 <= i < cases@.len() && 0 <= j < cases@[i].body@.len() ==> referenced_locals_stmt(#[trigger] cases@[i].body@[j]).subset_of(referenced_locals_stmt(s)))),
        s matches Stmt::Labeled { body, .. } ==> (referenced_locals_stmt(*body).subset_of(referenced_locals_stmt(s))),
{
    match s {
        Stmt::If { then_branch, else_branch, .. } => {
            lemma_referenced_locals_stmts_elems(then_branch@);
            if let Some(eb) = else_branch { lemma_referenced_locals_stmts_elems(eb@); };
        },
        Stmt::While { body, .. } => {
            lemma_referenced_locals_stmts_elems(body@);
        },
        Stmt::DoWhile { body, .. } => {
            lemma_referenced_locals_stmts_elems(body@);
        },
        Stmt::For { body, .. } => {
            lemma_referenced_locals_stmts_elems(body@);
        },
        Stmt::Try { body, catch, finally } => {
            lemma_referenced_locals_stmts_elems(body@);
            if let Some(c) = catch { lemma_referenced_locals_stmts_elems(c.body@); };
            if let Some(f) = finally { lemma_referenced_locals_stmts_elems(f@); };
        },
        Stmt::Switch { cases, .. } => {
            lemma_referenced_locals_cases_elems(cases@);
            assert forall|i: int, j: int| 0 <= i < cases.len() && 0 <= j < cases@[i].body@.len() implies referenced_locals_stmt(#[trigger] cases@[i].body@[j]).subset_of(referenced_locals_stmt(s)) by { lemma_referenced_locals_stmts_elems(cases@[i].body@); };
        },
        _ => {},
    }
}

/// Every closure found in `a` is also found in `b`.
pub open spec fn included(a: Seq<ClosureFound>, b: Seq<ClosureFound>) -> bool {
    forall|k: int| 0 <= k < a.len() ==> b.contains(#[trigger] a[k])
}

proof fn lemma_included_refl(a: Seq<ClosureFound>)
    ensures
        included(a, a),
{
    assert forall|k: int| 0 <= k < a.len() implies a.contains(#[trigger] a[k]) by {
    }
}

proof fn lemma_included_concat(a: Seq<ClosureFound>, b: Seq<ClosureFound>)
    ensures
        included(a, a + b),
        included(b, a + b),
{
    assert forall|k: int| 0 <= k < a.len() implies (a + b).contains(#[trigger] a[k]) by {
        assert((a + b)[k] == a[k]);
    }
    assert forall|k: int| 0 <= k < b.len() implies (a + b).contains(#[trigger] b[k]) by {
        assert((a + b)[a.len() + k] == b[k]);
    }
}

proof fn lemma_included_trans(a: Seq<ClosureFound>, b: Seq<ClosureFound>, c: Seq<ClosureFound>)
    requires
        included(a, b),
        included(b, c),
    ensures
        included(a, c),
{
    assert forall|k: int| 0 <= k < a.len() implies c.contains(#[trigger] a[k]) by {
        assert(b.contains(a[k]));
        let j = choose|j: int| 0 <= j < b.len() && b[j] == a[k];
        assert(c.contains(b[j]));
    }
}

/// Each expression's closures are among the list's.
pub proof fn lemma_closure_infos_list_elems(es: Seq<Expr>)
    ensures
        forall|i: int| 0 <= i < es.len() ==> included(closure_infos(#[trigger] es[i]), closure_infos_list(es)),
    decreases es.len(),
{
    if es.len() > 0 {
        let prev = es.drop_last();
        lemma_closure_infos_list_elems(prev);
        lemma_included_concat(closure_infos_list(prev), closure_infos(es.last()));
        assert forall|i: int| 0 <= i < es.len() implies included(closure_infos(#[trigger] es[i]), closure_infos_list(es)) by {
            if i + 1 < es.len() {
                assert(prev[i] == es[i]);
                lemma_included_trans(closure_infos(es[i]), closure_infos_list(prev), closure_infos_list(es));
            }
        }
    }
}

/// Each statement's closures are among the block's.
pub proof fn lemma_closure_infos_stmts_elems(ss: Seq<Stmt>)
    ensures
        forall|i: int| 0 <= i < ss.len() ==> included(closure_infos_stmt(#[trigger] ss[i]), closure_infos_stmts(ss)),
    decreases ss.len(),
{
    if ss.len() > 0 {
        let prev = ss.drop_last();
        lemma_closure_infos_stmts_elems(prev);
        lemma_included_concat(closure_infos_stmts(prev), closure_infos_stmt(ss.last()));
        assert forall|i: int| 0 <= i < ss.len() implies included(closure_infos_stmt(#[trigger] ss[i]), closure_infos_stmts(ss)) by {
            if i + 1 < ss.len() {
                assert(prev[i] == ss[i]);
                lemma_included_trans(closure_infos_stmt(ss[i]), closure_infos_stmts(prev), closure_infos_stmts(ss));
            }
        }
    }
}

/// Each statement of every case body, and every case test, contributes
/// its closures to the switch's.
pub proof fn lemma_closure_infos_cases_elems(cs: Seq<SwitchCase>)
    ensures
        forall|i: int, j: int|
            0 <= i < cs.len() && 0 <= j < cs[i].body@.len() ==> included(
                closure_infos_stmt(#[trigger] cs[i].body@[j]),
                closure_infos_cases(cs),
            ),
        forall|i: int|
            #![trigger cs[i]]
            0 <= i < cs.len() ==> (cs[i].test matches Some(t) ==> included(closure_infos(t), closure_infos_cases(cs))),
    decreases cs.len(),
{
    if cs.len() > 0 {
        let prev = cs.drop_last();
        lemma_closure_infos_cases_elems(prev);
        let p = closure_infos_cases(prev);
        let tp = match cs.last().test {
            Some(t) => closure_infos(t),
            None => Seq::empty(),
        };
        let bp = closure_infos_stmts(cs.last().body@);
        let whole = closure_infos_cases(cs);
        assert(whole == p + tp + bp);
        lemma_included_concat(p, tp);
        lemma_included_concat(p + tp, bp);
        lemma_included_trans(p, p + tp, whole);
        lemma_included_trans(tp, p + tp, whole);
        lemma_closure_infos_stmts_elems(cs.last().body@);
        assert forall|i: int, j: int| 0 <= i < cs.len() && 0 <= j < cs[i].body@.len() implies included(
            closure_infos_stmt(#[trigger] cs[i].body@[j]),
            whole,
        ) by {
            if i + 1 < cs.len() {
                assert(prev[i] == cs[i]);
                lemma_included_trans(closure_infos_stmt(cs[i].body@[j]), p, whole);
            } else {
                lemma_included_trans(closure_infos_stmt(cs[i].body@[j]), bp, whole);
            }
        }
        assert forall|i: int| #![trigger cs[i]] 0 <= i < cs.len() implies (cs[i].test matches Some(t) ==> included(
            closure_infos(t),
            whole,
        )) by {
            if i + 1 < cs.len() {
                assert(prev[i] == cs[i]);
                if let Some(t) = cs[i].test {
                    lemma_included_trans(closure_infos(t), p, whole);
                }
            }
        }
    }
}

/// Completeness of the closure pre-pass on expressions: a closure literal
/// is recorded first, with all its fields as they stand in the literal,
/// and every closure found in a sub-expression or body the walker visits
/// (call arguments, operands, closure bodies, the operands of the
/// operations it enters) is recorded too.
pub proof fn lemma_closure_infos_complete(e: Expr)
    ensures
        e matches Expr::Closure {
            func_id,
            params,
            body,
            captures,
            mutable_captures,
            captures_this,
            enclosing_class,
            is_async,
        } ==> (closure_infos(e).len() > 0 && closure_infos(e)[0] == (ClosureFound {
            func_id,
            params,
            body,
            captures,
            mutable_captures,
            captures_this,
            enclosing_class,
            is_async,
        }) && (forall|i: int| 0 <= i < body@.len() ==> included(closure_infos_stmt(#[trigger] body@[i]), closure_infos(e)))),
        e matches Expr::Binary { left, right, .. } ==> (included(closure_infos(*left), closure_infos(e)) && included(
            closure_infos(*right),
            closure_infos(e),
        )),
        e matches Expr::Compare { left, right, .. } ==> (included(closure_infos(*left), closure_infos(e)) && included(
            closure_infos(*right),
            closure_infos(e),
        )),
        e matches Expr::Call { callee, args } ==> (included(closure_infos(*callee), closure_infos(e)) && (forall|i: int|
            0 <= i < args.len() ==> included(closure_infos(#[trigger] args@[i]), closure_infos(e)))),
        e matches Expr::Conditional { condition, then_expr, else_expr } ==> (included(closure_infos(*condition), closure_infos(e))
            && included(closure_infos(*then_expr), closure_infos(e)) && included(closure_infos(*else_expr), closure_infos(e))),
        e matches Expr::LocalSet(_, value) ==> included(closure_infos(*value), closure_infos(e)),
        e matches Expr::ArrayPush { value, .. } ==> included(closure_infos(*value), closure_infos(e)),
        e matches Expr::SetAdd { value, .. } ==> included(closure_infos(*value), closure_infos(e)),
        e matches Expr::ArraySplice { start, delete_count, items, .. } ==> (included(closure_infos(*start), closure_infos(e))
            && (delete_count matches Some(d) ==> included(closure_infos(*d), closure_infos(e))) && (forall|i: int|
            0 <= i < items.len() ==> included(closure_infos(#[trigger] items@[i]), closure_infos(e)))),
        e matches Expr::Op { kind, args } ==> ((entered_by_compiler_walk(kind) && !(first_two_only(kind) && args.len() > 2))
            ==> (forall|i: int| 0 <= i < args.len() ==> included(closure_infos(#[trigger] args@[i]), closure_infos(e)))),
        e matches Expr::Op { kind, args } ==> ((entered_by_compiler_walk(kind) && first_two_only(kind) && args.len() > 2)
            ==> (included(closure_infos(args@[0]), closure_infos(e)) && included(closure_infos(args@[1]), closure_infos(e)))),
{
    let w = closure_infos(e);
    match e {
        Expr::Closure { func_id, params, body, captures, mutable_captures, captures_this, enclosing_class, is_async } => {
            let head = seq![
                ClosureFound {
                    func_id,
                    params,
                    body,
                    captures,
                    mutable_captures,
                    captures_this,
                    enclosing_class,
                    is_async,
                },
            ];
            let rest = closure_infos_stmts(body@);
            lemma_included_concat(head, rest);
            lemma_closure_infos_stmts_elems(body@);
            assert forall|i: int| 0 <= i < body@.len() implies included(closure_infos_stmt(#[trigger] body@[i]), w) by {
                lemma_included_trans(closure_infos_stmt(body@[i]), rest, w);
            }
        },
        Expr::Binary { left, right, .. } | Expr::Compare { left, right, .. } => {
            lemma_included_concat(closure_infos(*left), closure_infos(*right));
        },
        Expr::Call { callee, args } => {
            let l = closure_infos_list(args@);
            lemma_included_concat(closure_infos(*callee), l);
            lemma_closure_infos_list_elems(args@);
            assert forall|i: int| 0 <= i < args.len() implies included(closure_infos(#[trigger] args@[i]), w) by {
                lemma_included_trans(closure_infos(args@[i]), l, w);
            }
        },
        Expr::Conditional { condition, then_expr, else_expr } => {
            let a = closure_infos(*condition);
            let b = closure_infos(*then_expr);
            let c = closure_infos(*else_expr);
            lemma_included_concat(a, b);
            lemma_included_concat(a + b, c);
            lemma_included_trans(a, a + b, w);
            lemma_included_trans(b, a + b, w);
        },
        Expr::LocalSet(_, value) | Expr::ArrayPush { value, .. } | Expr::SetAdd { value, .. } => {
            lemma_included_refl(w);
        },
        Expr::ArraySplice { start, delete_count, items, .. } => {
            let a = closure_infos(*start);
            let b = match delete_count {
                Some(d) => closure_infos(*d),
                None => Seq::empty(),
            };
            let c = closure_infos_list(items@);
            lemma_included_concat(a, b);
            lemma_included_concat(a + b, c);
            lemma_included_trans(a, a + b, w);
            lemma_included_trans(b, a + b, w);
            lemma_closure_infos_list_elems(items@);
            assert forall|i: int| 0 <= i < items.len() implies included(closure_infos(#[trigger] items@[i]), w) by {
                lemma_included_trans(closure_infos(items@[i]), c, w);
            }
        },
        Expr::Op { kind, args } => {
            lemma_closure_infos_list_elems(args@);
            if entered_by_compiler_walk(kind) && first_two_only(kind) && args.len() > 2 {
                lemma_included_concat(closure_infos(args@[0]), closure_infos(args@[1]));
            } else {
                lemma_included_refl(w);
            }
        },
        _ => {},
    }
}

/// Completeness of the closure pre-pass on statements: every closure in a
/// `let` initializer, an expression statement, a returned or thrown
/// value, and in the conditions, branches and bodies of `if`, `while`,
/// `for`, `try` and `switch` is recorded.
pub proof fn lemma_closure_infos_stmt_complete(s: Stmt)
    ensures
        s matches Stmt::Let { init: Some(x), .. } ==> closure_infos_stmt(s) == closure_infos(x),
        s matches Stmt::Expr(x) ==> closure_infos_stmt(s) == closure_infos(x),
        s matches Stmt::Return(Some(x)) ==> closure_infos_stmt(s) == closure_infos(x),
        s matches Stmt::Throw(x) ==> closure_infos_stmt(s) == closure_infos(x),
        s matches Stmt::If { condition, then_branch, else_branch } ==> (included(closure_infos(condition), closure_infos_stmt(s))
            && (forall|i: int| 0 <= i < then_branch.len() ==> included(closure_infos_stmt(#[trigger] then_branch@[i]), closure_infos_stmt(s)))
            && (else_branch matches Some(eb) ==> (forall|i: int| 0 <= i < eb.len() ==> included(closure_infos_stmt(#[trigger] eb@[i]), closure_infos_stmt(s))))),
        s matches Stmt::While { condition, body } ==> (included(closure_infos(condition), closure_infos_stmt(s))
            && (forall|i: int| 0 <= i < body.len() ==> included(closure_infos_stmt(#[trigger] body@[i]), closure_infos_stmt(s)))),
        s matches Stmt::For { init, condition, update, body } ==> ((init matches Some(i0) ==> included(closure_infos_stmt(*i0), closure_infos_stmt(s)))
            && (condition matches Some(c) ==> included(closure_infos(c), closure_infos_stmt(s)))
            && (update matches Some(u) ==> included(closure_infos(u), closure_infos_stmt(s)))
            && (forall|i: int| 0 <= i < body.len() ==> included(closure_infos_stmt(#[trigger] body@[i]), closure_infos_stmt(s)))),
        s matches Stmt::Try { body, catch, finally } ==> ((forall|i: int| 0 <= i < body.len() ==> included(closure_infos_stmt(#[trigger] body@[i]), closure_infos_stmt(s)))
            && (catch matches Some(c) ==> (forall|i: int| 0 <= i < c.body.len() ==> included(closure_infos_stmt(#[trigger] c.body@[i]), closure_infos_stmt(s))))
            && (finally matches Some(f) ==> (forall|i: int| 0 <= i < f.len() ==> included(closure_infos_stmt(#[trigger] f@[i]), closure_infos_stmt(s))))),
        s matches Stmt::Switch { discriminant, cases } ==> (included(closure_infos(discriminant), closure_infos_stmt(s))
            && (forall|i: int| #![trigger cases@[i]] 0 <= i < cases.len() ==> (cases@[i].test matches Some(t) ==> included(closure_infos(t), closure_infos_stmt(s))))
            && (forall|i: int, j: int| 0 <= i < cases.len() && 0 <= j < cases@[i].body@.len() ==> included(closure_infos_stmt(#[trigger] cases@[i].body@[j]), closure_infos_stmt(s)))),
{
    let w = closure_infos_stmt(s);
    match s {
        Stmt::If { condition, then_branch, else_branch } => {
            let a = closure_infos(condition);
            let b = closure_infos_stmts(then_branch@);
            let c = match else_branch {
                Some(eb) => closure_infos_stmts(eb@),
                None => Seq::empty(),
            };
            lemma_included_concat(a, b);
            lemma_included_concat(a + b, c);
            lemma_included_trans(a, a + b, w);
            lemma_included_trans(b, a + b, w);
            lemma_closure_infos_stmts_elems(then_branch@);
            assert forall|i: int| 0 <= i < then_branch.len() implies included(closure_infos_stmt(#[trigger] then_branch@[i]), w) by {
                lemma_included_trans(closure_infos_stmt(then_branch@[i]), b, w);
            }
            if let Some(eb) = else_branch {
                lemma_closure_infos_stmts_elems(eb@);
                assert forall|i: int| 0 <= i < eb.len() implies included(closure_infos_stmt(#[trigger] eb@[i]), w) by {
                    lemma_included_trans(closure_infos_stmt(eb@[i]), c, w);
                }
            }
        },
        Stmt::While { condition, body } => {
            let a = closure_infos(condition);
            let b = closure_infos_stmts(body@);
            lemma_included_concat(a, b);
            lemma_closure_infos_stmts_elems(body@);
            assert forall|i: int| 0 <= i < body.len() implies included(closure_infos_stmt(#[trigger] body@[i]), w) by {
                lemma_included_trans(closure_infos_stmt(body@[i]), b, w);
            }
        },
        Stmt::For { init, condition, update, body } => {
            let a = match init {
                Some(i0) => closure_infos_stmt(*i0),
                None => Seq::empty(),
            };
            let b = match condition {
                Some(c) => closure_infos(c),
                None => Seq::empty(),
            };
            let c = match update {
                Some(u) => closure_infos(u),
                None => Seq::empty(),
            };
            let d = closure_infos_stmts(body@);
            assert(w == a + b + c + d);
            lemma_included_concat(a, b);
            lemma_included_concat(a + b, c);
            lemma_included_concat(a + b + c, d);
            lemma_included_trans(a + b, a + b + c, w);
            lemma_included_trans(a, a + b, w);
            lemma_included_trans(b, a + b, w);
            lemma_included_trans(c, a + b + c, w);
            lemma_closure_infos_stmts_elems(body@);
            assert forall|i: int| 0 <= i < body.len() implies included(closure_infos_stmt(#[trigger] body@[i]), w) by {
                lemma_included_trans(closure_infos_stmt(body@[i]), d, w);
            }
        },
        Stmt::Try { body, catch, finally } => {
            let a = closure_infos_stmts(body@);
            let b = match catch {
                Some(c) => closure_infos_stmts(c.body@),
                None => Seq::empty(),
            };
            let c = match finally {
                Some(f) => closure_infos_stmts(f@),
                None => Seq::empty(),
            };
            lemma_included_concat(a, b);
            lemma_included_concat(a + b, c);
            lemma_included_trans(a, a + b, w);
            lemma_included_trans(b, a + b, w);
            lemma_closure_infos_stmts_elems(body@);
            assert forall|i: int| 0 <= i < body.len() implies included(closure_infos_stmt(#[trigger] body@[i]), w) by {
                lemma_included_trans(closure_infos_stmt(body@[i]), a, w);
            }
            if let Some(cc) = catch {
                lemma_closure_infos_stmts_elems(cc.body@);
                assert forall|i: int| 0 <= i < cc.body.len() implies included(closure_infos_stmt(#[trigger] cc.body@[i]), w) by {
                    lemma_included_trans(closure_infos_stmt(cc.body@[i]), b, w);
                }
            }
            if let Some(f) = finally {
                lemma_closure_infos_stmts_elems(f@);
                assert forall|i: int| 0 <= i < f.len() implies included(closure_infos_stmt(#[trigger] f@[i]), w) by {
                    lemma_included_trans(closure_infos_stmt(f@[i]), c, w);
                }
            }
        },
        Stmt::Switch { discriminant, cases } => {
            let a = closure_infos(discriminant);
            let b = closure_infos_cases(cases@);
            lemma_included_concat(a, b);
            lemma_closure_infos_cases_elems(cases@);
            assert forall|i: int| #![trigger cases@[i]] 0 <= i < cases.len() implies (cases@[i].test matches Some(t) ==> included(closure_infos(t), w)) by {
                if let Some(t) = cases@[i].test {
                    lemma_included_trans(closure_infos(t), b, w);
                }
            }
            assert forall|i: int, j: int| 0 <= i < cases.len() && 0 <= j < cases@[i].body@.len() implies included(
                closure_infos_stmt(#[trigger] cases@[i].body@[j]),
                w,
            ) by {
                lemma_included_trans(closure_infos_stmt(cases@[i].body@[j]), b, w);
            }
        },
        _ => {},
    }
}

/// Soundness of `mutable_captures`: it reports only locals that occur
/// in the expression.
pub proof fn lemma_mutable_captures_sound(e: Expr)
    ensures
        mutable_captures(e).subset_of(locals_in(e)),
    decreases e,
{
    match e {
        Expr::LocalSet(_, value) | Expr::ArrayPush { value, .. } | Expr::SetAdd { value, .. } => {
            lemma_mutable_captures_sound(*value);
        },
        Expr::Binary { left, right, .. } | Expr::Compare { left, right, .. } => {
            lemma_mutable_captures_sound(*left);
            lemma_mutable_captures_sound(*right);
        },
        Expr::Call { callee, args } => {
            lemma_mutable_captures_sound(*callee);
            lemma_mutable_captures_list_sound(args@);
        },
        Expr::Conditional { condition, then_expr, else_expr } => {
            lemma_mutable_captures_sound(*condition);
            lemma_mutable_captures_sound(*then_expr);
            lemma_mutable_captures_sound(*else_expr);
        },
        Expr::Closure { body, .. } => {
            lemma_mutable_captures_stmts_sound(body@);
        },
        Expr::ArraySplice { start, delete_count, items, .. } => {
            lemma_mutable_captures_sound(*start);
            if let Some(d) = delete_count {
                lemma_mutable_captures_sound(*d);
            }
            lemma_mutable_captures_list_sound(items@);
        },
        Expr::Op { args, .. } => {
            lemma_mutable_captures_list_sound(args@);
        },
        _ => {},
    }
}

pub proof fn lemma_mutable_captures_list_sound(es: Seq<Expr>)
    ensures
        mutable_captures_list(es).subset_of(locals_in_list(es)),
    decreases es,
{
    if es.len() > 0 {
        lemma_mutable_captures_list_sound(es.drop_last());
        lemma_mutable_captures_sound(es.last());
    }
}

/// Soundness of `mutable_captures_stmt`: it reports only locals that occur in the
/// statement.
pub proof fn lemma_mutable_captures_stmt_sound(s: Stmt)
    ensures
        mutable_captures_stmt(s).subset_of(locals_in_stmt(s)),
    decreases s,
{
    match s {
        Stmt::Expr(x) | Stmt::Throw(x) | Stmt::Return(Some(x)) | Stmt::Let { init: Some(x), .. } => {
            lemma_mutable_captures_sound(x);
        },
        Stmt::If { condition, then_branch, else_branch } => {
            lemma_mutable_captures_sound(condition);
            lemma_mutable_captures_stmts_sound(then_branch@);
            if let Some(eb) = else_branch {
                lemma_mutable_captures_stmts_sound(eb@);
            }
        },
        Stmt::While { condition, body } | Stmt::DoWhile { body, condition } => {
            lemma_mutable_captures_sound(condition);
            lemma_mutable_captures_stmts_sound(body@);
        },
        Stmt::For { init, condition, update, body } => {
            if let Some(i) = init {
                lemma_mutable_captures_stmt_sound(*i);
            }
            if let Some(c) = condition {
                lemma_mutable_captures_sound(c);
            }
            if let Some(u) = update {
                lemma_mutable_captures_sound(u);
            }
            lemma_mutable_captures_stmts_sound(body@);
        },
        Stmt::Try { body, catch, finally } => {
            lemma_mutable_captures_stmts_sound(body@);
            if let Some(c) = catch {
                lemma_mutable_captures_stmts_sound(c.body@);
            }
            if let Some(f) = finally {
                lemma_mutable_captures_stmts_sound(f@);
            }
        },
        Stmt::Switch { discriminant, cases } => {
            lemma_mutable_captures_sound(discriminant);
            lemma_mutable_captures_cases_sound(cases@);
        },
        Stmt::Labeled { body, .. } => {
            lemma_mutable_captures_stmt_sound(*body);
        },
        _ => {},
    }
}

pub proof fn lemma_mutable_captures_stmts_sound(ss: Seq<Stmt>)
    ensures
        mutable_captures_stmts(ss).subset_of(locals_in_stmts(ss)),
    decreases ss,
{
    if ss.len() > 0 {
        lemma_mutable_captures_stmts_sound(ss.drop_last());
        lemma_mutable_captures_stmt_sound(ss.last());
    }
}

pub proof fn lemma_mutable_captures_cases_sound(cs: Seq<SwitchCase>)
    ensures
        mutable_captures_cases(cs).subset_of(locals_in_cases(cs)),
    decreases cs,
{
    if cs.len() > 0 {
        lemma_mutable_captures_cases_sound(cs.drop_last());
        if let Some(t) = cs.last().test {
            lemma_mutable_captures_sound(t);
        }
        lemma_mutable_captures_stmts_sound(cs.last().body@);
    }
}

/// Soundness of `referenced_locals`: it reports only locals that occur
/// in the expression.
pub proof fn lemma_referenced_locals_sound(e: Expr)
    ensures
        referenced_locals(e).subset_of(locals_in(e)),
    decreases e,
{
    match e {
        Expr::LocalSet(_, value) | Expr::ArrayPush { value, .. } | Expr::SetAdd { value, .. } => {
            lemma_referenced_locals_sound(*value);
        },
        Expr::Binary { left, right, .. } | Expr::Compare { left, right, .. } => {
            lemma_referenced_locals_sound(*left);
            lemma_referenced_locals_sound(*right);
        },
        Expr::Call { callee, args } => {
            lemma_referenced_locals_sound(*callee);
            lemma_referenced_locals_list_sound(args@);
        },
        Expr::Conditional { condition, then_expr, else_expr } => {
            lemma_referenced_locals_sound(*condition);
            lemma_referenced_locals_sound(*then_expr);
            lemma_referenced_locals_sound(*else_expr);
        },
        Expr::Closure { body, .. } => {
            lemma_referenced_locals_stmts_sound(body@);
        },
        Expr::ArraySplice { start, delete_count, items, .. } => {
            lemma_referenced_locals_sound(*start);
            if let Some(d) = delete_count {
                lemma_referenced_locals_sound(*d);
            }
            lemma_referenced_locals_list_sound(items@);
        },
        Expr::Op { args, .. } => {
            lemma_referenced_locals_list_sound(args@);
        },
        _ => {},
    }
}

pub proof fn lemma_referenced_locals_list_sound(es: Seq<Expr>)
    ensures
        referenced_locals_list(es).subset_of(locals_in_list(es)),
    decreases es,
{
    if es.len() > 0 {
        lemma_referenced_locals_list_sound(es.drop_last());
        lemma_referenced_locals_sound(es.last());
    }
}

/// Soundness of `referenced_locals_stmt`: it reports only locals that occur in the
/// statement.
pub proof fn lemma_referenced_locals_stmt_sound(s: Stmt)
    ensures
        referenced_locals_stmt(s).subset_of(locals_in_stmt(s)),
    decreases s,
{
    match s {
        Stmt::Expr(x) | Stmt::Throw(x) | Stmt::Return(Some(x)) | Stmt::Let { init: Some(x), .. } => {
            lemma_referenced_locals_sound(x);
        },
        Stmt::If { condition, then_branch, else_branch } => {
            lemma_referenced_locals_sound(condition);
            lemma_referenced_locals_stmts_sound(then_branch@);
            if let Some(eb) = else_branch {
                lemma_referenced_locals_stmts_sound(eb@);
            }
        },
        Stmt::While { condition, body } | Stmt::DoWhile { body, condition } => {
            lemma_referenced_locals_sound(condition);
            lemma_referenced_locals_stmts_sound(body@);
        },
        Stmt::For { init, condition, update, body } => {
            if let Some(i) = init {
                lemma_referenced_locals_stmt_sound(*i);
            }
            if let Some(c) = condition {
                lemma_referenced_locals_sound(c);
            }
            if let Some(u) = update {
                lemma_referenced_locals_sound(u);
            }
            lemma_referenced_locals_stmts_sound(body@);
        },
        Stmt::Try { body, catch, finally } => {
            lemma_referenced_locals_stmts_sound(body@);
            if let Some(c) = catch {
                lemma_referenced_locals_stmts_sound(c.body@);
            }
            if let Some(f) = finally {
                lemma_referenced_locals_stmts_sound(f@);
            }
        },
        Stmt::Switch { discriminant, cases } => {
            lemma_referenced_locals_sound(discriminant);
            lemma_referenced_locals_cases_sound(cases@);
        },
        Stmt::Labeled { body, .. } => {
            lemma_referenced_locals_stmt_sound(*body);
        },
        _ => {},
    }
}

pub proof fn lemma_referenced_locals_stmts_sound(ss: Seq<Stmt>)
    ensures
        referenced_locals_stmts(ss).subset_of(locals_in_stmts(ss)),
    decreases ss,
{
    if ss.len() > 0 {
        lemma_referenced_locals_stmts_sound(ss.drop_last());
        lemma_referenced_locals_stmt_sound(ss.last());
    }
}

pub proof fn lemma_referenced_locals_cases_sound(cs: Seq<SwitchCase>)
    ensures
        referenced_locals_cases(cs).subset_of(locals_in_cases(cs)),
    decreases cs,
{
    if cs.len() > 0 {
        lemma_referenced_locals_cases_sound(cs.drop_last());
        if let Some(t) = cs.last().test {
            lemma_referenced_locals_sound(t);
        }
        lemma_referenced_locals_stmts_sound(cs.last().body@);
    }
}

/// Walk order across statements: the closures of the first `k`
/// statements of a block come first, in the same order.
pub proof fn lemma_closure_infos_stmts_prefix(ss: Seq<Stmt>, k: int)
    requires
        0 <= k <= ss.len(),
    ensures
        closure_infos_stmts(ss.take(k)).is_prefix_of(closure_infos_stmts(ss)),
    decreases ss.len(),
{
    if k == ss.len() {
        assert(ss.take(k) =~= ss);
    } else {
        let prev = ss.drop_last();
        lemma_closure_infos_stmts_prefix(prev, k);
        assert(prev.take(k) =~= ss.take(k));
        let a = closure_infos_stmts(ss.take(k));
        let b = closure_infos_stmts(prev);
        let c = closure_infos_stmts(ss);
        assert(c == b + closure_infos_stmt(ss.last()));
        assert forall|i: int| 0 <= i < a.len() implies a[i] == c[i] by {
            assert(a[i] == b[i]);
        }
    }
}

/// Walk order within an expression: the closures of the operand walked
/// first come first (left operand, callee, condition), and the closures
/// of the operand walked last come last.
pub proof fn lemma_closure_infos_order(e: Expr)
    ensures
        e matches Expr::Binary { left, right, .. } ==> (closure_infos(*left).is_prefix_of(closure_infos(e))
            && closure_infos(e).skip(closure_infos(*left).len() as int) == closure_infos(*right)),
        e matches Expr::Compare { left, right, .. } ==> (closure_infos(*left).is_prefix_of(closure_infos(e))
            && closure_infos(e).skip(closure_infos(*left).len() as int) == closure_infos(*right)),
        e matches Expr::Call { callee, .. } ==> closure_infos(*callee).is_prefix_of(closure_infos(e)),
        e matches Expr::Conditional { condition, .. } ==> closure_infos(*condition).is_prefix_of(closure_infos(e)),
{
    match e {
        Expr::Binary { left, right, .. } | Expr::Compare { left, right, .. } => {
            let a = closure_infos(*left);
            let b = closure_infos(*right);
            assert((a + b).skip(a.len() as int) =~= b);
            assert(a.is_prefix_of(a + b));
        },
        Expr::Call { callee, args } => {
            assert(closure_infos(*callee).is_prefix_of(closure_infos(*callee) + closure_infos_list(args@)));
        },
        Expr::Conditional { condition, then_expr, else_expr } => {
            let a = closure_infos(*condition);
            let w = a + closure_infos(*then_expr) + closure_infos(*else_expr);
            assert forall|i: int| 0 <= i < a.len() implies a[i] == w[i] by {
            }
        },
        _ => {},
    }
}

} // verus!
