//! Folding of macro expansions back into the invocation they came from,
//! for macros whose path matches a configured pattern.
use vstd::prelude::*;
use crate::ast::{ExpnData, ExpnKind, MacroInvokation};
use crate::host::{grows, Ctx, Fatal, FatalReason, MacroCall, State};
use crate::ids::path_view;
use crate::namespace::any_pattern_matches;
use crate::span::{read_span_from_file, read_span_spec, same_span, span_eq, Span};

verus! {

/// `s` is the call site of a registered macro invocation.
pub open spec fn is_registered(calls: Seq<MacroCall>, s: Span) -> bool {
    exists|k: int| 0 <= k < calls.len() && same_span(#[trigger] calls[k].call_site, s)
}

/// The argument span registered for call site `s`: the first match wins.
pub open spec fn argument_span(calls: Seq<MacroCall>, s: Span) -> Option<Span>
    decreases calls.len(),
{
    if calls.len() == 0 {
        None
    } else if same_span(calls[0].call_site, s) {
        Some(calls[0].argument)
    } else {
        argument_span(calls.drop_first(), s)
    }
}

/// An expansion step that folds: a macro expansion, of a known macro,
/// whose call site is registered and whose path some pattern matches.
pub open spec fn foldable(cx: Ctx, e: ExpnData) -> bool {
    &&& e.kind is Macro
    &&& e.macro_def_id is Some
    &&& is_registered(cx.macro_calls@, e.call_site)
    &&& any_pattern_matches(
        cx.options.inline_macro_calls@,
        path_view(e.macro_def_id->0.krate@, e.macro_def_id->0.path@),
    )
}

/// The innermost step of `bt` that folds.
pub open spec fn first_foldable(cx: Ctx, bt: Seq<ExpnData>) -> Option<int> {
    if exists|i: int| 0 <= i < bt.len() && foldable(cx, #[trigger] bt[i]) {
        let i = choose|i: int|
            0 <= i < bt.len() && foldable(cx, #[trigger] bt[i]) && forall|j: int|
                0 <= j < i ==> !foldable(cx, #[trigger] bt[j]);
        Some(i)
    } else {
        None
    }
}

/// The text a folded invocation carries: the source text of its argument list.
pub open spec fn invocation_argument(cx: Ctx, e: ExpnData) -> Result<Seq<char>, crate::span::ReadSpanErr> {
    read_span_spec(argument_span(cx.macro_calls@, e.call_site)->0, cx.files@)
}

fn is_registered_call_site(cx: &Ctx, s: &Span) -> (r: bool)
    ensures
        r == is_registered(cx.macro_calls@, *s),
{
    let mut k: usize = 0;
    while k < cx.macro_calls.len()
        invariant
            k <= cx.macro_calls.len(),
            forall|j: int| 0 <= j < k ==> !same_span(#[trigger] cx.macro_calls@[j].call_site, *s),
        decreases cx.macro_calls.len() - k,
    {
        if span_eq(&cx.macro_calls[k].call_site, s) {
            return true;
        }
        k = k + 1;
    }
    false
}

fn find_argument_span<'a>(cx: &'a Ctx, s: &Span) -> (r: Option<&'a Span>)
    ensures
        match r {
            Some(a) => argument_span(cx.macro_calls@, *s) == Some(*a),
            None => argument_span(cx.macro_calls@, *s) is None,
        },
{
    let mut k: usize = 0;
    assert(cx.macro_calls@.subrange(0, cx.macro_calls.len() as int) =~= cx.macro_calls@);
    while k < cx.macro_calls.len()
        invariant
            k <= cx.macro_calls.len(),
            argument_span(cx.macro_calls@, *s) == argument_span(
                cx.macro_calls@.subrange(k as int, cx.macro_calls.len() as int),
                *s,
            ),
        decreases cx.macro_calls.len() - k,
    {
        proof {
            let rest = cx.macro_calls@.subrange(k as int, cx.macro_calls.len() as int);
            assert(rest.drop_first() =~= cx.macro_calls@.subrange(k + 1, cx.macro_calls.len() as int));
            assert(rest[0] == cx.macro_calls@[k as int]);
        }
        if span_eq(&cx.macro_calls[k].call_site, s) {
            return Some(&cx.macro_calls[k].argument);
        }
        k = k + 1;
    }
    None
}

proof fn lemma_registered_has_argument(calls: Seq<MacroCall>, s: Span)
    requires
        is_registered(calls, s),
    ensures
        argument_span(calls, s) is Some,
    decreases calls.len(),
{
    if !same_span(calls[0].call_site, s) {
        let k = choose|k: int| 0 <= k < calls.len() && same_span(#[trigger] calls[k].call_site, s);
        assert(calls.drop_first()[k - 1] == calls[k]);
        lemma_registered_has_argument(calls.drop_first(), s);
    }
}

/// Whether step `e` of a backtrace folds.
pub fn is_foldable(cx: &Ctx, e: &ExpnData) -> (r: bool)
    ensures
        r == foldable(*cx, *e),
{
    match (&e.kind, &e.macro_def_id) {
        (ExpnKind::Macro(..), Some(mac)) => {
            if !is_registered_call_site(cx, &e.call_site) {
                return false;
            }
            let path = crate::ids::path_of_def_id(mac);
            crate::namespace::any_matches(&cx.options.inline_macro_calls, &path)
        },
        _ => false,
    }
}

/// The position in `bt` of the innermost expansion that folds, if any.
pub fn raw_macro_invocation_of_span(cx: &Ctx, bt: &Vec<ExpnData>) -> (r: Option<usize>)
    ensures
        match r {
            Some(i) => first_foldable(*cx, bt@) == Some(i as int) && i < bt.len() && foldable(
                *cx,
                bt@[i as int],
            ),
            None => first_foldable(*cx, bt@) is None,
        },
{
    let mut i: usize = 0;
    while i < bt.len()
        invariant
            i <= bt.len(),
            forall|j: int| 0 <= j < i ==> !foldable(*cx, #[trigger] bt@[j]),
        decreases bt.len() - i,
    {
        if is_foldable(cx, &bt[i]) {
            proof {
                let k = choose|k: int|
                    0 <= k < bt@.len() && foldable(*cx, #[trigger] bt@[k]) && forall|j: int|
                        0 <= j < k ==> !foldable(*cx, #[trigger] bt@[j]);
                if k < i {
                } else if k > i {
                    assert(!foldable(*cx, bt@[i as int]));
                }
            }
            return Some(i);
        }
        i = i + 1;
    }
    None
}

/// Builds the invocation node for the expansion step `e`, reading the text
/// of its argument list; records the call site as exported.
pub fn macro_invocation_of_raw_mac_invocation(cx: &Ctx, st: &mut State, e: &ExpnData) -> (r: Result<
    MacroInvokation,
    Fatal,
>)
    requires
        e.macro_def_id is Some,
        is_registered(cx.macro_calls@, e.call_site),
    ensures
        final(st).locals == old(st).locals,
        final(st).warnings == old(st).warnings,
        final(st).fatals == old(st).fatals,
        grows(*old(st), *final(st)),
        r is Ok <==> invocation_argument(*cx, *e) is Ok,
        r matches Ok(m) ==> {
            &&& m.macro_ident@ == e.macro_def_id->0@
            &&& invocation_argument(*cx, *e) == Ok::<Seq<char>, crate::span::ReadSpanErr>(m.argument@)
            &&& m.span == e.call_site
            &&& final(st).exported.spans@ == old(st).exported.spans@.push(e.call_site)
        },
        r matches Err(f) ==> f.span == e.call_site && f.reason is MacroArgumentUnreadable
            && final(st).exported == old(st).exported,
{
    proof {
        lemma_registered_has_argument(cx.macro_calls@, e.call_site);
        crate::host::lemma_grows_refl(*st);
    }
    let arg = match find_argument_span(cx, &e.call_site) {
        Some(a) => a,
        None => {
            return Err(Fatal { span: e.call_site.clone(), reason: FatalReason::MacroCallNotRegistered });
        },
    };
    let mac = match &e.macro_def_id {
        Some(m) => m,
        None => {
            return Err(Fatal { span: e.call_site.clone(), reason: FatalReason::MacroCallNotRegistered });
        },
    };
    match read_span_from_file(arg, &cx.files) {
        Ok(text) => {
            let span = st.export(&e.call_site);
            Ok(MacroInvokation { macro_ident: mac.clone(), argument: text, span })
        },
        Err(err) => Err(Fatal { span: e.call_site.clone(), reason: FatalReason::MacroArgumentUnreadable(err) }),
    }
}

/// The folded invocation that a node with expansion backtrace `bt` stands
/// for, if any step of it folds.
pub fn macro_invocation_of_span(cx: &Ctx, st: &mut State, bt: &Vec<ExpnData>) -> (r: Option<
    Result<MacroInvokation, Fatal>,
>)
    ensures
        final(st).locals == old(st).locals,
        grows(*old(st), *final(st)),
        r is None <==> first_foldable(*cx, bt@) is None,
        r is None ==> final(st).exported == old(st).exported,
        r matches Some(res) ==> {
            let e = bt@[first_foldable(*cx, bt@)->0];
            &&& (res is Ok <==> invocation_argument(*cx, e) is Ok)
            &&& (res matches Ok(m) ==> {
                &&& m.macro_ident@ == e.macro_def_id->0@
                &&& invocation_argument(*cx, e) == Ok::<Seq<char>, crate::span::ReadSpanErr>(m.argument@)
                &&& m.span == e.call_site
                &&& final(st).exported.spans@ == old(st).exported.spans@.push(e.call_site)
            })
        },
{
    match raw_macro_invocation_of_span(cx, bt) {
        Some(i) => {
            Some(macro_invocation_of_raw_mac_invocation(cx, st, &bt[i]))
        },
        None => {
            proof {
                crate::host::lemma_grows_refl(*st);
            }
            None
        },
    }
}

} // verus!
