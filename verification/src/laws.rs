//! Properties of the translation that span several functions.
use vstd::prelude::*;
use crate::model::{
    Method, MultiParam, Parameter, ReturnValue, Symbol, Visibility, multi_params, symbol_name,
    ts_visibility,
};
use crate::text::{
    contains, first_index, is_ws, join, lemma_contains_concat, lemma_contains_in_trim,
    lemma_no_occurrence_across, occurs_at, trim_end, trim_start, lemma_join_split, lemma_split_join,
    lemma_split_nonempty, lemma_split_parts, lemma_split_with_separator,
    lemma_split_without_separator, lemma_subrange_contains, split, starts_with, trim, ends_with,
    lemma_last_segment_is,
};
use crate::typescript::{
    is_plain_type, ts_type_panics, def_content, def_file_name, def_path, lemma_ts_type_list, ts_type, ts_type_list, ts_types,
    type_def, type_defs, ts_function, params_ts, param_ts, ctor_params, type_def_lines,
    return_ts, params_view, type_echo, symbol_seq_echo,
};

verus! {

/// The directory and the file name of a generated declaration give back the
/// module path with `.d.ts` appended; a module path without `/` lands in the
/// root directory (the directory is empty, so the full path starts with `/`).
pub proof fn law_file_path_restores_module(module: Seq<char>)
    ensures
        def_path(module) + "/"@ + def_file_name(module) == (if module.contains('/') {
            module
        } else {
            "/"@ + module
        }) + ".d.ts"@,
{
    reveal_strlit("/");
    let slash = "/"@;
    assert(slash =~= seq!['/']);
    let parts = split(module, '/');
    lemma_split_nonempty(module, '/');
    if module.contains('/') {
        lemma_split_with_separator(module, '/');
        lemma_join_split(module, '/');
        assert(join(parts, slash) == join(parts.drop_last(), slash) + slash + parts.last());
        assert(def_path(module) + slash + def_file_name(module) =~= join(parts, slash) + ".d.ts"@);
    } else {
        lemma_split_without_separator(module, '/');
        assert(parts.drop_last() =~= Seq::<Seq<char>>::empty());
        assert(def_path(module) =~= Seq::<char>::empty());
        assert(def_path(module) + slash + def_file_name(module) =~= slash + module + ".d.ts"@);
    }
}

/// The short name of a symbol never holds a `/`.
pub proof fn law_symbol_name_has_no_slash(s: Symbol)
    ensures
        !symbol_name(s).contains('/'),
{
    lemma_split_nonempty(s.basename@, '/');
    lemma_split_parts(s.basename@, '/');
    let parts = split(s.basename@, '/');
    assert(parts.last() == parts[parts.len() - 1]);
}

/// A type expression without `|` translates as the single type it is.
pub proof fn law_single_alternative(t: Seq<char>, st: Seq<char>)
    requires
        !t.contains('|'),
    ensures
        ts_types(t, st) == ts_type(t, st),
{
    lemma_split_without_separator(t, '|');
    let parts = split(t, '|');
    assert(parts[0] == t);
    lemma_ts_type_list(parts, st, t.len());
    let list = ts_type_list(parts, st, t.len());
    assert(list.len() == 1);
    assert(list[0] == ts_type(t, st));
}

/// Only `public` stays public: every other visibility is emitted as `private`.
pub proof fn law_only_public_is_public(v: Visibility)
    ensures
        (ts_visibility(v) == "public"@) <==> (v == Visibility::Public),
{
    reveal_strlit("public");
    reveal_strlit("private");
    if v != Visibility::Public {
        assert("public"@[1] != "private"@[1]);
    }
}

/// A symbol that is not a class yields an empty declaration text.
pub proof fn law_non_class_text_is_empty(s: Symbol)
    requires
        !(s.kind is Class),
    ensures
        def_content(s).len() == 0,
{
}

/// `d` is the declaration of one of the class symbols.
pub open spec fn is_class_def(syms: Seq<Symbol>, d: (Seq<char>, Seq<char>, Seq<char>)) -> bool {
    exists|j: int| #![trigger syms[j]] 0 <= j < syms.len() && syms[j].kind is Class && d == type_def(syms[j])
}

/// Every generated declaration lies under a directory starting with `sap`
/// and is the declaration of one of the class symbols; there are never more
/// declarations than symbols.
pub proof fn law_type_defs_come_from_sap_classes(syms: Seq<Symbol>)
    ensures
        type_defs(syms).len() <= syms.len(),
        forall|i: int|
            0 <= i < type_defs(syms).len() ==> starts_with(#[trigger] type_defs(syms)[i].0, "sap"@),
        forall|i: int|
            0 <= i < type_defs(syms).len() ==> is_class_def(syms, #[trigger] type_defs(syms)[i]),
    decreases syms.len(),
{
    if syms.len() > 0 {
        let rest = syms.drop_last();
        law_type_defs_come_from_sap_classes(rest);
        let defs = type_defs(syms);
        let prev = type_defs(rest);
        assert forall|i: int| 0 <= i < defs.len() implies is_class_def(syms, #[trigger] defs[i]) by {
            if i < prev.len() {
                assert(defs[i] == prev[i]);
                assert(is_class_def(rest, prev[i]));
                let j = choose|j: int|
                    #![trigger rest[j]]
                    0 <= j < rest.len() && rest[j].kind is Class && prev[i] == type_def(rest[j]);
                assert(syms[j] == rest[j]);
            } else {
                let j = syms.len() - 1;
                assert(syms[j] == syms.last());
                assert(defs[i] == type_def(syms[j]));
            }
        }
        assert forall|i: int| 0 <= i < defs.len() implies starts_with(
            #[trigger] defs[i].0,
            "sap"@,
        ) by {
            if i < prev.len() {
                assert(defs[i] == prev[i]);
            }
        }
    }
}

/// The fixed texts that the translation of a type may produce hold no `|`.
proof fn lemma_fixed_texts_have_no_bar()
    ensures
        !"any"@.contains('|'),
        !"Function"@.contains('|'),
        !"Promise<any>"@.contains('|'),
        !"Promise<"@.contains('|'),
        !">"@.contains('|'),
{
    reveal_strlit("any");
    reveal_strlit("Function");
    reveal_strlit("Promise<any>");
    reveal_strlit("Promise<");
    reveal_strlit(">");
}

/// The translation of one type holds no `|` when neither the type nor the
/// class name does.
proof fn lemma_ts_type_has_no_bar(t: Seq<char>, st: Seq<char>)
    requires
        !t.contains('|'),
        !st.contains('|'),
    ensures
        !ts_type(t, st).contains('|'),
    decreases t.len(),
{
    lemma_fixed_texts_have_no_bar();
    let tt = trim(t);
    if !starts_with(tt, "sap"@) && starts_with(tt, "Promise."@) {
        if let (Some(a), Some(b)) = (first_index(t, '<'), first_index(t, '>')) {
            if 0 <= a <= b < t.len() {
                let sub = t.subrange(a, b);
                lemma_subrange_contains(t, a, b, '|');
                law_single_alternative(sub, st);
                lemma_ts_type_has_no_bar(sub, st);
                lemma_contains_concat("Promise<"@, ts_types(sub, st), '|');
                lemma_contains_concat("Promise<"@ + ts_types(sub, st), ">"@, '|');
            }
        }
    }
}

/// When the class name holds no `|`, a union type is translated alternative
/// by alternative: the result has as many `|`-separated alternatives as the
/// input, and each is the translation of the matching input alternative.
pub proof fn law_alternatives_translated_one_for_one(ts: Seq<char>, st: Seq<char>)
    requires
        !st.contains('|'),
    ensures
        split(ts_types(ts, st), '|').len() == split(ts, '|').len(),
        forall|i: int|
            0 <= i < split(ts, '|').len() ==> #[trigger] split(ts_types(ts, st), '|')[i]
                == ts_type(split(ts, '|')[i], st),
{
    reveal_strlit("|");
    assert("|"@ =~= seq!['|']);
    let parts = split(ts, '|');
    lemma_split_nonempty(ts, '|');
    lemma_split_parts(ts, '|');
    lemma_ts_type_list(parts, st, ts.len());
    let list = ts_type_list(parts, st, ts.len());
    assert forall|i: int| 0 <= i < list.len() implies !(#[trigger] list[i]).contains('|') by {
        lemma_ts_type_has_no_bar(parts[i], st);
    }
    lemma_split_join(list, '|');
}

/// Neither `.` nor `module` occurs in the text.
pub open spec fn is_clean(x: Seq<char>) -> bool {
    !contains(x, "."@) && !contains(x, "module"@)
}

/// A plain type is kept as written and never makes the translation panic.
proof fn lemma_plain_type_is_kept(x: Seq<char>, st: Seq<char>)
    requires
        is_plain_type(x),
    ensures
        ts_type(x, st) == x,
        !ts_type_panics(x),
{
}

/// The two patterns hold no white space, no brackets and no `|`.
proof fn lemma_patterns()
    ensures
        "."@ =~= seq!['.'],
        "module"@ =~= seq!['m', 'o', 'd', 'u', 'l', 'e'],
        forall|k: int| 0 <= k < "."@.len() ==> !is_ws(#[trigger] "."@[k]),
        forall|k: int| 0 <= k < "module"@.len() ==> !is_ws(#[trigger] "module"@[k]),
        !"."@.contains('<') && !"."@.contains('>') && !"."@.contains('|'),
        !"module"@.contains('<') && !"module"@.contains('>') && !"module"@.contains('|'),
{
    reveal_strlit(".");
    reveal_strlit("module");
}

/// A plain type holds neither `.` nor `module`.
proof fn lemma_plain_is_clean(x: Seq<char>)
    requires
        is_plain_type(x),
    ensures
        is_clean(x),
{
    lemma_patterns();
    if contains(x, "."@) {
        lemma_contains_in_trim(x, "."@);
    }
    if contains(x, "module"@) {
        lemma_contains_in_trim(x, "module"@);
    }
}

/// No pattern longer than the text occurs in it, and a one-character
/// pattern occurs only where its character does.
proof fn lemma_short_texts_are_clean(x: Seq<char>)
    requires
        x.len() < 6,
        !x.contains('.'),
    ensures
        is_clean(x),
{
    lemma_patterns();
    assert forall|k: int| !#[trigger] occurs_at(x, "."@, k) by {
        if occurs_at(x, "."@, k) {
            assert(x.subrange(k, k + 1)[0] == x[k]);
        }
    }
    assert forall|k: int| !#[trigger] occurs_at(x, "module"@, k) by {}
}

/// `Promise<`, the type between the brackets, `>`.
pub open spec fn promise_of(x: Seq<char>) -> Seq<char> {
    "Promise<"@ + x + ">"@
}

/// Wrapping a type without `.` and `module` in `Promise<…>` gives a plain
/// type without `.` and `module`.
proof fn lemma_promise_of_clean(x: Seq<char>)
    requires
        is_clean(x),
    ensures
        is_clean(promise_of(x)),
        is_plain_type(promise_of(x)),
{
    reveal_strlit("Promise<");
    reveal_strlit(">");
    reveal_strlit("Promise");
    reveal_strlit("sap");
    reveal_strlit("Promise.");
    reveal_strlit("jQ");
    reveal_strlit("function");
    reveal_strlit("function()");
    lemma_patterns();
    let w = promise_of(x);
    let head = "Promise"@;
    assert("Promise<"@ =~= head + seq!['<']);
    assert(">"@ =~= seq!['>']);
    let empty = Seq::<char>::empty();
    assert(w =~= (head + seq!['<'] + x) + seq!['>'] + empty);
    assert(!contains(empty, "."@));
    assert(!contains(empty, "module"@));
    assert(!contains(head, "."@)) by {
        assert forall|k: int| !#[trigger] occurs_at(head, "."@, k) by {
            if occurs_at(head, "."@, k) {
                assert(head.subrange(k, k + 1)[0] == head[k]);
            }
        }
    }
    assert(!contains(head, "module"@)) by {
        assert forall|k: int| !#[trigger] occurs_at(head, "module"@, k) by {
            if occurs_at(head, "module"@, k) {
                assert(head.subrange(k, k + 6)[0] == head[k]);
            }
        }
    }
    lemma_no_occurrence_across(head, '<', x, "."@);
    lemma_no_occurrence_across(head, '<', x, "module"@);
    lemma_no_occurrence_across(head + seq!['<'] + x, '>', empty, "."@);
    lemma_no_occurrence_across(head + seq!['<'] + x, '>', empty, "module"@);
    assert(w[0] == 'P');
    assert(w.last() == '>');
    assert(trim_start(w) == w);
    assert(trim_end(w) == w);
    assert(w[7] == '<');
    assert(!starts_with(w, "sap"@)) by {
        assert(w.subrange(0, 3)[0] == w[0]);
    }
    assert(!starts_with(w, "jQ"@)) by {
        assert(w.subrange(0, 2)[0] == w[0]);
    }
    assert(!starts_with(w, "Promise."@)) by {
        assert(w.subrange(0, 8)[7] == w[7]);
    }
    assert(w != "function"@) by {
        assert("function"@[0] == 'f');
    }
    assert(w != "function()"@) by {
        assert("function()"@[0] == 'f');
    }
    assert(w != "Promise"@) by {
        assert(w.len() >= 9);
    }
}

/// `any` and `Function` hold neither `.` nor `module` and are plain types.
proof fn lemma_fixed_names_are_plain()
    ensures
        is_clean("any"@),
        is_plain_type("any"@),
        is_clean("Function"@),
        is_plain_type("Function"@),
{
    reveal_strlit("any");
    reveal_strlit("Function");
    reveal_strlit("sap");
    reveal_strlit("Promise.");
    reveal_strlit("jQ");
    reveal_strlit("function");
    reveal_strlit("function()");
    reveal_strlit("Promise");
    lemma_patterns();
    lemma_short_texts_are_clean("any"@);
    let f = "Function"@;
    assert(!contains(f, "."@)) by {
        assert forall|k: int| !#[trigger] occurs_at(f, "."@, k) by {
            if occurs_at(f, "."@, k) {
                assert(f.subrange(k, k + 1)[0] == f[k]);
            }
        }
    }
    assert(!contains(f, "module"@)) by {
        assert forall|k: int| !#[trigger] occurs_at(f, "module"@, k) by {
            if occurs_at(f, "module"@, k) {
                assert(f.subrange(k, k + 6)[0] == f[k]);
            }
        }
    }
    let a = "any"@;
    assert(trim_start(a) == a);
    assert(trim_end(a) == a);
    assert(trim_start(f) == f);
    assert(trim_end(f) == f);
    assert(!starts_with(a, "sap"@)) by {
        assert(a.subrange(0, 3)[1] == a[1]);
    }
    assert(!starts_with(a, "jQ"@)) by {
        assert(a.subrange(0, 2)[0] == a[0]);
    }
    assert(!starts_with(f, "sap"@)) by {
        assert(f.subrange(0, 3)[0] == f[0]);
    }
    assert(!starts_with(f, "jQ"@)) by {
        assert(f.subrange(0, 2)[0] == f[0]);
    }
    assert(!starts_with(f, "Promise."@)) by {
        assert(f.subrange(0, 8)[0] == f[0]);
    }
    assert(f != "function"@) by {
        assert(f[0] != "function"@[0]);
    }
}

/// Joining texts without `.` and `module` by `|` gives a text without them.
proof fn lemma_join_by_bar_is_clean(list: Seq<Seq<char>>)
    requires
        forall|i: int| 0 <= i < list.len() ==> is_clean(#[trigger] list[i]),
    ensures
        is_clean(join(list, "|"@)),
    decreases list.len(),
{
    lemma_patterns();
    reveal_strlit("|");
    assert("|"@ =~= seq!['|']);
    if list.len() == 0 {
        lemma_short_texts_are_clean(Seq::<char>::empty());
    } else if list.len() == 1 {
        assert(is_clean(list[0]));
    } else {
        let prev = list.drop_last();
        lemma_join_by_bar_is_clean(prev);
        assert(is_clean(list[list.len() - 1]));
        lemma_no_occurrence_across(join(prev, "|"@), '|', list.last(), "."@);
        lemma_no_occurrence_across(join(prev, "|"@), '|', list.last(), "module"@);
    }
}

/// When the class name is a plain type, no translated type holds `.` or `module`.
proof fn lemma_translation_is_clean(t: Seq<char>, st: Seq<char>)
    requires
        is_plain_type(st),
    ensures
        is_clean(ts_type(t, st)),
    decreases t.len(), 0nat,
{
    lemma_plain_is_clean(st);
    lemma_fixed_names_are_plain();
    reveal_strlit("Promise<any>");
    reveal_strlit("Promise<");
    reveal_strlit(">");
    reveal_strlit("any");
    assert("Promise<any>"@ =~= promise_of("any"@));
    lemma_promise_of_clean("any"@);
    let tt = trim(t);
    if starts_with(tt, "sap"@) {
    } else if starts_with(tt, "Promise."@) {
        if let (Some(a), Some(b)) = (first_index(t, '<'), first_index(t, '>')) {
            if 0 <= a <= b < t.len() {
                let sub = t.subrange(a, b);
                lemma_translations_are_clean(sub, st);
                lemma_promise_of_clean(ts_types(sub, st));
            }
        }
    } else if contains(tt, "module"@) || starts_with(tt, "jQ"@) {
    } else if contains(tt, "."@) {
    } else if tt == "function"@ || tt == "function()"@ {
    } else if tt == "Promise"@ {
    } else {
        assert(is_plain_type(t));
        lemma_plain_is_clean(t);
    }
}

/// When the class name is a plain type, no translated type expression holds
/// `.` or `module`.
proof fn lemma_translations_are_clean(ts: Seq<char>, st: Seq<char>)
    requires
        is_plain_type(st),
    ensures
        is_clean(ts_types(ts, st)),
    decreases ts.len(), 1nat,
{
    let parts = split(ts, '|');
    lemma_split_parts(ts, '|');
    lemma_ts_type_list(parts, st, ts.len());
    let list = ts_type_list(parts, st, ts.len());
    assert forall|i: int| 0 <= i < list.len() implies is_clean(#[trigger] list[i]) by {
        assert(parts[i].len() <= ts.len());
        lemma_translation_is_clean(parts[i], st);
    }
    lemma_join_by_bar_is_clean(list);
}

/// Translating an already translated type changes nothing, when the class
/// name is itself a plain type (trimmed, none of `sap…`, `Promise.…`,
/// `jQ…`, `…module…`, `….…`, `function`, `function()`, `Promise`): the
/// translated type never makes the translation panic, and translating it
/// again gives it back.
pub proof fn law_translation_is_idempotent(t: Seq<char>, st: Seq<char>)
    requires
        is_plain_type(st),
        !ts_type_panics(t),
    ensures
        !ts_type_panics(ts_type(t, st)),
        ts_type(ts_type(t, st), st) == ts_type(t, st),
{
    let r = ts_type(t, st);
    lemma_fixed_names_are_plain();
    reveal_strlit("Promise<any>");
    reveal_strlit("Promise<");
    reveal_strlit(">");
    reveal_strlit("any");
    assert("Promise<any>"@ =~= promise_of("any"@));
    lemma_promise_of_clean("any"@);
    let tt = trim(t);
    if starts_with(tt, "sap"@) {
    } else if starts_with(tt, "Promise."@) {
        if let (Some(a), Some(b)) = (first_index(t, '<'), first_index(t, '>')) {
            if 0 <= a <= b < t.len() {
                let sub = t.subrange(a, b);
                lemma_translations_are_clean(sub, st);
                lemma_promise_of_clean(ts_types(sub, st));
            }
        }
    } else if contains(tt, "module"@) || starts_with(tt, "jQ"@) {
    } else if contains(tt, "."@) {
    } else if tt == "function"@ || tt == "function()"@ {
    } else if tt == "Promise"@ {
    } else {
        assert(is_plain_type(t));
    }
    assert(is_plain_type(r));
    lemma_plain_type_is_kept(r, st);
}

/// A `sap…` type (once trimmed) translates to the class name exactly when its
/// last `.`-segment is the class name: the trimmed type is the class name
/// itself or ends with `.` followed by it, and the class name holds no `.`.
/// Every other `sap…` type translates to `any`.
pub proof fn law_sap_type_is_class_or_any(t: Seq<char>, st: Seq<char>)
    requires
        starts_with(trim(t), "sap"@),
    ensures
        ts_type(t, st) == (if !st.contains('.') && (trim(t) == st || ends_with(
            trim(t),
            seq!['.'] + st,
        )) {
            st
        } else {
            "any"@
        }),
{
    lemma_last_segment_is(trim(t), '.', st);
}

/// A module path or `jQ…` type that is neither a `sap…` nor a `Promise.…`
/// type translates to the class name exactly when its last `/`-segment is
/// the class name, and to `any` otherwise.
pub proof fn law_module_type_is_class_or_any(t: Seq<char>, st: Seq<char>)
    requires
        !starts_with(trim(t), "sap"@),
        !starts_with(trim(t), "Promise."@),
        contains(trim(t), "module"@) || starts_with(trim(t), "jQ"@),
    ensures
        ts_type(t, st) == (if !st.contains('/') && (trim(t) == st || ends_with(
            trim(t),
            seq!['/'] + st,
        )) {
            st
        } else {
            "any"@
        }),
{
    lemma_last_segment_is(trim(t), '/', st);
}

/// A `Promise.…` type translates to a `Promise<…>` type.
pub proof fn law_promise_type_is_a_promise(t: Seq<char>, st: Seq<char>)
    requires
        starts_with(trim(t), "Promise."@),
    ensures
        starts_with(ts_type(t, st), "Promise<"@),
        ends_with(ts_type(t, st), ">"@),
{
    reveal_strlit("Promise.");
    reveal_strlit("sap");
    reveal_strlit("Promise<");
    reveal_strlit(">");
    reveal_strlit("Promise<any>");
    let tt = trim(t);
    assert(!starts_with(tt, "sap"@)) by {
        assert(tt.subrange(0, 8)[0] == tt[0]);
        assert(tt.subrange(0, 3)[0] == tt[0]);
    }
    let r = ts_type(t, st);
    assert(r.subrange(0, 8) =~= "Promise<"@);
    assert(r.subrange(r.len() - 1, r.len() as int) =~= ">"@);
}

/// The four-space indent of a signature line is followed by `public` exactly
/// for public members; every other member is declared `private`.
pub proof fn law_signature_visibility(
    vis: Visibility,
    name: Seq<char>,
    params: Option<Seq<Parameter>>,
    ret: Option<Seq<char>>,
    is_static: bool,
)
    ensures
        starts_with(ts_function(vis, name, params, ret, is_static), "    public"@) <==> (vis
            == Visibility::Public),
        vis != Visibility::Public ==> starts_with(
            ts_function(vis, name, params, ret, is_static),
            "    private"@,
        ),
{
    reveal_strlit("    ");
    reveal_strlit("public");
    reveal_strlit("private");
    reveal_strlit("    public");
    reveal_strlit("    private");
    let f = ts_function(vis, name, params, ret, is_static);
    if vis == Visibility::Public {
        assert(f.subrange(0, 10) =~= "    public"@);
    } else {
        assert(f.subrange(0, 11) =~= "    private"@);
        assert(f.subrange(0, 10)[5] == f[5]);
        assert("    public"@[5] != f[5]);
    }
}

/// A parameter's text starts with its name, followed by `?` exactly when the
/// parameter itself is optional (and by `:` otherwise).
pub proof fn law_param_marks_its_own_optionality(p: Parameter)
    ensures
        param_ts(p).len() > p.name@.len(),
        param_ts(p).subrange(0, p.name@.len() as int) == p.name@,
        param_ts(p)[p.name@.len() as int] == (if p.optional {
            '?'
        } else {
            ':'
        }),
{
    reveal_strlit("?");
    reveal_strlit(":");
    let t = param_ts(p);
    assert(t.subrange(0, p.name@.len() as int) =~= p.name@);
}

/// A parameter list is the parameters' own texts joined by `, `: a single
/// parameter gives its own text, and one more parameter appends `, ` and its
/// own text, whatever came before it; no parameters give the empty text.
pub proof fn law_params_text_appends_each_parameter(ps: Seq<Parameter>, p: Parameter)
    ensures
        params_ts(None).len() == 0,
        params_ts(Some(Seq::<Parameter>::empty())).len() == 0,
        params_ts(Some(seq![p])) == param_ts(p),
        ps.len() >= 1 ==> params_ts(Some(ps.push(p))) == params_ts(Some(ps)) + ", "@ + param_ts(
            p,
        ),
{
    let f = |q: Parameter| param_ts(q);
    assert(Seq::<Parameter>::empty().map_values(f) =~= Seq::<Seq<char>>::empty());
    assert(seq![p].map_values(f) =~= seq![param_ts(p)]);
    if ps.len() >= 1 {
        let all = ps.push(p).map_values(f);
        assert(all.drop_last() =~= ps.map_values(f));
        assert(all.last() == param_ts(p));
    }
}

/// A class's declaration has the default export, the class header, one
/// constructor line when the class has a constructor (with or without
/// parameters), one line per method and the closing brace.
pub proof fn law_class_declaration_lines(s: Symbol)
    requires
        s.kind is Class,
    ensures
        type_def_lines(s).len() == 3 + (if s.constructor is Some {
            1int
        } else {
            0int
        }) + (match s.methods {
            Some(ms) => ms@.len() as int,
            None => 0int,
        }),
        type_def_lines(s)[0] == "export default "@ + symbol_name(s) + ";"@,
        type_def_lines(s)[1] == "declare class "@ + symbol_name(s) + " {"@,
        type_def_lines(s).last() == "}"@,
        s.constructor matches Some(k) ==> type_def_lines(s)[2] == "    "@ + (if k.visibility
            == Visibility::Public {
            "public"@
        } else {
            "private"@
        }) + " "@ + "constructor"@ + "("@ + params_ts(ctor_params(k)) + ")"@,
{
    let lines = type_def_lines(s);
    if let Some(k) = s.constructor {
        assert(lines[2] == ts_function(k.visibility, "constructor"@, ctor_params(k), None, false));
        assert(lines[2] =~= "    "@ + ts_visibility(k.visibility) + " "@ + "constructor"@ + "("@
            + params_ts(ctor_params(k)) + ")"@);
    }
}

/// Every class symbol whose declaration directory starts with `sap` gets its
/// declaration among the results, whatever its visibility or members.
pub proof fn law_type_defs_are_complete(syms: Seq<Symbol>)
    ensures
        forall|j: int|
            0 <= j < syms.len() && (#[trigger] syms[j]).kind is Class && starts_with(
                def_path(syms[j].module@),
                "sap"@,
            ) ==> has_def(type_defs(syms), type_def(syms[j])),
    decreases syms.len(),
{
    if syms.len() > 0 {
        let rest = syms.drop_last();
        law_type_defs_are_complete(rest);
        let defs = type_defs(syms);
        let prev = type_defs(rest);
        assert forall|j: int|
            0 <= j < syms.len() && (#[trigger] syms[j]).kind is Class && starts_with(
                def_path(syms[j].module@),
                "sap"@,
            ) implies has_def(defs, type_def(syms[j])) by {
            if j < syms.len() - 1 {
                assert(syms[j] == rest[j]);
                let i = choose|i: int| 0 <= i < prev.len() && #[trigger] prev[i] == type_def(rest[j]);
                assert(defs[i] == prev[i]);
            } else {
                assert(syms[j] == syms.last());
                assert(defs[prev.len() as int] == type_def(syms[j]));
            }
        }
    }
}

/// `d` is one of the declarations.
pub open spec fn has_def(
    defs: Seq<(Seq<char>, Seq<char>, Seq<char>)>,
    d: (Seq<char>, Seq<char>, Seq<char>),
) -> bool {
    exists|i: int| 0 <= i < defs.len() && #[trigger] defs[i] == d
}

/// The declarations of two lists of symbols put together are those of the
/// first list followed by those of the second.
pub proof fn law_type_defs_of_concatenation(a: Seq<Symbol>, b: Seq<Symbol>)
    ensures
        type_defs(a + b) == type_defs(a) + type_defs(b),
    decreases b.len(),
{
    if b.len() == 0 {
        assert(a + b =~= a);
        assert(type_defs(a) + type_defs(b) =~= type_defs(a));
    } else {
        law_type_defs_of_concatenation(a, b.drop_last());
        assert((a + b).drop_last() =~= a + b.drop_last());
        assert((a + b).last() == b.last());
        assert(type_defs(a + b) =~= type_defs(a) + type_defs(b));
    }
}

/// `function` and `function()` (trimmed) translate to `Function`, a bare
/// `Promise` to `Promise<any>`, and any other dotted name that is neither a
/// `sap…`, `Promise.…`, module path nor `jQ…` type to `any`.
pub proof fn law_fixed_translations(t: Seq<char>, st: Seq<char>)
    ensures
        trim(t) == "function"@ || trim(t) == "function()"@ ==> ts_type(t, st) == "Function"@,
        trim(t) == "Promise"@ ==> ts_type(t, st) == "Promise<any>"@,
        !starts_with(trim(t), "sap"@) && !starts_with(trim(t), "Promise."@) && !contains(
            trim(t),
            "module"@,
        ) && !starts_with(trim(t), "jQ"@) && contains(trim(t), "."@) ==> ts_type(t, st)
            == "any"@,
{
    reveal_strlit("function");
    reveal_strlit("function()");
    reveal_strlit("Promise");
    reveal_strlit("sap");
    reveal_strlit("Promise.");
    reveal_strlit("jQ");
    reveal_strlit("module");
    reveal_strlit(".");
    let tt = trim(t);
    if tt == "Promise"@ {
        assert(tt != "function"@ && tt != "function()"@) by {
            assert(tt.len() == 7);
        }
    }
    if tt == "function"@ || tt == "function()"@ || tt == "Promise"@ {
        assert(!starts_with(tt, "sap"@)) by {
            assert(tt.subrange(0, 3)[0] == tt[0]);
        }
        assert(!starts_with(tt, "jQ"@)) by {
            assert(tt.subrange(0, 2)[0] == tt[0]);
        }
        assert(!starts_with(tt, "Promise."@)) by {
            if tt.len() >= 8 {
                assert(tt.subrange(0, 8)[7] == tt[7]);
            }
        }
        assert(!contains(tt, "."@)) by {
            assert forall|k: int| !#[trigger] occurs_at(tt, "."@, k) by {
                if occurs_at(tt, "."@, k) {
                    assert(tt.subrange(k, k + 1)[0] == tt[k]);
                }
            }
        }
        assert(!contains(tt, "module"@)) by {
            assert forall|k: int| !#[trigger] occurs_at(tt, "module"@, k) by {
                if occurs_at(tt, "module"@, k) {
                    assert(tt.subrange(k, k + 6)[0] == tt[k]);
                    assert(tt.subrange(k, k + 6)[1] == tt[k + 1]);
                }
            }
        }
    }
}

/// A plain type (see `is_plain_type`) is kept exactly as written, untrimmed.
pub proof fn law_plain_type_is_kept(t: Seq<char>, st: Seq<char>)
    requires
        is_plain_type(t),
    ensures
        ts_type(t, st) == t,
{
}

/// A `Promise.…` type whose first `<` comes before its first `>` translates
/// to `Promise<…>` around the translation of the text from that `<` up to
/// that `>`; one without a `<` or without a `>` translates to `Promise<any>`.
pub proof fn law_promise_type_content(t: Seq<char>, st: Seq<char>)
    requires
        starts_with(trim(t), "Promise."@),
    ensures
        !t.contains('<') || !t.contains('>') ==> ts_type(t, st) == "Promise<any>"@,
        forall|a: int, b: int|
            crate::text::is_first(t, '<', a) && crate::text::is_first(t, '>', b) && a <= b
                ==> ts_type(t, st) == "Promise<"@ + ts_types(t.subrange(a, b), st) + ">"@,
{
    reveal_strlit("Promise.");
    reveal_strlit("sap");
    let tt = trim(t);
    assert(!starts_with(tt, "sap"@)) by {
        assert(tt.subrange(0, 8)[0] == tt[0]);
        assert(tt.subrange(0, 3)[0] == tt[0]);
    }
    if !t.contains('<') {
        assert(!exists|k: int| crate::text::is_first(t, '<', k)) by {
            if exists|k: int| crate::text::is_first(t, '<', k) {
                let k = choose|k: int| crate::text::is_first(t, '<', k);
                assert(t[k] == '<');
            }
        }
    }
    if !t.contains('>') {
        assert(!exists|k: int| crate::text::is_first(t, '>', k)) by {
            if exists|k: int| crate::text::is_first(t, '>', k) {
                let k = choose|k: int| crate::text::is_first(t, '>', k);
                assert(t[k] == '>');
            }
        }
    }
    assert forall|a: int, b: int|
        crate::text::is_first(t, '<', a) && crate::text::is_first(t, '>', b) && a <= b implies
        ts_type(t, st) == "Promise<"@ + ts_types(t.subrange(a, b), st) + ">"@ by {
        let a2 = choose|k: int| crate::text::is_first(t, '<', k);
        let b2 = choose|k: int| crate::text::is_first(t, '>', k);
        assert(a2 == a) by {
            if a2 < a {
                assert(t[a2] == '<');
            } else if a2 > a {
                assert(t[a] == '<');
            }
        }
        assert(b2 == b) by {
            if b2 < b {
                assert(t[b2] == '>');
            } else if b2 > b {
                assert(t[b] == '>');
            }
        }
    }
}

/// The declared return type is translated in the class; a method without a
/// return value, or whose return value declares no type, returns `void`.
pub proof fn law_return_type(rv: Option<ReturnValue>, st: Seq<char>)
    ensures
        return_ts(rv, st) == match rv {
            Some(v) => match v._type {
                Some(t) => ts_types(t@, st),
                None => "void"@,
            },
            None => "void"@,
        },
{
}

/// A signature line: four spaces, the visibility, ` static` for static
/// members, a space, the name and the bracketed parameter list; then `: `
/// and the return type when there is one, and nothing more otherwise.
pub proof fn law_signature_shape(
    vis: Visibility,
    name: Seq<char>,
    params: Option<Seq<Parameter>>,
    ret: Option<Seq<char>>,
    is_static: bool,
)
    ensures
        starts_with(
            ts_function(vis, name, params, ret, is_static),
            "    "@ + ts_visibility(vis) + (if is_static {
                " static "@
            } else {
                " "@
            }) + name + "("@ + params_ts(params) + ")"@,
        ),
        ret is None ==> ends_with(ts_function(vis, name, params, ret, is_static), ")"@),
        ret matches Some(r) ==> ends_with(
            ts_function(vis, name, params, ret, is_static),
            ": "@ + r,
        ),
{
    reveal_strlit(" static ");
    reveal_strlit(" static");
    reveal_strlit(" ");
    let f = ts_function(vis, name, params, ret, is_static);
    let head = "    "@ + ts_visibility(vis) + (if is_static {
        " static "@
    } else {
        " "@
    }) + name + "("@ + params_ts(params) + ")"@;
    let tail = match ret {
        Some(r) => ": "@ + r,
        None => Seq::<char>::empty(),
    };
    assert(f =~= head + tail);
    assert(f.subrange(0, head.len() as int) =~= head);
    if ret is None {
        assert(f.subrange(f.len() - 1, f.len() as int) =~= ")"@) by {
            reveal_strlit(")");
        }
    } else {
        assert(f.subrange(f.len() - tail.len(), f.len() as int) =~= tail);
    }
}

/// A parameter's text ends with its type, translated with the class name
/// `DUMMY`.
pub proof fn law_param_ends_with_type(p: Parameter)
    ensures
        ends_with(param_ts(p), ":"@ + ts_types(p._type@, "DUMMY"@)),
{
    let t = param_ts(p);
    let tail = ":"@ + ts_types(p._type@, "DUMMY"@);
    assert(t.subrange(t.len() - tail.len(), t.len() as int) =~= tail);
}

/// The constructor's parameters are the single parameter, or the listed ones.
pub proof fn law_constructor_parameters(p: Parameter, ps: Vec<Parameter>)
    ensures
        multi_params(MultiParam::Param(p)) == seq![p],
        multi_params(MultiParam::Multi(ps)) == ps@,
{
}

/// The method lines of a class's declaration follow the constructor line, one
/// per method in order: the method's signature, declared static exactly when
/// the method says so, returning its translated return type.
pub proof fn law_method_lines(s: Symbol, ms: Vec<Method>, i: int)
    requires
        s.kind is Class,
        s.methods == Some(ms),
        0 <= i < ms@.len(),
    ensures
        type_def_lines(s)[2 + (if s.constructor is Some {
            1int
        } else {
            0int
        }) + i] == ts_function(
            ms@[i].visibility,
            ms@[i].name@,
            params_view(ms@[i].parameters),
            Some(return_ts(ms@[i].return_value, symbol_name(s))),
            ms@[i]._static == Some(true),
        ),
{
}

/// The short name of a symbol is the end of its base name after the last
/// `/`: a suffix without `/`, being the whole base name or preceded by `/`.
pub proof fn law_symbol_name_is_last_segment(s: Symbol)
    ensures
        !symbol_name(s).contains('/'),
        s.basename@ == symbol_name(s) || ends_with(s.basename@, seq!['/'] + symbol_name(s)),
{
    lemma_last_segment_is(s.basename@, '/', symbol_name(s));
}

/// Only `Promise.…` types (trimmed, and not `sap…`) are echoed, each one
/// first, as written, before what its brackets echo.
pub proof fn law_echo_only_promise_types(t: Seq<char>)
    ensures
        (type_echo(t).len() > 0) <==> (!starts_with(trim(t), "sap"@) && starts_with(
            trim(t),
            "Promise."@,
        )),
        type_echo(t).len() > 0 ==> type_echo(t)[0] == t,
{
}

/// The echoes for two lists of symbols put together are those of the first
/// list followed by those of the second.
pub proof fn law_echoes_of_concatenation(a: Seq<Symbol>, b: Seq<Symbol>)
    ensures
        symbol_seq_echo(a + b) == symbol_seq_echo(a) + symbol_seq_echo(b),
    decreases b.len(),
{
    if b.len() == 0 {
        assert(a + b =~= a);
        assert(symbol_seq_echo(a) + symbol_seq_echo(b) =~= symbol_seq_echo(a));
    } else {
        law_echoes_of_concatenation(a, b.drop_last());
        assert((a + b).drop_last() =~= a + b.drop_last());
        assert((a + b).last() == b.last());
        assert(symbol_seq_echo(a + b) =~= symbol_seq_echo(a) + symbol_seq_echo(b));
    }
}

/// The first two pieces, with the separator between them, begin the joined text.
proof fn lemma_join_starts_with_first_two(parts: Seq<Seq<char>>, sep: Seq<char>)
    requires
        parts.len() >= 2,
    ensures
        starts_with(join(parts, sep), parts[0] + sep + parts[1]),
    decreases parts.len(),
{
    let head = parts[0] + sep + parts[1];
    if parts.len() == 2 {
        assert(parts.drop_last()[0] == parts[0]);
        assert(join(parts.drop_last(), sep) == parts[0]);
        assert(parts.last() == parts[1]);
        assert(join(parts, sep) == join(parts.drop_last(), sep) + sep + parts.last());
        assert(join(parts, sep) =~= head);
        assert(join(parts, sep).subrange(0, head.len() as int) =~= head);
    } else {
        let prev = parts.drop_last();
        lemma_join_starts_with_first_two(prev, sep);
        assert(prev[0] == parts[0] && prev[1] == parts[1]);
        let j = join(parts, sep);
        assert(j == join(prev, sep) + sep + parts.last());
        assert(j.subrange(0, head.len() as int) =~= join(prev, sep).subrange(0, head.len() as int));
    }
}

/// A class's declaration text begins with the default export and the class
/// header on their own lines, and ends with the closing brace on a line of
/// its own.
pub proof fn law_class_declaration_text(s: Symbol)
    requires
        s.kind is Class,
    ensures
        starts_with(
            def_content(s),
            "export default "@ + symbol_name(s) + ";"@ + "\n"@ + "declare class "@ + symbol_name(s)
                + " {"@,
        ),
        ends_with(def_content(s), "\n"@ + "}"@),
{
    law_class_declaration_lines(s);
    let lines = type_def_lines(s);
    lemma_join_starts_with_first_two(lines, "\n"@);
    assert(lines[0] + "\n"@ + lines[1] =~= "export default "@ + symbol_name(s) + ";"@ + "\n"@
        + "declare class "@ + symbol_name(s) + " {"@);
    let c = def_content(s);
    assert(c == join(lines.drop_last(), "\n"@) + "\n"@ + lines.last());
    let tail = "\n"@ + "}"@;
    assert(c.subrange(c.len() - tail.len(), c.len() as int) =~= tail);
}

} // verus!
