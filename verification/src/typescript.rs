//! Translation of UI5 symbols into TypeScript declarations: type
//! expressions, parameter lists, method signatures and whole class files.
use vstd::prelude::*;
use crate::model::{
    Constructor, FilePath, Kinds, Method, MultiParam, Parameter, ReturnValue, Symbol, Visibility,
    multi_params, symbol_name, ts_visibility,
};
use crate::text::{
    contains, contains_str, eq_str, find_char, first_index, is_first, join, join_strs,
    last_segment, last_segment_str, lemma_split_nonempty, lemma_split_parts, split, split_str,
    starts_with, starts_with_str, trim, trim_str, views,
};

verus! {

// ---------------------------------------------------------------------------
// Type expressions
// ---------------------------------------------------------------------------
/// The one input on which the translation of a type stops with a panic: a
/// `Promise.` type whose first `>` stands before its first `<`, so that the
/// slice between them is out of order.
pub open spec fn ts_type_panics(t: Seq<char>) -> bool {
    let tt = trim(t);
    &&& !starts_with(tt, "sap"@)
    &&& starts_with(tt, "Promise."@)
    &&& first_index(t, '<') is Some
    &&& first_index(t, '>') is Some
    &&& first_index(t, '>')->0 < first_index(t, '<')->0
}

/// No alternative of the `|`-separated type expression makes the translation panic.
pub open spec fn types_convertible(ts: Seq<char>) -> bool {
    forall|i: int| 0 <= i < split(ts, '|').len() ==> !ts_type_panics(#[trigger] split(ts, '|')[i])
}

/// The TypeScript type for one UI5 type `t` (no `|` at its top level), in a
/// class whose own name is `st`.
///
/// - `sap.…` types: the class itself when the last `.`-segment is its name, else `any`;
/// - `Promise.<…>`: `Promise<…>` around the translation of the text from the
///   first `<` (included) up to the first `>`, or `Promise<any>` when a bracket is missing;
/// - module paths and `jQ…` types: the class itself when the last `/`-segment
///   is its name, else `any`;
/// - other dotted names: `any`;
/// - `function` and `function()`: `Function`; a bare `Promise`: `Promise<any>`;
/// - anything else is kept as written.
pub open spec fn ts_type(t: Seq<char>, st: Seq<char>) -> Seq<char>
    decreases t.len(), 0nat, 0nat,
{
    let tt = trim(t);
    if starts_with(tt, "sap"@) {
        if last_segment(tt, '.') == st {
            st
        } else {
            "any"@
        }
    } else if starts_with(tt, "Promise."@) {
        match (first_index(t, '<'), first_index(t, '>')) {
            (Some(a), Some(b)) => {
                if 0 <= a <= b < t.len() {
                    "Promise<"@ + ts_types(t.subrange(a, b), st) + ">"@
                } else {
                    "Promise<any>"@
                }
            },
            _ => "Promise<any>"@,
        }
    } else if contains(tt, "module"@) || starts_with(tt, "jQ"@) {
        if st == last_segment(tt, '/') {
            st
        } else {
            "any"@
        }
    } else if contains(tt, "."@) {
        "any"@
    } else if tt == "function"@ || tt == "function()"@ {
        "Function"@
    } else if tt == "Promise"@ {
        "Promise<any>"@
    } else {
        t
    }
}

/// The UI5 types that the translation keeps as they are written: trimmed,
/// they have none of the special forms (no `sap`, `Promise.` or `jQ` prefix,
/// no `module`, no `.`, not `function`, `function()` or `Promise`).
pub open spec fn is_plain_type(x: Seq<char>) -> bool {
    let tx = trim(x);
    &&& !starts_with(tx, "sap"@)
    &&& !starts_with(tx, "Promise."@)
    &&& !contains(tx, "module"@)
    &&& !starts_with(tx, "jQ"@)
    &&& !contains(tx, "."@)
    &&& tx != "function"@
    &&& tx != "function()"@
    &&& tx != "Promise"@
}

/// The translations of the pieces, in order (each piece no longer than `bound`).
pub open spec fn ts_type_list(parts: Seq<Seq<char>>, st: Seq<char>, bound: nat) -> Seq<Seq<char>>
    decreases bound, 1nat, parts.len(),
{
    if parts.len() == 0 {
        Seq::<Seq<char>>::empty()
    } else {
        let rest = ts_type_list(parts.drop_last(), st, bound);
        if parts.last().len() <= bound {
            rest.push(ts_type(parts.last(), st))
        } else {
            rest.push(parts.last())
        }
    }
}

/// The TypeScript type for a `|`-separated UI5 type expression: each
/// alternative translated, joined again by `|`.
pub open spec fn ts_types(ts: Seq<char>, st: Seq<char>) -> Seq<char>
    decreases ts.len(), 2nat, 0nat,
{
    join(ts_type_list(split(ts, '|'), st, ts.len()), "|"@)
}

/// Each piece of `ts_type_list` is the translation of the matching piece.
pub proof fn lemma_ts_type_list(parts: Seq<Seq<char>>, st: Seq<char>, bound: nat)
    requires
        forall|i: int| 0 <= i < parts.len() ==> (#[trigger] parts[i]).len() <= bound,
    ensures
        ts_type_list(parts, st, bound).len() == parts.len(),
        forall|i: int|
            0 <= i < parts.len() ==> #[trigger] ts_type_list(parts, st, bound)[i] == ts_type(
                parts[i],
                st,
            ),
    decreases parts.len(),
{
    if parts.len() > 0 {
        lemma_ts_type_list(parts.drop_last(), st, bound);
        assert(parts.last() == parts[parts.len() - 1]);
    }
}

/// A text without `>` never makes the translation panic.
proof fn lemma_no_close_bracket_convertible(ts: Seq<char>)
    requires
        !ts.contains('>'),
    ensures
        types_convertible(ts),
{
    lemma_split_parts(ts, '|');
    assert forall|i: int| 0 <= i < split(ts, '|').len() implies !ts_type_panics(
        #[trigger] split(ts, '|')[i],
    ) by {
        let p = split(ts, '|')[i];
        assert(!p.contains('>'));
        assert(!exists|k: int| is_first(p, '>', k)) by {
            if exists|k: int| is_first(p, '>', k) {
                let k = choose|k: int| is_first(p, '>', k);
                assert(p[k] == '>');
            }
        }
    }
}

/// The TypeScript type for one UI5 type, in a class named `self_type`.
pub fn convert_ui5_type_to_ts_type(ui5_type: &str, self_type: &str) -> (r: String)
    requires
        !ts_type_panics(ui5_type@),
    ensures
        r@ == ts_type(ui5_type@, self_type@),
    decreases ui5_type@.len(), 0nat,
{
    let tt = trim_str(ui5_type);
    if starts_with_str(tt, "sap") {
        let last = last_segment_str(tt, '.');
        if eq_str(last.as_str(), self_type) {
            return String::from_str(self_type);
        }
        return String::from_str("any");
    }
    if starts_with_str(tt, "Promise.") {
        match find_char(ui5_type, '<') {
            Some(start_pos) => {
                match find_char(ui5_type, '>') {
                    Some(end_pos) => {
                        let promise_types = ui5_type.substring_char(start_pos, end_pos);
                        proof {
                            assert(!promise_types@.contains('>')) by {
                                let b = choose|k: int| is_first(ui5_type@, '>', k);
                                assert(is_first(ui5_type@, '>', b));
                                if promise_types@.contains('>') {
                                    let k = choose|k: int|
                                        0 <= k < promise_types@.len() && promise_types@[k] == '>';
                                    assert(ui5_type@[start_pos + k] == '>');
                                }
                            }
                            lemma_no_close_bracket_convertible(promise_types@);
                        }
                        let inner = convert_ui5_types_to_ts_types(promise_types, self_type);
                        let mut r = String::from_str("Promise<");
                        r.append(inner.as_str());
                        r.append(">");
                        return r;
                    },
                    None => {
                        return String::from_str("Promise<any>");
                    },
                }
            },
            None => {
                return String::from_str("Promise<any>");
            },
        }
    }
    let last_name = last_segment_str(tt, '/');
    if contains_str(tt, "module") || starts_with_str(tt, "jQ") {
        if eq_str(self_type, last_name.as_str()) {
            return last_name;
        }
        return String::from_str("any");
    }
    if contains_str(tt, ".") {
        return String::from_str("any");
    }
    if eq_str(tt, "function") || eq_str(tt, "function()") {
        String::from_str("Function")
    } else if eq_str(tt, "Promise") {
        String::from_str("Promise<any>")
    } else {
        String::from_str(ui5_type)
    }
}

/// The TypeScript type for a `|`-separated UI5 type expression, in a class
/// named `self_type`.
pub fn convert_ui5_types_to_ts_types(ui5_types: &str, self_type: &str) -> (r: String)
    requires
        types_convertible(ui5_types@),
    ensures
        r@ == ts_types(ui5_types@, self_type@),
    decreases ui5_types@.len(), 1nat,
{
    let parts = split_str(ui5_types, '|');
    let ghost pv = views(parts@);
    let ghost bound = ui5_types@.len();
    proof {
        lemma_split_parts(ui5_types@, '|');
    }
    let mut out: Vec<String> = Vec::new();
    let mut i: usize = 0;
    assert(pv.take(0) =~= Seq::<Seq<char>>::empty());
    while i < parts.len()
        invariant
            i <= parts@.len(),
            pv == views(parts@),
            pv == split(ui5_types@, '|'),
            bound == ui5_types@.len(),
            types_convertible(ui5_types@),
            forall|k: int| 0 <= k < pv.len() ==> (#[trigger] pv[k]).len() <= bound,
            views(out@) == ts_type_list(pv.take(i as int), self_type@, bound),
        decreases parts@.len() - i,
    {
        assert(pv[i as int] == parts@[i as int]@);
        assert(!ts_type_panics(pv[i as int]));
        let piece = convert_ui5_type_to_ts_type(parts[i].as_str(), self_type);
        let ghost prev = out@;
        out.push(piece);
        assert(pv.take(i + 1).drop_last() =~= pv.take(i as int));
        assert(pv.take(i + 1).last() == pv[i as int]);
        assert(views(out@) =~= views(prev).push(piece@));
        i = i + 1;
    }
    assert(pv.take(parts@.len() as int) =~= pv);
    join_strs(&out, "|")
}

// ---------------------------------------------------------------------------
// Return values and parameters
// ---------------------------------------------------------------------------
/// The return value's type can be translated without a panic.
pub open spec fn return_convertible(rv: Option<ReturnValue>) -> bool {
    match rv {
        Some(v) => match v._type {
            Some(t) => types_convertible(t@),
            None => true,
        },
        None => true,
    }
}

/// The TypeScript return type: the translated type, or `void` when none is declared.
pub open spec fn return_ts(rv: Option<ReturnValue>, st: Seq<char>) -> Seq<char> {
    match rv {
        Some(v) => match v._type {
            Some(t) => ts_types(t@, st),
            None => "void"@,
        },
        None => "void"@,
    }
}

/// The TypeScript return type of a method of the class named `self_type`.
pub fn return_val_to_ts(return_value: &Option<ReturnValue>, self_type: &str) -> (r: String)
    requires
        return_convertible(*return_value),
    ensures
        r@ == return_ts(*return_value, self_type@),
{
    match return_value {
        Some(val) => match &val._type {
            Some(t) => convert_ui5_types_to_ts_types(t.as_str(), self_type),
            None => String::from_str("void"),
        },
        None => String::from_str("void"),
    }
}

/// The parameter's type can be translated without a panic.
pub open spec fn param_convertible(p: Parameter) -> bool {
    types_convertible(p._type@)
}

/// A TypeScript parameter: `name`, `?` when optional, `:` and the type.
pub open spec fn param_ts(p: Parameter) -> Seq<char> {
    p.name@ + (if p.optional {
        "?"@
    } else {
        Seq::<char>::empty()
    }) + ":"@ + ts_types(p._type@, "DUMMY"@)
}

/// The TypeScript text of one parameter.
pub fn param_to_ts(param: &Parameter) -> (r: String)
    requires
        param_convertible(*param),
    ensures
        r@ == param_ts(*param),
{
    let mut r = param.name.clone();
    if param.optional {
        r.append("?");
    }
    r.append(":");
    let t = convert_ui5_types_to_ts_types(param._type.as_str(), "DUMMY");
    r.append(t.as_str());
    r
}

/// The optional list of parameters as a sequence.
pub open spec fn params_view(params: Option<Vec<Parameter>>) -> Option<Seq<Parameter>> {
    match params {
        Some(v) => Some(v@),
        None => None,
    }
}

/// Every parameter can be translated without a panic.
pub open spec fn all_params_convertible(ps: Seq<Parameter>) -> bool {
    forall|i: int| 0 <= i < ps.len() ==> param_convertible(#[trigger] ps[i])
}

/// Every parameter of the optional list can be translated without a panic.
pub open spec fn params_convertible(params: Option<Seq<Parameter>>) -> bool {
    match params {
        Some(ps) => all_params_convertible(ps),
        None => true,
    }
}

/// A TypeScript parameter list (without the brackets): the parameters joined
/// by `, `; empty when there are none.
pub open spec fn params_ts(params: Option<Seq<Parameter>>) -> Seq<char> {
    match params {
        Some(ps) => join(ps.map_values(|p: Parameter| param_ts(p)), ", "@),
        None => Seq::<char>::empty(),
    }
}

/// The TypeScript text of a parameter list.
pub fn params_to_ts(params: &Option<Vec<Parameter>>) -> (r: String)
    requires
        params_convertible(params_view(*params)),
    ensures
        r@ == params_ts(params_view(*params)),
{
    match params {
        Some(ps) => {
            let ghost texts = ps@.map_values(|p: Parameter| param_ts(p));
            assert(params_view(*params) == Some(ps@));
            let mut out: Vec<String> = Vec::new();
            let mut i: usize = 0;
            while i < ps.len()
                invariant
                    i <= ps@.len(),
                    texts == ps@.map_values(|p: Parameter| param_ts(p)),
                    forall|k: int| 0 <= k < ps@.len() ==> param_convertible(#[trigger] ps@[k]),
                    views(out@) == texts.take(i as int),
                decreases ps@.len() - i,
            {
                assert(param_convertible(ps@[i as int]));
                let t = param_to_ts(&ps[i]);
                let ghost prev = out@;
                out.push(t);
                assert(views(out@) =~= views(prev).push(t@));
                assert(texts.take(i + 1) =~= texts.take(i as int).push(texts[i as int]));
                assert(views(out@) =~= texts.take(i + 1));
                i = i + 1;
            }
            assert(texts.take(ps@.len() as int) =~= texts);
            join_strs(&out, ", ")
        },
        None => String::new(),
    }
}

// ---------------------------------------------------------------------------
// Method signatures
// ---------------------------------------------------------------------------
/// A TypeScript member signature, indented by four spaces:
/// `<visibility>[ static] <name>(<parameters>)[: <return type>]`.
pub open spec fn ts_function(
    vis: Visibility,
    name: Seq<char>,
    params: Option<Seq<Parameter>>,
    ret: Option<Seq<char>>,
    is_static: bool,
) -> Seq<char> {
    "    "@ + ts_visibility(vis) + (if is_static {
        " static"@
    } else {
        Seq::<char>::empty()
    }) + " "@ + name + "("@ + params_ts(params) + ")"@ + match ret {
        Some(t) => ": "@ + t,
        None => Seq::<char>::empty(),
    }
}

/// The optional string as a character sequence.
pub open spec fn opt_view(o: Option<String>) -> Option<Seq<char>> {
    match o {
        Some(s) => Some(s@),
        None => None,
    }
}

/// The TypeScript signature of a method or constructor.
pub fn to_ts_function(
    visibility: &Visibility,
    method_name: &str,
    parameters: &Option<Vec<Parameter>>,
    return_value: Option<String>,
    is_static: bool,
) -> (r: String)
    requires
        params_convertible(params_view(*parameters)),
    ensures
        r@ == ts_function(
            *visibility,
            method_name@,
            params_view(*parameters),
            opt_view(return_value),
            is_static,
        ),
{
    let params = params_to_ts(parameters);
    let mut r = String::from_str("    ");
    r.append(visibility.to_ts_visibility());
    if is_static {
        r.append(" static");
    }
    r.append(" ");
    r.append(method_name);
    r.append("(");
    r.append(params.as_str());
    r.append(")");
    match return_value {
        Some(t) => {
            r.append(": ");
            r.append(t.as_str());
        },
        None => {},
    }
    r
}

// ---------------------------------------------------------------------------
// Declaration files
// ---------------------------------------------------------------------------
/// The directory of the declaration file for a module path: all but the
/// last `/`-segment, joined by `/`.
pub open spec fn def_path(module: Seq<char>) -> Seq<char> {
    join(split(module, '/').drop_last(), "/"@)
}

/// The name of the declaration file for a module path: its last
/// `/`-segment followed by `.d.ts`.
pub open spec fn def_file_name(module: Seq<char>) -> Seq<char> {
    last_segment(module, '/') + ".d.ts"@
}

/// The parameters of an optional constructor's parameter spec, as a list.
pub open spec fn ctor_params(c: Constructor) -> Option<Seq<Parameter>> {
    match c.parameters {
        Some(mp) => Some(multi_params(mp)),
        None => None,
    }
}

/// The signature line of the constructor, if there is one.
pub open spec fn ctor_lines(c: Option<Constructor>) -> Seq<Seq<char>> {
    match c {
        Some(k) => seq![ts_function(k.visibility, "constructor"@, ctor_params(k), None, false)],
        None => Seq::<Seq<char>>::empty(),
    }
}

/// Whether a method is declared static (not declared counts as not static).
pub open spec fn method_is_static(m: Method) -> bool {
    match m._static {
        Some(b) => b,
        None => false,
    }
}

/// The signature line of a method of the class named `name`.
pub open spec fn method_line(m: Method, name: Seq<char>) -> Seq<char> {
    ts_function(
        m.visibility,
        m.name@,
        params_view(m.parameters),
        Some(return_ts(m.return_value, name)),
        method_is_static(m),
    )
}

/// The signature lines of the methods, in order.
pub open spec fn method_lines(ms: Option<Vec<Method>>, name: Seq<char>) -> Seq<Seq<char>> {
    match ms {
        Some(v) => v@.map_values(|m: Method| method_line(m, name)),
        None => Seq::<Seq<char>>::empty(),
    }
}

/// The lines of the declaration file of a symbol: for a class, the default
/// export, the class header, the constructor, the methods and the closing
/// brace; for any other kind, nothing.
pub open spec fn type_def_lines(s: Symbol) -> Seq<Seq<char>> {
    if s.kind is Class {
        let name = symbol_name(s);
        seq!["export default "@ + name + ";"@, "declare class "@ + name + " {"@] + ctor_lines(
            s.constructor,
        ) + method_lines(s.methods, name) + seq!["}"@]
    } else {
        Seq::<Seq<char>>::empty()
    }
}

/// The text of the declaration file of a symbol: its lines joined by newlines.
pub open spec fn def_content(s: Symbol) -> Seq<char> {
    join(type_def_lines(s), "\n"@)
}

/// A method's parameter and return types can be translated without a panic.
pub open spec fn method_convertible(m: Method) -> bool {
    params_convertible(params_view(m.parameters)) && return_convertible(m.return_value)
}

/// Every method's types can be translated without a panic.
pub open spec fn all_methods_convertible(ms: Seq<Method>) -> bool {
    forall|i: int| 0 <= i < ms.len() ==> method_convertible(#[trigger] ms[i])
}

/// The declaration of the symbol can be generated without a panic.
pub open spec fn symbol_convertible(s: Symbol) -> bool {
    s.kind is Class ==> {
        &&& match s.constructor {
            Some(k) => params_convertible(ctor_params(k)),
            None => true,
        }
        &&& match s.methods {
            Some(ms) => all_methods_convertible(ms@),
            None => true,
        }
    }
}

/// The declaration file of a symbol: directory, file name, text.
pub open spec fn type_def(s: Symbol) -> (Seq<char>, Seq<char>, Seq<char>) {
    (def_path(s.module@), def_file_name(s.module@), def_content(s))
}

/// A generated file as plain text: directory, file name, text.
pub open spec fn def_view(x: (FilePath, String)) -> (Seq<char>, Seq<char>, Seq<char>) {
    (x.0.path@, x.0.file_name@, x.1@)
}

/// The declaration file of a symbol: its path comes from the module path
/// (`a/b/C` gives directory `a/b` and file `C.d.ts`), its text from the
/// class's constructor and methods.
pub fn extract_type_def(symbol: &Symbol) -> (r: (FilePath, String))
    requires
        symbol_convertible(*symbol),
    ensures
        def_view(r) == type_def(*symbol),
{
    let mut steps = split_str(symbol.module.as_str(), '/');
    proof {
        lemma_split_nonempty(symbol.module@, '/');
    }
    let ghost all = steps@;
    let mut file_name = steps.pop().unwrap();
    assert(views(steps@) =~= views(all).drop_last());
    assert(file_name@ == views(all).last());
    let path = join_strs(&steps, "/");
    file_name.append(".d.ts");
    let file_path = FilePath { path, file_name };
    let mut lines: Vec<String> = Vec::new();
    match symbol.kind {
        Kinds::Class => {
            let name = symbol.get_name();
            let mut header = String::from_str("export default ");
            header.append(name.as_str());
            header.append(";");
            lines.push(header);
            let mut open = String::from_str("declare class ");
            open.append(name.as_str());
            open.append(" {");
            lines.push(open);
            let ghost head = views(lines@);
            if let Some(constructor) = &symbol.constructor {
                let params = match &constructor.parameters {
                    Some(mp) => Some(mp.to_vec()),
                    None => None,
                };
                assert(params_view(params) == ctor_params(*constructor));
                let line = to_ts_function(&constructor.visibility, "constructor", &params, None, false);
                lines.push(line);
            }
            assert(views(lines@) =~= head + ctor_lines(symbol.constructor));
            let ghost before = views(lines@);
            if let Some(methods) = &symbol.methods {
                let ghost texts = methods@.map_values(|m: Method| method_line(m, name@));
                let mut k: usize = 0;
                while k < methods.len()
                    invariant
                        k <= methods@.len(),
                        texts == methods@.map_values(|m: Method| method_line(m, name@)),
                        name@ == symbol_name(*symbol),
                        forall|i: int|
                            0 <= i < methods@.len() ==> method_convertible(#[trigger] methods@[i]),
                        views(lines@) == before + texts.take(k as int),
                    decreases methods@.len() - k,
                {
                    let meth = &methods[k];
                    assert(method_convertible(methods@[k as int]));
                    let rv = return_val_to_ts(&meth.return_value, name.as_str());
                    let is_static = match meth._static {
                        Some(b) => b,
                        None => false,
                    };
                    let line = to_ts_function(
                        &meth.visibility,
                        meth.name.as_str(),
                        &meth.parameters,
                        Some(rv),
                        is_static,
                    );
                    let ghost prev = lines@;
                    lines.push(line);
                    assert(views(lines@) =~= views(prev).push(line@));
                    assert(texts.take(k + 1) =~= texts.take(k as int).push(texts[k as int]));
                    assert(views(lines@) =~= before + texts.take(k + 1));
                    k = k + 1;
                }
                assert(texts.take(methods@.len() as int) =~= texts);
            }
            assert(views(lines@) =~= before + method_lines(symbol.methods, name@));
            let ghost prev = lines@;
            lines.push(String::from_str("}"));
            assert(views(lines@) =~= views(prev).push("}"@));
            assert(views(lines@) =~= type_def_lines(*symbol));
        },
        _ => {
            assert(views(lines@) =~= type_def_lines(*symbol));
        },
    }
    let content = join_strs(&lines, "\n");
    (file_path, content)
}

/// The declaration files of the symbols, in order: those of the classes
/// whose directory starts with `sap`.
pub open spec fn type_defs(syms: Seq<Symbol>) -> Seq<(Seq<char>, Seq<char>, Seq<char>)>
    decreases syms.len(),
{
    if syms.len() == 0 {
        Seq::empty()
    } else {
        let rest = type_defs(syms.drop_last());
        let s = syms.last();
        if s.kind is Class && starts_with(def_path(s.module@), "sap"@) {
            rest.push(type_def(s))
        } else {
            rest
        }
    }
}

/// Every symbol's declaration can be generated without a panic.
pub open spec fn symbols_convertible(syms: Seq<Symbol>) -> bool {
    forall|i: int| 0 <= i < syms.len() ==> symbol_convertible(#[trigger] syms[i])
}

/// The declaration files for the classes among the symbols whose directory
/// starts with `sap`, in the order of the symbols.
pub fn extract_type_defs(symbols: &[Symbol]) -> (r: Vec<(FilePath, String)>)
    requires
        symbols_convertible(symbols@),
    ensures
        r@.map_values(|x: (FilePath, String)| def_view(x)) == type_defs(symbols@),
{
    let mut out: Vec<(FilePath, String)> = Vec::new();
    let mut i: usize = 0;
    assert(symbols@.take(0) =~= Seq::<Symbol>::empty());
    while i < symbols.len()
        invariant
            i <= symbols@.len(),
            symbols_convertible(symbols@),
            out@.map_values(|x: (FilePath, String)| def_view(x)) == type_defs(
                symbols@.take(i as int),
            ),
        decreases symbols@.len() - i,
    {
        let symb = &symbols[i];
        assert(symbols@.take(i + 1).drop_last() =~= symbols@.take(i as int));
        assert(symbols@.take(i + 1).last() == symbols@[i as int]);
        if symb.kind == Kinds::Class {
            assert(symbol_convertible(symbols@[i as int]));
            let def = extract_type_def(symb);
            if starts_with_str(def.0.path.as_str(), "sap") {
                let ghost prev = out@;
                out.push(def);
                assert(out@.map_values(|x: (FilePath, String)| def_view(x)) =~= prev.map_values(
                    |x: (FilePath, String)| def_view(x),
                ).push(def_view(def)));
            }
        }
        i = i + 1;
    }
    assert(symbols@.take(symbols@.len() as int) =~= symbols@);
    out
}


// ---------------------------------------------------------------------------
// Checks for the panicking input
// ---------------------------------------------------------------------------
/// Whether translating the single type `t` would panic.
pub fn type_panics(t: &str) -> (r: bool)
    ensures
        r == ts_type_panics(t@),
{
    let tt = trim_str(t);
    if starts_with_str(tt, "sap") || !starts_with_str(tt, "Promise.") {
        return false;
    }
    match (find_char(t, '<'), find_char(t, '>')) {
        (Some(a), Some(b)) => b < a,
        _ => false,
    }
}

/// Whether the `|`-separated type expression can be translated without a panic.
pub fn types_can_convert(ts: &str) -> (r: bool)
    ensures
        r == types_convertible(ts@),
{
    let parts = split_str(ts, '|');
    let mut i: usize = 0;
    while i < parts.len()
        invariant
            i <= parts@.len(),
            views(parts@) == split(ts@, '|'),
            forall|k: int| 0 <= k < i ==> !ts_type_panics(#[trigger] split(ts@, '|')[k]),
        decreases parts@.len() - i,
    {
        assert(views(parts@)[i as int] == parts@[i as int]@);
        if type_panics(parts[i].as_str()) {
            return false;
        }
        i = i + 1;
    }
    true
}

/// Whether every parameter of the list can be translated without a panic.
pub fn params_can_convert(params: &Option<Vec<Parameter>>) -> (r: bool)
    ensures
        r == params_convertible(params_view(*params)),
{
    match params {
        Some(ps) => {
            assert(params_view(*params) == Some(ps@));
            let mut i: usize = 0;
            while i < ps.len()
                invariant
                    i <= ps@.len(),
                    params_view(*params) == Some(ps@),
                    forall|k: int| 0 <= k < i ==> param_convertible(#[trigger] ps@[k]),
                decreases ps@.len() - i,
            {
                if !types_can_convert(ps[i]._type.as_str()) {
                    assert(!param_convertible(ps@[i as int]));
                    assert(!params_convertible(Some(ps@)));
                    return false;
                }
                i = i + 1;
            }
            true
        },
        None => true,
    }
}

/// Whether a method's parameter and return types can be translated without a panic.
pub fn method_can_convert(m: &Method) -> (r: bool)
    ensures
        r == method_convertible(*m),
{
    if !params_can_convert(&m.parameters) {
        return false;
    }
    match &m.return_value {
        Some(v) => match &v._type {
            Some(t) => types_can_convert(t.as_str()),
            None => true,
        },
        None => true,
    }
}

/// Whether the declaration of the symbol can be generated without a panic.
pub fn symbol_can_convert(s: &Symbol) -> (r: bool)
    ensures
        r == symbol_convertible(*s),
{
    if s.kind != Kinds::Class {
        return true;
    }
    if let Some(k) = &s.constructor {
        let params = match &k.parameters {
            Some(mp) => Some(mp.to_vec()),
            None => None,
        };
        assert(params_view(params) == ctor_params(*k));
        if !params_can_convert(&params) {
            return false;
        }
    }
    match &s.methods {
        Some(ms) => {
            assert(s.methods == Some(*ms));
            let mut i: usize = 0;
            while i < ms.len()
                invariant
                    i <= ms@.len(),
                    s.methods == Some(*ms),
                    s.kind is Class,
                    forall|k: int| 0 <= k < i ==> method_convertible(#[trigger] ms@[k]),
                decreases ms@.len() - i,
            {
                if !method_can_convert(&ms[i]) {
                    assert(!method_convertible(ms@[i as int]));
                    assert(!symbol_convertible(*s));
                    return false;
                }
                i = i + 1;
            }
            true
        },
        None => true,
    }
}

/// Whether the declarations of all the symbols can be generated without a panic.
pub fn symbols_can_convert(symbols: &[Symbol]) -> (r: bool)
    ensures
        r == symbols_convertible(symbols@),
{
    let mut i: usize = 0;
    while i < symbols.len()
        invariant
            i <= symbols@.len(),
            forall|k: int| 0 <= k < i ==> symbol_convertible(#[trigger] symbols@[k]),
        decreases symbols@.len() - i,
    {
        if !symbol_can_convert(&symbols[i]) {
            return false;
        }
        i = i + 1;
    }
    true
}

// ---------------------------------------------------------------------------
// Echoed types
// ---------------------------------------------------------------------------
/// The type texts that translating the single type `t` echoes, in order:
/// `t` itself, as written, when it is a `Promise.` type, followed by those
/// echoed while translating the text between its brackets.
pub open spec fn type_echo(t: Seq<char>) -> Seq<Seq<char>>
    decreases t.len(), 0nat, 0nat,
{
    let tt = trim(t);
    if !starts_with(tt, "sap"@) && starts_with(tt, "Promise."@) {
        match (first_index(t, '<'), first_index(t, '>')) {
            (Some(a), Some(b)) => {
                if 0 <= a <= b < t.len() {
                    seq![t] + types_echo(t.subrange(a, b))
                } else {
                    seq![t]
                }
            },
            _ => seq![t],
        }
    } else {
        Seq::<Seq<char>>::empty()
    }
}

/// The texts echoed while translating the pieces, in order (each piece no
/// longer than `bound`).
pub open spec fn echo_list(parts: Seq<Seq<char>>, bound: nat) -> Seq<Seq<char>>
    decreases bound, 1nat, parts.len(),
{
    if parts.len() == 0 {
        Seq::<Seq<char>>::empty()
    } else {
        let rest = echo_list(parts.drop_last(), bound);
        if parts.last().len() <= bound {
            rest + type_echo(parts.last())
        } else {
            rest
        }
    }
}

/// The type texts that translating a `|`-separated type expression echoes:
/// those of its alternatives, in order.
pub open spec fn types_echo(ts: Seq<char>) -> Seq<Seq<char>>
    decreases ts.len(), 2nat, 0nat,
{
    echo_list(split(ts, '|'), ts.len())
}

/// The type texts that translating the parameters echoes, in order.
pub open spec fn param_seq_echo(ps: Seq<Parameter>) -> Seq<Seq<char>>
    decreases ps.len(),
{
    if ps.len() == 0 {
        Seq::<Seq<char>>::empty()
    } else {
        param_seq_echo(ps.drop_last()) + types_echo(ps.last()._type@)
    }
}

/// The type texts that translating an optional parameter list echoes.
pub open spec fn params_echo(params: Option<Seq<Parameter>>) -> Seq<Seq<char>> {
    match params {
        Some(ps) => param_seq_echo(ps),
        None => Seq::<Seq<char>>::empty(),
    }
}

/// The type texts that translating a method echoes: those of its return
/// type (translated first), then those of its parameters.
pub open spec fn method_echo(m: Method) -> Seq<Seq<char>> {
    let ret = match m.return_value {
        Some(v) => match v._type {
            Some(t) => types_echo(t@),
            None => Seq::<Seq<char>>::empty(),
        },
        None => Seq::<Seq<char>>::empty(),
    };
    ret + params_echo(params_view(m.parameters))
}

/// The type texts that translating the methods echoes, in order.
pub open spec fn method_seq_echo(ms: Seq<Method>) -> Seq<Seq<char>>
    decreases ms.len(),
{
    if ms.len() == 0 {
        Seq::<Seq<char>>::empty()
    } else {
        method_seq_echo(ms.drop_last()) + method_echo(ms.last())
    }
}

/// The type texts that generating a symbol's declaration echoes: for a
/// class, those of its constructor, then those of its methods; nothing
/// for any other kind.
pub open spec fn symbol_echo(s: Symbol) -> Seq<Seq<char>> {
    if s.kind is Class {
        let ctor = match s.constructor {
            Some(k) => params_echo(ctor_params(k)),
            None => Seq::<Seq<char>>::empty(),
        };
        let meths = match s.methods {
            Some(ms) => method_seq_echo(ms@),
            None => Seq::<Seq<char>>::empty(),
        };
        ctor + meths
    } else {
        Seq::<Seq<char>>::empty()
    }
}

/// The type texts that `extract_type_defs` echoes for the symbols, in order.
pub open spec fn symbol_seq_echo(syms: Seq<Symbol>) -> Seq<Seq<char>>
    decreases syms.len(),
{
    if syms.len() == 0 {
        Seq::<Seq<char>>::empty()
    } else {
        symbol_seq_echo(syms.drop_last()) + symbol_echo(syms.last())
    }
}

/// The type texts that translating the single type `ui5_type` echoes.
pub fn echoes_of_type(ui5_type: &str) -> (r: Vec<String>)
    ensures
        views(r@) == type_echo(ui5_type@),
    decreases ui5_type@.len(), 0nat,
{
    let mut r: Vec<String> = Vec::new();
    let tt = trim_str(ui5_type);
    if starts_with_str(tt, "sap") || !starts_with_str(tt, "Promise.") {
        assert(views(r@) =~= type_echo(ui5_type@));
        return r;
    }
    r.push(String::from_str(ui5_type));
    assert(views(r@) =~= seq![ui5_type@]);
    match (find_char(ui5_type, '<'), find_char(ui5_type, '>')) {
        (Some(a), Some(b)) => {
            if a <= b {
                let inner = ui5_type.substring_char(a, b);
                let mut more = echoes_of_types(inner);
                let ghost prev = r@;
                let ghost rest = more@;
                r.append(&mut more);
                assert(views(r@) =~= views(prev) + views(rest));
            }
        },
        _ => {},
    }
    r
}

/// The type texts that translating the `|`-separated type expression echoes.
pub fn echoes_of_types(ui5_types: &str) -> (r: Vec<String>)
    ensures
        views(r@) == types_echo(ui5_types@),
    decreases ui5_types@.len(), 1nat,
{
    let parts = split_str(ui5_types, '|');
    let ghost pv = views(parts@);
    let ghost bound = ui5_types@.len();
    proof {
        lemma_split_parts(ui5_types@, '|');
    }
    let mut out: Vec<String> = Vec::new();
    let mut i: usize = 0;
    assert(pv.take(0) =~= Seq::<Seq<char>>::empty());
    while i < parts.len()
        invariant
            i <= parts@.len(),
            pv == views(parts@),
            pv == split(ui5_types@, '|'),
            bound == ui5_types@.len(),
            forall|k: int| 0 <= k < pv.len() ==> (#[trigger] pv[k]).len() <= bound,
            views(out@) == echo_list(pv.take(i as int), bound),
        decreases parts@.len() - i,
    {
        assert(pv[i as int] == parts@[i as int]@);
        assert(pv[i as int].len() <= bound);
        let mut more = echoes_of_type(parts[i].as_str());
        let ghost prev = out@;
        let ghost rest = more@;
        out.append(&mut more);
        assert(pv.take(i + 1).drop_last() =~= pv.take(i as int));
        assert(pv.take(i + 1).last() == pv[i as int]);
        assert(views(out@) =~= views(prev) + views(rest));
        i = i + 1;
    }
    assert(pv.take(parts@.len() as int) =~= pv);
    out
}

/// The type texts that translating an optional parameter list echoes.
pub fn echoes_of_params(params: &Option<Vec<Parameter>>) -> (r: Vec<String>)
    ensures
        views(r@) == params_echo(params_view(*params)),
{
    let mut out: Vec<String> = Vec::new();
    match params {
        Some(ps) => {
            assert(params_view(*params) == Some(ps@));
            let mut i: usize = 0;
            assert(ps@.take(0) =~= Seq::<Parameter>::empty());
            while i < ps.len()
                invariant
                    i <= ps@.len(),
                    views(out@) == param_seq_echo(ps@.take(i as int)),
                decreases ps@.len() - i,
            {
                let mut more = echoes_of_types(ps[i]._type.as_str());
                let ghost prev = out@;
                let ghost rest = more@;
                out.append(&mut more);
                assert(ps@.take(i + 1).drop_last() =~= ps@.take(i as int));
                assert(ps@.take(i + 1).last() == ps@[i as int]);
                assert(views(out@) =~= views(prev) + views(rest));
                i = i + 1;
            }
            assert(ps@.take(ps@.len() as int) =~= ps@);
        },
        None => {
            assert(views(out@) =~= Seq::<Seq<char>>::empty());
        },
    }
    out
}

/// The type texts that translating a method echoes.
pub fn echoes_of_method(m: &Method) -> (r: Vec<String>)
    ensures
        views(r@) == method_echo(*m),
{
    let mut out: Vec<String> = match &m.return_value {
        Some(v) => match &v._type {
            Some(t) => echoes_of_types(t.as_str()),
            None => Vec::new(),
        },
        None => Vec::new(),
    };
    let mut more = echoes_of_params(&m.parameters);
    let ghost prev = out@;
    let ghost rest = more@;
    out.append(&mut more);
    assert(views(out@) =~= views(prev) + views(rest));
    assert(views(prev) =~= match m.return_value {
        Some(v) => match v._type {
            Some(t) => types_echo(t@),
            None => Seq::<Seq<char>>::empty(),
        },
        None => Seq::<Seq<char>>::empty(),
    });
    out
}

/// The type texts that generating the symbol's declaration echoes.
pub fn echoes_of_symbol(s: &Symbol) -> (r: Vec<String>)
    ensures
        views(r@) == symbol_echo(*s),
{
    let mut out: Vec<String> = Vec::new();
    if s.kind != Kinds::Class {
        assert(views(out@) =~= symbol_echo(*s));
        return out;
    }
    if let Some(k) = &s.constructor {
        let params = match &k.parameters {
            Some(mp) => Some(mp.to_vec()),
            None => None,
        };
        assert(params_view(params) == ctor_params(*k));
        out = echoes_of_params(&params);
    }
    let ghost ctor = views(out@);
    assert(ctor == match s.constructor {
        Some(k) => params_echo(ctor_params(k)),
        None => Seq::<Seq<char>>::empty(),
    });
    if let Some(ms) = &s.methods {
        let mut i: usize = 0;
        assert(ms@.take(0) =~= Seq::<Method>::empty());
        assert(views(out@) =~= ctor + method_seq_echo(ms@.take(0)));
        while i < ms.len()
            invariant
                i <= ms@.len(),
                views(out@) == ctor + method_seq_echo(ms@.take(i as int)),
            decreases ms@.len() - i,
        {
            let mut more = echoes_of_method(&ms[i]);
            let ghost prev = out@;
            let ghost rest = more@;
            out.append(&mut more);
            assert(ms@.take(i + 1).drop_last() =~= ms@.take(i as int));
            assert(ms@.take(i + 1).last() == ms@[i as int]);
            assert(views(out@) =~= views(prev) + views(rest));
            i = i + 1;
        }
        assert(ms@.take(ms@.len() as int) =~= ms@);
    } else {
        assert(views(out@) =~= ctor + Seq::<Seq<char>>::empty());
    }
    out
}

/// The type texts that `extract_type_defs` echoes while generating the
/// declarations of the symbols, in order.
pub fn echoes_of_symbols(symbols: &[Symbol]) -> (r: Vec<String>)
    ensures
        views(r@) == symbol_seq_echo(symbols@),
{
    let mut out: Vec<String> = Vec::new();
    let mut i: usize = 0;
    assert(symbols@.take(0) =~= Seq::<Symbol>::empty());
    while i < symbols.len()
        invariant
            i <= symbols@.len(),
            views(out@) == symbol_seq_echo(symbols@.take(i as int)),
        decreases symbols@.len() - i,
    {
        let mut more = echoes_of_symbol(&symbols[i]);
        let ghost prev = out@;
        let ghost rest = more@;
        out.append(&mut more);
        assert(symbols@.take(i + 1).drop_last() =~= symbols@.take(i as int));
        assert(symbols@.take(i + 1).last() == symbols@[i as int]);
        assert(views(out@) =~= views(prev) + views(rest));
        i = i + 1;
    }
    assert(symbols@.take(symbols@.len() as int) =~= symbols@);
    out
}

} // verus!
