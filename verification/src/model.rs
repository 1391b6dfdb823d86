//! The symbols of a UI5 `api.json` document, as plain data.
use vstd::prelude::*;
use crate::text::{last_segment, last_segment_str};

verus! {

/// How a UI5 symbol or member is exposed.
#[derive(Clone, Copy, Debug, PartialEq, Eq, Structural)]
pub enum Visibility {
    Public,
    Private,
    Protected,
    Hidden,
    Restricted,
}

/// The kind of a UI5 symbol.
#[derive(Clone, Copy, Debug, PartialEq, Eq, Structural)]
pub enum Kinds {
    Namespace,
    Class,
    Enum,
    Interface,
    Function,
    Typedef,
}

/// Where a generated declaration file goes: a directory and a file name.
#[derive(Debug)]
pub struct FilePath {
    pub path: String,
    pub file_name: String,
}

/// An aggregation or association of a UI5 control.
#[derive(Debug)]
pub struct Aggregations {
    pub name: String,
    pub singular_name: String,
    pub _type: String,
    pub cardinality: String,
    pub visibility: Visibility,
    pub methods: Vec<String>,
    pub since: Option<String>,
}

/// The parameters of a constructor: written either as one parameter or as a list.
#[derive(Debug)]
pub enum MultiParam {
    Param(Parameter),
    Multi(Vec<Parameter>),
}

/// The constructor of a class.
#[derive(Debug)]
pub struct Constructor {
    pub visibility: Visibility,
    pub parameters: Option<MultiParam>,
    pub description: Option<String>,
}

/// A deprecation or experimental note.
#[derive(Debug)]
pub struct Deprecated {
    pub since: Option<String>,
    pub text: Option<String>,
}

/// An event of a UI5 control.
#[derive(Debug)]
pub struct Events {
    pub name: String,
    pub visibility: Visibility,
    pub methods: Option<Vec<String>>,
}

/// A named, typed entry of a parameter's properties.
#[derive(Debug)]
pub struct GetSource {
    pub name: String,
    pub _type: String,
    pub optional: bool,
}

/// A method of a class.
#[derive(Debug)]
pub struct Method {
    pub name: String,
    pub visibility: Visibility,
    pub return_value: Option<ReturnValue>,
    pub parameters: Option<Vec<Parameter>>,
    pub since: Option<String>,
    pub _static: Option<bool>,
}

/// The properties that a parameter object carries.
#[derive(Debug)]
pub struct ParameterProperties {
    pub get_source: Option<GetSource>,
    pub get_parameters: Option<GetSource>,
}

/// A parameter of a method or constructor.
#[derive(Debug)]
pub struct Parameter {
    pub name: String,
    pub _type: String,
    pub optional: bool,
    pub description: Option<String>,
    pub parameter_properties: Option<ParameterProperties>,
}

/// A property of a symbol.
#[derive(Debug)]
pub struct Properties {
    pub name: String,
    pub visibility: Visibility,
    pub _static: Option<bool>,
    pub _type: String,
    pub group: Option<String>,
    pub default_value: Option<bool>,
    pub methods: Option<Vec<String>>,
    pub since: Option<String>,
}

/// The declared return type of a method.
#[derive(Debug)]
pub struct ReturnValue {
    pub _type: Option<String>,
}

/// A whole `api.json` document.
#[derive(Debug)]
pub struct RootInterface {
    pub schema_ref: String,
    pub version: String,
    pub library: String,
    pub symbols: Vec<Symbol>,
}

/// One documented symbol: a namespace, class, enum, interface, function or typedef.
#[derive(Debug)]
pub struct Symbol {
    pub kind: Kinds,
    pub name: String,
    pub basename: String,
    pub resource: String,
    pub module: String,
    pub export: Option<String>,
    pub _static: Option<bool>,
    pub visibility: Visibility,
    pub properties: Option<Vec<Properties>>,
    pub methods: Option<Vec<Method>>,
    pub extends: Option<String>,
    pub ui_5_metamodel: Option<bool>,
    pub ui_5_metadata: Option<Ui5Metadata>,
    pub constructor: Option<Constructor>,
    pub since: Option<String>,
    pub events: Option<Vec<Events>>,
    pub implements: Option<Vec<String>>,
    pub _abstract: Option<bool>,
    pub deprecated: Option<Deprecated>,
    pub experimental: Option<Deprecated>,
    pub references: Option<Vec<String>>,
    pub _final: Option<bool>,
}

/// The UI5 control metadata of a symbol.
#[derive(Debug)]
pub struct Ui5Metadata {
    pub stereotype: Option<String>,
    pub properties: Option<Vec<Properties>>,
    pub aggregations: Option<Vec<Aggregations>>,
    pub default_aggregation: Option<String>,
    pub associations: Option<Vec<Aggregations>>,
    pub events: Option<Vec<Events>>,
}

/// A copy of an optional string.
fn copy_opt_string(o: &Option<String>) -> (r: Option<String>)
    ensures
        r == *o,
{
    match o {
        Some(s) => Some(s.clone()),
        None => None,
    }
}

impl Clone for FilePath {
    fn clone(&self) -> (r: Self)
        ensures
            r == *self,
    {
        FilePath { path: self.path.clone(), file_name: self.file_name.clone() }
    }
}

impl Clone for GetSource {
    fn clone(&self) -> (r: Self)
        ensures
            r == *self,
    {
        GetSource { name: self.name.clone(), _type: self._type.clone(), optional: self.optional }
    }
}

/// A copy of an optional `GetSource`.
fn copy_opt_get_source(o: &Option<GetSource>) -> (r: Option<GetSource>)
    ensures
        r == *o,
{
    match o {
        Some(g) => Some(g.clone()),
        None => None,
    }
}

impl Clone for ParameterProperties {
    fn clone(&self) -> (r: Self)
        ensures
            r == *self,
    {
        ParameterProperties {
            get_source: copy_opt_get_source(&self.get_source),
            get_parameters: copy_opt_get_source(&self.get_parameters),
        }
    }
}

impl Clone for Parameter {
    fn clone(&self) -> (r: Self)
        ensures
            r == *self,
    {
        let parameter_properties = match &self.parameter_properties {
            Some(p) => Some(p.clone()),
            None => None,
        };
        Parameter {
            name: self.name.clone(),
            _type: self._type.clone(),
            optional: self.optional,
            description: copy_opt_string(&self.description),
            parameter_properties,
        }
    }
}

/// The TypeScript access modifier that stands for a UI5 visibility.
pub open spec fn ts_visibility(v: Visibility) -> Seq<char> {
    match v {
        Visibility::Public => "public"@,
        _ => "private"@,
    }
}

impl Visibility {
    /// TypeScript keeps only `public`; every other UI5 visibility becomes `private`.
    pub fn to_ts_visibility(&self) -> (r: &str)
        ensures
            r@ == ts_visibility(*self),
    {
        match self {
            Visibility::Public => "public",
            Visibility::Private => "private",
            Visibility::Protected => "private",
            Visibility::Hidden => "private",
            Visibility::Restricted => "private",
        }
    }
}

impl FilePath {
    /// The directory and the file name, joined by `/`.
    pub fn full_path(&self) -> (r: String)
        ensures
            r@ == self.path@ + "/"@ + self.file_name@,
    {
        let mut r = String::from_str(self.path.as_str());
        r.append("/");
        r.append(self.file_name.as_str());
        r
    }
}

/// The parameters of a constructor, as a list.
pub open spec fn multi_params(mp: MultiParam) -> Seq<Parameter> {
    match mp {
        MultiParam::Param(p) => seq![p],
        MultiParam::Multi(ps) => ps@,
    }
}

impl MultiParam {
    /// The parameters as a list: the single parameter alone, or a copy of the list.
    pub fn to_vec(&self) -> (r: Vec<Parameter>)
        ensures
            r@ == multi_params(*self),
    {
        match self {
            MultiParam::Param(param) => {
                let mut v: Vec<Parameter> = Vec::new();
                v.push(param.clone());
                assert(v@ =~= seq![*param]);
                v
            },
            MultiParam::Multi(params) => {
                let mut v: Vec<Parameter> = Vec::new();
                let mut i: usize = 0;
                while i < params.len()
                    invariant
                        i <= params@.len(),
                        v@ == params@.take(i as int),
                    decreases params@.len() - i,
                {
                    v.push(params[i].clone());
                    assert(v@ =~= params@.take(i + 1));
                    i = i + 1;
                }
                assert(params@.take(params@.len() as int) =~= params@);
                v
            },
        }
    }
}

/// The short name of a symbol: its base name after the last `/`.
pub open spec fn symbol_name(s: Symbol) -> Seq<char> {
    last_segment(s.basename@, '/')
}

impl Symbol {
    /// The short name of the symbol: its base name after the last `/`.
    pub fn get_name(&self) -> (r: String)
        ensures
            r@ == symbol_name(*self),
    {
        last_segment_str(self.basename.as_str(), '/')
    }
}

} // verus!
