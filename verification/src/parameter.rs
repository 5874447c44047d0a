//! Parameter clause parser.
//!
//! A clause is the comma-separated sub-expression that describes one request
//! parameter:
//!
//! * `"id" = String, path, deprecated, description = "Users database id"`
//! * `"id", path, deprecated, description = "Users database id"`
//!
//! The leading string literal names the parameter and must not be empty; an
//! optional `= type` attaches a type reference (parsed by an external
//! type-reference parser and carried through as one token); after a mandatory
//! comma follow attributes: a location keyword (`path`, `query`, `header`,
//! `cookie`), `deprecated` (optionally `= true`/`= false`; alone it means
//! `true`), and `description = "..."`. A comma after an attribute is consumed
//! when present but never required between two attributes, which the grammar
//! knowingly leaves loose. A malformed clause is a [`SpannedError`]: the
//! error and the index of the token it was detected at, for diagnostics.

use vstd::prelude::*;
use vstd::string::*;

use crate::strutil::str_eq;

verus! {

/// Where a request parameter lives.
#[derive(Clone, Copy, PartialEq, Eq, Structural, Debug)]
pub enum ParameterIn {
    Query,
    Path,
    Header,
    Cookie,
}

impl Default for ParameterIn {
    /// A clause that never names a location keyword defaults to `Path`.
    fn default() -> (r: Self)
        ensures
            r == ParameterIn::Path,
    {
        ParameterIn::Path
    }
}

/// A reference to the parameter's type, produced by an external
/// type-reference parser and only carried through.
#[derive(Debug, PartialEq, Eq)]
pub struct TypeRef {
    pub ty: String,
    pub is_array: bool,
    pub is_option: bool,
}

/// The ghost image of a [`TypeRef`].
pub struct TypeModel {
    pub ty: Seq<char>,
    pub is_array: bool,
    pub is_option: bool,
}

impl View for TypeRef {
    type V = TypeModel;

    open spec fn view(&self) -> TypeModel {
        TypeModel { ty: self.ty@, is_array: self.is_array, is_option: self.is_option }
    }
}

impl TypeRef {
    /// A plain, non-array, non-optional reference to the named type.
    pub fn new(ident: &str) -> (r: TypeRef)
        ensures
            r@ == (TypeModel { ty: ident@, is_array: false, is_option: false }),
    {
        TypeRef { ty: String::from_str(ident), is_array: false, is_option: false }
    }
}

/// One token of a parameter clause, as the host-syntax adapter hands it over.
pub enum ClauseToken {
    /// A string literal, already unescaped to its value.
    StrLit(String),
    /// A bare identifier.
    Ident(String),
    /// A boolean literal.
    BoolLit(bool),
    /// The `=` punctuation.
    Equals,
    /// The `,` punctuation.
    Comma,
    /// A type reference, parsed by the external type-reference parser.
    TypeRef(TypeRef),
}

/// The ghost image of a [`ClauseToken`].
pub enum TokenModel {
    StrLit(Seq<char>),
    Ident(Seq<char>),
    BoolLit(bool),
    Equals,
    Comma,
    TypeRef(TypeModel),
}

impl View for ClauseToken {
    type V = TokenModel;

    open spec fn view(&self) -> TokenModel {
        match self {
            ClauseToken::StrLit(s) => TokenModel::StrLit(s@),
            ClauseToken::Ident(s) => TokenModel::Ident(s@),
            ClauseToken::BoolLit(b) => TokenModel::BoolLit(*b),
            ClauseToken::Equals => TokenModel::Equals,
            ClauseToken::Comma => TokenModel::Comma,
            ClauseToken::TypeRef(t) => TokenModel::TypeRef(t@),
        }
    }
}

impl DeepView for ClauseToken {
    type V = TokenModel;

    open spec fn deep_view(&self) -> TokenModel {
        self.view()
    }
}

/// A malformed clause: the parse stops at the first of these.
#[derive(Debug, PartialEq, Eq, Clone)]
pub enum SyntaxError {
    /// The clause does not start with a string literal naming the parameter.
    ExpectedName,
    /// The name literal is empty: a parameter must bear a non-empty name.
    EmptyName,
    /// `=` after the name is not followed by a type reference.
    ExpectedType,
    /// The comma after the name (and optional type) is missing.
    ExpectedComma,
    /// An attribute was expected but no identifier found.
    ExpectedIdent,
    /// `description` is not followed by `=`.
    ExpectedEqual,
    /// `description =` is not followed by a string literal.
    ExpectedDescription,
    /// An identifier that is no known attribute keyword.
    UnknownAttribute(String),
    /// A string that is no location keyword.
    UnknownParameterIn(String),
}

/// The ghost image of a [`SyntaxError`].
pub enum ErrorModel {
    ExpectedName,
    EmptyName,
    ExpectedType,
    ExpectedComma,
    ExpectedIdent,
    ExpectedEqual,
    ExpectedDescription,
    UnknownAttribute(Seq<char>),
    UnknownParameterIn(Seq<char>),
}

impl View for SyntaxError {
    type V = ErrorModel;

    open spec fn view(&self) -> ErrorModel {
        match self {
            SyntaxError::ExpectedName => ErrorModel::ExpectedName,
            SyntaxError::EmptyName => ErrorModel::EmptyName,
            SyntaxError::ExpectedType => ErrorModel::ExpectedType,
            SyntaxError::ExpectedComma => ErrorModel::ExpectedComma,
            SyntaxError::ExpectedIdent => ErrorModel::ExpectedIdent,
            SyntaxError::ExpectedEqual => ErrorModel::ExpectedEqual,
            SyntaxError::ExpectedDescription => ErrorModel::ExpectedDescription,
            SyntaxError::UnknownAttribute(s) => ErrorModel::UnknownAttribute(s@),
            SyntaxError::UnknownParameterIn(s) => ErrorModel::UnknownParameterIn(s@),
        }
    }
}

/// A syntax error together with the index of the clause token it was
/// detected at (the clause's token count when the input ended too early), so
/// that a caller can point its diagnostic at the offending token.
#[derive(Debug, PartialEq, Eq, Clone)]
pub struct SpannedError {
    pub error: SyntaxError,
    pub at: usize,
}

/// The ghost image of a [`SpannedError`].
pub struct SpannedModel {
    pub error: ErrorModel,
    pub at: int,
}

impl View for SpannedError {
    type V = SpannedModel;

    open spec fn view(&self) -> SpannedModel {
        SpannedModel { error: self.error@, at: self.at as int }
    }
}

/// The human-readable text of each error.
pub open spec fn message_spec(e: ErrorModel) -> Seq<char> {
    match e {
        ErrorModel::ExpectedName => "unparseable parameter name, expected literal string"@,
        ErrorModel::EmptyName => "unparseable parameter name, expected non-empty literal string"@,
        ErrorModel::ExpectedType => "unparseable parameter type expected: identifier or identifier within brackets"@,
        ErrorModel::ExpectedComma => "expected comma after literal string"@,
        ErrorModel::ExpectedIdent => "unparseable Parameter, expected identifier"@,
        ErrorModel::ExpectedEqual => "expected = followed by an attribute value"@,
        ErrorModel::ExpectedDescription => "unparseable description, expected literal string"@,
        ErrorModel::UnknownAttribute(id) => "unexpected identifier: "@ + id
            + ", expected any of: path, query, header, cookie, deprecated, description"@,
        ErrorModel::UnknownParameterIn(s) => "unexpected str: "@ + s
            + ", expected one of: path, query, header, cookie"@,
    }
}

impl SyntaxError {
    /// Renders the error as the message the generation pass aborts with.
    pub fn message(&self) -> (r: String)
        ensures
            r@ == message_spec(self@),
    {
        match self {
            SyntaxError::ExpectedName => String::from_str(
                "unparseable parameter name, expected literal string",
            ),
            SyntaxError::EmptyName => String::from_str(
                "unparseable parameter name, expected non-empty literal string",
            ),
            SyntaxError::ExpectedType => String::from_str(
                "unparseable parameter type expected: identifier or identifier within brackets",
            ),
            SyntaxError::ExpectedComma => String::from_str("expected comma after literal string"),
            SyntaxError::ExpectedIdent => String::from_str(
                "unparseable Parameter, expected identifier",
            ),
            SyntaxError::ExpectedEqual => String::from_str(
                "expected = followed by an attribute value",
            ),
            SyntaxError::ExpectedDescription => String::from_str(
                "unparseable description, expected literal string",
            ),
            SyntaxError::UnknownAttribute(id) => String::from_str("unexpected identifier: ")
                .concat(id.as_str()).concat(
                ", expected any of: path, query, header, cookie, deprecated, description",
            ),
            SyntaxError::UnknownParameterIn(s) => String::from_str("unexpected str: ").concat(
                s.as_str(),
            ).concat(", expected one of: path, query, header, cookie"),
        }
    }
}

/// Whether an identifier is one of the four location keywords.
pub open spec fn is_location_keyword(id: Seq<char>) -> bool {
    id == "path"@ || id == "query"@ || id == "header"@ || id == "cookie"@
}

/// The location a keyword names; [`ParameterIn::Path`] for `"path"` and so
/// on.
pub open spec fn location_of(id: Seq<char>) -> ParameterIn {
    if id == "path"@ {
        ParameterIn::Path
    } else if id == "query"@ {
        ParameterIn::Query
    } else if id == "header"@ {
        ParameterIn::Header
    } else {
        ParameterIn::Cookie
    }
}

impl ParameterIn {
    /// Parses a location keyword; every other string is an error naming it.
    pub fn from_str(s: &str) -> (r: Result<ParameterIn, SyntaxError>)
        ensures
            match r {
                Ok(p) => is_location_keyword(s@) && p == location_of(s@),
                Err(e) => !is_location_keyword(s@) && e@ == ErrorModel::UnknownParameterIn(s@),
            },
    {
        if str_eq(s, "path") {
            Ok(ParameterIn::Path)
        } else if str_eq(s, "query") {
            Ok(ParameterIn::Query)
        } else if str_eq(s, "header") {
            Ok(ParameterIn::Header)
        } else if str_eq(s, "cookie") {
            Ok(ParameterIn::Cookie)
        } else {
            Err(SyntaxError::UnknownParameterIn(String::from_str(s)))
        }
    }
}

/// A request parameter as one clause describes it: its name, where it lives,
/// whether it is deprecated, its free-text description and its type
/// reference, the latter two optional.
#[derive(Debug, PartialEq, Eq)]
pub struct Parameter {
    pub name: String,
    pub parameter_in: ParameterIn,
    pub deprecated: bool,
    pub description: Option<String>,
    pub parameter_type: Option<TypeRef>,
}

/// The ghost image of a [`Parameter`].
pub struct ParamModel {
    pub name: Seq<char>,
    pub parameter_in: ParameterIn,
    pub deprecated: bool,
    pub description: Option<Seq<char>>,
    pub parameter_type: Option<TypeModel>,
}

impl View for Parameter {
    type V = ParamModel;

    open spec fn view(&self) -> ParamModel {
        ParamModel {
            name: self.name@,
            parameter_in: self.parameter_in,
            deprecated: self.deprecated,
            description: match &self.description {
                Some(d) => Some(d@),
                None => None,
            },
            parameter_type: match &self.parameter_type {
                Some(t) => Some(t@),
                None => None,
            },
        }
    }
}

/// The record a clause starts from: the given name and type, location
/// `Path`, not deprecated, no description.
pub open spec fn param_defaults(name: Seq<char>, ty: Option<TypeModel>) -> ParamModel {
    ParamModel {
        name,
        parameter_in: ParameterIn::Path,
        deprecated: false,
        description: None,
        parameter_type: ty,
    }
}

impl Default for Parameter {
    /// An unnamed, unadorned path parameter.
    fn default() -> (r: Self)
        ensures
            r@ == param_defaults(Seq::empty(), None),
    {
        Parameter {
            name: String::new(),
            parameter_in: ParameterIn::Path,
            deprecated: false,
            description: None,
            parameter_type: None,
        }
    }
}

/// One attribute read at the front of `toks` applied to `p`: the number of
/// tokens it consumes and the updated record, or the error it stops on.
/// `at` is the index the front of `toks` has in the whole clause, so that an
/// error can name the offending token.
pub open spec fn attr_step_spec(toks: Seq<TokenModel>, p: ParamModel, at: int) -> Result<
    (int, ParamModel),
    SpannedModel,
> {
    if toks.len() == 0 || !(toks[0] is Ident) {
        Err(SpannedModel { error: ErrorModel::ExpectedIdent, at })
    } else {
        let id = toks[0]->Ident_0;
        if is_location_keyword(id) {
            Ok((1, ParamModel { parameter_in: location_of(id), ..p }))
        } else if id == "deprecated"@ {
            if toks.len() >= 3 && toks[1] is Equals && toks[2] is BoolLit {
                Ok((3, ParamModel { deprecated: toks[2]->BoolLit_0, ..p }))
            } else {
                Ok((1, ParamModel { deprecated: true, ..p }))
            }
        } else if id == "description"@ {
            if toks.len() >= 2 && toks[1] is Equals {
                if toks.len() >= 3 && toks[2] is StrLit {
                    Ok((3, ParamModel { description: Some(toks[2]->StrLit_0), ..p }))
                } else {
                    Err(SpannedModel { error: ErrorModel::ExpectedDescription, at: at + 2 })
                }
            } else {
                Err(SpannedModel { error: ErrorModel::ExpectedEqual, at: at + 1 })
            }
        } else {
            Err(SpannedModel { error: ErrorModel::UnknownAttribute(id), at })
        }
    }
}

/// The attribute list: attributes applied in order, a comma consumed after
/// each when present, until no token remains.
pub open spec fn parse_attributes_spec(toks: Seq<TokenModel>, p: ParamModel, at: int) -> Result<
    ParamModel,
    SpannedModel,
>
    decreases toks.len(),
{
    match attr_step_spec(toks, p, at) {
        Err(e) => Err(e),
        Ok((k, p2)) => {
            let rest = toks.skip(k);
            let has_sep = rest.len() > 0 && rest[0] is Comma;
            let rest2 = if has_sep {
                rest.skip(1)
            } else {
                rest
            };
            let at2 = if has_sep {
                at + k + 1
            } else {
                at + k
            };
            if rest2.len() == 0 {
                Ok(p2)
            } else {
                parse_attributes_spec(rest2, p2, at2)
            }
        },
    }
}

/// The mandatory comma between the name part and the attribute list, then
/// the attribute list.
pub open spec fn parse_after_name_spec(toks: Seq<TokenModel>, p: ParamModel, at: int) -> Result<
    ParamModel,
    SpannedModel,
> {
    if toks.len() == 0 || !(toks[0] is Comma) {
        Err(SpannedModel { error: ErrorModel::ExpectedComma, at })
    } else {
        parse_attributes_spec(toks.skip(1), p, at + 1)
    }
}

/// A whole clause: the non-empty name literal, an optional `= type`, a
/// comma, the attribute list.
pub open spec fn parse_clause_spec(toks: Seq<TokenModel>) -> Result<ParamModel, SpannedModel> {
    if toks.len() == 0 || !(toks[0] is StrLit) {
        Err(SpannedModel { error: ErrorModel::ExpectedName, at: 0 })
    } else {
        let name = toks[0]->StrLit_0;
        if name.len() == 0 {
            Err(SpannedModel { error: ErrorModel::EmptyName, at: 0 })
        } else if toks.len() >= 2 && toks[1] is Equals {
            if toks.len() >= 3 && toks[2] is TypeRef {
                parse_after_name_spec(
                    toks.skip(3),
                    param_defaults(name, Some(toks[2]->TypeRef_0)),
                    3,
                )
            } else {
                Err(SpannedModel { error: ErrorModel::ExpectedType, at: 2 })
            }
        } else {
            parse_after_name_spec(toks.skip(1), param_defaults(name, None), 1)
        }
    }
}

pub open spec fn parse_result_models(
    r: Result<Parameter, SpannedError>,
    m: Result<ParamModel, SpannedModel>,
) -> bool {
    match r {
        Ok(p) => m == Ok::<ParamModel, SpannedModel>(p@),
        Err(e) => m == Err::<ParamModel, SpannedModel>(e@),
    }
}

impl Parameter {
    /// A parameter the caller already knows the type of: named, typed,
    /// located, with the other fields at their defaults.
    pub fn new(name: &str, parameter_type: &str, parameter_in: ParameterIn) -> (r: Self)
        ensures
            r@ == (ParamModel {
                name: name@,
                parameter_in,
                deprecated: false,
                description: None,
                parameter_type: Some(
                    TypeModel { ty: parameter_type@, is_array: false, is_option: false },
                ),
            }),
    {
        Parameter {
            name: String::from_str(name),
            parameter_in,
            deprecated: false,
            description: None,
            parameter_type: Some(TypeRef::new(parameter_type)),
        }
    }

    /// Replaces the type reference with a plain reference to `ident`, used
    /// when type inference happens after the clause was parsed; everything
    /// else stays.
    pub fn update_parameter_type(&mut self, ident: &str)
        ensures
            final(self)@ == (ParamModel {
                parameter_type: Some(
                    TypeModel { ty: ident@, is_array: false, is_option: false },
                ),
                ..old(self)@
            }),
    {
        self.parameter_type = Some(TypeRef::new(ident));
    }

    /// Parses one clause, as [`parse_clause_spec`] says: the returned record
    /// or the first syntax error, with the index of the token it was
    /// detected at.
    pub fn parse(tokens: &Vec<ClauseToken>) -> (r: Result<Parameter, SpannedError>)
        ensures
            parse_result_models(r, parse_clause_spec(tokens.deep_view())),
    {
        let ghost toks = tokens.deep_view();
        let n = tokens.len();
        if n == 0 {
            return Err(SpannedError { error: SyntaxError::ExpectedName, at: 0 });
        }
        let name = match &tokens[0] {
            ClauseToken::StrLit(s) => s.clone(),
            _ => {
                return Err(SpannedError { error: SyntaxError::ExpectedName, at: 0 });
            },
        };
        if name.as_str().is_empty() {
            return Err(SpannedError { error: SyntaxError::EmptyName, at: 0 });
        }
        let mut param = Parameter {
            name,
            parameter_in: ParameterIn::Path,
            deprecated: false,
            description: None,
            parameter_type: None,
        };
        let mut i: usize = 1;
        let mut is_equals = false;
        if n >= 2 {
            is_equals = match &tokens[1] {
                ClauseToken::Equals => true,
                _ => false,
            };
        }
        if is_equals {
            if n >= 3 {
                match &tokens[2] {
                    ClauseToken::TypeRef(t) => {
                        param.parameter_type = Some(
                            TypeRef { ty: t.ty.clone(), is_array: t.is_array, is_option: t.is_option },
                        );
                        i = 3;
                    },
                    _ => {
                        return Err(SpannedError { error: SyntaxError::ExpectedType, at: 2 });
                    },
                }
            } else {
                return Err(SpannedError { error: SyntaxError::ExpectedType, at: 2 });
            }
        }
        proof {
            assert(parse_clause_spec(toks) == parse_after_name_spec(
                toks.skip(i as int),
                param@,
                i as int,
            ));
        }
        let has_comma = if i < n {
            match &tokens[i] {
                ClauseToken::Comma => true,
                _ => false,
            }
        } else {
            false
        };
        if !has_comma {
            return Err(SpannedError { error: SyntaxError::ExpectedComma, at: i });
        }
        proof {
            assert(toks.skip(i as int).skip(1) =~= toks.skip(i as int + 1));
        }
        i = i + 1;
        let ghost goal = parse_clause_spec(toks);
        proof {
            assert(goal == parse_attributes_spec(toks.skip(i as int), param@, i as int));
        }
        loop
            invariant
                n == tokens.len(),
                toks == tokens.deep_view(),
                i <= n,
                goal == parse_attributes_spec(toks.skip(i as int), param@, i as int),
                goal == parse_clause_spec(toks),
            decreases n - i,
        {
            let ghost rest = toks.skip(i as int);
            let ghost p0 = param@;
            let ghost i0 = i;
            if i >= n {
                return Err(SpannedError { error: SyntaxError::ExpectedIdent, at: i });
            }
            proof {
                assert(rest[0] == toks[i as int]);
            }
            let ident = match &tokens[i] {
                ClauseToken::Ident(s) => s,
                _ => {
                    return Err(SpannedError { error: SyntaxError::ExpectedIdent, at: i });
                },
            };
            let is_loc = str_eq(ident.as_str(), "path") || str_eq(ident.as_str(), "query")
                || str_eq(ident.as_str(), "header") || str_eq(ident.as_str(), "cookie");
            if is_loc {
                match ParameterIn::from_str(ident.as_str()) {
                    Ok(l) => {
                        param.parameter_in = l;
                    },
                    Err(_) => {
                        proof {
                            assert(false);
                        }
                    },
                }
                i = i + 1;
            } else if str_eq(ident.as_str(), "deprecated") {
                let mut explicit: Option<bool> = None;
                if n - i >= 3 {
                    let second = match &tokens[i + 1] {
                        ClauseToken::Equals => true,
                        _ => false,
                    };
                    if second {
                        match &tokens[i + 2] {
                            ClauseToken::BoolLit(b) => {
                                explicit = Some(*b);
                            },
                            _ => {},
                        }
                    }
                }
                proof {
                    if rest.len() >= 3 {
                        assert(rest[1] == toks[i as int + 1]);
                        assert(rest[2] == toks[i as int + 2]);
                    }
                }
                match explicit {
                    Some(b) => {
                        param.deprecated = b;
                        i = i + 3;
                    },
                    None => {
                        param.deprecated = true;
                        i = i + 1;
                    },
                }
            } else if str_eq(ident.as_str(), "description") {
                proof {
                    if rest.len() >= 2 {
                        assert(rest[1] == toks[i as int + 1]);
                    }
                    if rest.len() >= 3 {
                        assert(rest[2] == toks[i as int + 2]);
                    }
                }
                if n - i >= 2 {
                    let second = match &tokens[i + 1] {
                        ClauseToken::Equals => true,
                        _ => false,
                    };
                    if !second {
                        return Err(SpannedError { error: SyntaxError::ExpectedEqual, at: i + 1 });
                    }
                    if n - i >= 3 {
                        match &tokens[i + 2] {
                            ClauseToken::StrLit(s) => {
                                param.description = Some(s.clone());
                                i = i + 3;
                            },
                            _ => {
                                return Err(
                                    SpannedError {
                                        error: SyntaxError::ExpectedDescription,
                                        at: i + 2,
                                    },
                                );
                            },
                        }
                    } else {
                        return Err(
                            SpannedError { error: SyntaxError::ExpectedDescription, at: i + 2 },
                        );
                    }
                } else {
                    return Err(SpannedError { error: SyntaxError::ExpectedEqual, at: i + 1 });
                }
            } else {
                return Err(
                    SpannedError { error: SyntaxError::UnknownAttribute(ident.clone()), at: i },
                );
            }
            proof {
                let step = attr_step_spec(rest, p0, i0 as int);
                assert(step is Ok);
                let k = step->Ok_0.0;
                assert(param@ == step->Ok_0.1);
                assert(rest.skip(k) =~= toks.skip(i as int));
            }
            let has_sep = if i < n {
                match &tokens[i] {
                    ClauseToken::Comma => true,
                    _ => false,
                }
            } else {
                false
            };
            if has_sep {
                proof {
                    assert(toks.skip(i as int)[0] == toks[i as int]);
                    assert(toks.skip(i as int).skip(1) =~= toks.skip(i as int + 1));
                }
                i = i + 1;
            } else {
                proof {
                    if i < n {
                        assert(toks.skip(i as int)[0] == toks[i as int]);
                    }
                }
            }
            if i >= n {
                proof {
                    assert(toks.skip(i as int).len() == 0);
                }
                return Ok(param);
            }
        }
    }
}

/// The attribute list only sets location, deprecation and description: the
/// name a record enters the list with is the name it leaves with.
proof fn lemma_attributes_keep_name(toks: Seq<TokenModel>, p: ParamModel, at: int)
    ensures
        parse_attributes_spec(toks, p, at) matches Ok(q) ==> q.name == p.name,
    decreases toks.len(),
{
    if attr_step_spec(toks, p, at) is Ok {
        let (k, p2) = attr_step_spec(toks, p, at)->Ok_0;
        let rest = toks.skip(k);
        let has_sep = rest.len() > 0 && rest[0] is Comma;
        let rest2 = if has_sep {
            rest.skip(1)
        } else {
            rest
        };
        let at2 = if has_sep {
            at + k + 1
        } else {
            at + k
        };
        if rest2.len() != 0 {
            lemma_attributes_keep_name(rest2, p2, at2);
        }
    }
}

/// A successfully parsed clause names the parameter by its leading string
/// literal, and that name is never empty.
pub proof fn lemma_parsed_name_nonempty(toks: Seq<TokenModel>)
    ensures
        parse_clause_spec(toks) matches Ok(p) ==> toks.len() > 0 && toks[0] is StrLit && p.name
            == toks[0]->StrLit_0 && p.name.len() > 0,
{
    if parse_clause_spec(toks) is Ok {
        let name = toks[0]->StrLit_0;
        if toks.len() >= 2 && toks[1] is Equals {
            let base = param_defaults(name, Some(toks[2]->TypeRef_0));
            lemma_attributes_keep_name(toks.skip(3).skip(1), base, 4);
        } else {
            let base = param_defaults(name, None);
            lemma_attributes_keep_name(toks.skip(1).skip(1), base, 2);
        }
    }
}

/// One call of the builder chain a parameter renders to; the code-emission
/// layer maps each to its target output.
#[derive(Debug, PartialEq, Eq)]
pub enum BuilderCall {
    /// Constructs the builder with the parameter's name.
    New(String),
    /// Sets where the parameter lives.
    Location(ParameterIn),
    /// Sets the deprecated flag; always emitted, `false` by default.
    DeprecatedFlag(bool),
    /// Sets the free-text description; only emitted when one is present.
    Description(String),
    /// Sets the schema from the type reference; only with a type.
    Schema { ty: String, is_array: bool },
    /// Marks the parameter required exactly when its type is not optional;
    /// only with a type.
    Required(bool),
}

/// The ghost image of a [`BuilderCall`].
pub enum CallModel {
    New(Seq<char>),
    Location(ParameterIn),
    DeprecatedFlag(bool),
    Description(Seq<char>),
    Schema { ty: Seq<char>, is_array: bool },
    Required(bool),
}

impl View for BuilderCall {
    type V = CallModel;

    open spec fn view(&self) -> CallModel {
        match self {
            BuilderCall::New(s) => CallModel::New(s@),
            BuilderCall::Location(l) => CallModel::Location(*l),
            BuilderCall::DeprecatedFlag(b) => CallModel::DeprecatedFlag(*b),
            BuilderCall::Description(s) => CallModel::Description(s@),
            BuilderCall::Schema { ty, is_array } => CallModel::Schema {
                ty: ty@,
                is_array: *is_array,
            },
            BuilderCall::Required(b) => CallModel::Required(*b),
        }
    }
}

impl DeepView for BuilderCall {
    type V = CallModel;

    open spec fn deep_view(&self) -> CallModel {
        self.view()
    }
}

/// The builder chain a parameter renders to: construction, location and
/// deprecated flag always; the description when present; schema and required
/// flag when a type is attached, with required the negation of the type's
/// optional flag.
pub open spec fn render_spec(p: ParamModel) -> Seq<CallModel> {
    seq![
        CallModel::New(p.name),
        CallModel::Location(p.parameter_in),
        CallModel::DeprecatedFlag(p.deprecated),
    ] + (match p.description {
        Some(d) => seq![CallModel::Description(d)],
        None => Seq::empty(),
    }) + (match p.parameter_type {
        Some(t) => seq![
            CallModel::Schema { ty: t.ty, is_array: t.is_array },
            CallModel::Required(!t.is_option),
        ],
        None => Seq::empty(),
    })
}

impl Parameter {
    /// Renders the parameter as its builder chain, as [`render_spec`] says.
    pub fn to_builder_calls(&self) -> (r: Vec<BuilderCall>)
        ensures
            r.deep_view() == render_spec(self@),
    {
        let mut out: Vec<BuilderCall> = Vec::new();
        out.push(BuilderCall::New(self.name.clone()));
        out.push(BuilderCall::Location(self.parameter_in));
        out.push(BuilderCall::DeprecatedFlag(self.deprecated));
        match &self.description {
            Some(d) => {
                out.push(BuilderCall::Description(d.clone()));
            },
            None => {},
        }
        match &self.parameter_type {
            Some(t) => {
                out.push(BuilderCall::Schema { ty: t.ty.clone(), is_array: t.is_array });
                out.push(BuilderCall::Required(!t.is_option));
            },
            None => {},
        }
        proof {
            assert(out.deep_view() =~= render_spec(self@));
        }
        out
    }
}

/// Every parameter's rendering opens with its name, its location and its
/// deprecated flag — the latter two always emitted, even when never set —
/// and, exactly when a type is attached, closes with the schema and a
/// required flag that is the negation of the type's optional flag.
pub proof fn lemma_render_complete(p: ParamModel)
    ensures
        render_spec(p).len() >= 3,
        render_spec(p)[0] == CallModel::New(p.name),
        render_spec(p)[1] == CallModel::Location(p.parameter_in),
        render_spec(p)[2] == CallModel::DeprecatedFlag(p.deprecated),
        p.parameter_type matches Some(t) ==> render_spec(p).last() == CallModel::Required(
            !t.is_option,
        ) && render_spec(p)[render_spec(p).len() - 2] == (CallModel::Schema {
            ty: t.ty,
            is_array: t.is_array,
        }),
        p.parameter_type is None ==> forall|i: int|
            0 <= i < render_spec(p).len() ==> !(#[trigger] render_spec(p)[i] is Required) && !(
            render_spec(p)[i] is Schema),
{
}

/// A parameter built by the direct constructor renders to exactly five
/// calls: name, location, a `false` deprecated flag, the plain schema, and
/// `required` set — the type the constructor attaches is never optional.
pub proof fn lemma_new_then_render(name: Seq<char>, ty: Seq<char>, loc: ParameterIn)
    ensures
        render_spec(
            ParamModel {
                name,
                parameter_in: loc,
                deprecated: false,
                description: None,
                parameter_type: Some(TypeModel { ty, is_array: false, is_option: false }),
            },
        ) =~= seq![
            CallModel::New(name),
            CallModel::Location(loc),
            CallModel::DeprecatedFlag(false),
            CallModel::Schema { ty, is_array: false },
            CallModel::Required(true),
        ],
{
}

} // verus!
