//! How the `script` attribute builds a scriptable description from a struct
//! or an impl block: which members its helper attributes declare, and which
//! declarations it refuses.
use vstd::prelude::*;
use vstd::string::*;

use crate::model::{
    Create, DeriveKind, Function, GetKind, Getter, Method, Param, Scriptable, ScriptableDetails,
    ScriptableOptions, ScriptableState, ScriptableType, SelfType, SetKind, Setter,
    StateMemberKind, TypeMemberKind, params_to_types, typed_params,
};
use crate::options::{
    ImplOptions, ScriptOption, StructOptions, clone_strings, first_includes, first_partial,
    last_derive, options_derives, options_includes, options_is_state, options_partial,
    state_option,
};
use crate::text::{decimal, decimal_string, is_text};
use crate::expand::{state_member_name, type_member_name};

verus! {

/// The helper attributes that `script` reads.
#[derive(Debug, Clone, Copy, PartialEq, Eq, Structural)]
pub enum HelperWord {
    GetAttr,
    SetAttr,
    MethodAttr,
    CreateAttr,
    FunctionAttr,
}

/// The options of a helper attribute: the `name = ident` options given, in
/// order.
#[derive(Debug, Clone, PartialEq, Eq)]
pub struct NameOptions {
    pub names: Vec<String>,
}

/// The options of `create`.
pub type CreateOptions = NameOptions;

/// The options of `function`.
pub type FunctionOptions = NameOptions;

/// The options of `get`.
pub type GetOptions = NameOptions;

/// The options of `method`.
pub type MethodOptions = NameOptions;

/// The options of `set`.
pub type SetOptions = NameOptions;

/// The name override of a helper attribute: its first `name` option.
pub open spec fn first_name(names: Seq<String>) -> Option<String> {
    if names.len() > 0 {
        Some(names[0])
    } else {
        None
    }
}

impl NameOptions {
    /// The name that replaces the member's own: the first `name` option.
    pub fn name_override(&self) -> (r: Option<String>)
        ensures
            r == first_name(self.names@),
    {
        if self.names.len() > 0 {
            Some(self.names[0].clone())
        } else {
            None
        }
    }
}

/// The arguments of an attribute.
#[derive(Debug, Clone, PartialEq, Eq)]
pub enum AttrArgs {
    /// A bare attribute, such as `#[get]`.
    Bare,
    /// Arguments that parsed as options.
    Parsed { options: NameOptions },
    /// Arguments that did not parse, with the parser's message.
    Unparsable { message: String },
}

/// An attribute on a field or a function.
#[derive(Debug, Clone, PartialEq, Eq)]
pub struct Attr {
    /// The attribute's path when it is a single identifier.
    pub path: Option<String>,
    pub args: AttrArgs,
}

/// A helper attribute that was recognized, with its position among the
/// item's attributes and its name override.
#[derive(Debug, Clone, PartialEq, Eq)]
pub struct HelperAttr {
    pub span: usize,
    pub word: HelperWord,
    pub name: Option<String>,
}

/// Why `script` refuses a declaration. `item` is the position of the field or
/// of the impl item, `attr` that of the attribute among the item's own.
#[derive(Debug, Clone, PartialEq, Eq)]
pub enum BuildError {
    /// The arguments of a helper attribute did not parse.
    AttrArgs { item: usize, attr: usize, message: String },
    /// The helper attribute is only supported for state types.
    RequireState { item: usize, attr: usize },
    GetWithoutReturn { item: usize },
    SetWithoutReturn { item: usize },
    SetParams { item: usize },
    MethodWithoutReturn { item: usize },
    MethodEmptyTuple { item: usize },
    MethodNotTuple { item: usize },
    CreateWithoutReturn { item: usize },
    FunctionWithoutReturn { item: usize },
    /// `script` was put on something other than a struct or an impl block.
    NotStructOrImpl,
}

impl BuildError {
    /// The message reported for the error.
    pub fn message(&self) -> (r: String)
        ensures
            self is AttrArgs ==> r@ == self->AttrArgs_message@,
            self is RequireState ==> r@ == "The attribute is only supported for State types"@,
            self is GetWithoutReturn ==> r@ == "A get function must have a return type"@,
            self is SetWithoutReturn ==> r@ == "A set function must have a return type"@,
            self is SetParams ==> r@ == "Expected a single non-receiver parameter"@,
            self is MethodWithoutReturn ==> r@ == "A create function must have a return type"@,
            self is MethodEmptyTuple ==> r@ == "Expected at least one tuple element, the script return value."@,
            self is MethodNotTuple ==> r@ == "Expected a tuple return value, where the first element is the script return value, and the rest are any mutation Actions."@,
            self is CreateWithoutReturn ==> r@ == "A create function must have a return type"@,
            self is FunctionWithoutReturn ==> r@ == "A function must have a return type"@,
            self is NotStructOrImpl ==> r@ == "The #[script] attribute can only be applied to structs and impl blocks."@,
    {
        match self {
            BuildError::AttrArgs { message, .. } => message.clone(),
            BuildError::RequireState { .. } => String::from_str(
                "The attribute is only supported for State types",
            ),
            BuildError::GetWithoutReturn { .. } => String::from_str(
                "A get function must have a return type",
            ),
            BuildError::SetWithoutReturn { .. } => String::from_str(
                "A set function must have a return type",
            ),
            BuildError::SetParams { .. } => String::from_str(
                "Expected a single non-receiver parameter",
            ),
            BuildError::MethodWithoutReturn { .. } => String::from_str(
                "A create function must have a return type",
            ),
            BuildError::MethodEmptyTuple { .. } => String::from_str(
                "Expected at least one tuple element, the script return value.",
            ),
            BuildError::MethodNotTuple { .. } => String::from_str(
                "Expected a tuple return value, where the first element is the script return value, and the rest are any mutation Actions.",
            ),
            BuildError::CreateWithoutReturn { .. } => String::from_str(
                "A create function must have a return type",
            ),
            BuildError::FunctionWithoutReturn { .. } => String::from_str(
                "A function must have a return type",
            ),
            BuildError::NotStructOrImpl => String::from_str(
                "The #[script] attribute can only be applied to structs and impl blocks.",
            ),
        }
    }
}

/// The helper attribute that a path names, if any.
pub open spec fn helper_word(path: Option<String>) -> Option<HelperWord> {
    match path {
        Some(p) => if p@ == seq!['g', 'e', 't'] {
            Some(HelperWord::GetAttr)
        } else if p@ == seq!['s', 'e', 't'] {
            Some(HelperWord::SetAttr)
        } else if p@ == seq!['m', 'e', 't', 'h', 'o', 'd'] {
            Some(HelperWord::MethodAttr)
        } else if p@ == seq!['c', 'r', 'e', 'a', 't', 'e'] {
            Some(HelperWord::CreateAttr)
        } else if p@ == seq!['f', 'u', 'n', 'c', 't', 'i', 'o', 'n'] {
            Some(HelperWord::FunctionAttr)
        } else {
            None
        },
        None => None,
    }
}

/// Fields take `get` and `set`; functions take all five.
pub open spec fn recognized(word: HelperWord, for_fields: bool) -> bool {
    !for_fields || word == HelperWord::GetAttr || word == HelperWord::SetAttr
}

/// The helper attributes among `attrs`, in order, or the first whose
/// arguments do not parse.
pub open spec fn classify_attrs(attrs: Seq<Attr>, for_fields: bool, item: int) -> Result<
    Seq<HelperAttr>,
    BuildError,
>
    decreases attrs.len(),
{
    if attrs.len() == 0 {
        Ok(Seq::empty())
    } else {
        match classify_attrs(attrs.drop_last(), for_fields, item) {
            Err(e) => Err(e),
            Ok(hs) => {
                let a = attrs.last();
                let span = (attrs.len() - 1) as usize;
                match helper_word(a.path) {
                    Some(w) => if recognized(w, for_fields) {
                        match a.args {
                            AttrArgs::Bare => Ok(hs.push(HelperAttr { span, word: w, name: None })),
                            AttrArgs::Parsed { options } => Ok(
                                hs.push(HelperAttr { span, word: w, name: first_name(options.names@) }),
                            ),
                            AttrArgs::Unparsable { message } => Err(
                                BuildError::AttrArgs { item: item as usize, attr: span, message },
                            ),
                        }
                    } else {
                        Ok(hs)
                    },
                    None => Ok(hs),
                }
            },
        }
    }
}

fn word_of(path: &Option<String>) -> (r: Option<HelperWord>)
    ensures
        r == helper_word(*path),
{
    proof {
        reveal_strlit("get");
        reveal_strlit("set");
        reveal_strlit("method");
        reveal_strlit("create");
        reveal_strlit("function");
        assert("get"@ =~= seq!['g', 'e', 't']);
        assert("set"@ =~= seq!['s', 'e', 't']);
        assert("method"@ =~= seq!['m', 'e', 't', 'h', 'o', 'd']);
        assert("create"@ =~= seq!['c', 'r', 'e', 'a', 't', 'e']);
        assert("function"@ =~= seq!['f', 'u', 'n', 'c', 't', 'i', 'o', 'n']);
    }
    match path {
        Some(p) => if is_text(p, "get") {
            Some(HelperWord::GetAttr)
        } else if is_text(p, "set") {
            Some(HelperWord::SetAttr)
        } else if is_text(p, "method") {
            Some(HelperWord::MethodAttr)
        } else if is_text(p, "create") {
            Some(HelperWord::CreateAttr)
        } else if is_text(p, "function") {
            Some(HelperWord::FunctionAttr)
        } else {
            None
        },
        None => None,
    }
}

fn classify(attrs: &Vec<Attr>, for_fields: bool, item: usize) -> (r: Result<
    Vec<HelperAttr>,
    BuildError,
>)
    ensures
        match r {
            Ok(v) => classify_attrs(attrs@, for_fields, item as int) == Ok::<
                Seq<HelperAttr>,
                BuildError,
            >(v@),
            Err(e) => classify_attrs(attrs@, for_fields, item as int) == Err::<
                Seq<HelperAttr>,
                BuildError,
            >(e),
        },
{
    let mut out: Vec<HelperAttr> = Vec::new();
    let mut i: usize = 0;
    while i < attrs.len()
        invariant
            i <= attrs.len(),
            classify_attrs(attrs@.take(i as int), for_fields, item as int) == Ok::<
                Seq<HelperAttr>,
                BuildError,
            >(out@),
        decreases attrs.len() - i,
    {
        assert(attrs@.take(i + 1).drop_last() =~= attrs@.take(i as int));
        assert(attrs@.take(i + 1).last() == attrs@[i as int]);
        let a = &attrs[i];
        match word_of(&a.path) {
            Some(w) => {
                let ok = !for_fields || w == HelperWord::GetAttr || w == HelperWord::SetAttr;
                if ok {
                    match &a.args {
                        AttrArgs::Bare => {
                            out.push(HelperAttr { span: i, word: w, name: None });
                        },
                        AttrArgs::Parsed { options } => {
                            out.push(HelperAttr { span: i, word: w, name: options.name_override() });
                        },
                        AttrArgs::Unparsable { message } => {
                            assert(attrs@.take(attrs@.len() as int) =~= attrs@);
                            proof {
                                lemma_classify_err_extends(attrs@, for_fields, item as int, i as int);
                            }
                            return Err(
                                BuildError::AttrArgs { item, attr: i, message: message.clone() },
                            );
                        },
                    }
                }
            },
            None => {},
        }
        i = i + 1;
    }
    assert(attrs@.take(i as int) =~= attrs@);
    Ok(out)
}

proof fn lemma_classify_err_extends(attrs: Seq<Attr>, for_fields: bool, item: int, i: int)
    requires
        0 <= i < attrs.len(),
        classify_attrs(attrs.take(i + 1), for_fields, item) is Err,
    ensures
        classify_attrs(attrs, for_fields, item) == classify_attrs(attrs.take(i + 1), for_fields, item),
    decreases attrs.len() - i,
{
    if i + 1 < attrs.len() {
        assert(attrs.drop_last().take(i + 1) =~= attrs.take(i + 1));
        lemma_classify_err_extends(attrs.drop_last(), for_fields, item, i);
    } else {
        assert(attrs.take(i + 1) =~= attrs);
    }
}

proof fn lemma_classify_words(attrs: Seq<Attr>, for_fields: bool, item: int)
    ensures
        classify_attrs(attrs, for_fields, item) matches Ok(hs) ==> forall|k: int|
            0 <= k < hs.len() ==> recognized((#[trigger] hs[k]).word, for_fields) && hs[k].span
                < attrs.len(),
    decreases attrs.len(),
{
    if attrs.len() > 0 {
        lemma_classify_words(attrs.drop_last(), for_fields, item);
    }
}

/// The helper attributes of a field: `get` and `set`.
pub fn field_attrs(attrs: &Vec<Attr>, item: usize) -> (r: Result<Vec<HelperAttr>, BuildError>)
    ensures
        match r {
            Ok(v) => classify_attrs(attrs@, true, item as int) == Ok::<
                Seq<HelperAttr>,
                BuildError,
            >(v@),
            Err(e) => classify_attrs(attrs@, true, item as int) == Err::<
                Seq<HelperAttr>,
                BuildError,
            >(e),
        },
{
    classify(attrs, true, item)
}

/// The helper attributes of a function: all five.
pub fn fn_attrs(attrs: &Vec<Attr>, item: usize) -> (r: Result<Vec<HelperAttr>, BuildError>)
    ensures
        match r {
            Ok(v) => classify_attrs(attrs@, false, item as int) == Ok::<
                Seq<HelperAttr>,
                BuildError,
            >(v@),
            Err(e) => classify_attrs(attrs@, false, item as int) == Err::<
                Seq<HelperAttr>,
                BuildError,
            >(e),
        },
{
    classify(attrs, false, item)
}

/// The attributes that remain once the helper attributes are taken out.
pub open spec fn without_helpers(attrs: Seq<Attr>) -> Seq<Attr>
    decreases attrs.len(),
{
    if attrs.len() == 0 {
        Seq::empty()
    } else {
        let rest = without_helpers(attrs.drop_last());
        if helper_word(attrs.last().path) is Some {
            rest
        } else {
            rest.push(attrs.last())
        }
    }
}

/// Takes the helper attributes out of an item's attributes, so that the
/// compiler does not see them; the others stay, in order.
pub fn strip_helper_attributes(attrs: Vec<Attr>) -> (r: Vec<Attr>)
    ensures
        r@ == without_helpers(attrs@),
{
    let mut out: Vec<Attr> = Vec::new();
    let mut rest = attrs;
    let ghost all = rest@;
    let mut i: usize = 0;
    let n = rest.len();
    while i < n
        invariant
            n == all.len(),
            i <= n,
            rest@ == all.skip(i as int),
            out@ == without_helpers(all.take(i as int)),
        decreases n - i,
    {
        assert(all.take(i + 1).drop_last() =~= all.take(i as int));
        assert(all.take(i + 1).last() == all[i as int]);
        let a = rest.remove(0);
        assert(rest@ =~= all.skip(i + 1));
        let w = word_of(&a.path);
        if w.is_none() {
            out.push(a);
        }
        i = i + 1;
    }
    assert(all.take(n as int) =~= all);
    out
}


/// The outcome of each declaration, in order; the declarations are accepted
/// when none failed, and then they are the members.
pub open spec fn collect<T>(events: Seq<Result<T, BuildError>>) -> Result<Seq<T>, BuildError>
    decreases events.len(),
{
    if events.len() == 0 {
        Ok(Seq::empty())
    } else {
        match collect(events.drop_last()) {
            Err(e) => Err(e),
            Ok(v) => match events.last() {
                Ok(t) => Ok(v.push(t)),
                Err(e) => Err(e),
            },
        }
    }
}

proof fn lemma_collect_push<T>(events: Seq<Result<T, BuildError>>, x: Result<T, BuildError>)
    ensures
        collect(events.push(x)) == match collect(events) {
            Err(e) => Err(e),
            Ok(v) => match x {
                Ok(t) => Ok(v.push(t)),
                Err(e) => Err(e),
            },
        },
{
    assert(events.push(x).drop_last() =~= events);
}

proof fn lemma_collect_err_append<T>(a: Seq<Result<T, BuildError>>, b: Seq<Result<T, BuildError>>)
    requires
        collect(a) is Err,
    ensures
        collect(a + b) == collect(a),
    decreases b.len(),
{
    if b.len() == 0 {
        assert(a + b =~= a);
    } else {
        lemma_collect_err_append(a, b.drop_last());
        assert((a + b).drop_last() =~= a + b.drop_last());
    }
}

/// A field of a struct.
#[derive(Debug, Clone, PartialEq, Eq)]
pub struct FieldModel {
    /// The field's name; `None` in a tuple struct.
    pub ident: Option<String>,
    pub ty: String,
    pub attrs: Vec<Attr>,
}

/// A struct that `script` is put on.
#[derive(Debug, Clone, PartialEq, Eq)]
pub struct StructModel {
    pub ident: String,
    /// The struct's type: its name with its type parameters.
    pub self_type: String,
    pub generics: String,
    pub where_clause: String,
    pub fields: Vec<FieldModel>,
}

/// The name by which a field is reached: its identifier, or its position in
/// a tuple struct.
pub open spec fn field_ident_view(field: FieldModel, item: int) -> Seq<char> {
    match field.ident {
        Some(id) => id@,
        None => decimal(item as nat),
    }
}

/// A member's name: the override when one is given, else the default.
pub open spec fn name_matches(name: String, name_override: Option<String>, default: Seq<char>) -> bool {
    match name_override {
        Some(n) => name == n,
        None => name@ == default,
    }
}

/// What a helper attribute on a field declares.
pub open spec fn field_event(is_state: bool, item: int, a: HelperAttr) -> Result<
    (usize, HelperAttr),
    BuildError,
> {
    if a.word == HelperWord::SetAttr && !is_state {
        Err(BuildError::RequireState { item: item as usize, attr: a.span })
    } else {
        Ok((item as usize, a))
    }
}

/// What the helper attributes on a field declare.
pub open spec fn field_events(is_state: bool, item: int, field: FieldModel) -> Seq<
    Result<(usize, HelperAttr), BuildError>,
> {
    match classify_attrs(field.attrs@, true, item) {
        Err(e) => seq![Err(e)],
        Ok(hs) => hs.map_values(|a: HelperAttr| field_event(is_state, item, a)),
    }
}

/// What the helper attributes on a struct's fields declare, field by field.
pub open spec fn struct_events(is_state: bool, fields: Seq<FieldModel>) -> Seq<
    Result<(usize, HelperAttr), BuildError>,
>
    decreases fields.len(),
{
    if fields.len() == 0 {
        Seq::empty()
    } else {
        struct_events(is_state, fields.drop_last()) + field_events(
            is_state,
            fields.len() - 1,
            fields.last(),
        )
    }
}

/// The member of a state type that a helper attribute on a field declares.
pub open spec fn field_state_member(m: StateMemberKind, field: FieldModel, item: int, a: HelperAttr) -> bool {
    let id = field_ident_view(field, item);
    if a.word == HelperWord::GetAttr {
        match m {
            StateMemberKind::MemberGet { get } => name_matches(get.name, a.name, id) && get.ty
                == field.ty && match get.kind {
                GetKind::Field { ident } => ident@ == id,
                _ => false,
            },
            _ => false,
        }
    } else {
        match m {
            StateMemberKind::MemberSet { set } => name_matches(set.name, a.name, id) && set.ty
                == field.ty && match set.kind {
                SetKind::Field { ident } => ident@ == id,
                _ => false,
            },
            _ => false,
        }
    }
}

/// The member of a plain type that a helper attribute on a field declares.
pub open spec fn field_type_member(m: TypeMemberKind, field: FieldModel, item: int, a: HelperAttr) -> bool {
    let id = field_ident_view(field, item);
    match m {
        TypeMemberKind::MemberGet { get } => name_matches(get.name, a.name, id) && get.ty == field.ty
            && match get.kind {
            GetKind::Field { ident } => ident@ == id,
            _ => false,
        },
        _ => false,
    }
}

/// A list option as it stands in a description: left out when empty.
pub open spec fn nonempty<T>(l: Option<Seq<T>>) -> Option<Seq<T>> {
    match l {
        Some(v) => if v.len() > 0 {
            Some(v)
        } else {
            None
        },
        None => None,
    }
}

/// The view of an optional list.
pub open spec fn opt_view<T>(l: Option<Vec<T>>) -> Option<Seq<T>> {
    match l {
        Some(v) => Some(v@),
        None => None,
    }
}

/// The options of a description built from the attribute's options.
pub open spec fn options_ok(o: ScriptableOptions, opts: Seq<ScriptOption>) -> bool {
    &&& o.partial == first_partial(opts)
    &&& opt_view(o.includes) == nonempty(first_includes(opts))
    &&& opt_view(o.derive) == nonempty(last_derive(opts))
}

/// The details of a description built from a struct.
pub open spec fn struct_details_ok(d: ScriptableDetails, opts: Seq<ScriptOption>, model: StructModel) -> bool {
    &&& match d.self_type {
        SelfType::Path { segments, text } => segments@ == seq![model.ident] && text == model.self_type,
        _ => false,
    }
    &&& d.generics == model.generics
    &&& d.where_clause == model.where_clause
    &&& options_ok(d.options, opts)
}

/// The description built from a struct whose declarations were accepted as
/// `done`.
pub open spec fn struct_result_ok(
    s: Scriptable,
    opts: Seq<ScriptOption>,
    model: StructModel,
    done: Seq<(usize, HelperAttr)>,
) -> bool {
    &&& struct_details_ok(crate::model::details_of(s), opts, model)
    &&& match s {
        Scriptable::State { state } => state_option(opts) && state.members.len() == done.len()
            && forall|k: int|
            0 <= k < done.len() ==> field_state_member(
                #[trigger] state.members@[k],
                model.fields@[done[k].0 as int],
                done[k].0 as int,
                done[k].1,
            ),
        Scriptable::Ty { ty } => !state_option(opts) && ty.members.len() == done.len() && forall|
            k: int,
        |
            0 <= k < done.len() ==> field_type_member(
                #[trigger] ty.members@[k],
                model.fields@[done[k].0 as int],
                done[k].0 as int,
                done[k].1,
            ),
    }
}

fn assemble_options(options: &Vec<ScriptOption>) -> (r: ScriptableOptions)
    ensures
        options_ok(r, options@),
{
    let inc = options_includes(options);
    let includes = if inc.len() > 0 {
        Some(inc)
    } else {
        None
    };
    let der = options_derives(options);
    let derive = if der.len() > 0 {
        Some(der)
    } else {
        None
    };
    let partial = options_partial(options);
    ScriptableOptions { includes, partial, derive }
}

proof fn lemma_struct_events_err(is_state: bool, fields: Seq<FieldModel>, j: int)
    requires
        0 <= j <= fields.len(),
        collect(struct_events(is_state, fields.take(j))) is Err,
    ensures
        collect(struct_events(is_state, fields)) == collect(struct_events(is_state, fields.take(j))),
    decreases fields.len() - j,
{
    if j < fields.len() {
        assert(fields.drop_last().take(j) =~= fields.take(j));
        lemma_struct_events_err(is_state, fields.drop_last(), j);
        lemma_collect_err_append(
            struct_events(is_state, fields.drop_last()),
            field_events(is_state, fields.len() - 1, fields.last()),
        );
    } else {
        assert(fields.take(j) =~= fields);
    }
}

/// Builds the description of a struct: each `get` on a field declares a
/// getter of the field, each `set` a setter of it (refused on a plain type);
/// a member's name is the attribute's `name` option, else the field's name
/// (its position in a tuple struct).
pub fn build_struct(options: &StructOptions, model: &StructModel) -> (r: Result<
    Scriptable,
    BuildError,
>)
    ensures
        match collect(struct_events(state_option(options.options@), model.fields@)) {
            Err(e) => r == Err::<Scriptable, BuildError>(e),
            Ok(done) => r matches Ok(s) && struct_result_ok(s, options.options@, *model, done),
        },
{
    let is_state = options.is_state();
    let ghost opts = options.options@;
    let ghost fields = model.fields@;
    let mut state_members: Vec<StateMemberKind> = Vec::new();
    let mut type_members: Vec<TypeMemberKind> = Vec::new();
    let ghost mut done: Seq<(usize, HelperAttr)> = Seq::empty();
    let mut i: usize = 0;
    while i < model.fields.len()
        invariant
            i <= model.fields.len(),
            fields == model.fields@,
            opts == options.options@,
            is_state == state_option(opts),
            collect(struct_events(is_state, fields.take(i as int))) == Ok::<
                Seq<(usize, HelperAttr)>,
                BuildError,
            >(done),
            forall|k: int| 0 <= k < done.len() ==> (#[trigger] done[k]).0 < i,
            is_state ==> state_members.len() == done.len() && forall|k: int|
                0 <= k < done.len() ==> field_state_member(
                    #[trigger] state_members@[k],
                    fields[done[k].0 as int],
                    done[k].0 as int,
                    done[k].1,
                ),
            !is_state ==> type_members.len() == done.len() && forall|k: int|
                0 <= k < done.len() ==> field_type_member(
                    #[trigger] type_members@[k],
                    fields[done[k].0 as int],
                    done[k].0 as int,
                    done[k].1,
                ),
        decreases model.fields.len() - i,
    {
        let field = &model.fields[i];
        assert(fields.take(i + 1).drop_last() =~= fields.take(i as int));
        assert(fields.take(i + 1).last() == fields[i as int]);
        let ghost before = struct_events(is_state, fields.take(i as int));
        let ghost evs = field_events(is_state, i as int, *field);
        assert(struct_events(is_state, fields.take(i + 1)) == before + evs);
        let attrs = match field_attrs(&field.attrs, i) {
            Ok(v) => v,
            Err(e) => {
                proof {
                    assert(evs =~= seq![Err::<(usize, HelperAttr), BuildError>(e)]);
                    lemma_collect_push(before, Err(e));
                    assert(before.push(Err(e)) =~= before + evs);
                    assert(collect(before + evs) == Err::<Seq<(usize, HelperAttr)>, BuildError>(e));
                    assert(collect(struct_events(is_state, fields.take(i + 1))) == Err::<Seq<(usize, HelperAttr)>, BuildError>(e));
                    lemma_struct_events_err(is_state, fields, i + 1);
                    assert(collect(struct_events(is_state, fields)) == Err::<Seq<(usize, HelperAttr)>, BuildError>(e));
                }
                return Err(e);
            },
        };
        proof {
            lemma_classify_words(field.attrs@, true, i as int);
        }
        let ident = match &field.ident {
            Some(id) => id.clone(),
            None => decimal_string(i),
        };
        assert(ident@ == field_ident_view(*field, i as int));
        let mut k: usize = 0;
        while k < attrs.len()
            invariant
                k <= attrs.len(),
                i < model.fields.len(),
                fields == model.fields@,
                opts == options.options@,
                *field == fields[i as int],
                is_state == state_option(opts),
                ident@ == field_ident_view(*field, i as int),
                evs == field_events(is_state, i as int, *field),
                classify_attrs(field.attrs@, true, i as int) == Ok::<Seq<HelperAttr>, BuildError>(
                    attrs@,
                ),
                before == struct_events(is_state, fields.take(i as int)),
                struct_events(is_state, fields.take(i + 1)) == before + evs,
                forall|q: int| 0 <= q < attrs.len() ==> recognized((#[trigger] attrs@[q]).word, true),
                collect(before + evs.take(k as int)) == Ok::<
                    Seq<(usize, HelperAttr)>,
                    BuildError,
                >(done),
                forall|q: int| 0 <= q < done.len() ==> (#[trigger] done[q]).0 <= i,
                is_state ==> state_members.len() == done.len() && forall|q: int|
                    0 <= q < done.len() ==> field_state_member(
                        #[trigger] state_members@[q],
                        fields[done[q].0 as int],
                        done[q].0 as int,
                        done[q].1,
                    ),
                !is_state ==> type_members.len() == done.len() && forall|q: int|
                    0 <= q < done.len() ==> field_type_member(
                        #[trigger] type_members@[q],
                        fields[done[q].0 as int],
                        done[q].0 as int,
                        done[q].1,
                    ),
            decreases attrs.len() - k,
        {
            let a = &attrs[k];
            assert(evs[k as int] == field_event(is_state, i as int, *a));
            assert(recognized(a.word, true));
            assert((before + evs.take(k as int)).push(evs[k as int]) =~= before + evs.take(k + 1));
            proof {
                lemma_collect_push(before + evs.take(k as int), evs[k as int]);
            }
            let name = match &a.name {
                Some(n) => n.clone(),
                None => ident.clone(),
            };
            if a.word == HelperWord::GetAttr {
                let get = Getter {
                    name,
                    ty: field.ty.clone(),
                    kind: GetKind::Field { ident: ident.clone() },
                };
                if is_state {
                    state_members.push(StateMemberKind::MemberGet { get });
                } else {
                    type_members.push(TypeMemberKind::MemberGet { get });
                }
            } else {
                if !is_state {
                    proof {
                        lemma_collect_err_append(
                            before + evs.take(k + 1),
                            evs.skip(k + 1),
                        );
                        assert(before + evs.take(k + 1) + evs.skip(k + 1) =~= before + evs);
                        lemma_struct_events_err(is_state, fields, i + 1);
                    }
                    return Err(BuildError::RequireState { item: i, attr: a.span });
                }
                let set = Setter {
                    name,
                    ty: field.ty.clone(),
                    kind: SetKind::Field { ident: ident.clone() },
                };
                state_members.push(StateMemberKind::MemberSet { set });
            }
            proof {
                done = done.push((i, *a));
            }
            k = k + 1;
        }
        assert(evs.take(attrs.len() as int) =~= evs);
        i = i + 1;
    }
    assert(fields.take(i as int) =~= fields);
    let details = ScriptableDetails {
        self_type: SelfType::Path { segments: vec![model.ident.clone()], text: model.self_type.clone() },
        options: assemble_options(&options.options),
        generics: model.generics.clone(),
        where_clause: model.where_clause.clone(),
    };
    assert(match details.self_type {
        SelfType::Path { segments, text } => segments@ =~= seq![model.ident],
        _ => false,
    });
    if is_state {
        Ok(Scriptable::State { state: ScriptableState { details, members: state_members } })
    } else {
        Ok(Scriptable::Ty { ty: ScriptableType { details, members: type_members } })
    }
}


/// What a function declares to return.
#[derive(Debug, Clone, PartialEq, Eq)]
pub enum ReturnModel {
    /// No return type.
    Default,
    /// A return type, with its elements when it is a tuple type.
    Type { text: String, tuple: Option<Vec<String>> },
}

/// A function of an impl block.
#[derive(Debug, Clone, PartialEq, Eq)]
pub struct FnModel {
    pub ident: String,
    pub attrs: Vec<Attr>,
    pub inputs: Vec<Param>,
    pub output: ReturnModel,
}

/// An item of an impl block.
#[derive(Debug, Clone, PartialEq, Eq)]
pub enum ImplItemModel {
    Fn { f: FnModel },
    /// Any other item; helper attributes on it are not read.
    Other,
}

/// An impl block that `script` is put on.
#[derive(Debug, Clone, PartialEq, Eq)]
pub struct ImplModel {
    pub self_type: SelfType,
    pub generics: String,
    pub where_clause: String,
    pub items: Vec<ImplItemModel>,
}

/// What a helper attribute on a function declares, or why it is refused.
pub open spec fn fn_event(is_state: bool, item: int, f: FnModel, a: HelperAttr) -> Result<
    (usize, HelperAttr),
    BuildError,
> {
    let it = item as usize;
    match a.word {
        HelperWord::GetAttr => match f.output {
            ReturnModel::Default => Err(BuildError::GetWithoutReturn { item: it }),
            _ => Ok((it, a)),
        },
        HelperWord::SetAttr => match f.output {
            ReturnModel::Default => Err(BuildError::SetWithoutReturn { item: it }),
            _ => if typed_params(f.inputs@).len() != 1 {
                Err(BuildError::SetParams { item: it })
            } else if !is_state {
                Err(BuildError::RequireState { item: it, attr: a.span })
            } else {
                Ok((it, a))
            },
        },
        HelperWord::MethodAttr => match f.output {
            ReturnModel::Default => Err(BuildError::MethodWithoutReturn { item: it }),
            ReturnModel::Type { text, tuple } => match tuple {
                None => Err(BuildError::MethodNotTuple { item: it }),
                Some(elems) => if elems@.len() == 0 {
                    Err(BuildError::MethodEmptyTuple { item: it })
                } else if !is_state {
                    Err(BuildError::RequireState { item: it, attr: a.span })
                } else {
                    Ok((it, a))
                },
            },
        },
        HelperWord::CreateAttr => match f.output {
            ReturnModel::Default => Err(BuildError::CreateWithoutReturn { item: it }),
            _ => if !is_state {
                Err(BuildError::RequireState { item: it, attr: a.span })
            } else {
                Ok((it, a))
            },
        },
        HelperWord::FunctionAttr => match f.output {
            ReturnModel::Default => Err(BuildError::FunctionWithoutReturn { item: it }),
            _ => Ok((it, a)),
        },
    }
}

/// What the helper attributes on an impl item declare.
pub open spec fn item_events(is_state: bool, item: int, it: ImplItemModel) -> Seq<
    Result<(usize, HelperAttr), BuildError>,
> {
    match it {
        ImplItemModel::Fn { f } => match classify_attrs(f.attrs@, false, item) {
            Err(e) => seq![Err(e)],
            Ok(hs) => hs.map_values(|a: HelperAttr| fn_event(is_state, item, f, a)),
        },
        ImplItemModel::Other => Seq::empty(),
    }
}

/// What the helper attributes in an impl block declare, item by item.
pub open spec fn impl_events(is_state: bool, items: Seq<ImplItemModel>) -> Seq<
    Result<(usize, HelperAttr), BuildError>,
>
    decreases items.len(),
{
    if items.len() == 0 {
        Seq::empty()
    } else {
        impl_events(is_state, items.drop_last()) + item_events(
            is_state,
            items.len() - 1,
            items.last(),
        )
    }
}

/// The return type's text.
pub open spec fn return_text(r: ReturnModel) -> String {
    match r {
        ReturnModel::Type { text, tuple } => text,
        ReturnModel::Default => arbitrary(),
    }
}

/// The elements of a tuple return type.
pub open spec fn return_elems(r: ReturnModel) -> Seq<String> {
    match r {
        ReturnModel::Type { text, tuple } => match tuple {
            Some(v) => v@,
            None => Seq::empty(),
        },
        ReturnModel::Default => Seq::empty(),
    }
}

/// The member of a state type that a helper attribute on a function declares.
pub open spec fn fn_state_member(m: StateMemberKind, f: FnModel, a: HelperAttr) -> bool {
    match a.word {
        HelperWord::GetAttr => match m {
            StateMemberKind::MemberGet { get } => name_matches(get.name, a.name, f.ident@) && get.ty
                == return_text(f.output) && get.kind == GetKind::Fn { ident: f.ident },
            _ => false,
        },
        HelperWord::SetAttr => match m {
            StateMemberKind::MemberSet { set } => name_matches(set.name, a.name, f.ident@) && set.ty
                == typed_params(f.inputs@)[0] && set.kind == SetKind::Fn {
                ident: f.ident,
                ret: return_text(f.output),
            },
            _ => false,
        },
        HelperWord::MethodAttr => match m {
            StateMemberKind::MemberMethod { method } => name_matches(method.name, a.name, f.ident@)
                && method.ident == f.ident && method.ret == return_elems(f.output)[0]
                && method.actions@ == return_elems(f.output).skip(1) && method.params@
                == f.inputs@,
            _ => false,
        },
        HelperWord::CreateAttr => match m {
            StateMemberKind::MemberCreate { create } => name_matches(create.name, a.name, f.ident@)
                && create.ident == f.ident && create.action == return_text(f.output)
                && create.params@ == f.inputs@,
            _ => false,
        },
        HelperWord::FunctionAttr => match m {
            StateMemberKind::MemberFunction { function } => name_matches(
                function.name,
                a.name,
                f.ident@,
            ) && function.ident == f.ident && function.ret == return_text(f.output)
                && function.params@ == f.inputs@,
            _ => false,
        },
    }
}

/// The member of a plain type that a helper attribute on a function declares.
pub open spec fn fn_type_member(m: TypeMemberKind, f: FnModel, a: HelperAttr) -> bool {
    match a.word {
        HelperWord::GetAttr => match m {
            TypeMemberKind::MemberGet { get } => name_matches(get.name, a.name, f.ident@) && get.ty
                == return_text(f.output) && get.kind == GetKind::Fn { ident: f.ident },
            _ => false,
        },
        HelperWord::FunctionAttr => match m {
            TypeMemberKind::MemberFunction { function } => name_matches(
                function.name,
                a.name,
                f.ident@,
            ) && function.ident == f.ident && function.ret == return_text(f.output)
                && function.params@ == f.inputs@,
            _ => false,
        },
        _ => false,
    }
}

/// Two self types that read the same.
pub open spec fn same_self_type(a: SelfType, b: SelfType) -> bool {
    match (a, b) {
        (SelfType::Path { segments: s1, text: t1 }, SelfType::Path { segments: s2, text: t2 }) => s1@
            == s2@ && t1 == t2,
        (SelfType::Other { text: t1 }, SelfType::Other { text: t2 }) => t1 == t2,
        _ => false,
    }
}

/// The function that stands at position `i` of the items.
pub open spec fn item_fn(items: Seq<ImplItemModel>, i: int) -> FnModel {
    match items[i] {
        ImplItemModel::Fn { f } => f,
        ImplItemModel::Other => arbitrary(),
    }
}

/// The description built from an impl block whose declarations were accepted
/// as `done`.
pub open spec fn impl_result_ok(
    s: Scriptable,
    opts: Seq<ScriptOption>,
    model: ImplModel,
    done: Seq<(usize, HelperAttr)>,
) -> bool {
    &&& same_self_type(crate::model::details_of(s).self_type, model.self_type)
    &&& crate::model::details_of(s).generics == model.generics
    &&& crate::model::details_of(s).where_clause == model.where_clause
    &&& options_ok(crate::model::details_of(s).options, opts)
    &&& match s {
        Scriptable::State { state } => state_option(opts) && state.members.len() == done.len()
            && forall|k: int|
            0 <= k < done.len() ==> fn_state_member(
                #[trigger] state.members@[k],
                item_fn(model.items@, done[k].0 as int),
                done[k].1,
            ),
        Scriptable::Ty { ty } => !state_option(opts) && ty.members.len() == done.len() && forall|
            k: int,
        |
            0 <= k < done.len() ==> fn_type_member(
                #[trigger] ty.members@[k],
                item_fn(model.items@, done[k].0 as int),
                done[k].1,
            ),
    }
}

fn clone_param(p: &Param) -> (r: Param)
    ensures
        r == *p,
{
    match p {
        Param::Receiver => Param::Receiver,
        Param::Typed { pat, ty } => Param::Typed { pat: pat.clone(), ty: ty.clone() },
    }
}

fn clone_params(v: &Vec<Param>) -> (r: Vec<Param>)
    ensures
        r@ == v@,
{
    let mut out: Vec<Param> = Vec::new();
    let mut i: usize = 0;
    while i < v.len()
        invariant
            i <= v.len(),
            out@ == v@.take(i as int),
        decreases v.len() - i,
    {
        out.push(clone_param(&v[i]));
        i = i + 1;
        assert(out@ =~= v@.take(i as int));
    }
    assert(out@ =~= v@);
    out
}

fn clone_self_type(t: &SelfType) -> (r: SelfType)
    ensures
        same_self_type(r, *t),
{
    match t {
        SelfType::Path { segments, text } => SelfType::Path {
            segments: clone_strings(segments),
            text: text.clone(),
        },
        SelfType::Other { text } => SelfType::Other { text: text.clone() },
    }
}

fn tail_strings(v: &Vec<String>) -> (r: Vec<String>)
    requires
        v.len() > 0,
    ensures
        r@ == v@.skip(1),
{
    let mut out: Vec<String> = Vec::new();
    let mut i: usize = 1;
    while i < v.len()
        invariant
            1 <= i <= v.len(),
            out@ == v@.subrange(1, i as int),
        decreases v.len() - i,
    {
        out.push(v[i].clone());
        i = i + 1;
        assert(out@ =~= v@.subrange(1, i as int));
    }
    assert(out@ =~= v@.skip(1));
    out
}

/// The outcome of one helper attribute on a function: the member it
/// declares, or why it is refused.
fn fn_member(is_state: bool, item: usize, f: &FnModel, a: &HelperAttr) -> (r: Result<
    StateMemberKind,
    BuildError,
>)
    ensures
        match fn_event(is_state, item as int, *f, *a) {
            Err(e) => r == Err::<StateMemberKind, BuildError>(e),
            Ok(_) => r matches Ok(m) && fn_state_member(m, *f, *a),
        },
{
    let name = match &a.name {
        Some(n) => n.clone(),
        None => f.ident.clone(),
    };
    match a.word {
        HelperWord::GetAttr => match &f.output {
            ReturnModel::Default => Err(BuildError::GetWithoutReturn { item }),
            ReturnModel::Type { text, tuple } => Ok(
                StateMemberKind::MemberGet {
                    get: Getter {
                        name,
                        ty: text.clone(),
                        kind: GetKind::Fn { ident: f.ident.clone() },
                    },
                },
            ),
        },
        HelperWord::SetAttr => match &f.output {
            ReturnModel::Default => Err(BuildError::SetWithoutReturn { item }),
            ReturnModel::Type { text, tuple } => {
                let types = params_to_types(&f.inputs);
                if types.len() != 1 {
                    Err(BuildError::SetParams { item })
                } else if !is_state {
                    Err(BuildError::RequireState { item, attr: a.span })
                } else {
                    Ok(
                        StateMemberKind::MemberSet {
                            set: Setter {
                                name,
                                ty: types[0].clone(),
                                kind: SetKind::Fn { ident: f.ident.clone(), ret: text.clone() },
                            },
                        },
                    )
                }
            },
        },
        HelperWord::MethodAttr => match &f.output {
            ReturnModel::Default => Err(BuildError::MethodWithoutReturn { item }),
            ReturnModel::Type { text, tuple } => match tuple {
                None => Err(BuildError::MethodNotTuple { item }),
                Some(elems) => if elems.len() == 0 {
                    Err(BuildError::MethodEmptyTuple { item })
                } else if !is_state {
                    Err(BuildError::RequireState { item, attr: a.span })
                } else {
                    Ok(
                        StateMemberKind::MemberMethod {
                            method: Method {
                                name,
                                ident: f.ident.clone(),
                                ret: elems[0].clone(),
                                actions: tail_strings(elems),
                                params: clone_params(&f.inputs),
                            },
                        },
                    )
                },
            },
        },
        HelperWord::CreateAttr => match &f.output {
            ReturnModel::Default => Err(BuildError::CreateWithoutReturn { item }),
            ReturnModel::Type { text, tuple } => if !is_state {
                Err(BuildError::RequireState { item, attr: a.span })
            } else {
                Ok(
                    StateMemberKind::MemberCreate {
                        create: Create {
                            name,
                            ident: f.ident.clone(),
                            action: text.clone(),
                            params: clone_params(&f.inputs),
                        },
                    },
                )
            },
        },
        HelperWord::FunctionAttr => match &f.output {
            ReturnModel::Default => Err(BuildError::FunctionWithoutReturn { item }),
            ReturnModel::Type { text, tuple } => Ok(
                StateMemberKind::MemberFunction {
                    function: Function {
                        name,
                        ident: f.ident.clone(),
                        ret: text.clone(),
                        params: clone_params(&f.inputs),
                    },
                },
            ),
        },
    }
}

/// A member of a plain type, from the same member of a state type.
fn to_type_member(m: StateMemberKind, f: Ghost<FnModel>, a: Ghost<HelperAttr>) -> (r: TypeMemberKind)
    requires
        fn_state_member(m, f@, a@),
        a@.word == HelperWord::GetAttr || a@.word == HelperWord::FunctionAttr,
    ensures
        fn_type_member(r, f@, a@),
{
    match m {
        StateMemberKind::MemberGet { get } => TypeMemberKind::MemberGet { get },
        StateMemberKind::MemberFunction { function } => TypeMemberKind::MemberFunction { function },
        StateMemberKind::MemberSet { set } => {
            assert(false);
            TypeMemberKind::MemberGet {
                get: Getter { name: set.name, ty: set.ty, kind: GetKind::Fn { ident: String::new() } },
            }
        },
        StateMemberKind::MemberCreate { create } => {
            assert(false);
            TypeMemberKind::MemberGet {
                get: Getter { name: create.name, ty: create.action, kind: GetKind::Fn { ident: create.ident } },
            }
        },
        StateMemberKind::MemberMethod { method } => {
            assert(false);
            TypeMemberKind::MemberGet {
                get: Getter { name: method.name, ty: method.ret, kind: GetKind::Fn { ident: method.ident } },
            }
        },
    }
}

proof fn lemma_impl_events_err(is_state: bool, items: Seq<ImplItemModel>, j: int)
    requires
        0 <= j <= items.len(),
        collect(impl_events(is_state, items.take(j))) is Err,
    ensures
        collect(impl_events(is_state, items)) == collect(impl_events(is_state, items.take(j))),
    decreases items.len() - j,
{
    if j < items.len() {
        assert(items.drop_last().take(j) =~= items.take(j));
        lemma_impl_events_err(is_state, items.drop_last(), j);
        lemma_collect_err_append(
            impl_events(is_state, items.drop_last()),
            item_events(is_state, items.len() - 1, items.last()),
        );
    } else {
        assert(items.take(j) =~= items);
    }
}

/// Builds the description of an impl block: each helper attribute on a
/// function declares a member of that kind, named by its `name` option or by
/// the function. A getter, setter, constructor or function must declare a
/// return type; a setter takes exactly one parameter besides the receiver; a
/// method returns a tuple whose first element is the script's value and the
/// rest its actions; setters, methods and constructors are refused on a
/// plain type.
pub fn build_impl(options: &ImplOptions, model: &ImplModel) -> (r: Result<Scriptable, BuildError>)
    ensures
        match collect(impl_events(state_option(options.options@), model.items@)) {
            Err(e) => r == Err::<Scriptable, BuildError>(e),
            Ok(done) => r matches Ok(s) && impl_result_ok(s, options.options@, *model, done),
        },
{
    let is_state = options.is_state();
    let ghost opts = options.options@;
    let ghost items = model.items@;
    let mut state_members: Vec<StateMemberKind> = Vec::new();
    let mut type_members: Vec<TypeMemberKind> = Vec::new();
    let ghost mut done: Seq<(usize, HelperAttr)> = Seq::empty();
    let mut i: usize = 0;
    while i < model.items.len()
        invariant
            i <= model.items.len(),
            items == model.items@,
            opts == options.options@,
            is_state == state_option(opts),
            collect(impl_events(is_state, items.take(i as int))) == Ok::<
                Seq<(usize, HelperAttr)>,
                BuildError,
            >(done),
            forall|k: int|
                0 <= k < done.len() ==> (#[trigger] done[k]).0 < i && items[done[k].0 as int] is Fn,
            is_state ==> state_members.len() == done.len() && forall|k: int|
                0 <= k < done.len() ==> fn_state_member(
                    #[trigger] state_members@[k],
                    item_fn(items, done[k].0 as int),
                    done[k].1,
                ),
            !is_state ==> type_members.len() == done.len() && forall|k: int|
                0 <= k < done.len() ==> fn_type_member(
                    #[trigger] type_members@[k],
                    item_fn(items, done[k].0 as int),
                    done[k].1,
                ),
        decreases model.items.len() - i,
    {
        assert(items.take(i + 1).drop_last() =~= items.take(i as int));
        assert(items.take(i + 1).last() == items[i as int]);
        let ghost before = impl_events(is_state, items.take(i as int));
        let ghost evs = item_events(is_state, i as int, items[i as int]);
        assert(impl_events(is_state, items.take(i + 1)) == before + evs);
        match &model.items[i] {
            ImplItemModel::Other => {
                assert(evs =~= Seq::<Result<(usize, HelperAttr), BuildError>>::empty());
                assert(before + evs =~= before);
            },
            ImplItemModel::Fn { f } => {
                assert(item_fn(items, i as int) == *f);
                let attrs = match fn_attrs(&f.attrs, i) {
                    Ok(v) => v,
                    Err(e) => {
                        proof {
                            assert(evs =~= seq![Err::<(usize, HelperAttr), BuildError>(e)]);
                            lemma_collect_push(before, Err(e));
                            assert(before.push(Err(e)) =~= before + evs);
                            lemma_impl_events_err(is_state, items, i + 1);
                        }
                        return Err(e);
                    },
                };
                let mut k: usize = 0;
                while k < attrs.len()
                    invariant
                        k <= attrs.len(),
                        i < model.items.len(),
                        items == model.items@,
                        opts == options.options@,
                        items[i as int] == (ImplItemModel::Fn { f: *f }),
                        item_fn(items, i as int) == *f,
                        is_state == state_option(opts),
                        evs == item_events(is_state, i as int, items[i as int]),
                        classify_attrs(f.attrs@, false, i as int) == Ok::<
                            Seq<HelperAttr>,
                            BuildError,
                        >(attrs@),
                        before == impl_events(is_state, items.take(i as int)),
                        impl_events(is_state, items.take(i + 1)) == before + evs,
                        collect(before + evs.take(k as int)) == Ok::<
                            Seq<(usize, HelperAttr)>,
                            BuildError,
                        >(done),
                        forall|q: int|
                            0 <= q < done.len() ==> (#[trigger] done[q]).0 <= i && items[done[q].0 as int] is Fn,
                        is_state ==> state_members.len() == done.len() && forall|q: int|
                            0 <= q < done.len() ==> fn_state_member(
                                #[trigger] state_members@[q],
                                item_fn(items, done[q].0 as int),
                                done[q].1,
                            ),
                        !is_state ==> type_members.len() == done.len() && forall|q: int|
                            0 <= q < done.len() ==> fn_type_member(
                                #[trigger] type_members@[q],
                                item_fn(items, done[q].0 as int),
                                done[q].1,
                            ),
                    decreases attrs.len() - k,
                {
                    let a = &attrs[k];
                    assert(evs[k as int] == fn_event(is_state, i as int, *f, *a));
                    assert((before + evs.take(k as int)).push(evs[k as int]) =~= before + evs.take(
                        k + 1,
                    ));
                    proof {
                        lemma_collect_push(before + evs.take(k as int), evs[k as int]);
                    }
                    match fn_member(is_state, i, f, a) {
                        Err(e) => {
                            proof {
                                lemma_collect_err_append(
                                    before + evs.take(k + 1),
                                    evs.skip(k + 1),
                                );
                                assert(before + evs.take(k + 1) + evs.skip(k + 1) =~= before + evs);
                                lemma_impl_events_err(is_state, items, i + 1);
                            }
                            return Err(e);
                        },
                        Ok(m) => {
                            if is_state {
                                state_members.push(m);
                            } else {
                                let tm = to_type_member(m, Ghost(*f), Ghost(*a));
                                type_members.push(tm);
                            }
                        },
                    }
                    proof {
                        done = done.push((i, *a));
                    }
                    k = k + 1;
                }
                assert(evs.take(attrs.len() as int) =~= evs);
            },
        }
        i = i + 1;
    }
    assert(items.take(i as int) =~= items);
    let details = ScriptableDetails {
        self_type: clone_self_type(&model.self_type),
        options: assemble_options(&options.options),
        generics: model.generics.clone(),
        where_clause: model.where_clause.clone(),
    };
    if is_state {
        Ok(Scriptable::State { state: ScriptableState { details, members: state_members } })
    } else {
        Ok(Scriptable::Ty { ty: ScriptableType { details, members: type_members } })
    }
}

/// What `script` was put on: a struct or an impl block with the options
/// written in the attribute, or any other item.
pub enum ScriptItem {
    Struct(StructOptions, StructModel),
    Impl(ImplOptions, ImplModel),
    Other,
}

/// What `build_struct` gives back for these options and this struct.
pub open spec fn struct_outcome(
    options: StructOptions,
    model: StructModel,
    r: Result<Scriptable, BuildError>,
) -> bool {
    match collect(struct_events(state_option(options.options@), model.fields@)) {
        Err(e) => r == Err::<Scriptable, BuildError>(e),
        Ok(done) => r matches Ok(s) && struct_result_ok(s, options.options@, model, done),
    }
}

/// What `build_impl` gives back for these options and this impl block.
pub open spec fn impl_outcome(
    options: ImplOptions,
    model: ImplModel,
    r: Result<Scriptable, BuildError>,
) -> bool {
    match collect(impl_events(state_option(options.options@), model.items@)) {
        Err(e) => r == Err::<Scriptable, BuildError>(e),
        Ok(done) => r matches Ok(s) && impl_result_ok(s, options.options@, model, done),
    }
}

/// The description that `script` builds of the item it is put on; any item
/// but a struct or an impl block is refused.
pub fn script_item(item: &ScriptItem) -> (r: Result<Scriptable, BuildError>)
    ensures
        match *item {
            ScriptItem::Struct(options, model) => struct_outcome(options, model, r),
            ScriptItem::Impl(options, model) => impl_outcome(options, model, r),
            ScriptItem::Other => r == Err::<Scriptable, BuildError>(BuildError::NotStructOrImpl),
        },
{
    match item {
        ScriptItem::Struct(options, model) => build_struct(options, model),
        ScriptItem::Impl(options, model) => build_impl(options, model),
        ScriptItem::Other => Err(BuildError::NotStructOrImpl),
    }
}


/// Whatever helper attribute declares a member of an impl block (`get`,
/// `set`, `method`, `create` or `function` alike), the member is named by the
/// attribute's first `name` option when one is given, and after its
/// function otherwise. The members come in the order of their declarations.
pub proof fn lemma_impl_member_names(options: ImplOptions, model: ImplModel, r: Result<Scriptable, BuildError>)
    requires
        call_ensures(build_impl, (&options, &model), r),
        r is Ok,
    ensures
        collect(impl_events(state_option(options.options@), model.items@)) is Ok,
        ({
            let done = collect(impl_events(state_option(options.options@), model.items@))->Ok_0;
            match r->Ok_0 {
                Scriptable::State { state } => state.members.len() == done.len() && forall|k: int|
                    0 <= k < done.len() ==> state_member_name(#[trigger] state.members@[k]) == match done[k].1.name {
                        Some(n) => n@,
                        None => item_fn(model.items@, done[k].0 as int).ident@,
                    },
                Scriptable::Ty { ty } => ty.members.len() == done.len() && forall|k: int|
                    0 <= k < done.len() ==> type_member_name(#[trigger] ty.members@[k]) == match done[k].1.name {
                        Some(n) => n@,
                        None => item_fn(model.items@, done[k].0 as int).ident@,
                    },
            }
        }),
{
    let done = collect(impl_events(state_option(options.options@), model.items@))->Ok_0;
    let s = r->Ok_0;
    assert(impl_result_ok(s, options.options@, model, done));
    match s {
        Scriptable::State { state } => {
            assert forall|k: int| 0 <= k < done.len() implies state_member_name(#[trigger] state.members@[k]) == match done[k].1.name {
                Some(n) => n@,
                None => item_fn(model.items@, done[k].0 as int).ident@,
            } by {
                assert(fn_state_member(state.members@[k], item_fn(model.items@, done[k].0 as int), done[k].1));
            }
        },
        Scriptable::Ty { ty } => {
            assert forall|k: int| 0 <= k < done.len() implies type_member_name(#[trigger] ty.members@[k]) == match done[k].1.name {
                Some(n) => n@,
                None => item_fn(model.items@, done[k].0 as int).ident@,
            } by {
                assert(fn_type_member(ty.members@[k], item_fn(model.items@, done[k].0 as int), done[k].1));
            }
        },
    }
}


/// Whatever helper attribute declares a member on a struct's field (`get`
/// or `set` alike), the member is named by the attribute's first `name`
/// option when one is given, and after its field otherwise (a tuple
/// struct's field by its position). The members come in the order of their
/// declarations.
pub proof fn lemma_struct_member_names(options: StructOptions, model: StructModel, r: Result<Scriptable, BuildError>)
    requires
        call_ensures(build_struct, (&options, &model), r),
        r is Ok,
    ensures
        collect(struct_events(state_option(options.options@), model.fields@)) is Ok,
        ({
            let done = collect(struct_events(state_option(options.options@), model.fields@))->Ok_0;
            match r->Ok_0 {
                Scriptable::State { state } => state.members.len() == done.len() && forall|k: int|
                    0 <= k < done.len() ==> state_member_name(#[trigger] state.members@[k]) == match done[k].1.name {
                        Some(n) => n@,
                        None => match model.fields@[done[k].0 as int].ident {
                            Some(id) => id@,
                            None => decimal(done[k].0 as nat),
                        },
                    },
                Scriptable::Ty { ty } => ty.members.len() == done.len() && forall|k: int|
                    0 <= k < done.len() ==> type_member_name(#[trigger] ty.members@[k]) == match done[k].1.name {
                        Some(n) => n@,
                        None => match model.fields@[done[k].0 as int].ident {
                            Some(id) => id@,
                            None => decimal(done[k].0 as nat),
                        },
                    },
            }
        }),
{
    let done = collect(struct_events(state_option(options.options@), model.fields@))->Ok_0;
    let s = r->Ok_0;
    assert(struct_result_ok(s, options.options@, model, done));
    match s {
        Scriptable::State { state } => {
            assert forall|k: int| 0 <= k < done.len() implies state_member_name(#[trigger] state.members@[k]) == match done[k].1.name {
                Some(n) => n@,
                None => match model.fields@[done[k].0 as int].ident {
                    Some(id) => id@,
                    None => decimal(done[k].0 as nat),
                },
            } by {
                assert(field_state_member(state.members@[k], model.fields@[done[k].0 as int], done[k].0 as int, done[k].1));
            }
        },
        Scriptable::Ty { ty } => {
            assert forall|k: int| 0 <= k < done.len() implies type_member_name(#[trigger] ty.members@[k]) == match done[k].1.name {
                Some(n) => n@,
                None => match model.fields@[done[k].0 as int].ident {
                    Some(id) => id@,
                    None => decimal(done[k].0 as nat),
                },
            } by {
                assert(field_type_member(ty.members@[k], model.fields@[done[k].0 as int], done[k].0 as int, done[k].1));
            }
        },
    }
}

} // verus!
