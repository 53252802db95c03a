//! From argument maps to hashing policies.
//!
//! Resolution runs once for a type. It reads nothing but the annotations,
//! so the same annotations always give the same policies, and the policy of
//! one field does not depend on any other field.

use vstd::prelude::*;

use crate::args::{ArgList, ArgModel};
use crate::error::ConfigError;
use crate::meta::{FieldDecl, TypeDecl, VariantDecl};
use crate::parse::get_annotation_args;

verus! {

/// A transform of a field's value, as a mathematical value.
pub enum FilterModel {
    Identity,
    Deref,
    Named(Seq<char>),
}

/// The transform that is applied to a field before its value is hashed.
#[derive(Debug, Clone, PartialEq, Eq)]
pub enum Filter {
    /// The field as it is.
    Identity,
    /// What the field points to.
    Deref,
    /// The function of one argument that goes by this name.
    Named(String),
}

impl View for Filter {
    type V = FilterModel;

    open spec fn view(&self) -> FilterModel {
        match self {
            Filter::Identity => FilterModel::Identity,
            Filter::Deref => FilterModel::Deref,
            Filter::Named(name) => FilterModel::Named(name@),
        }
    }
}

impl DeepView for Filter {
    type V = FilterModel;

    open spec fn deep_view(&self) -> FilterModel {
        self@
    }
}

/// The policy of one field, as a mathematical value.
pub enum FieldPolicyModel {
    Skip,
    ByValue { tag: Seq<char>, filter: FilterModel },
    ByRaw { tag: Seq<char>, filter: FilterModel },
    CustomField { function_name: Seq<char> },
    Default,
}

/// How one field enters the hash of its aggregate.
#[derive(Debug, Clone, PartialEq, Eq)]
pub enum FieldPolicy {
    /// The field adds nothing.
    Skip,
    /// The contents of the filtered field are hashed, under `tag`.
    ByValue { tag: String, filter: Filter },
    /// The 64 bits of the filtered field are appended as they are, under
    /// `tag`.
    ByRaw { tag: String, filter: Filter },
    /// The named function appends what it sees fit.
    CustomField { function_name: String },
    /// The structural hash of the field, one level further down, is
    /// appended.
    Default,
}

impl View for FieldPolicy {
    type V = FieldPolicyModel;

    open spec fn view(&self) -> FieldPolicyModel {
        match self {
            FieldPolicy::Skip => FieldPolicyModel::Skip,
            FieldPolicy::ByValue { tag, filter } => FieldPolicyModel::ByValue {
                tag: tag@,
                filter: filter@,
            },
            FieldPolicy::ByRaw { tag, filter } => FieldPolicyModel::ByRaw {
                tag: tag@,
                filter: filter@,
            },
            FieldPolicy::CustomField { function_name } => FieldPolicyModel::CustomField {
                function_name: function_name@,
            },
            FieldPolicy::Default => FieldPolicyModel::Default,
        }
    }
}

impl DeepView for FieldPolicy {
    type V = FieldPolicyModel;

    open spec fn deep_view(&self) -> FieldPolicyModel {
        self@
    }
}

/// The policy of a type, as a mathematical value.
pub struct AggregatePolicyModel {
    pub custom_hash: Option<Seq<char>>,
    pub ahasher: Seq<char>,
    pub shasher: Seq<char>,
    pub hasher: Seq<char>,
}

/// How a value of a type is hashed as a whole.
#[derive(Debug, Clone, PartialEq, Eq)]
pub struct AggregatePolicy {
    /// The function that hashes the whole value in place of the fields, if
    /// the type names one.
    pub custom_hash: Option<String>,
    /// The accumulator kind of the first hash channel.
    pub ahasher: String,
    /// The accumulator kind of the second hash channel.
    pub shasher: String,
    /// The accumulator kind that the fields are fed to: the one that the
    /// type names, else that of the first channel. A type with a
    /// whole-value function feeds no accumulator, and this is then the kind
    /// of the first channel whatever the type names.
    pub hasher: String,
}

impl View for AggregatePolicy {
    type V = AggregatePolicyModel;

    open spec fn view(&self) -> AggregatePolicyModel {
        AggregatePolicyModel {
            custom_hash: match self.custom_hash {
                Some(name) => Some(name@),
                None => None,
            },
            ahasher: self.ahasher@,
            shasher: self.shasher@,
            hasher: self.hasher@,
        }
    }
}

/// The policies of a type, as a mathematical value.
pub struct TypePolicyModel {
    pub aggregate: AggregatePolicyModel,
    pub variants: Seq<Seq<FieldPolicyModel>>,
}

/// All that the annotations of a type resolve to.
#[derive(Debug, Clone, PartialEq, Eq)]
pub struct TypePolicy {
    /// The policy of the type as a whole.
    pub aggregate: AggregatePolicy,
    /// For each variant, in declaration order, the policy of each of its
    /// fields, in declaration order. Empty where the type has a whole-value
    /// function: its fields are then never looked at.
    pub variants: Vec<Vec<FieldPolicy>>,
}

impl View for TypePolicy {
    type V = TypePolicyModel;

    open spec fn view(&self) -> TypePolicyModel {
        TypePolicyModel { aggregate: self.aggregate@, variants: self.variants.deep_view() }
    }
}

/// The tag of a field that names none.
pub open spec fn unknown_tag() -> Seq<char> {
    "UNKNOWN_TAG"@
}

/// The kind of the first hash channel where the type names none.
pub open spec fn default_ahasher() -> Seq<char> {
    "__XCHA"@
}

/// The kind of the second hash channel where the type names none.
pub open spec fn default_shasher() -> Seq<char> {
    "__XCHS"@
}

/// An argument read as a string.
pub open spec fn str_arg(arg: ArgModel) -> Result<Seq<char>, ConfigError> {
    match arg {
        ArgModel::Str(text) => Ok(text),
        _ => Err(ConfigError::ExpectedString),
    }
}

/// An argument read as a list.
pub open spec fn list_arg(arg: ArgModel) -> Result<Map<Seq<char>, ArgModel>, ConfigError> {
    match arg {
        ArgModel::List(inner) => Ok(inner),
        _ => Err(ConfigError::ExpectedList),
    }
}

/// The string under `key`, or `default` where the key is absent. A key that
/// is present and holds no string is a fault.
pub open spec fn str_arg_or(args: Map<Seq<char>, ArgModel>, key: Seq<char>, default: Seq<char>)
    -> Result<Seq<char>, ConfigError> {
    if args.contains_key(key) {
        str_arg(args[key])
    } else {
        Ok(default)
    }
}

/// The tag and the filter that the arguments of `check_value` or
/// `check_raw` give. The tag is read first.
pub open spec fn direct_item_config(args: Map<Seq<char>, ArgModel>, default_filter: FilterModel)
    -> Result<(Seq<char>, FilterModel), ConfigError> {
    match str_arg_or(args, "tag"@, unknown_tag()) {
        Err(e) => Err(e),
        Ok(tag) => if args.contains_key("filter"@) {
            match str_arg(args["filter"@]) {
                Err(e) => Err(e),
                Ok(name) => Ok((tag, FilterModel::Named(name))),
            }
        } else {
            Ok((tag, default_filter))
        },
    }
}

/// Whether the arguments switch the check of a field off.
pub open spec fn is_disabled(args: Map<Seq<char>, ArgModel>) -> bool {
    args.contains_key("no"@) || args.contains_key("never"@) || args.contains_key("disable"@)
}

/// The policy that the arguments of a field give.
///
/// The keys are tried in a fixed order and the first one present decides:
/// `no`, `never` or `disable`; `check_value`; `check_raw`; `custom_hash`. A
/// field with none of them is hashed structurally. Keys behind the deciding
/// one are not read, so a fault under one of them goes unseen.
pub open spec fn field_policy(args: Map<Seq<char>, ArgModel>) -> Result<
    FieldPolicyModel,
    ConfigError,
> {
    if is_disabled(args) {
        Ok(FieldPolicyModel::Skip)
    } else if args.contains_key("check_value"@) {
        match list_arg(args["check_value"@]) {
            Err(e) => Err(e),
            Ok(inner) => match direct_item_config(inner, FilterModel::Identity) {
                Err(e) => Err(e),
                Ok((tag, filter)) => Ok(FieldPolicyModel::ByValue { tag, filter }),
            },
        }
    } else if args.contains_key("check_raw"@) {
        match list_arg(args["check_raw"@]) {
            Err(e) => Err(e),
            Ok(inner) => match direct_item_config(inner, FilterModel::Deref) {
                Err(e) => Err(e),
                Ok((tag, filter)) => Ok(FieldPolicyModel::ByRaw { tag, filter }),
            },
        }
    } else if args.contains_key("custom_hash"@) {
        match str_arg(args["custom_hash"@]) {
            Err(e) => Err(e),
            Ok(function_name) => Ok(FieldPolicyModel::CustomField { function_name }),
        }
    } else {
        Ok(FieldPolicyModel::Default)
    }
}

/// The policy that the arguments of a type give.
///
/// The two channel kinds are read first, then the whole-value function.
/// The accumulator kind is read only where there is no such function.
pub open spec fn aggregate_policy(args: Map<Seq<char>, ArgModel>) -> Result<
    AggregatePolicyModel,
    ConfigError,
> {
    match str_arg_or(args, "ahasher_override"@, default_ahasher()) {
        Err(e) => Err(e),
        Ok(ahasher) => match str_arg_or(args, "shasher_override"@, default_shasher()) {
            Err(e) => Err(e),
            Ok(shasher) => if args.contains_key("custom_hash"@) {
                match str_arg(args["custom_hash"@]) {
                    Err(e) => Err(e),
                    Ok(function_name) => Ok(
                        AggregatePolicyModel {
                            custom_hash: Some(function_name),
                            ahasher,
                            shasher,
                            hasher: ahasher,
                        },
                    ),
                }
            } else {
                match str_arg_or(args, "hasher"@, ahasher) {
                    Err(e) => Err(e),
                    Ok(hasher) => Ok(
                        AggregatePolicyModel { custom_hash: None, ahasher, shasher, hasher },
                    ),
                }
            },
        },
    }
}

/// The string under `key` as a name of its own, or `default`.
fn get_str_or(args: &ArgList, key: &str, default: String) -> (r: Result<String, ConfigError>)
    ensures
        match r {
            Ok(name) => str_arg_or(args@, key@, default@) == Ok::<Seq<char>, ConfigError>(name@),
            Err(e) => str_arg_or(args@, key@, default@) == Err::<Seq<char>, ConfigError>(e),
        },
{
    match args.get(key) {
        Some(arg) => arg.get_str_ident(),
        None => Ok(default),
    }
}

/// Reads the tag and the filter of a field that is checked by value or by
/// its raw bits.
///
/// `tag` names the group under which the check is reported and is
/// `UNKNOWN_TAG` where absent. `filter` names the transform to apply first;
/// where absent, the caller's `default_filter` is taken.
pub fn get_direct_item_config(args: &ArgList, default_filter: Filter) -> (r: Result<
    (String, Filter),
    ConfigError,
>)
    ensures
        match r {
            Ok((tag, filter)) => direct_item_config(args@, default_filter@) == Ok::<
                (Seq<char>, FilterModel),
                ConfigError,
            >((tag@, filter@)),
            Err(e) => direct_item_config(args@, default_filter@) == Err::<
                (Seq<char>, FilterModel),
                ConfigError,
            >(e),
        },
{
    let tag = match get_str_or(args, "tag", "UNKNOWN_TAG".to_owned()) {
        Ok(tag) => tag,
        Err(e) => {
            return Err(e);
        },
    };
    let filter = match args.get("filter") {
        Some(arg) => match arg.get_str_ident() {
            Ok(name) => Filter::Named(name),
            Err(e) => {
                return Err(e);
            },
        },
        None => default_filter,
    };
    Ok((tag, filter))
}

/// Resolves the policy of one field from its arguments.
///
/// Exactly one policy comes out. Where several deciding keys are present,
/// the order `no`/`never`/`disable`, `check_value`, `check_raw`,
/// `custom_hash` settles which.
pub fn resolve_field_policy(args: &ArgList) -> (r: Result<FieldPolicy, ConfigError>)
    ensures
        match r {
            Ok(policy) => field_policy(args@) == Ok::<FieldPolicyModel, ConfigError>(policy@),
            Err(e) => field_policy(args@) == Err::<FieldPolicyModel, ConfigError>(e),
        },
{
    if args.contains_key("no") || args.contains_key("never") || args.contains_key("disable") {
        return Ok(FieldPolicy::Skip);
    }
    if let Some(arg) = args.get("check_value") {
        let inner = match arg.get_list() {
            Ok(inner) => inner,
            Err(e) => {
                return Err(e);
            },
        };
        return match get_direct_item_config(inner, Filter::Identity) {
            Ok((tag, filter)) => Ok(FieldPolicy::ByValue { tag, filter }),
            Err(e) => Err(e),
        };
    }
    if let Some(arg) = args.get("check_raw") {
        let inner = match arg.get_list() {
            Ok(inner) => inner,
            Err(e) => {
                return Err(e);
            },
        };
        return match get_direct_item_config(inner, Filter::Deref) {
            Ok((tag, filter)) => Ok(FieldPolicy::ByRaw { tag, filter }),
            Err(e) => Err(e),
        };
    }
    if let Some(arg) = args.get("custom_hash") {
        return match arg.get_str_ident() {
            Ok(function_name) => Ok(FieldPolicy::CustomField { function_name }),
            Err(e) => Err(e),
        };
    }
    Ok(FieldPolicy::Default)
}

/// Resolves the policy of a type from its arguments.
pub fn resolve_aggregate_policy(args: &ArgList) -> (r: Result<AggregatePolicy, ConfigError>)
    ensures
        match r {
            Ok(policy) => aggregate_policy(args@) == Ok::<AggregatePolicyModel, ConfigError>(
                policy@,
            ),
            Err(e) => aggregate_policy(args@) == Err::<AggregatePolicyModel, ConfigError>(e),
        },
{
    let ahasher = match get_str_or(args, "ahasher_override", "__XCHA".to_owned()) {
        Ok(name) => name,
        Err(e) => {
            return Err(e);
        },
    };
    let shasher = match get_str_or(args, "shasher_override", "__XCHS".to_owned()) {
        Ok(name) => name,
        Err(e) => {
            return Err(e);
        },
    };
    if let Some(arg) = args.get("custom_hash") {
        return match arg.get_str_ident() {
            Ok(function_name) => {
                let hasher = ahasher.clone();
                Ok(AggregatePolicy { custom_hash: Some(function_name), ahasher, shasher, hasher })
            },
            Err(e) => Err(e),
        };
    }
    match get_str_or(args, "hasher", ahasher.clone()) {
        Ok(hasher) => Ok(AggregatePolicy { custom_hash: None, ahasher, shasher, hasher }),
        Err(e) => Err(e),
    }
}

/// The policy of a field as it is declared.
pub open spec fn declared_field_policy(field: FieldDecl) -> Result<FieldPolicyModel, ConfigError> {
    match crate::parse::annotation_args(field.attrs@) {
        Err(e) => Err(e),
        Ok(args) => field_policy(args),
    }
}

/// The policies of the fields of one variant, in declaration order. The
/// first field at fault decides the error.
pub open spec fn declared_fields_policies(fields: Seq<FieldDecl>) -> Result<
    Seq<FieldPolicyModel>,
    ConfigError,
>
    decreases fields.len(),
{
    if fields.len() == 0 {
        Ok(Seq::empty())
    } else {
        match declared_fields_policies(fields.drop_last()) {
            Err(e) => Err(e),
            Ok(before) => match declared_field_policy(fields.last()) {
                Err(e) => Err(e),
                Ok(policy) => Ok(before.push(policy)),
            },
        }
    }
}

/// The policies of the fields of each variant, in declaration order. The
/// first variant with a field at fault decides the error.
pub open spec fn declared_variants_policies(variants: Seq<VariantDecl>) -> Result<
    Seq<Seq<FieldPolicyModel>>,
    ConfigError,
>
    decreases variants.len(),
{
    if variants.len() == 0 {
        Ok(Seq::empty())
    } else {
        match declared_variants_policies(variants.drop_last()) {
            Err(e) => Err(e),
            Ok(before) => match declared_fields_policies(variants.last().fields@) {
                Err(e) => Err(e),
                Ok(policies) => Ok(before.push(policies)),
            },
        }
    }
}

/// The policies of a type as it is declared.
///
/// The annotations of the type are resolved first. Where they name a
/// whole-value function, the fields are not looked at; else every field of
/// every variant is resolved, and one fault among them is the fault of the
/// type.
pub open spec fn type_policy(decl: TypeDecl) -> Result<TypePolicyModel, ConfigError> {
    match crate::parse::annotation_args(decl.attrs@) {
        Err(e) => Err(e),
        Ok(args) => match aggregate_policy(args) {
            Err(e) => Err(e),
            Ok(aggregate) => if aggregate.custom_hash is Some {
                Ok(TypePolicyModel { aggregate, variants: Seq::empty() })
            } else {
                match declared_variants_policies(decl.variants@) {
                    Err(e) => Err(e),
                    Ok(variants) => Ok(TypePolicyModel { aggregate, variants }),
                }
            },
        },
    }
}

/// A fault among the first fields is the fault of all of them.
proof fn lemma_fields_prefix_error(fields: Seq<FieldDecl>, n: int)
    requires
        0 <= n <= fields.len(),
        declared_fields_policies(fields.take(n)) is Err,
    ensures
        declared_fields_policies(fields) == declared_fields_policies(fields.take(n)),
    decreases fields.len(),
{
    if n == fields.len() {
        assert(fields.take(n) =~= fields);
    } else {
        assert(fields.drop_last().take(n) =~= fields.take(n));
        lemma_fields_prefix_error(fields.drop_last(), n);
    }
}

/// A fault among the first variants is the fault of all of them.
proof fn lemma_variants_prefix_error(variants: Seq<VariantDecl>, n: int)
    requires
        0 <= n <= variants.len(),
        declared_variants_policies(variants.take(n)) is Err,
    ensures
        declared_variants_policies(variants) == declared_variants_policies(variants.take(n)),
    decreases variants.len(),
{
    if n == variants.len() {
        assert(variants.take(n) =~= variants);
    } else {
        assert(variants.drop_last().take(n) =~= variants.take(n));
        lemma_variants_prefix_error(variants.drop_last(), n);
    }
}

/// Resolves the policy of each field of one variant.
pub fn resolve_fields(fields: &Vec<FieldDecl>) -> (r: Result<Vec<FieldPolicy>, ConfigError>)
    ensures
        match r {
            Ok(policies) => declared_fields_policies(fields@) == Ok::<
                Seq<FieldPolicyModel>,
                ConfigError,
            >(policies.deep_view()),
            Err(e) => declared_fields_policies(fields@) == Err::<Seq<FieldPolicyModel>, ConfigError>(
                e,
            ),
        },
{
    let mut policies: Vec<FieldPolicy> = Vec::new();
    let mut i: usize = 0;
    assert(policies.deep_view() =~= Seq::<FieldPolicyModel>::empty());
    while i < fields.len()
        invariant
            i <= fields.len(),
            declared_fields_policies(fields@.take(i as int)) == Ok::<
                Seq<FieldPolicyModel>,
                ConfigError,
            >(policies.deep_view()),
        decreases fields.len() - i,
    {
        proof {
            let upto = fields@.take(i + 1);
            assert(upto.drop_last() =~= fields@.take(i as int));
            assert(upto.last() == fields@[i as int]);
        }
        let resolved = match get_annotation_args(fields[i].attrs.as_slice()) {
            Ok(args) => resolve_field_policy(&args),
            Err(e) => Err(e),
        };
        match resolved {
            Ok(policy) => {
                let ghost before = policies.deep_view();
                policies.push(policy);
                assert(policies.deep_view() =~= before.push(policy@));
            },
            Err(e) => {
                proof {
                    lemma_fields_prefix_error(fields@, i + 1);
                }
                return Err(e);
            },
        }
        i = i + 1;
    }
    proof {
        assert(fields@.take(i as int) =~= fields@);
    }
    Ok(policies)
}

/// Resolves everything that the annotations of a type say: the policy of
/// the type, and the policy of each field of each variant.
///
/// Nothing of a value is hashed before this has succeeded. A type with a
/// whole-value function comes back without field policies, whatever its
/// fields are annotated with.
pub fn xcheck_hash_derive(decl: &TypeDecl) -> (r: Result<TypePolicy, ConfigError>)
    ensures
        match r {
            Ok(policy) => type_policy(*decl) == Ok::<TypePolicyModel, ConfigError>(policy@),
            Err(e) => type_policy(*decl) == Err::<TypePolicyModel, ConfigError>(e),
        },
{
    let top_args = match get_annotation_args(decl.attrs.as_slice()) {
        Ok(args) => args,
        Err(e) => {
            return Err(e);
        },
    };
    let aggregate = match resolve_aggregate_policy(&top_args) {
        Ok(aggregate) => aggregate,
        Err(e) => {
            return Err(e);
        },
    };
    let mut variants: Vec<Vec<FieldPolicy>> = Vec::new();
    assert(variants.deep_view() =~= Seq::<Seq<FieldPolicyModel>>::empty());
    if aggregate.custom_hash.is_some() {
        return Ok(TypePolicy { aggregate, variants });
    }
    let mut i: usize = 0;
    while i < decl.variants.len()
        invariant
            i <= decl.variants.len(),
            crate::parse::annotation_args(decl.attrs@) == Ok::<Map<Seq<char>, ArgModel>, ConfigError>(
                top_args@,
            ),
            aggregate_policy(top_args@) == Ok::<AggregatePolicyModel, ConfigError>(aggregate@),
            aggregate.custom_hash is None,
            declared_variants_policies(decl.variants@.take(i as int)) == Ok::<
                Seq<Seq<FieldPolicyModel>>,
                ConfigError,
            >(variants.deep_view()),
        decreases decl.variants.len() - i,
    {
        proof {
            let upto = decl.variants@.take(i + 1);
            assert(upto.drop_last() =~= decl.variants@.take(i as int));
            assert(upto.last() == decl.variants@[i as int]);
        }
        match resolve_fields(&decl.variants[i].fields) {
            Ok(policies) => {
                let ghost before = variants.deep_view();
                let ghost added = policies.deep_view();
                variants.push(policies);
                assert(variants.deep_view() =~= before.push(added));
            },
            Err(e) => {
                proof {
                    lemma_variants_prefix_error(decl.variants@, i + 1);
                }
                return Err(e);
            },
        }
        i = i + 1;
    }
    proof {
        assert(decl.variants@.take(i as int) =~= decl.variants@);
    }
    Ok(TypePolicy { aggregate, variants })
}

/// Switching a field off wins over every other key: with `no`, `never` or
/// `disable` the field is skipped, whatever else its arguments hold, be it
/// at fault or not.
pub proof fn lemma_skip_wins(args: Map<Seq<char>, ArgModel>)
    requires
        is_disabled(args),
    ensures
        field_policy(args) == Ok::<FieldPolicyModel, ConfigError>(FieldPolicyModel::Skip),
{
}

/// `check_value` wins over `check_raw` and `custom_hash`: where a field
/// that is not switched off has `check_value`, its policy is settled by
/// what stands under that key alone, and is a check by value if it is a
/// policy at all.
pub proof fn lemma_check_value_wins(args: Map<Seq<char>, ArgModel>, other: Map<Seq<char>, ArgModel>)
    requires
        !is_disabled(args),
        !is_disabled(other),
        args.contains_key("check_value"@),
        other.contains_key("check_value"@),
        args["check_value"@] == other["check_value"@],
    ensures
        field_policy(args) == field_policy(other),
        field_policy(args) matches Ok(policy) ==> policy is ByValue,
{
}

/// `check_raw` wins over `custom_hash`: where a field that is not switched
/// off has no `check_value` and has `check_raw`, its policy is settled by
/// what stands under that key alone, and is a check of the raw bits if it is
/// a policy at all.
pub proof fn lemma_check_raw_wins(args: Map<Seq<char>, ArgModel>, other: Map<Seq<char>, ArgModel>)
    requires
        !is_disabled(args),
        !is_disabled(other),
        !args.contains_key("check_value"@),
        !other.contains_key("check_value"@),
        args.contains_key("check_raw"@),
        other.contains_key("check_raw"@),
        args["check_raw"@] == other["check_raw"@],
    ensures
        field_policy(args) == field_policy(other),
        field_policy(args) matches Ok(policy) ==> policy is ByRaw,
{
}

/// Resolving arguments can only fail on the shape of an argument: a key
/// that needs a string or a list and holds something else.
pub proof fn lemma_resolution_fault_is_of_shape(args: Map<Seq<char>, ArgModel>)
    ensures
        field_policy(args) matches Err(e) ==> e.is_shape(),
        aggregate_policy(args) matches Err(e) ==> e.is_shape(),
{
}

/// Every field gets exactly one policy or a fault, and which one follows
/// the fixed order of the keys.
pub proof fn lemma_one_policy_per_field(args: Map<Seq<char>, ArgModel>)
    ensures
        field_policy(args) matches Ok(policy) ==> {
            &&& policy is Skip <==> is_disabled(args)
            &&& policy is ByValue <==> !is_disabled(args) && args.contains_key("check_value"@)
            &&& policy is ByRaw <==> !is_disabled(args) && !args.contains_key("check_value"@)
                && args.contains_key("check_raw"@)
            &&& policy is CustomField <==> !is_disabled(args) && !args.contains_key(
                "check_value"@,
            ) && !args.contains_key("check_raw"@) && args.contains_key("custom_hash"@)
            &&& policy is Default <==> !is_disabled(args) && !args.contains_key("check_value"@)
                && !args.contains_key("check_raw"@) && !args.contains_key("custom_hash"@)
        },
{
}

/// Without a `tag` argument the tag is `UNKNOWN_TAG`, whatever the filter.
pub proof fn lemma_tag_defaults_to_unknown(
    args: Map<Seq<char>, ArgModel>,
    default_filter: FilterModel,
)
    requires
        !args.contains_key("tag"@),
    ensures
        direct_item_config(args, default_filter) matches Ok((tag, _)) ==> tag == "UNKNOWN_TAG"@,
        !args.contains_key("filter"@) ==> direct_item_config(args, default_filter) == Ok::<
            (Seq<char>, FilterModel),
            ConfigError,
        >(("UNKNOWN_TAG"@, default_filter)),
{
}

/// A field checked by value whose `check_value` list has no `tag` gets the
/// tag `UNKNOWN_TAG`.
pub proof fn lemma_check_value_without_tag(args: Map<Seq<char>, ArgModel>)
    requires
        !is_disabled(args),
        args.contains_key("check_value"@),
        args["check_value"@] matches ArgModel::List(inner) && !inner.contains_key("tag"@),
    ensures
        field_policy(args) matches Ok(policy) ==> policy matches FieldPolicyModel::ByValue {
            tag,
            ..
        } && tag == "UNKNOWN_TAG"@,
{
}

/// The fields of a variant are resolved independently of each other: the
/// policies come out exactly if each field has one, and then each is the
/// policy of its own field.
pub proof fn lemma_fields_resolve_independently(fields: Seq<FieldDecl>)
    ensures
        declared_fields_policies(fields) is Ok <==> forall|i: int|
            0 <= i < fields.len() ==> (#[trigger] declared_field_policy(fields[i])) is Ok,
        declared_fields_policies(fields) matches Ok(policies) ==> {
            &&& policies.len() == fields.len()
            &&& forall|i: int|
                0 <= i < fields.len() ==> #[trigger] declared_field_policy(fields[i]) == Ok::<
                    FieldPolicyModel,
                    ConfigError,
                >(policies[i])
        },
    decreases fields.len(),
{
    if fields.len() > 0 {
        let shorter = fields.drop_last();
        lemma_fields_resolve_independently(shorter);
        assert forall|i: int| 0 <= i < shorter.len() implies shorter[i] == fields[i] by {}
        if declared_fields_policies(fields) is Ok {
            assert forall|i: int| 0 <= i < fields.len() implies (#[trigger] declared_field_policy(
                fields[i],
            )) is Ok by {
                if i < shorter.len() {
                    assert(declared_field_policy(shorter[i]) is Ok);
                }
            }
            let policies = declared_fields_policies(fields)->Ok_0;
            assert forall|i: int| 0 <= i < fields.len() implies #[trigger] declared_field_policy(
                fields[i],
            ) == Ok::<FieldPolicyModel, ConfigError>(policies[i]) by {
                if i < shorter.len() {
                    assert(declared_field_policy(shorter[i]) is Ok);
                }
            }
        }
        if forall|i: int| 0 <= i < fields.len() ==> (#[trigger] declared_field_policy(fields[i])) is Ok {
            assert forall|i: int| 0 <= i < shorter.len() implies (#[trigger] declared_field_policy(
                shorter[i],
            )) is Ok by {
                assert(declared_field_policy(fields[i]) is Ok);
            }
            assert(declared_field_policy(fields[fields.len() - 1]) is Ok);
        }
    }
}

/// Where the annotations of a type name a whole-value function, the type
/// resolves without a look at its fields: two declarations with the same
/// annotations on the type resolve alike, to that function and no field
/// policies, however their fields are annotated.
pub proof fn lemma_whole_value_function_hides_fields(decl: TypeDecl, other: TypeDecl)
    requires
        decl.attrs@ == other.attrs@,
        crate::parse::annotation_args(decl.attrs@) matches Ok(args) && aggregate_policy(args)
            matches Ok(aggregate) && aggregate.custom_hash is Some,
    ensures
        type_policy(decl) == type_policy(other),
        type_policy(decl) matches Ok(policy) && policy.aggregate.custom_hash is Some
            && policy.variants.len() == 0,
{
}

/// A fault in one field is the fault of the whole type, unless the type has
/// a whole-value function.
pub proof fn lemma_field_fault_fails_the_type(decl: TypeDecl, variant: int, field: int)
    requires
        0 <= variant < decl.variants.len(),
        0 <= field < decl.variants[variant].fields.len(),
        declared_field_policy(decl.variants[variant].fields[field]) is Err,
    ensures
        type_policy(decl) matches Ok(policy) ==> policy.aggregate.custom_hash is Some,
{
    lemma_fields_resolve_independently(decl.variants[variant].fields@);
    assert(declared_fields_policies(decl.variants[variant].fields@) is Err);
    lemma_variant_fault_fails_all(decl.variants@, variant);
}

/// A variant with a field at fault makes the resolution of all variants
/// fail.
proof fn lemma_variant_fault_fails_all(variants: Seq<VariantDecl>, at: int)
    requires
        0 <= at < variants.len(),
        declared_fields_policies(variants[at].fields@) is Err,
    ensures
        declared_variants_policies(variants) is Err,
    decreases variants.len(),
{
    if at < variants.len() - 1 {
        assert(variants.drop_last()[at] == variants[at]);
        lemma_variant_fault_fails_all(variants.drop_last(), at);
    }
}

} // verus!
