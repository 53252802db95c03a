//! The hash of a live value under resolved policies.
//!
//! Hashing runs once for a value. It keeps no state between calls: all it
//! works on is the policies, the value's bindings and the depth that the
//! caller hands in.

use vstd::prelude::*;

use crate::policy::{
    AggregatePolicy, AggregatePolicyModel, FieldPolicy, FieldPolicyModel, Filter, FilterModel,
    TypePolicy, TypePolicyModel,
};

verus! {

/// What a structurally hashed field adds when no depth is left to go down
/// into it: the letters `LEAF____`.
pub const LEAF_HASH: u64 = 0x4c45_4146_5f5f_5f5f;

/// A running hash: integers are appended to it one by one, and at the end
/// it gives a 64-bit value.
///
/// An accumulator is meant to be deterministic: the value it gives is
/// settled by how it was made and by what was appended to it, in order. An
/// implementation that is says so in [`CrossCheckHasher::obeys_hasher_spec`]
/// and states in the other two spec functions what it computes; it is then
/// held to them. One that states nothing promises nothing, and nothing is
/// proved of hashes made with it.
pub trait CrossCheckHasher: Sized {
    /// Whether accumulators of this type do what the spec functions of the
    /// type say.
    open spec fn obeys_hasher_spec() -> bool {
        false
    }

    /// The accumulator that `self` becomes when `value` is appended.
    open spec fn spec_write_u64(self, value: u64) -> Self {
        arbitrary()
    }

    /// The hash that `self` stands for.
    open spec fn spec_finish(self) -> u64 {
        arbitrary()
    }

    /// Appends `value`.
    fn write_u64(&mut self, value: u64)
        ensures
            Self::obeys_hasher_spec() ==> *final(self) == old(self).spec_write_u64(value),
    ;

    /// The hash of all that was appended.
    fn finish(&self) -> (hash: u64)
        ensures
            Self::obeys_hasher_spec() ==> hash == self.spec_finish(),
    ;
}

/// A live value together with what the names in its annotations are bound
/// to: accumulator kinds, filters, custom functions, and the structural hash
/// of each field.
///
/// Fields are numbered from 0 in declaration order, within the variant that
/// the value is of. A name that is bound to nothing is a failure of the
/// binding, which the hash passes on as it is.
///
/// A binding is meant to answer the same each time it is asked the same of
/// the same value. An implementation that does says so in
/// [`Bindings::obeys_bindings_spec`] and names each answer in the spec
/// function that goes with the method; it is then held to them. One that
/// states nothing promises nothing.
pub trait Bindings {
    /// The accumulators that the value is hashed with.
    type Hasher: CrossCheckHasher;

    /// What can go wrong outside the hashing itself.
    type Failure;

    /// Whether bindings of this type answer as the spec functions of the
    /// type say.
    open spec fn obeys_bindings_spec() -> bool {
        false
    }

    /// Names the answer of [`Bindings::new_hasher`].
    open spec fn spec_new_hasher(&self, kind: Seq<char>) -> Result<Self::Hasher, Self::Failure> {
        arbitrary()
    }

    /// Names the answer of [`Bindings::custom_hash`].
    open spec fn spec_custom_hash(
        &self,
        function: Seq<char>,
        depth: usize,
        ahasher: Seq<char>,
        shasher: Seq<char>,
    ) -> Result<u64, Self::Failure> {
        arbitrary()
    }

    /// Names the answer of [`Bindings::value_hash`].
    open spec fn spec_value_hash(
        &self,
        field: usize,
        tag: Seq<char>,
        filter: FilterModel,
        ahasher: Seq<char>,
        shasher: Seq<char>,
    ) -> Result<u64, Self::Failure> {
        arbitrary()
    }

    /// Names the answer of [`Bindings::raw_bits`].
    open spec fn spec_raw_bits(&self, field: usize, tag: Seq<char>, filter: FilterModel) -> Result<
        u64,
        Self::Failure,
    > {
        arbitrary()
    }

    /// Names the accumulator that [`Bindings::custom_field_hash`] leaves
    /// behind.
    open spec fn spec_custom_field_hash(&self, field: usize, function: Seq<char>, h: Self::Hasher)
        -> Result<Self::Hasher, Self::Failure> {
        arbitrary()
    }

    /// Names the answer of [`Bindings::field_hash`].
    open spec fn spec_field_hash(
        &self,
        field: usize,
        depth: usize,
        ahasher: Seq<char>,
        shasher: Seq<char>,
    ) -> Result<u64, Self::Failure> {
        arbitrary()
    }

    /// A fresh accumulator of the kind that goes by the name `kind`.
    fn new_hasher(&self, kind: &str) -> (r: Result<Self::Hasher, Self::Failure>)
        ensures
            Self::obeys_bindings_spec() ==> r == self.spec_new_hasher(kind@),
    ;

    /// The hash of the whole value by the function named `function`, which
    /// is handed the depth and the kinds of the two channels.
    fn custom_hash(&self, function: &str, depth: usize, ahasher: &str, shasher: &str) -> (r: Result<
        u64,
        Self::Failure,
    >)
        ensures
            Self::obeys_bindings_spec() ==> r == self.spec_custom_hash(
                function@,
                depth,
                ahasher@,
                shasher@,
            ),
    ;

    /// The hash of the contents of `filter` applied to the field, reported
    /// under `tag`.
    fn value_hash(&self, field: usize, tag: &str, filter: &Filter, ahasher: &str, shasher: &str)
        -> (r: Result<u64, Self::Failure>)
        ensures
            Self::obeys_bindings_spec() ==> r == self.spec_value_hash(
                field,
                tag@,
                filter@,
                ahasher@,
                shasher@,
            ),
    ;

    /// The 64 bits of `filter` applied to the field, as they are, reported
    /// under `tag`.
    fn raw_bits(&self, field: usize, tag: &str, filter: &Filter) -> (r: Result<u64, Self::Failure>)
        ensures
            Self::obeys_bindings_spec() ==> r == self.spec_raw_bits(field, tag@, filter@),
    ;

    /// Lets the function named `function` append to `h` what it sees fit
    /// for the field.
    fn custom_field_hash(&self, field: usize, function: &str, h: &mut Self::Hasher) -> (r: Result<
        (),
        Self::Failure,
    >)
        ensures
            Self::obeys_bindings_spec() ==> match r {
                Ok(_) => self.spec_custom_field_hash(field, function@, *old(h)) == Ok::<
                    Self::Hasher,
                    Self::Failure,
                >(*final(h)),
                Err(e) => self.spec_custom_field_hash(field, function@, *old(h)) == Err::<
                    Self::Hasher,
                    Self::Failure,
                >(e),
            },
    ;

    /// The structural hash of the field at `depth`, with the two channels
    /// of the given kinds.
    fn field_hash(&self, field: usize, depth: usize, ahasher: &str, shasher: &str) -> (r: Result<
        u64,
        Self::Failure,
    >)
        ensures
            Self::obeys_bindings_spec() ==> r == self.spec_field_hash(
                field,
                depth,
                ahasher@,
                shasher@,
            ),
    ;
}

/// The accumulator after one field has been dealt with under its policy.
///
/// A skipped field leaves the accumulator as it is. A field checked by
/// value appends the hash of its filtered contents, one checked by its raw
/// bits appends the bits. A custom function does what it does. Any other
/// field appends its structural hash one level further down, or
/// [`LEAF_HASH`] where no level is left.
pub open spec fn field_step<B: Bindings>(
    value: &B,
    policy: FieldPolicyModel,
    field: usize,
    depth: usize,
    ahasher: Seq<char>,
    shasher: Seq<char>,
    h: B::Hasher,
) -> Result<B::Hasher, B::Failure> {
    match policy {
        FieldPolicyModel::Skip => Ok(h),
        FieldPolicyModel::ByValue { tag, filter } => match value.spec_value_hash(
            field,
            tag,
            filter,
            ahasher,
            shasher,
        ) {
            Ok(hash) => Ok(h.spec_write_u64(hash)),
            Err(e) => Err(e),
        },
        FieldPolicyModel::ByRaw { tag, filter } => match value.spec_raw_bits(field, tag, filter) {
            Ok(bits) => Ok(h.spec_write_u64(bits)),
            Err(e) => Err(e),
        },
        FieldPolicyModel::CustomField { function_name } => value.spec_custom_field_hash(
            field,
            function_name,
            h,
        ),
        FieldPolicyModel::Default => if depth == 0 {
            Ok(h.spec_write_u64(LEAF_HASH))
        } else {
            match value.spec_field_hash(field, (depth - 1) as usize, ahasher, shasher) {
                Ok(hash) => Ok(h.spec_write_u64(hash)),
                Err(e) => Err(e),
            }
        },
    }
}

/// The accumulator after the fields have been dealt with in declaration
/// order, starting from `h`. The first failure ends it.
pub open spec fn fields_fold<B: Bindings>(
    value: &B,
    policies: Seq<FieldPolicyModel>,
    depth: usize,
    ahasher: Seq<char>,
    shasher: Seq<char>,
    h: B::Hasher,
) -> Result<B::Hasher, B::Failure>
    decreases policies.len(),
{
    if policies.len() == 0 {
        Ok(h)
    } else {
        match fields_fold(value, policies.drop_last(), depth, ahasher, shasher, h) {
            Err(e) => Err(e),
            Ok(before) => field_step(
                value,
                policies.last(),
                (policies.len() - 1) as usize,
                depth,
                ahasher,
                shasher,
                before,
            ),
        }
    }
}

/// The hash of a value at a depth.
///
/// Where the type has a whole-value function, its answer is the hash.
/// Else a fresh accumulator of the type's kind takes in the fields in
/// declaration order and gives the hash.
pub open spec fn cross_check_hash<B: Bindings>(
    value: &B,
    aggregate: AggregatePolicyModel,
    policies: Seq<FieldPolicyModel>,
    depth: usize,
) -> Result<u64, B::Failure> {
    match aggregate.custom_hash {
        Some(function) => value.spec_custom_hash(
            function,
            depth,
            aggregate.ahasher,
            aggregate.shasher,
        ),
        None => match value.spec_new_hasher(aggregate.hasher) {
            Err(e) => Err(e),
            Ok(h) => match fields_fold(
                value,
                policies,
                depth,
                aggregate.ahasher,
                aggregate.shasher,
                h,
            ) {
                Err(e) => Err(e),
                Ok(fed) => Ok(fed.spec_finish()),
            },
        },
    }
}

/// What is to be done for one field.
#[derive(Debug, Clone, Copy, PartialEq, Eq)]
pub enum FieldAction<'a> {
    /// Nothing is asked of the binding and nothing is appended.
    Nothing,
    /// The hash of the filtered contents is asked for and appended.
    AppendValueHash { tag: &'a String, filter: &'a Filter },
    /// The raw bits of the filtered field are asked for and appended.
    AppendRawBits { tag: &'a String, filter: &'a Filter },
    /// The named function is handed the accumulator.
    CallCustom { function: &'a String },
    /// The structural hash of the field at `depth` is asked for and
    /// appended.
    AppendFieldHash { depth: usize },
    /// [`LEAF_HASH`] is appended.
    AppendLeaf,
}

/// Decides what is to be done for a field with the given policy when its
/// aggregate is hashed at `depth`.
///
/// A structural field is hashed exactly one level below its aggregate, and
/// is a leaf where the aggregate is at depth 0. The decision depends on
/// nothing but the policy and the depth: not on the field's place, and not
/// on its neighbours.
pub fn field_action<'a>(policy: &'a FieldPolicy, depth: usize) -> (action: FieldAction<'a>)
    ensures
        match *policy {
            FieldPolicy::Skip => action == FieldAction::Nothing,
            FieldPolicy::ByValue { tag, filter } => action == (FieldAction::AppendValueHash {
                tag: &tag,
                filter: &filter,
            }),
            FieldPolicy::ByRaw { tag, filter } => action == (FieldAction::AppendRawBits {
                tag: &tag,
                filter: &filter,
            }),
            FieldPolicy::CustomField { function_name } => action == (FieldAction::CallCustom {
                function: &function_name,
            }),
            FieldPolicy::Default => if depth == 0 {
                action == FieldAction::AppendLeaf
            } else {
                action == (FieldAction::AppendFieldHash { depth: (depth - 1) as usize })
            },
        },
{
    match policy {
        FieldPolicy::Skip => FieldAction::Nothing,
        FieldPolicy::ByValue { tag, filter } => FieldAction::AppendValueHash { tag, filter },
        FieldPolicy::ByRaw { tag, filter } => FieldAction::AppendRawBits { tag, filter },
        FieldPolicy::CustomField { function_name } => FieldAction::CallCustom {
            function: function_name,
        },
        FieldPolicy::Default => if depth == 0 {
            FieldAction::AppendLeaf
        } else {
            FieldAction::AppendFieldHash { depth: depth - 1 }
        },
    }
}

/// Whether the binding and its accumulators are held to what they state.
pub open spec fn obeys_hash_spec<B: Bindings>() -> bool {
    B::obeys_bindings_spec() && <B::Hasher as CrossCheckHasher>::obeys_hasher_spec()
}

/// Deals with one field: asks the binding what the field's policy needs,
/// and appends the answer to `h`.
///
/// A skipped field is never asked for and leaves `h` as it is, whatever the
/// binding and the accumulator are.
pub fn hash_field<B: Bindings>(
    value: &B,
    policy: &FieldPolicy,
    field: usize,
    depth: usize,
    ahasher: &str,
    shasher: &str,
    h: &mut B::Hasher,
) -> (r: Result<(), B::Failure>)
    ensures
        policy is Skip ==> r is Ok && *final(h) == *old(h),
        obeys_hash_spec::<B>() ==> match r {
            Ok(_) => field_step(value, policy@, field, depth, ahasher@, shasher@, *old(h)) == Ok::<
                B::Hasher,
                B::Failure,
            >(*final(h)),
            Err(e) => field_step(value, policy@, field, depth, ahasher@, shasher@, *old(h)) == Err::<
                B::Hasher,
                B::Failure,
            >(e),
        },
{
    match field_action(policy, depth) {
        FieldAction::Nothing => Ok(()),
        FieldAction::AppendValueHash { tag, filter } => {
            match value.value_hash(field, tag.as_str(), filter, ahasher, shasher) {
                Ok(hash) => {
                    h.write_u64(hash);
                    Ok(())
                },
                Err(e) => Err(e),
            }
        },
        FieldAction::AppendRawBits { tag, filter } => {
            match value.raw_bits(field, tag.as_str(), filter) {
                Ok(bits) => {
                    h.write_u64(bits);
                    Ok(())
                },
                Err(e) => Err(e),
            }
        },
        FieldAction::CallCustom { function } => value.custom_field_hash(
            field,
            function.as_str(),
            h,
        ),
        FieldAction::AppendFieldHash { depth: below } => {
            match value.field_hash(field, below, ahasher, shasher) {
                Ok(hash) => {
                    h.write_u64(hash);
                    Ok(())
                },
                Err(e) => Err(e),
            }
        },
        FieldAction::AppendLeaf => {
            h.write_u64(LEAF_HASH);
            Ok(())
        },
    }
}

/// A failure among the first fields is the failure of all of them.
proof fn lemma_fields_fold_prefix_error<B: Bindings>(
    value: &B,
    policies: Seq<FieldPolicyModel>,
    depth: usize,
    ahasher: Seq<char>,
    shasher: Seq<char>,
    h: B::Hasher,
    n: int,
)
    requires
        0 <= n <= policies.len(),
        fields_fold(value, policies.take(n), depth, ahasher, shasher, h) is Err,
    ensures
        fields_fold(value, policies, depth, ahasher, shasher, h) == fields_fold(
            value,
            policies.take(n),
            depth,
            ahasher,
            shasher,
            h,
        ),
    decreases policies.len(),
{
    if n == policies.len() {
        assert(policies.take(n) =~= policies);
    } else {
        assert(policies.drop_last().take(n) =~= policies.take(n));
        lemma_fields_fold_prefix_error(value, policies.drop_last(), depth, ahasher, shasher, h, n);
    }
}

/// Hashes a value at a depth under the policies of its type and of the
/// fields of its variant.
///
/// With a binding and accumulators that are deterministic, the hash is
/// settled by the arguments: the same value under the same policies at the
/// same depth hashes to the same 64 bits, each time and in each process.
/// With a whole-value function no field is looked at and no accumulator is
/// made. A failure of the binding comes back as it is, and nothing is asked
/// of the binding after it.
pub fn cross_check_hash_depth<B: Bindings>(
    value: &B,
    aggregate: &AggregatePolicy,
    fields: &Vec<FieldPolicy>,
    depth: usize,
) -> (r: Result<u64, B::Failure>)
    ensures
        obeys_hash_spec::<B>() ==> r == cross_check_hash(
            value,
            aggregate@,
            fields.deep_view(),
            depth,
        ),
{
    if let Some(function) = &aggregate.custom_hash {
        return value.custom_hash(
            function.as_str(),
            depth,
            aggregate.ahasher.as_str(),
            aggregate.shasher.as_str(),
        );
    }
    let mut h = match value.new_hasher(aggregate.hasher.as_str()) {
        Ok(h) => h,
        Err(e) => {
            return Err(e);
        },
    };
    let ghost fresh = h;
    let ghost policies = fields.deep_view();
    let mut i: usize = 0;
    while i < fields.len()
        invariant
            i <= fields.len(),
            policies == fields.deep_view(),
            aggregate.custom_hash is None,
            obeys_hash_spec::<B>() ==> value.spec_new_hasher(aggregate.hasher@) == Ok::<
                B::Hasher,
                B::Failure,
            >(fresh),
            obeys_hash_spec::<B>() ==> fields_fold(
                value,
                policies.take(i as int),
                depth,
                aggregate.ahasher@,
                aggregate.shasher@,
                fresh,
            ) == Ok::<B::Hasher, B::Failure>(h),
        decreases fields.len() - i,
    {
        proof {
            let upto = policies.take(i + 1);
            assert(upto.drop_last() =~= policies.take(i as int));
            assert(upto.last() == fields@[i as int]@);
        }
        match hash_field(
            value,
            &fields[i],
            i,
            depth,
            aggregate.ahasher.as_str(),
            aggregate.shasher.as_str(),
            &mut h,
        ) {
            Ok(_) => {},
            Err(e) => {
                proof {
                    if obeys_hash_spec::<B>() {
                        lemma_fields_fold_prefix_error(
                            value,
                            policies,
                            depth,
                            aggregate.ahasher@,
                            aggregate.shasher@,
                            fresh,
                            i + 1,
                        );
                    }
                }
                return Err(e);
            },
        }
        i = i + 1;
    }
    proof {
        assert(policies.take(i as int) =~= policies);
    }
    Ok(h.finish())
}

/// The policies of the fields of a variant of a resolved type: none where
/// the type has a whole-value function.
pub open spec fn variant_policies(policy: TypePolicyModel, variant: int) -> Seq<FieldPolicyModel> {
    if policy.aggregate.custom_hash is Some {
        Seq::empty()
    } else {
        policy.variants[variant]
    }
}

/// Hashes a value of a resolved type at a depth. `variant` tells which
/// variant of the type the value is of, counted from 0 in declaration
/// order; a record has the one variant 0. The variant itself is not hashed.
///
/// A type with a whole-value function keeps no field policies, and
/// `variant` is then not looked at. Of any other type a variant that the
/// type does not have gives `None`, and nothing is asked of the binding.
pub fn cross_check_hash_variant<B: Bindings>(
    value: &B,
    policy: &TypePolicy,
    variant: usize,
    depth: usize,
) -> (r: Option<Result<u64, B::Failure>>)
    ensures
        r is None <==> policy.aggregate.custom_hash is None && variant >= policy.variants.len(),
        obeys_hash_spec::<B>() ==> (r matches Some(hash) ==> hash == cross_check_hash(
            value,
            policy.aggregate@,
            variant_policies(policy@, variant as int),
            depth,
        )),
{
    if policy.aggregate.custom_hash.is_some() {
        let none: Vec<FieldPolicy> = Vec::new();
        assert(none.deep_view() =~= Seq::<FieldPolicyModel>::empty());
        Some(cross_check_hash_depth(value, &policy.aggregate, &none, depth))
    } else if variant < policy.variants.len() {
        assert(policy.variants.deep_view()[variant as int]
            == policy.variants@[variant as int].deep_view());
        Some(cross_check_hash_depth(value, &policy.aggregate, &policy.variants[variant], depth))
    } else {
        None
    }
}

/// Whether two values answer alike to what a field's policy asks at a
/// depth. A skipped field asks nothing; a field checked by value asks for
/// the hash of its contents and not for its bits; a field checked by its
/// bits asks for the bits and not for the contents; a structural field asks
/// for its hash one level down and at no other depth, and asks nothing where
/// no level is left.
pub open spec fn answers_alike<B: Bindings>(
    one: &B,
    other: &B,
    policy: FieldPolicyModel,
    field: usize,
    depth: usize,
    ahasher: Seq<char>,
    shasher: Seq<char>,
) -> bool {
    match policy {
        FieldPolicyModel::Skip => true,
        FieldPolicyModel::ByValue { tag, filter } => one.spec_value_hash(
            field,
            tag,
            filter,
            ahasher,
            shasher,
        ) == other.spec_value_hash(field, tag, filter, ahasher, shasher),
        FieldPolicyModel::ByRaw { tag, filter } => one.spec_raw_bits(field, tag, filter)
            == other.spec_raw_bits(field, tag, filter),
        FieldPolicyModel::CustomField { function_name } => forall|h: B::Hasher|
            #[trigger] one.spec_custom_field_hash(field, function_name, h)
                == other.spec_custom_field_hash(field, function_name, h),
        FieldPolicyModel::Default => depth > 0 ==> one.spec_field_hash(
            field,
            (depth - 1) as usize,
            ahasher,
            shasher,
        ) == other.spec_field_hash(field, (depth - 1) as usize, ahasher, shasher),
    }
}

/// Two values that answer alike to what the policies ask feed an
/// accumulator alike.
proof fn lemma_fold_reads_only_the_answers<B: Bindings>(
    one: &B,
    other: &B,
    policies: Seq<FieldPolicyModel>,
    depth: usize,
    ahasher: Seq<char>,
    shasher: Seq<char>,
    h: B::Hasher,
)
    requires
        policies.len() <= usize::MAX,
        forall|i: int|
            0 <= i < policies.len() ==> #[trigger] answers_alike(
                one,
                other,
                policies[i],
                i as usize,
                depth,
                ahasher,
                shasher,
            ),
    ensures
        fields_fold(one, policies, depth, ahasher, shasher, h) == fields_fold(
            other,
            policies,
            depth,
            ahasher,
            shasher,
            h,
        ),
    decreases policies.len(),
{
    if policies.len() > 0 {
        let shorter = policies.drop_last();
        assert forall|i: int| 0 <= i < shorter.len() implies #[trigger] answers_alike(
            one,
            other,
            shorter[i],
            i as usize,
            depth,
            ahasher,
            shasher,
        ) by {
            assert(shorter[i] == policies[i]);
            assert(answers_alike(one, other, policies[i], i as usize, depth, ahasher, shasher));
        }
        lemma_fold_reads_only_the_answers(one, other, shorter, depth, ahasher, shasher, h);
        let last = policies.len() - 1;
        assert(answers_alike(one, other, policies[last], last as usize, depth, ahasher, shasher));
    }
}

/// The hash reads nothing of a value but what the policies ask for.
///
/// Two values that make the same fresh accumulator and answer alike, field
/// by field, to what each field's policy asks at this depth have the same
/// hash, however else they differ.
pub proof fn lemma_hash_reads_only_the_answers<B: Bindings>(
    one: &B,
    other: &B,
    aggregate: AggregatePolicyModel,
    policies: Seq<FieldPolicyModel>,
    depth: usize,
)
    requires
        policies.len() <= usize::MAX,
        aggregate.custom_hash is None,
        one.spec_new_hasher(aggregate.hasher) == other.spec_new_hasher(aggregate.hasher),
        forall|i: int|
            0 <= i < policies.len() ==> #[trigger] answers_alike(
                one,
                other,
                policies[i],
                i as usize,
                depth,
                aggregate.ahasher,
                aggregate.shasher,
            ),
    ensures
        cross_check_hash(one, aggregate, policies, depth) == cross_check_hash(
            other,
            aggregate,
            policies,
            depth,
        ),
{
    match one.spec_new_hasher(aggregate.hasher) {
        Ok(h) => {
            lemma_fold_reads_only_the_answers(
                one,
                other,
                policies,
                depth,
                aggregate.ahasher,
                aggregate.shasher,
                h,
            );
        },
        Err(_) => {},
    }
}

/// A skipped field adds nothing to the hash.
///
/// Two values that differ in nothing that is asked of their other fields
/// have the same hash, whatever the skipped field holds in each.
pub proof fn lemma_skipped_field_adds_nothing<B: Bindings>(
    one: &B,
    other: &B,
    aggregate: AggregatePolicyModel,
    policies: Seq<FieldPolicyModel>,
    skipped: int,
    depth: usize,
)
    requires
        policies.len() <= usize::MAX,
        aggregate.custom_hash is None,
        0 <= skipped < policies.len(),
        policies[skipped] is Skip,
        one.spec_new_hasher(aggregate.hasher) == other.spec_new_hasher(aggregate.hasher),
        forall|i: int|
            0 <= i < policies.len() && i != skipped ==> #[trigger] answers_alike(
                one,
                other,
                policies[i],
                i as usize,
                depth,
                aggregate.ahasher,
                aggregate.shasher,
            ),
    ensures
        cross_check_hash(one, aggregate, policies, depth) == cross_check_hash(
            other,
            aggregate,
            policies,
            depth,
        ),
{
    assert(answers_alike(
        one,
        other,
        policies[skipped],
        skipped as usize,
        depth,
        aggregate.ahasher,
        aggregate.shasher,
    ));
    lemma_hash_reads_only_the_answers(one, other, aggregate, policies, depth);
}

/// A field checked by value enters the hash by the hash of its contents
/// alone.
///
/// Two values whose field has contents that hash alike have the same hash,
/// whatever the bits of the field are in each; what is asked of the other
/// fields is the same in both.
pub proof fn lemma_by_value_reads_the_contents<B: Bindings>(
    one: &B,
    other: &B,
    aggregate: AggregatePolicyModel,
    policies: Seq<FieldPolicyModel>,
    checked: int,
    depth: usize,
)
    requires
        policies.len() <= usize::MAX,
        aggregate.custom_hash is None,
        0 <= checked < policies.len(),
        policies[checked] matches FieldPolicyModel::ByValue { tag, filter }
            && one.spec_value_hash(
            checked as usize,
            tag,
            filter,
            aggregate.ahasher,
            aggregate.shasher,
        ) == other.spec_value_hash(
            checked as usize,
            tag,
            filter,
            aggregate.ahasher,
            aggregate.shasher,
        ),
        one.spec_new_hasher(aggregate.hasher) == other.spec_new_hasher(aggregate.hasher),
        forall|i: int|
            0 <= i < policies.len() && i != checked ==> #[trigger] answers_alike(
                one,
                other,
                policies[i],
                i as usize,
                depth,
                aggregate.ahasher,
                aggregate.shasher,
            ),
    ensures
        cross_check_hash(one, aggregate, policies, depth) == cross_check_hash(
            other,
            aggregate,
            policies,
            depth,
        ),
{
    assert(answers_alike(
        one,
        other,
        policies[checked],
        checked as usize,
        depth,
        aggregate.ahasher,
        aggregate.shasher,
    ));
    lemma_hash_reads_only_the_answers(one, other, aggregate, policies, depth);
}

/// A field checked by its raw bits appends exactly those bits, and a field
/// checked by value exactly the hash of its contents: the one does not
/// look at the contents, the other not at the bits.
pub proof fn lemma_raw_and_value_are_kept_apart<B: Bindings>(
    value: &B,
    tag: Seq<char>,
    filter: FilterModel,
    field: usize,
    depth: usize,
    ahasher: Seq<char>,
    shasher: Seq<char>,
    h: B::Hasher,
)
    ensures
        field_step(value, FieldPolicyModel::ByRaw { tag, filter }, field, depth, ahasher, shasher, h)
            == match value.spec_raw_bits(field, tag, filter) {
            Ok(bits) => Ok::<B::Hasher, B::Failure>(h.spec_write_u64(bits)),
            Err(e) => Err::<B::Hasher, B::Failure>(e),
        },
        field_step(
            value,
            FieldPolicyModel::ByValue { tag, filter },
            field,
            depth,
            ahasher,
            shasher,
            h,
        ) == match value.spec_value_hash(field, tag, filter, ahasher, shasher) {
            Ok(hash) => Ok::<B::Hasher, B::Failure>(h.spec_write_u64(hash)),
            Err(e) => Err::<B::Hasher, B::Failure>(e),
        },
{
}

/// A structural field is hashed exactly one level further down.
///
/// At a depth above 0 the field appends its structural hash at the depth
/// below, with the two channels of the type, and a failure there is the
/// failure of the step. The depth handed down does not depend on where
/// the field stands: every field of a record gets the same.
pub proof fn lemma_structural_field_descends_one_level<B: Bindings>(
    value: &B,
    field: usize,
    depth: usize,
    ahasher: Seq<char>,
    shasher: Seq<char>,
    h: B::Hasher,
)
    requires
        depth > 0,
    ensures
        field_step(value, FieldPolicyModel::Default, field, depth, ahasher, shasher, h)
            == match value.spec_field_hash(field, (depth - 1) as usize, ahasher, shasher) {
            Ok(hash) => Ok::<B::Hasher, B::Failure>(h.spec_write_u64(hash)),
            Err(e) => Err::<B::Hasher, B::Failure>(e),
        },
{
}

/// With a whole-value function the hash is that function's answer and
/// nothing else: the policies of the fields, and the fields, are not read.
pub proof fn lemma_whole_value_function_decides<B: Bindings>(
    value: &B,
    aggregate: AggregatePolicyModel,
    policies: Seq<FieldPolicyModel>,
    others: Seq<FieldPolicyModel>,
    depth: usize,
)
    requires
        aggregate.custom_hash is Some,
    ensures
        cross_check_hash(value, aggregate, policies, depth) == value.spec_custom_hash(
            aggregate.custom_hash->Some_0,
            depth,
            aggregate.ahasher,
            aggregate.shasher,
        ),
        cross_check_hash(value, aggregate, policies, depth) == cross_check_hash(
            value,
            aggregate,
            others,
            depth,
        ),
{
}

} // verus!
