use cross_check_derive::args::{ArgList, ArgValue};
use cross_check_derive::error::ConfigError;
use cross_check_derive::meta::{
    Attribute, FieldDecl, Lit, MetaItem, NestedMetaItem, StrStyle, TypeDecl, VariantDecl,
};
use cross_check_derive::parse::{get_annotation_args, get_cross_check_args, get_item_args};
use cross_check_derive::policy::{
    get_direct_item_config, resolve_aggregate_policy, resolve_field_policy, resolve_fields,
    xcheck_hash_derive, AggregatePolicy, FieldPolicy, Filter,
};

fn word(name: &str) -> NestedMetaItem {
    NestedMetaItem::MetaItem(MetaItem::Word(name.to_string()))
}

fn pair(name: &str, text: &str) -> NestedMetaItem {
    NestedMetaItem::MetaItem(MetaItem::NameValue(
        name.to_string(),
        Lit::Str(text.to_string(), StrStyle::Cooked),
    ))
}

fn pair_lit(name: &str, lit: Lit) -> NestedMetaItem {
    NestedMetaItem::MetaItem(MetaItem::NameValue(name.to_string(), lit))
}

fn list(name: &str, items: Vec<NestedMetaItem>) -> NestedMetaItem {
    NestedMetaItem::MetaItem(MetaItem::List(name.to_string(), items))
}

fn cross_check(items: Vec<NestedMetaItem>) -> Attribute {
    Attribute { value: MetaItem::List("cross_check".to_string(), items) }
}

fn args_of(items: Vec<NestedMetaItem>) -> ArgList {
    get_item_args(&MetaItem::List("cross_check".to_string(), items)).unwrap()
}

fn field(items: Vec<NestedMetaItem>) -> FieldDecl {
    FieldDecl { attrs: vec![cross_check(items)] }
}

fn plain_field() -> FieldDecl {
    FieldDecl { attrs: vec![] }
}

#[test]
fn get_str_gives_the_string_of_a_string_argument() {
    let arg = ArgValue::Str("hello".to_string());
    assert_eq!(arg.get_str().unwrap().as_str(), "hello");
    assert_eq!(arg.get_str_ident().unwrap(), "hello");
}

#[test]
fn get_str_refuses_a_flag_and_a_list() {
    assert_eq!(ArgValue::Nothing.get_str().unwrap_err(), ConfigError::ExpectedString);
    assert_eq!(
        ArgValue::List(ArgList::new()).get_str().unwrap_err(),
        ConfigError::ExpectedString
    );
    assert_eq!(ArgValue::Nothing.get_str_ident().unwrap_err(), ConfigError::ExpectedString);
}

#[test]
fn get_list_gives_the_arguments_of_a_list_argument() {
    let mut inner = ArgList::new();
    inner.insert("tag".to_string(), ArgValue::Str("T".to_string()));
    let arg = ArgValue::List(inner);
    let got = arg.get_list().unwrap();
    assert!(got.contains_key("tag"));
    assert_eq!(got.get("tag").unwrap().get_str().unwrap().as_str(), "T");
}

#[test]
fn get_list_refuses_a_flag_and_a_string() {
    assert_eq!(ArgValue::Nothing.get_list().unwrap_err(), ConfigError::ExpectedList);
    assert_eq!(
        ArgValue::Str("x".to_string()).get_list().unwrap_err(),
        ConfigError::ExpectedList
    );
}

#[test]
fn arg_list_looks_up_by_exact_name() {
    let mut args = ArgList::new();
    assert!(!args.contains_key("tag"));
    assert!(args.get("tag").is_none());
    args.insert("tag".to_string(), ArgValue::Str("A".to_string()));
    args.insert("no".to_string(), ArgValue::Nothing);
    assert!(args.contains_key("tag"));
    assert!(args.contains_key("no"));
    assert!(!args.contains_key("ta"));
    assert!(!args.contains_key("tags"));
    assert!(!args.contains_key("TAG"));
    assert!(matches!(args.get("no"), Some(ArgValue::Nothing)));
}

#[test]
fn default_arg_list_is_empty() {
    let args = ArgList::default();
    assert!(!args.contains_key("no"));
    assert!(args.get("").is_none());
    assert_eq!(resolve_field_policy(&args).unwrap(), FieldPolicy::Default);
}

#[test]
fn items_and_attributes_go_by_the_name_of_their_item() {
    assert_eq!(MetaItem::Word("no".to_string()).name(), "no");
    assert_eq!(MetaItem::List("check_raw".to_string(), vec![]).name(), "check_raw");
    assert_eq!(MetaItem::NameValue("tag".to_string(), Lit::Bool(true)).name(), "tag");
    assert_eq!(cross_check(vec![word("no")]).name(), "cross_check");
    assert_eq!(Attribute { value: MetaItem::Word("test".to_string()) }.name(), "test");
}

#[test]
fn arg_list_keeps_the_later_of_two_values() {
    let mut args = ArgList::new();
    args.insert("tag".to_string(), ArgValue::Str("first".to_string()));
    args.insert("other".to_string(), ArgValue::Nothing);
    args.insert("tag".to_string(), ArgValue::Str("second".to_string()));
    assert_eq!(args.get("tag").unwrap().get_str().unwrap().as_str(), "second");
}

#[test]
fn item_args_reads_the_three_shapes() {
    let args = args_of(vec![
        word("no"),
        pair("tag", "MY_TAG"),
        list("check_value", vec![pair("filter", "f"), word("flag")]),
    ]);
    assert!(matches!(args.get("no"), Some(ArgValue::Nothing)));
    assert_eq!(args.get("tag").unwrap().get_str().unwrap().as_str(), "MY_TAG");
    let inner = args.get("check_value").unwrap().get_list().unwrap();
    assert_eq!(inner.get("filter").unwrap().get_str().unwrap().as_str(), "f");
    assert!(matches!(inner.get("flag"), Some(ArgValue::Nothing)));
    assert!(!inner.contains_key("tag"));
    assert!(!args.contains_key("filter"));
}

#[test]
fn item_args_of_an_item_without_brackets_are_empty() {
    let from_word = get_item_args(&MetaItem::Word("cross_check".to_string())).unwrap();
    assert!(!from_word.contains_key("cross_check"));
    let from_pair = get_item_args(&MetaItem::NameValue(
        "cross_check".to_string(),
        Lit::Str("no".to_string(), StrStyle::Cooked),
    ))
    .unwrap();
    assert!(!from_pair.contains_key("cross_check"));
    assert!(!from_pair.contains_key("no"));
    let from_bad_pair =
        get_item_args(&MetaItem::NameValue("cross_check".to_string(), Lit::Int(1))).unwrap();
    assert!(!from_bad_pair.contains_key("cross_check"));
}

#[test]
fn item_args_of_empty_brackets_are_empty() {
    let args = args_of(vec![]);
    assert!(!args.contains_key("no"));
}

#[test]
fn item_args_keep_the_right_one_of_two_items_with_one_name() {
    let args = args_of(vec![pair("tag", "left"), pair("tag", "right")]);
    assert_eq!(args.get("tag").unwrap().get_str().unwrap().as_str(), "right");
    let mixed = args_of(vec![pair("x", "left"), word("x")]);
    assert!(matches!(mixed.get("x"), Some(ArgValue::Nothing)));
}

#[test]
fn integer_literal_is_a_configuration_error() {
    let item = MetaItem::List("cross_check".to_string(), vec![pair_lit("key", Lit::Int(123))]);
    assert_eq!(get_item_args(&item).unwrap_err(), ConfigError::InvalidLiteral);
}

#[test]
fn only_ordinary_string_literals_are_accepted() {
    let lits = vec![
        Lit::Str("raw".to_string(), StrStyle::Raw(0)),
        Lit::Str("raw".to_string(), StrStyle::Raw(2)),
        Lit::ByteStr(vec![1, 2], StrStyle::Cooked),
        Lit::Byte(7),
        Lit::Char('c'),
        Lit::Int(0),
        Lit::Float("1.5".to_string()),
        Lit::Bool(true),
    ];
    for lit in lits {
        let item = MetaItem::List("cross_check".to_string(), vec![pair_lit("tag", lit)]);
        assert_eq!(get_item_args(&item).unwrap_err(), ConfigError::InvalidLiteral);
    }
}

#[test]
fn bare_literal_is_an_unknown_item() {
    let item = MetaItem::List(
        "cross_check".to_string(),
        vec![NestedMetaItem::Literal(Lit::Str("no".to_string(), StrStyle::Cooked))],
    );
    assert_eq!(get_item_args(&item).unwrap_err(), ConfigError::UnknownItem);
}

#[test]
fn fault_in_nested_brackets_is_the_fault_of_the_whole() {
    let item = MetaItem::List(
        "cross_check".to_string(),
        vec![word("no"), list("check_value", vec![pair_lit("tag", Lit::Bool(false))])],
    );
    assert_eq!(get_item_args(&item).unwrap_err(), ConfigError::InvalidLiteral);
    let deeper = MetaItem::List(
        "cross_check".to_string(),
        vec![list("a", vec![list("b", vec![NestedMetaItem::Literal(Lit::Int(1))])])],
    );
    assert_eq!(get_item_args(&deeper).unwrap_err(), ConfigError::UnknownItem);
}

#[test]
fn leftmost_fault_is_reported() {
    let item = MetaItem::List(
        "cross_check".to_string(),
        vec![NestedMetaItem::Literal(Lit::Int(1)), pair_lit("tag", Lit::Int(2))],
    );
    assert_eq!(get_item_args(&item).unwrap_err(), ConfigError::UnknownItem);
    let swapped = MetaItem::List(
        "cross_check".to_string(),
        vec![pair_lit("tag", Lit::Int(2)), NestedMetaItem::Literal(Lit::Int(1))],
    );
    assert_eq!(get_item_args(&swapped).unwrap_err(), ConfigError::InvalidLiteral);
}

#[test]
fn cross_check_args_are_absent_without_the_attribute() {
    assert!(get_cross_check_args(&[]).unwrap().is_none());
    let others = vec![
        Attribute { value: MetaItem::Word("test".to_string()) },
        Attribute { value: MetaItem::List("derive".to_string(), vec![word("Clone")]) },
    ];
    assert!(get_cross_check_args(&others).unwrap().is_none());
    let args = get_annotation_args(&others).unwrap();
    assert!(!args.contains_key("Clone"));
}

#[test]
fn cross_check_args_come_from_the_first_attribute_of_that_name() {
    let attrs = vec![
        Attribute { value: MetaItem::List("derive".to_string(), vec![word("never")]) },
        cross_check(vec![pair("tag", "first")]),
        cross_check(vec![pair("tag", "second"), word("no")]),
    ];
    let args = get_cross_check_args(&attrs).unwrap().unwrap();
    assert_eq!(args.get("tag").unwrap().get_str().unwrap().as_str(), "first");
    assert!(!args.contains_key("no"));
    assert!(!args.contains_key("never"));
}

#[test]
fn fault_behind_the_first_cross_check_attribute_goes_unseen() {
    let attrs = vec![cross_check(vec![word("no")]), cross_check(vec![pair_lit("k", Lit::Int(1))])];
    assert!(get_cross_check_args(&attrs).unwrap().unwrap().contains_key("no"));
    let swapped =
        vec![cross_check(vec![pair_lit("k", Lit::Int(1))]), cross_check(vec![word("no")])];
    assert_eq!(get_cross_check_args(&swapped).unwrap_err(), ConfigError::InvalidLiteral);
    assert_eq!(get_annotation_args(&swapped).unwrap_err(), ConfigError::InvalidLiteral);
}

#[test]
fn cross_check_attribute_without_brackets_gives_no_arguments() {
    let attrs = vec![Attribute { value: MetaItem::Word("cross_check".to_string()) }];
    let args = get_cross_check_args(&attrs).unwrap().unwrap();
    assert!(!args.contains_key("cross_check"));
}

#[test]
fn tag_defaults_to_unknown_tag() {
    let (tag, filter) = get_direct_item_config(&args_of(vec![]), Filter::Identity).unwrap();
    assert_eq!(tag, "UNKNOWN_TAG");
    assert_eq!(filter, Filter::Identity);
    let (tag, filter) = get_direct_item_config(&args_of(vec![]), Filter::Deref).unwrap();
    assert_eq!(tag, "UNKNOWN_TAG");
    assert_eq!(filter, Filter::Deref);
}

#[test]
fn tag_and_filter_are_taken_where_given() {
    let args = args_of(vec![pair("filter", "as_raw"), pair("tag", "FIELD_TAG")]);
    let (tag, filter) = get_direct_item_config(&args, Filter::Identity).unwrap();
    assert_eq!(tag, "FIELD_TAG");
    assert_eq!(filter, Filter::Named("as_raw".to_string()));
    let only_filter = args_of(vec![pair("filter", "f")]);
    let (tag, filter) = get_direct_item_config(&only_filter, Filter::Deref).unwrap();
    assert_eq!(tag, "UNKNOWN_TAG");
    assert_eq!(filter, Filter::Named("f".to_string()));
}

#[test]
fn tag_and_filter_must_be_strings() {
    let flag_tag = args_of(vec![word("tag")]);
    assert_eq!(
        get_direct_item_config(&flag_tag, Filter::Identity).unwrap_err(),
        ConfigError::ExpectedString
    );
    let list_filter = args_of(vec![list("filter", vec![])]);
    assert_eq!(
        get_direct_item_config(&list_filter, Filter::Identity).unwrap_err(),
        ConfigError::ExpectedString
    );
}

#[test]
fn field_without_annotation_is_hashed_structurally() {
    assert_eq!(resolve_field_policy(&ArgList::new()).unwrap(), FieldPolicy::Default);
    assert_eq!(
        resolve_field_policy(&args_of(vec![word("something_else"), pair("tag", "T")])).unwrap(),
        FieldPolicy::Default
    );
}

#[test]
fn each_of_the_three_synonyms_skips_the_field() {
    for name in ["no", "never", "disable"] {
        assert_eq!(resolve_field_policy(&args_of(vec![word(name)])).unwrap(), FieldPolicy::Skip);
        assert_eq!(
            resolve_field_policy(&args_of(vec![pair(name, "text")])).unwrap(),
            FieldPolicy::Skip
        );
    }
}

#[test]
fn skip_wins_over_check_value() {
    let args = args_of(vec![list("check_value", vec![pair("tag", "T")]), word("no")]);
    assert_eq!(resolve_field_policy(&args).unwrap(), FieldPolicy::Skip);
    let with_fault = args_of(vec![word("check_value"), word("disable")]);
    assert_eq!(resolve_field_policy(&with_fault).unwrap(), FieldPolicy::Skip);
}

#[test]
fn check_value_wins_over_check_raw() {
    let args = args_of(vec![
        list("check_raw", vec![pair("tag", "RAW")]),
        list("check_value", vec![pair("tag", "VALUE")]),
    ]);
    assert_eq!(
        resolve_field_policy(&args).unwrap(),
        FieldPolicy::ByValue { tag: "VALUE".to_string(), filter: Filter::Identity }
    );
}

#[test]
fn check_raw_wins_over_custom_hash() {
    let args = args_of(vec![pair("custom_hash", "f"), list("check_raw", vec![])]);
    assert_eq!(
        resolve_field_policy(&args).unwrap(),
        FieldPolicy::ByRaw { tag: "UNKNOWN_TAG".to_string(), filter: Filter::Deref }
    );
}

#[test]
fn check_value_without_tag_has_the_unknown_tag() {
    let args = args_of(vec![list("check_value", vec![])]);
    assert_eq!(
        resolve_field_policy(&args).unwrap(),
        FieldPolicy::ByValue { tag: "UNKNOWN_TAG".to_string(), filter: Filter::Identity }
    );
}

#[test]
fn check_raw_takes_tag_and_filter() {
    let args = args_of(vec![list("check_raw", vec![pair("tag", "PTR"), pair("filter", "addr")])]);
    assert_eq!(
        resolve_field_policy(&args).unwrap(),
        FieldPolicy::ByRaw { tag: "PTR".to_string(), filter: Filter::Named("addr".to_string()) }
    );
}

#[test]
fn custom_hash_names_the_function_of_the_field() {
    let args = args_of(vec![pair("custom_hash", "hash_my_field")]);
    assert_eq!(
        resolve_field_policy(&args).unwrap(),
        FieldPolicy::CustomField { function_name: "hash_my_field".to_string() }
    );
}

#[test]
fn wrong_shape_under_the_deciding_key_is_a_fault() {
    assert_eq!(
        resolve_field_policy(&args_of(vec![word("check_value")])).unwrap_err(),
        ConfigError::ExpectedList
    );
    assert_eq!(
        resolve_field_policy(&args_of(vec![pair("check_raw", "x")])).unwrap_err(),
        ConfigError::ExpectedList
    );
    assert_eq!(
        resolve_field_policy(&args_of(vec![word("custom_hash")])).unwrap_err(),
        ConfigError::ExpectedString
    );
    assert_eq!(
        resolve_field_policy(&args_of(vec![list("custom_hash", vec![])])).unwrap_err(),
        ConfigError::ExpectedString
    );
    assert_eq!(
        resolve_field_policy(&args_of(vec![list("check_value", vec![word("tag")])])).unwrap_err(),
        ConfigError::ExpectedString
    );
}

#[test]
fn wrong_shape_behind_the_deciding_key_goes_unseen() {
    let args = args_of(vec![list("check_value", vec![]), word("check_raw"), word("custom_hash")]);
    assert_eq!(
        resolve_field_policy(&args).unwrap(),
        FieldPolicy::ByValue { tag: "UNKNOWN_TAG".to_string(), filter: Filter::Identity }
    );
}

#[test]
fn aggregate_policy_has_the_two_placeholder_channels_by_default() {
    let policy = resolve_aggregate_policy(&ArgList::new()).unwrap();
    assert_eq!(
        policy,
        AggregatePolicy {
            custom_hash: None,
            ahasher: "__XCHA".to_string(),
            shasher: "__XCHS".to_string(),
            hasher: "__XCHA".to_string(),
        }
    );
}

#[test]
fn aggregate_policy_takes_the_overrides() {
    let args = args_of(vec![
        pair("ahasher_override", "FirstHasher"),
        pair("shasher_override", "SecondHasher"),
    ]);
    let policy = resolve_aggregate_policy(&args).unwrap();
    assert_eq!(policy.custom_hash, None);
    assert_eq!(policy.ahasher, "FirstHasher");
    assert_eq!(policy.shasher, "SecondHasher");
    assert_eq!(policy.hasher, "FirstHasher");
    let with_hasher = args_of(vec![pair("ahasher_override", "FirstHasher"), pair("hasher", "Own")]);
    let policy = resolve_aggregate_policy(&with_hasher).unwrap();
    assert_eq!(policy.ahasher, "FirstHasher");
    assert_eq!(policy.shasher, "__XCHS");
    assert_eq!(policy.hasher, "Own");
}

#[test]
fn aggregate_policy_takes_the_whole_value_function() {
    let args = args_of(vec![pair("custom_hash", "hash_all"), word("hasher")]);
    let policy = resolve_aggregate_policy(&args).unwrap();
    assert_eq!(policy.custom_hash, Some("hash_all".to_string()));
    assert_eq!(policy.ahasher, "__XCHA");
    assert_eq!(policy.shasher, "__XCHS");
    assert_eq!(policy.hasher, "__XCHA");
}

#[test]
fn aggregate_policy_wants_strings() {
    for key in ["ahasher_override", "shasher_override", "custom_hash", "hasher"] {
        assert_eq!(
            resolve_aggregate_policy(&args_of(vec![word(key)])).unwrap_err(),
            ConfigError::ExpectedString
        );
        assert_eq!(
            resolve_aggregate_policy(&args_of(vec![list(key, vec![])])).unwrap_err(),
            ConfigError::ExpectedString
        );
    }
}

#[test]
fn fields_are_resolved_one_by_one_in_declaration_order() {
    let fields = vec![
        plain_field(),
        field(vec![word("no")]),
        field(vec![list("check_raw", vec![pair("tag", "R")])]),
        field(vec![pair("custom_hash", "f")]),
        field(vec![list("check_value", vec![])]),
    ];
    assert_eq!(
        resolve_fields(&fields).unwrap(),
        vec![
            FieldPolicy::Default,
            FieldPolicy::Skip,
            FieldPolicy::ByRaw { tag: "R".to_string(), filter: Filter::Deref },
            FieldPolicy::CustomField { function_name: "f".to_string() },
            FieldPolicy::ByValue { tag: "UNKNOWN_TAG".to_string(), filter: Filter::Identity },
        ]
    );
    assert_eq!(resolve_fields(&vec![]).unwrap(), vec![]);
}

#[test]
fn first_field_at_fault_decides_the_error() {
    let fields = vec![
        plain_field(),
        field(vec![word("check_raw")]),
        field(vec![word("custom_hash")]),
    ];
    assert_eq!(resolve_fields(&fields).unwrap_err(), ConfigError::ExpectedList);
    let swapped = vec![field(vec![word("custom_hash")]), field(vec![word("check_raw")])];
    assert_eq!(resolve_fields(&swapped).unwrap_err(), ConfigError::ExpectedString);
}

#[test]
fn type_without_annotations_resolves_to_defaults() {
    let decl = TypeDecl {
        attrs: vec![],
        variants: vec![VariantDecl { fields: vec![plain_field(), plain_field()] }],
    };
    let policy = xcheck_hash_derive(&decl).unwrap();
    assert_eq!(policy.aggregate.custom_hash, None);
    assert_eq!(policy.aggregate.hasher, "__XCHA");
    assert_eq!(policy.variants, vec![vec![FieldPolicy::Default, FieldPolicy::Default]]);
}

#[test]
fn type_with_variants_resolves_each_variant() {
    let decl = TypeDecl {
        attrs: vec![cross_check(vec![pair("hasher", "H")])],
        variants: vec![
            VariantDecl { fields: vec![] },
            VariantDecl { fields: vec![field(vec![word("never")]), plain_field()] },
            VariantDecl { fields: vec![field(vec![pair("custom_hash", "g")])] },
        ],
    };
    let policy = xcheck_hash_derive(&decl).unwrap();
    assert_eq!(policy.aggregate.hasher, "H");
    assert_eq!(
        policy.variants,
        vec![
            vec![],
            vec![FieldPolicy::Skip, FieldPolicy::Default],
            vec![FieldPolicy::CustomField { function_name: "g".to_string() }],
        ]
    );
}

#[test]
fn fault_in_one_field_fails_the_whole_type() {
    let decl = TypeDecl {
        attrs: vec![],
        variants: vec![
            VariantDecl { fields: vec![plain_field()] },
            VariantDecl { fields: vec![plain_field(), field(vec![pair_lit("key", Lit::Int(123))])] },
        ],
    };
    assert_eq!(xcheck_hash_derive(&decl).unwrap_err(), ConfigError::InvalidLiteral);
}

#[test]
fn fault_in_the_annotations_of_the_type_fails_the_type() {
    let decl = TypeDecl {
        attrs: vec![cross_check(vec![word("ahasher_override")])],
        variants: vec![VariantDecl { fields: vec![plain_field()] }],
    };
    assert_eq!(xcheck_hash_derive(&decl).unwrap_err(), ConfigError::ExpectedString);
    let syntax = TypeDecl {
        attrs: vec![cross_check(vec![NestedMetaItem::Literal(Lit::Bool(true))])],
        variants: vec![],
    };
    assert_eq!(xcheck_hash_derive(&syntax).unwrap_err(), ConfigError::UnknownItem);
}

#[test]
fn whole_value_function_leaves_invalid_field_annotations_unread() {
    let decl = TypeDecl {
        attrs: vec![cross_check(vec![pair("custom_hash", "hash_all")])],
        variants: vec![VariantDecl {
            fields: vec![
                field(vec![word("check_value")]),
                field(vec![pair_lit("key", Lit::Int(123))]),
                field(vec![NestedMetaItem::Literal(Lit::Char('x'))]),
                field(vec![word("no"), list("custom_hash", vec![])]),
            ],
        }],
    };
    let policy = xcheck_hash_derive(&decl).unwrap();
    assert_eq!(policy.aggregate.custom_hash, Some("hash_all".to_string()));
    assert!(policy.variants.is_empty());
    let without = TypeDecl { attrs: vec![], variants: decl.variants };
    assert_eq!(xcheck_hash_derive(&without).unwrap_err(), ConfigError::ExpectedList);
}

#[test]
fn resolution_gives_the_same_policies_each_time() {
    let make = || TypeDecl {
        attrs: vec![cross_check(vec![pair("shasher_override", "S")])],
        variants: vec![VariantDecl {
            fields: vec![field(vec![list("check_value", vec![pair("tag", "T")])]), plain_field()],
        }],
    };
    assert_eq!(xcheck_hash_derive(&make()).unwrap(), xcheck_hash_derive(&make()).unwrap());
}

#[test]
fn each_fault_has_its_sentence() {
    assert_eq!(ConfigError::ExpectedString.message(), "argument expects string value");
    assert_eq!(ConfigError::ExpectedList.message(), "argument expects list value");
    assert_eq!(
        ConfigError::InvalidLiteral.message(),
        "invalid value: only string literals are accepted"
    );
    assert_eq!(
        ConfigError::UnknownItem.message(),
        "unknown item: expected a flag, a pair or a list"
    );
}
