//! From annotations to argument maps.

use vstd::prelude::*;

use crate::args::{ArgList, ArgModel, ArgValue};
use crate::error::ConfigError;
use crate::meta::{Attribute, Lit, MetaItem, NestedMetaItem, StrStyle};

verus! {

/// The name and the argument that one item between brackets stands for.
///
/// A bare name is a flag. A name with an ordinary string literal is a
/// string; with any other literal it is [`ConfigError::InvalidLiteral`]. A
/// name with brackets is a list of what the brackets hold. A literal on its
/// own is [`ConfigError::UnknownItem`].
pub open spec fn nested_arg(item: NestedMetaItem) -> Result<(Seq<char>, ArgModel), ConfigError>
    decreases item,
{
    match item {
        NestedMetaItem::Literal(_) => Err(ConfigError::UnknownItem),
        NestedMetaItem::MetaItem(MetaItem::Word(name)) => Ok((name@, ArgModel::Nothing)),
        NestedMetaItem::MetaItem(MetaItem::NameValue(name, Lit::Str(text, StrStyle::Cooked))) => Ok(
            (name@, ArgModel::Str(text@)),
        ),
        NestedMetaItem::MetaItem(MetaItem::NameValue(_, _)) => Err(ConfigError::InvalidLiteral),
        NestedMetaItem::MetaItem(MetaItem::List(name, items)) => match nested_args(items@) {
            Ok(inner) => Ok((name@, ArgModel::List(inner))),
            Err(e) => Err(e),
        },
    }
}

/// The arguments that the items between one pair of brackets stand for.
///
/// The items are read from left to right. The first one that is at fault
/// decides the error; of two items with one name the right one counts.
pub open spec fn nested_args(items: Seq<NestedMetaItem>) -> Result<
    Map<Seq<char>, ArgModel>,
    ConfigError,
>
    decreases items,
{
    if items.len() == 0 {
        Ok(Map::empty())
    } else {
        match nested_args(items.drop_last()) {
            Err(e) => Err(e),
            Ok(before) => match nested_arg(items.last()) {
                Err(e) => Err(e),
                Ok((name, value)) => Ok(before.insert(name, value)),
            },
        }
    }
}

/// The arguments of an item: those between its brackets, and none for an
/// item without brackets.
pub open spec fn item_args(item: MetaItem) -> Result<Map<Seq<char>, ArgModel>, ConfigError> {
    match item {
        MetaItem::List(_, items) => nested_args(items@),
        _ => Ok(Map::empty()),
    }
}

/// A fault among the first items is the fault of the whole list.
proof fn lemma_nested_args_prefix_error(items: Seq<NestedMetaItem>, n: int)
    requires
        0 <= n <= items.len(),
        nested_args(items.take(n)) is Err,
    ensures
        nested_args(items) == nested_args(items.take(n)),
    decreases items.len(),
{
    if n == items.len() {
        assert(items.take(n) =~= items);
    } else {
        assert(items.drop_last().take(n) =~= items.take(n));
        lemma_nested_args_prefix_error(items.drop_last(), n);
    }
}

/// What one more item adds to the arguments read so far.
proof fn lemma_nested_args_step(items: Seq<NestedMetaItem>, n: int)
    requires
        0 <= n < items.len(),
    ensures
        nested_args(items.take(n + 1)) == match nested_args(items.take(n)) {
            Err(e) => Err(e),
            Ok(before) => match nested_arg(items[n]) {
                Err(e) => Err(e),
                Ok((name, value)) => Ok(before.insert(name, value)),
            },
        },
{
    let upto = items.take(n + 1);
    assert(upto.drop_last() =~= items.take(n));
    assert(upto.last() == items[n]);
}

/// Reads the arguments of an item.
///
/// An item with brackets gives the map of what stands between them, nested
/// brackets as nested maps; any other item gives the empty map. The first
/// item that is neither a flag, a `name = "string"` pair nor a list makes
/// the whole reading fail.
pub fn get_item_args(mi: &MetaItem) -> (r: Result<ArgList, ConfigError>)
    ensures
        match r {
            Ok(list) => item_args(*mi) == Ok::<Map<Seq<char>, ArgModel>, ConfigError>(list@),
            Err(e) => item_args(*mi) == Err::<Map<Seq<char>, ArgModel>, ConfigError>(e),
        },
    decreases mi,
{
    let mut list = ArgList::new();
    if let MetaItem::List(_, items) = mi {
        let mut i: usize = 0;
        while i < items.len()
            invariant
                i <= items.len(),
                *mi matches MetaItem::List(_, mi_items) && mi_items == *items,
                nested_args(items@.take(i as int)) == Ok::<Map<Seq<char>, ArgModel>, ConfigError>(
                    list@,
                ),
            decreases items.len() - i,
        {
            proof {
                lemma_nested_args_step(items@, i as int);
            }
            let entry: Result<(String, ArgValue), ConfigError> = match &items[i] {
                NestedMetaItem::MetaItem(inner) => match inner {
                    MetaItem::Word(name) => Ok((name.clone(), ArgValue::Nothing)),
                    MetaItem::NameValue(name, value) => match value {
                        Lit::Str(text, StrStyle::Cooked) => Ok(
                            (name.clone(), ArgValue::Str(text.clone())),
                        ),
                        _ => Err(ConfigError::InvalidLiteral),
                    },
                    MetaItem::List(name, _) => match get_item_args(inner) {
                        Ok(sub) => Ok((name.clone(), ArgValue::List(sub))),
                        Err(e) => Err(e),
                    },
                },
                NestedMetaItem::Literal(_) => Err(ConfigError::UnknownItem),
            };
            match entry {
                Ok((name, value)) => {
                    list.insert(name, value);
                },
                Err(e) => {
                    proof {
                        lemma_nested_args_prefix_error(items@, i + 1);
                    }
                    return Err(e);
                },
            }
            i = i + 1;
        }
        proof {
            assert(items@.take(i as int) =~= items@);
        }
    }
    Ok(list)
}

/// Whether an item is a `name = value` pair whose value is not an ordinary
/// string literal, such as `key = 123`.
pub open spec fn is_invalid_pair(item: NestedMetaItem) -> bool {
    item matches NestedMetaItem::MetaItem(MetaItem::NameValue(_, value)) && !(value matches Lit::Str(
        _,
        StrStyle::Cooked,
    ))
}

/// The items between one pair of brackets are read one by one: the list
/// gives arguments exactly if each of its items does.
pub proof fn lemma_nested_args_item_by_item(items: Seq<NestedMetaItem>)
    ensures
        nested_args(items) is Ok <==> forall|i: int|
            0 <= i < items.len() ==> (#[trigger] nested_arg(items[i])) is Ok,
    decreases items.len(),
{
    if items.len() > 0 {
        let shorter = items.drop_last();
        lemma_nested_args_item_by_item(shorter);
        assert forall|i: int| 0 <= i < shorter.len() implies shorter[i] == items[i] by {}
        if nested_args(items) is Ok {
            assert forall|i: int| 0 <= i < items.len() implies (#[trigger] nested_arg(
                items[i],
            )) is Ok by {
                if i < shorter.len() {
                    assert(nested_arg(shorter[i]) is Ok);
                }
            }
        }
        if forall|i: int| 0 <= i < items.len() ==> (#[trigger] nested_arg(items[i])) is Ok {
            assert forall|i: int| 0 <= i < shorter.len() implies (#[trigger] nested_arg(
                shorter[i],
            )) is Ok by {
                assert(nested_arg(items[i]) is Ok);
            }
            assert(nested_arg(items[items.len() - 1]) is Ok);
        }
    }
}

/// Of the items with one name the rightmost decides the argument under that
/// name, and a name that no item carries has no argument.
pub proof fn lemma_nested_args_rightmost_wins(items: Seq<NestedMetaItem>, name: Seq<char>)
    requires
        nested_args(items) is Ok,
    ensures
        nested_args(items)->Ok_0.contains_key(name) <==> exists|i: int|
            0 <= i < items.len() && (#[trigger] nested_arg(items[i]))->Ok_0.0 == name,
        forall|i: int|
            0 <= i < items.len() && (#[trigger] nested_arg(items[i]))->Ok_0.0 == name && (forall|
                j: int,
            |
                i < j < items.len() ==> (#[trigger] nested_arg(items[j]))->Ok_0.0 != name)
                ==> nested_args(items)->Ok_0[name] == nested_arg(items[i])->Ok_0.1,
    decreases items.len(),
{
    if items.len() > 0 {
        let shorter = items.drop_last();
        let last = items.len() - 1;
        lemma_nested_args_rightmost_wins(shorter, name);
        assert forall|i: int| 0 <= i < shorter.len() implies shorter[i] == items[i] by {}
        let before = nested_args(shorter)->Ok_0;
        let whole = nested_args(items)->Ok_0;
        let (last_name, last_value) = nested_arg(items[last])->Ok_0;
        assert(whole == before.insert(last_name, last_value));
        if whole.contains_key(name) {
            if last_name == name {
                assert(nested_arg(items[last])->Ok_0.0 == name);
            } else {
                let i = choose|i: int|
                    0 <= i < shorter.len() && (#[trigger] nested_arg(shorter[i]))->Ok_0.0 == name;
                assert(nested_arg(items[i])->Ok_0.0 == name);
            }
        }
        if exists|i: int|
            0 <= i < items.len() && (#[trigger] nested_arg(items[i]))->Ok_0.0 == name {
            let i = choose|i: int|
                0 <= i < items.len() && (#[trigger] nested_arg(items[i]))->Ok_0.0 == name;
            if i < last {
                assert(nested_arg(shorter[i])->Ok_0.0 == name);
            }
        }
        assert forall|i: int|
            0 <= i < items.len() && (#[trigger] nested_arg(items[i]))->Ok_0.0 == name && (forall|
                j: int,
            |
                i < j < items.len() ==> (#[trigger] nested_arg(items[j]))->Ok_0.0
                    != name) implies whole[name] == nested_arg(items[i])->Ok_0.1 by {
            if i < last {
                assert(nested_arg(items[last])->Ok_0.0 != name);
                assert(nested_arg(shorter[i])->Ok_0.0 == name);
                assert forall|j: int| i < j < shorter.len() implies (#[trigger] nested_arg(
                    shorter[j],
                ))->Ok_0.0 != name by {
                    assert(nested_arg(items[j])->Ok_0.0 != name);
                }
            }
        }
    }
}

/// Reading one item can only fail on the item's syntax.
pub proof fn lemma_nested_arg_fault_is_of_syntax(item: NestedMetaItem)
    ensures
        nested_arg(item) matches Err(e) ==> e.is_syntax(),
    decreases item,
{
    if let NestedMetaItem::MetaItem(MetaItem::List(_, items)) = item {
        lemma_nested_args_fault_is_of_syntax(items@);
    }
}

/// Reading annotations can only fail on their syntax: whether an argument
/// has the shape that its key needs is not looked at before a policy is
/// resolved.
pub proof fn lemma_nested_args_fault_is_of_syntax(items: Seq<NestedMetaItem>)
    ensures
        nested_args(items) matches Err(e) ==> e.is_syntax(),
    decreases items,
{
    if items.len() > 0 {
        lemma_nested_args_fault_is_of_syntax(items.drop_last());
        lemma_nested_arg_fault_is_of_syntax(items.last());
    }
}

/// A pair whose value is not an ordinary string literal, and a literal on its
/// own, make the reading of the whole list fail, wherever in the list they
/// stand: no arguments come out, and so no policy.
pub proof fn lemma_malformed_item_is_reported(items: Seq<NestedMetaItem>, at: int)
    requires
        0 <= at < items.len(),
        is_invalid_pair(items[at]) || items[at] is Literal,
    ensures
        nested_args(items) is Err,
{
    lemma_nested_args_item_by_item(items);
    assert(nested_arg(items[at]) is Err);
}

/// The arguments of the first attribute named `cross_check`, if there is
/// one: later attributes of that name are not read.
pub open spec fn cross_check_args(attrs: Seq<Attribute>) -> Result<
    Option<Map<Seq<char>, ArgModel>>,
    ConfigError,
>
    decreases attrs.len(),
{
    if attrs.len() == 0 {
        Ok(None)
    } else if attrs.first().value.spec_name() == "cross_check"@ {
        match item_args(attrs.first().value) {
            Ok(args) => Ok(Some(args)),
            Err(e) => Err(e),
        }
    } else {
        cross_check_args(attrs.drop_first())
    }
}

/// The arguments that a list of attributes gives: those of its first
/// `cross_check` attribute, and none where it has no such attribute.
pub open spec fn annotation_args(attrs: Seq<Attribute>) -> Result<
    Map<Seq<char>, ArgModel>,
    ConfigError,
> {
    match cross_check_args(attrs) {
        Ok(Some(args)) => Ok(args),
        Ok(None) => Ok(Map::empty()),
        Err(e) => Err(e),
    }
}

/// Where the first `skipped` attributes are not named `cross_check`, the
/// others decide.
proof fn lemma_cross_check_args_skip(attrs: Seq<Attribute>, skipped: int)
    requires
        0 <= skipped <= attrs.len(),
        forall|j: int| 0 <= j < skipped ==> attrs[j].value.spec_name() != "cross_check"@,
    ensures
        cross_check_args(attrs) == cross_check_args(attrs.skip(skipped)),
    decreases skipped,
{
    if skipped == 0 {
        assert(attrs.skip(0) =~= attrs);
    } else {
        assert(attrs.first() == attrs[0]);
        assert(attrs.drop_first().skip(skipped - 1) =~= attrs.skip(skipped));
        lemma_cross_check_args_skip(attrs.drop_first(), skipped - 1);
    }
}

/// A malformed item in the first `cross_check` attribute is reported when
/// the annotations are read, before anything can be resolved from them or
/// hashed with them.
pub proof fn lemma_malformed_annotation_is_reported(
    attrs: Seq<Attribute>,
    first: int,
    items: Seq<NestedMetaItem>,
    at: int,
)
    requires
        0 <= first < attrs.len(),
        forall|j: int| 0 <= j < first ==> attrs[j].value.spec_name() != "cross_check"@,
        attrs[first].value matches MetaItem::List(name, listed) && name@ == "cross_check"@
            && listed@ == items,
        0 <= at < items.len(),
        is_invalid_pair(items[at]) || items[at] is Literal,
    ensures
        cross_check_args(attrs) is Err,
        annotation_args(attrs) is Err,
{
    lemma_cross_check_args_skip(attrs, first);
    assert(attrs.skip(first).first() == attrs[first]);
    lemma_malformed_item_is_reported(items, at);
}

/// Finds the first attribute named `cross_check` and reads its arguments.
///
/// Without such an attribute there is nothing to read, which is no fault.
pub fn get_cross_check_args(attrs: &[Attribute]) -> (r: Result<Option<ArgList>, ConfigError>)
    ensures
        match r {
            Ok(Some(list)) => cross_check_args(attrs@) == Ok::<
                Option<Map<Seq<char>, ArgModel>>,
                ConfigError,
            >(Some(list@)),
            Ok(None) => cross_check_args(attrs@) == Ok::<
                Option<Map<Seq<char>, ArgModel>>,
                ConfigError,
            >(None),
            Err(e) => cross_check_args(attrs@) == Err::<
                Option<Map<Seq<char>, ArgModel>>,
                ConfigError,
            >(e),
        },
{
    let wanted = "cross_check".to_owned();
    let mut i: usize = 0;
    while i < attrs.len()
        invariant
            i <= attrs.len(),
            wanted@ == "cross_check"@,
            forall|j: int| 0 <= j < i ==> attrs@[j].value.spec_name() != "cross_check"@,
        decreases attrs.len() - i,
    {
        if *attrs[i].name() == wanted {
            proof {
                lemma_cross_check_args_skip(attrs@, i as int);
                assert(attrs@.skip(i as int).first() == attrs@[i as int]);
            }
            return match get_item_args(&attrs[i].value) {
                Ok(list) => Ok(Some(list)),
                Err(e) => Err(e),
            };
        }
        i = i + 1;
    }
    proof {
        lemma_cross_check_args_skip(attrs@, i as int);
    }
    Ok(None)
}

/// Reads the arguments that a list of attributes gives, the empty map where
/// it has no `cross_check` attribute.
pub fn get_annotation_args(attrs: &[Attribute]) -> (r: Result<ArgList, ConfigError>)
    ensures
        match r {
            Ok(list) => annotation_args(attrs@) == Ok::<Map<Seq<char>, ArgModel>, ConfigError>(
                list@,
            ),
            Err(e) => annotation_args(attrs@) == Err::<Map<Seq<char>, ArgModel>, ConfigError>(e),
        },
{
    match get_cross_check_args(attrs) {
        Ok(Some(list)) => Ok(list),
        Ok(None) => Ok(ArgList::new()),
        Err(e) => Err(e),
    }
}

} // verus!
