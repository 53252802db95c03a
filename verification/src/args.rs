//! Arguments of an annotation: flags, strings and nested lists, by name.

use vstd::prelude::*;

use crate::error::ConfigError;

verus! {

/// What an argument is, as a mathematical value.
pub enum ArgModel {
    /// A bare flag.
    Nothing,
    /// A string.
    Str(Seq<char>),
    /// A nested list of arguments, by name.
    List(Map<Seq<char>, ArgModel>),
}

/// One argument of an annotation.
#[derive(Debug)]
pub enum ArgValue {
    /// A bare flag: the name alone.
    Nothing,
    /// `name = "string"`.
    Str(String),
    /// `name(...)`: the arguments inside the brackets.
    List(ArgList),
}

/// The arguments of one annotation list, by name.
///
/// A name that is inserted twice keeps the value that came last.
#[derive(Debug)]
pub struct ArgList {
    entries: Vec<(String, ArgValue)>,
}

/// The map that a sequence of named arguments stands for: of two entries
/// with one name the later one counts.
spec fn entries_model(entries: Seq<(String, ArgValue)>) -> Map<Seq<char>, ArgModel>
    decreases entries,
{
    if entries.len() == 0 {
        Map::empty()
    } else {
        entries_model(entries.drop_last()).insert(entries.last().0@, entries.last().1@)
    }
}

impl View for ArgValue {
    type V = ArgModel;

    open spec fn view(&self) -> ArgModel
        decreases self,
    {
        match self {
            ArgValue::Nothing => ArgModel::Nothing,
            ArgValue::Str(s) => ArgModel::Str(s@),
            ArgValue::List(l) => ArgModel::List(l@),
        }
    }
}

impl View for ArgList {
    type V = Map<Seq<char>, ArgModel>;

    closed spec fn view(&self) -> Map<Seq<char>, ArgModel>
        decreases self,
    {
        entries_model(self.entries@)
    }
}

impl ArgValue {
    /// The string of a string argument.
    ///
    /// A flag or a list is a fault of shape, reported as
    /// [`ConfigError::ExpectedString`].
    pub fn get_str(&self) -> (r: Result<&String, ConfigError>)
        ensures
            match *self {
                ArgValue::Str(s) => r == Ok::<&String, ConfigError>(&s),
                _ => r == Err::<&String, ConfigError>(ConfigError::ExpectedString),
            },
            r is Ok <==> self@ is Str,
            r matches Ok(s) ==> self@ == ArgModel::Str(s@),
    {
        match self {
            ArgValue::Str(s) => Ok(s),
            _ => Err(ConfigError::ExpectedString),
        }
    }

    /// The string of a string argument, as a name of its own: an identifier
    /// that the caller may keep after the argument is gone.
    ///
    /// Fails as [`ArgValue::get_str`] does.
    pub fn get_str_ident(&self) -> (r: Result<String, ConfigError>)
        ensures
            match r {
                Ok(name) => self@ == ArgModel::Str(name@),
                Err(e) => e == ConfigError::ExpectedString && !(self@ is Str),
            },
    {
        match self.get_str() {
            Ok(s) => Ok(s.clone()),
            Err(e) => Err(e),
        }
    }

    /// The arguments of a list argument.
    ///
    /// A flag or a string is a fault of shape, reported as
    /// [`ConfigError::ExpectedList`].
    pub fn get_list(&self) -> (r: Result<&ArgList, ConfigError>)
        ensures
            match *self {
                ArgValue::List(l) => r == Ok::<&ArgList, ConfigError>(&l),
                _ => r == Err::<&ArgList, ConfigError>(ConfigError::ExpectedList),
            },
            r is Ok <==> self@ is List,
            r matches Ok(l) ==> self@ == ArgModel::List(l@),
    {
        match self {
            ArgValue::List(l) => Ok(l),
            _ => Err(ConfigError::ExpectedList),
        }
    }
}

/// Entries behind the first `keep` do not count for a name that none of them
/// carries.
proof fn lemma_entries_model_skip(entries: Seq<(String, ArgValue)>, name: Seq<char>, keep: int)
    requires
        0 <= keep <= entries.len(),
        forall|j: int| keep <= j < entries.len() ==> entries[j].0@ != name,
    ensures
        entries_model(entries).contains_key(name) == entries_model(entries.take(keep)).contains_key(
            name,
        ),
        entries_model(entries).contains_key(name) ==> entries_model(entries)[name]
            == entries_model(entries.take(keep))[name],
    decreases entries.len(),
{
    if keep == entries.len() {
        assert(entries.take(keep) =~= entries);
    } else {
        let shorter = entries.drop_last();
        assert(shorter.take(keep) =~= entries.take(keep));
        assert(entries[entries.len() - 1].0@ != name);
        assert forall|j: int| keep <= j < shorter.len() implies shorter[j].0@ != name by {
            assert(shorter[j] == entries[j]);
        }
        lemma_entries_model_skip(shorter, name, keep);
        assert(entries_model(entries) == entries_model(shorter).insert(
            entries.last().0@,
            entries.last().1@,
        ));
    }
}

impl Default for ArgList {
    /// The list without arguments.
    fn default() -> (list: ArgList)
        ensures
            list@ == Map::<Seq<char>, ArgModel>::empty(),
    {
        ArgList::new()
    }
}

impl ArgList {
    /// The list without arguments.
    pub fn new() -> (list: ArgList)
        ensures
            list@ == Map::<Seq<char>, ArgModel>::empty(),
    {
        ArgList { entries: Vec::new() }
    }

    /// Puts `value` under `name`; a value that was there before is replaced.
    pub fn insert(&mut self, name: String, value: ArgValue)
        ensures
            final(self)@ == old(self)@.insert(name@, value@),
    {
        self.entries.push((name, value));
        proof {
            assert(self.entries@.drop_last() =~= old(self).entries@);
        }
    }

    /// The argument under `name`, if there is one.
    pub fn get(&self, name: &str) -> (found: Option<&ArgValue>)
        ensures
            found is Some <==> self@.contains_key(name@),
            found matches Some(value) ==> value@ == self@[name@],
    {
        let key = name.to_owned();
        let mut i: usize = self.entries.len();
        while i > 0
            invariant
                i <= self.entries.len(),
                key@ == name@,
                forall|j: int| i <= j < self.entries.len() ==> self.entries@[j].0@ != name@,
            decreases i,
        {
            i = i - 1;
            if self.entries[i].0 == key {
                proof {
                    let entries = self.entries@;
                    lemma_entries_model_skip(entries, name@, i + 1);
                    let upto = entries.take(i + 1);
                    assert(upto.drop_last() =~= entries.take(i as int));
                    assert(upto.last() == entries[i as int]);
                    assert(entries_model(upto) == entries_model(upto.drop_last()).insert(
                        upto.last().0@,
                        upto.last().1@,
                    ));
                }
                return Some(&self.entries[i].1);
            }
        }
        proof {
            lemma_entries_model_skip(self.entries@, name@, 0);
        }
        None
    }

    /// Whether there is an argument under `name`.
    pub fn contains_key(&self, name: &str) -> (present: bool)
        ensures
            present == self@.contains_key(name@),
    {
        self.get(name).is_some()
    }
}

} // verus!
