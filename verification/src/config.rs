//! What a plugin was asked for.

use crate::text::same_text;
use vstd::prelude::*;

verus! {

/// The value of one option.
#[derive(Debug)]
pub enum ConfigValue {
    Int(i64),
    Str(String),
    Bool(bool),
    Bytes(Vec<u8>),
    List(Vec<ConfigValue>),
}

impl ConfigValue {
    /// The number that an option holds, where it holds one.
    #[verifier::allow_in_spec]
    pub fn as_int(&self) -> (number: Option<i64>)
        returns
            (match self {
                ConfigValue::Int(number) => Some(*number),
                _ => None,
            }),
    {
        match self {
            ConfigValue::Int(number) => Some(*number),
            _ => None,
        }
    }
}

/// One option and its value.
#[derive(Debug)]
pub struct Setting {
    pub name: String,
    pub value: ConfigValue,
}

/// The options a plugin runs with.
#[derive(Debug)]
pub struct Configuration {
    pub settings: Vec<Setting>,
}

/// The place of the first setting of a name at or behind a place.
pub open spec fn setting_from(settings: Seq<Setting>, name: Seq<char>, from: int) -> Option<int>
    decreases settings.len() - from,
{
    if from < 0 || from >= settings.len() {
        None
    } else if settings[from].name@ == name {
        Some(from)
    } else {
        setting_from(settings, name, from + 1)
    }
}

proof fn lemma_setting_from(settings: Seq<Setting>, name: Seq<char>, from: int)
    requires
        0 <= from,
    ensures
        setting_from(settings, name, from) matches Some(at) ==> from <= at < settings.len()
            && settings[at].name@ == name,
        setting_from(settings, name, from) is None ==> forall|i: int|
            from <= i < settings.len() ==> settings[i].name@ != name,
    decreases settings.len() - from,
{
    if from < settings.len() && settings[from].name@ != name {
        lemma_setting_from(settings, name, from + 1);
    }
}

proof fn lemma_setting_same_names(a: Seq<Setting>, b: Seq<Setting>, name: Seq<char>, from: int)
    requires
        0 <= from,
        a.len() == b.len(),
        forall|i: int| 0 <= i < a.len() ==> a[i].name@ == b[i].name@,
    ensures
        setting_from(a, name, from) == setting_from(b, name, from),
    decreases a.len() - from,
{
    if from < a.len() {
        assert(a[from].name@ == b[from].name@);
        lemma_setting_same_names(a, b, name, from + 1);
    }
}

proof fn lemma_setting_pushed(settings: Seq<Setting>, more: Setting, name: Seq<char>, from: int)
    requires
        0 <= from <= settings.len(),
    ensures
        setting_from(settings.push(more), name, from) == match setting_from(settings, name, from) {
            Some(at) => Some(at),
            None => if more.name@ == name {
                Some(settings.len() as int)
            } else {
                None
            },
        },
    decreases settings.len() - from,
{
    if from < settings.len() {
        assert(settings.push(more)[from] == settings[from]);
        lemma_setting_pushed(settings, more, name, from + 1);
    } else {
        assert(settings.push(more)[from] == more);
        assert(setting_from(settings.push(more), name, from + 1) is None);
    }
}

impl Configuration {
    /// The value an option is set to.
    pub open spec fn lookup(&self, name: Seq<char>) -> Option<ConfigValue> {
        match setting_from(self.settings@, name, 0) {
            Some(at) => Some(self.settings@[at].value),
            None => None,
        }
    }

    /// The text an option is set to, where it is set to one.
    pub open spec fn text_of(&self, name: Seq<char>) -> Option<Seq<char>> {
        match self.lookup(name) {
            Some(ConfigValue::Str(text)) => Some(text@),
            _ => None,
        }
    }

    /// The text an option is set to, or another one.
    pub open spec fn text_or(&self, name: Seq<char>, otherwise: Seq<char>) -> Seq<char> {
        match self.text_of(name) {
            Some(text) => text,
            None => otherwise,
        }
    }

    /// The number an option is set to, where it is set to one.
    pub open spec fn int_of(&self, name: Seq<char>) -> Option<i64> {
        match self.lookup(name) {
            Some(ConfigValue::Int(number)) => Some(number),
            _ => None,
        }
    }

    /// The flag an option is set to, where it is set to one.
    pub open spec fn bool_of(&self, name: Seq<char>) -> Option<bool> {
        match self.lookup(name) {
            Some(ConfigValue::Bool(flag)) => Some(flag),
            _ => None,
        }
    }

    /// Whether a flag is set.
    pub open spec fn flag(&self, name: Seq<char>) -> bool {
        self.bool_of(name) == Some(true)
    }

    /// A configuration in which no option is set.
    pub fn new() -> (config: Configuration)
        ensures
            forall|name: Seq<char>| config.lookup(name) is None,
    {
        Configuration { settings: Vec::new() }
    }

    fn position(&self, name: &str) -> (at: Option<usize>)
        ensures
            at is Some <==> setting_from(self.settings@, name@, 0) is Some,
            at is Some ==> at->0 == setting_from(self.settings@, name@, 0)->0 && at->0
                < self.settings@.len(),
    {
        let mut i: usize = 0;
        while i < self.settings.len()
            invariant
                i <= self.settings@.len(),
                setting_from(self.settings@, name@, 0) == setting_from(
                    self.settings@,
                    name@,
                    i as int,
                ),
            decreases self.settings@.len() - i,
        {
            if same_text(&self.settings[i].name, name) {
                return Some(i);
            }
            i = i + 1;
        }
        None
    }

    /// Set an option. Every other one keeps its value.
    pub fn set(&mut self, name: &str, value: ConfigValue)
        ensures
            final(self).lookup(name@) == Some(value),
            forall|other: Seq<char>| other != name@ ==> final(self).lookup(other) == old(
                self,
            ).lookup(other),
    {
        let ghost before = self.settings@;
        match self.position(name) {
            Some(at) => {
                let setting = Setting { name: name.to_owned(), value };
                self.settings.set(at, setting);
                proof {
                    lemma_setting_from(before, name@, 0);
                    assert forall|other: Seq<char>| #[trigger]
                        setting_from(self.settings@, other, 0) == setting_from(
                            before,
                            other,
                            0,
                        ) by {
                        lemma_setting_same_names(self.settings@, before, other, 0);
                    }
                    assert forall|other: Seq<char>| other != name@ implies self.lookup(other)
                        == old(self).lookup(other) by {
                        lemma_setting_from(before, other, 0);
                    }
                }
            },
            None => {
                let setting = Setting { name: name.to_owned(), value };
                self.settings.push(setting);
                proof {
                    lemma_setting_pushed(before, setting, name@, 0);
                    assert forall|other: Seq<char>| other != name@ implies self.lookup(other)
                        == old(self).lookup(other) by {
                        lemma_setting_pushed(before, setting, other, 0);
                        lemma_setting_from(before, other, 0);
                    }
                }
            },
        }
    }

    /// The value of an option.
    pub fn get(&self, name: &str) -> (found: Option<&ConfigValue>)
        ensures
            match found {
                Some(value) => self.lookup(name@) == Some(*value),
                None => self.lookup(name@) is None,
            },
    {
        match self.position(name) {
            Some(at) => Some(&self.settings[at].value),
            None => None,
        }
    }

    /// The text of an option.
    pub fn get_string(&self, name: &str) -> (found: Option<String>)
        ensures
            crate::text::maybe_text(found) == self.text_of(name@),
    {
        match self.get(name) {
            Some(ConfigValue::Str(text)) => Some(text.clone()),
            _ => None,
        }
    }

    /// The number of an option.
    pub fn get_int(&self, name: &str) -> (found: Option<i64>)
        ensures
            found == self.int_of(name@),
    {
        match self.get(name) {
            Some(ConfigValue::Int(number)) => Some(*number),
            _ => None,
        }
    }

    /// The flag of an option.
    pub fn get_bool(&self, name: &str) -> (found: Option<bool>)
        ensures
            found == self.bool_of(name@),
    {
        match self.get(name) {
            Some(ConfigValue::Bool(flag)) => Some(*flag),
            _ => None,
        }
    }

    /// Whether a flag is set.
    pub fn is_set(&self, name: &str) -> (set: bool)
        ensures
            set == self.flag(name@),
    {
        match self.get_bool(name) {
            Some(flag) => flag,
            None => false,
        }
    }
}

} // verus!
