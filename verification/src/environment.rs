//! The environment variables that a service is configured with.

use vstd::prelude::*;

use crate::text::{blank, is_blank, opt_view, parse_unsigned, parsed, same, trim, trimmed};

verus! {

/// The value of an environment variable.
#[derive(Debug)]
pub enum EnvValue {
    /// A text.
    Text(String),
    /// Bytes that are no text, as far as they can be shown.
    Malformed(String),
}

/// What the value of an environment variable says.
pub enum ValueView {
    Text(Seq<char>),
    Malformed(Seq<char>),
}

impl View for EnvValue {
    type V = ValueView;

    open spec fn view(&self) -> ValueView {
        match self {
            EnvValue::Text(s) => ValueView::Text(s@),
            EnvValue::Malformed(s) => ValueView::Malformed(s@),
        }
    }
}

/// A variable of a process's environment.
#[derive(Debug)]
pub struct Variable {
    pub name: String,
    pub value: EnvValue,
}

/// The variables of a process's environment, in the order in which they were listed.
#[derive(Debug)]
pub struct Environment {
    pub vars: Vec<Variable>,
}

/// What the variables of an environment say.
pub type Vars = Seq<(Seq<char>, ValueView)>;

impl View for Environment {
    type V = Vars;

    open spec fn view(&self) -> Vars {
        self.vars@.map_values(|v: Variable| (v.name@, v.value@))
    }
}

/// The value of a variable. Should a name be listed twice, the first one counts.
pub open spec fn var_of(vars: Vars, name: Seq<char>) -> Option<ValueView>
    decreases vars.len(),
{
    if vars.len() == 0 {
        None
    } else if vars.first().0 == name {
        Some(vars.first().1)
    } else {
        var_of(vars.drop_first(), name)
    }
}

/// The value that a variable was given. A blank one counts as not set; one that is no text is
/// an error, which carries what can be shown of it.
pub open spec fn setting_of(vars: Vars, name: Seq<char>) -> Result<Option<Seq<char>>, Seq<char>> {
    match var_of(vars, name) {
        Some(ValueView::Text(value)) => if blank(value) {
            Ok(None)
        } else {
            Ok(Some(value))
        },
        Some(ValueView::Malformed(shown)) => Err(shown),
        None => Ok(None),
    }
}

/// The text that a variable sets, or `default`. A value that is no text is an error.
pub open spec fn string_of(vars: Vars, name: Seq<char>, default: Seq<char>) -> Result<
    Seq<char>,
    Seq<char>,
> {
    match setting_of(vars, name) {
        Ok(Some(value)) => Ok(value),
        Ok(None) => Ok(default),
        Err(shown) => Err(shown),
    }
}

/// The number that a variable sets, or `default`. A value that is no text, or no unsigned
/// number up to `max`, is an error, which carries the value as it was given.
pub open spec fn number_of(vars: Vars, name: Seq<char>, default: int, max: int) -> Result<
    int,
    Seq<char>,
> {
    match setting_of(vars, name) {
        Ok(Some(value)) => match parsed(trimmed(value), max) {
            Some(n) => Ok(n),
            None => Err(value),
        },
        Ok(None) => Ok(default),
        Err(shown) => Err(shown),
    }
}

/// The value that a variable was given, where one that is no text counts as not set, as a blank
/// one does.
pub open spec fn readable_of(vars: Vars, name: Seq<char>) -> Option<Seq<char>> {
    match setting_of(vars, name) {
        Ok(value) => value,
        Err(_) => None,
    }
}

/// The text that a variable sets, or `default`, which also stands in for a value that is no
/// text.
pub open spec fn string_or(vars: Vars, name: Seq<char>, default: Seq<char>) -> Seq<char> {
    match readable_of(vars, name) {
        Some(value) => value,
        None => default,
    }
}

/// The number that a variable sets, or `default`, which also stands in for a value that is no
/// text. A text that is no unsigned number up to `max` is an error, which carries it as it was
/// given.
pub open spec fn number_or(vars: Vars, name: Seq<char>, default: int, max: int) -> Result<
    int,
    Seq<char>,
> {
    match readable_of(vars, name) {
        Some(value) => match parsed(trimmed(value), max) {
            Some(n) => Ok(n),
            None => Err(value),
        },
        None => Ok(default),
    }
}

/// Whether a variable is set to anything at all.
pub open spec fn is_filled(vars: Vars, name: Seq<char>) -> bool {
    match var_of(vars, name) {
        Some(ValueView::Text(value)) => value.len() > 0,
        Some(ValueView::Malformed(_)) => true,
        None => false,
    }
}

impl Environment {
    /// The value of a variable.
    pub fn var(&self, name: &str) -> (r: Option<&EnvValue>)
        ensures
            match r {
                Some(value) => var_of(self@, name@) == Some(value@),
                None => var_of(self@, name@) is None,
            },
    {
        let mut i: usize = 0;
        assert(self@.skip(0) == self@);
        while i < self.vars.len()
            invariant
                i <= self.vars@.len(),
                var_of(self@, name@) == var_of(self@.skip(i as int), name@),
            decreases self.vars@.len() - i,
        {
            assert(self@.skip(i as int).drop_first() == self@.skip(i + 1));
            assert(self@.skip(i as int).first() == (
                self.vars@[i as int].name@,
                self.vars@[i as int].value@,
            ));
            if same(self.vars[i].name.as_str(), name) {
                return Some(&self.vars[i].value);
            }
            i += 1;
        }
        None
    }

    /// The value that a variable was given, unless it is blank; what can be shown of it if it
    /// is no text.
    pub fn setting(&self, name: &str) -> (r: Result<Option<String>, String>)
        ensures
            match r {
                Ok(Some(value)) => setting_of(self@, name@) == Ok::<Option<Seq<char>>, Seq<char>>(
                    Some(value@),
                ),
                Ok(None) => setting_of(self@, name@) == Ok::<Option<Seq<char>>, Seq<char>>(None),
                Err(shown) => setting_of(self@, name@) == Err::<Option<Seq<char>>, Seq<char>>(
                    shown@,
                ),
            },
    {
        match self.var(name) {
            Some(EnvValue::Text(value)) => if is_blank(value.as_str()) {
                Ok(None)
            } else {
                Ok(Some(value.clone()))
            },
            Some(EnvValue::Malformed(shown)) => Err(shown.clone()),
            None => Ok(None),
        }
    }

    /// The text that a variable sets, or `default`; what can be shown of a value that is no
    /// text.
    pub fn string_env(&self, name: &str, default: &str) -> (r: Result<String, String>)
        ensures
            match r {
                Ok(s) => string_of(self@, name@, default@) == Ok::<Seq<char>, Seq<char>>(s@),
                Err(shown) => string_of(self@, name@, default@) == Err::<Seq<char>, Seq<char>>(
                    shown@,
                ),
            },
    {
        match self.setting(name) {
            Ok(Some(value)) => Ok(value),
            Ok(None) => Ok(default.to_owned()),
            Err(shown) => Err(shown),
        }
    }

    /// The number that a variable sets, or `default`; the offending value if it is no
    /// unsigned number up to `max`.
    pub fn number_env(&self, name: &str, default: u64, max: u64) -> (r: Result<u64, String>)
        ensures
            match r {
                Ok(n) => number_of(self@, name@, default as int, max as int) == Ok::<
                    int,
                    Seq<char>,
                >(n as int),
                Err(value) => number_of(self@, name@, default as int, max as int) == Err::<
                    int,
                    Seq<char>,
                >(value@),
            },
            r matches Ok(n) ==> n <= max || n == default,
    {
        match self.setting(name) {
            Ok(Some(value)) => match parse_unsigned(trim(value.as_str()).as_str(), max) {
                Some(n) => Ok(n),
                None => Err(value),
            },
            Ok(None) => Ok(default),
            Err(shown) => Err(shown),
        }
    }

    /// The value that a variable was given, unless it is blank or no text.
    pub fn readable(&self, name: &str) -> (r: Option<String>)
        ensures
            opt_view(r) == readable_of(self@, name@),
    {
        match self.setting(name) {
            Ok(value) => value,
            Err(_) => None,
        }
    }

    /// The text that a variable sets, or `default`, which also stands in for a value that is
    /// no text.
    pub fn string_env_or(&self, name: &str, default: &str) -> (s: String)
        ensures
            s@ == string_or(self@, name@, default@),
    {
        match self.readable(name) {
            Some(value) => value,
            None => default.to_owned(),
        }
    }

    /// The number that a variable sets, or `default`, which also stands in for a value that is
    /// no text; the offending text if it is no unsigned number up to `max`.
    pub fn number_env_or(&self, name: &str, default: u64, max: u64) -> (r: Result<u64, String>)
        ensures
            match r {
                Ok(n) => number_or(self@, name@, default as int, max as int) == Ok::<
                    int,
                    Seq<char>,
                >(n as int),
                Err(value) => number_or(self@, name@, default as int, max as int) == Err::<
                    int,
                    Seq<char>,
                >(value@),
            },
            r matches Ok(n) ==> n <= max || n == default,
    {
        match self.readable(name) {
            Some(value) => match parse_unsigned(trim(value.as_str()).as_str(), max) {
                Some(n) => Ok(n),
                None => Err(value),
            },
            None => Ok(default),
        }
    }

    /// Whether a variable is set to anything at all.
    pub fn is_set(&self, name: &str) -> (r: bool)
        ensures
            r == is_filled(self@, name@),
    {
        match self.var(name) {
            Some(EnvValue::Text(value)) => !value.as_str().is_empty(),
            Some(EnvValue::Malformed(_)) => true,
            None => false,
        }
    }
}

/// Where a value that is no text matters, it is never taken for a variable that is not set:
/// reading a text or a number from it is an error.
pub proof fn malformed_values_are_refused(
    vars: Vars,
    name: Seq<char>,
    default: Seq<char>,
    n: int,
    max: int,
)
    requires
        var_of(vars, name) matches Some(value) && value is Malformed,
    ensures
        setting_of(vars, name) is Err,
        string_of(vars, name, default) is Err,
        number_of(vars, name, n, max) is Err,
        is_filled(vars, name),
{
}

/// A variable has the value that is listed first under its name, and none where its name is not
/// listed.
pub proof fn variable_is_the_first_of_its_name(vars: Vars, name: Seq<char>, i: int)
    requires
        0 <= i <= vars.len(),
        forall|j: int| 0 <= j < i ==> (#[trigger] vars[j]).0 != name,
        i < vars.len() ==> vars[i].0 == name,
    ensures
        var_of(vars, name) == if i < vars.len() {
            Some(vars[i].1)
        } else {
            None
        },
    decreases vars.len(),
{
    if i > 0 {
        assert(vars[0].0 != name);
        let rest = vars.drop_first();
        assert forall|j: int| 0 <= j < i - 1 implies (#[trigger] rest[j]).0 != name by {
            assert(rest[j] == vars[j + 1]);
        }
        variable_is_the_first_of_its_name(rest, name, i - 1);
    }
}

/// A variable counts as filled if it is set to anything but the empty text.
pub proof fn anything_fills_a_variable(vars: Vars, name: Seq<char>)
    ensures
        is_filled(vars, name) <==> (var_of(vars, name) is Some && var_of(vars, name) != Some(
            ValueView::Text(Seq::empty()),
        )),
{
    match var_of(vars, name) {
        Some(ValueView::Text(value)) => {
            if value.len() == 0 {
                assert(value =~= Seq::empty());
            }
        },
        _ => {},
    }
}

} // verus!
