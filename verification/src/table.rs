//! The variable table: a mapping from variable names to values. Only
//! string-typed values take part in substitution; every other value is
//! treated as if the name were absent.

use vstd::prelude::*;

use crate::text::str_eq;

verus! {

/// A configuration value: either a string, or something the substitution
/// engine does not interpret.
pub enum Value {
    Str(String),
    Other,
}

/// The mathematical shape of a [`Value`].
pub enum ValueView {
    Str(Seq<char>),
    Other,
}

impl View for Value {
    type V = ValueView;

    open spec fn view(&self) -> ValueView {
        match self {
            Value::Str(s) => ValueView::Str(s@),
            Value::Other => ValueView::Other,
        }
    }
}

impl Value {
    /// The explicit extraction operation: the string content, if this value
    /// is string-typed.
    pub fn as_str(&self) -> (r: Option<&str>)
        ensures
            match r {
                Some(s) => self@ is Str && s@ == self@->Str_0,
                None => self@ is Other,
            },
    {
        match self {
            Value::Str(s) => Some(s.as_str()),
            Value::Other => None,
        }
    }
}

/// One binding of the table.
pub struct Binding {
    pub name: String,
    pub value: Value,
}

/// The run-scoped mapping from variable name to value. Later insertions for
/// the same name shadow earlier ones, so the table always denotes a plain
/// finite map.
pub struct Table {
    bindings: Vec<Binding>,
}

/// The map denoted by a sequence of bindings, later bindings winning.
pub open spec fn bindings_map(bs: Seq<Binding>) -> Map<Seq<char>, ValueView>
    decreases bs.len(),
{
    if bs.len() == 0 {
        Map::empty()
    } else {
        bindings_map(bs.drop_last()).insert(bs.last().name@, bs.last().value@)
    }
}

impl View for Table {
    type V = Map<Seq<char>, ValueView>;

    closed spec fn view(&self) -> Map<Seq<char>, ValueView> {
        bindings_map(self.bindings@)
    }
}

/// A binding whose name matches and that no later binding shadows gives the
/// value the denoted map holds for that name.
proof fn lemma_bindings_map_match(bs: Seq<Binding>, i: int)
    requires
        0 <= i < bs.len(),
        forall|j: int| i < j < bs.len() ==> bs[j].name@ != bs[i].name@,
    ensures
        bindings_map(bs).contains_key(bs[i].name@),
        bindings_map(bs)[bs[i].name@] == bs[i].value@,
    decreases bs.len(),
{
    if i == bs.len() - 1 {
    } else {
        let prefix = bs.drop_last();
        lemma_bindings_map_match(prefix, i);
    }
}

/// A name matched by no binding is absent from the denoted map.
proof fn lemma_bindings_map_no_match(bs: Seq<Binding>, name: Seq<char>)
    requires
        forall|j: int| 0 <= j < bs.len() ==> bs[j].name@ != name,
    ensures
        !bindings_map(bs).contains_key(name),
    decreases bs.len(),
{
    if bs.len() > 0 {
        lemma_bindings_map_no_match(bs.drop_last(), name);
    }
}

impl Table {
    /// An empty table.
    pub fn new() -> (t: Table)
        ensures
            t@ == Map::<Seq<char>, ValueView>::empty(),
    {
        Table { bindings: Vec::new() }
    }

    /// Bind `name` to `value`, shadowing any earlier binding of `name`.
    pub fn insert(&mut self, name: String, value: Value)
        ensures
            final(self)@ == old(self)@.insert(name@, value@),
    {
        self.bindings.push(Binding { name, value });
        proof {
            assert(self.bindings@.drop_last() =~= old(self).bindings@);
        }
    }

    /// The value bound to `name`, if any.
    pub fn get(&self, name: &str) -> (r: Option<&Value>)
        ensures
            match r {
                Some(v) => self@.contains_key(name@) && v@ == self@[name@],
                None => !self@.contains_key(name@),
            },
    {
        let n = self.bindings.len();
        let mut i: usize = n;
        while i > 0
            invariant
                i <= n,
                n == self.bindings@.len(),
                forall|j: int| i <= j < n ==> self.bindings@[j].name@ != name@,
            decreases i,
        {
            i -= 1;
            if str_eq(self.bindings[i].name.as_str(), name) {
                proof {
                    lemma_bindings_map_match(self.bindings@, i as int);
                }
                return Some(&self.bindings[i].value);
            }
        }
        proof {
            lemma_bindings_map_no_match(self.bindings@, name@);
        }
        None
    }
}

} // verus!
