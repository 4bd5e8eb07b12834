//! The run-scoped variable environment: a flat mutable table from variable
//! names to values. Keys are unique in the map abstraction and redefinition
//! overwrites silently — an explicit policy, so re-running a `var` statement
//! for the same name succeeds.
use vstd::prelude::*;

use crate::error::ErrorModel;
use crate::error::ErrorType;
use crate::error::LoxError;
use crate::tokens::Object;
use crate::tokens::Span;
use crate::tokens::Token;
use crate::tokens::Value;
use crate::tokens::bytes_eq;
use crate::tokens::copy_range;

verus! {

/// The map a sequence of bindings denotes; a later binding for a name
/// shadows an earlier one.
pub open spec fn map_of(entries: Seq<(Vec<u8>, Object)>) -> Map<Seq<u8>, Value>
    decreases entries.len(),
{
    if entries.len() == 0 {
        Map::empty()
    } else {
        map_of(entries.drop_last()).insert(entries.last().0@, entries.last().1@)
    }
}

/// The value the bindings give a name: the latest binding wins.
pub open spec fn lookup(entries: Seq<(Vec<u8>, Object)>, name: Seq<u8>) -> Option<Value>
    decreases entries.len(),
{
    if entries.len() == 0 {
        None
    } else if entries.last().0@ == name {
        Some(entries.last().1@)
    } else {
        lookup(entries.drop_last(), name)
    }
}

/// Reading the denoted map is reading the latest binding.
pub proof fn lemma_map_of_lookup(entries: Seq<(Vec<u8>, Object)>, name: Seq<u8>)
    ensures
        map_of(entries).contains_key(name) == (lookup(entries, name) is Some),
        map_of(entries).contains_key(name) ==> lookup(entries, name) == Some(
            map_of(entries)[name],
        ),
    decreases entries.len(),
{
    if entries.len() > 0 && entries.last().0@ != name {
        lemma_map_of_lookup(entries.drop_last(), name);
    }
}

/// The name-to-value table. It holds the source buffer so that a variable
/// token's name can be read from its span.
pub struct Environment<'a> {
    values: Vec<(Vec<u8>, Object)>,
    source: &'a Vec<u8>,
}

impl<'a> Environment<'a> {
    /// The bindings, as a map from name bytes to value models.
    pub closed spec fn view_map(self) -> Map<Seq<u8>, Value> {
        map_of(self.values@)
    }

    /// The source buffer variable names are read from.
    pub closed spec fn src(self) -> Seq<u8> {
        self.source@
    }

    /// An empty environment over the given source.
    pub fn new(source: &'a Vec<u8>) -> (e: Environment<'a>)
        ensures
            e.view_map() == Map::<Seq<u8>, Value>::empty(),
            e.src() == source@,
    {
        Environment { values: Vec::new(), source }
    }

    /// Binds `value` under `name`, overwriting any earlier binding of the
    /// same name: variable statements can redefine variables. The binding
    /// must carry a value.
    pub fn define(&mut self, name: Vec<u8>, value: Option<Object>)
        requires
            value is Some,
        ensures
            final(self).src() == old(self).src(),
            final(self).view_map() == old(self).view_map().insert(name@, value->0@),
    {
        let v = match value {
            Some(v) => v,
            None => vstd::pervasive::unreached(),
        };
        let ghost n = name@;
        let ghost vv = v@;
        self.values.push((name, v));
        proof {
            assert(self.values@.drop_last() =~= old(self).values@);
            assert(self.values@.last().0@ == n && self.values@.last().1@ == vv);
        }
    }

    /// Looks the variable named by the token's span up, handing out a copy
    /// of the bound value, or fails with an undefined-variable error
    /// carrying the token's span.
    pub fn get(&self, name: Token) -> (r: Result<Object, LoxError>)
        requires
            name.span.wf(self.src().len()),
        ensures
            ({
                let key = name.span.text(self.src());
                if self.view_map().contains_key(key) {
                    r matches Ok(v) && (r matches Ok(v) ==> v@ == self.view_map()[key])
                } else {
                    r matches Err(e) && (r matches Err(e) ==> e@ == undefined_variable_error(
                        name.span,
                    ))
                }
            }),
    {
        let key = copy_range(self.source, name.span.start, name.span.end);
        proof {
            lemma_map_of_lookup(self.values@, key@);
        }
        let mut j = self.values.len();
        proof {
            assert(self.values@.take(self.values@.len() as int) =~= self.values@);
        }
        while j > 0
            invariant
                j <= self.values@.len(),
                key@ == name.span.text(self.src()),
                lookup(self.values@, key@) == lookup(self.values@.take(j as int), key@),
            decreases j,
        {
            j = j - 1;
            proof {
                assert(self.values@.take(j as int + 1).drop_last() =~= self.values@.take(
                    j as int,
                ));
                assert(self.values@.take(j as int + 1).last() == self.values@[j as int]);
            }
            if bytes_eq(&self.values[j].0, &key) {
                proof {
                    assert(lookup(self.values@, key@) == Some(self.values@[j as int].1@));
                    lemma_map_of_lookup(self.values@, key@);
                }
                return Ok(self.values[j].1.clone());
            }
        }
        proof {
            assert(self.values@.take(0) =~= Seq::<(Vec<u8>, Object)>::empty());
        }
        Err(LoxError::error(name.span, "Undefined variable", ErrorType::RuntimeError))
    }
}

/// The error a read of an unbound variable fails with; the span names the
/// variable.
pub open spec fn undefined_variable_error(span: Span) -> ErrorModel {
    ErrorModel { span, message: "Undefined variable"@, error_type: ErrorType::RuntimeError }
}

} // verus!
