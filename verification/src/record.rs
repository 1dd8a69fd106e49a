//! The target shape a buffer is decoded into: a record of named
//! integer fields, kept in decode order.

use vstd::prelude::*;
use vstd::string::StringExecFns;

verus! {

/// A decoded value: an ordered list of `(field name, integer value)`
/// pairs. Decoders hand fields out with unique names; the type itself
/// does not enforce uniqueness, and `get` resolves a repeated name to
/// its first occurrence.
#[derive(Debug, Clone, PartialEq, Eq)]
pub struct Record {
    pub fields: Vec<(String, i64)>,
}

impl View for Record {
    type V = Seq<(Seq<char>, i64)>;

    open spec fn view(&self) -> Seq<(Seq<char>, i64)> {
        self.fields@.map_values(|p: (String, i64)| (p.0@, p.1))
    }
}

/// The value of the first field called `name`, if any.
pub open spec fn lookup(fields: Seq<(Seq<char>, i64)>, name: Seq<char>) -> Option<i64>
    decreases fields.len(),
{
    if fields.len() == 0 {
        None
    } else if fields[0].0 == name {
        Some(fields[0].1)
    } else {
        lookup(fields.drop_first(), name)
    }
}

impl Record {
    /// An empty record, with no fields.
    pub fn new() -> (r: Record)
        ensures
            r@ == Seq::<(Seq<char>, i64)>::empty(),
    {
        let r = Record { fields: Vec::new() };
        proof {
            assert(r@ =~= Seq::<(Seq<char>, i64)>::empty());
        }
        r
    }

    /// Looks a field up by name; the first field with that name wins.
    pub fn get(&self, name: &str) -> (r: Option<i64>)
        ensures
            r == lookup(self@, name@),
    {
        let key = String::from_str(name);
        let n = self.fields.len();
        let mut i: usize = 0;
        proof {
            assert(self@.skip(0) =~= self@);
        }
        while i < n
            invariant
                n == self.fields.len(),
                0 <= i <= n,
                key@ == name@,
                lookup(self@.skip(i as int), name@) == lookup(self@, name@),
            decreases n - i,
        {
            proof {
                assert(self@.skip(i as int)[0] == self@[i as int]);
            }
            if self.fields[i].0 == key {
                return Some(self.fields[i].1);
            }
            proof {
                assert(self@.skip(i as int).drop_first() =~= self@.skip(i as int + 1));
            }
            i += 1;
        }
        proof {
            assert(self@.skip(n as int) =~= Seq::<(Seq<char>, i64)>::empty());
        }
        None
    }
}

} // verus!
