//! A plain model of already-parsed JSON configuration values. The gateway
//! consumes values of this shape; reading and decoding the configuration
//! file itself is left to the host program.

use vstd::prelude::*;

verus! {

/// An already-parsed JSON value. Object members keep their textual order;
/// lookup takes the first member with a matching key.
#[derive(Debug)]
pub enum JsonValue {
    Null,
    Bool(bool),
    Int(i64),
    Str(String),
    Arr(Vec<JsonValue>),
    Obj(Vec<(String, JsonValue)>),
}

/// The first value under `key` among `fields`, if any.
pub open spec fn spec_obj_get(fields: Seq<(String, JsonValue)>, key: Seq<char>) -> Option<
    JsonValue,
>
    decreases fields.len(),
{
    if fields.len() == 0 {
        None
    } else if fields[0].0@ == key {
        Some(fields[0].1)
    } else {
        spec_obj_get(fields.drop_first(), key)
    }
}

impl JsonValue {
    /// The member of this object named `key`, if this is an object that has
    /// one.
    pub open spec fn spec_get(&self, key: Seq<char>) -> Option<JsonValue> {
        match *self {
            JsonValue::Obj(ref fields) => spec_obj_get(fields@, key),
            _ => None,
        }
    }

    /// The member of this object named `key`, if any.
    pub fn get<'a>(&'a self, key: &str) -> (r: Option<&'a JsonValue>)
        ensures
            match r {
                Some(v) => self.spec_get(key@) == Some(*v),
                None => self.spec_get(key@) is None,
            },
    {
        match self {
            JsonValue::Obj(fields) => {
                let key_s: String = key.to_owned();
                let n = fields.len();
                let mut i: usize = 0;
                assert(fields@.skip(0) =~= fields@);
                while i < n
                    invariant
                        0 <= i <= n,
                        n == fields@.len(),
                        key_s@ == key@,
                        self.spec_get(key@) == spec_obj_get(fields@, key@),
                        spec_obj_get(fields@, key@) == spec_obj_get(fields@.skip(i as int), key@),
                    decreases n - i,
                {
                    proof {
                        assert(fields@.skip(i as int).drop_first() =~= fields@.skip(i + 1));
                        assert(fields@.skip(i as int)[0] == fields@[i as int]);
                    }
                    if fields[i].0.eq(&key_s) {
                        proof {
                            assert(fields@[i as int].0@ == key@);
                            assert(spec_obj_get(fields@.skip(i as int), key@) == Some(
                                fields@[i as int].1,
                            ));
                        }
                        return Some(&fields[i].1);
                    }
                    proof {
                        assert(key_s@ == key@);
                        assert(fields@[i as int].0@ != key_s@);
                        assert(fields@[i as int].0@ != key@);
                        assert(spec_obj_get(fields@.skip(i as int), key@) == spec_obj_get(
                            fields@.skip(i + 1),
                            key@,
                        ));
                    }
                    i = i + 1;
                }
                assert(fields@.skip(n as int) =~= Seq::<(String, JsonValue)>::empty());
                None
            },
            _ => None,
        }
    }

    /// The text of this value, if it is a string.
    pub fn as_str<'a>(&'a self) -> (r: Option<&'a String>)
        ensures
            match r {
                Some(s) => self matches JsonValue::Str(t) && t == *s,
                None => !(self matches JsonValue::Str(_)),
            },
    {
        match self {
            JsonValue::Str(s) => Some(s),
            _ => None,
        }
    }

    /// The number held by this value, if it is an integer.
    pub fn as_i64(&self) -> (r: Option<i64>)
        ensures
            match r {
                Some(n) => self matches JsonValue::Int(m) && m == n,
                None => !(self matches JsonValue::Int(_)),
            },
    {
        match self {
            JsonValue::Int(n) => Some(*n),
            _ => None,
        }
    }

    /// The items of this value, if it is an array.
    pub fn as_array<'a>(&'a self) -> (r: Option<&'a Vec<JsonValue>>)
        ensures
            match r {
                Some(items) => self matches JsonValue::Arr(v) && v == *items,
                None => !(self matches JsonValue::Arr(_)),
            },
    {
        match self {
            JsonValue::Arr(items) => Some(items),
            _ => None,
        }
    }

    /// The members of this value, if it is an object.
    pub fn as_object<'a>(&'a self) -> (r: Option<&'a Vec<(String, JsonValue)>>)
        ensures
            match r {
                Some(fields) => self matches JsonValue::Obj(v) && v == *fields,
                None => !(self matches JsonValue::Obj(_)),
            },
    {
        match self {
            JsonValue::Obj(fields) => Some(fields),
            _ => None,
        }
    }
}

} // verus!
