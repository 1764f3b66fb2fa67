//! Info dictionaries: keys with values, both text of limited length, that
//! remember the order in which the keys came.

use crate::mpi::buffer::{bytes_of, c_string_of};
use crate::mpi::constants::{MPI_MAX_INFO_KEY, MPI_MAX_INFO_VAL};
use crate::mpi::convert::{c_int_of, size_of_c_int};
use crate::mpi::status::Error;
use vstd::hash_map::StringHashMap;
use vstd::prelude::*;
use vstd::string::*;

verus! {

/// What an [`Info`] holds.
pub struct Entries {
    /// The value of each key.
    pub values: Map<Seq<char>, Seq<char>>,
    /// The keys, in the order in which they were first set.
    pub keys: Seq<Seq<char>>,
}

impl Entries {
    /// No key occurs twice, and the keys are exactly those that have a value.
    pub open spec fn wf(self) -> bool {
        &&& self.keys.no_duplicates()
        &&& forall|key: Seq<char>| #[trigger] self.values.contains_key(key) <==> self.keys.contains(key)
    }

    /// The entries after `key` is given `value`: a new key goes to the end
    /// of the keys, a known one keeps its place.
    pub open spec fn with(self, key: Seq<char>, value: Seq<char>) -> Self {
        Entries {
            values: self.values.insert(key, value),
            keys: if self.values.contains_key(key) {
                self.keys
            } else {
                self.keys.push(key)
            },
        }
    }

    /// The entries without `key`; the other keys keep their order.
    pub open spec fn without(self, key: Seq<char>) -> Self {
        Entries {
            values: self.values.remove(key),
            keys: self.keys.remove(self.keys.index_of(key)),
        }
    }
}

/// A dictionary of text keys and text values.
pub struct Info {
    map: StringHashMap<String>,
    keys: Vec<String>,
}

impl View for Info {
    type V = Entries;

    closed spec fn view(&self) -> Entries {
        Entries {
            values: Map::new(
                |key: Seq<char>| self.map@.contains_key(key),
                |key: Seq<char>| self.map@[key]@,
            ),
            keys: Seq::new(self.keys@.len(), |i: int| self.keys@[i]@),
        }
    }
}

impl Info {
    /// The dictionary holds what its view says, and that is well formed.
    pub open spec fn wf(&self) -> bool {
        self@.wf()
    }

    /// An empty dictionary.
    pub fn new() -> (info: Self)
        ensures
            info.wf(),
            info@.values == Map::<Seq<char>, Seq<char>>::empty(),
            info@.keys == Seq::<Seq<char>>::empty(),
    {
        let info = Info { map: StringHashMap::new(), keys: Vec::new() };
        assert(info@.values =~= Map::<Seq<char>, Seq<char>>::empty());
        assert(info@.keys =~= Seq::<Seq<char>>::empty());
        info
    }

    /// Gives `key` the value `value`. A key or a value that is too long is
    /// refused and nothing changes.
    pub fn set(&mut self, key: String, value: String) -> (status: Error)
        requires
            old(self).wf(),
        ensures
            final(self).wf(),
            status == (if bytes_of(key@).len() > MPI_MAX_INFO_KEY {
                Error::MPI_ERR_INFO_KEY
            } else if bytes_of(value@).len() > MPI_MAX_INFO_VAL {
                Error::MPI_ERR_INFO_VALUE
            } else {
                Error::MPI_SUCCESS
            }),
            final(self)@ == (if status == Error::MPI_SUCCESS {
                old(self)@.with(key@, value@)
            } else {
                old(self)@
            }),
    {
        if key.as_str().as_bytes().len() > MPI_MAX_INFO_KEY {
            return Error::MPI_ERR_INFO_KEY;
        }
        if value.as_str().as_bytes().len() > MPI_MAX_INFO_VAL {
            return Error::MPI_ERR_INFO_VALUE;
        }
        let ghost before = self@;
        let known = self.map.contains_key(key.as_str());
        self.map.insert(key.clone(), value);
        if !known {
            self.keys.push(key);
        }
        proof {
            let after = self@;
            let expected = before.with(key@, value@);
            assert(after.values =~= expected.values);
            assert(after.keys =~= expected.keys);
            if !known {
                assert forall|i: int, j: int|
                    0 <= i < after.keys.len() && 0 <= j < after.keys.len() && i != j implies after.keys[i]
                    != after.keys[j] by {
                    if i < before.keys.len() {
                        assert(before.keys.contains(before.keys[i]));
                    }
                    if j < before.keys.len() {
                        assert(before.keys.contains(before.keys[j]));
                    }
                }
            }
            assert forall|other: Seq<char>| #[trigger]
                after.values.contains_key(other) <==> after.keys.contains(other) by {
                if other == key@ {
                    if known {
                        assert(before.keys.contains(other));
                        let i = choose|i: int| 0 <= i < before.keys.len() && before.keys[i] == other;
                        assert(after.keys[i] == other);
                    } else {
                        assert(after.keys[after.keys.len() - 1] == other);
                    }
                } else {
                    if before.values.contains_key(other) {
                        assert(before.keys.contains(other));
                        let i = choose|i: int| 0 <= i < before.keys.len() && before.keys[i] == other;
                        assert(after.keys[i] == other);
                    }
                    if after.keys.contains(other) {
                        let i = choose|i: int| 0 <= i < after.keys.len() && after.keys[i] == other;
                        assert(i < before.keys.len());
                        assert(before.keys[i] == other);
                        assert(before.keys.contains(other));
                    }
                }
            }
        }
        Error::MPI_SUCCESS
    }

    /// Takes `key` and its value out. A key that has no value is reported
    /// and nothing changes.
    pub fn delete(&mut self, key: &str) -> (status: Error)
        requires
            old(self).wf(),
        ensures
            final(self).wf(),
            status == (if old(self)@.values.contains_key(key@) {
                Error::MPI_SUCCESS
            } else {
                Error::MPI_ERR_INFO_NOKEY
            }),
            final(self)@ == (if status == Error::MPI_SUCCESS {
                old(self)@.without(key@)
            } else {
                old(self)@
            }),
    {
        if !self.map.contains_key(key) {
            return Error::MPI_ERR_INFO_NOKEY;
        }
        let ghost before = self@;
        proof {
            assert(before.values.contains_key(key@));
            assert(before.keys.contains(key@));
        }
        let wanted = String::from_str(key);
        let count = self.keys.len();
        let mut index: usize = 0;
        while self.keys[index] != wanted
            invariant
                self@ == before,
                before.wf(),
                wanted@ == key@,
                0 <= index < self.keys@.len(),
                self.keys@.len() == count,
                before.keys.index_of(key@) >= index,
                0 <= before.keys.index_of(key@) < before.keys.len(),
                before.keys[before.keys.index_of(key@)] == key@,
            decreases self.keys@.len() - index,
        {
            assert(before.keys[index as int] == self.keys@[index as int]@);
            index = index + 1;
        }
        proof {
            assert(before.keys[index as int] == self.keys@[index as int]@);
            assert(before.keys[index as int] == key@);
            assert(index == before.keys.index_of(key@));
        }
        self.map.remove(key);
        self.keys.remove(index);
        proof {
            let after = self@;
            let expected = before.without(key@);
            assert(after.values =~= expected.values);
            assert(after.keys =~= expected.keys);
            assert forall|i: int, j: int|
                0 <= i < after.keys.len() && 0 <= j < after.keys.len() && i != j implies after.keys[i]
                != after.keys[j] by {
                let from_i = if i < index { i } else { i + 1 };
                let from_j = if j < index { j } else { j + 1 };
                assert(after.keys[i] == before.keys[from_i]);
                assert(after.keys[j] == before.keys[from_j]);
            }
            assert forall|other: Seq<char>| #[trigger]
                after.values.contains_key(other) <==> after.keys.contains(other) by {
                if after.values.contains_key(other) {
                    assert(before.keys.contains(other));
                    let i = choose|i: int| 0 <= i < before.keys.len() && before.keys[i] == other;
                    assert(i != index);
                    let to = if i < index { i } else { i - 1 };
                    assert(after.keys[to] == other);
                }
                if after.keys.contains(other) {
                    let i = choose|i: int| 0 <= i < after.keys.len() && after.keys[i] == other;
                    let from = if i < index { i } else { i + 1 };
                    assert(before.keys[from] == other);
                    assert(before.keys.contains(other));
                    assert(other != key@);
                }
            }
        }
        Error::MPI_SUCCESS
    }

    /// The value of `key`, if it has one.
    pub fn get(&self, key: &str) -> (value: Option<&str>)
        requires
            bytes_of(key@).len() <= MPI_MAX_INFO_KEY,
        ensures
            match value {
                Some(text) => self@.values.contains_key(key@) && self@.values[key@] == text@,
                None => !self@.values.contains_key(key@),
            },
    {
        match self.map.get(key) {
            Some(text) => Some(text.as_str()),
            None => None,
        }
    }

    /// The number of keys.
    pub fn len(&self) -> (count: usize)
        ensures
            count == self@.keys.len(),
    {
        self.keys.len()
    }

    /// The key that was set as the `index`-th of those still there,
    /// counting from zero.
    pub fn get_nthkey(&self, index: usize) -> (key: &str)
        requires
            index < self@.keys.len(),
        ensures
            key@ == self@.keys[index as int],
    {
        self.keys[index].as_str()
    }

    /// A dictionary with the same keys, in the same order, and the same values.
    pub fn duplicate(&self) -> (copy: Self)
        requires
            self.wf(),
        ensures
            copy.wf(),
            copy@ == self@,
    {
        let mut copy = Info { map: StringHashMap::new(), keys: Vec::new() };
        let mut i: usize = 0;
        while i < self.keys.len()
            invariant
                self.wf(),
                i <= self.keys@.len(),
                copy.keys@ == self.keys@.take(i as int),
                forall|key: Seq<char>| #[trigger]
                    copy.map@.contains_key(key) <==> self@.keys.take(i as int).contains(key),
                forall|key: Seq<char>| #[trigger]
                    copy.map@.contains_key(key) ==> copy.map@[key] == self.map@[key],
            decreases self.keys@.len() - i,
        {
            let key = &self.keys[i];
            let ghost seen = self@.keys.take(i as int);
            let ghost grown = self@.keys.take(i + 1);
            proof {
                assert(self@.keys[i as int] == key@);
                assert(self@.keys.contains(key@));
                assert(self@.values.contains_key(key@));
                assert(grown =~= seen.push(key@));
            }
            let value = self.map.get(key.as_str()).unwrap();
            copy.map.insert(key.clone(), value.clone());
            copy.keys.push(key.clone());
            proof {
                assert(copy.keys@ =~= self.keys@.take(i + 1));
                assert forall|other: Seq<char>| #[trigger]
                    copy.map@.contains_key(other) <==> grown.contains(other) by {
                    if other == key@ {
                        assert(grown[i as int] == other);
                    } else {
                        if seen.contains(other) {
                            let k = choose|k: int| 0 <= k < seen.len() && seen[k] == other;
                            assert(grown[k] == other);
                        }
                        if grown.contains(other) {
                            let k = choose|k: int| 0 <= k < grown.len() && grown[k] == other;
                            assert(seen[k] == other);
                        }
                    }
                }
            }
            i = i + 1;
        }
        proof {
            assert(self@.keys.take(i as int) =~= self@.keys);
            assert(self.keys@.take(i as int) =~= self.keys@);
            assert(copy@.keys =~= self@.keys);
            assert(copy@.values =~= self@.values);
        }
        copy
    }
}

/// A handle to an info dictionary as foreign callers hold it: a place that
/// holds a dictionary or the null info, or no place at all.
#[allow(non_camel_case_types)]
pub struct MPI_Info {
    pub handle: Option<Option<Info>>,
}

impl MPI_Info {
    /// A place that holds the null info.
    pub fn null() -> (info: Self)
        ensures
            info.handle == Some(None::<Info>),
    {
        MPI_Info { handle: Some(None) }
    }

    /// A place that holds an empty dictionary.
    pub fn new() -> (info: Self)
        ensures
            info.handle matches Some(Some(held)) && held.wf() && held@.keys.len() == 0
                && held@.values == Map::<Seq<char>, Seq<char>>::empty(),
    {
        MPI_Info { handle: Some(Some(Info::new())) }
    }

    /// The place holds a well-formed dictionary.
    pub open spec fn holds_info(&self) -> bool {
        self.handle matches Some(Some(held)) && held.wf()
    }

    /// The place holds the null info or a well-formed dictionary.
    pub open spec fn wf(&self) -> bool {
        self.handle matches Some(held) && (held matches Some(info) ==> info.wf())
    }

    /// A new place that holds a copy of what this one holds.
    pub fn clone(&self) -> (copy: Self)
        requires
            self.wf(),
        ensures
            copy.wf(),
            copy.handle->0 is Some == self.handle->0 is Some,
            self.handle->0 matches Some(held) ==> copy.handle->0->0@ == held@,
    {
        match self.handle.as_ref().unwrap() {
            Some(held) => MPI_Info { handle: Some(Some(held.duplicate())) },
            None => MPI_Info { handle: Some(None) },
        }
    }

    /// What the place holds.
    pub fn get(&self) -> (held: &Option<Info>)
        requires
            self.handle is Some,
        ensures
            *held == self.handle->0,
    {
        self.handle.as_ref().unwrap()
    }

    /// What the place holds, for changes.
    pub fn get_mut(&mut self) -> (held: &mut Option<Info>)
        requires
            old(self).handle is Some,
        ensures
            *held == old(self).handle->0,
            final(self).handle == Some(*final(held)),
    {
        self.handle.as_mut().unwrap()
    }

    /// Whether the place holds the null info.
    pub fn is_null(&self) -> (null: bool)
        requires
            self.handle is Some,
        ensures
            null == (self.handle->0 is None),
    {
        self.get().is_none()
    }

    /// The dictionary in the place.
    pub fn unwrap(&self) -> (info: &Info)
        requires
            self.handle matches Some(Some(_)),
        ensures
            Some(Some(*info)) == self.handle,
    {
        self.get().as_ref().unwrap()
    }

    /// The dictionary in the place, for changes.
    pub fn unwrap_mut(&mut self) -> (info: &mut Info)
        requires
            old(self).handle matches Some(Some(_)),
        ensures
            Some(Some(*info)) == old(self).handle,
            final(self).handle == Some(Some(*final(info))),
    {
        self.get_mut().as_mut().unwrap()
    }

    /// Gives the place up, with what it holds.
    pub fn free(&mut self)
        requires
            old(self).handle is Some,
        ensures
            final(self).handle is None,
    {
        self.handle = None;
    }
}

/// Makes a new, empty dictionary.
#[allow(non_snake_case)]
pub fn MPI_Info_create() -> (out: (Error, MPI_Info))
    ensures
        out.0 == Error::MPI_SUCCESS,
        out.1.holds_info(),
        out.1.handle->0->0@.keys.len() == 0,
        out.1.handle->0->0@.values == Map::<Seq<char>, Seq<char>>::empty(),
{
    (Error::MPI_SUCCESS, MPI_Info::new())
}

/// Gives `key` the value `value` in the dictionary of `info`.
#[allow(non_snake_case)]
pub fn MPI_Info_set(info: &mut MPI_Info, key: &str, value: &str) -> (status: Error)
    requires
        old(info).holds_info(),
    ensures
        final(info).holds_info(),
        status == (if bytes_of(key@).len() > MPI_MAX_INFO_KEY {
            Error::MPI_ERR_INFO_KEY
        } else if bytes_of(value@).len() > MPI_MAX_INFO_VAL {
            Error::MPI_ERR_INFO_VALUE
        } else {
            Error::MPI_SUCCESS
        }),
        final(info).handle->0->0@ == (if status == Error::MPI_SUCCESS {
            old(info).handle->0->0@.with(key@, value@)
        } else {
            old(info).handle->0->0@
        }),
{
    info.unwrap_mut().set(String::from_str(key), String::from_str(value))
}

/// Takes `key` out of the dictionary of `info`.
#[allow(non_snake_case)]
pub fn MPI_Info_delete(info: &mut MPI_Info, key: &str) -> (status: Error)
    requires
        old(info).holds_info(),
    ensures
        final(info).holds_info(),
        status == (if old(info).handle->0->0@.values.contains_key(key@) {
            Error::MPI_SUCCESS
        } else {
            Error::MPI_ERR_INFO_NOKEY
        }),
        final(info).handle->0->0@ == (if status == Error::MPI_SUCCESS {
            old(info).handle->0->0@.without(key@)
        } else {
            old(info).handle->0->0@
        }),
{
    info.unwrap_mut().delete(key)
}

/// The value of `key` in the dictionary of `info`, for a buffer that takes
/// `valuelen` bytes and the closing zero: the bytes of the value and the
/// zero, or nothing when the key has no value.
#[allow(non_snake_case)]
pub fn MPI_Info_get(info: &MPI_Info, key: &str, valuelen: i32) -> (out: (Error, Option<Vec<u8>>))
    requires
        info.holds_info(),
        bytes_of(key@).len() <= MPI_MAX_INFO_KEY,
        valuelen >= 0,
        info.handle->0->0@.values.contains_key(key@) ==> bytes_of(
            info.handle->0->0@.values[key@],
        ).len() <= valuelen,
    ensures
        out.0 == Error::MPI_SUCCESS,
        out.1 is Some <==> info.handle->0->0@.values.contains_key(key@),
        out.1 matches Some(buffer) ==> buffer@ == bytes_of(info.handle->0->0@.values[key@]).push(
            0u8,
        ),
{
    match info.unwrap().get(key) {
        Some(text) => {
            let length = text.as_bytes().len();
            let buffer = c_string_of(text, length + 1);
            assert(bytes_of(text@).take(length as int) =~= bytes_of(text@));
            (Error::MPI_SUCCESS, Some(buffer))
        },
        None => (Error::MPI_SUCCESS, None),
    }
}

/// The length in bytes of the value of `key` in the dictionary of `info`,
/// or nothing when the key has no value.
#[allow(non_snake_case)]
pub fn MPI_Info_get_valuelen(info: &MPI_Info, key: &str) -> (out: (Error, Option<i32>))
    requires
        info.holds_info(),
        bytes_of(key@).len() <= MPI_MAX_INFO_KEY,
        info.handle->0->0@.values.contains_key(key@) ==> bytes_of(
            info.handle->0->0@.values[key@],
        ).len() <= i32::MAX,
    ensures
        out.0 == Error::MPI_SUCCESS,
        out.1 is Some <==> info.handle->0->0@.values.contains_key(key@),
        out.1 matches Some(length) ==> length == bytes_of(info.handle->0->0@.values[key@]).len(),
{
    match info.unwrap().get(key) {
        Some(text) => (Error::MPI_SUCCESS, Some(c_int_of(text.as_bytes().len()).unwrap())),
        None => (Error::MPI_SUCCESS, None),
    }
}

/// The number of keys in the dictionary of `info`.
#[allow(non_snake_case)]
pub fn MPI_Info_get_nkeys(info: &MPI_Info) -> (out: (Error, i32))
    requires
        info.holds_info(),
        info.handle->0->0@.keys.len() <= i32::MAX,
    ensures
        out.0 == Error::MPI_SUCCESS,
        out.1 == info.handle->0->0@.keys.len(),
{
    (Error::MPI_SUCCESS, c_int_of(info.unwrap().len()).unwrap())
}

/// The `n`-th key of the dictionary of `info`, as bytes with the closing zero.
#[allow(non_snake_case)]
pub fn MPI_Info_get_nthkey(info: &MPI_Info, n: i32) -> (out: (Error, Vec<u8>))
    requires
        info.holds_info(),
        0 <= n < info.handle->0->0@.keys.len(),
        bytes_of(info.handle->0->0@.keys[n as int]).len() < usize::MAX,
    ensures
        out.0 == Error::MPI_SUCCESS,
        out.1@ == bytes_of(info.handle->0->0@.keys[n as int]).push(0u8),
{
    let key = info.unwrap().get_nthkey(size_of_c_int(n).unwrap());
    let length = key.as_bytes().len();
    let buffer = c_string_of(key, length + 1);
    assert(bytes_of(key@).take(length as int) =~= bytes_of(key@));
    (Error::MPI_SUCCESS, buffer)
}

/// A new handle to a copy of what `info` holds.
#[allow(non_snake_case)]
pub fn MPI_Info_dup(info: &MPI_Info) -> (out: (Error, MPI_Info))
    requires
        info.wf(),
    ensures
        out.0 == Error::MPI_SUCCESS,
        out.1.wf(),
        out.1.handle->0 is Some == info.handle->0 is Some,
        info.handle->0 matches Some(held) ==> out.1.handle->0->0@ == held@,
{
    (Error::MPI_SUCCESS, info.clone())
}

/// Frees the handle `info`: afterwards it holds the null info.
#[allow(non_snake_case)]
pub fn MPI_Info_free(info: &mut MPI_Info) -> (status: Error)
    ensures
        status == Error::MPI_SUCCESS,
        final(info).handle == Some(None::<Info>),
{
    *info = MPI_Info::null();
    Error::MPI_SUCCESS
}

} // verus!
