//! Conversions between native memory and owned values.
//!
//! A non-null pointer is given as the memory it refers to, a pointer
//! that may be null as an `Option` of that, and an array of pointers
//! as a slice of such options.

use crate::cstring::{c_str, lemma_nul_position, lemma_nul_position_is, nul_position, CString};
use crate::error::Error;
use vstd::prelude::*;
use vstd::string::*;
use vstd::utf8::*;

verus! {

/// `core::str::from_utf8` accepts exactly the byte sequences that are
/// UTF-8, and the string it gives is made of the bytes it was given.
pub assume_specification[ core::str::from_utf8 ](v: &[u8]) -> (r: Result<
    &str,
    core::str::Utf8Error,
>)
    ensures
        r is Ok <==> valid_utf8(v@),
        r matches Ok(s) ==> s.spec_bytes() == v@,
;

/// Decodes the C string that starts at `ptr`.
///
/// `ptr` is the memory that a non-null `char *` refers to. The string
/// ends before the first nul byte, or where the slice ends.
pub fn char_ptr_to_string(ptr: &[u8]) -> (r: Result<String, core::str::Utf8Error>)
    ensures
        r is Ok <==> valid_utf8(c_str(ptr@)),
        r matches Ok(s) ==> s@ == decode_utf8(c_str(ptr@)),
{
    let mut n: usize = 0;
    while n < ptr.len() && ptr[n] != 0
        invariant
            n <= ptr@.len(),
            forall|j: int| 0 <= j < n ==> ptr@[j] != 0,
        decreases ptr@.len() - n,
    {
        n += 1;
    }
    proof {
        lemma_nul_position_is(ptr@, n as int);
    }
    let s = core::str::from_utf8(&ptr[0..n])?;
    proof {
        encode_utf8_decode_utf8(s@);
    }
    Ok(s.to_owned())
}

/// The pointers of a null-terminated array: those that come before
/// the first null pointer, or all of them where none is null.
pub open spec fn pointed<T>(p: Seq<Option<&[T]>>) -> Seq<&[T]>
    decreases p.len(),
{
    if p.len() == 0 || p[0] is None {
        seq![]
    } else {
        seq![p[0]->0] + pointed(p.drop_first())
    }
}

/// What each pointer of `ptrs` refers to.
pub open spec fn memory<T>(ptrs: Seq<&[T]>) -> Seq<Seq<T>> {
    Seq::new(ptrs.len(), |i: int| ptrs[i]@)
}

/// The array that holds `ptrs` and then a null pointer.
pub open spec fn null_terminated<T>(ptrs: Seq<&[T]>) -> Seq<Option<&[T]>> {
    Seq::new(ptrs.len(), |i: int| Some(ptrs[i])).push(None)
}

/// Walks a null-terminated array of pointers.
pub struct NullTerminatedIter<'a, T: Copy + Clone> {
    p: &'a [Option<&'a [T]>],
    at: usize,
}

impl<'a, T: Copy + Clone> NullTerminatedIter<'a, T> {
    #[verifier::type_invariant]
    spec fn well_formed(self) -> bool {
        self.at <= self.p@.len()
    }

    /// The pointers still to come.
    pub closed spec fn remaining(self) -> Seq<&'a [T]> {
        pointed(self.p@.skip(self.at as int))
    }

    pub fn new(p: &'a [Option<&'a [T]>]) -> (r: NullTerminatedIter<'a, T>)
        ensures
            r.remaining() == pointed(p@),
    {
        assert(p@.skip(0) == p@);
        NullTerminatedIter { p, at: 0 }
    }

    /// The next pointer, until the null pointer is reached.
    pub fn next(&mut self) -> (r: Option<&'a [T]>)
        ensures
            match r {
                Some(x) => old(self).remaining().len() > 0 && x == old(self).remaining()[0]
                    && final(self).remaining() == old(self).remaining().drop_first(),
                None => old(self).remaining().len() == 0 && final(self).remaining().len() == 0,
            },
    {
        proof {
            use_type_invariant(&*self);
        }
        if self.at >= self.p.len() {
            return None;
        }
        let ghost rest = self.p@.skip(self.at as int);
        match self.p[self.at] {
            None => None,
            Some(x) => {
                self.at = self.at + 1;
                assert(rest.drop_first() == self.p@.skip(self.at as int));
                assert(pointed(rest).drop_first() == pointed(rest.drop_first()));
                Some(x)
            },
        }
    }
}

/// A native array of records that carries its length.
pub struct RawList<'a, T> {
    size: u32,
    ptr: &'a [T],
}

/// Walks a [`RawList`].
pub struct RawListIter<'a, T> {
    current: u32,
    list: &'a RawList<'a, T>,
}

impl<'a, T> RawList<'a, T> {
    /// The records of the list: the first `size` of those at `ptr`, or
    /// all of them where fewer are there.
    pub closed spec fn records(self) -> Seq<T> {
        if self.size <= self.ptr@.len() {
            self.ptr@.take(self.size as int)
        } else {
            self.ptr@
        }
    }

    /// A list of `size` records that lie at `ptr`.
    pub fn new(size: u32, ptr: &'a [T]) -> (r: RawList<'a, T>)
        ensures
            r.records() == (if size <= ptr@.len() {
                ptr@.take(size as int)
            } else {
                ptr@
            }),
    {
        RawList { size, ptr }
    }

    pub fn iter(&'a self) -> (r: RawListIter<'a, T>)
        ensures
            r.remaining() == self.records(),
    {
        assert(self.records().skip(0) == self.records());
        RawListIter { current: 0, list: self }
    }
}

impl<'a, T> RawListIter<'a, T> {
    /// The records still to come.
    pub closed spec fn remaining(self) -> Seq<T> {
        self.list.records().skip(self.current as int)
    }

    #[verifier::type_invariant]
    spec fn well_formed(self) -> bool {
        self.current <= self.list.records().len()
    }

    /// The next record, until the list is used up.
    pub fn next(&mut self) -> (r: Option<&'a T>)
        ensures
            match r {
                Some(x) => old(self).remaining().len() > 0 && *x == old(self).remaining()[0]
                    && final(self).remaining() == old(self).remaining().drop_first(),
                None => old(self).remaining().len() == 0 && final(self).remaining().len() == 0,
            },
    {
        proof {
            use_type_invariant(&*self);
        }
        if self.current >= self.list.size || self.current as usize >= self.list.ptr.len() {
            None
        } else {
            let elem = &self.list.ptr[self.current as usize];
            let ghost before = self.remaining();
            self.current = self.current + 1;
            assert(before.drop_first() == self.remaining());
            Some(elem)
        }
    }
}

/// Whether none of `strs` holds a nul character.
pub open spec fn nul_free(strs: Seq<Seq<char>>) -> bool {
    forall|i: int| 0 <= i < strs.len() ==> !encode_utf8(#[trigger] strs[i]).contains(0)
}

/// The first of `strs` that holds a nul character; their number where
/// none does.
pub open spec fn first_with_nul(strs: Seq<Seq<char>>) -> int
    decreases strs.len(),
{
    if strs.len() == 0 || encode_utf8(strs[0]).contains(0) {
        0
    } else {
        1 + first_with_nul(strs.drop_first())
    }
}

/// The native form of each of `strs`: its UTF-8 bytes and a nul byte.
pub open spec fn native_strings(strs: Seq<Seq<char>>) -> Seq<Seq<u8>> {
    Seq::new(strs.len(), |i: int| encode_utf8(strs[i]).push(0))
}

/// The bytes that each of `list` holds.
pub open spec fn contents(list: Seq<CString>) -> Seq<Seq<u8>> {
    Seq::new(list.len(), |i: int| list[i]@)
}

/// `first_with_nul` lies within the sequence, no string before it
/// holds a nul character, and the string at it, if there is one, does.
pub proof fn lemma_first_with_nul(strs: Seq<Seq<char>>)
    ensures
        0 <= first_with_nul(strs) <= strs.len(),
        forall|i: int|
            0 <= i < first_with_nul(strs) ==> !encode_utf8(#[trigger] strs[i]).contains(0),
        first_with_nul(strs) < strs.len() ==> encode_utf8(strs[first_with_nul(strs)]).contains(0),
        first_with_nul(strs) == strs.len() <==> nul_free(strs),
    decreases strs.len(),
{
    if strs.len() == 0 || encode_utf8(strs[0]).contains(0) {
    } else {
        let rest = strs.drop_first();
        lemma_first_with_nul(rest);
        assert forall|i: int| 0 <= i < first_with_nul(strs) implies !encode_utf8(
            #[trigger] strs[i],
        ).contains(0) by {
            if i > 0 {
                assert(strs[i] == rest[i - 1]);
            }
        }
        if nul_free(strs) {
            assert forall|i: int| 0 <= i < rest.len() implies !encode_utf8(
                #[trigger] rest[i],
            ).contains(0) by {
                assert(rest[i] == strs[i + 1]);
            }
        }
    }
}

/// Turns each string into the form that native code takes.
///
/// Succeeds exactly when no string holds a nul character. Else the
/// error tells of the first string that holds one: its bytes, and
/// where among them the first nul byte stands.
pub fn arg_string_list(v: &[&str]) -> (r: Result<Vec<CString>, Error>)
    ensures
        match r {
            Ok(w) => nul_free(v.deep_view()) && contents(w@) == native_strings(v.deep_view()),
            Err(Error::IllegalString(e)) => {
                let at = first_with_nul(v.deep_view());
                &&& !nul_free(v.deep_view())
                &&& e.bytes() == encode_utf8(v.deep_view()[at])
                &&& e.position() == nul_position(e.bytes())
            },
            Err(_) => false,
        },
{
    let ghost strs = v.deep_view();
    let mut w: Vec<CString> = Vec::new();
    let mut i: usize = 0;
    while i < v.len()
        invariant
            strs == v.deep_view(),
            i <= v@.len(),
            w@.len() == i,
            forall|j: int| 0 <= j < i ==> !encode_utf8(#[trigger] strs[j]).contains(0),
            forall|j: int| 0 <= j < i ==> (#[trigger] w@[j])@ == encode_utf8(strs[j]).push(0),
        decreases v@.len() - i,
    {
        let x: &str = v[i];
        assert(x@ == strs[i as int]);
        match CString::new(x.as_bytes_vec()) {
            Ok(y) => {
                w.push(y);
            },
            Err(e) => {
                proof {
                    lemma_first_with_nul(strs);
                }
                return Err(Error::from(e));
            },
        }
        i += 1;
    }
    proof {
        assert(contents(w@) =~= native_strings(strs));
    }
    Ok(w)
}

/// Whether each of `strings` is a C string in UTF-8.
pub open spec fn all_utf8(strings: Seq<Seq<u8>>) -> bool {
    forall|i: int| 0 <= i < strings.len() ==> valid_utf8(c_str(#[trigger] strings[i]))
}

/// The text of each of `strings`, read as a C string in UTF-8.
pub open spec fn decoded(strings: Seq<Seq<u8>>) -> Seq<Seq<char>> {
    Seq::new(strings.len(), |i: int| decode_utf8(c_str(strings[i])))
}

/// Decodes the strings of a null-terminated array.
///
/// Succeeds exactly when every string before the null pointer is
/// UTF-8, and then gives their texts in the array's order.
pub fn string_list(l: &[Option<&[u8]>]) -> (r: Result<Vec<String>, Error>)
    ensures
        match r {
            Ok(v) => all_utf8(memory(pointed(l@))) && v.deep_view() == decoded(
                memory(pointed(l@)),
            ),
            Err(Error::Utf8Error(_)) => !all_utf8(memory(pointed(l@))),
            Err(_) => false,
        },
{
    let ghost strings = memory(pointed(l@));
    let mut v: Vec<String> = Vec::new();
    let mut iter = NullTerminatedIter::new(l);
    loop
        invariant
            strings == memory(pointed(l@)),
            v@.len() + iter.remaining().len() == strings.len(),
            forall|j: int|
                0 <= j < iter.remaining().len() ==> (#[trigger] iter.remaining()[j])@
                    == strings[v@.len() + j],
            forall|j: int| 0 <= j < v@.len() ==> valid_utf8(c_str(#[trigger] strings[j])),
            forall|j: int|
                0 <= j < v@.len() ==> (#[trigger] v@[j])@ == decode_utf8(c_str(strings[j])),
        ensures
            v@.len() == strings.len(),
            forall|j: int| 0 <= j < v@.len() ==> valid_utf8(c_str(#[trigger] strings[j])),
            forall|j: int|
                0 <= j < v@.len() ==> (#[trigger] v@[j])@ == decode_utf8(c_str(strings[j])),
        decreases iter.remaining().len(),
    {
        let ghost before = iter.remaining();
        match iter.next() {
            None => {
                break ;
            },
            Some(x) => {
                assert(x@ == strings[v@.len() as int]);
                assert forall|j: int| 0 <= j < iter.remaining().len() implies (
                #[trigger] iter.remaining()[j])@ == strings[v@.len() + 1 + j] by {
                    assert(iter.remaining()[j] == before[j + 1]);
                }
                match char_ptr_to_string(x) {
                    Ok(s) => {
                        v.push(s);
                    },
                    Err(e) => {
                        return Err(Error::from(e));
                    },
                }
            },
        }
    }
    proof {
        assert(v.deep_view() =~= decoded(strings));
    }
    Ok(v)
}

/// Where the first `k` places of an array hold pointers, and the
/// array ends there or holds a null pointer next, the array's pointers
/// are those `k`, in their order.
pub proof fn lemma_pointed<T>(p: Seq<Option<&[T]>>, k: int)
    requires
        0 <= k <= p.len(),
        forall|i: int| 0 <= i < k ==> (#[trigger] p[i]) is Some,
        k < p.len() ==> p[k] is None,
    ensures
        pointed(p).len() == k,
        forall|i: int| 0 <= i < k ==> (#[trigger] pointed(p)[i]) == p[i]->0,
    decreases p.len(),
{
    if k > 0 {
        let rest = p.drop_first();
        assert(p[0] is Some);
        assert forall|i: int| 0 <= i < k - 1 implies (#[trigger] rest[i]) is Some by {
            assert(p[i + 1] is Some);
        }
        lemma_pointed(rest, k - 1);
        assert forall|i: int| 0 <= i < k implies (#[trigger] pointed(p)[i]) == p[i]->0 by {
            if i > 0 {
                assert(pointed(p)[i] == pointed(rest)[i - 1]);
                assert(rest[i - 1] == p[i]);
            }
        }
    }
}

/// An array made of pointers and a null pointer after them holds
/// those pointers. One that starts with the null pointer holds none.
pub proof fn lemma_null_terminated<T>(ptrs: Seq<&[T]>)
    ensures
        pointed(null_terminated(ptrs)) == ptrs,
        pointed(null_terminated(Seq::<&[T]>::empty())).len() == 0,
{
    lemma_pointed(null_terminated(ptrs), ptrs.len() as int);
    assert(pointed(null_terminated(ptrs)) =~= ptrs);
    lemma_pointed(null_terminated(Seq::<&[T]>::empty()), 0);
}

/// Strings without a nul character come back as they were when their
/// native forms, laid out as a null-terminated array, are decoded.
pub proof fn lemma_round_trip(strs: Seq<Seq<char>>, ptrs: Seq<&[u8]>)
    requires
        nul_free(strs),
        memory(ptrs) == native_strings(strs),
    ensures
        all_utf8(memory(pointed(null_terminated(ptrs)))),
        decoded(memory(pointed(null_terminated(ptrs)))) == strs,
{
    lemma_null_terminated(ptrs);
    let strings = memory(ptrs);
    assert(strings.len() == strs.len());
    assert forall|i: int| 0 <= i < strings.len() implies valid_utf8(c_str(#[trigger] strings[i]))
        && decode_utf8(c_str(strings[i])) == strs[i] by {
        let bytes = encode_utf8(strs[i]);
        assert(strings[i] == native_strings(strs)[i]);
        assert(strings[i] == bytes.push(0));
        lemma_nul_position(bytes);
        assert forall|j: int| 0 <= j < bytes.len() implies bytes.push(0)[j] != 0 by {
            assert(bytes.push(0)[j] == bytes[j]);
        }
        lemma_nul_position_is(bytes.push(0), bytes.len() as int);
        assert(c_str(strings[i]) == bytes);
        encode_utf8_valid_utf8(strs[i]);
        encode_utf8_decode_utf8(strs[i]);
    }
    assert(decoded(strings) =~= strs);
}

/// The pairs of an alternating sequence of keys and values. A key
/// at the end without a value is left out.
pub open spec fn pairs(texts: Seq<Seq<char>>) -> Seq<(Seq<char>, Seq<char>)> {
    Seq::new((texts.len() / 2) as nat, |i: int| (texts[2 * i], texts[2 * i + 1]))
}

/// The mapping that holds `entries`. Where a key comes more than once,
/// its last value stays.
pub open spec fn to_map(entries: Seq<(Seq<char>, Seq<char>)>) -> Map<Seq<char>, Seq<char>>
    decreases entries.len(),
{
    if entries.len() == 0 {
        Map::empty()
    } else {
        to_map(entries.drop_last()).insert(entries.last().0, entries.last().1)
    }
}

/// Whether no key comes twice in `entries`.
pub open spec fn distinct_keys(entries: Seq<(Seq<char>, Seq<char>)>) -> bool {
    forall|i: int, j: int|
        0 <= i < j < entries.len() ==> (#[trigger] entries[i]).0 != (#[trigger] entries[j]).0
}

/// Giving the entry of a key another value does to the mapping what
/// an insertion under that key does.
proof fn lemma_to_map_update(
    entries: Seq<(Seq<char>, Seq<char>)>,
    at: int,
    key: Seq<char>,
    val: Seq<char>,
)
    requires
        distinct_keys(entries),
        0 <= at < entries.len(),
        entries[at].0 == key,
    ensures
        distinct_keys(entries.update(at, (key, val))),
        to_map(entries.update(at, (key, val))) == to_map(entries).insert(key, val),
    decreases entries.len(),
{
    let changed = entries.update(at, (key, val));
    let front = entries.drop_last();
    assert forall|i: int, j: int| 0 <= i < j < changed.len() implies (#[trigger] changed[i]).0 != (
    #[trigger] changed[j]).0 by {
        assert(changed[i].0 == entries[i].0);
        assert(changed[j].0 == entries[j].0);
    }
    if at == entries.len() - 1 {
        assert(changed.drop_last() == front);
        assert(to_map(changed) == to_map(entries).insert(key, val));
    } else {
        assert(distinct_keys(front)) by {
            assert forall|i: int, j: int| 0 <= i < j < front.len() implies (#[trigger] front[i]).0
                != (#[trigger] front[j]).0 by {
                assert(front[i] == entries[i]);
                assert(front[j] == entries[j]);
            }
        }
        lemma_to_map_update(front, at, key, val);
        assert(changed.drop_last() == front.update(at, (key, val)));
        assert(changed.last() == entries.last());
        assert(entries[at].0 != entries[entries.len() - 1].0);
        assert(to_map(changed) == to_map(entries).insert(key, val));
    }
}

/// Two keys that differ, each followed by its value, make the mapping
/// of the first key to the first value and of the second to the second.
pub proof fn lemma_two_pairs(k1: Seq<char>, v1: Seq<char>, k2: Seq<char>, v2: Seq<char>)
    requires
        k1 != k2,
    ensures
        to_map(pairs(seq![k1, v1, k2, v2])) == Map::<Seq<char>, Seq<char>>::empty().insert(
            k1,
            v1,
        ).insert(k2, v2),
        to_map(pairs(seq![k1, v1, k2, v2])).dom() == set![k1, k2],
{
    let entries = pairs(seq![k1, v1, k2, v2]);
    assert(entries.len() == 2);
    assert(entries[0] == (k1, v1));
    assert(entries[1] == (k2, v2));
    reveal_with_fuel(to_map, 3);
    assert(entries.drop_last().drop_last().len() == 0);
    assert(entries.drop_last().last() == (k1, v1));
    assert(to_map(entries).dom() =~= set![k1, k2]);
}

/// Puts `val` under `key`: in place of the value that the key had, or
/// as a new entry.
fn insert_entry(map: &mut Vec<(String, String)>, key: String, val: String)
    requires
        distinct_keys(old(map).deep_view()),
    ensures
        distinct_keys(final(map).deep_view()),
        to_map(final(map).deep_view()) == to_map(old(map).deep_view()).insert(key@, val@),
{
    let ghost before = map.deep_view();
    let mut at: usize = 0;
    while at < map.len() && !(map[at].0 == key)
        invariant
            at <= map@.len(),
            before == map.deep_view(),
            forall|j: int| 0 <= j < at ==> (#[trigger] before[j]).0 != key@,
        decreases map@.len() - at,
    {
        assert(before[at as int].0 == map@[at as int].0@);
        at += 1;
    }
    if at < map.len() {
        assert(before[at as int].0 == map@[at as int].0@);
        proof {
            lemma_to_map_update(before, at as int, key@, val@);
        }
        map[at] = (key, val);
        assert(map.deep_view() == before.update(at as int, (key@, val@)));
    } else {
        map.push((key, val));
        assert(map.deep_view() == before.push((key@, val@)));
        assert(map.deep_view().drop_last() == before);
        assert forall|i: int, j: int| 0 <= i < j < map.deep_view().len() implies (
        #[trigger] map.deep_view()[i]).0 != (#[trigger] map.deep_view()[j]).0 by {
            if j < before.len() {
                assert(map.deep_view()[i] == before[i]);
                assert(map.deep_view()[j] == before[j]);
            } else {
                assert(map.deep_view()[i] == before[i]);
            }
        }
    }
}

/// Decodes a null-terminated array that holds keys and values in
/// turn.
///
/// Succeeds exactly when every string before the null pointer is
/// UTF-8. The result holds each key once, with the value that came
/// last for it. An array that ends on a key without a value is not
/// accepted.
pub fn hashmap(l: &[Option<&[u8]>]) -> (r: Result<Vec<(String, String)>, Error>)
    requires
        pointed(l@).len() % 2 == 0,
    ensures
        match r {
            Ok(m) => {
                &&& all_utf8(memory(pointed(l@)))
                &&& distinct_keys(m.deep_view())
                &&& to_map(m.deep_view()) == to_map(pairs(decoded(memory(pointed(l@)))))
            },
            Err(Error::Utf8Error(_)) => !all_utf8(memory(pointed(l@))),
            Err(_) => false,
        },
{
    let ghost strings = memory(pointed(l@));
    let ghost entries = pairs(decoded(strings));
    let mut map: Vec<(String, String)> = Vec::new();
    let mut iter = NullTerminatedIter::new(l);
    let ghost mut done: int = 0;
    loop
        invariant
            strings == memory(pointed(l@)),
            entries == pairs(decoded(strings)),
            strings.len() % 2 == 0,
            0 <= done,
            2 * done + iter.remaining().len() == strings.len(),
            forall|j: int|
                0 <= j < iter.remaining().len() ==> (#[trigger] iter.remaining()[j])@
                    == strings[2 * done + j],
            forall|j: int| 0 <= j < 2 * done ==> valid_utf8(c_str(#[trigger] strings[j])),
            distinct_keys(map.deep_view()),
            to_map(map.deep_view()) == to_map(entries.take(done)),
        ensures
            2 * done == strings.len(),
            forall|j: int| 0 <= j < 2 * done ==> valid_utf8(c_str(#[trigger] strings[j])),
            distinct_keys(map.deep_view()),
            to_map(map.deep_view()) == to_map(entries.take(done)),
        decreases iter.remaining().len(),
    {
        let ghost first = iter.remaining();
        match iter.next() {
            None => {
                break ;
            },
            Some(key) => {
                let ghost second = iter.remaining();
                assert(second.len() > 0) by {
                    assert(first.len() == second.len() + 1);
                }
                match iter.next() {
                    Some(val) => {
                        assert(key@ == strings[2 * done]);
                        assert(val@ == strings[2 * done + 1]) by {
                            assert(second[0] == first[1]);
                        }
                        assert forall|j: int| 0 <= j < iter.remaining().len() implies (
                        #[trigger] iter.remaining()[j])@ == strings[2 * (done + 1) + j] by {
                            assert(iter.remaining()[j] == second[j + 1]);
                            assert(second[j + 1] == first[j + 2]);
                        }
                        let key = match char_ptr_to_string(key) {
                            Ok(s) => s,
                            Err(e) => {
                                return Err(Error::from(e));
                            },
                        };
                        let val = match char_ptr_to_string(val) {
                            Ok(s) => s,
                            Err(e) => {
                                return Err(Error::from(e));
                            },
                        };
                        proof {
                            assert(entries.take(done + 1).drop_last() == entries.take(done));
                            assert(entries.take(done + 1).last() == (key@, val@));
                        }
                        insert_entry(&mut map, key, val);
                        proof {
                            done = done + 1;
                        }
                    },
                    None => {
                        vstd::pervasive::unreached::<()>();
                    },
                }
            },
        }
    }
    proof {
        assert(entries.take(done) == entries);
    }
    Ok(map)
}

/// Whether the conversion of `x` can succeed.
pub open spec fn converts<'a, T, S: TryFrom<&'a T, Error = Error>>(x: &'a T) -> bool {
    exists|s: S| call_ensures(S::try_from, (x,), Ok::<S, Error>(s))
}

/// Converts each record of a native list.
///
/// The records are converted in the list's order. The first one that
/// fails ends the conversion with its error.
pub fn struct_list<'a, T, S: TryFrom<&'a T, Error = Error>>(l: &'a RawList<'a, T>) -> (r: Result<
    Vec<S>,
    Error,
>)
    ensures
        match r {
            Ok(v) => {
                &&& v@.len() == l.records().len()
                &&& forall|i: int|
                    0 <= i < v@.len() ==> call_ensures(
                        S::try_from,
                        (&l.records()[i],),
                        Ok::<S, Error>(#[trigger] v@[i]),
                    )
            },
            Err(e) => exists|i: int|
                {
                    &&& 0 <= i < l.records().len()
                    &&& #[trigger] call_ensures(
                        S::try_from,
                        (&l.records()[i],),
                        Err::<S, Error>(e),
                    )
                    &&& forall|j: int| 0 <= j < i ==> #[trigger] converts::<T, S>(&l.records()[j])
                },
        },
{
    let ghost records = l.records();
    let mut v: Vec<S> = Vec::new();
    let mut iter = l.iter();
    loop
        invariant
            records == l.records(),
            v@.len() + iter.remaining().len() == records.len(),
            iter.remaining() == records.skip(v@.len() as int),
            forall|j: int|
                0 <= j < v@.len() ==> call_ensures(
                    S::try_from,
                    (&records[j],),
                    Ok::<S, Error>(#[trigger] v@[j]),
                ),
        ensures
            v@.len() == records.len(),
            forall|j: int|
                0 <= j < v@.len() ==> call_ensures(
                    S::try_from,
                    (&records[j],),
                    Ok::<S, Error>(#[trigger] v@[j]),
                ),
        decreases iter.remaining().len(),
    {
        match iter.next() {
            None => {
                break ;
            },
            Some(x) => {
                assert(*x == records[v@.len() as int]);
                assert(iter.remaining() == records.skip(v@.len() as int + 1));
                match S::try_from(x) {
                    Ok(s) => {
                        v.push(s);
                    },
                    Err(e) => {
                        proof {
                            let at = v@.len() as int;
                            assert(call_ensures(S::try_from, (&records[at],), Err::<S, Error>(e)));
                            assert forall|j: int| 0 <= j < at implies #[trigger] converts::<T, S>(
                                &records[j],
                            ) by {
                                assert(call_ensures(
                                    S::try_from,
                                    (&records[j],),
                                    Ok::<S, Error>(v@[j]),
                                ));
                            }
                        }
                        return Err(e);
                    },
                }
            },
        }
    }
    Ok(v)
}

} // verus!
