//! The fixed-capacity storage of a request's headers.

use crate::headers::HeaderKey;
use crate::headers::RequestHeader;
use vstd::prelude::*;
use vstd::string::StringSliceAdditionalSpecFns;

verus! {

/// The largest number of headers that one request may carry.
pub const MAX_HEADER_COUNT: usize = 16;

#[verifier::external_type_specification]
#[verifier::external_body]
#[verifier::reject_recursive_types(K)]
#[verifier::reject_recursive_types(V)]
pub struct ExLinearMap<K, V, const N: usize>(heapless::LinearMap<K, V, N>);

/// The entries that a header store holds, oldest first: each name by its key,
/// each value by its bytes.
pub uninterp spec fn stored_entries(
    m: heapless::LinearMap<RequestHeader<'_>, &str, 16>,
) -> Seq<(HeaderKey, Seq<u8>)>;

/// The position of the first entry with the given key, or the number of
/// entries where there is none.
pub open spec fn first_position(entries: Seq<(HeaderKey, Seq<u8>)>, key: HeaderKey) -> int
    decreases entries.len(),
{
    if entries.len() == 0 {
        0
    } else if entries[0].0 == key {
        0
    } else {
        1 + first_position(entries.drop_first(), key)
    }
}

/// `heapless::LinearMap::new`: the new store holds no entry.
#[verifier::external_body]
pub(crate) fn store_new<'a>() -> (m: heapless::LinearMap<RequestHeader<'a>, &'a str, 16>)
    ensures
        stored_entries(m).len() == 0,
{
    heapless::LinearMap::new()
}

/// `heapless::LinearMap::len`: the number of entries held.
#[verifier::external_body]
pub(crate) fn store_len(m: &heapless::LinearMap<RequestHeader<'_>, &str, 16>) -> (n: usize)
    ensures
        n == stored_entries(*m).len(),
{
    m.len()
}

/// `heapless::LinearMap::get`: a linear search, oldest entry first, for an
/// entry whose name equals `key` under the equality of `RequestHeader`; the
/// value of the first one found, or `None`.
#[verifier::external_body]
pub(crate) fn store_get<'a>(
    m: &heapless::LinearMap<RequestHeader<'a>, &'a str, 16>,
    key: &RequestHeader<'a>,
) -> (r: Option<&'a str>)
    ensures
        ({
            let entries = stored_entries(*m);
            let at = first_position(entries, key@);
            match r {
                Some(v) => at < entries.len() && v.spec_bytes() == entries[at].1,
                None => at == entries.len(),
            }
        }),
{
    m.get(key).copied()
}

/// `heapless::LinearMap::insert`: where an entry with an equal name is held,
/// its value is replaced and the earlier value handed back; else the pair is
/// appended where there is room, and handed back as the error where there is
/// none, the store left as it was.
#[verifier::external_body]
pub(crate) fn store_insert<'a>(
    m: &mut heapless::LinearMap<RequestHeader<'a>, &'a str, 16>,
    key: RequestHeader<'a>,
    value: &'a str,
) -> (r: Result<Option<&'a str>, (RequestHeader<'a>, &'a str)>)
    ensures
        ({
            let before = stored_entries(*old(m));
            let after = stored_entries(*final(m));
            let at = first_position(before, key@);
            if at < before.len() {
                &&& after == before.update(at, (key@, value.spec_bytes()))
                &&& r matches Ok(Some(v)) && v.spec_bytes() == before[at].1
            } else if before.len() < 16 {
                &&& after == before.push((key@, value.spec_bytes()))
                &&& r == Ok::<Option<&str>, (RequestHeader, &str)>(None)
            } else {
                &&& after == before
                &&& r matches Err(pair) && pair.0@ == key@ && pair.1.spec_bytes()
                    == value.spec_bytes()
            }
        }),
{
    m.insert(key, value)
}

/// Why an insertion was refused.
#[derive(Debug, Clone, Copy, PartialEq, Eq, Structural)]
pub enum InsertError {
    /// An entry with the same name is already held.
    Duplicate,
    /// The map holds as many entries as it can.
    Full,
}

/// Whether some entry has the given key.
pub open spec fn has_key(entries: Seq<(HeaderKey, Seq<u8>)>, key: HeaderKey) -> bool {
    exists|i: int| 0 <= i < entries.len() && (#[trigger] entries[i]).0 == key
}

/// No key occurs twice.
pub open spec fn keys_distinct(entries: Seq<(HeaderKey, Seq<u8>)>) -> bool {
    forall|i: int, j: int|
        0 <= i < j < entries.len() ==> (#[trigger] entries[i]).0 != (#[trigger] entries[j]).0
}

/// The value of the first entry with the given key.
pub open spec fn value_of(entries: Seq<(HeaderKey, Seq<u8>)>, key: HeaderKey) -> Option<Seq<u8>> {
    let at = first_position(entries, key);
    if at < entries.len() {
        Some(entries[at].1)
    } else {
        None
    }
}

/// `first_position` is in range, points at an entry with the key where it
/// points at one, and passes over none.
pub proof fn lemma_first_position(entries: Seq<(HeaderKey, Seq<u8>)>, key: HeaderKey)
    ensures
        0 <= first_position(entries, key) <= entries.len(),
        first_position(entries, key) < entries.len() ==> entries[first_position(
            entries,
            key,
        )].0 == key,
        forall|j: int|
            0 <= j < first_position(entries, key) ==> (#[trigger] entries[j]).0 != key,
        has_key(entries, key) <==> first_position(entries, key) < entries.len(),
    decreases entries.len(),
{
    if entries.len() > 0 && entries[0].0 != key {
        let rest = entries.drop_first();
        lemma_first_position(rest, key);
        let at = first_position(rest, key);
        assert forall|j: int| 0 <= j < at + 1 implies (#[trigger] entries[j]).0 != key by {
            if j > 0 {
                assert(rest[j - 1] == entries[j]);
            }
        }
        if at < rest.len() {
            assert(entries[at + 1] == rest[at]);
        }
        if has_key(entries, key) {
            let i = choose|i: int| 0 <= i < entries.len() && (#[trigger] entries[i]).0 == key;
            assert(rest[i - 1] == entries[i]);
        }
    }
}

/// The headers of one request: at most `MAX_HEADER_COUNT` entries, no two
/// under the same name, kept in the order of their insertion.
#[derive(Debug)]
pub struct HeaderMap<'a> {
    store: heapless::LinearMap<RequestHeader<'a>, &'a str, 16>,
}

impl<'a> View for HeaderMap<'a> {
    type V = Seq<(HeaderKey, Seq<u8>)>;

    closed spec fn view(&self) -> Seq<(HeaderKey, Seq<u8>)> {
        stored_entries(self.store)
    }
}

impl<'a> HeaderMap<'a> {
    /// The map is within its capacity and holds no name twice.
    pub open spec fn wf(&self) -> bool {
        &&& self@.len() <= MAX_HEADER_COUNT
        &&& keys_distinct(self@)
    }

    /// An empty map.
    pub fn new() -> (m: HeaderMap<'a>)
        ensures
            m@.len() == 0,
            m.wf(),
    {
        HeaderMap { store: store_new() }
    }

    /// The number of entries.
    pub fn len(&self) -> (n: usize)
        ensures
            n == self@.len(),
    {
        store_len(&self.store)
    }

    /// The value stored under a name, if there is one.
    pub fn get(&self, name: &RequestHeader<'a>) -> (r: Option<&'a str>)
        ensures
            r.is_some() == has_key(self@, name@),
            match r {
                Some(v) => value_of(self@, name@) == Some(v.spec_bytes()),
                None => value_of(self@, name@).is_none(),
            },
    {
        proof {
            lemma_first_position(self@, name@);
        }
        store_get(&self.store, name)
    }

    /// Adds an entry. A name that is already held is refused and its entry
    /// left as it was; so is any new name once the map is full.
    pub fn insert(&mut self, name: RequestHeader<'a>, value: &'a str) -> (r: Result<
        (),
        InsertError,
    >)
        requires
            old(self).wf(),
        ensures
            final(self).wf(),
            has_key(old(self)@, name@) ==> r == Err::<(), InsertError>(InsertError::Duplicate)
                && final(self)@ == old(self)@,
            !has_key(old(self)@, name@) && old(self)@.len() >= MAX_HEADER_COUNT ==> r == Err::<
                (),
                InsertError,
            >(InsertError::Full) && final(self)@ == old(self)@,
            !has_key(old(self)@, name@) && old(self)@.len() < MAX_HEADER_COUNT ==> r == Ok::<
                (),
                InsertError,
            >(()) && final(self)@ == old(self)@.push((name@, value.spec_bytes())),
            r.is_ok() ==> value_of(final(self)@, name@) == Some(value.spec_bytes()),
    {
        proof {
            lemma_first_position(self@, name@);
        }
        if store_get(&self.store, &name).is_some() {
            return Err(InsertError::Duplicate);
        }
        if store_len(&self.store) >= MAX_HEADER_COUNT {
            return Err(InsertError::Full);
        }
        let ghost before = self@;
        let _ = store_insert(&mut self.store, name, value);
        proof {
            let after = self@;
            assert forall|i: int, j: int| 0 <= i < j < after.len() implies (#[trigger] after[i]).0
                != (#[trigger] after[j]).0 by {
                if j == before.len() {
                    assert(before[i].0 != name@);
                }
            }
            lemma_first_position(after, name@);
            let at = first_position(after, name@);
            assert(after[before.len() as int].0 == name@);
            if at < before.len() {
                assert(before[at].0 == name@);
            }
        }
        Ok(())
    }
}

} // verus!
