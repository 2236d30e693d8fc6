//! Buffers that the guest hands to the host and the host fills: each one is
//! pinned under the pointer value the host will use, until the guest takes
//! it back.

use crate::status::{Status, StatusCode};
use crate::text::{decimal_text, push_decimal, push_decimal_digits};
use std::collections::HashMap;
use vstd::prelude::*;

verus! {

broadcast use vstd::std_specs::hash::group_hash_axioms;

/// The pinned buffers, keyed by the pointer value given to the host.
pub struct Allocations {
    pinned: HashMap<i32, Vec<u8>>,
}

impl View for Allocations {
    type V = Map<i32, Seq<u8>>;

    closed spec fn view(&self) -> Map<i32, Seq<u8>> {
        self.pinned@.map_values(|buf: Vec<u8>| buf@)
    }
}

/// `size` zero bytes.
pub open spec fn zeroed(size: int) -> Seq<u8> {
    Seq::new(size as nat, |i: int| 0u8)
}

/// What `take_ownership(ptr, size)` gives back and the pinned buffers it leaves,
/// when the pinned buffers are `m`.
pub open spec fn take_ownership_spec(m: Map<i32, Seq<u8>>, ptr: i32, size: i32) -> (
    Result<Seq<u8>, Seq<char>>,
    Map<i32, Seq<u8>>,
) {
    if ptr == 0 && size == 0 {
        (Ok(Seq::empty()), m)
    } else if ptr == 0 || size < 0 {
        (Err("invalid pointer/size"@), m)
    } else if !m.contains_key(ptr) {
        (Err("unknown allocation pointer: "@ + decimal_text(ptr as int)), m)
    } else if size > m[ptr].len() {
        (
            Err(
                "payload size "@ + decimal_text(size as int) + " exceeds allocation size "@
                    + decimal_text(m[ptr].len() as int),
            ),
            m.remove(ptr),
        )
    } else {
        (Ok(m[ptr].take(size as int)), m.remove(ptr))
    }
}

/// Whether `res` is the executable form of the outcome `spec`.
pub open spec fn payload_matches(res: Result<Vec<u8>, Status>, spec: Result<Seq<u8>, Seq<char>>) -> bool {
    match res {
        Ok(buf) => spec == Ok::<Seq<u8>, Seq<char>>(buf@),
        Err(status) => status.code == StatusCode::Error && spec == Err::<Seq<u8>, Seq<char>>(
            status.reason@,
        ),
    }
}

/// `Vec::as_ptr`, cast to the 32-bit pointer value the host sees. The value is
/// whatever the allocator gave; `Vec` guarantees its pointer is never null, so
/// where pointers are 32 bits wide (as on `wasm32`) the value is not 0.
#[verifier::external_body]
fn buffer_address(buf: &Vec<u8>) -> (addr: i32)
    ensures
        usize::BITS == 32 ==> addr != 0,
{
    buf.as_ptr() as usize as i32
}

impl Allocations {
    /// An empty registry.
    pub fn new() -> (a: Self)
        ensures
            a@ == Map::<i32, Seq<u8>>::empty(),
    {
        let a = Allocations { pinned: HashMap::new() };
        assert(a@ =~= Map::<i32, Seq<u8>>::empty());
        a
    }

    /// Pins `buf` under `ptr`, replacing what was pinned there.
    pub fn insert(&mut self, ptr: i32, buf: Vec<u8>)
        ensures
            final(self)@ == old(self)@.insert(ptr, buf@),
    {
        let ghost b = buf@;
        self.pinned.insert(ptr, buf);
        assert(self@ =~= old(self)@.insert(ptr, b));
    }

    /// Unpins and returns the buffer under `ptr`, if any.
    fn remove(&mut self, ptr: i32) -> (r: Option<Vec<u8>>)
        ensures
            final(self)@ == old(self)@.remove(ptr),
            match r {
                Some(buf) => old(self)@.contains_key(ptr) && old(self)@[ptr] == buf@,
                None => !old(self)@.contains_key(ptr),
            },
    {
        let r = self.pinned.remove(&ptr);
        assert(self@ =~= old(self)@.remove(ptr));
        r
    }
}

/// Allocates `size` zeroed bytes, pins them and returns their pointer value;
/// a size that is not positive allocates nothing and returns 0.
pub fn allocate(allocations: &mut Allocations, size: i32) -> (ptr: i32)
    ensures
        size <= 0 ==> ptr == 0 && final(allocations)@ == old(allocations)@,
        size > 0 ==> final(allocations)@ == old(allocations)@.insert(ptr, zeroed(size as int)),
        size > 0 && usize::BITS == 32 ==> ptr != 0,
{
    if size <= 0 {
        return 0;
    }
    let buf: Vec<u8> = vec![0u8; size as usize];
    assert(buf@ =~= zeroed(size as int));
    let ptr = buffer_address(&buf);
    allocations.insert(ptr, buf);
    ptr
}

/// Unpins the buffer under `ptr` and returns its first `size` bytes. A null
/// pointer with size 0 stands for an empty payload and touches nothing.
pub fn take_ownership(allocations: &mut Allocations, ptr: i32, size: i32) -> (res: Result<
    Vec<u8>,
    Status,
>)
    ensures
        payload_matches(res, take_ownership_spec(old(allocations)@, ptr, size).0),
        final(allocations)@ == take_ownership_spec(old(allocations)@, ptr, size).1,
{
    if ptr == 0 && size == 0 {
        return Ok(Vec::new());
    }
    if ptr == 0 || size < 0 {
        return Err(Status::error("invalid pointer/size"));
    }
    let mut buf = match allocations.remove(ptr) {
        Some(buf) => buf,
        None => {
            let mut reason = String::from_str("unknown allocation pointer: ");
            push_decimal(&mut reason, ptr as i64);
            return Err(Status::error_owned(reason));
        },
    };
    if size as usize > buf.len() {
        let mut reason = String::from_str("payload size ");
        push_decimal(&mut reason, size as i64);
        reason.append(" exceeds allocation size ");
        push_decimal_digits(&mut reason, buf.len() as u64);
        return Err(Status::error_owned(reason));
    }
    buf.truncate(size as usize);
    Ok(buf)
}

/// In the registry model, where nothing writes into a pinned buffer, a buffer
/// obtained from `allocate(size)` under a non-null pointer is given back whole,
/// as `size` zero bytes, by `take_ownership(ptr, size)`, which unpins it; the
/// registry is then as it was before the allocation when that pointer was not
/// pinned before. (The host's write into the buffer is the subject of
/// `lemma_pinned_prefix_round_trip`, where it replaces the pinned bytes.)
pub proof fn lemma_allocate_then_take(m: Map<i32, Seq<u8>>, ptr: i32, size: i32)
    requires
        ptr != 0,
        size > 0,
    ensures
        take_ownership_spec(m.insert(ptr, zeroed(size as int)), ptr, size) == (
            Ok::<Seq<u8>, Seq<char>>(zeroed(size as int)),
            m.remove(ptr),
        ),
        !m.contains_key(ptr) ==> m.remove(ptr) == m,
{
    assert(!m.contains_key(ptr) ==> m.remove(ptr) =~= m);
    let m2 = m.insert(ptr, zeroed(size as int));
    assert(m2[ptr].take(size as int) =~= zeroed(size as int));
    assert(m2.remove(ptr) =~= m.remove(ptr));
}

/// Whatever bytes `data` are pinned under a non-null pointer (put there by
/// `allocate` and then overwritten by the host, or by `insert`), taking back
/// `size` of them (no more than were pinned) yields exactly their first `size`
/// bytes and unpins the buffer, leaving the registry as it was before the
/// pointer was pinned when it was not pinned before.
pub proof fn lemma_pinned_prefix_round_trip(m: Map<i32, Seq<u8>>, ptr: i32, data: Seq<u8>, size: i32)
    requires
        ptr != 0,
        0 <= size <= data.len(),
    ensures
        take_ownership_spec(m.insert(ptr, data), ptr, size) == (
            Ok::<Seq<u8>, Seq<char>>(data.take(size as int)),
            m.remove(ptr),
        ),
        !m.contains_key(ptr) ==> m.remove(ptr) == m,
{
    assert(!m.contains_key(ptr) ==> m.remove(ptr) =~= m);
    let m2 = m.insert(ptr, data);
    if size == 0 {
        assert(m2[ptr].take(0) =~= data.take(0));
    }
    assert(m2.remove(ptr) =~= m.remove(ptr));
}

/// A non-null pointer can be taken back at most once: after any request for it
/// with a non-negative size, whether that request succeeded or not, a second
/// request finds no buffer and changes nothing.
pub proof fn lemma_take_ownership_once(m: Map<i32, Seq<u8>>, ptr: i32, size: i32, size2: i32)
    requires
        ptr != 0,
        size >= 0,
        size2 >= 0,
    ensures
        ({
            let after = take_ownership_spec(m, ptr, size).1;
            take_ownership_spec(after, ptr, size2) == (
                Err::<Seq<u8>, Seq<char>>("unknown allocation pointer: "@ + decimal_text(ptr as int)),
                after,
            )
        }),
{
}

/// Taking back one pointer leaves every other pinned buffer as it was.
pub proof fn lemma_take_ownership_leaves_others(m: Map<i32, Seq<u8>>, ptr: i32, size: i32, other: i32)
    requires
        other != ptr,
    ensures
        take_ownership_spec(m, ptr, size).1.contains_key(other) == m.contains_key(other),
        m.contains_key(other) ==> take_ownership_spec(m, ptr, size).1[other] == m[other],
{
}

} // verus!
