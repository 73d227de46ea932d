//! A forward-only big-endian cursor over an in-memory byte buffer, and the
//! spec-level parsing combinators that the class parser is stated with.
use byteorder::{BigEndian, ByteOrder};
use vstd::prelude::*;
use vstd::slice::{slice_subrange, slice_to_vec};

use crate::error::VmError;

verus! {

/// The unsigned number that `s` spells out, most significant byte first.
pub open spec fn be_value(s: Seq<u8>) -> nat
    decreases s.len(),
{
    if s.len() == 0 {
        0
    } else {
        be_value(s.drop_last()) * 256 + s.last() as nat
    }
}

/// The outcome of one parsing step at position `p`: a value and the position
/// after it, or the error that stopped the parse.
pub type Parsed<T> = Result<(T, int), VmError>;

/// The `n` bytes at `p`.
pub open spec fn spec_bytes(d: Seq<u8>, p: int, n: int) -> Parsed<Seq<u8>> {
    if 0 <= p && 0 <= n && p + n <= d.len() {
        Ok((d.subrange(p, p + n), p + n))
    } else {
        Err(VmError::TruncatedInput)
    }
}

pub open spec fn spec_u1(d: Seq<u8>, p: int) -> Parsed<u8> {
    if 0 <= p && p < d.len() {
        Ok((d[p], p + 1))
    } else {
        Err(VmError::TruncatedInput)
    }
}

pub open spec fn spec_u2(d: Seq<u8>, p: int) -> Parsed<u16> {
    match spec_bytes(d, p, 2) {
        Ok((b, q)) => Ok((be_value(b) as u16, q)),
        Err(e) => Err(e),
    }
}

pub open spec fn spec_u4(d: Seq<u8>, p: int) -> Parsed<u32> {
    match spec_bytes(d, p, 4) {
        Ok((b, q)) => Ok((be_value(b) as u32, q)),
        Err(e) => Err(e),
    }
}

pub open spec fn spec_u8(d: Seq<u8>, p: int) -> Parsed<u64> {
    match spec_bytes(d, p, 8) {
        Ok((b, q)) => Ok((be_value(b) as u64, q)),
        Err(e) => Err(e),
    }
}

/// `n` items parsed one after another from `p` by `item`; the first error
/// stops the whole list.
pub open spec fn repeat<T>(item: spec_fn(int) -> Parsed<T>, p: int, n: nat) -> Parsed<Seq<T>>
    decreases n,
{
    if n == 0 {
        Ok((Seq::empty(), p))
    } else {
        match repeat(item, p, (n - 1) as nat) {
            Ok((xs, q)) => match item(q) {
                Ok((x, q2)) => Ok((xs.push(x), q2)),
                Err(e) => Err(e),
            },
            Err(e) => Err(e),
        }
    }
}

/// Once a list parse has failed, parsing more items fails the same way.
pub proof fn lemma_repeat_err<T>(item: spec_fn(int) -> Parsed<T>, p: int, i: nat, n: nat)
    requires
        i <= n,
        repeat(item, p, i) is Err,
    ensures
        repeat(item, p, n) == repeat(item, p, i),
    decreases n - i,
{
    if n > i {
        lemma_repeat_err(item, p, i, (n - 1) as nat);
    }
}

/// A successful list parse yields exactly the declared number of items.
pub proof fn lemma_repeat_len<T>(item: spec_fn(int) -> Parsed<T>, p: int, n: nat)
    requires
        repeat(item, p, n) is Ok,
    ensures
        repeat(item, p, n)->Ok_0.0.len() == n,
    decreases n,
{
    if n > 0 {
        lemma_repeat_len(item, p, (n - 1) as nat);
    }
}

/// What a reader method returned, held against the spec step from the
/// position it started at; `after` is the position it left behind.
pub open spec fn step_matches<T>(r: Result<T, VmError>, s: Parsed<T>, after: int) -> bool {
    match s {
        Ok((v, q)) => r == Ok::<T, VmError>(v) && after == q,
        Err(e) => r == Err::<T, VmError>(e),
    }
}

/// The same, for a result that is held against the spec step through its view.
pub open spec fn step_matches_view<T: View>(r: Result<T, VmError>, s: Parsed<T::V>, after: int) -> bool {
    match s {
        Ok((v, q)) => r is Ok && r->Ok_0@ == v && after == q,
        Err(e) => r is Err && r->Err_0 == e,
    }
}

/// Relies on byteorder's `BigEndian::read_u16`: the first two bytes, most
/// significant first.
#[verifier::external_body]
fn be_u16(b: &[u8]) -> (r: u16)
    requires
        b@.len() == 2,
    ensures
        r as nat == be_value(b@),
{
    BigEndian::read_u16(b)
}

/// Relies on byteorder's `BigEndian::read_u32`: the first four bytes, most
/// significant first.
#[verifier::external_body]
fn be_u32(b: &[u8]) -> (r: u32)
    requires
        b@.len() == 4,
    ensures
        r as nat == be_value(b@),
{
    BigEndian::read_u32(b)
}

/// Relies on byteorder's `BigEndian::read_u64`: the first eight bytes, most
/// significant first.
#[verifier::external_body]
fn be_u64(b: &[u8]) -> (r: u64)
    requires
        b@.len() == 8,
    ensures
        r as nat == be_value(b@),
{
    BigEndian::read_u64(b)
}

/// A cursor that reads fixed-width values from `data`, starting at `pos` and
/// moving only forward.
pub struct Loader {
    pub data: Vec<u8>,
    pub pos: usize,
}

impl Loader {
    pub fn new(data: Vec<u8>) -> (r: Loader)
        ensures
            r.data@ == data@,
            r.pos == 0,
    {
        Loader { data, pos: 0 }
    }

    /// The `n` bytes at the cursor, without moving it.
    fn window(&self, n: usize) -> (r: Option<&[u8]>)
        ensures
            match spec_bytes(self.data@, self.pos as int, n as int) {
                Ok((b, _)) => r is Some && r->0@ == b,
                Err(_) => r is None,
            },
            r is Some ==> self.pos + n <= self.data@.len() && self.pos + n <= usize::MAX,
    {
        let len = self.data.len();
        if self.pos <= len && n <= len - self.pos {
            Some(slice_subrange(self.data.as_slice(), self.pos, self.pos + n))
        } else {
            None
        }
    }

    pub fn u1(&mut self) -> (r: Result<u8, VmError>)
        ensures
            final(self).data@ == old(self).data@,
            step_matches(r, spec_u1(old(self).data@, old(self).pos as int), final(self).pos as int),
    {
        if self.pos < self.data.len() {
            let v = self.data[self.pos];
            self.pos = self.pos + 1;
            Ok(v)
        } else {
            Err(VmError::TruncatedInput)
        }
    }

    pub fn u2(&mut self) -> (r: Result<u16, VmError>)
        ensures
            final(self).data@ == old(self).data@,
            step_matches(r, spec_u2(old(self).data@, old(self).pos as int), final(self).pos as int),
    {
        match self.window(2) {
            Some(b) => {
                let v = be_u16(b);
                self.pos = self.pos + 2;
                Ok(v)
            },
            None => Err(VmError::TruncatedInput),
        }
    }

    pub fn u4(&mut self) -> (r: Result<u32, VmError>)
        ensures
            final(self).data@ == old(self).data@,
            step_matches(r, spec_u4(old(self).data@, old(self).pos as int), final(self).pos as int),
    {
        match self.window(4) {
            Some(b) => {
                let v = be_u32(b);
                self.pos = self.pos + 4;
                Ok(v)
            },
            None => Err(VmError::TruncatedInput),
        }
    }

    pub fn u8(&mut self) -> (r: Result<u64, VmError>)
        ensures
            final(self).data@ == old(self).data@,
            step_matches(r, spec_u8(old(self).data@, old(self).pos as int), final(self).pos as int),
    {
        match self.window(8) {
            Some(b) => {
                let v = be_u64(b);
                self.pos = self.pos + 8;
                Ok(v)
            },
            None => Err(VmError::TruncatedInput),
        }
    }

    pub fn bytes(&mut self, size: usize) -> (r: Result<Vec<u8>, VmError>)
        ensures
            final(self).data@ == old(self).data@,
            step_matches_view(
                r,
                spec_bytes(old(self).data@, old(self).pos as int, size as int),
                final(self).pos as int,
            ),
    {
        match self.window(size) {
            Some(b) => {
                let v = slice_to_vec(b);
                self.pos = self.pos + size;
                Ok(v)
            },
            None => Err(VmError::TruncatedInput),
        }
    }
}

} // verus!
