//! The constant pool: a 1-indexed table of tagged constants, its parser, and
//! name resolution.
use vstd::prelude::*;
use vstd::utf8::{decode_utf8, valid_utf8};

use crate::error::VmError;
use crate::reader::{
    lemma_repeat_err, lemma_repeat_len, repeat, spec_bytes, spec_u1, spec_u2, Loader, Parsed,
};

verus! {

/// One constant-pool entry; each kind carries only its own fields.
#[derive(Debug, PartialEq, Eq)]
pub enum Const {
    Utf8(String),
    ClassRef(u16),
    StringRef(u16),
    RefInfo(u16, u16),
    NameAndType(u16, u16),
    /// A tag outside the modelled subset; nothing past the tag was read.
    Unsupported(u8),
}

/// What a `Const` stands for, with its text as characters.
pub enum ConstView {
    Utf8(Seq<char>),
    ClassRef(u16),
    StringRef(u16),
    RefInfo(u16, u16),
    NameAndType(u16, u16),
    Unsupported(u8),
}

impl View for Const {
    type V = ConstView;

    open spec fn view(&self) -> ConstView {
        match self {
            Const::Utf8(s) => ConstView::Utf8(s@),
            Const::ClassRef(n) => ConstView::ClassRef(*n),
            Const::StringRef(n) => ConstView::StringRef(*n),
            Const::RefInfo(c, t) => ConstView::RefInfo(*c, *t),
            Const::NameAndType(n, t) => ConstView::NameAndType(*n, *t),
            Const::Unsupported(t) => ConstView::Unsupported(*t),
        }
    }
}

/// The fields that follow a tag byte at `p`, read as the tag selects.
pub open spec fn spec_const_body(d: Seq<u8>, tag: u8, p: int) -> Parsed<ConstView> {
    if tag == 1 {
        match spec_u2(d, p) {
            Ok((n, q)) => match spec_bytes(d, q, n as int) {
                Ok((b, q2)) => if valid_utf8(b) {
                    Ok((ConstView::Utf8(decode_utf8(b)), q2))
                } else {
                    Err(VmError::MalformedText)
                },
                Err(e) => Err(e),
            },
            Err(e) => Err(e),
        }
    } else if tag == 7 || tag == 8 {
        match spec_u2(d, p) {
            Ok((n, q)) => Ok(
                (if tag == 7 {
                    ConstView::ClassRef(n)
                } else {
                    ConstView::StringRef(n)
                }, q),
            ),
            Err(e) => Err(e),
        }
    } else if tag == 9 || tag == 10 || tag == 12 {
        match spec_u2(d, p) {
            Ok((a, q)) => match spec_u2(d, q) {
                Ok((b, q2)) => Ok(
                    (if tag == 12 {
                        ConstView::NameAndType(a, b)
                    } else {
                        ConstView::RefInfo(a, b)
                    }, q2),
                ),
                Err(e) => Err(e),
            },
            Err(e) => Err(e),
        }
    } else {
        Ok((ConstView::Unsupported(tag), p))
    }
}

/// A whole entry at `p`: its tag byte, then its fields.
pub open spec fn spec_const(d: Seq<u8>, p: int) -> Parsed<ConstView> {
    match spec_u1(d, p) {
        Ok((tag, q)) => spec_const_body(d, tag, q),
        Err(e) => Err(e),
    }
}

/// One pool entry, as a list item for `repeat`.
pub open spec fn const_item(d: Seq<u8>) -> spec_fn(int) -> Parsed<ConstView> {
    |q: int| spec_const(d, q)
}

/// The number of entries that a declared pool count stands for.
pub open spec fn entry_count(c: u16) -> nat {
    if c == 0 {
        0
    } else {
        (c - 1) as nat
    }
}

/// The pool at `p`: a 16-bit declared count `c`, then `c - 1` entries.
pub open spec fn spec_pool(d: Seq<u8>, p: int) -> Parsed<Seq<ConstView>> {
    match spec_u2(d, p) {
        Ok((c, q)) => repeat(const_item(d), q, entry_count(c)),
        Err(e) => Err(e),
    }
}

/// The text of entry `index` (counted from 1) when that entry is itself text;
/// nothing for any other kind, for 0, and past the end.
pub open spec fn spec_resolve(pool: Seq<ConstView>, index: int) -> Option<Seq<char>> {
    if 1 <= index <= pool.len() {
        match pool[index - 1] {
            ConstView::Utf8(s) => Some(s),
            _ => None,
        }
    } else {
        None
    }
}

/// The name of the class that entry `index` designates: through a class
/// reference to its text entry, or the entry's own text.
pub open spec fn spec_class_name(pool: Seq<ConstView>, index: int) -> Option<Seq<char>> {
    if 1 <= index <= pool.len() {
        match pool[index - 1] {
            ConstView::ClassRef(n) => spec_resolve(pool, n as int),
            ConstView::Utf8(s) => Some(s),
            _ => None,
        }
    } else {
        None
    }
}

/// The characters of an optional string.
pub open spec fn opt_text(r: Option<String>) -> Option<Seq<char>> {
    match r {
        Some(s) => Some(s@),
        None => None,
    }
}

/// Relies on `String::from_utf8`: the text that the bytes encode, or nothing
/// when they are not valid UTF-8.
#[verifier::external_body]
fn utf8_string(b: Vec<u8>) -> (r: Option<String>)
    ensures
        match r {
            Some(s) => valid_utf8(b@) && s@ == decode_utf8(b@),
            None => !valid_utf8(b@),
        },
{
    match String::from_utf8(b) {
        Ok(s) => Some(s),
        Err(_) => None,
    }
}

impl Const {
    /// Reads the fields that `tag` selects from `loader`; an unknown tag
    /// gives an `Unsupported` entry and reads nothing.
    pub fn new(tag: u8, loader: &mut Loader) -> (r: Result<Const, VmError>)
        ensures
            final(loader).data@ == old(loader).data@,
            crate::reader::step_matches_view(
                r,
                spec_const_body(old(loader).data@, tag, old(loader).pos as int),
                final(loader).pos as int,
            ),
    {
        if tag == 1 {
            let n = match loader.u2() {
                Ok(n) => n,
                Err(e) => return Err(e),
            };
            let b = match loader.bytes(n as usize) {
                Ok(b) => b,
                Err(e) => return Err(e),
            };
            match utf8_string(b) {
                Some(s) => Ok(Const::Utf8(s)),
                None => Err(VmError::MalformedText),
            }
        } else if tag == 7 || tag == 8 {
            let n = match loader.u2() {
                Ok(n) => n,
                Err(e) => return Err(e),
            };
            if tag == 7 {
                Ok(Const::ClassRef(n))
            } else {
                Ok(Const::StringRef(n))
            }
        } else if tag == 9 || tag == 10 || tag == 12 {
            let a = match loader.u2() {
                Ok(a) => a,
                Err(e) => return Err(e),
            };
            let b = match loader.u2() {
                Ok(b) => b,
                Err(e) => return Err(e),
            };
            if tag == 12 {
                Ok(Const::NameAndType(a, b))
            } else {
                Ok(Const::RefInfo(a, b))
            }
        } else {
            Ok(Const::Unsupported(tag))
        }
    }
}

/// The constant pool, in declaration order; entry `i` is `entries[i - 1]`.
#[derive(Debug)]
pub struct ConstPool {
    pub entries: Vec<Const>,
}

impl View for ConstPool {
    type V = Seq<ConstView>;

    open spec fn view(&self) -> Seq<ConstView> {
        self.entries@.map_values(|c: Const| c@)
    }
}

impl ConstPool {
    /// The text of entry `index` when that entry is a text constant.
    pub fn resolve(&self, index: usize) -> (r: Option<String>)
        ensures
            opt_text(r) == spec_resolve(self@, index as int),
    {
        if 1 <= index && index <= self.entries.len() {
            match &self.entries[index - 1] {
                Const::Utf8(s) => Some(s.clone()),
                _ => None,
            }
        } else {
            None
        }
    }

    /// The name of the class that entry `index` designates.
    pub fn class_name(&self, index: usize) -> (r: Option<String>)
        ensures
            opt_text(r) == spec_class_name(self@, index as int),
    {
        if 1 <= index && index <= self.entries.len() {
            match &self.entries[index - 1] {
                Const::ClassRef(n) => self.resolve(*n as usize),
                Const::Utf8(s) => Some(s.clone()),
                _ => None,
            }
        } else {
            None
        }
    }
}

impl Loader {
    /// Reads the constant pool: its declared count, then each entry.
    pub fn cpinfo(&mut self) -> (r: Result<ConstPool, VmError>)
        ensures
            final(self).data@ == old(self).data@,
            crate::reader::step_matches_view(
                r,
                spec_pool(old(self).data@, old(self).pos as int),
                final(self).pos as int,
            ),
    {
        let ghost d = self.data@;
        let count = match self.u2() {
            Ok(c) => c,
            Err(e) => return Err(e),
        };
        let ghost p0 = self.pos as int;
        let n: u16 = if count == 0 {
            0
        } else {
            count - 1
        };
        let mut entries: Vec<Const> = Vec::new();
        let mut i: u16 = 0;
        assert(entries@.map_values(|c: Const| c@) =~= Seq::empty());
        while i < n
            invariant
                self.data@ == d,
                d == old(self).data@,
                spec_u2(d, old(self).pos as int) == Ok::<(u16, int), VmError>((count, p0)),
                n as nat == entry_count(count),
                i <= n,
                repeat(const_item(d), p0, i as nat) == Ok::<(Seq<ConstView>, int), VmError>(
                    (entries@.map_values(|c: Const| c@), self.pos as int),
                ),
            decreases n - i,
        {
            let tag = match self.u1() {
                Ok(t) => t,
                Err(e) => {
                    proof {
                        lemma_repeat_err(const_item(d), p0, (i + 1) as nat, n as nat);
                    }
                    return Err(e);
                },
            };
            let c = match Const::new(tag, self) {
                Ok(c) => c,
                Err(e) => {
                    proof {
                        lemma_repeat_err(const_item(d), p0, (i + 1) as nat, n as nat);
                    }
                    return Err(e);
                },
            };
            let ghost before = entries@;
            entries.push(c);
            proof {
                assert(entries@.map_values(|c: Const| c@) =~= before.map_values(|c: Const| c@).push(
                    c@,
                ));
            }
            i = i + 1;
        }
        Ok(ConstPool { entries })
    }
}

/// Parsing a pool whose declared count is `c >= 1` yields exactly `c - 1`
/// entries.
pub proof fn law_pool_entry_count(d: Seq<u8>, p: int)
    requires
        spec_pool(d, p) is Ok,
    ensures
        spec_u2(d, p) is Ok,
        spec_u2(d, p)->Ok_0.0 >= 1 ==> spec_pool(d, p)->Ok_0.0.len() == spec_u2(d, p)->Ok_0.0
            - 1,
{
    let (c, q) = spec_u2(d, p)->Ok_0;
    lemma_repeat_len(const_item(d), q, entry_count(c));
}

/// A pool declared with count 1 holds no entries and parses successfully,
/// ending right after the count.
pub proof fn law_pool_count_one_is_empty(d: Seq<u8>, p: int)
    requires
        spec_u2(d, p) is Ok,
        spec_u2(d, p)->Ok_0.0 == 1,
    ensures
        spec_pool(d, p) == Ok::<(Seq<ConstView>, int), VmError>((Seq::empty(), p + 2)),
{
}

/// Resolution gives the text of a text entry and nothing for an entry of any
/// other kind.
pub proof fn law_resolve_text_only(pool: Seq<ConstView>, index: int)
    requires
        1 <= index <= pool.len(),
    ensures
        pool[index - 1] is Utf8 ==> spec_resolve(pool, index) == Some(pool[index - 1]->Utf8_0),
        !(pool[index - 1] is Utf8) ==> spec_resolve(pool, index) is None,
{
}

} // verus!
