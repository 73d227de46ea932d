//! Method frames and the fetch-decode-execute loop that runs them.
use vstd::prelude::*;
use vstd::slice::{slice_subrange, slice_to_vec};

use vstd::string::StringExecFns;

use crate::class::{spec_class, Attribute, AttributeView, Class, ClassView, Field, FieldView};
use crate::error::VmError;

verus! {

pub const ILOAD_0: u8 = 26;

pub const ILOAD_1: u8 = 27;

pub const IADD: u8 = 96;

pub const IRETURN: u8 = 172;

/// The length of the fixed header (max stack, max locals, code length) that
/// precedes the instructions in a `Code` attribute.
pub const CODE_HEADER_LEN: usize = 8;

/// The execution context of one method invocation.
#[derive(Debug)]
pub struct Frame {
    /// Offset of the next instruction in `code`.
    pub ip: usize,
    pub code: Vec<u8>,
    pub locals: Vec<i32>,
    pub stack: Vec<i32>,
}

/// Where a run of `code` ends when it starts at `ip` with operand stack
/// `stack`: the method's result or the error that stopped it, the offset of
/// the last instruction looked at, and the operand stack left then.
pub open spec fn run(code: Seq<u8>, locals: Seq<i32>, ip: int, stack: Seq<i32>) -> (
    Result<i32, VmError>,
    int,
    Seq<i32>,
)
    decreases code.len() - ip,
{
    if ip < 0 || ip >= code.len() {
        (Err(VmError::TruncatedInput), ip, stack)
    } else {
        let op = code[ip];
        if op == ILOAD_0 || op == ILOAD_1 {
            let slot = if op == ILOAD_0 {
                0int
            } else {
                1int
            };
            if slot < locals.len() {
                run(code, locals, ip + 1, stack.push(locals[slot]))
            } else {
                (Err(VmError::LocalIndexOutOfRange(slot as u8)), ip, stack)
            }
        } else if op == IADD {
            if stack.len() >= 2 {
                let a = stack[stack.len() - 1];
                let b = stack[stack.len() - 2];
                run(
                    code,
                    locals,
                    ip + 1,
                    stack.subrange(0, stack.len() - 2).push(b.wrapping_add(a)),
                )
            } else {
                (Err(VmError::StackUnderflow), ip, stack)
            }
        } else if op == IRETURN {
            if stack.len() >= 1 {
                (Ok(stack.last()), ip, stack.drop_last())
            } else {
                (Err(VmError::StackUnderflow), ip, stack)
            }
        } else {
            (Err(VmError::UnsupportedOpcode(op)), ip, stack)
        }
    }
}

/// Runs `frame` from its current instruction until `ireturn` gives the
/// method's result or an instruction fails.
pub fn exec(frame: &mut Frame) -> (r: Result<i32, VmError>)
    ensures
        final(frame).code@ == old(frame).code@,
        final(frame).locals@ == old(frame).locals@,
        (r, final(frame).ip as int, final(frame).stack@) == run(
            old(frame).code@,
            old(frame).locals@,
            old(frame).ip as int,
            old(frame).stack@,
        ),
{
    loop
        invariant
            frame.code@ == old(frame).code@,
            frame.locals@ == old(frame).locals@,
            run(frame.code@, frame.locals@, frame.ip as int, frame.stack@) == run(
                old(frame).code@,
                old(frame).locals@,
                old(frame).ip as int,
                old(frame).stack@,
            ),
        decreases frame.code@.len() - frame.ip,
    {
        if frame.ip >= frame.code.len() {
            return Err(VmError::TruncatedInput);
        }
        let op = frame.code[frame.ip];
        if op == ILOAD_0 || op == ILOAD_1 {
            let slot: usize = if op == ILOAD_0 {
                0
            } else {
                1
            };
            if slot >= frame.locals.len() {
                return Err(VmError::LocalIndexOutOfRange(slot as u8));
            }
            let v = frame.locals[slot];
            frame.stack.push(v);
        } else if op == IADD {
            let n = frame.stack.len();
            if n < 2 {
                return Err(VmError::StackUnderflow);
            }
            let ghost s0 = frame.stack@;
            let a = frame.stack.pop().unwrap();
            let b = frame.stack.pop().unwrap();
            frame.stack.push(b.wrapping_add(a));
            assert(frame.stack@ =~= s0.subrange(0, s0.len() - 2).push(b.wrapping_add(a)));
        } else if op == IRETURN {
            return match frame.stack.pop() {
                Some(v) => Ok(v),
                None => Err(VmError::StackUnderflow),
            };
        } else {
            return Err(VmError::UnsupportedOpcode(op));
        }
        frame.ip = frame.ip + 1;
    }
}

/// The name of the attribute that holds a method's instructions.
pub open spec fn code_attribute_name() -> Seq<char> {
    seq!['C', 'o', 'd', 'e']
}

/// The first method at or after `i` whose name is `name`.
pub open spec fn find_method(ms: Seq<FieldView>, name: Seq<char>, i: nat) -> Option<nat>
    decreases ms.len() - i,
{
    if i >= ms.len() {
        None
    } else if ms[i as int].name == name {
        Some(i)
    } else {
        find_method(ms, name, i + 1)
    }
}

/// The instructions of the first `Code` attribute at or after `i` that is
/// longer than its header, with the header taken off.
pub open spec fn find_code(attrs: Seq<AttributeView>, i: nat) -> Option<Seq<u8>>
    decreases attrs.len() - i,
{
    if i >= attrs.len() {
        None
    } else if attrs[i as int].name == code_attribute_name() && attrs[i as int].data.len()
        > CODE_HEADER_LEN {
        Some(attrs[i as int].data.skip(CODE_HEADER_LEN as int))
    } else {
        find_code(attrs, i + 1)
    }
}

/// The instructions of the first method of `c` named `name`, when it has
/// them.
pub open spec fn method_code(c: ClassView, name: Seq<char>) -> Option<Seq<u8>> {
    match find_method(c.methods, name, 0) {
        Some(i) => find_code(c.methods[i as int].attributes, 0),
        None => None,
    }
}

/// What invoking method `name` of the class in `d` with `args` gives.
pub open spec fn spec_invoke(d: Seq<u8>, name: Seq<char>, args: Seq<i32>) -> Result<i32, VmError> {
    match spec_class(d) {
        Ok(c) => match find_method(c.methods, name, 0) {
            Some(i) => match find_code(c.methods[i as int].attributes, 0) {
                Some(code) => run(code, args, 0, Seq::empty()).0,
                None => Err(VmError::CodeAttributeMissing),
            },
            None => Err(VmError::MethodNotFound),
        },
        Err(e) => Err(e),
    }
}

impl Field {
    /// The instructions of this method's first `Code` attribute that is
    /// longer than its header, without the header.
    pub fn code(&self) -> (r: Option<Vec<u8>>)
        ensures
            match find_code(self@.attributes, 0) {
                Some(code) => r is Some && r->0@ == code,
                None => r is None,
            },
    {
        let ghost attrs = self@.attributes;
        let code_name = String::from_str("Code");
        proof {
            reveal_strlit("Code");
            assert(code_name@ =~= code_attribute_name());
        }
        let mut j: usize = 0;
        while j < self.attributes.len()
            invariant
                attrs == self@.attributes,
                code_name@ == code_attribute_name(),
                j <= self.attributes.len(),
                find_code(attrs, 0) == find_code(attrs, j as nat),
            decreases self.attributes.len() - j,
        {
            let a: &Attribute = &self.attributes[j];
            if a.name == code_name && a.data.len() > CODE_HEADER_LEN {
                let body = slice_to_vec(
                    slice_subrange(a.data.as_slice(), CODE_HEADER_LEN, a.data.len()),
                );
                assert(body@ =~= a.data@.skip(CODE_HEADER_LEN as int));
                return Some(body);
            }
            j = j + 1;
        }
        None
    }
}

impl Class {
    /// The position of the first method named `name`.
    pub fn method_index(&self, name: &String) -> (r: Option<usize>)
        ensures
            match find_method(self@.methods, name@, 0) {
                Some(i) => r is Some && r->0 as nat == i && i < self.methods@.len(),
                None => r is None,
            },
    {
        let ghost ms = self@.methods;
        let mut i: usize = 0;
        while i < self.methods.len()
            invariant
                ms == self@.methods,
                i <= self.methods.len(),
                find_method(ms, name@, 0) == find_method(ms, name@, i as nat),
            decreases self.methods.len() - i,
        {
            if self.methods[i].name == *name {
                return Some(i);
            }
            i = i + 1;
        }
        None
    }

    /// A frame for the first method named `method`, its locals seeded with
    /// `args`; nothing when no method has that name or the first one that
    /// does has no instructions.
    pub fn frame(&self, method: String, args: Vec<i32>) -> (r: Option<Frame>)
        ensures
            match method_code(self@, method@) {
                Some(code) => r is Some && r->0.ip == 0 && r->0.code@ == code && r->0.locals@
                    == args@ && r->0.stack@ == Seq::<i32>::empty(),
                None => r is None,
            },
    {
        match self.method_index(&method) {
            Some(i) => {
                assert(self@.methods[i as int] == self.methods@[i as int]@);
                match self.methods[i].code() {
                    Some(code) => Some(Frame { ip: 0, code, locals: args, stack: Vec::new() }),
                    None => None,
                }
            },
            None => None,
        }
    }
}

/// Loads the class in `data`, and runs its method `method` with `args`.
pub fn invoke(data: Vec<u8>, method: String, args: Vec<i32>) -> (r: Result<i32, VmError>)
    ensures
        r == spec_invoke(data@, method@, args@),
{
    let class = match Class::new(data) {
        Ok(c) => c,
        Err(e) => return Err(e),
    };
    let i = match class.method_index(&method) {
        Some(i) => i,
        None => return Err(VmError::MethodNotFound),
    };
    assert(class@.methods[i as int] == class.methods@[i as int]@);
    let code = match class.methods[i].code() {
        Some(code) => code,
        None => return Err(VmError::CodeAttributeMissing),
    };
    let mut frame = Frame { ip: 0, code, locals: args, stack: Vec::new() };
    exec(&mut frame)
}

/// `iload_0, iload_1, iadd, ireturn` with locals `[l0, l1]` returns their
/// sum, wrapped to 32 bits; it is the plain sum whenever that fits.
pub proof fn law_add_program(l0: i32, l1: i32)
    ensures
        run(seq![ILOAD_0, ILOAD_1, IADD, IRETURN], seq![l0, l1], 0, Seq::empty()).0 == Ok::<
            i32,
            VmError,
        >(l0.wrapping_add(l1)),
        i32::MIN <= l0 + l1 <= i32::MAX ==> run(
            seq![ILOAD_0, ILOAD_1, IADD, IRETURN],
            seq![l0, l1],
            0,
            Seq::empty(),
        ).0 == Ok::<i32, VmError>((l0 + l1) as i32),
{
    let code = seq![ILOAD_0, ILOAD_1, IADD, IRETURN];
    let locals = seq![l0, l1];
    let s1 = Seq::<i32>::empty().push(l0);
    let s2 = s1.push(l1);
    let s3 = s2.subrange(0, 0).push(l0.wrapping_add(l1));
    assert(run(code, locals, 3, s3) == (Ok::<i32, VmError>(l0.wrapping_add(l1)), 3int, s3.drop_last()));
    assert(run(code, locals, 2, s2) == run(code, locals, 3, s3));
    assert(run(code, locals, 1, s1) == run(code, locals, 2, s2));
    assert(run(code, locals, 0, Seq::empty()) == run(code, locals, 1, s1));
}

/// `iadd` on a stack of fewer than two values fails with a stack underflow,
/// at that instruction and with the stack as it was.
pub proof fn law_iadd_underflow(code: Seq<u8>, locals: Seq<i32>, ip: int, stack: Seq<i32>)
    requires
        0 <= ip < code.len(),
        code[ip] == IADD,
        stack.len() < 2,
    ensures
        run(code, locals, ip, stack) == (Err::<i32, VmError>(VmError::StackUnderflow), ip, stack),
{
}

/// `ireturn` on an empty stack fails with a stack underflow.
pub proof fn law_ireturn_underflow(code: Seq<u8>, locals: Seq<i32>, ip: int)
    requires
        0 <= ip < code.len(),
        code[ip] == IRETURN,
    ensures
        run(code, locals, ip, Seq::empty()) == (
            Err::<i32, VmError>(VmError::StackUnderflow),
            ip,
            Seq::<i32>::empty(),
        ),
{
}

/// An opcode outside the supported four fails at once, with the stack as it
/// was, and no byte after it is ever read: the same run on the code cut just
/// after it ends alike.
pub proof fn law_unsupported_opcode_halts(code: Seq<u8>, locals: Seq<i32>, ip: int, stack: Seq<i32>)
    requires
        0 <= ip < code.len(),
        code[ip] != ILOAD_0,
        code[ip] != ILOAD_1,
        code[ip] != IADD,
        code[ip] != IRETURN,
    ensures
        run(code, locals, ip, stack) == (
            Err::<i32, VmError>(VmError::UnsupportedOpcode(code[ip])),
            ip,
            stack,
        ),
        run(code.subrange(0, ip + 1), locals, ip, stack) == run(code, locals, ip, stack),
{
}

proof fn lemma_find_method_absent(ms: Seq<FieldView>, name: Seq<char>, i: nat)
    requires
        forall|k: int| 0 <= k < ms.len() ==> ms[k].name != name,
    ensures
        find_method(ms, name, i) is None,
    decreases ms.len() - i,
{
    if i < ms.len() {
        lemma_find_method_absent(ms, name, i + 1);
    }
}

/// A class with no method of the given name yields no frame for it.
pub proof fn law_absent_method_has_no_frame(c: ClassView, name: Seq<char>)
    requires
        forall|k: int| 0 <= k < c.methods.len() ==> c.methods[k].name != name,
    ensures
        method_code(c, name) is None,
{
    lemma_find_method_absent(c.methods, name, 0);
}

} // verus!
