use classvm::{exec, invoke, Class, Const, ConstPool, Frame, Loader, VmError};

fn u2(out: &mut Vec<u8>, v: u16) {
    out.extend_from_slice(&v.to_be_bytes());
}

fn utf8(out: &mut Vec<u8>, s: &str) {
    out.push(1);
    u2(out, s.len() as u16);
    out.extend_from_slice(s.as_bytes());
}

fn class_ref(out: &mut Vec<u8>, name_index: u16) {
    out.push(7);
    u2(out, name_index);
}

/// A class `Add` with one method `add` whose `Code` payload is the 8-byte
/// header followed by `code`.
fn add_class(code: &[u8]) -> Vec<u8> {
    let mut b = vec![0xCA, 0xFE, 0xBA, 0xBE, 0, 0, 0, 52];
    u2(&mut b, 8);
    utf8(&mut b, "Add");
    class_ref(&mut b, 1);
    utf8(&mut b, "java/lang/Object");
    class_ref(&mut b, 3);
    utf8(&mut b, "add");
    utf8(&mut b, "(II)I");
    utf8(&mut b, "Code");
    u2(&mut b, 0x0021);
    u2(&mut b, 2);
    u2(&mut b, 4);
    u2(&mut b, 0);
    u2(&mut b, 0);
    u2(&mut b, 1);
    u2(&mut b, 0x0009);
    u2(&mut b, 5);
    u2(&mut b, 6);
    u2(&mut b, 1);
    u2(&mut b, 7);
    b.extend_from_slice(&((8 + code.len()) as u32).to_be_bytes());
    b.extend_from_slice(&[0, 2, 0, 2, 0, 0, 0, code.len() as u8]);
    b.extend_from_slice(code);
    u2(&mut b, 0);
    b
}

const ADD_CODE: [u8; 4] = [0x1A, 0x1B, 0x60, 0xAC];

fn frame_of(code: &[u8], locals: Vec<i32>) -> Frame {
    Frame { ip: 0, code: code.to_vec(), locals, stack: Vec::new() }
}

#[test]
fn add_method_returns_sum() {
    let class = Class::new(add_class(&ADD_CODE)).unwrap();
    let mut frame = class.frame("add".into(), vec![2, 3]).unwrap();
    assert_eq!(frame.code, ADD_CODE.to_vec());
    assert_eq!(exec(&mut frame), Ok(5));
}

#[test]
fn add_method_with_negative_argument() {
    let class = Class::new(add_class(&ADD_CODE)).unwrap();
    let mut frame = class.frame("add".into(), vec![-7, 10]).unwrap();
    assert_eq!(exec(&mut frame), Ok(3));
}

#[test]
fn invoke_end_to_end() {
    assert_eq!(invoke(add_class(&ADD_CODE), "add".into(), vec![2, 3]), Ok(5));
    assert_eq!(invoke(add_class(&ADD_CODE), "add".into(), vec![-7, 10]), Ok(3));
}

#[test]
fn add_program_wraps_on_overflow() {
    let mut frame = frame_of(&ADD_CODE, vec![i32::MAX, 1]);
    assert_eq!(exec(&mut frame), Ok(i32::MIN));
    let mut frame = frame_of(&ADD_CODE, vec![-5, -6]);
    assert_eq!(exec(&mut frame), Ok(-11));
}

#[test]
fn class_structure_is_loaded() {
    let class = Class::new(add_class(&ADD_CODE)).unwrap();
    assert_eq!(class.const_pool.entries.len(), 7);
    assert_eq!(class.flags, 0x0021);
    assert_eq!(class.name, "Add");
    assert_eq!(class.super_, "java/lang/Object");
    assert!(class.interfaces.is_empty());
    assert!(class.fields.is_empty());
    assert_eq!(class.methods.len(), 1);
    assert_eq!(class.methods[0].flags, 0x0009);
    assert_eq!(class.methods[0].name, "add");
    assert_eq!(class.methods[0].descriptor, "(II)I");
    assert_eq!(class.methods[0].attributes[0].name, "Code");
    assert_eq!(class.methods[0].attributes[0].data.len(), 12);
    assert!(class.attributes.is_empty());
}

#[test]
fn resolve_text_entry_only() {
    let pool = ConstPool {
        entries: vec![Const::Utf8("add".to_string()), Const::ClassRef(1), Const::NameAndType(1, 1)],
    };
    assert_eq!(pool.resolve(1), Some("add".to_string()));
    assert_eq!(pool.resolve(2), None);
    assert_eq!(pool.resolve(3), None);
    assert_eq!(pool.resolve(0), None);
    assert_eq!(pool.resolve(4), None);
}

#[test]
fn class_name_follows_class_reference() {
    let pool = ConstPool {
        entries: vec![Const::Utf8("Add".to_string()), Const::ClassRef(1), Const::StringRef(1)],
    };
    assert_eq!(pool.class_name(2), Some("Add".to_string()));
    assert_eq!(pool.class_name(1), Some("Add".to_string()));
    assert_eq!(pool.class_name(3), None);
    assert_eq!(pool.class_name(9), None);
}

#[test]
fn pool_count_gives_one_less_entries() {
    let mut b = Vec::new();
    u2(&mut b, 4);
    utf8(&mut b, "x");
    class_ref(&mut b, 1);
    b.extend_from_slice(&[12, 0, 1, 0, 2]);
    let mut loader = Loader::new(b);
    let pool = loader.cpinfo().unwrap();
    assert_eq!(pool.entries.len(), 3);
    assert_eq!(pool.entries[2], Const::NameAndType(1, 2));
    assert_eq!(loader.pos, 14);
}

#[test]
fn pool_count_one_is_empty() {
    let mut loader = Loader::new(vec![0, 1]);
    let pool = loader.cpinfo().unwrap();
    assert!(pool.entries.is_empty());
    assert_eq!(loader.pos, 2);
}

#[test]
fn pool_truncated_entry_fails() {
    let mut loader = Loader::new(vec![0, 3, 7, 0, 1, 7]);
    assert_eq!(loader.cpinfo().unwrap_err(), VmError::TruncatedInput);
}

#[test]
fn constant_kinds_read_their_fields() {
    let mut loader = Loader::new(vec![0, 5, 0, 6, 0, 7, 0, 8, 0, 9]);
    assert_eq!(Const::new(7, &mut loader), Ok(Const::ClassRef(5)));
    assert_eq!(Const::new(8, &mut loader), Ok(Const::StringRef(6)));
    assert_eq!(Const::new(9, &mut loader), Ok(Const::RefInfo(7, 8)));
    assert_eq!(loader.pos, 8);
    let mut loader = Loader::new(vec![0, 1, 0, 2, 0, 3, 0, 4]);
    assert_eq!(Const::new(10, &mut loader), Ok(Const::RefInfo(1, 2)));
    assert_eq!(Const::new(12, &mut loader), Ok(Const::NameAndType(3, 4)));
}

#[test]
fn unsupported_tag_is_recorded_and_reads_nothing() {
    let mut loader = Loader::new(vec![0, 1]);
    assert_eq!(Const::new(3, &mut loader), Ok(Const::Unsupported(3)));
    assert_eq!(loader.pos, 0);
    let mut b = Vec::new();
    u2(&mut b, 3);
    b.push(4);
    utf8(&mut b, "y");
    let mut loader = Loader::new(b);
    let pool = loader.cpinfo().unwrap();
    assert_eq!(pool.entries, vec![Const::Unsupported(4), Const::Utf8("y".to_string())]);
}

#[test]
fn malformed_text_is_rejected() {
    let mut loader = Loader::new(vec![0, 2, 0xC3, 0x28]);
    assert_eq!(Const::new(1, &mut loader), Err(VmError::MalformedText));
    let mut loader = Loader::new(vec![0, 2, 0xC3, 0xA9]);
    assert_eq!(Const::new(1, &mut loader), Ok(Const::Utf8("é".to_string())));
}

#[test]
fn reader_reads_big_endian() {
    let mut loader = Loader::new(vec![
        0x01, 0x12, 0x34, 0xDE, 0xAD, 0xBE, 0xEF, 1, 2, 3, 4, 5, 6, 7, 8, 9, 10,
    ]);
    assert_eq!(loader.u1(), Ok(0x01));
    assert_eq!(loader.u2(), Ok(0x1234));
    assert_eq!(loader.u4(), Ok(0xDEADBEEF));
    assert_eq!(loader.u8(), Ok(0x0102030405060708));
    assert_eq!(loader.bytes(2), Ok(vec![9, 10]));
    assert_eq!(loader.pos, 17);
    assert_eq!(loader.u1(), Err(VmError::TruncatedInput));
}

#[test]
fn reader_fails_when_short() {
    let mut loader = Loader::new(vec![1, 2, 3]);
    assert_eq!(loader.u4(), Err(VmError::TruncatedInput));
    assert_eq!(loader.u8(), Err(VmError::TruncatedInput));
    assert_eq!(loader.bytes(4), Err(VmError::TruncatedInput));
    assert_eq!(loader.pos, 0);
    assert_eq!(loader.bytes(3), Ok(vec![1, 2, 3]));
    assert_eq!(loader.u2(), Err(VmError::TruncatedInput));
    assert_eq!(loader.bytes(0), Ok(vec![]));
}

#[test]
fn interfaces_drop_unresolved_names() {
    let pool = ConstPool {
        entries: vec![Const::Utf8("I".to_string()), Const::ClassRef(1), Const::Utf8("J".to_string())],
    };
    let mut loader = Loader::new(vec![0, 4, 0, 1, 0, 2, 0, 3, 0, 9]);
    let names = loader.interfaces(&pool).unwrap();
    assert_eq!(names, vec!["I".to_string(), "J".to_string()]);
}

#[test]
fn fields_and_attributes_resolve_or_default_to_empty() {
    let pool = ConstPool { entries: vec![Const::Utf8("f".to_string()), Const::Utf8("I".to_string())] };
    let mut loader = Loader::new(vec![
        0, 1, 0, 2, 0, 1, 0, 2, 0, 1, 0, 9, 0, 0, 0, 2, 0xAA, 0xBB,
    ]);
    let fields = loader.fields(&pool).unwrap();
    assert_eq!(fields.len(), 1);
    assert_eq!(fields[0].flags, 2);
    assert_eq!(fields[0].name, "f");
    assert_eq!(fields[0].descriptor, "I");
    assert_eq!(fields[0].attributes.len(), 1);
    assert_eq!(fields[0].attributes[0].name, "");
    assert_eq!(fields[0].attributes[0].data, vec![0xAA, 0xBB]);
    let mut loader = Loader::new(vec![0, 1, 0, 1, 0, 0, 0, 5, 1]);
    assert_eq!(loader.attrs(&pool).unwrap_err(), VmError::TruncatedInput);
}

#[test]
fn wrong_magic_is_rejected() {
    let mut b = add_class(&ADD_CODE);
    b[0] = 0xCB;
    assert_eq!(Class::new(b).unwrap_err(), VmError::MagicMismatch);
    assert_eq!(Class::new(vec![0xCA, 0xFE]).unwrap_err(), VmError::TruncatedInput);
}

#[test]
fn truncated_class_is_rejected() {
    let b = add_class(&ADD_CODE);
    assert_eq!(Class::new(b[..b.len() - 1].to_vec()).unwrap_err(), VmError::TruncatedInput);
}

#[test]
fn missing_method_has_no_frame() {
    let class = Class::new(add_class(&ADD_CODE)).unwrap();
    assert!(class.frame("sub".into(), vec![1, 2]).is_none());
    assert_eq!(class.method_index(&"add".to_string()), Some(0));
    assert_eq!(class.method_index(&"sub".to_string()), None);
    assert_eq!(invoke(add_class(&ADD_CODE), "sub".into(), vec![1, 2]), Err(VmError::MethodNotFound));
}

#[test]
fn short_code_attribute_gives_no_frame() {
    let class = Class::new(add_class(&[])).unwrap();
    assert!(class.frame("add".into(), vec![1, 2]).is_none());
    assert_eq!(invoke(add_class(&[]), "add".into(), vec![1, 2]), Err(VmError::CodeAttributeMissing));
}

#[test]
fn iadd_underflow() {
    let mut frame = frame_of(&[0x1A, 0x60, 0xAC], vec![4]);
    assert_eq!(exec(&mut frame), Err(VmError::StackUnderflow));
    assert_eq!(frame.ip, 1);
    assert_eq!(frame.stack, vec![4]);
}

#[test]
fn ireturn_underflow() {
    let mut frame = frame_of(&[0xAC], vec![]);
    assert_eq!(exec(&mut frame), Err(VmError::StackUnderflow));
}

#[test]
fn unsupported_opcode_halts() {
    let mut frame = frame_of(&[0x1A, 0x10, 0xAC], vec![8]);
    assert_eq!(exec(&mut frame), Err(VmError::UnsupportedOpcode(0x10)));
    assert_eq!(frame.ip, 1);
    assert_eq!(frame.stack, vec![8]);
    assert_eq!(invoke(add_class(&[0x00, 0xAC]), "add".into(), vec![]), Err(VmError::UnsupportedOpcode(0)));
}

#[test]
fn missing_local_is_an_error() {
    let mut frame = frame_of(&ADD_CODE, vec![1]);
    assert_eq!(exec(&mut frame), Err(VmError::LocalIndexOutOfRange(1)));
    let mut frame = frame_of(&ADD_CODE, vec![]);
    assert_eq!(exec(&mut frame), Err(VmError::LocalIndexOutOfRange(0)));
}

#[test]
fn running_past_the_code_is_an_error() {
    let mut frame = frame_of(&[0x1A], vec![1]);
    assert_eq!(exec(&mut frame), Err(VmError::TruncatedInput));
    assert_eq!(frame.stack, vec![1]);
}

#[test]
fn ireturn_takes_the_top_value() {
    let mut frame = frame_of(&[0x1A, 0x1B, 0xAC], vec![1, 2]);
    assert_eq!(exec(&mut frame), Ok(2));
    assert_eq!(frame.stack, vec![1]);
    assert_eq!(frame.ip, 2);
}
