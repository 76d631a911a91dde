//! Marshaling, error normalization and the template descriptor, on their
//! own.

use lxc::marshal::{
    buffer_for, decode, decode_pointer, encode, marshal_arguments, strip_terminator, TERMINATOR,
};
use lxc::{Call, Container, Error, Step, Template};

#[test]
fn encode_appends_one_terminator() {
    assert_eq!(TERMINATOR, 0);
    assert_eq!(encode("fromage").unwrap().as_bytes(), b"fromage\0");
    assert_eq!(encode("").unwrap().as_bytes(), b"\0");
    assert_eq!(encode("日本").unwrap().as_bytes(), &[0xe6, 0x97, 0xa5, 0xe6, 0x9c, 0xac, 0]);
    let copy = encode("tamer").unwrap().duplicate();
    assert_eq!(copy.as_bytes(), b"tamer\0");
}

#[test]
fn encode_rejects_an_embedded_terminator() {
    assert!(encode("\0").is_none());
    assert!(encode("a\0b").is_none());
    assert!(encode("ab\0").is_none());
    assert!(encode("\0ab").is_none());
}

#[test]
fn decode_accepts_valid_text_only() {
    assert_eq!(decode(b"calice".to_vec()), Some("calice".to_string()));
    assert_eq!(decode(Vec::new()), Some(String::new()));
    assert_eq!(decode(vec![0xe6, 0x97, 0xa5]), Some("日".to_string()));
    assert_eq!(decode(b"a\0b".to_vec()), Some("a\0b".to_string()));
    assert_eq!(decode(vec![0xe6, 0x97]), None);
    assert_eq!(decode(vec![0xff]), None);
    assert_eq!(decode(vec![0xc0, 0x80]), None);
    assert_eq!(decode(vec![0xed, 0xa0, 0x80]), None);
}

#[test]
fn decode_pointer_takes_null_for_a_failure() {
    assert_eq!(decode_pointer(None), None);
    assert_eq!(decode_pointer(Some(b"RUNNING".to_vec())), Some("RUNNING".to_string()));
    assert_eq!(decode_pointer(Some(vec![0x80])), None);
}

#[test]
fn text_survives_the_boundary() {
    for text in ["", "tamer", "lxc.utsname", "größe", "日本語", "a b\tc\n"] {
        let sent = encode(text).unwrap().as_bytes().to_vec();
        assert_eq!(decode(strip_terminator(sent)), Some(text.to_string()));
    }
}

#[test]
fn strip_terminator_takes_one_byte_off() {
    assert_eq!(strip_terminator(b"tamer\0".to_vec()), b"tamer".to_vec());
    assert_eq!(strip_terminator(b"ab\0\0".to_vec()), b"ab\0".to_vec());
    assert_eq!(strip_terminator(vec![7]), Vec::<u8>::new());
    assert_eq!(strip_terminator(Vec::new()), Vec::<u8>::new());
}

#[test]
fn buffer_for_reserves_the_terminator() {
    assert_eq!(buffer_for(1), Some(vec![0u8; 2]));
    assert_eq!(buffer_for(5), Some(vec![0u8; 6]));
    assert_eq!(buffer_for(0), Some(vec![0u8; 1]));
    assert_eq!(buffer_for(-1), None);
    assert_eq!(buffer_for(i32::MIN), None);
    assert_eq!(buffer_for(i32::MAX), None);
}

#[test]
fn arguments_end_with_the_sentinel() {
    let array = marshal_arguments(&vec!["-d".to_string(), "alpine".to_string()]).unwrap();
    assert_eq!(array.len(), 3);
    assert_eq!(array[0].as_ref().unwrap().as_bytes(), b"-d\0");
    assert_eq!(array[1].as_ref().unwrap().as_bytes(), b"alpine\0");
    assert!(array[2].is_none());

    let array = marshal_arguments(&Vec::new()).unwrap();
    assert_eq!(array.len(), 1);
    assert!(array[0].is_none());

    assert!(marshal_arguments(&vec!["-d".to_string(), "al\0pine".to_string()]).is_none());
}

#[test]
fn raw_codes_are_normalized() {
    assert_eq!(Error::from_flag(true), Ok(()));
    assert_eq!(Error::from_flag(false), Err(Error::Unknown));
    assert_eq!(Error::from_code(0), Ok(0));
    assert_eq!(Error::from_code(17), Ok(17));
    assert_eq!(Error::from_code(i32::MAX), Ok(2147483647));
    assert_eq!(Error::from_code(-1), Err(Error::Unknown));
    assert_eq!(Error::from_code(i32::MIN), Err(Error::Unknown));
    assert_eq!(Error::from_address(0), Err(Error::Unknown));
    assert_eq!(Error::from_address(4096), Ok(4096));
    assert_ne!(Error::ContainerDoesNotExists, Error::ContainerAlreadyExists);
}

fn created_with(template: Template) -> (Vec<u8>, Vec<Option<Vec<u8>>>) {
    let step = Container::create("/var/lib/lxc", "x", template);
    let raw = lxc::RawContainer { address: 16, name: Some(b"x".to_vec()) };
    match step.resume(lxc::Reply::Handle(raw)).resume(lxc::Reply::Flag(false)) {
        Step::Call(Call::Create { handle, template, quiet, arguments }, _) => {
            assert_eq!(handle, 16);
            assert!(quiet);
            let arguments =
                arguments.iter().map(|a| a.as_ref().map(|c| c.as_bytes().to_vec())).collect();
            (template.as_bytes().to_vec(), arguments)
        }
        _ => panic!("the creation call comes third"),
    }
}

#[test]
fn template_keeps_its_arguments_in_order() {
    let (name, arguments) = created_with(Template::new("debian"));
    assert_eq!(name, b"debian\0".to_vec());
    assert_eq!(arguments, vec![None]);

    let template = Template::new(String::from("download").as_str())
        .option("-d", "alpine")
        .flag("--no-validate")
        .option("-r", "3.6");
    let (name, arguments) = created_with(template);
    assert_eq!(name, b"download\0".to_vec());
    assert_eq!(
        arguments,
        vec![
            Some(b"-d\0".to_vec()),
            Some(b"alpine\0".to_vec()),
            Some(b"--no-validate\0".to_vec()),
            Some(b"-r\0".to_vec()),
            Some(b"3.6\0".to_vec()),
            None,
        ]
    );
}

#[test]
fn template_comes_apart_as_it_was_built() {
    let (name, options) = Template::new("busybox").option("-a", "amd64").into_parts();
    assert_eq!(name, "busybox");
    assert_eq!(options, vec!["-a".to_string(), "amd64".to_string()]);
}
