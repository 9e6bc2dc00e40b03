use numpty::keys::{parse_key, seqs_to_bytes, Base, InputSeq, Key, KeyError, Mods};

fn enc(specs: &[&str], app: bool) -> Result<Vec<u8>, KeyError> {
    let seqs: Vec<InputSeq> = specs.iter().map(|s| parse_key(s.to_string())).collect();
    seqs_to_bytes(&seqs, app)
}

#[test]
fn plain_text_is_passed_through() {
    let seqs = vec![
        InputSeq::Standard("echo hi".to_string()),
        InputSeq::Standard(" é€😀".to_string()),
    ];
    let expected = "echo hi é€😀".as_bytes().to_vec();
    assert_eq!(seqs_to_bytes(&seqs, true).unwrap(), expected);
    assert_eq!(seqs_to_bytes(&seqs, false).unwrap(), expected);
}

#[test]
fn empty_batch_gives_no_bytes() {
    assert_eq!(seqs_to_bytes(&Vec::new(), true).unwrap(), Vec::<u8>::new());
}

#[test]
fn unknown_names_are_literal_text() {
    assert!(matches!(parse_key("hello".to_string()), InputSeq::Standard(ref s) if s == "hello"));
    assert!(matches!(parse_key("C-".to_string()), InputSeq::Standard(ref s) if s == "C-"));
    assert!(matches!(parse_key("^Left".to_string()), InputSeq::Standard(ref s) if s == "^Left"));
    assert!(matches!(parse_key("C-hello".to_string()), InputSeq::Standard(ref s) if s == "C-hello"));
    assert_eq!(enc(&["hello"], true).unwrap(), b"hello".to_vec());
}

#[test]
fn parses_modifiers_and_names() {
    match parse_key("C-S-Left".to_string()) {
        InputSeq::Special { base, mods } => {
            assert_eq!(base, Base::Named(Key::Left));
            assert_eq!(mods, Mods { ctrl: true, shift: true, alt: false });
        }
        _ => panic!("expected a key"),
    }
    match parse_key("^c".to_string()) {
        InputSeq::Special { base, mods } => {
            assert_eq!(base, Base::Char('c'));
            assert_eq!(mods, Mods { ctrl: true, shift: false, alt: false });
        }
        _ => panic!("expected a key"),
    }
    match parse_key("F12".to_string()) {
        InputSeq::Special { base, mods } => {
            assert_eq!(base, Base::Named(Key::F12));
            assert_eq!(mods, Mods { ctrl: false, shift: false, alt: false });
        }
        _ => panic!("expected a key"),
    }
}

#[test]
fn named_keys_encode_as_xterm() {
    assert_eq!(enc(&["Enter"], true).unwrap(), b"\r".to_vec());
    assert_eq!(enc(&["Space"], true).unwrap(), b" ".to_vec());
    assert_eq!(enc(&["Escape"], true).unwrap(), b"\x1b".to_vec());
    assert_eq!(enc(&["Tab"], true).unwrap(), b"\t".to_vec());
    assert_eq!(enc(&["PageUp"], true).unwrap(), b"\x1b[5~".to_vec());
    assert_eq!(enc(&["PageDown"], false).unwrap(), b"\x1b[6~".to_vec());
    assert_eq!(enc(&["F1"], false).unwrap(), b"\x1bOP".to_vec());
    assert_eq!(enc(&["F4"], true).unwrap(), b"\x1bOS".to_vec());
    assert_eq!(enc(&["F5"], true).unwrap(), b"\x1b[15~".to_vec());
    assert_eq!(enc(&["F12"], true).unwrap(), b"\x1b[24~".to_vec());
}

#[test]
fn cursor_keys_follow_the_cursor_mode() {
    assert_eq!(enc(&["Up"], false).unwrap(), b"\x1b[A".to_vec());
    assert_eq!(enc(&["Up"], true).unwrap(), b"\x1bOA".to_vec());
    assert_eq!(enc(&["Left"], false).unwrap(), b"\x1b[D".to_vec());
    assert_eq!(enc(&["Left"], true).unwrap(), b"\x1bOD".to_vec());
    assert_eq!(enc(&["Home"], true).unwrap(), b"\x1bOH".to_vec());
    assert_eq!(enc(&["End"], false).unwrap(), b"\x1b[F".to_vec());
}

#[test]
fn modifier_combinations_on_arrows() {
    let left = enc(&["Left"], true).unwrap();
    let c_left = enc(&["C-Left"], true).unwrap();
    let cs_left = enc(&["C-S-Left"], true).unwrap();
    assert_eq!(c_left, b"\x1b[1;5D".to_vec());
    assert_eq!(cs_left, b"\x1b[1;6D".to_vec());
    assert_ne!(cs_left, left);
    assert_ne!(cs_left, c_left);
    assert_eq!(enc(&["C-S-Left"], false).unwrap(), cs_left);
    assert_eq!(enc(&["S-A-Up"], true).unwrap(), b"\x1b[1;4A".to_vec());
    assert_eq!(enc(&["A-Home"], true).unwrap(), b"\x1b[1;3H".to_vec());
    assert_eq!(enc(&["S-F6"], true).unwrap(), b"\x1b[17;2~".to_vec());
    assert_eq!(enc(&["C-F1"], true).unwrap(), b"\x1b[1;5P".to_vec());
}

#[test]
fn control_and_alt_on_characters() {
    assert_eq!(enc(&["^c"], true).unwrap(), vec![3u8]);
    assert_eq!(enc(&["C-c"], true).unwrap(), vec![3u8]);
    assert_eq!(enc(&["C-C"], true).unwrap(), vec![3u8]);
    assert_eq!(enc(&["^["], true).unwrap(), vec![0x1bu8]);
    assert_eq!(enc(&["C-["], true).unwrap(), vec![0x1bu8]);
    assert_eq!(enc(&["A-x"], true).unwrap(), b"\x1bx".to_vec());
    assert_eq!(enc(&["A-é"], true).unwrap(), "\x1bé".as_bytes().to_vec());
    assert_eq!(enc(&["A-C-a"], true).unwrap(), vec![0x1bu8, 1u8]);
    assert_eq!(enc(&["C-Space"], true).unwrap(), vec![0u8]);
    assert_eq!(enc(&["S-Tab"], true).unwrap(), b"\x1b[Z".to_vec());
    assert_eq!(enc(&["A-Enter"], true).unwrap(), b"\x1b\r".to_vec());
}

#[test]
fn unsupported_combinations_are_refused() {
    assert_eq!(enc(&["a", "S-a"], true), Err(KeyError { index: 1 }));
    assert_eq!(enc(&["C-1"], true), Err(KeyError { index: 0 }));
    assert_eq!(enc(&["^1"], true), Err(KeyError { index: 0 }));
    assert_eq!(enc(&["C-Enter", "x"], true), Err(KeyError { index: 0 }));
    assert_eq!(enc(&["S-Space"], true), Err(KeyError { index: 0 }));
}

#[test]
fn batch_is_concatenated_in_order() {
    assert_eq!(
        enc(&["ls", "Enter", "^d"], true).unwrap(),
        vec![b'l', b's', b'\r', 4u8]
    );
}
