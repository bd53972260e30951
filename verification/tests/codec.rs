use borsh::{BorshDeserialize, BorshSerialize};
use notepad::instruction::NotePadInstruction;
use notepad::state::{GreetingInfo, NotePadAccountInfo};
use notepad::wire::{get_text, get_u32, put_text, put_u32, write_front};

fn note(title: &str, msg: &str, owner: &str) -> NotePadAccountInfo {
    NotePadAccountInfo { title: title.to_string(), msg: msg.to_string(), owner: owner.to_string() }
}

fn todo_bytes() -> Vec<u8> {
    let mut bytes = vec![4, 0, 0, 0];
    bytes.extend_from_slice(b"todo");
    bytes.extend_from_slice(&[8, 0, 0, 0]);
    bytes.extend_from_slice(b"buy milk");
    bytes.extend_from_slice(&[5, 0, 0, 0]);
    bytes.extend_from_slice(b"Alice");
    bytes
}

#[test]
fn u32_is_written_least_significant_byte_first() {
    let mut out = vec![9u8];
    put_u32(&mut out, 0x0403_0201);
    assert_eq!(out, vec![9, 1, 2, 3, 4]);
    let mut out = Vec::new();
    put_u32(&mut out, u32::MAX);
    assert_eq!(out, vec![255, 255, 255, 255]);
    let mut out = Vec::new();
    put_u32(&mut out, 1000);
    assert_eq!(out, vec![0xe8, 0x03, 0, 0]);
}

#[test]
fn u32_is_read_at_a_position() {
    let data = [7u8, 1, 2, 3, 4, 5];
    assert_eq!(get_u32(&data, 1), Some(0x0403_0201));
    assert_eq!(get_u32(&data, 2), Some(0x0504_0302));
    assert_eq!(get_u32(&data, 3), None);
    assert_eq!(get_u32(&data, 6), None);
    assert_eq!(get_u32(&[0, 0, 0, 128], 0), Some(0x8000_0000));
}

#[test]
fn u32_agrees_with_borsh() {
    for x in [0u32, 1, 255, 256, 65_535, 65_536, 16_777_216, 0xdead_beef, u32::MAX] {
        let mut out = Vec::new();
        put_u32(&mut out, x);
        assert_eq!(out, x.try_to_vec().unwrap());
        assert_eq!(get_u32(&out, 0), Some(u32::try_from_slice(&out).unwrap()));
    }
}

#[test]
fn text_is_length_then_utf8() {
    let mut out = Vec::new();
    put_text(&mut out, "todo");
    assert_eq!(out, vec![4, 0, 0, 0, b't', b'o', b'd', b'o']);
    let mut out = Vec::new();
    put_text(&mut out, "");
    assert_eq!(out, vec![0, 0, 0, 0]);
    let mut out = Vec::new();
    put_text(&mut out, "é€");
    assert_eq!(out, vec![5, 0, 0, 0, 0xc3, 0xa9, 0xe2, 0x82, 0xac]);
}

#[test]
fn text_is_read_with_the_position_behind_it() {
    let data = [0xffu8, 2, 0, 0, 0, b'h', b'i', 0xee];
    assert_eq!(get_text(&data, 1), Some(("hi".to_string(), 7)));
    assert_eq!(get_text(&[0, 0, 0, 0], 0), Some((String::new(), 4)));
    assert_eq!(get_text(&[5, 0, 0, 0, 0xc3, 0xa9, 0xe2, 0x82, 0xac], 0), Some(("é€".to_string(), 9)));
}

#[test]
fn text_cut_short_is_refused() {
    assert_eq!(get_text(&[], 0), None);
    assert_eq!(get_text(&[2, 0, 0], 0), None);
    assert_eq!(get_text(&[2, 0, 0, 0, b'h'], 0), None);
    assert_eq!(get_text(&[255, 255, 255, 255, b'h'], 0), None);
}

#[test]
fn text_that_is_not_utf8_is_refused() {
    assert_eq!(get_text(&[1, 0, 0, 0, 0xff], 0), None);
    assert_eq!(get_text(&[2, 0, 0, 0, 0xc3, 0x28], 0), None);
    assert_eq!(get_text(&[3, 0, 0, 0, 0xed, 0xa0, 0x80], 0), None);
    assert_eq!(get_text(&[2, 0, 0, 0, 0xc0, 0x80], 0), None);
    assert_eq!(get_text(&[1, 0, 0, 0, 0xc3, 0xa9], 0), None);
}

#[test]
fn write_front_keeps_the_tail_and_the_size() {
    let mut slot = vec![1u8, 2, 3, 4, 5];
    assert!(write_front(&mut slot, &[9, 8]));
    assert_eq!(slot, vec![9, 8, 3, 4, 5]);
    assert!(write_front(&mut slot, &[]));
    assert_eq!(slot, vec![9, 8, 3, 4, 5]);
    assert!(write_front(&mut slot, &[0, 0, 0, 0, 0]));
    assert_eq!(slot, vec![0; 5]);
}

#[test]
fn write_front_leaves_a_small_slot_alone() {
    let mut slot = vec![1u8, 2];
    assert!(!write_front(&mut slot, &[9, 8, 7]));
    assert_eq!(slot, vec![1, 2]);
}

#[test]
fn note_encoding_is_the_three_fields_in_order() {
    let bytes = note("todo", "buy milk", "Alice").try_to_vec().unwrap();
    assert_eq!(bytes, todo_bytes());
    assert_eq!(bytes.len(), 29);
    assert_eq!(note("todo", "buy milk", "Alice").packed_len(), Some(29));
    assert_eq!(note("", "", "").packed_len(), Some(12));
    assert_eq!(note("", "", "").try_to_vec().unwrap(), vec![0u8; 12]);
}

#[test]
fn note_round_trips() {
    for n in [
        note("todo", "buy milk", "Alice"),
        note("", "", ""),
        note("t", "", "o"),
        note("naïve", "日本語のメモ", "🦀"),
        note(&"x".repeat(300), &"y".repeat(300), &"z".repeat(388)),
    ] {
        let bytes = n.try_to_vec().unwrap();
        assert_eq!(Some(bytes.len()), n.packed_len());
        assert_eq!(NotePadAccountInfo::try_from_slice(&bytes), Some(n.clone()));
        assert_eq!(NotePadAccountInfo::try_from_slice_unchecked(&bytes), Some(n.clone()));
        assert_eq!(NotePadAccountInfo::deserialize(&bytes), Some((n, bytes.len())));
    }
}

#[test]
fn note_encoding_agrees_with_borsh() {
    for (t, m, o) in [("todo", "buy milk", "Alice"), ("", "", ""), ("naïve", "日本語", "🦀")] {
        let ours = note(t, m, o).try_to_vec().unwrap();
        let theirs = (t.to_string(), m.to_string(), o.to_string()).try_to_vec().unwrap();
        assert_eq!(ours, theirs);
        let back = <(String, String, String)>::try_from_slice(&ours).unwrap();
        assert_eq!(back, (t.to_string(), m.to_string(), o.to_string()));
    }
}

#[test]
fn note_decoding_agrees_with_borsh_on_malformed_bytes() {
    let good = todo_bytes();
    let mut cases: Vec<Vec<u8>> = Vec::new();
    for cut in 0..good.len() {
        cases.push(good[..cut].to_vec());
    }
    let mut longer = good.clone();
    longer.push(0);
    cases.push(longer);
    let mut bad_text = good.clone();
    bad_text[5] = 0xff;
    cases.push(bad_text);
    let mut long_prefix = good.clone();
    long_prefix[0] = 200;
    cases.push(long_prefix);
    for bytes in cases {
        let ours = NotePadAccountInfo::try_from_slice(&bytes);
        let theirs = <(String, String, String)>::try_from_slice(&bytes).ok();
        assert_eq!(ours.map(|n| (n.title, n.msg, n.owner)), theirs);
    }
}

#[test]
fn strict_note_decoding_refuses_trailing_bytes() {
    let mut bytes = todo_bytes();
    bytes.push(0);
    assert_eq!(NotePadAccountInfo::try_from_slice(&bytes), None);
}

#[test]
fn lenient_note_decoding_ignores_trailing_bytes() {
    let mut bytes = todo_bytes();
    bytes.extend_from_slice(&[0xff, 0xfe, 0xfd]);
    assert_eq!(
        NotePadAccountInfo::try_from_slice_unchecked(&bytes),
        Some(note("todo", "buy milk", "Alice"))
    );
    assert_eq!(NotePadAccountInfo::deserialize(&bytes), Some((note("todo", "buy milk", "Alice"), 29)));
}

#[test]
fn lenient_note_decoding_still_refuses_malformed_bytes() {
    let good = todo_bytes();
    for cut in 0..good.len() {
        assert_eq!(NotePadAccountInfo::try_from_slice_unchecked(&good[..cut]), None);
    }
    let mut bad = good.clone();
    bad[13] = 0x80;
    assert_eq!(NotePadAccountInfo::try_from_slice_unchecked(&bad), None);
}

#[test]
fn note_is_written_over_the_front_of_a_slot() {
    let mut slot = vec![0xaau8; 32];
    assert!(note("todo", "buy milk", "Alice").serialize(&mut slot));
    let mut expected = todo_bytes();
    expected.extend_from_slice(&[0xaa, 0xaa, 0xaa]);
    assert_eq!(slot, expected);
    let mut exact = vec![0u8; 29];
    assert!(note("todo", "buy milk", "Alice").serialize(&mut exact));
    assert_eq!(exact, todo_bytes());
}

#[test]
fn note_too_large_for_the_slot_is_not_written() {
    let mut slot = vec![0xaau8; 28];
    assert!(!note("todo", "buy milk", "Alice").serialize(&mut slot));
    assert_eq!(slot, vec![0xaau8; 28]);
    let mut empty: Vec<u8> = Vec::new();
    assert!(!note("", "", "").serialize(&mut empty));
    assert!(empty.is_empty());
}

#[test]
fn counter_record_is_four_bytes() {
    assert_eq!(GreetingInfo { counter: 10 }.try_to_vec(), vec![10, 0, 0, 0]);
    assert_eq!(GreetingInfo { counter: 0x0102_0304 }.try_to_vec(), vec![4, 3, 2, 1]);
    assert_eq!(GreetingInfo::try_from_slice(&[10, 0, 0, 0]), Some(GreetingInfo { counter: 10 }));
    assert_eq!(GreetingInfo::try_from_slice(&[4, 3, 2, 1]), Some(GreetingInfo { counter: 0x0102_0304 }));
}

#[test]
fn counter_record_of_another_size_is_refused() {
    assert_eq!(GreetingInfo::try_from_slice(&[]), None);
    assert_eq!(GreetingInfo::try_from_slice(&[1, 2, 3]), None);
    assert_eq!(GreetingInfo::try_from_slice(&[1, 2, 3, 4, 5]), None);
}

#[test]
fn counter_record_is_written_over_the_front_of_a_slot() {
    let mut slot = vec![9u8; 6];
    assert!(GreetingInfo { counter: 15 }.serialize(&mut slot));
    assert_eq!(slot, vec![15, 0, 0, 0, 9, 9]);
    let mut small = vec![9u8; 3];
    assert!(!GreetingInfo { counter: 15 }.serialize(&mut small));
    assert_eq!(small, vec![9u8; 3]);
}

#[test]
fn instruction_tags_are_0_1_2() {
    let greeting = NotePadInstruction::Greeting { counter: 5 };
    assert_eq!(greeting.try_to_vec().unwrap(), vec![0, 5, 0, 0, 0]);
    let create = NotePadInstruction::Create {
        title: "todo".to_string(),
        msg: "buy milk".to_string(),
        owner: "Alice".to_string(),
    };
    let mut expected = vec![1u8];
    expected.extend_from_slice(&todo_bytes());
    assert_eq!(create.try_to_vec().unwrap(), expected);
    let modify = NotePadInstruction::Modify {
        title: "todo".to_string(),
        msg: "buy milk".to_string(),
        owner: "Alice".to_string(),
    };
    expected[0] = 2;
    assert_eq!(modify.try_to_vec().unwrap(), expected);
}

#[test]
fn instruction_round_trips() {
    for i in [
        NotePadInstruction::Greeting { counter: 0 },
        NotePadInstruction::Greeting { counter: u32::MAX },
        NotePadInstruction::Create { title: "t".to_string(), msg: "m".to_string(), owner: "o".to_string() },
        NotePadInstruction::Modify { title: "é".to_string(), msg: String::new(), owner: "🦀".to_string() },
    ] {
        let bytes = i.try_to_vec().unwrap();
        assert_eq!(NotePadInstruction::try_from_slice(&bytes), Some(i));
    }
}

#[test]
fn instruction_with_unknown_tag_is_refused() {
    assert_eq!(NotePadInstruction::try_from_slice(&[3, 5, 0, 0, 0]), None);
    assert_eq!(NotePadInstruction::try_from_slice(&[255]), None);
    let mut bytes = vec![7u8];
    bytes.extend_from_slice(&todo_bytes());
    assert_eq!(NotePadInstruction::try_from_slice(&bytes), None);
}

#[test]
fn instruction_cut_short_or_overlong_is_refused() {
    assert_eq!(NotePadInstruction::try_from_slice(&[]), None);
    assert_eq!(NotePadInstruction::try_from_slice(&[0]), None);
    assert_eq!(NotePadInstruction::try_from_slice(&[0, 5, 0, 0]), None);
    assert_eq!(NotePadInstruction::try_from_slice(&[0, 5, 0, 0, 0, 0]), None);
    let mut bytes = vec![1u8];
    bytes.extend_from_slice(&todo_bytes());
    for cut in 0..bytes.len() {
        assert_eq!(NotePadInstruction::try_from_slice(&bytes[..cut]), None);
    }
    bytes.push(0);
    assert_eq!(NotePadInstruction::try_from_slice(&bytes), None);
}
