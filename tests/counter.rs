use gm_counter::codec::{CodecError, GreetingAccount};
use gm_counter::processor::{process_instruction, ProcessError, Pubkey, StorageSlot};

const ADA_5: [u8; 11] = [3, 0, 0, 0, b'A', b'd', b'a', 5, 0, 0, 0];

fn program() -> Pubkey {
    Pubkey::new([7u8; 32])
}

fn other() -> Pubkey {
    let mut bytes = [7u8; 32];
    bytes[31] = 8;
    Pubkey::new(bytes)
}

fn record(name: &str, counter: u32) -> Vec<u8> {
    GreetingAccount { name: name.to_string(), counter }.try_to_vec().unwrap()
}

fn decoded(data: &[u8]) -> (String, u32) {
    let a = GreetingAccount::try_from_slice(data).unwrap();
    (a.name, a.counter)
}

#[test]
fn encodes_name_prefix_and_counter_little_endian() {
    assert_eq!(record("Ada", 5), ADA_5.to_vec());
    assert_eq!(record("", 0x0403_0201), vec![0, 0, 0, 0, 1, 2, 3, 4]);
    assert_eq!(record("é", 1), vec![2, 0, 0, 0, 0xc3, 0xa9, 1, 0, 0, 0]);
}

#[test]
fn decodes_exact_encoding() {
    assert_eq!(decoded(&ADA_5), ("Ada".to_string(), 5));
    assert_eq!(decoded(&[0, 0, 0, 0, 0, 1, 0, 0]), (String::new(), 256));
}

#[test]
fn decode_rejects_malformed_bytes() {
    let cases: Vec<Vec<u8>> = vec![
        vec![],
        vec![3, 0, 0],
        ADA_5[..10].to_vec(),
        [&ADA_5[..], &[0u8][..]].concat(),
        vec![1, 0, 0, 0, 0xff, 0, 0, 0, 0],
        vec![0xff, 0xff, 0xff, 0xff, 0, 0, 0, 0],
        vec![0u8; 11],
    ];
    for c in cases {
        assert!(matches!(GreetingAccount::try_from_slice(&c), Err(CodecError::Malformed)));
    }
}

#[test]
fn codec_round_trip() {
    for (name, counter) in [("Ada", 5u32), ("", 0), ("Grace Hopper", u32::MAX), ("日本", 17)] {
        assert_eq!(decoded(&record(name, counter)), (name.to_string(), counter));
    }
}

#[test]
fn foreign_slot_is_refused_and_unchanged() {
    for data in [ADA_5.to_vec(), vec![0u8; 11], vec![]] {
        let mut slots = vec![StorageSlot { owner: other(), data: data.clone() }];
        let r = process_instruction(&program(), &mut slots, &record("Bob", 9));
        assert_eq!(r, Err(ProcessError::IncorrectOwner));
        assert_eq!(slots[0].data, data);
    }
}

#[test]
fn foreign_malformed_slot_reports_owner_not_encoding() {
    let mut slots = vec![StorageSlot { owner: other(), data: vec![9u8; 5] }];
    let r = process_instruction(&program(), &mut slots, &[1, 2, 3]);
    assert_eq!(r, Err(ProcessError::IncorrectOwner));
    assert_eq!(slots[0].data, vec![9u8; 5]);
}

#[test]
fn malformed_slot_is_initialised_from_input() {
    for input_counter in [0u32, 1, 42, u32::MAX] {
        let mut slots = vec![StorageSlot { owner: program(), data: vec![0u8; 11] }];
        let r = process_instruction(&program(), &mut slots, &record("Ada", input_counter));
        assert_eq!(r, Ok(()));
        assert_eq!(decoded(&slots[0].data), ("Ada".to_string(), 1));
    }
}

#[test]
fn init_writes_only_the_prefix_of_a_larger_buffer() {
    let mut slots = vec![StorageSlot { owner: program(), data: vec![0xeeu8; 14] }];
    let r = process_instruction(&program(), &mut slots, &record("Ada", 3));
    assert_eq!(r, Ok(()));
    let mut expected = record("Ada", 1);
    expected.extend_from_slice(&[0xee, 0xee, 0xee]);
    assert_eq!(slots[0].data, expected);
}

#[test]
fn stored_record_is_incremented() {
    let mut slots = vec![StorageSlot { owner: program(), data: ADA_5.to_vec() }];
    let r = process_instruction(&program(), &mut slots, &record("Bob", 100));
    assert_eq!(r, Ok(()));
    assert_eq!(decoded(&slots[0].data), ("Ada".to_string(), 6));
    let r = process_instruction(&program(), &mut slots, &[]);
    assert_eq!(r, Ok(()));
    assert_eq!(decoded(&slots[0].data), ("Ada".to_string(), 7));
}

#[test]
fn counter_wraps_at_maximum() {
    let mut slots = vec![StorageSlot { owner: program(), data: record("Ada", u32::MAX) }];
    assert_eq!(process_instruction(&program(), &mut slots, &[]), Ok(()));
    assert_eq!(decoded(&slots[0].data), ("Ada".to_string(), 0));
}

#[test]
fn undecodable_slot_and_input_fail() {
    let mut slots = vec![StorageSlot { owner: program(), data: vec![1u8; 11] }];
    let r = process_instruction(&program(), &mut slots, &[5, 0, 0, 0, b'x']);
    assert_eq!(r, Err(ProcessError::InvalidInputEncoding));
    assert_eq!(slots[0].data, vec![1u8; 11]);
}

#[test]
fn empty_slot_list_is_missing_account() {
    for input in [vec![], ADA_5.to_vec()] {
        let mut slots: Vec<StorageSlot> = Vec::new();
        let r = process_instruction(&program(), &mut slots, &input);
        assert_eq!(r, Err(ProcessError::MissingAccount));
        assert!(slots.is_empty());
    }
}

#[test]
fn short_buffer_is_refused_without_writing() {
    let mut slots = vec![StorageSlot { owner: program(), data: vec![0u8; 4] }];
    let r = process_instruction(&program(), &mut slots, &record("Ada", 0));
    assert_eq!(r, Err(ProcessError::BufferTooSmall));
    assert_eq!(slots[0].data, vec![0u8; 4]);
}

#[test]
fn only_the_first_slot_is_touched() {
    let mut slots = vec![
        StorageSlot { owner: program(), data: ADA_5.to_vec() },
        StorageSlot { owner: program(), data: ADA_5.to_vec() },
    ];
    assert_eq!(process_instruction(&program(), &mut slots, &[]), Ok(()));
    assert_eq!(decoded(&slots[0].data), ("Ada".to_string(), 6));
    assert_eq!(slots[1].data, ADA_5.to_vec());
}

#[test]
fn identifiers_compare_by_bytes() {
    assert!(program().same_as(&program()));
    assert!(!program().same_as(&other()));
}
