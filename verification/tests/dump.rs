use freemdu_gateway::dump::{
    eeprom_addresses, eeprom_progress, eeprom_word, memory_addresses, memory_progress,
    OffsetTooLarge,
};

#[test]
fn memory_from_the_start() {
    let addrs = memory_addresses(0).unwrap();
    let expected: Vec<u32> = (0..=0xffff).step_by(0x80).collect();
    assert_eq!(addrs, expected);
    assert_eq!(addrs.len(), 512);
}

#[test]
fn memory_is_resumed() {
    let all = memory_addresses(0).unwrap();
    assert_eq!(memory_addresses(100 * 0x80).unwrap(), all[100..]);
    let odd: Vec<u32> = (0xff01..=0xffff).step_by(0x80).collect();
    assert_eq!(memory_addresses(0xff01).unwrap(), odd);
    assert_eq!(memory_addresses(0xffff).unwrap(), vec![0xffff]);
    assert!(memory_addresses(0x1_0000).unwrap().is_empty());
    assert!(memory_addresses(u32::MAX as u64).unwrap().is_empty());
    assert_eq!(memory_addresses(u32::MAX as u64 + 1), Err(OffsetTooLarge));
}

#[test]
fn eeprom_is_resumed() {
    let expected: Vec<u16> = (0..=0x07ff).step_by(0x80).collect();
    assert_eq!(eeprom_addresses(0).unwrap(), expected);
    assert_eq!(eeprom_addresses(0x780).unwrap(), vec![0x780]);
    assert!(eeprom_addresses(0x800).unwrap().is_empty());
    assert!(eeprom_addresses(0xffff).unwrap().is_empty());
    assert_eq!(eeprom_addresses(0x1_0000), Err(OffsetTooLarge));
}

#[test]
fn eeprom_is_addressed_by_words() {
    assert_eq!(eeprom_word(0x0780), 0x03c0);
    assert_eq!(eeprom_word(1), 0);
}

#[test]
fn progress_lines() {
    assert_eq!(memory_progress(0xff80), "Reading memory address 0000ff80");
    assert_eq!(memory_progress(0xdead_beef), "Reading memory address deadbeef");
    assert_eq!(eeprom_progress(0), "Reading EEPROM address 0000");
    assert_eq!(eeprom_progress(0x7a0), "Reading EEPROM address 07a0");
}
