use cuy::LinkerSection;

#[test]
fn boundaries_size_and_membership() {
    let section = LinkerSection::new(0x2000_0000, 0x2000_2000);
    assert_eq!(0x2000_0000, section.lower());
    assert_eq!(0x2000_2000, section.higher());
    assert_eq!(8 * 1024, section.size());
    assert!(section.contains(0x2000_0000));
    assert!(section.contains(0x2000_1FFF));
    assert!(!section.contains(0x2000_2000));
    assert!(!section.contains(0x1FFF_FFFF));
}

#[test]
fn empty_section_contains_nothing() {
    let section = LinkerSection::new(0x100, 0x100);
    assert_eq!(0, section.size());
    assert!(!section.contains(0x100));
    assert_ne!(section, LinkerSection::new(0x100, 0x200));
    assert_eq!(section, LinkerSection::new(0x100, 0x100));
}
