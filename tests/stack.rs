use chip8::error::C8Err;
use chip8::stack::Stack;

#[test]
fn sixteen_pushes_succeed_and_the_seventeenth_overflows() {
    let mut s = Stack::new();
    for a in 0..16u16 {
        assert_eq!(s.push(0x200 + a), Ok(()));
    }
    assert_eq!(s.len(), 16);
    assert_eq!(s.push(0x300), Err(C8Err::StackOverflow));
    assert_eq!(s.len(), 16);
    assert_eq!(s.pop(), Ok(0x20F));
}

#[test]
fn pop_on_empty_underflows() {
    let mut s = Stack::new();
    assert_eq!(s.pop(), Err(C8Err::StackUnderflow));
    assert_eq!(s.push(1), Ok(()));
    assert_eq!(s.pop(), Ok(1));
    assert_eq!(s.pop(), Err(C8Err::StackUnderflow));
}

#[test]
fn push_pop_is_lifo() {
    let mut s = Stack::new();
    s.push(0xA).unwrap();
    s.push(0xB).unwrap();
    assert_eq!(s.addresses(), vec![0xA, 0xB]);
    assert_eq!(s.pop(), Ok(0xB));
    assert_eq!(s.pop(), Ok(0xA));
    assert_eq!(s.len(), 0);
}
