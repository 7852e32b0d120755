use identicon::Nibbler;

fn drain(bytes: &[u8]) -> Vec<u8> {
    let mut n = Nibbler::new(bytes);
    let mut out = Vec::new();
    while let Some(v) = n.next() {
        out.push(v);
    }
    out
}

#[test]
fn nibbles_of_one_byte() {
    let bytes = [0xA7u8];
    let mut n = Nibbler::new(&bytes);
    assert_eq!(n.next(), Some(0xA));
    assert_eq!(n.next(), Some(0x7));
    assert_eq!(n.next(), None);
}

#[test]
fn nibbles_of_two_bytes() {
    assert_eq!(drain(&[0x12, 0x34]), vec![0x1, 0x2, 0x3, 0x4]);
}

#[test]
fn nibbles_of_empty_input() {
    let mut n = Nibbler::new(&[]);
    assert_eq!(n.next(), None);
    assert_eq!(n.next(), None);
}

#[test]
fn nibbles_twice_the_length() {
    let bytes: Vec<u8> = (0u8..=255).collect();
    let out = drain(&bytes);
    assert_eq!(out.len(), 512);
    assert!(out.iter().all(|&v| v < 16));
    assert_eq!(&out[..6], &[0, 0, 0, 1, 0, 2]);
    assert_eq!(&out[510..], &[0xF, 0xF]);
}
