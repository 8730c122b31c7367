use sysjack::common::{SockaddrUn, SUN_PATH_LEN};

#[test]
fn a_short_path_is_followed_by_zeros() {
    let addr = SockaddrUn::new(1, b"/tmp/portalsock".to_vec());
    assert_eq!(addr.sun_family(), 1);
    let path = addr.sun_path();
    assert_eq!(path.len(), SUN_PATH_LEN);
    let text: Vec<i8> = b"/tmp/portalsock".iter().map(|b| *b as i8).collect();
    assert_eq!(&path[..15], &text[..]);
    assert!(path[15..].iter().all(|b| *b == 0));
}

#[test]
fn an_empty_path_is_all_zeros() {
    let addr = SockaddrUn::new(2, Vec::new());
    assert_eq!(addr.sun_family(), 2);
    assert_eq!(addr.sun_path(), [0i8; 108]);
}

#[test]
fn a_path_of_107_bytes_fits() {
    let addr = SockaddrUn::new(1, vec![b'a'; 107]);
    let path = addr.sun_path();
    assert!(path[..107].iter().all(|b| *b == b'a' as i8));
    assert_eq!(path[107], 0);
}

#[test]
fn a_longer_path_is_cut_to_107_bytes() {
    let addr = SockaddrUn::new(1, vec![b'b'; 200]);
    let path = addr.sun_path();
    assert!(path[..107].iter().all(|b| *b == b'b' as i8));
    assert_eq!(path[107], 0);
    let exact = SockaddrUn::new(1, vec![b'b'; 108]);
    assert_eq!(exact, addr);
}

#[test]
fn bytes_above_127_become_negative() {
    let addr = SockaddrUn::new(1, vec![0x80, 0xff, 0x7f]);
    let path = addr.sun_path();
    assert_eq!(path[0], -128);
    assert_eq!(path[1], -1);
    assert_eq!(path[2], 127);
    assert_eq!(path[3], 0);
}
