use esh::args::{c_strlen, ArgView};

#[test]
fn strlen_stops_at_nul() {
    let buf = [b'a', b'b', 0, b'c', 0];
    assert_eq!(c_strlen(&buf, 0), 2);
    assert_eq!(c_strlen(&buf, 1), 1);
    assert_eq!(c_strlen(&buf, 2), 0);
    assert_eq!(c_strlen(&buf, 3), 1);
}

#[test]
fn view_returns_each_argument() {
    let buf = b"set\0led\0on\0";
    let starts = [0usize, 4, 8];
    let v = ArgView::new(buf, &starts).unwrap();
    assert_eq!(v.len(), 3);
    assert_eq!(v.get(0), b"set");
    assert_eq!(v.get(1), b"led");
    assert_eq!(v.get(2), b"on");
    assert_eq!(v.get_text(1), Some("led"));
}

#[test]
fn view_rejects_malformed_vectors() {
    let unterminated = b"abc";
    assert!(ArgView::new(unterminated, &[0]).is_none());
    let empty: [u8; 0] = [];
    assert!(ArgView::new(&empty, &[]).is_none());
    let buf = b"ab\0";
    assert!(ArgView::new(buf, &[3]).is_none());
    assert!(ArgView::new(buf, &[2]).is_some());
}

#[test]
fn empty_argument_and_empty_vector() {
    let buf = b"\0";
    let v = ArgView::new(buf, &[0]).unwrap();
    assert_eq!(v.get(0), b"");
    let none = ArgView::new(buf, &[]).unwrap();
    assert_eq!(none.len(), 0);
}

#[test]
fn text_of_invalid_utf8_is_none() {
    let buf = [0xffu8, 0xfe, 0];
    let v = ArgView::new(&buf, &[0]).unwrap();
    assert_eq!(v.get(0), &[0xffu8, 0xfe][..]);
    assert_eq!(v.get_text(0), None);
}

#[test]
fn text_of_multibyte_utf8() {
    let buf = [0xc3u8, 0xa9, 0];
    let v = ArgView::new(&buf, &[0]).unwrap();
    assert_eq!(v.get_text(0), Some("\u{e9}"));
}
