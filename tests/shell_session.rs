use esh::args::ArgView;
use esh::shell::{split_args, Esh, LINE_CAP};
use std::cell::{Cell, RefCell};

fn recorder<'a>(log: &'a RefCell<Vec<Vec<Vec<u8>>>>) -> impl Fn(&ArgView) + 'a {
    move |v: &ArgView| {
        let mut line = Vec::new();
        for i in 0..v.len() {
            line.push(v.get(i).to_vec());
        }
        log.borrow_mut().push(line);
    }
}

fn counter<'a>(n: &'a Cell<usize>) -> impl Fn(&ArgView) + 'a {
    move |_v: &ArgView| n.set(n.get() + 1)
}

fn feed<P: Fn(char), C: Fn(&ArgView), O: Fn(&[u8])>(e: &mut Esh<P, C, O>, s: &[u8]) {
    for &b in s {
        e.rx(b);
    }
}

#[test]
fn help_line_invokes_command_once() {
    let log = RefCell::new(Vec::new());
    let texts = RefCell::new(Vec::new());
    let cb = |v: &ArgView| {
        recorder(&log)(v);
        texts.borrow_mut().push(v.get_text(0).map(|t| t.to_string()));
    };
    let mut e: Esh<fn(char), _, fn(&[u8])> = Esh::init().unwrap();
    e.register_command(cb);
    feed(&mut e, b"help\n");
    assert_eq!(log.borrow().len(), 1);
    assert_eq!(log.borrow()[0], vec![b"help".to_vec()]);
    assert_eq!(texts.borrow()[0], Some("help".to_string()));
}

#[test]
fn second_registration_replaces_first() {
    let a = Cell::new(0usize);
    let b = Cell::new(0usize);
    let mut e: Esh<fn(char), _, fn(&[u8])> = Esh::init().unwrap();
    e.register_command(counter(&a));
    e.register_command(counter(&b));
    feed(&mut e, b"ls\nls\n");
    assert_eq!(a.get(), 0);
    assert_eq!(b.get(), 2);
}

#[test]
fn words_are_split_at_spaces() {
    let log = RefCell::new(Vec::new());
    let mut e: Esh<fn(char), _, fn(&[u8])> = Esh::init().unwrap();
    e.register_command(recorder(&log));
    feed(&mut e, b"  set  led on \n\n   \n");
    assert_eq!(log.borrow().len(), 1);
    assert_eq!(log.borrow()[0], vec![b"set".to_vec(), b"led".to_vec(), b"on".to_vec()]);
}

#[test]
fn printed_characters_echo_the_input() {
    let out = RefCell::new(String::new());
    let p = |c: char| out.borrow_mut().push(c);
    let mut e: Esh<_, fn(&ArgView), fn(&[u8])> = Esh::init().unwrap();
    e.register_print(p);
    feed(&mut e, b"ab c\n");
    assert_eq!(out.borrow().as_str(), "ab c\n");
}

#[test]
fn overflow_reported_once_and_line_dropped() {
    let over = RefCell::new(Vec::new());
    let cmds = Cell::new(0usize);
    let o = |s: &[u8]| over.borrow_mut().push(s.to_vec());
    let mut e: Esh<fn(char), _, _> = Esh::init().unwrap();
    e.register_command(counter(&cmds));
    e.register_overflow(o);
    let long = vec![b'x'; LINE_CAP + 10];
    feed(&mut e, &long);
    assert_eq!(over.borrow().len(), 1);
    assert_eq!(over.borrow()[0], vec![b'x'; LINE_CAP]);
    e.rx(b'\n');
    assert_eq!(cmds.get(), 0);
    feed(&mut e, b"ok\n");
    assert_eq!(cmds.get(), 1);
}

#[test]
fn split_args_layout() {
    let (buf, starts) = split_args(b"a bc");
    assert_eq!(buf, vec![b'a', 0, b'b', b'c', 0]);
    assert_eq!(starts, vec![0usize, 2]);
    let (buf, starts) = split_args(b"");
    assert_eq!(buf, vec![0u8]);
    assert!(starts.is_empty());
}

fn char_log<'a>(out: &'a RefCell<Vec<char>>) -> impl Fn(char) + 'a {
    move |c: char| out.borrow_mut().push(c)
}

#[test]
fn high_byte_is_printed_as_same_code_point() {
    let out = RefCell::new(Vec::new());
    let mut e: Esh<_, fn(&ArgView), fn(&[u8])> = Esh::init().unwrap();
    e.register_print(char_log(&out));
    e.rx(0xe9);
    assert_eq!(*out.borrow(), vec!['\u{e9}']);
}

#[test]
fn print_registration_replaces_first() {
    let a = RefCell::new(Vec::new());
    let b = RefCell::new(Vec::new());
    let mut e: Esh<_, fn(&ArgView), fn(&[u8])> = Esh::init().unwrap();
    e.register_print(char_log(&a));
    e.register_print(char_log(&b));
    feed(&mut e, b"hi\n");
    assert!(a.borrow().is_empty());
    assert_eq!(*b.borrow(), vec!['h', 'i', '\n']);
}

#[test]
fn same_command_registered_twice_runs_once_per_line() {
    let n = Cell::new(0usize);
    let mut e: Esh<fn(char), _, fn(&[u8])> = Esh::init().unwrap();
    e.register_command(counter(&n));
    e.register_command(counter(&n));
    feed(&mut e, b"a\nb c\n");
    assert_eq!(n.get(), 2);
}
