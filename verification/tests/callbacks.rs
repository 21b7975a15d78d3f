use dst_vec::{Blob, DSTVec};
use std::cell::Cell;

trait FnOnceUnsafe {
    fn call_once_unsafe(&mut self);
}

/// A closure as the container sees it: the bytes of what it captured, and a
/// reference to the code that runs on them.
type Callback<'a> = Blob<&'a dyn Fn(&[u8])>;

impl<'a> FnOnceUnsafe for Callback<'a> {
    fn call_once_unsafe(&mut self) {
        (self.tag())(self.data())
    }
}

type Callbacks<'a> = DSTVec<Callback<'a>>;

#[test]
fn test_closures() {
    let foo = Cell::new(5);
    let bar = Cell::new(10);

    let set_foo = |captured: &[u8]| foo.set(i32::from_ne_bytes(captured.try_into().unwrap()));
    let set_bar = |captured: &[u8]| bar.set(i64::from_ne_bytes(captured.try_into().unwrap()) as i32);

    let mut callbacks = Callbacks::new();

    callbacks.push(Blob::new(
        20i32.to_ne_bytes().to_vec(),
        4,
        &set_foo as &dyn Fn(&[u8]),
    ));

    callbacks.push(Blob::new(
        30i64.to_ne_bytes().to_vec(),
        8,
        &set_bar as &dyn Fn(&[u8]),
    ));

    let mut iter = callbacks.into_iter();
    while let Some(mut callback) = iter.next() {
        callback.call_once_unsafe();
    }

    assert_eq!(foo.get(), 20);
    assert_eq!(bar.get(), 30);
}
