use std::cell::Cell;

use paint::frame::{FrameSource, LazyFrameContext};

struct Counter {
    made: Cell<u32>,
}

impl FrameSource<u32> for &Counter {
    fn new_frame(&self) -> u32 {
        let n = self.made.get() + 1;
        self.made.set(n);
        n
    }
}

#[test]
fn frame_is_made_once_and_reused() {
    let counter = Counter { made: Cell::new(0) };
    let mut lazy = LazyFrameContext::new(&counter);
    assert_eq!(counter.made.get(), 0);
    assert_eq!(*lazy.get_mut(), 1);
    *lazy.get_mut() += 10;
    assert_eq!(*lazy.get_mut(), 11);
    assert_eq!(counter.made.get(), 1);
    assert_eq!(lazy.take(), 11);
}

#[test]
fn take_without_frame_makes_a_new_one() {
    let counter = Counter { made: Cell::new(0) };
    let mut lazy = LazyFrameContext::new(&counter);
    assert_eq!(lazy.take(), 1);
    assert_eq!(lazy.take(), 2);
    assert_eq!(*lazy.get_mut(), 3);
}
