use shared_handle::Heap;
use shared_handle::Shared;

#[test]
fn read_and_write_numbers() {
    let mut heap: Heap<i32> = Heap::new();
    let x = Shared::new(&mut heap, 10);
    assert_eq!(*x.borrow(&heap), 10);

    *x.borrow_mut(&mut heap) += 5;
    assert_eq!(*x.borrow(&heap), 15);
}

#[test]
fn works_with_strings() {
    let mut heap: Heap<String> = Heap::new();
    let s = Shared::new(&mut heap, "Shared".to_string());
    assert_eq!(*s.borrow(&heap), "Shared");

    s.borrow_mut(&mut heap).push_str(" pointer!");
    assert_eq!(*s.borrow(&heap), "Shared pointer!");
}

#[derive(Debug, PartialEq)]
struct Point {
    x: i32,
    y: i32,
}

#[test]
fn works_with_structs() {
    let mut heap: Heap<Point> = Heap::new();
    let p = Shared::new(&mut heap, Point { x: 1, y: 2 });
    assert_eq!(*p.borrow(&heap), Point { x: 1, y: 2 });

    let inside = p.borrow_mut(&mut heap);
    inside.x = 10;
    inside.y = 20;
    assert_eq!(*p.borrow(&heap), Point { x: 10, y: 20 });
}

#[test]
fn works_with_vectors() {
    let mut heap: Heap<Vec<i32>> = Heap::new();
    let v = Shared::new(&mut heap, vec![1, 2, 3]);
    assert_eq!(*v.borrow(&heap), vec![1, 2, 3]);

    v.borrow_mut(&mut heap).push(4);
    assert_eq!(*v.borrow(&heap), vec![1, 2, 3, 4]);
}

#[test]
fn multiple_clones() {
    let mut heap: Heap<i32> = Heap::new();
    let a = Shared::new(&mut heap, 100);
    let b = a.duplicate(&mut heap);
    let c = a.duplicate(&mut heap);

    assert_eq!(*a.borrow(&heap), 100);
    assert_eq!(*b.borrow(&heap), 100);
    assert_eq!(*c.borrow(&heap), 100);

    *b.borrow_mut(&mut heap) += 50;
    assert_eq!(*a.borrow(&heap), 150);
    assert_eq!(*c.borrow(&heap), 150);
}

struct FreeMemory<'a> {
    flag: &'a mut bool,
}

impl<'a> Drop for FreeMemory<'a> {
    fn drop(&mut self) {
        *self.flag = true;
    }
}

#[test]
fn drop_frees_memory() {
    let mut released = false;

    {
        let mut heap: Heap<FreeMemory> = Heap::new();
        let a = Shared::new(&mut heap, FreeMemory {
            flag: &mut released,
        });
        let b = a.duplicate(&mut heap);
        let _ = b.release(&mut heap);
        let _ = a.release(&mut heap);
    }

    assert!(released);
}
