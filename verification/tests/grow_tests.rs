use std::rc::Rc;

use vec_mut_scan::VecGrowScan;

#[test]
fn grow_check_item_drops() {
    let mut input: Vec<_> = vec![0, 1, 2, 3, 4, 5, 6, 7]
        .into_iter()
        .map(Rc::new)
        .collect();
    let input_copy = input.clone();

    let mut scan = VecGrowScan::new(&mut input);

    let mut keep = None;
    let mut also_keep = None;

    while let Some(item) = scan.next() {
        let v = **item.get();
        if v == 2 {
            item.replace(Rc::new(10));
        } else if v == 3 {
            keep = Some(item.remove());
        } else if v == 4 {
            item.remove();
        } else if v == 5 {
            also_keep = Some(item.replace(Rc::new(20)));
        } else if v == 6 {
            break;
        } else {
            item.keep();
        }
    }

    let _keep_copy = keep.clone();
    let _also_keep_copy_1 = also_keep.clone();
    let _also_keep_copy_2 = also_keep.clone();

    let ref_counts: Vec<_> = input_copy.iter().map(|rc| Rc::strong_count(rc)).collect();

    assert_eq!(ref_counts, vec![2, 2, 1, 3, 1, 4, 2, 2]);
    assert_eq!(keep.map(|rc| Rc::strong_count(&rc)), Some(3));
    assert_eq!(also_keep.map(|rc| Rc::strong_count(&rc)), Some(4));

    scan.close();
}

#[test]
fn grow_check_slices_no_insert() {
    let mut input: Vec<u16> = (0..16).collect();

    let mut scan = VecGrowScan::new(&mut input);

    loop {
        let value;
        match scan.next() {
            None => break,
            Some(item) => {
                value = *item.get();
                let (a, .., b) = item.slices();
                assert!(a.iter().all(|i| *i < value && *i % 2 != 0));
                assert!(b.iter().all(|i| *i >= value));

                if value % 2 == 0 {
                    item.remove();
                } else {
                    item.keep();
                }
            }
        }
        if value % 2 != 0 {
            assert_eq!(scan.slices().0.last().unwrap(), &value);
        }
        if let Some(&first) = scan.slices().2.first() {
            assert_eq!(first, value + 1);
        }
    }

    scan.close();
}

#[test]
fn grow_check_slices_mut() {
    let mut input = b"foo bar baz".to_vec();

    let mut scan = VecGrowScan::new(&mut input);

    while let Some(mut value) = scan.next() {
        if *value.get() == b' ' {
            let suffix = value.slices_mut().2;
            if suffix.len() > 1 {
                suffix[1] = suffix[1].to_ascii_uppercase();
            }
            value.remove();
        } else {
            value.keep();
        }
    }

    scan.close();

    assert_eq!(input, b"fooBarBaz");
}

#[test]
fn insert_after() {
    let mut nums = vec![1, 2, 4, 5];
    let mut scan = VecGrowScan::new(&mut nums);

    while let Some(value) = scan.next() {
        if *value.get() == 2 {
            value.insert_after(3);
        } else {
            value.keep();
        }
    }

    scan.close();

    assert_eq!(nums, [1, 2, 3, 4, 5]);
}

#[test]
fn insert_before() {
    let mut nums = vec![1, 3, 4, 5];
    let mut scan = VecGrowScan::new(&mut nums);

    while let Some(mut value) = scan.next() {
        if *value.get() == 3 {
            value.insert_before(2);
        }
        value.keep();
    }

    scan.close();

    assert_eq!(nums, [1, 2, 3, 4, 5]);
}

#[test]
fn drop_after_partial_scan_with_inserts() {
    let mut nums = vec![1, 2, 5, 6];
    let mut scan = VecGrowScan::new(&mut nums);

    while let Some(mut value) = scan.next() {
        if *value.get() > 2 {
            value.insert_many_before(vec![3, 4]);
            break;
        }
        value.keep();
    }

    scan.close();

    assert_eq!(nums, [1, 2, 3, 4, 5, 6]);
}

#[test]
fn replace_with() {
    let mut vec: Vec<Box<i32>> = (1..=5).map(Box::new).collect();
    let mut scan = VecGrowScan::new(&mut vec);

    while let Some(value) = scan.next() {
        if **value.get() % 2 == 0 {
            value.replace_with(|x| Box::new(*x * 2));
        } else {
            value.keep();
        }
    }

    scan.close();

    assert_eq!(
        vec,
        [
            Box::new(1),
            Box::new(4),
            Box::new(3),
            Box::new(8),
            Box::new(5),
        ]
    );
}

#[test]
fn replace_with_many_with() {
    let mut vec = vec![3, 6, 9, 12];
    let mut scan = VecGrowScan::new(&mut vec);

    while let Some(value) = scan.next() {
        value.replace_with_many_with(|x| vec![x - 1, x, x + 1]);
    }

    scan.close();

    assert_eq!(vec, [2, 3, 4, 5, 6, 7, 8, 9, 10, 11, 12, 13]);
}

#[test]
fn insert_between_items() {
    let mut numbers = vec![1, 2, 4, 5];
    let mut scan = VecGrowScan::new(&mut numbers);

    let item = scan.next().unwrap();
    assert_eq!(*item.get(), 1);
    item.keep();
    let item = scan.next().unwrap();
    assert_eq!(*item.get(), 2);
    item.keep();
    scan.insert(3);
    let item = scan.next().unwrap();
    assert_eq!(*item.get(), 4);
    item.keep();
    let item = scan.next().unwrap();
    assert_eq!(*item.get(), 5);
    item.keep();

    scan.close();

    assert_eq!(numbers, [1, 2, 3, 4, 5]);
}

#[test]
fn insert_before_first_advance() {
    let mut nums = vec![3, 4];
    let mut scan = VecGrowScan::new(&mut nums);
    scan.insert(1);
    scan.insert(2);
    scan.close();
    assert_eq!(nums, [1, 2, 3, 4]);
}

#[test]
fn insert_after_last_element() {
    let mut nums = vec![1, 2];
    let mut scan = VecGrowScan::new(&mut nums);
    while let Some(value) = scan.next() {
        let v = *value.get();
        if v == 2 {
            value.insert_after(3);
        } else {
            value.keep();
        }
    }
    assert!(scan.next().is_none());
    scan.close();
    assert_eq!(nums, [1, 2, 3]);
}

#[test]
fn removals_reopen_gap_for_inserts() {
    let mut nums = vec![1, 2, 3, 4, 5];
    let mut scan = VecGrowScan::new(&mut nums);
    scan.next().unwrap().keep();
    scan.next().unwrap().remove();
    scan.next().unwrap().remove();
    // The gap is two slots wide, so both items take a slot directly and the
    // queue stays empty.
    scan.insert_many(vec![20, 30]);
    assert!(scan.queue.is_empty());
    {
        let (finalized, queued, unvisited) = scan.slices();
        assert_eq!(finalized, [1, 20, 30]);
        assert_eq!(queued, []);
        assert_eq!(unvisited, [4, 5]);
    }
    scan.close();
    assert_eq!(nums, [1, 20, 30, 4, 5]);
}

#[test]
fn queue_rotation_orders_inserts_first() {
    let mut nums = vec![10, 11];
    let mut scan = VecGrowScan::new(&mut nums);
    // No gap is open, so both insertions go to the queue.
    scan.insert(1);
    scan.insert(2);
    assert_eq!(scan.queue.len(), 2);
    assert_eq!(scan.write, scan.read);
    // Default finalize rotates: 1 takes the slot, 10 joins the queue.
    scan.next().unwrap().keep();
    {
        let (finalized, queued, unvisited) = scan.slices();
        assert_eq!(finalized, [1]);
        assert_eq!(queued, [2, 10]);
        assert_eq!(unvisited, [11]);
    }
    scan.close();
    assert_eq!(nums, [1, 2, 10, 11]);
}

#[test]
fn replace_with_many_returns_old() {
    let mut nums = vec![3, 6];
    let mut scan = VecGrowScan::new(&mut nums);
    assert_eq!(scan.next().unwrap().replace_with_many(vec![2, 3, 4]), 3);
    assert_eq!(scan.next().unwrap().replace_with_many(vec![5, 6, 7]), 6);
    scan.close();
    assert_eq!(nums, [2, 3, 4, 5, 6, 7]);
}

#[test]
fn insert_many_after_items() {
    let mut nums = vec![1, 5];
    let mut scan = VecGrowScan::new(&mut nums);
    scan.next().unwrap().insert_many_after(vec![2, 3, 4]);
    scan.next().unwrap().keep();
    scan.close();
    assert_eq!(nums, [1, 2, 3, 4, 5]);
}

#[test]
fn grow_set_mutates_in_place() {
    let mut nums = vec![1, 2, 3];
    let mut scan = VecGrowScan::new(&mut nums);
    while let Some(mut item) = scan.next() {
        let v = *item.get();
        item.set(v + 100);
        item.keep();
    }
    scan.close();
    assert_eq!(nums, [101, 102, 103]);
}

#[test]
fn grow_empty_input() {
    let mut nums: Vec<u32> = Vec::new();
    let mut scan = VecGrowScan::new(&mut nums);
    assert!(scan.next().is_none());
    scan.insert(7);
    scan.close();
    assert_eq!(nums, [7]);
}

#[test]
fn grow_scan_slices_mut_direct() {
    let mut nums = vec![1, 2, 3];
    let mut scan = VecGrowScan::new(&mut nums);
    scan.next().unwrap().keep();
    scan.insert(9);
    {
        let (finalized, queued, unvisited) = scan.slices_mut();
        assert_eq!(finalized, [1]);
        assert_eq!(queued, [9]);
        assert_eq!(unvisited, [2, 3]);
        finalized[0] = 10;
        queued[0] = 90;
        unvisited[1] = 30;
    }
    scan.close();
    assert_eq!(nums, [10, 90, 2, 30]);
}

#[test]
fn grow_noop_scan_reproduces_input() {
    let mut nums = vec![1, 2, 3, 4, 5];
    let mut scan = VecGrowScan::new(&mut nums);
    while let Some(item) = scan.next() {
        item.keep();
    }
    scan.close();
    assert_eq!(nums, [1, 2, 3, 4, 5]);
}
