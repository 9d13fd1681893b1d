use vec_mut_scan::VecGrowScan;

fn lcg(state: &mut u64) -> u64 {
    *state = state
        .wrapping_mul(6364136223846793005)
        .wrapping_add(1442695040888963407);
    *state >> 33
}

#[test]
fn queue_invariant_under_random_ops() {
    for seed in 0..50u64 {
        let mut state = seed.wrapping_add(12345);
        let n = (lcg(&mut state) % 12) as i64;
        let input: Vec<i64> = (0..n).collect();
        let mut store = input.clone();
        let mut scan = VecGrowScan::new(&mut store);
        let mut committed: Vec<i64> = Vec::new();
        let mut p = 0usize;
        let mut next_val = 100i64;
        loop {
            // The queue invariant: a non-empty queue means no gap is open.
            assert!(scan.queue.is_empty() || scan.write == scan.read);
            let choice = lcg(&mut state) % 10;
            if choice == 9 {
                break;
            }
            if choice == 0 || choice == 1 {
                scan.insert(next_val);
                committed.push(next_val);
                next_val += 1;
            } else if p < input.len() {
                let item = match scan.next() {
                    Some(item) => item,
                    None => unreachable!(),
                };
                if choice <= 3 {
                    item.keep();
                    committed.push(input[p]);
                } else if choice <= 5 {
                    assert_eq!(item.remove(), input[p]);
                } else if choice <= 6 {
                    assert_eq!(item.replace(next_val), input[p]);
                    committed.push(next_val);
                    next_val += 1;
                } else if choice <= 7 {
                    item.insert_after(next_val);
                    committed.push(input[p]);
                    committed.push(next_val);
                    next_val += 1;
                } else {
                    assert_eq!(item.replace_with_many(vec![next_val, next_val + 1]), input[p]);
                    committed.push(next_val);
                    committed.push(next_val + 1);
                    next_val += 2;
                }
                p += 1;
            }
        }
        assert!(scan.queue.is_empty() || scan.write == scan.read);
        scan.close();
        let mut expected = committed;
        expected.extend_from_slice(&input[p..]);
        assert_eq!(store, expected);
    }
}

#[test]
fn interleaved_inserts_land_at_their_positions() {
    // One concrete interleaving of all the operation kinds.
    let mut store = vec![1, 2, 3, 4, 5, 6];
    let mut scan = VecGrowScan::new(&mut store);
    scan.insert(0); // queued: no gap open yet
    scan.next().unwrap().keep(); // rotation commits 0 before 1
    scan.next().unwrap().remove(); // 2 leaves; 1 leaves the queue
    scan.insert(20); // gap-free again, queued
    let mut item = scan.next().unwrap();
    item.insert_before(21);
    item.replace(30); // 3 leaves, 30 committed after 21
    scan.next().unwrap().insert_after(40); // 4 kept, then 40
    scan.close();
    // 5 and 6 were never visited and stay at the end.
    assert_eq!(store, [0, 1, 20, 21, 30, 4, 40, 5, 6]);
}
