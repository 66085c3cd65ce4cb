use bulk_load::batcher::{batches, Batcher, DEFAULT_BATCH_SIZE};

fn lines(n: usize) -> Vec<String> {
    (0..n).map(|i| format!("{},x", i)).collect()
}

fn drain(source: Vec<String>, skip: usize, size: usize) -> Vec<Vec<String>> {
    let mut batcher = Batcher::new(skip, size);
    let mut out = Vec::new();
    for line in source {
        if let Some(batch) = batcher.push(line) {
            out.push(batch);
        }
    }
    if let Some(batch) = batcher.finish() {
        out.push(batch);
    }
    out
}

#[test]
fn default_batch_size() {
    assert_eq!(DEFAULT_BATCH_SIZE, 100_000);
}

#[test]
fn batch_is_yielded_when_full() {
    let mut batcher = Batcher::new(0, 2);
    assert_eq!(batcher.push("a".to_string()), None);
    assert_eq!(batcher.push("b".to_string()), Some(vec!["a".to_string(), "b".to_string()]));
    assert_eq!(batcher.push("c".to_string()), None);
    assert_eq!(batcher.finish(), Some(vec!["c".to_string()]));
    assert_eq!(batcher.finish(), None);
}

#[test]
fn batch_of_one_line_each() {
    let mut batcher = Batcher::new(0, 1);
    assert_eq!(batcher.push("a".to_string()), Some(vec!["a".to_string()]));
    assert_eq!(batcher.push("b".to_string()), Some(vec!["b".to_string()]));
    assert_eq!(batcher.finish(), None);
}

#[test]
fn header_lines_are_discarded_first() {
    let mut batcher = Batcher::new(2, 2);
    assert_eq!(batcher.push("h1".to_string()), None);
    assert_eq!(batcher.push("h2".to_string()), None);
    assert_eq!(batcher.push("a".to_string()), None);
    assert_eq!(batcher.push("b".to_string()), Some(vec!["a".to_string(), "b".to_string()]));
    assert_eq!(batcher.finish(), None);
}

#[test]
fn header_of_two_lines_leaves_the_last_three() {
    let source: Vec<String> = vec!["h1", "h2", "1,a", "2,b", "3,c"].into_iter().map(String::from).collect();
    let expected: Vec<String> = vec!["1,a", "2,b", "3,c"].into_iter().map(String::from).collect();
    assert_eq!(batches(source.clone(), 2, DEFAULT_BATCH_SIZE), vec![expected.clone()]);
    assert_eq!(drain(source.clone(), 2, DEFAULT_BATCH_SIZE), vec![expected.clone()]);
    let small = batches(source, 2, 2);
    assert_eq!(small, vec![expected[..2].to_vec(), expected[2..].to_vec()]);
}

#[test]
fn header_longer_than_source_gives_no_batch() {
    assert_eq!(batches(lines(3), 3, 2), Vec::<Vec<String>>::new());
    assert_eq!(batches(lines(3), 4, 2), Vec::<Vec<String>>::new());
    assert_eq!(batches(lines(3), usize::MAX, 2), Vec::<Vec<String>>::new());
    assert_eq!(batches(Vec::new(), 0, 2), Vec::<Vec<String>>::new());
    assert_eq!(drain(lines(3), 5, 2), Vec::<Vec<String>>::new());
}

#[test]
fn batch_count_is_the_quotient_rounded_up() {
    for size in 1..6usize {
        for count in 0..14usize {
            for skip in 0..4usize {
                let out = batches(lines(count), skip, size);
                let data = count.saturating_sub(skip);
                assert_eq!(out.len(), (data + size - 1) / size, "{} {} {}", count, skip, size);
                assert_eq!(out, drain(lines(count), skip, size));
            }
        }
    }
}

#[test]
fn batches_hold_the_lines_behind_the_header_in_order() {
    let source = lines(11);
    let out = batches(source.clone(), 3, 4);
    assert_eq!(out.len(), 2);
    assert_eq!(out[0], source[3..7].to_vec());
    assert_eq!(out[1], source[7..11].to_vec());
    let flat: Vec<String> = out.into_iter().flatten().collect();
    assert_eq!(flat, source[3..].to_vec());
}

#[test]
fn batches_match_std_chunks() {
    let source = lines(10);
    for size in 1..12usize {
        let ours = batches(source.clone(), 0, size);
        let theirs: Vec<Vec<String>> = source.chunks(size).map(|c| c.to_vec()).collect();
        assert_eq!(ours, theirs);
    }
}
