use citeproc::utils::{
    partition_results, reversed, split_results, Intercalate, JoinMany, PartitionArenaErrors,
};
use typed_arena::Arena;

#[test]
fn intercalate_puts_the_separator_between() {
    let items = vec![1, 2, 3];
    assert_eq!(items.as_slice().intercalate(&0), vec![1, 0, 2, 0, 3]);
    let one = vec!["a".to_string()];
    assert_eq!(one.as_slice().intercalate(&"-".to_string()), vec!["a".to_string()]);
    let none: Vec<u8> = vec![];
    assert_eq!(none.as_slice().intercalate(&9), Vec::<u8>::new());
}

#[test]
fn join_many_puts_the_separators_between() {
    let runs = vec![vec![1, 2], vec![3], vec![], vec![4, 5]];
    assert_eq!(
        runs.as_slice().join_many(&[0, 0]),
        vec![1, 2, 0, 0, 3, 0, 0, 0, 0, 4, 5]
    );
    let single = vec![vec![7, 8]];
    assert_eq!(single.as_slice().join_many(&[0]), vec![7, 8]);
    let none: Vec<Vec<u8>> = vec![];
    assert_eq!(none.as_slice().join_many(&[1]), Vec::<u8>::new());
}

#[test]
fn partition_keeps_values_where_nothing_failed() {
    let results: Vec<Result<u32, String>> = vec![Ok(1), Ok(2), Ok(3)];
    assert_eq!(partition_results(results), Ok(vec![1, 2, 3]));
    let empty: Vec<Result<u32, String>> = vec![];
    assert_eq!(partition_results(empty), Ok(vec![]));
}

#[test]
fn partition_gives_every_error_in_order() {
    let results: Vec<Result<u32, String>> =
        vec![Ok(1), Err("a".to_string()), Ok(3), Err("b".to_string())];
    assert_eq!(
        partition_results(results),
        Err(vec!["a".to_string(), "b".to_string()])
    );
}

#[test]
fn reversed_turns_the_order_round() {
    assert_eq!(reversed(vec![1, 2, 3]), vec![3, 2, 1]);
    assert_eq!(reversed(Vec::<u8>::new()), Vec::<u8>::new());
}

#[test]
fn results_are_split_into_values_and_errors() {
    let results: Vec<Result<u8, &str>> = vec![Ok(1), Err("a"), Ok(2), Err("b"), Ok(3)];
    assert_eq!(split_results(results), (vec![1, 2, 3], vec!["a", "b"]));
    let none: Vec<Result<u8, &str>> = vec![];
    assert_eq!(split_results(none), (vec![], vec![]));
}

#[test]
fn values_are_kept_in_the_arena() {
    let arena: Arena<String> = Arena::new();
    arena.alloc("before".to_string());
    let results: Vec<Result<String, u8>> =
        vec![Ok("a".to_string()), Ok("b".to_string()), Ok("c".to_string())];
    let kept = results.partition_arena_results(&arena).unwrap();
    assert_eq!(kept, ["a".to_string(), "b".to_string(), "c".to_string()]);
    let more: Vec<Result<String, u8>> = vec![Ok("d".to_string())];
    let later = more.partition_arena_results(&arena).unwrap();
    assert_eq!(later, ["d".to_string()]);
    assert_eq!(kept[2], "c");
    assert_eq!(arena.len(), 5);
    let nothing: Vec<Result<String, u8>> = vec![];
    assert_eq!(nothing.partition_arena_results(&arena), Ok(&[][..]));
}

#[test]
fn errors_come_back_and_the_values_stay_in_the_arena() {
    let arena: Arena<u32> = Arena::new();
    let results: Vec<Result<u32, &str>> = vec![Ok(1), Err("x"), Ok(2), Err("y")];
    assert_eq!(results.partition_arena_results(&arena), Err(vec!["x", "y"]));
    assert_eq!(arena.len(), 2);
    let results: Vec<Result<u32, &str>> = vec![Err("z"), Ok(1)];
    assert_eq!(PartitionArenaErrors::partition_results(results), Err(vec!["z"]));
    let results: Vec<Result<u32, &str>> = vec![Ok(4), Ok(5)];
    assert_eq!(PartitionArenaErrors::partition_results(results), Ok(vec![4, 5]));
}
