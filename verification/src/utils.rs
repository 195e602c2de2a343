//! Small helpers on sequences.

use vstd::prelude::*;
use typed_arena::Arena;

verus! {

/// Putting one separator between each two items.
pub trait Intercalate<T> {
    fn intercalate(&self, sep: &T) -> Vec<T>;
}

/// Joining runs of items with a run of separators between each two.
pub trait JoinMany<T> {
    fn join_many(&self, sep: &[T]) -> Vec<T>;
}

/// What [`Intercalate::intercalate`] gives: the items at the even places,
/// the separator at the odd places between them.
pub open spec fn intercalated<T>(items: Seq<T>, sep: T) -> Seq<T> {
    if items.len() == 0 {
        Seq::empty()
    } else {
        Seq::new(
            (2 * items.len() - 1) as nat,
            |i: int|
                if i % 2 == 0 {
                    items[i / 2]
                } else {
                    sep
                },
        )
    }
}

/// What [`JoinMany::join_many`] gives: the runs in order, with the
/// separators between each two.
pub open spec fn joined_many<T>(runs: Seq<Seq<T>>, sep: Seq<T>) -> Seq<T>
    decreases runs.len(),
{
    if runs.len() == 0 {
        Seq::empty()
    } else if runs.len() == 1 {
        runs[0]
    } else {
        joined_many(runs.drop_last(), sep) + sep + runs.last()
    }
}

/// Whether each item of `copy` is a clone of the item of `original` at its place.
pub open spec fn cloned_items<T: Clone>(original: Seq<T>, copy: Seq<T>) -> bool {
    &&& copy.len() == original.len()
    &&& forall|i: int| 0 <= i < original.len() ==> cloned(#[trigger] original[i], copy[i])
}

/// The runs of a slice of vectors, as sequences.
pub open spec fn runs_of<T>(runs: Seq<Vec<T>>) -> Seq<Seq<T>> {
    Seq::new(runs.len(), |i: int| runs[i]@)
}

impl<T: Clone> Intercalate<T> for [T] {
    /// The result is, item for item, a clone of the items with the
    /// separator between each two.
    fn intercalate(&self, sep: &T) -> (r: Vec<T>)
        ensures
            cloned_items(intercalated(self@, *sep), r@),
    {
        let mut result: Vec<T> = Vec::new();
        if self.len() == 0 {
            return result;
        }
        let ghost target = intercalated(self@, *sep);
        result.push(self[0].clone());
        let mut i: usize = 1;
        while i < self.len()
            invariant
                1 <= i <= self@.len(),
                target == intercalated(self@, *sep),
                result@.len() == 2 * i - 1,
                forall|k: int| 0 <= k < result@.len() ==> cloned(#[trigger] target[k], result@[k]),
            decreases self@.len() - i,
        {
            let s = sep.clone();
            let v = self[i].clone();
            proof {
                assert(target[2 * i - 1] == *sep);
                assert(target[2 * i as int] == self@[i as int]);
            }
            result.push(s);
            result.push(v);
            i = i + 1;
        }
        result
    }
}

/// Appends clones of the items of `source` to `target`.
fn extend_cloned<T: Clone>(target: &mut Vec<T>, source: &[T])
    ensures
        final(target)@.len() == old(target)@.len() + source@.len(),
        final(target)@.take(old(target)@.len() as int) == old(target)@,
        cloned_items(source@, final(target)@.skip(old(target)@.len() as int)),
{
    let ghost start = target@;
    let mut i: usize = 0;
    assert(target@.take(start.len() as int) =~= start);
    while i < source.len()
        invariant
            i <= source@.len(),
            target@.len() == start.len() + i,
            target@.take(start.len() as int) == start,
            forall|k: int| 0 <= k < i ==> cloned(#[trigger] source@[k], target@[start.len() + k]),
        decreases source@.len() - i,
    {
        let v = source[i].clone();
        let ghost before = target@;
        target.push(v);
        assert(target@.take(start.len() as int) =~= before.take(start.len() as int));
        i = i + 1;
    }
    let ghost tail = target@.skip(start.len() as int);
    assert forall|k: int| 0 <= k < source@.len() implies cloned(#[trigger] source@[k], tail[k]) by {
        assert(tail[k] == target@[start.len() + k]);
    }
}

impl<T: Clone> JoinMany<T> for [Vec<T>] {
    /// The result is, item for item, a clone of the runs with the
    /// separators between each two.
    fn join_many(&self, sep: &[T]) -> (r: Vec<T>)
        ensures
            cloned_items(joined_many(runs_of(self@), sep@), r@),
    {
        let mut result: Vec<T> = Vec::new();
        let ghost runs = runs_of(self@);
        let mut i: usize = 0;
        assert(runs.take(0) =~= Seq::<Seq<T>>::empty());
        while i < self.len()
            invariant
                i <= self@.len(),
                runs == runs_of(self@),
                cloned_items(joined_many(runs.take(i as int), sep@), result@),
            decreases self@.len() - i,
        {
            let ghost before = result@;
            let ghost done = joined_many(runs.take(i as int), sep@);
            proof {
                assert(runs.take(i + 1).drop_last() =~= runs.take(i as int));
                assert(runs.take(i + 1).last() == self@[i as int]@);
            }
            if i > 0 {
                extend_cloned(&mut result, sep);
            }
            let ghost middle = result@;
            extend_cloned(&mut result, self[i].as_slice());
            proof {
                let next = joined_many(runs.take(i + 1), sep@);
                if i == 0 {
                    assert(done =~= Seq::<T>::empty());
                    assert(runs.take(1)[0] == self@[0]@);
                    assert(next =~= self@[0]@);
                    assert(result@.skip(0) =~= result@);
                } else {
                    if i == 1 {
                        assert(runs.take(1)[0] == self@[0]@);
                    }
                    assert(next =~= done + sep@ + self@[i as int]@);
                    assert forall|k: int| 0 <= k < next.len() implies cloned(
                        #[trigger] next[k],
                        result@[k],
                    ) by {
                        if k < done.len() {
                            assert(middle.take(before.len() as int)[k] == before[k]);
                            assert(result@.take(middle.len() as int)[k] == middle[k]);
                        } else if k < done.len() + sep@.len() {
                            let j = k - done.len();
                            assert(middle.skip(before.len() as int)[j] == middle[k]);
                            assert(result@.take(middle.len() as int)[k] == middle[k]);
                        } else {
                            let j = k - middle.len();
                            assert(result@.skip(middle.len() as int)[j] == result@[k]);
                        }
                    }
                }
            }
            i = i + 1;
        }
        assert(runs.take(i as int) =~= runs);
        result
    }
}

/// The values of the results that are `Ok`, in order.
pub open spec fn ok_values<O, E>(results: Seq<Result<O, E>>) -> Seq<O>
    decreases results.len(),
{
    if results.len() == 0 {
        Seq::empty()
    } else {
        let before = ok_values(results.drop_last());
        match results.last() {
            Ok(v) => before.push(v),
            Err(_) => before,
        }
    }
}

/// The errors of the results that are `Err`, in order.
pub open spec fn err_values<O, E>(results: Seq<Result<O, E>>) -> Seq<E>
    decreases results.len(),
{
    if results.len() == 0 {
        Seq::empty()
    } else {
        let before = err_values(results.drop_last());
        match results.last() {
            Ok(_) => before,
            Err(e) => before.push(e),
        }
    }
}

/// The items of a vector, last first.
pub fn reversed<T>(v: Vec<T>) -> (r: Vec<T>)
    ensures
        r@ == v@.reverse(),
{
    let mut rest = v;
    let mut r: Vec<T> = Vec::new();
    assert(r@ + rest@.reverse() =~= v@.reverse());
    while rest.len() > 0
        invariant
            r@ + rest@.reverse() == v@.reverse(),
        decreases rest@.len(),
    {
        let ghost before = rest@;
        let ghost placed = r@;
        let x = rest.pop().unwrap();
        r.push(x);
        assert(before.reverse() =~= seq![before.last()] + rest@.reverse());
        assert(r@ + rest@.reverse() =~= placed + before.reverse());
    }
    assert(r@ + rest@.reverse() =~= r@);
    r
}

/// Splits results into the values and the errors. Both keep their order.
pub fn split_results<O, E>(results: Vec<Result<O, E>>) -> (r: (Vec<O>, Vec<E>))
    ensures
        r.0@ == ok_values(results@),
        r.1@ == err_values(results@),
{
    let mut rest = reversed(results);
    let mut oks: Vec<O> = Vec::new();
    let mut errors: Vec<E> = Vec::new();
    let ghost all = results@;
    let ghost n = all.len();
    assert(all.take(0) =~= Seq::<Result<O, E>>::empty());
    while rest.len() > 0
        invariant
            n == all.len(),
            rest@.len() <= n,
            rest@ == all.skip((n - rest@.len()) as int).reverse(),
            oks@ == ok_values(all.take((n - rest@.len()) as int)),
            errors@ == err_values(all.take((n - rest@.len()) as int)),
        decreases rest@.len(),
    {
        let ghost k = (n - rest@.len()) as int;
        let ghost before = rest@;
        let item = rest.pop().unwrap();
        proof {
            assert(item == before.last());
            assert(before.last() == all.skip(k)[0]);
            assert(item == all[k]);
            assert(all.take(k + 1).drop_last() =~= all.take(k));
            assert(all.take(k + 1).last() == all[k]);
            assert(rest@ =~= all.skip(k + 1).reverse());
        }
        match item {
            Ok(v) => {
                oks.push(v);
            },
            Err(e) => {
                errors.push(e);
            },
        }
    }
    assert(all.take(n as int) =~= all);
    (oks, errors)
}

/// Splits results into values and errors: all the values where there is no
/// error, all the errors where there is one. Both keep their order.
pub fn partition_results<O, E>(results: Vec<Result<O, E>>) -> (r: Result<Vec<O>, Vec<E>>)
    ensures
        match r {
            Ok(oks) => err_values(results@).len() == 0 && oks@ == ok_values(results@),
            Err(errors) => errors@.len() > 0 && errors@ == err_values(results@),
        },
{
    let (oks, errors) = split_results(results);
    if errors.len() > 0 {
        Err(errors)
    } else {
        Ok(oks)
    }
}

/// The arena of `typed_arena`. Nothing is said of what it holds.
#[verifier::external_type_specification]
#[verifier::external_body]
#[verifier::reject_recursive_types(T)]
pub struct ExArena<T>(Arena<T>);

/// `typed_arena::Arena::alloc_extend` on the items of a vector: they are
/// moved into the arena, and the slice that comes back holds them, in
/// their order.
#[verifier::external_body]
fn alloc_all<'a, T>(arena: &'a Arena<T>, items: Vec<T>) -> (r: &'a [T])
    ensures
        r@ == items@,
{
    arena.alloc_extend(items)
}

/// Splitting a run of results into values and errors.
pub trait PartitionArenaErrors<O, E>: Sized {
    /// All the values where there is no error, all the errors where there
    /// is one.
    fn partition_results(self) -> Result<Vec<O>, Vec<E>>;

    /// As [`PartitionArenaErrors::partition_results`], with the values
    /// kept in an arena. They are put there whether there is an error or
    /// not.
    fn partition_arena_results<'a>(self, arena: &'a Arena<O>) -> Result<&'a [O], Vec<E>>;
}

impl<O, E> PartitionArenaErrors<O, E> for Vec<Result<O, E>> {
    fn partition_results(self) -> (r: Result<Vec<O>, Vec<E>>)
        ensures
            match r {
                Ok(oks) => err_values(self@).len() == 0 && oks@ == ok_values(self@),
                Err(errors) => errors@.len() > 0 && errors@ == err_values(self@),
            },
    {
        partition_results(self)
    }

    fn partition_arena_results<'a>(self, arena: &'a Arena<O>) -> (r: Result<&'a [O], Vec<E>>)
        ensures
            match r {
                Ok(oks) => err_values(self@).len() == 0 && oks@ == ok_values(self@),
                Err(errors) => errors@.len() > 0 && errors@ == err_values(self@),
            },
    {
        let (oks, errors) = split_results(self);
        let kept = alloc_all(arena, oks);
        if errors.len() > 0 {
            Err(errors)
        } else {
            Ok(kept)
        }
    }
}

} // verus!
