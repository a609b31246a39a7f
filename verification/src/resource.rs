use vstd::prelude::*;

verus! {

/// Where a resource lands when it is registered at `id` (or appended when no
/// id is given), and the list afterwards.
pub open spec fn registered<T>(list: Seq<T>, item: T, id: Option<usize>) -> (Seq<T>, int) {
    match id {
        Some(i) => (list.insert(i as int, item), i as int),
        None => (list.push(item), list.len() as int),
    }
}

/// Registers a freshly made resource (a font, an image) in `list`, as the
/// window context does when a font or an image is loaded.
///
/// `made` is what the loader produced: `None` when the data could not be
/// decoded, which is answered `Err(())` with the list unchanged, whatever `id`
/// is. Otherwise the resource is inserted at position `id` (the entries from
/// `id` on move up by one; `id` may not exceed the length), or appended when
/// no id is given, and its position is returned.
pub fn add_resource<T>(list: &mut Vec<T>, made: Option<T>, id: Option<usize>) -> (res: Result<
    usize,
    (),
>)
    requires
        made is Some && id is Some ==> id->Some_0 <= old(list).len(),
    ensures
        made is None ==> res is Err && final(list)@ == old(list)@,
        made matches Some(item) ==> {
            &&& res == Ok::<usize, ()>(registered(old(list)@, item, id).1 as usize)
            &&& final(list)@ == registered(old(list)@, item, id).0
            &&& final(list)@[res->Ok_0 as int] == item
        },
{
    match made {
        None => Err(()),
        Some(item) => match id {
            Some(i) => {
                list.insert(i, item);
                Ok(i)
            },
            None => {
                list.push(item);
                Ok(list.len() - 1)
            },
        },
    }
}

/// A resource registered at a position can be read back there.
pub proof fn law_registered_is_readable<T>(list: Seq<T>, item: T, id: Option<usize>)
    requires
        id matches Some(i) ==> i <= list.len(),
    ensures
        ({
            let (after, pos) = registered(list, item, id);
            &&& 0 <= pos < after.len()
            &&& after[pos] == item
            &&& after.len() == list.len() + 1
        }),
{
}

} // verus!
