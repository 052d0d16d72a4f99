//! The store of named reference profiles, and the rule for deleting logs.
use vstd::prelude::*;
use crate::log::{contains_name, names_of};
use crate::pid::Reference;
use crate::reference::ReferenceSeries;

verus! {

#[derive(Clone, Copy, Debug, PartialEq, Eq, Structural)]
pub enum StoreError {
    /// Nothing is stored under that name.
    NotFound,
    /// Something is stored under that name already.
    AlreadyExists,
    /// An active run uses it.
    InUse,
}

/// Named reference profiles, in the order they were stored; names are
/// unique.
pub struct ProfileStore {
    names: Vec<String>,
    profiles: Vec<ReferenceSeries>,
}

/// No name occurs twice.
pub open spec fn unique(names: Seq<Seq<char>>) -> bool {
    forall|i: int, j: int|
        0 <= i < j < names.len() ==> #[trigger] names[i] != #[trigger] names[j]
}

/// The names after storing under `name`: unchanged where it is taken, else
/// with `name` added at the end.
pub open spec fn names_after_store(names: Seq<Seq<char>>, name: Seq<char>) -> Seq<Seq<char>> {
    if names.contains(name) {
        names
    } else {
        names.push(name)
    }
}

impl ProfileStore {
    /// The names are unique, and each has its profile.
    pub open spec fn wf(&self) -> bool {
        &&& self.names().len() == self.profiles().len()
        &&& unique(self.names())
    }

    /// The names, in the order they were stored.
    pub closed spec fn names(&self) -> Seq<Seq<char>> {
        names_of(self.names@)
    }

    /// The profiles, in the order of `names`.
    pub closed spec fn profiles(&self) -> Seq<Seq<Reference>> {
        self.profiles@.map_values(|p: ReferenceSeries| p@)
    }

    pub fn new() -> (r: ProfileStore)
        ensures
            r.wf(),
            r.names() == Seq::<Seq<char>>::empty(),
            r.profiles() == Seq::<Seq<Reference>>::empty(),
    {
        let r = ProfileStore { names: Vec::new(), profiles: Vec::new() };
        assert(r.names() =~= Seq::<Seq<char>>::empty());
        assert(r.profiles() =~= Seq::<Seq<Reference>>::empty());
        r
    }

    /// The position of `name`, if it is stored.
    fn position(&self, name: &String) -> (r: Option<usize>)
        requires
            self.wf(),
        ensures
            r matches Some(i) ==> i < self.names().len() && self.names()[i as int] == name@,
            r is None ==> !self.names().contains(name@),
    {
        let mut i: usize = 0;
        while i < self.names.len()
            invariant
                i <= self.names@.len(),
                forall|k: int| 0 <= k < i ==> self.names@[k]@ != name@,
            decreases self.names.len() - i,
        {
            if self.names[i] == *name {
                return Some(i);
            }
            i = i + 1;
        }
        assert forall|k: int| 0 <= k < self.names().len() implies self.names()[k] != name@ by {
            assert(self.names()[k] == self.names@[k]@);
        }
        None
    }
}

/// The names of the stored profiles, in the order they were stored.
pub fn get_list_of_reference_series(store: &ProfileStore) -> (r: Vec<String>)
    ensures
        names_of(r@) == store.names(),
{
    let mut r: Vec<String> = Vec::new();
    let mut i: usize = 0;
    while i < store.names.len()
        invariant
            i <= store.names@.len(),
            r@.len() == i,
            forall|k: int| 0 <= k < i ==> r@[k]@ == store.names@[k]@,
        decreases store.names.len() - i,
    {
        r.push(store.names[i].clone());
        i = i + 1;
    }
    assert(names_of(r@) =~= names_of(store.names@));
    r
}

/// The profile stored under `name`.
pub fn get_reference_series<'a>(store: &'a ProfileStore, name: &String) -> (r: Result<
    &'a ReferenceSeries,
    StoreError,
>)
    requires
        store.wf(),
    ensures
        match r {
            Ok(p) => exists|i: int|
                0 <= i < store.names().len() && store.names()[i] == name@ && #[trigger] store.profiles()[i]
                    == p@,
            Err(e) => e == StoreError::NotFound && !store.names().contains(name@),
        },
{
    match store.position(name) {
        Some(i) => {
            assert(store.profiles()[i as int] == store.profiles@[i as int]@);
            Ok(&store.profiles[i])
        },
        None => Err(StoreError::NotFound),
    }
}

/// Stores `reference_series` under `name`, which must be new.
pub fn store_reference_series(
    store: &mut ProfileStore,
    name: String,
    reference_series: ReferenceSeries,
) -> (r: Result<(), StoreError>)
    requires
        old(store).wf(),
    ensures
        final(store).wf(),
        final(store).names() == names_after_store(old(store).names(), name@),
        r is Ok <==> !old(store).names().contains(name@),
        r is Err ==> r == Err::<(), StoreError>(StoreError::AlreadyExists),
        old(store).names().contains(name@) ==> final(store).profiles() == old(store).profiles(),
        !old(store).names().contains(name@) ==> final(store).profiles()
            == old(store).profiles().push(reference_series@),
{
    if contains_name(&store.names, &name) {
        return Err(StoreError::AlreadyExists);
    }
    let ghost old_names = store.names();
    let ghost old_profiles = store.profiles();
    store.names.push(name);
    store.profiles.push(reference_series);
    assert(store.names() =~= old_names.push(name@));
    assert(store.profiles() =~= old_profiles.push(reference_series@));
    Ok(())
}

/// Deletes the profile stored under `name`, unless it is one of `in_use`,
/// the names of the profiles that active runs follow.
pub fn delete_reference_series(store: &mut ProfileStore, name: String, in_use: &Vec<String>) -> (r:
    Result<(), StoreError>)
    requires
        old(store).wf(),
    ensures
        final(store).wf(),
        names_of(in_use@).contains(name@) ==> r == Err::<(), StoreError>(StoreError::InUse),
        !names_of(in_use@).contains(name@) && !old(store).names().contains(name@) ==> r == Err::<
            (),
            StoreError,
        >(StoreError::NotFound),
        !names_of(in_use@).contains(name@) && old(store).names().contains(name@) ==> r is Ok,
        r is Err ==> {
            &&& final(store).names() == old(store).names()
            &&& final(store).profiles() == old(store).profiles()
        },
        r is Ok ==> {
            &&& !names_of(in_use@).contains(name@)
            &&& exists|i: int|
                0 <= i < old(store).names().len() && #[trigger] old(store).names()[i] == name@
                    && final(store).names() == old(store).names().remove(i)
                    && final(store).profiles() == old(store).profiles().remove(i)
        },
{
    if contains_name(in_use, &name) {
        return Err(StoreError::InUse);
    }
    match store.position(&name) {
        None => Err(StoreError::NotFound),
        Some(i) => {
            let ghost old_names = store.names();
            let ghost old_profiles = store.profiles();
            store.names.remove(i);
            store.profiles.remove(i);
            assert(store.names() =~= old_names.remove(i as int));
            assert(store.profiles() =~= old_profiles.remove(i as int));
            assert(unique(store.names())) by {
                assert forall|a: int, b: int|
                    0 <= a < b < store.names().len() implies store.names()[a]
                    != store.names()[b] by {
                    let a0 = if a < i { a } else { a + 1 };
                    let b0 = if b < i { b } else { b + 1 };
                    assert(store.names()[a] == old_names[a0]);
                    assert(store.names()[b] == old_names[b0]);
                }
            }
            Ok(())
        },
    }
}

/// Whether the log `name` may be deleted: not while one of `active_runs`,
/// the names of the logs of active runs, is it.
pub fn check_log_deletable(name: &String, active_runs: &Vec<String>) -> (r: Result<(), StoreError>)
    ensures
        r is Ok <==> !names_of(active_runs@).contains(name@),
        r is Err ==> r == Err::<(), StoreError>(StoreError::InUse),
{
    if contains_name(active_runs, name) {
        Err(StoreError::InUse)
    } else {
        Ok(())
    }
}

/// Storing under a fresh name succeeds and the name is then listed, after
/// the names stored before; storing under a name that is listed fails and
/// changes nothing.
pub proof fn lemma_store_then_list(names: Seq<Seq<char>>, name: Seq<char>)
    ensures
        names_after_store(names, name).contains(name),
        names.contains(name) ==> names_after_store(names, name) == names,
        !names.contains(name) ==> names_after_store(names, name).drop_last() == names,
{
    if !names.contains(name) {
        let after = names_after_store(names, name);
        assert(after[after.len() - 1] == name);
        assert(after.drop_last() =~= names);
    }
}

} // verus!
