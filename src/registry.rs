//! The connection registry: open pools by database name, and the migration
//! sets that wait for a database's first load.
use vstd::prelude::*;
use crate::error::DbError;
use crate::names::{entries_map, names_distinct, NameMap};

verus! {

/// The pools that `close` leaves: with a name, all but that one; without,
/// none.
pub open spec fn after_close<P>(pools: Map<Seq<char>, P>, name: Option<String>) -> Map<
    Seq<char>,
    P,
> {
    match name {
        Some(n) => pools.remove(n@),
        None => Map::empty(),
    }
}

/// The pools that `close` hands back for shutting down.
pub open spec fn closed_by<P>(pools: Map<Seq<char>, P>, name: Option<String>) -> Map<
    Seq<char>,
    P,
> {
    match name {
        Some(n) => pools.restrict(set![n@]),
        None => pools,
    }
}

/// The process-wide state of the databases: pools of type `P` and pending
/// migration sets of type `M`, both by database name.
pub struct Registry<P, M> {
    pub pools: NameMap<P>,
    pub pending: NameMap<M>,
}

impl<P, M> Registry<P, M> {
    pub open spec fn wf(&self) -> bool {
        self.pools.wf() && self.pending.wf()
    }

    pub fn new() -> (r: Self)
        ensures
            r.wf(),
            r.pools@ == Map::<Seq<char>, P>::empty(),
            r.pending@ == Map::<Seq<char>, M>::empty(),
    {
        Registry { pools: NameMap::new(), pending: NameMap::new() }
    }

    /// Registers the migration set to run on the first load of `name`,
    /// replacing one that was registered before and has not run.
    pub fn add_migrations(&mut self, name: String, m: M)
        requires
            old(self).wf(),
        ensures
            final(self).wf(),
            final(self).pending@ == old(self).pending@.insert(name@, m),
            final(self).pools@ == old(self).pools@,
    {
        let _ = self.pending.insert(name, m);
    }

    /// Takes the migration set waiting for `name`, if any: it is handed out
    /// once, whether or not it then runs successfully.
    pub fn take_migrations(&mut self, name: &String) -> (r: Option<M>)
        requires
            old(self).wf(),
        ensures
            final(self).wf(),
            r == old(self).pending@.get(name@),
            final(self).pending@ == old(self).pending@.remove(name@),
            final(self).pools@ == old(self).pools@,
    {
        self.pending.remove(name)
    }

    /// Puts `pool` under `name`, handing back the pool it replaced, if any, for
    /// the caller to shut down.
    pub fn install(&mut self, name: String, pool: P) -> (r: Option<P>)
        requires
            old(self).wf(),
        ensures
            final(self).wf(),
            r == old(self).pools@.get(name@),
            final(self).pools@ == old(self).pools@.insert(name@, pool),
            final(self).pending@ == old(self).pending@,
    {
        self.pools.insert(name, pool)
    }

    /// The pool of `name`, or `DatabaseNotLoaded` when there is none.
    pub fn pool(&self, name: &String) -> (r: Result<&P, DbError>)
        requires
            self.wf(),
        ensures
            r is Ok <==> self.pools@.contains_key(name@),
            r matches Ok(p) ==> *p == self.pools@[name@],
            r matches Err(e) ==> e matches DbError::DatabaseNotLoaded(n) && n@ == name@,
    {
        match self.pools.get(name) {
            Some(p) => Ok(p),
            None => Err(DbError::DatabaseNotLoaded(name.clone())),
        }
    }

    /// Removes the pool of `name`, or every pool when no name is given, and
    /// hands the removed pools back with their names for shutting down. A name
    /// with no pool is `DatabaseNotLoaded`, and then nothing changes.
    pub fn close(&mut self, name: Option<String>) -> (r: Result<Vec<(String, P)>, DbError>)
        requires
            old(self).wf(),
        ensures
            final(self).wf(),
            final(self).pending@ == old(self).pending@,
            r is Ok <==> (name matches Some(n) ==> old(self).pools@.contains_key(n@)),
            r matches Ok(v) ==> names_distinct(v@) && entries_map(v@) == closed_by(
                old(self).pools@,
                name,
            ) && final(self).pools@ == after_close(old(self).pools@, name),
            r matches Err(e) ==> final(self).pools@ == old(self).pools@ && (e matches DbError::DatabaseNotLoaded(n) && name
                == Some(n)),
    {
        match name {
            Some(n) => {
                let ghost before = self.pools@;
                match self.pools.remove(&n) {
                    Some(p) => {
                        let v = vec![(n, p)];
                        proof {
                            crate::names::lemma_lookup(v@, 0);
                            assert(entries_map(v@) =~= before.restrict(set![v@[0].0@]));
                        }
                        Ok(v)
                    },
                    None => {
                        assert(self.pools@ =~= before);
                        Err(DbError::DatabaseNotLoaded(n))
                    },
                }
            },
            None => Ok(self.pools.drain_all()),
        }
    }
}

/// Closing without a name unloads every database: afterwards no name has a
/// pool, so `pool` answers `DatabaseNotLoaded` for each of them.
pub proof fn lemma_close_all_unloads<P>(pools: Map<Seq<char>, P>, n: Seq<char>)
    ensures
        !after_close(pools, None).contains_key(n),
{
}

/// A migration set is handed out by the first load of its name only: once
/// taken, a second take of the same name finds nothing until the set is
/// registered again.
pub proof fn lemma_migrations_run_once<M>(pending: Map<Seq<char>, M>, n: Seq<char>)
    ensures
        pending.remove(n).get(n) is None,
{
}

} // verus!
