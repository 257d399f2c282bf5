//! The storage abstraction: a backend holds at most one entry per calendar
//! day, `retrieve_latest` reads today's entry (empty if none), and `store`
//! replaces it wholesale. The abstract contents are a map from days to
//! character sequences; every backend is held to the same model.

use vstd::prelude::*;

use crate::day::Day;
use crate::error::Error;

verus! {

/// The effect of `store`: create or replace the entry for `d`.
pub open spec fn store_model(m: Map<Day, Seq<char>>, d: Day, c: Seq<char>) -> Map<Day, Seq<char>> {
    m.insert(d, c)
}

/// The result of `retrieve_latest`: the entry for `d`, or empty if none
/// exists yet.
pub open spec fn retrieve_model(m: Map<Day, Seq<char>>, d: Day) -> Seq<char> {
    if m.contains_key(d) {
        m[d]
    } else {
        Seq::<char>::empty()
    }
}

/// A diary storage backend, held to the day-keyed map model.
///
/// `store` may fail (the medium decides); on failure the contents are
/// unchanged and the caller ends the session. `retrieve_latest` never fails
/// outward: a backend maps any underlying read failure to the empty result,
/// the same as "nothing written yet".
pub trait Store: Sized {
    /// The entries the store currently holds, one per day.
    spec fn contents(&self) -> Map<Day, Seq<char>>;

    /// The store's internal well-formedness.
    spec fn inv(&self) -> bool;

    /// Returns the content stored for `today`, or the empty string if no
    /// entry exists for it yet.
    fn retrieve_latest(&mut self, today: &Day) -> (r: String)
        requires
            old(self).inv(),
            today.wf(),
        ensures
            final(self).inv(),
            final(self).contents() == old(self).contents(),
            r@ == retrieve_model(old(self).contents(), *today),
    ;

    /// Creates or replaces `today`'s entry with `content`.
    fn store(&mut self, today: &Day, content: &str) -> (r: Result<(), Error>)
        requires
            old(self).inv(),
            today.wf(),
        ensures
            final(self).inv(),
            r is Ok ==> final(self).contents() == store_model(
                old(self).contents(),
                *today,
                content@,
            ),
            r is Err ==> final(self).contents() == old(self).contents(),
    ;
}

/// Maps the outcome of fetching today's entry from the underlying medium to
/// the content handed outward: a missing entry and a failed read both count
/// as "nothing written yet". This is the shared silent-failure policy of
/// `retrieve_latest`.
pub fn content_from_read(r: Option<String>) -> (c: String)
    ensures
        r matches Some(s) ==> c@ == s@,
        r is None ==> c@ == Seq::<char>::empty(),
{
    match r {
        Some(s) => s,
        None => String::new(),
    }
}

/// Law: storing the same content twice is as good as storing it once, and
/// the entry then reads back as that content; storing something else
/// afterwards replaces it wholesale (last write wins, no merge).
pub proof fn lemma_store_idempotent(m: Map<Day, Seq<char>>, d: Day, x: Seq<char>, y: Seq<char>)
    ensures
        store_model(store_model(m, d, x), d, x) == store_model(m, d, x),
        retrieve_model(store_model(store_model(m, d, x), d, x), d) == x,
        retrieve_model(store_model(store_model(m, d, x), d, y), d) == y,
{
    assert(store_model(store_model(m, d, x), d, x) =~= store_model(m, d, x));
}

/// Law: an entry written for day `d1` is invisible on any other day `d2`:
/// as long as `d2` has no entry of its own, reading on `d2` yields the
/// empty result, whatever was stored for `d1`.
pub proof fn lemma_day_isolation(m: Map<Day, Seq<char>>, d1: Day, d2: Day, c: Seq<char>)
    requires
        d1 != d2,
        !m.contains_key(d2),
    ensures
        retrieve_model(store_model(m, d1, c), d2) == Seq::<char>::empty(),
{
}

/// One step of the operation sequences the backends are compared under.
pub enum Op {
    /// Replace today's entry with the given content.
    Store(String),
    /// Read today's entry.
    RetrieveLatest,
}

/// The mathematical image of an operation.
pub enum OpV {
    Store(Seq<char>),
    RetrieveLatest,
}

impl View for Op {
    type V = OpV;

    open spec fn view(&self) -> OpV {
        match self {
            Op::Store(c) => OpV::Store(c@),
            Op::RetrieveLatest => OpV::RetrieveLatest,
        }
    }
}

/// The images of a sequence of operations.
pub open spec fn ops_view(ops: Seq<Op>) -> Seq<OpV> {
    ops.map_values(|o: Op| o@)
}

/// The views of a sequence of returned strings.
pub open spec fn outputs_view(outs: Seq<String>) -> Seq<Seq<char>> {
    outs.map_values(|s: String| s@)
}

/// The contents after running `ops` on day `d`, starting from `m`.
pub open spec fn run_ops_state(m: Map<Day, Seq<char>>, d: Day, ops: Seq<OpV>) -> Map<
    Day,
    Seq<char>,
>
    decreases ops.len(),
{
    if ops.len() == 0 {
        m
    } else {
        let prev = run_ops_state(m, d, ops.drop_last());
        match ops.last() {
            OpV::Store(c) => store_model(prev, d, c),
            OpV::RetrieveLatest => prev,
        }
    }
}

/// The results observed from the retrievals in `ops`, run on day `d`
/// starting from `m`.
pub open spec fn run_ops_outputs(m: Map<Day, Seq<char>>, d: Day, ops: Seq<OpV>) -> Seq<Seq<char>>
    decreases ops.len(),
{
    if ops.len() == 0 {
        Seq::<Seq<char>>::empty()
    } else {
        let prev = run_ops_outputs(m, d, ops.drop_last());
        match ops.last() {
            OpV::Store(_) => prev,
            OpV::RetrieveLatest => prev.push(retrieve_model(run_ops_state(m, d, ops.drop_last()), d)),
        }
    }
}

/// Law: what an operation sequence observes depends on the abstract
/// contents alone, never on which backend holds them. Two backends that
/// start with equal contents — in particular, both empty on a fresh day —
/// observe the identical sequence of results; `replay` ties every `Store`
/// implementation to exactly these results.
pub proof fn lemma_backend_equivalence(
    m1: Map<Day, Seq<char>>,
    m2: Map<Day, Seq<char>>,
    d: Day,
    ops: Seq<OpV>,
)
    requires
        m1 == m2,
    ensures
        run_ops_outputs(m1, d, ops) == run_ops_outputs(m2, d, ops),
{
}

/// Runs an operation sequence against a backend on a fixed day and collects
/// the retrieved results. A failed store ends the run with its error, as it
/// ends a session; only a store can fail, and after a failure the contents
/// stand exactly where some prefix of the sequence left them.
#[verifier::loop_isolation(false)]
pub fn replay<S: Store>(store: &mut S, today: &Day, ops: Vec<Op>) -> (r: Result<Vec<String>, Error>)
    requires
        old(store).inv(),
        today.wf(),
    ensures
        final(store).inv(),
        r is Ok ==> final(store).contents() == run_ops_state(
            old(store).contents(),
            *today,
            ops_view(ops@),
        ),
        r matches Ok(outs) ==> outputs_view(outs@) == run_ops_outputs(
            old(store).contents(),
            *today,
            ops_view(ops@),
        ),
        (forall|i: int| 0 <= i < ops@.len() ==> !(ops_view(ops@)[i] is Store)) ==> r is Ok,
        r is Err ==> exists|n: int|
            0 <= n <= ops@.len() && final(store).contents() == run_ops_state(
                old(store).contents(),
                *today,
                ops_view(ops@).take(n),
            ),
{
    let ghost m0 = old(store).contents();
    let ghost opsv = ops_view(ops@);
    let mut outs: Vec<String> = Vec::new();
    let mut idx: usize = 0;
    while idx < ops.len()
        invariant
            idx <= ops.len(),
            store.inv(),
            today.wf(),
            opsv == ops_view(ops@),
            opsv.len() == ops@.len(),
            store.contents() == run_ops_state(m0, *today, opsv.take(idx as int)),
            outputs_view(outs@) == run_ops_outputs(m0, *today, opsv.take(idx as int)),
        decreases ops.len() - idx,
    {
        let ghost prev_outs = outs@;
        match &ops[idx] {
            Op::RetrieveLatest => {
                let content = store.retrieve_latest(today);
                outs.push(content);
            },
            Op::Store(c) => {
                match store.store(today, c.as_str()) {
                    Ok(_) => {},
                    Err(e) => {
                        proof {
                            assert(ops_view(ops@)[idx as int] is Store);
                            assert(store.contents() == run_ops_state(
                                old(store).contents(),
                                *today,
                                ops_view(ops@).take(idx as int),
                            ));
                        }
                        return Err(e);
                    },
                }
            },
        }
        proof {
            assert(opsv.take(idx + 1).drop_last() =~= opsv.take(idx as int));
            assert(opsv.take(idx + 1).last() == opsv[idx as int]);
            assert(outputs_view(outs@) =~= run_ops_outputs(m0, *today, opsv.take(idx + 1)));
        }
        idx = idx + 1;
    }
    proof {
        assert(opsv.take(ops@.len() as int) =~= opsv);
    }
    Ok(outs)
}

} // verus!
