//! The schema accumulator: records table-creation requests together with
//! their deferred callbacks, and renders them all in one `exec` call.

use vstd::prelude::*;
use vstd::string::StringExecFns;
use crate::render::{output_of, stmt_of, frags_of, qualified_of};
use crate::skeleton::Table;

verus! {

/// The optional namespace as a ghost value.
pub open spec fn ns_view(ns: Option<String>) -> Option<Seq<char>> {
    match ns {
        Some(s) => Some(s@),
        None => None,
    }
}

/// One render outcome: `finals` are populated skeletons, one per job, each a
/// possible result of that job's callback applied to that job's skeleton
/// alone, and `out` is the rendered text of exactly those skeletons.
pub open spec fn renders<F: Fn(Table) -> Table>(
    jobs: Seq<(Table, F)>,
    ns: Option<Seq<char>>,
    finals: Seq<Table>,
    out: Seq<char>,
) -> bool {
    &&& finals.len() == jobs.len()
    &&& (forall|i: int|
        0 <= i < jobs.len() ==> #[trigger] call_ensures(jobs[i].1, (jobs[i].0,), finals[i]))
    &&& out == output_of(ns, finals)
}

/// The deferred-execution accumulator: an optional namespace fixed at
/// construction, and the ordered list of pending jobs, each a fresh skeleton
/// paired with the callback that will populate it at render time.
#[verifier::reject_recursive_types(F)]
pub struct Schema<F> {
    /// The namespace qualifying every table name, if one was configured.
    pub namespace: Option<String>,
    /// The pending jobs, in registration order.
    pub jobs: Vec<(Table, F)>,
}

impl<F: Fn(Table) -> Table> Schema<F> {
    /// Every pending callback accepts any skeleton it may be handed.
    pub open spec fn wf(&self) -> bool {
        forall|i: int, t: Table|
            0 <= i < self.jobs@.len() ==> #[trigger] call_requires(self.jobs@[i].1, (t,))
    }

    /// An accumulator with no namespace and no jobs.
    pub fn new() -> (result: Schema<F>)
        ensures
            ns_view(result.namespace) == None::<Seq<char>>,
            result.jobs@.len() == 0,
            result.wf(),
    {
        Schema::make(None)
    }

    /// An accumulator scoped to the namespace `s`, with no jobs.
    pub fn name(s: &str) -> (result: Schema<F>)
        ensures
            ns_view(result.namespace) == Some(s@),
            result.jobs@.len() == 0,
            result.wf(),
    {
        Schema::make(Some(s))
    }

    /// Append one job: a fresh skeleton carrying `name` and no fragments,
    /// paired with `cb`. The callback is not invoked; it runs once, during
    /// rendering. Returns the accumulator to support chained registration.
    ///
    /// The callback must accept whatever skeleton it is handed, since the
    /// renderer invokes it unconditionally.
    pub fn create_table(self, name: &str, cb: F) -> (result: Schema<F>)
        requires
            self.wf(),
            forall|t: Table| #[trigger] call_requires(cb, (t,)),
        ensures
            result.wf(),
            result.namespace == self.namespace,
            result.jobs@.len() == self.jobs@.len() + 1,
            result.jobs@.drop_last() == self.jobs@,
            result.jobs@.last().0.name@ == name@,
            result.jobs@.last().0.frags() == Seq::<Seq<char>>::empty(),
            result.jobs@.last().1 == cb,
    {
        let ghost orig = self.jobs@;
        let ghost cbg = cb;
        let mut s = self;
        let t = Table::new(name);
        s.jobs.push((t, cb));
        proof {
            assert(s.jobs@.drop_last() =~= orig);
            assert forall|i: int, tt: Table|
                0 <= i < s.jobs@.len() implies #[trigger] call_requires(
                s.jobs@[i].1,
                (tt,),
            ) by {
                if i < orig.len() {
                    assert(s.jobs@[i] == orig[i]);
                    assert(call_requires(orig[i].1, (tt,)));
                } else {
                    assert(s.jobs@[i].1 == cbg);
                }
            }
        }
        s
    }

    /// Render all pending jobs, in registration order, draining the job
    /// list.
    ///
    /// For each job in turn the callback runs exactly once, against that
    /// job's own skeleton and no other, and one statement is appended to the
    /// output: `create table`, the double-quoted qualified name (the
    /// namespace qualifier is omitted when none is configured), and the
    /// parenthesized verbatim concatenation of the skeleton's fragments.
    /// Statements are concatenated with no separator between them.
    ///
    /// Rendering consumes the jobs: a second call finds none left and
    /// returns the empty string, so no callback ever runs twice.
    pub fn exec(&mut self) -> (out: String)
        requires
            old(self).wf(),
        ensures
            final(self).namespace == old(self).namespace,
            final(self).jobs@.len() == 0,
            final(self).wf(),
            exists|finals: Seq<Table>|
                #[trigger] renders(old(self).jobs@, ns_view(old(self).namespace), finals, out@),
            old(self).jobs@.len() == 0 ==> out@ == Seq::<char>::empty(),
    {
        let mut out = String::new();
        let ghost orig: Seq<(Table, F)> = self.jobs@;
        let ghost gns: Option<Seq<char>> = ns_view(self.namespace);
        let ghost mut finals: Seq<Table> = Seq::empty();
        proof {
            assert(output_of(gns, finals) == Seq::<char>::empty());
        }
        while self.jobs.len() > 0
            invariant
                self.namespace == old(self).namespace,
                ns_view(self.namespace) == gns,
                finals.len() + self.jobs@.len() == orig.len(),
                self.jobs@ == orig.skip(finals.len() as int),
                forall|i: int, t: Table|
                    0 <= i < orig.len() ==> #[trigger] call_requires(orig[i].1, (t,)),
                forall|i: int|
                    0 <= i < finals.len() ==> #[trigger] call_ensures(
                        orig[i].1,
                        (orig[i].0,),
                        finals[i],
                    ),
                out@ == output_of(gns, finals),
            decreases self.jobs@.len(),
        {
            let ghost k = finals.len() as int;
            proof {
                assert(self.jobs@[0] == orig.skip(k)[0]);
                assert(orig.skip(k)[0] == orig[k]);
            }
            let pair = self.jobs.remove(0);
            proof {
                assert(self.jobs@ =~= orig.skip(k + 1));
            }
            let (skel, cb) = pair;
            let t = cb(skel);
            let ghost prestmt = out@;
            out.append("create table ");
            match &self.namespace {
                Some(nsref) => {
                    out.append("\"");
                    out.append(nsref.as_str());
                    out.append("\".\"");
                    out.append(t.name.as_str());
                    out.append("\"");
                }
                None => {
                    out.append("\"");
                    out.append(t.name.as_str());
                    out.append("\"");
                }
            }
            out.append(" (");
            proof {
                assert(out@ =~= prestmt + "create table "@ + qualified_of(gns, t.name@) + " ("@);
            }
            let ghost base = out@;
            proof {
                assert(t.frags().take(0) =~= Seq::<Seq<char>>::empty());
                assert(frags_of(t.frags().take(0)) == Seq::<char>::empty());
                assert(out@ =~= base + frags_of(t.frags().take(0)));
            }
            let mut j: usize = 0;
            while j < t.items.len()
                invariant
                    j <= t.items.len(),
                    t.frags().len() == t.items.len(),
                    out@ == base + frags_of(t.frags().take(j as int)),
                decreases t.items.len() - j,
            {
                out.append(t.items[j].as_str());
                proof {
                    let fj = t.frags()[j as int];
                    assert(t.items@[j as int]@ == fj);
                    assert(t.frags().take(j as int + 1).drop_last() =~= t.frags().take(j as int));
                    assert(t.frags().take(j as int + 1).last() == fj);
                    assert(out@ =~= base + frags_of(t.frags().take(j as int + 1)));
                }
                j = j + 1;
            }
            out.append(")");
            proof {
                assert(t.frags().take(t.items.len() as int) =~= t.frags());
                assert(out@ =~= prestmt + stmt_of(gns, t));
                let prefinals = finals;
                finals = finals.push(t);
                assert(finals.drop_last() =~= prefinals);
                assert(finals.last() == t);
                assert(output_of(gns, finals) == output_of(gns, prefinals) + stmt_of(gns, t));
                assert(out@ =~= output_of(gns, finals));
                assert(call_ensures(orig[k].1, (orig[k].0,), t));
                assert forall|i: int|
                    0 <= i < finals.len() implies #[trigger] call_ensures(
                    orig[i].1,
                    (orig[i].0,),
                    finals[i],
                ) by {
                    if i < k {
                        assert(finals[i] == prefinals[i]);
                    } else {
                        assert(finals[i] == t);
                    }
                }
            }
        }
        proof {
            assert(finals.len() == orig.len());
            assert(renders(orig, gns, finals, out@));
            if orig.len() == 0 {
                assert(finals =~= Seq::<Table>::empty());
                assert(out@ == Seq::<char>::empty());
            }
        }
        out
    }

    /// A utility constructor shared by `new` and `name`.
    fn make(s: Option<&str>) -> (result: Schema<F>)
        ensures
            ns_view(result.namespace) == (match s {
                Some(n) => Some(n@),
                None => None::<Seq<char>>,
            }),
            result.jobs@.len() == 0,
            result.wf(),
    {
        Schema {
            namespace: match s {
                Some(n) => Some(String::from_str(n)),
                None => None,
            },
            jobs: Vec::new(),
        }
    }
}

} // verus!
