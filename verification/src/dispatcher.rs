//! The dispatcher: systems register under a name together with the names
//! they must run strictly after; building resolves the names into a
//! dependency graph and computes an execution order consistent with it, or
//! reports the configuration error; dispatching executes every registered
//! system exactly once in that order.

use vstd::prelude::*;
use vstd::std_specs::vec::vec_index_mut;

use crate::model::{run_schedule, schedule_pre, sys_pre, SystemKind};
use crate::systems::{SystemPosDrawable, SystemPosVel, SystemVelControlled};
use crate::world::World;

verus! {

/// One registered system: its kind, its name, and the names of the systems
/// it must run strictly after.
pub struct Registration {
    pub kind: SystemKind,
    pub name: String,
    pub deps: Vec<String>,
}

/// A configuration error surfaced while the dispatcher is built; both are
/// unrecoverable setup faults.
#[derive(Clone, Copy, PartialEq, Eq, Structural, Debug)]
pub enum ConfigError {
    /// Some system declares a dependency name with no matching registered
    /// system.
    UnknownDependency,
    /// The declared dependencies admit no execution order.
    DependencyCycle,
}

/// System `i` declares a dependency on the name of system `j`.
pub open spec fn depends_on(rs: Seq<Registration>, i: int, j: int) -> bool {
    exists|d: int| 0 <= d < rs[i].deps@.len() && rs[i].deps@[d]@ == rs[j].name@
}

/// Every declared dependency names some registered system.
pub open spec fn resolves(rs: Seq<Registration>) -> bool {
    forall|i: int, d: int|
        0 <= i < rs.len() && 0 <= d < rs[i].deps@.len() ==> exists|j: int|
            0 <= j < rs.len() && rs[j].name@ == #[trigger] rs[i].deps@[d]@
}

/// `order` runs every registered system exactly once, and a system only
/// strictly after every system it depends on.
pub open spec fn valid_order(rs: Seq<Registration>, order: Seq<int>) -> bool {
    &&& order.len() == rs.len()
    &&& forall|a: int| 0 <= a < order.len() ==> 0 <= #[trigger] order[a] < rs.len()
    &&& forall|a: int, b: int| 0 <= a < b < order.len() ==> order[a] != order[b]
    &&& forall|i: int| 0 <= i < rs.len() ==> order.contains(i)
    &&& forall|a: int, b: int|
        0 <= a < order.len() && 0 <= b < order.len() && #[trigger] depends_on(
            rs,
            order[b],
            order[a],
        ) ==> a < b
}

/// Some execution order consistent with the declared dependencies exists —
/// equivalently, the dependency graph is acyclic.
pub open spec fn schedulable(rs: Seq<Registration>) -> bool {
    exists|order: Seq<int>| valid_order(rs, order)
}

/// Every system that `i` depends on is marked in `scheduled`.
pub open spec fn deps_scheduled(rs: Seq<Registration>, scheduled: Seq<bool>, i: int) -> bool {
    forall|j: int| 0 <= j < rs.len() && #[trigger] depends_on(rs, i, j) ==> scheduled[j]
}

/// How many entries of `s` are set.
pub open spec fn count_true(s: Seq<bool>) -> int
    decreases s.len(),
{
    if s.len() == 0 {
        0
    } else {
        count_true(s.drop_last()) + if s.last() {
            1int
        } else {
            0
        }
    }
}

proof fn lemma_count_true_le(s: Seq<bool>)
    ensures
        count_true(s) <= s.len(),
    decreases s.len(),
{
    if s.len() > 0 {
        lemma_count_true_le(s.drop_last());
    }
}

proof fn lemma_count_true_update(s: Seq<bool>, i: int)
    requires
        0 <= i < s.len(),
        !s[i],
    ensures
        count_true(s.update(i, true)) == count_true(s) + 1,
    decreases s.len(),
{
    let t = s.update(i, true);
    if i == s.len() - 1 {
        assert(t.drop_last() =~= s.drop_last());
    } else {
        lemma_count_true_update(s.drop_last(), i);
        assert(t.drop_last() =~= s.drop_last().update(i, true));
        assert(t.last() == s.last());
    }
}

proof fn lemma_count_true_full(s: Seq<bool>)
    requires
        count_true(s) == s.len(),
    ensures
        forall|i: int| 0 <= i < s.len() ==> s[i],
    decreases s.len(),
{
    if s.len() > 0 {
        lemma_count_true_le(s.drop_last());
        assert(s.last());
        lemma_count_true_full(s.drop_last());
        assert forall|i: int| 0 <= i < s.len() implies s[i] by {
            if i < s.len() - 1 {
                assert(s.drop_last()[i]);
            }
        }
    }
}

/// In a stalled state — every system is either scheduled or still waits for
/// an unscheduled dependency, yet not all are scheduled — the system at any
/// position of a valid order would already be scheduled.
proof fn lemma_valid_order_scheduled(
    rs: Seq<Registration>,
    scheduled: Seq<bool>,
    order: Seq<int>,
    a: int,
)
    requires
        scheduled.len() == rs.len(),
        forall|i: int| 0 <= i < rs.len() ==> scheduled[i] || !deps_scheduled(rs, scheduled, i),
        valid_order(rs, order),
        0 <= a < order.len(),
    ensures
        scheduled[order[a]],
    decreases a,
{
    if !scheduled[order[a]] {
        assert(!deps_scheduled(rs, scheduled, order[a]));
        let j = choose|j: int|
            0 <= j < rs.len() && #[trigger] depends_on(rs, order[a], j) && !scheduled[j];
        assert(order.contains(j));
        let b = choose|b: int| 0 <= b < order.len() && order[b] == j;
        assert(depends_on(rs, order[a], order[b]));
        assert(b < a);
        lemma_valid_order_scheduled(rs, scheduled, order, b);
        assert(false);
    }
}

/// A stalled build cannot be completed by any order: the declared
/// dependencies admit none.
proof fn lemma_stalled_not_schedulable(rs: Seq<Registration>, scheduled: Seq<bool>)
    requires
        scheduled.len() == rs.len(),
        count_true(scheduled) < rs.len(),
        forall|i: int| 0 <= i < rs.len() ==> scheduled[i] || !deps_scheduled(rs, scheduled, i),
    ensures
        !schedulable(rs),
{
    assert forall|order: Seq<int>| !valid_order(rs, order) by {
        if valid_order(rs, order) {
            assert forall|i: int| 0 <= i < scheduled.len() implies scheduled[i] by {
                assert(order.contains(i));
                let a = choose|a: int| 0 <= a < order.len() && order[a] == i;
                lemma_valid_order_scheduled(rs, scheduled, order, a);
            }
            lemma_count_true_full_converse(scheduled);
            assert(false);
        }
    }
}

proof fn lemma_count_true_full_converse(s: Seq<bool>)
    requires
        forall|i: int| 0 <= i < s.len() ==> s[i],
    ensures
        count_true(s) == s.len(),
    decreases s.len(),
{
    if s.len() > 0 {
        lemma_count_true_full_converse(s.drop_last());
    }
}

/// Accumulates system registrations; `build` turns them into a dispatcher
/// or reports the configuration error.
pub struct DispatcherBuilder {
    pub entries: Vec<Registration>,
}

impl DispatcherBuilder {
    pub fn new() -> (b: Self)
        ensures
            b.entries@.len() == 0,
    {
        DispatcherBuilder { entries: Vec::new() }
    }

    /// Register a system under `name`; it will run strictly after every
    /// system named in `deps`.
    pub fn add(self, kind: SystemKind, name: String, deps: Vec<String>) -> (b: Self)
        ensures
            b.entries@.len() == self.entries@.len() + 1,
            forall|i: int|
                0 <= i < self.entries@.len() ==> b.entries@[i] == self.entries@[i],
            b.entries@.last().kind == kind,
            b.entries@.last().name == name,
            b.entries@.last().deps == deps,
    {
        let mut entries = self.entries;
        entries.push(Registration { kind, name, deps });
        DispatcherBuilder { entries }
    }

    /// Resolve the declared dependencies and compute an execution order.
    /// Succeeds exactly when every dependency names a registered system and
    /// the graph is acyclic; otherwise the configuration error says which
    /// fault was found, unresolved names taking precedence.
    pub fn build(self) -> (r: Result<Dispatcher, ConfigError>)
        ensures
            match r {
                Ok(d) => {
                    &&& resolves(self.entries@)
                    &&& d.systems@ == self.entries@.map_values(|reg: Registration| reg.kind)
                    &&& valid_order(self.entries@, d.order@.map_values(|u: usize| u as int))
                    &&& d.wf()
                },
                Err(ConfigError::UnknownDependency) => !resolves(self.entries@),
                Err(ConfigError::DependencyCycle) => resolves(self.entries@) && !schedulable(
                    self.entries@,
                ),
            },
    {
        let entries = self.entries;
        let n = entries.len();
        // First pass: every declared dependency must name a registered system.
        let mut i: usize = 0;
        while i < n
            invariant
                entries == self.entries,
                n == entries@.len(),
                forall|i2: int, d2: int|
                    0 <= i2 < i as int && 0 <= d2 < entries@[i2].deps@.len() ==> exists|j: int|
                        0 <= j < n as int && entries@[j].name@ == #[trigger] entries@[i2].deps@[d2]@,
            decreases n - i,
        {
            let nd = entries[i].deps.len();
            let mut d: usize = 0;
            while d < nd
                invariant
                    entries == self.entries,
                    n == entries@.len(),
                    i < n,
                    nd == entries@[i as int].deps@.len(),
                    forall|d2: int|
                        0 <= d2 < d as int ==> exists|j: int|
                            0 <= j < n as int && entries@[j].name@ == #[trigger] entries@[i as int].deps@[d2]@,
                decreases nd - d,
            {
                let mut found = false;
                let mut j: usize = 0;
                while j < n
                    invariant
                        n == entries@.len(),
                        i < n,
                        d < nd,
                        nd == entries@[i as int].deps@.len(),
                        found ==> exists|j2: int|
                            0 <= j2 < n as int && entries@[j2].name@ == entries@[i as int].deps@[d as int]@,
                        !found ==> forall|j2: int|
                            0 <= j2 < j as int ==> entries@[j2].name@ != entries@[i as int].deps@[d as int]@,
                    decreases n - j,
                {
                    if entries[j].name == entries[i].deps[d] {
                        found = true;
                    }
                    j += 1;
                }
                if !found {
                    proof {
                        if resolves(entries@) {
                            assert(0 <= (i as int) && (i as int) < entries@.len());
                            assert(0 <= (d as int) && (d as int) < entries@[i as int].deps@.len());
                            assert(exists|j2: int|
                                0 <= j2 < entries@.len() && entries@[j2].name@ == entries@[i as int].deps@[d as int]@);
                            let j2 = choose|j2: int|
                                0 <= j2 < entries@.len() && entries@[j2].name@ == entries@[i as int].deps@[d as int]@;
                            assert(entries@[j2].name@ != entries@[i as int].deps@[d as int]@);
                            assert(false);
                        }
                        assert(!resolves(entries@));
                        assert(!resolves(self.entries@));
                    }
                    return Err(ConfigError::UnknownDependency);
                }
                d += 1;
            }
            i += 1;
        }
        // Second pass: repeatedly schedule a system whose dependencies are
        // all scheduled; when none exists, the graph has a cycle.
        let mut scheduled: Vec<bool> = Vec::new();
        let mut k: usize = 0;
        while k < n
            invariant
                scheduled@.len() == k as int,
                k <= n,
                forall|i2: int| 0 <= i2 < k as int ==> !scheduled@[i2],
            decreases n - k,
        {
            scheduled.push(false);
            k += 1;
        }
        proof {
            lemma_count_all_false(scheduled@);
        }
        let mut order: Vec<usize> = Vec::new();
        while order.len() < n
            invariant
                entries == self.entries,
                n == entries@.len(),
                resolves(entries@),
                scheduled@.len() == n as int,
                order@.len() <= n,
                count_true(scheduled@) == order@.len(),
                forall|a: int|
                    0 <= a < order@.len() ==> (#[trigger] order@[a]) < n,
                forall|a: int, b: int|
                    0 <= a < b < order@.len() ==> order@[a] != order@[b],
                forall|i2: int|
                    0 <= i2 < n as int ==> (scheduled@[i2] <==> exists|a: int|
                        0 <= a < order@.len() && #[trigger] order@[a] as int == i2),
                forall|a: int, j: int|
                    0 <= a < order@.len() && 0 <= j < n as int && #[trigger] depends_on(
                        entries@,
                        order@[a] as int,
                        j,
                    ) ==> exists|b: int| 0 <= b < a && #[trigger] order@[b] as int == j,
            decreases n - order.len(),
        {
            let mut pick: usize = n;
            let mut i2: usize = 0;
            while i2 < n
                invariant
                    entries == self.entries,
                    n == entries@.len(),
                    resolves(entries@),
                    scheduled@.len() == n as int,
                    i2 <= n,
                    pick == n || (pick < n && !scheduled@[pick as int] && deps_scheduled(
                        entries@,
                        scheduled@,
                        pick as int,
                    )),
                    pick == n ==> forall|i3: int|
                        0 <= i3 < i2 as int ==> scheduled@[i3] || !deps_scheduled(
                            entries@,
                            scheduled@,
                            i3,
                        ),
                decreases n - i2,
            {
                if pick == n && !scheduled[i2] {
                    if ready(&entries, &scheduled, i2) {
                        pick = i2;
                    }
                }
                i2 += 1;
            }
            if pick == n {
                proof {
                    lemma_count_true_le(scheduled@);
                    lemma_stalled_not_schedulable(entries@, scheduled@);
                }
                return Err(ConfigError::DependencyCycle);
            }
            let ghost old_scheduled = scheduled@;
            let ghost old_order = order@;
            let slot = vec_index_mut(&mut scheduled, pick);
            *slot = true;
            order.push(pick);
            proof {
                lemma_count_true_update(old_scheduled, pick as int);
                assert(scheduled@ =~= old_scheduled.update(pick as int, true));
                assert(order@[old_order.len() as int] == pick);
                assert forall|i3: int|
                    0 <= i3 < n as int implies (scheduled@[i3] <==> exists|a: int|
                        0 <= a < order@.len() && #[trigger] order@[a] as int == i3) by {
                    if i3 == pick as int {
                        assert(order@[old_order.len() as int] as int == i3);
                    } else {
                        if scheduled@[i3] {
                            let a = choose|a: int|
                                0 <= a < old_order.len() && #[trigger] old_order[a] as int == i3;
                            assert(order@[a] as int == i3);
                        } else {
                            if exists|a: int|
                                0 <= a < order@.len() && #[trigger] order@[a] as int == i3 {
                                let a = choose|a: int|
                                    0 <= a < order@.len() && #[trigger] order@[a] as int == i3;
                                assert(a < old_order.len());
                                assert(old_order[a] as int == i3);
                                assert(false);
                            }
                        }
                    }
                }
                assert forall|a: int, j: int|
                    0 <= a < order@.len() && 0 <= j < n as int && #[trigger] depends_on(
                        entries@,
                        order@[a] as int,
                        j,
                    ) implies exists|b: int| 0 <= b < a && #[trigger] order@[b] as int == j by {
                    if a < old_order.len() {
                        let b = choose|b: int| 0 <= b < a && #[trigger] old_order[b] as int == j;
                        assert(order@[b] as int == j);
                    } else {
                        assert(order@[a] as int == pick as int);
                        assert(old_scheduled[j]);
                        let b = choose|b: int|
                            0 <= b < old_order.len() && #[trigger] old_order[b] as int == j;
                        assert(order@[b] as int == j);
                        assert(b < a);
                    }
                }
            }
        }
        // Extract the kinds in registration order.
        let mut systems: Vec<SystemKind> = Vec::new();
        let mut s: usize = 0;
        while s < n
            invariant
                entries == self.entries,
                n == entries@.len(),
                systems@.len() == s as int,
                s <= n,
                forall|i2: int| 0 <= i2 < s as int ==> systems@[i2] == entries@[i2].kind,
            decreases n - s,
        {
            systems.push(entries[s].kind);
            s += 1;
        }
        let d = Dispatcher { systems, order };
        proof {
            assert(d.systems@ =~= entries@.map_values(|reg: Registration| reg.kind));
            let order_int = d.order@.map_values(|u: usize| u as int);
            assert forall|i3: int| 0 <= i3 < entries@.len() implies order_int.contains(i3) by {
                lemma_count_true_full(scheduled@);
                assert(scheduled@[i3]);
                let a = choose|a: int|
                    0 <= a < d.order@.len() && #[trigger] d.order@[a] as int == i3;
                assert(order_int[a] == i3);
            }
            assert forall|a: int, b: int|
                0 <= a < order_int.len() && 0 <= b < order_int.len() && #[trigger] depends_on(
                    entries@,
                    order_int[b],
                    order_int[a],
                ) implies a < b by {
                let j = order_int[a];
                let b2 = choose|b2: int| 0 <= b2 < b && #[trigger] d.order@[b2] as int == j;
                assert(d.order@[b2] == d.order@[a]);
                assert(b2 == a);
            }
            assert(valid_order(entries@, order_int));
        }
        Ok(d)
    }
}

proof fn lemma_count_all_false(s: Seq<bool>)
    requires
        forall|i: int| 0 <= i < s.len() ==> !s[i],
    ensures
        count_true(s) == 0,
    decreases s.len(),
{
    if s.len() > 0 {
        lemma_count_all_false(s.drop_last());
    }
}

/// Whether every dependency of system `i` is already scheduled.
fn ready(entries: &Vec<Registration>, scheduled: &Vec<bool>, i: usize) -> (r: bool)
    requires
        i < entries@.len(),
        scheduled@.len() == entries@.len(),
    ensures
        r == deps_scheduled(entries@, scheduled@, i as int),
{
    let n = entries.len();
    let mut j: usize = 0;
    while j < n
        invariant
            n == entries@.len(),
            i < n,
            scheduled@.len() == n as int,
            j <= n,
            forall|j2: int|
                0 <= j2 < j as int && #[trigger] depends_on(entries@, i as int, j2)
                    ==> scheduled@[j2],
        decreases n - j,
    {
        if !scheduled[j] {
            let nd = entries[i].deps.len();
            let mut d: usize = 0;
            let mut dep_found = false;
            while d < nd
                invariant
                    n == entries@.len(),
                    i < n,
                    j < n,
                    nd == entries@[i as int].deps@.len(),
                    dep_found ==> depends_on(entries@, i as int, j as int),
                    !dep_found ==> forall|d2: int|
                        0 <= d2 < d as int ==> entries@[i as int].deps@[d2]@ != entries@[j as int].name@,
                decreases nd - d,
            {
                if entries[i].deps[d] == entries[j].name {
                    dep_found = true;
                }
                d += 1;
            }
            if dep_found {
                return false;
            }
            proof {
                if depends_on(entries@, i as int, j as int) {
                    let d2 = choose|d2: int|
                        0 <= d2 < entries@[i as int].deps@.len() && entries@[i as int].deps@[d2]@
                            == entries@[j as int].name@;
                    assert(false);
                }
            }
        }
        j += 1;
    }
    true
}

/// Executes every registered system exactly once per dispatch, in the order
/// computed at build time.
pub struct Dispatcher {
    pub systems: Vec<SystemKind>,
    pub order: Vec<usize>,
}

impl Dispatcher {
    /// The order is a permutation of the registered systems.
    pub open spec fn wf(&self) -> bool {
        &&& self.order@.len() == self.systems@.len()
        &&& forall|a: int|
            0 <= a < self.order@.len() ==> (#[trigger] self.order@[a] as int) < self.systems@.len()
    }

    /// The system kinds in execution order.
    pub open spec fn schedule(&self) -> Seq<SystemKind> {
        self.order@.map_values(|u: usize| self.systems@[u as int])
    }

    /// Run every registered system once, in the computed order.
    pub fn dispatch(&self, w: &mut World)
        requires
            self.wf(),
            schedule_pre(old(w)@, self.schedule()),
        ensures
            final(w)@ == run_schedule(old(w)@, self.schedule()),
    {
        let len = self.order.len();
        let mut a: usize = 0;
        while a < len
            invariant
                self.wf(),
                len == self.order@.len(),
                a <= len,
                schedule_pre(old(w)@, self.schedule()),
                w@ == run_schedule(old(w)@, self.schedule().take(a as int)),
            decreases len - a,
        {
            let idx = self.order[a];
            let kind = self.systems[idx];
            proof {
                assert(self.schedule()[a as int] == kind);
                assert(sys_pre(run_schedule(old(w)@, self.schedule().take(a as int)), kind));
            }
            match kind {
                SystemKind::VelControl => {
                    let sys = SystemVelControlled;
                    sys.run(w);
                },
                SystemKind::PosIntegrate => {
                    let sys = SystemPosVel;
                    sys.run(w);
                },
                SystemKind::PosDrawSync => {
                    let sys = SystemPosDrawable;
                    sys.run(w);
                },
            }
            proof {
                assert(self.schedule().take(a + 1).drop_last() =~= self.schedule().take(a as int));
                assert(self.schedule().take(a + 1).last() == kind);
                assert(w@ == run_schedule(old(w)@, self.schedule().take(a + 1)));
            }
            a += 1;
        }
        proof {
            assert(self.schedule().take(len as int) =~= self.schedule());
        }
    }
}

} // verus!
