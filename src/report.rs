//! The result aggregator: reduces the outcomes of one execution pass into a
//! report grouped by service, check and host, with a realm-wide summary.
use crate::config::{Check, Realm, Service};
use crate::engine::{check_items, host_items, realm_items, ItemModel, Outcome};
use vstd::prelude::*;

verus! {

/// The outcome of one check on one host.
pub struct HostStatus {
    pub host: String,
    pub outcome: Outcome,
}

/// The outcomes of one check of a service, in host order.
pub struct CheckReport {
    pub name: String,
    pub hosts: Vec<HostStatus>,
}

/// The outcomes of one service, in check order.
pub struct ServiceReport {
    pub name: String,
    pub checks: Vec<CheckReport>,
}

/// Realm-wide counts.
pub struct Summary {
    pub total: usize,
    pub success: usize,
    pub failure: usize,
}

/// One failing (service, check, host) triple and its reason.
pub struct Failed {
    pub service: String,
    pub check: String,
    pub host: String,
    pub reason: String,
}

pub struct FailedModel {
    pub service: Seq<char>,
    pub check: Seq<char>,
    pub host: Seq<char>,
    pub reason: Seq<char>,
}

impl View for Failed {
    type V = FailedModel;

    open spec fn view(&self) -> FailedModel {
        FailedModel { service: self.service@, check: self.check@, host: self.host@, reason: self.reason@ }
    }
}

/// The aggregate view of all outcomes of one execution pass. Services stay
/// distinct groups by position, also where their names repeat.
pub struct Report {
    pub services: Vec<ServiceReport>,
    pub summary: Summary,
    pub failures: Vec<Failed>,
}

/// The failing triples among `items`, whose outcomes are the first entries of
/// `outs`, in item order.
pub open spec fn failing(items: Seq<ItemModel>, outs: Seq<Outcome>) -> Seq<FailedModel>
    decreases items.len(),
{
    if items.len() == 0 {
        Seq::empty()
    } else {
        let rest = failing(items.drop_last(), outs);
        let it = items.last();
        match outs[items.len() - 1] {
            Outcome::Success => rest,
            Outcome::Failure(r) => rest.push(
                FailedModel { service: it.service, check: it.check, host: it.host, reason: r@ },
            ),
        }
    }
}

pub open spec fn check_outcomes(c: CheckReport) -> Seq<Outcome> {
    c.hosts@.map_values(|h: HostStatus| h.outcome)
}

pub open spec fn service_outcomes(checks: Seq<CheckReport>) -> Seq<Outcome>
    decreases checks.len(),
{
    if checks.len() == 0 {
        Seq::empty()
    } else {
        service_outcomes(checks.drop_last()) + check_outcomes(checks.last())
    }
}

/// All outcomes of a report, read service by service, check by check, host by
/// host.
pub open spec fn report_outcomes(services: Seq<ServiceReport>) -> Seq<Outcome>
    decreases services.len(),
{
    if services.len() == 0 {
        Seq::empty()
    } else {
        report_outcomes(services.drop_last()) + service_outcomes(services.last().checks@)
    }
}

pub open spec fn check_shaped(cr: CheckReport, c: Check, hosts: Seq<String>) -> bool {
    &&& cr.name@ == c.name@
    &&& cr.hosts@.len() == hosts.len()
    &&& forall|k: int| 0 <= k < hosts.len() ==> #[trigger] cr.hosts@[k].host@ == hosts[k]@
}

pub open spec fn service_shaped(sr: ServiceReport, s: Service) -> bool {
    &&& sr.name@ == s.name@
    &&& sr.checks@.len() == s.checks@.len()
    &&& forall|j: int| 0 <= j < s.checks@.len() ==> check_shaped(#[trigger] sr.checks@[j], s.checks@[j], s.hosts@)
}

/// The groups of a report follow the services, checks and hosts of a realm,
/// position by position.
pub open spec fn shaped(rs: Seq<ServiceReport>, svcs: Seq<Service>) -> bool {
    &&& rs.len() == svcs.len()
    &&& forall|i: int| 0 <= i < svcs.len() ==> service_shaped(#[trigger] rs[i], svcs[i])
}

/// `r` is the report of the services `svcs` whose work items, in expansion
/// order, had the outcomes `outs`.
pub open spec fn is_report_of(r: Report, svcs: Seq<Service>, outs: Seq<Outcome>) -> bool {
    &&& shaped(r.services@, svcs)
    &&& report_outcomes(r.services@) == outs
    &&& r.failures@.map_values(|f: Failed| f@) == failing(realm_items(svcs), outs)
    &&& r.summary.total == outs.len()
    &&& r.summary.failure == r.failures@.len()
    &&& r.summary.success == outs.len() - r.failures@.len()
}

proof fn lemma_realm_prefix_len(svcs: Seq<Service>, i: int)
    requires
        0 <= i <= svcs.len(),
    ensures
        realm_items(svcs.take(i)).len() <= realm_items(svcs).len(),
    decreases svcs.len(),
{
    if i < svcs.len() {
        lemma_realm_prefix_len(svcs.drop_last(), i);
        assert(svcs.drop_last().take(i) =~= svcs.take(i));
    } else {
        assert(svcs.take(i) =~= svcs);
    }
}

proof fn lemma_check_prefix_len(s: Service, checks: Seq<Check>, j: int)
    requires
        0 <= j <= checks.len(),
    ensures
        check_items(s, checks.take(j)).len() <= check_items(s, checks).len(),
    decreases checks.len(),
{
    if j < checks.len() {
        lemma_check_prefix_len(s, checks.drop_last(), j);
        assert(checks.drop_last().take(j) =~= checks.take(j));
    } else {
        assert(checks.take(j) =~= checks);
    }
}

/// The report of `realm`, given the outcome of each of its work items in
/// expansion order.
pub fn aggregate(realm: &Realm, outcomes: &Vec<Outcome>) -> (r: Report)
    requires
        outcomes@.len() == realm_items(realm.services@).len(),
    ensures
        is_report_of(r, realm.services@, outcomes@),
{
    let ghost svcs = realm.services@;
    let ghost outs = outcomes@;
    let mut services: Vec<ServiceReport> = Vec::new();
    let mut failures: Vec<Failed> = Vec::new();
    let total: usize = outcomes.len();
    let mut n: usize = 0;
    let mut i: usize = 0;
    while i < realm.services.len()
        invariant
            svcs == realm.services@,
            outs == outcomes@,
            total == outs.len(),
            outs.len() == realm_items(svcs).len(),
            0 <= i <= svcs.len(),
            n == realm_items(svcs.take(i as int)).len(),
            failures@.len() <= n,
            shaped(services@, svcs.take(i as int)),
            report_outcomes(services@) == outs.take(n as int),
            failures@.map_values(|f: Failed| f@) == failing(realm_items(svcs.take(i as int)), outs),
        decreases svcs.len() - i,
    {
        let s = &realm.services[i];
        let ghost items0 = realm_items(svcs.take(i as int));
        let ghost n0 = n as int;
        proof {
            assert(svcs.take(i + 1).drop_last() =~= svcs.take(i as int));
            assert(svcs.take(i + 1).last() == *s);
            lemma_realm_prefix_len(svcs, i + 1);
        }
        let mut checks: Vec<CheckReport> = Vec::new();
        let mut j: usize = 0;
        while j < s.checks.len()
            invariant
                svcs == realm.services@,
                outs == outcomes@,
                total == outs.len(),
                0 <= i < svcs.len(),
                *s == svcs[i as int],
                0 <= j <= s.checks@.len(),
                n0 + check_items(*s, s.checks@).len() <= outs.len(),
                n == n0 + check_items(*s, s.checks@.take(j as int)).len(),
                items0.len() == n0,
                failures@.len() <= n,
                checks@.len() == j,
                forall|jj: int| 0 <= jj < j ==> check_shaped(#[trigger] checks@[jj], s.checks@[jj], s.hosts@),
                service_outcomes(checks@) == outs.subrange(n0, n as int),
                failures@.map_values(|f: Failed| f@) == failing(items0 + check_items(*s, s.checks@.take(j as int)), outs),
            decreases s.checks@.len() - j,
        {
            let c = &s.checks[j];
            let ghost items1 = items0 + check_items(*s, s.checks@.take(j as int));
            let ghost n1 = n as int;
            proof {
                assert(s.checks@.take(j + 1).drop_last() =~= s.checks@.take(j as int));
                assert(s.checks@.take(j + 1).last() == *c);
                lemma_check_prefix_len(*s, s.checks@, j + 1);
            }
            let mut hosts: Vec<HostStatus> = Vec::new();
            let mut k: usize = 0;
            while k < s.hosts.len()
                invariant
                    outs == outcomes@,
                    total == outs.len(),
                    0 <= j < s.checks@.len(),
                    *c == s.checks@[j as int],
                    0 <= k <= s.hosts@.len(),
                    n1 + s.hosts@.len() <= outs.len(),
                    items1.len() == n1,
                    n == n1 + k,
                    failures@.len() <= n,
                    hosts@.len() == k,
                    forall|kk: int| 0 <= kk < k ==> #[trigger] hosts@[kk].host@ == s.hosts@[kk]@,
                    hosts@.map_values(|h: HostStatus| h.outcome) == outs.subrange(n1, n as int),
                    failures@.map_values(|f: Failed| f@) == failing(items1 + host_items(*s, *c, s.hosts@.take(k as int)), outs),
                decreases s.hosts@.len() - k,
            {
                let o = &outcomes[n];
                let ghost cur = items1 + host_items(*s, *c, s.hosts@.take(k as int));
                let ghost item = ItemModel { service: s.name@, check: c.name@, host: s.hosts@[k as int]@, checker: c.checker };
                proof {
                    assert(s.hosts@.take(k + 1) =~= s.hosts@.take(k as int).push(s.hosts@[k as int]));
                    assert(host_items(*s, *c, s.hosts@.take(k + 1)) =~= host_items(*s, *c, s.hosts@.take(k as int)).push(item));
                    assert(items1 + host_items(*s, *c, s.hosts@.take(k + 1)) =~= cur.push(item));
                    assert(cur.push(item).drop_last() =~= cur);
                }
                match o {
                    Outcome::Success => {},
                    Outcome::Failure(reason) => {
                        let f = Failed {
                            service: s.name.clone(),
                            check: c.name.clone(),
                            host: s.hosts[k].clone(),
                            reason: reason.clone(),
                        };
                        let ghost prev = failures@;
                        failures.push(f);
                        proof {
                            assert(failures@ =~= prev.push(f));
                            assert(failures@.map_values(|f: Failed| f@) =~= prev.map_values(|f: Failed| f@).push(f@));
                        }
                    },
                }
                let st = HostStatus { host: s.hosts[k].clone(), outcome: o.duplicate() };
                let ghost prevh = hosts@;
                hosts.push(st);
                proof {
                    assert(hosts@ =~= prevh.push(st));
                    assert(hosts@.map_values(|h: HostStatus| h.outcome) =~= prevh.map_values(|h: HostStatus| h.outcome).push(st.outcome));
                    assert(outs.subrange(n1, n + 1) =~= outs.subrange(n1, n as int).push(outs[n as int]));
                }
                n = n + 1;
                k = k + 1;
            }
            let cr = CheckReport { name: c.name.clone(), hosts };
            let ghost prevc = checks@;
            checks.push(cr);
            proof {
                assert(s.hosts@.take(k as int) =~= s.hosts@);
                assert(checks@ =~= prevc.push(cr));
                assert(checks@.drop_last() =~= prevc);
                assert(outs.subrange(n0, n as int) =~= outs.subrange(n0, n1) + outs.subrange(n1, n as int));
                assert(items0 + check_items(*s, s.checks@.take(j + 1)) =~= items1 + host_items(*s, *c, s.hosts@));
                assert forall|jj: int| 0 <= jj < j + 1 implies check_shaped(#[trigger] checks@[jj], s.checks@[jj], s.hosts@) by {
                    if jj == j {
                        assert(checks@[jj] == cr);
                    }
                }
            }
            j = j + 1;
        }
        let sr = ServiceReport { name: s.name.clone(), checks };
        let ghost prevs = services@;
        services.push(sr);
        proof {
            assert(s.checks@.take(j as int) =~= s.checks@);
            assert(services@ =~= prevs.push(sr));
            assert(services@.drop_last() =~= prevs);
            assert(outs.take(n as int) =~= outs.take(n0) + outs.subrange(n0, n as int));
            assert forall|ii: int| 0 <= ii < i + 1 implies service_shaped(#[trigger] services@[ii], svcs.take(i + 1)[ii]) by {
                if ii < i {
                    assert(services@[ii] == prevs[ii]);
                    assert(svcs.take(i + 1)[ii] == svcs.take(i as int)[ii]);
                }
            }
        }
        i = i + 1;
    }
    proof {
        assert(svcs.take(i as int) =~= svcs);
        assert(outs.take(n as int) =~= outs);
    }
    let failure = failures.len();
    Report { services, summary: Summary { total, success: total - failure, failure }, failures }
}

/// The grouping structure of a report: service names, and for each service its
/// check names, and for each check its hosts.
pub open spec fn shape_of(rs: Seq<ServiceReport>) -> Seq<(Seq<char>, Seq<(Seq<char>, Seq<Seq<char>>)>)> {
    rs.map_values(
        |sr: ServiceReport|
            (sr.name@, sr.checks@.map_values(|cr: CheckReport| (cr.name@, cr.hosts@.map_values(|h: HostStatus| h.host@)))),
    )
}

/// The grouping structure that a realm's services call for.
pub open spec fn realm_shape(svcs: Seq<Service>) -> Seq<(Seq<char>, Seq<(Seq<char>, Seq<Seq<char>>)>)> {
    svcs.map_values(
        |s: Service| (s.name@, s.checks@.map_values(|c: Check| (c.name@, s.hosts@.map_values(|h: String| h@)))),
    )
}

proof fn lemma_shaped_shape(rs: Seq<ServiceReport>, svcs: Seq<Service>)
    requires
        shaped(rs, svcs),
    ensures
        shape_of(rs) == realm_shape(svcs),
{
    assert forall|i: int| 0 <= i < svcs.len() implies #[trigger] shape_of(rs)[i] == realm_shape(svcs)[i] by {
        let sr = rs[i];
        let s = svcs[i];
        assert(service_shaped(sr, s));
        let a = sr.checks@.map_values(|cr: CheckReport| (cr.name@, cr.hosts@.map_values(|h: HostStatus| h.host@)));
        let b = s.checks@.map_values(|c: Check| (c.name@, s.hosts@.map_values(|h: String| h@)));
        assert forall|j: int| 0 <= j < b.len() implies #[trigger] a[j] == b[j] by {
            assert(check_shaped(sr.checks@[j], s.checks@[j], s.hosts@));
            assert(sr.checks@[j].hosts@.map_values(|h: HostStatus| h.host@) =~= s.hosts@.map_values(|h: String| h@));
        }
        assert(a =~= b);
    }
    assert(shape_of(rs) =~= realm_shape(svcs));
}

/// Two reports of the same realm have the same grouping and ordering
/// structure, whatever outcomes each pass observed.
pub proof fn lemma_report_shape_stable(
    svcs: Seq<Service>,
    outs1: Seq<Outcome>,
    outs2: Seq<Outcome>,
    r1: Report,
    r2: Report,
)
    requires
        is_report_of(r1, svcs, outs1),
        is_report_of(r2, svcs, outs2),
    ensures
        shape_of(r1.services@) == shape_of(r2.services@),
        shape_of(r1.services@) == realm_shape(svcs),
{
    lemma_shaped_shape(r1.services@, svcs);
    lemma_shaped_shape(r2.services@, svcs);
}

/// For a fixed realm and fixed outcomes, every report lists the same failing
/// triples in the same order, with the same summary.
pub proof fn lemma_failures_deterministic(svcs: Seq<Service>, outs: Seq<Outcome>, r1: Report, r2: Report)
    requires
        is_report_of(r1, svcs, outs),
        is_report_of(r2, svcs, outs),
    ensures
        r1.failures@.map_values(|f: Failed| f@) == r2.failures@.map_values(|f: Failed| f@),
        r1.summary == r2.summary,
{
    assert(r1.failures@.len() == r1.failures@.map_values(|f: Failed| f@).len());
    assert(r2.failures@.len() == r2.failures@.map_values(|f: Failed| f@).len());
}

} // verus!
