//! The checker: one record for each requested domain, the published
//! ranges, and the step that writes what the probes showed into the records.

use crate::cf_ips::CFIPs;
use crate::domain::{
    any_signal, lemma_verified_record_is_consistent, normalized, valid_domain, verified, Domain,
    Probe,
};
use crate::helpers::split_to_string_vec;
use crate::text::{split, texts};
use vstd::prelude::*;

verus! {

/// The test that a line stands for a domain.
pub open spec fn is_valid_line() -> spec_fn(Seq<char>) -> bool {
    |line: Seq<char>| valid_domain(line)
}

/// The test that a record has a signal.
pub open spec fn is_detected() -> spec_fn(Domain) -> bool {
    |domain: Domain| domain.check_result != 0
}

/// The names of the records that `lines` give: one for each line that
/// stands for a domain, in the order of the lines.
pub open spec fn accepted_names(lines: Seq<Seq<char>>) -> Seq<Seq<char>> {
    lines.filter(is_valid_line()).map_values(|line: Seq<char>| normalized(line))
}

/// The names of `domains`.
pub open spec fn names(domains: Seq<Domain>) -> Seq<Seq<char>> {
    domains.map_values(|domain: Domain| domain.name@)
}

/// The records after each was given the probe with its own index.
pub open spec fn checked(domains: Seq<Domain>, probes: Seq<Probe>, ranges: Seq<Seq<char>>) -> Seq<
    Domain,
> {
    Seq::new(domains.len(), |i: int| verified(domains[i], probes[i], ranges))
}

/// Why `check` did nothing.
#[derive(Debug, Clone, Copy, PartialEq, Eq)]
pub enum CheckError {
    /// There is not exactly one probe for each domain.
    ProbeCount,
}

/// The domains under test and the ranges to test their addresses against.
#[derive(Debug)]
pub struct Checker {
    pub domains: Vec<Domain>,
    pub cf_ips: CFIPs,
}

impl Checker {
    /// What holds of every checker that `build` made and `check` changed:
    /// each of its records is well formed.
    pub open spec fn wf(&self) -> bool {
        forall|i: int| 0 <= i < self.domains.len() ==> (#[trigger] self.domains[i]).wf()
    }

    /// Makes a checker for the domains that `target` lists, one on each
    /// line. A line that stands for no domain is left out.
    pub fn build(target: String, cf_ips: CFIPs) -> (checker: Self)
        ensures
            checker.cf_ips == cf_ips,
            names(checker.domains@) == accepted_names(split(target@, seq!['\n'])),
            forall|i: int|
                0 <= i < checker.domains.len() ==> {
                    &&& (#[trigger] checker.domains[i]).check_result == 0
                    &&& !checker.domains[i].is_unreachable
                },
            checker.wf(),
    {
        proof {
            reveal_strlit("\n");
            assert("\n"@ =~= seq!['\n']);
        }
        let lines = split_to_string_vec(target, "\n");
        let ghost all = texts(lines@);
        let mut domains: Vec<Domain> = Vec::new();
        let mut i: usize = 0;
        proof {
            reveal(Seq::filter);
            assert(all.take(0) =~= Seq::<Seq<char>>::empty());
            assert(names(domains@) =~= accepted_names(all.take(0)));
        }
        while i < lines.len()
            invariant
                i <= lines.len(),
                all == texts(lines@),
                names(domains@) == accepted_names(all.take(i as int)),
                forall|j: int|
                    0 <= j < domains.len() ==> {
                        &&& (#[trigger] domains[j]).check_result == 0
                        &&& !domains[j].is_unreachable
                        &&& domains[j].wf()
                    },
            decreases lines.len() - i,
        {
            let ghost before = domains@;
            let ghost line = all[i as int];
            proof {
                reveal(Seq::filter);
                assert(all.take(i + 1).drop_last() =~= all.take(i as int));
                assert(all.take(i + 1).last() == line);
                assert(line == lines@[i as int]@);
            }
            match Domain::build(lines[i].clone()) {
                Ok(domain) => {
                    domains.push(domain);
                    assert(names(domains@) =~= names(before).push(normalized(line)));
                    assert(accepted_names(all.take(i + 1)) =~= accepted_names(
                        all.take(i as int),
                    ).push(normalized(line)));
                },
                Err(_) => {
                    assert(!valid_domain(line));
                },
            }
            i += 1;
        }
        assert(all.take(i as int) =~= all);
        Checker { domains, cf_ips }
    }

    /// Writes into each record what the probe with the same index showed.
    /// Each record is changed by its own probe and by no other. Nothing is
    /// changed where the probes are not as many as the domains.
    pub fn check(&mut self, probes: &Vec<Probe>) -> (done: Result<(), CheckError>)
        ensures
            final(self).cf_ips == old(self).cf_ips,
            probes.len() != old(self).domains.len() ==> done == Err::<(), CheckError>(
                CheckError::ProbeCount,
            ) && final(self).domains == old(self).domains,
            probes.len() == old(self).domains.len() ==> done is Ok && final(self).domains@
                == checked(old(self).domains@, probes@, texts(old(self).cf_ips.ipsv4@)),
            old(self).wf() ==> final(self).wf(),
    {
        if probes.len() != self.domains.len() {
            return Err(CheckError::ProbeCount);
        }
        let mut next: Vec<Domain> = Vec::new();
        let mut i: usize = 0;
        while i < self.domains.len()
            invariant
                i <= self.domains.len(),
                probes.len() == self.domains.len(),
                next.len() == i,
                forall|j: int|
                    0 <= j < i ==> #[trigger] next@[j] == verified(
                        self.domains@[j],
                        probes@[j],
                        texts(self.cf_ips.ipsv4@),
                    ),
                forall|j: int| 0 <= j < i && self.domains@[j].wf() ==> (#[trigger] next@[j]).wf(),
            decreases self.domains.len() - i,
        {
            let mut domain = self.domains[i].duplicate();
            domain.verify_domain(&probes[i], &self.cf_ips);
            next.push(domain);
            i += 1;
        }
        assert(next@ =~= checked(self.domains@, probes@, texts(self.cf_ips.ipsv4@)));
        self.domains = next;
        Ok(())
    }

    /// The records with at least one signal, in the order of the domains.
    pub fn cf_detected_domains(&self) -> (detected: Vec<Domain>)
        ensures
            detected@ == self.domains@.filter(is_detected()),
    {
        let mut detected: Vec<Domain> = Vec::new();
        let mut i: usize = 0;
        proof {
            reveal(Seq::filter);
            assert(self.domains@.take(0) =~= Seq::<Domain>::empty());
        }
        while i < self.domains.len()
            invariant
                i <= self.domains.len(),
                detected@ == self.domains@.take(i as int).filter(is_detected()),
            decreases self.domains.len() - i,
        {
            proof {
                reveal(Seq::filter);
                assert(self.domains@.take(i + 1).drop_last() =~= self.domains@.take(i as int));
            }
            if self.domains[i].check_result != 0 {
                detected.push(self.domains[i].duplicate());
            }
            i += 1;
        }
        assert(self.domains@.take(i as int) =~= self.domains@);
        detected
    }
}

/// The result for a domain depends on its own probe alone: two lists of
/// probes that agree at an index give the same record there.
pub proof fn lemma_record_follows_its_own_probe(
    domains: Seq<Domain>,
    first: Seq<Probe>,
    second: Seq<Probe>,
    ranges: Seq<Seq<char>>,
    i: int,
)
    requires
        0 <= i < domains.len(),
        first[i] == second[i],
    ensures
        checked(domains, first, ranges)[i] == checked(domains, second, ranges)[i],
        checked(domains, first, ranges)[i] == verified(domains[i], first[i], ranges),
{
}

/// Checking again with the same probes and ranges changes nothing, and
/// what a record held before a check does not show in its result.
pub proof fn lemma_check_is_repeatable(
    domains: Seq<Domain>,
    others: Seq<Domain>,
    probes: Seq<Probe>,
    ranges: Seq<Seq<char>>,
)
    requires
        names(domains) == names(others),
    ensures
        checked(checked(domains, probes, ranges), probes, ranges) == checked(
            domains,
            probes,
            ranges,
        ),
        forall|i: int|
            0 <= i < domains.len() ==> (#[trigger] checked(domains, probes, ranges)[i]).check_result
                == checked(others, probes, ranges)[i].check_result,
{
    assert(checked(checked(domains, probes, ranges), probes, ranges) =~= checked(
        domains,
        probes,
        ranges,
    ));
    assert(names(domains).len() == domains.len());
    assert(names(others).len() == others.len());
}

/// After a check, a record is either unreachable with an empty mask or
/// reachable, and then its mask is empty exactly where its probe showed no
/// signal.
pub proof fn lemma_checked_records_are_consistent(
    domains: Seq<Domain>,
    probes: Seq<Probe>,
    ranges: Seq<Seq<char>>,
    i: int,
)
    requires
        0 <= i < domains.len(),
    ensures
        checked(domains, probes, ranges)[i].is_unreachable == (probes[i] is Unreachable),
        checked(domains, probes, ranges)[i].is_unreachable ==> checked(
            domains,
            probes,
            ranges,
        )[i].check_result == 0,
        !checked(domains, probes, ranges)[i].is_unreachable ==> ((checked(
            domains,
            probes,
            ranges,
        )[i].check_result == 0) == !any_signal(probes[i], ranges)),
{
    lemma_verified_record_is_consistent(domains[i], probes[i], ranges);
}

} // verus!
