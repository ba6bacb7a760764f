//! Detection of domains served through Cloudflare: a matcher for the
//! published address ranges, the per-domain record with its five signals,
//! and the checker that keeps one record per requested domain.

use crate::cf_ips::CFIPs;
use crate::checker::{accepted_names, names, CheckError, Checker};
use crate::domain::{probe_mask, Probe};
use crate::text::{split, texts};
use vstd::prelude::*;

pub mod certificate;
pub mod cf_ips;
pub mod checker;
pub mod domain;
pub mod helpers;
pub mod probe;
pub mod report;
pub mod text;

verus! {

/// Builds the checker for the domains that `target` lists and writes the
/// probes into their records, the first probe into the first record and so
/// on. Fails where the probes are not as many as the domains. The result
/// depends on the arguments alone: the same target, ranges and probes give
/// the same records.
pub fn run(target: String, cf_ips: CFIPs, probes: &Vec<Probe>) -> (done: Result<
    Checker,
    CheckError,
>)
    ensures
        probes.len() != accepted_names(split(target@, seq!['\n'])).len() ==> done is Err,
        probes.len() == accepted_names(split(target@, seq!['\n'])).len() ==> done is Ok,
        done matches Ok(checker) ==> {
            &&& checker.cf_ips == cf_ips
            &&& checker.wf()
            &&& names(checker.domains@) == accepted_names(split(target@, seq!['\n']))
            &&& checker.domains.len() == probes.len()
            &&& forall|i: int|
                0 <= i < probes.len() ==> {
                    &&& (#[trigger] checker.domains[i]).check_result == probe_mask(
                        probes[i],
                        texts(cf_ips.ipsv4@),
                    )
                    &&& checker.domains[i].is_unreachable == (probes[i] is Unreachable)
                }
        },
{
    let mut checker = Checker::build(target, cf_ips);
    let ghost built = checker.domains@;
    assert(names(built).len() == built.len());
    match checker.check(probes) {
        Ok(()) => {
            assert(names(checker.domains@) =~= names(built));
            Ok(checker)
        },
        Err(error) => Err(error),
    }
}

} // verus!
