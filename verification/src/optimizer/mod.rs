use vstd::prelude::*;

mod sgd;

pub use self::sgd::alpha_den;
pub use self::sgd::alpha_num;
pub use self::sgd::hyper_ok;
pub use self::sgd::lemma_sgd_plain;
pub use self::sgd::new_velocity;
pub use self::sgd::update_ok;
pub use self::sgd::velocity_fits;
pub use self::sgd::SGD;
pub use self::sgd::ITER_CAP;
pub use self::sgd::RAT_MAX;

use crate::error::HALError;
use crate::utils::eq_ignore_ascii_case;
use crate::utils::str_eq_ci;

verus! {

/// The optimizer names the registry knows, compared without regard to ASCII
/// case.
pub open spec fn optimizer_known(name: Seq<char>) -> bool {
    eq_ignore_ascii_case(name, "sgd"@)
}

/// An optimizer by name, with its default hyperparameters. Fails with
/// `UnknownOptimizer` exactly on unregistered names.
pub fn get_optimizer_with_defaults(name: &str) -> (r: Result<SGD, HALError>)
    ensures
        r is Ok <==> optimizer_known(name@),
        r is Ok ==> {
            &&& r->Ok_0.wf()
            &&& r->Ok_0.vel().len() == 0
            &&& r->Ok_0.iterations_spec() == 0
            &&& r->Ok_0.lr() == (crate::ratio::Ratio { num: 1, den: 1000 })
            &&& r->Ok_0.mom() == (crate::ratio::Ratio { num: 0, den: 1 })
            &&& r->Ok_0.dec() == (crate::ratio::Ratio { num: 0, den: 1 })
        },
        r is Err ==> r->Err_0 == HALError::UnknownOptimizer,
{
    if str_eq_ci(name, "sgd") {
        Ok(SGD::default())
    } else {
        Err(HALError::UnknownOptimizer)
    }
}

} // verus!
