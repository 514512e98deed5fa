//! Jack: the aggregatable lottery instantiated with the KZG vector
//! commitment over BLS12-381.

use vstd::prelude::*;

verus! {

use crate::lotteryscheme::vcbased::Parameters;
use crate::lotteryscheme::vcbased::SecretKey;
use crate::lotteryscheme::vcbased::VCLotteryScheme;
use crate::vectorcommitment::kzg::kzg_fk_open::fk_all;
use crate::vectorcommitment::kzg::kzg_fk_open::precompute_openings;

/// The aggregatable lottery over the KZG vector commitment.
pub type Jack = VCLotteryScheme;

impl VCLotteryScheme {
    /// Preload the secret state with the openings of every position, via
    /// the amortized all-openings computation; afterwards each ticket is a
    /// single lookup. The secret vector and evaluations are unchanged.
    pub fn fk_preprocess(par: &Parameters, sk: &mut SecretKey)
        requires
            par.wf(),
            old(sk).wf(par),
        ensures
            final(sk).wf(par),
            final(sk).v == old(sk).v,
            final(sk).state.evals == old(sk).state.evals,
            match final(sk).state.precomputed_v {
                Some(vs) => vs@ == fk_all(&par.ck, old(sk).state.evals@),
                None => false,
            },
    {
        precompute_openings(&par.ck, &mut sk.state);
    }
}

} // verus!
