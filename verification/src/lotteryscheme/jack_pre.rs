//! Jack with eager preprocessing: identical to Jack, except that key
//! generation immediately precomputes all openings, so that every later
//! ticket is a single lookup.

use vstd::prelude::*;

verus! {

use crate::lotteryscheme::jack::Jack;
use crate::lotteryscheme::vcbased::challenge_value;
use crate::lotteryscheme::vcbased::party_challenges;
use crate::lotteryscheme::vcbased::pks_coms;
use crate::lotteryscheme::vcbased::sk_values_in_range;
use crate::lotteryscheme::vcbased::tickets_openings;
use crate::vectorcommitment::kzg::aggregate_value;
use crate::vectorcommitment::kzg::kzg_fk_open::fk_all;
use crate::vectorcommitment::kzg::kzg_utils::plain_kzg_check;
use crate::vectorcommitment::kzg::kzg_utils::z0_of;
use crate::vectorcommitment::kzg::open_value;
use crate::vectorcommitment::kzg::verify_value;
use crate::lotteryscheme::vcbased::spec_is_pow2_u32;
use crate::lotteryscheme::vcbased::LotterySeed;
use crate::lotteryscheme::vcbased::Parameters;
use crate::lotteryscheme::vcbased::PublicKey;
use crate::lotteryscheme::vcbased::SecretKey;
use crate::lotteryscheme::vcbased::Ticket;
use crate::vectorcommitment::kzg::max_message_length;

/// Jack with preprocessing at key generation.
pub struct JackPre;

impl JackPre {
    /// Set up parameters, exactly as Jack does.
    pub fn setup(num_lotteries: usize, k: u32) -> (r: Option<Parameters>)
        ensures
            !spec_is_pow2_u32(k) ==> r is None,
            num_lotteries < 1 ==> r is None,
            num_lotteries > max_message_length() ==> r is None,
            match r {
                Some(par) => par.wf() && par.num_lotteries == num_lotteries && par.k == k,
                None => true,
            },
    {
        Jack::setup(num_lotteries, k)
    }

    /// Generate a key pair and precompute the openings of every position.
    pub fn gen(par: &Parameters) -> (r: Option<(PublicKey, SecretKey)>)
        requires
            par.wf(),
        ensures
            match r {
                Some(pair) => {
                    &&& pair.1.wf(par)
                    &&& sk_values_in_range(&pair.1, par)
                    &&& match pair.1.state.precomputed_v {
                        Some(vs) => vs@ == fk_all(&par.ck, pair.1.state.evals@),
                        None => false,
                    }
                },
                None => true,
            },
    {
        let (pk, mut sk) = match Jack::gen(par) {
            Some(p) => p,
            None => {
                return None;
            },
        };
        Jack::fk_preprocess(par, &mut sk);
        Some((pk, sk))
    }

    /// Check the well-formedness of a public key, exactly as Jack does.
    pub fn verify_key(par: &Parameters, pk: &PublicKey) -> (r: bool)
        requires
            par.wf(),
        ensures
            r == plain_kzg_check(
                &par.ck,
                pk.com.com_kzg,
                z0_of(pk.com.com_kzg),
                pk.com.y0,
                pk.com.tau0,
            ),
    {
        Jack::verify_key(par, pk)
    }

    /// Sample a fresh lottery seed, exactly as Jack does.
    pub fn sample_seed(par: &Parameters, i: u32) -> (r: LotterySeed) {
        Jack::sample_seed(par, i)
    }

    /// Decide whether the user wins lottery `i`, exactly as Jack does.
    pub fn participate(
        par: &Parameters,
        i: u32,
        lseed: &LotterySeed,
        pid: u32,
        sk: &SecretKey,
        pk: &PublicKey,
    ) -> (r: bool)
        requires
            par.wf(),
        ensures
            r == ((i as int) < sk.v@.len() && sk.v@[i as int] == challenge_value(
                par.log_k,
                pk.com,
                pid,
                i,
                lseed@,
            )),
            (par.k == 1 && (i as int) < sk.v@.len() && sk_values_in_range(sk, par)) ==> r
                == true,
    {
        Jack::participate(par, i, lseed, pid, sk, pk)
    }

    /// Produce the user's ticket for lottery `i`, exactly as Jack does.
    pub fn get_ticket(
        par: &Parameters,
        i: u32,
        lseed: &LotterySeed,
        pid: u32,
        sk: &SecretKey,
        pk: &PublicKey,
    ) -> (r: Option<Ticket>)
        requires
            par.wf(),
            sk.wf(par),
        ensures
            r is Some <==> i < par.num_lotteries,
            match r {
                Some(t) => t.opening == open_value(&par.ck, &sk.state, i as int),
                None => true,
            },
    {
        Jack::get_ticket(par, i, lseed, pid, sk, pk)
    }

    /// Aggregate winners' tickets, exactly as Jack does.
    pub fn aggregate(
        par: &Parameters,
        i: u32,
        lseed: &LotterySeed,
        pids: &Vec<u32>,
        pks: &Vec<PublicKey>,
        tickets: &Vec<Ticket>,
    ) -> (r: Option<Ticket>)
        requires
            par.wf(),
        ensures
            r is Some <==> (pids@.len() == pks@.len() && pids@.len() == tickets@.len() && 1
                <= pids@.len()),
            match r {
                Some(t) => t.opening == aggregate_value(
                    i,
                    party_challenges(par.log_k, pids@, pks@, i, lseed@),
                    pks_coms(pks@),
                    tickets_openings(tickets@),
                ),
                None => true,
            },
    {
        Jack::aggregate(par, i, lseed, pids, pks, tickets)
    }

    /// Verify an (aggregated) ticket, exactly as Jack does.
    pub fn verify(
        par: &Parameters,
        i: u32,
        lseed: &LotterySeed,
        pids: &Vec<u32>,
        pks: &Vec<PublicKey>,
        ticket: &Ticket,
    ) -> (r: bool)
        requires
            par.wf(),
        ensures
            (pids@.len() != pks@.len() || pids@.len() < 1 || i as int >= par.num_lotteries)
                ==> r == false,
            (pids@.len() == pks@.len() && 1 <= pids@.len() && i < par.num_lotteries) ==> r
                == verify_value(
                &par.ck,
                i,
                party_challenges(par.log_k, pids@, pks@, i, lseed@),
                pks_coms(pks@),
                ticket.opening,
            ),
    {
        Jack::verify(par, i, lseed, pids, pks, ticket)
    }
}

} // verus!
