//! Stake-weighted validator selection: roulette-wheel draw over the
//! participants in registration order. The draw itself is random; the walk
//! that turns a draw into a participant is deterministic and fully
//! specified, so callers and tests can pin the selection for a given draw.

use rand::Rng;
use vstd::prelude::*;

verus! {

#[derive(Debug, Clone)]
pub struct Participant {
    pub address: String,
    pub stake: u64,
}

pub struct PoS {
    pub participants: Vec<Participant>,
}

/// The summed stake of a participant list.
pub open spec fn total_stake(ps: Seq<Participant>) -> int
    decreases ps.len(),
{
    if ps.len() == 0 {
        0
    } else {
        total_stake(ps.drop_last()) + ps.last().stake
    }
}

/// The draw lands on participant `i`: the stakes registered before `i` do
/// not reach the draw, and participant `i`'s own stake does.
pub open spec fn selected_at(ps: Seq<Participant>, draw: int, i: int) -> bool {
    &&& 0 <= i < ps.len()
    &&& total_stake(ps.take(i)) <= draw < total_stake(ps.take(i)) + ps[i].stake
}

proof fn lemma_total_stake_bounds(ps: Seq<Participant>)
    ensures
        0 <= total_stake(ps) <= ps.len() * (u64::MAX as int),
    decreases ps.len(),
{
    if ps.len() > 0 {
        lemma_total_stake_bounds(ps.drop_last());
    }
}

proof fn lemma_total_stake_step(ps: Seq<Participant>, i: int)
    requires
        0 <= i < ps.len(),
    ensures
        total_stake(ps.take(i + 1)) == total_stake(ps.take(i)) + ps[i].stake,
{
    assert(ps.take(i + 1).drop_last() =~= ps.take(i));
    assert(ps.take(i + 1).last() == ps[i]);
}

/// Relies on rand::Rng::gen_range over `0..bound`: a draw strictly below the
/// bound, uniform over the range; it panics only on an empty range, which
/// the precondition rules out. Nothing is assumed to link one draw to the
/// next.
#[verifier::external_body]
fn random_below(bound: u128) -> (r: u128)
    requires
        bound > 0,
    ensures
        r < bound,
{
    rand::thread_rng().gen_range(0..bound)
}

fn total_stake_of(ps: &Vec<Participant>) -> (t: u128)
    ensures
        t as int == total_stake(ps@),
{
    let n = ps.len();
    let mut acc: u128 = 0;
    let mut i: usize = 0;
    while i < n
        invariant
            n == ps@.len(),
            i <= n,
            acc as int == total_stake(ps@.take(i as int)),
        decreases n - i,
    {
        proof {
            lemma_total_stake_bounds(ps@.take(i as int));
            lemma_total_stake_step(ps@, i as int);
        }
        acc = acc + ps[i].stake as u128;
        i += 1;
    }
    proof {
        assert(ps@.take(n as int) =~= ps@);
    }
    acc
}

impl PoS {
    pub fn new() -> (registry: PoS)
        ensures
            registry.participants@ == Seq::<Participant>::empty(),
    {
        PoS { participants: Vec::new() }
    }

    /// Registers a participant; repeated addresses simply accumulate weight
    /// across their entries.
    pub fn add_participant(&mut self, address: String, stake: u64)
        ensures
            final(self).participants@ == old(self).participants@.push(
                (Participant { address, stake }),
            ),
    {
        self.participants.push(Participant { address, stake });
    }

    /// The deterministic half of the roulette wheel: walks the participants
    /// in registration order and returns the one whose stake interval holds
    /// the draw.
    pub fn select_validator_with(&self, draw: u128) -> (r: Option<&Participant>)
        requires
            (draw as int) < total_stake(self.participants@),
        ensures
            r matches Some(p) && exists|i: int|
                #[trigger] selected_at(self.participants@, draw as int, i) && *p
                    == self.participants@[i],
    {
        let ghost ps = self.participants@;
        let n = self.participants.len();
        let mut rest = draw;
        let mut i: usize = 0;
        while i < n
            invariant
                ps == self.participants@,
                n == ps.len(),
                i <= n,
                (draw as int) < total_stake(ps),
                total_stake(ps.take(i as int)) <= draw as int,
                rest as int == draw as int - total_stake(ps.take(i as int)),
            decreases n - i,
        {
            proof {
                lemma_total_stake_step(ps, i as int);
            }
            if rest < self.participants[i].stake as u128 {
                proof {
                    assert(selected_at(ps, draw as int, i as int));
                }
                return Some(&self.participants[i]);
            }
            rest = rest - self.participants[i].stake as u128;
            i += 1;
        }
        proof {
            assert(ps.take(n as int) =~= ps);
            assert(false);
        }
        None
    }

    /// Draws uniformly over the summed stake and returns the participant the
    /// draw lands on: none only when nobody is registered, and never a
    /// participant with zero stake.
    pub fn select_validator(&self) -> (r: Option<&Participant>)
        requires
            total_stake(self.participants@) > 0 || self.participants@.len() == 0,
        ensures
            (r is None) == (self.participants@.len() == 0),
            r matches Some(p) ==> exists|i: int|
                0 <= i < self.participants@.len() && *p == (#[trigger] self.participants@[i])
                    && self.participants@[i].stake > 0,
    {
        if self.participants.len() == 0 {
            return None;
        }
        let total = total_stake_of(&self.participants);
        let draw = random_below(total);
        let r = self.select_validator_with(draw);
        proof {
            let i = choose|i: int|
                #[trigger] selected_at(self.participants@, draw as int, i) && *r->Some_0
                    == self.participants@[i];
            assert(total_stake(self.participants@.take(i)) <= draw as int);
            assert((draw as int) < total_stake(self.participants@.take(i))
                + self.participants@[i].stake);
        }
        r
    }
}

} // verus!
