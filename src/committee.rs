use vstd::prelude::*;
use crate::proposal::PublicKeyBytes;

verus! {

/// A participant eligible for committees, with its stake.
#[derive(Clone, Copy, Debug, PartialEq, Eq)]
pub struct Provisioner {
    pub key: PublicKeyBytes,
    pub stake: u64,
}

pub open spec fn stakes_of(ps: Seq<Provisioner>) -> Seq<u64> {
    ps.map_values(|p: Provisioner| p.stake)
}

/// Total stake of the first `i` provisioners.
pub open spec fn spec_prefix(stakes: Seq<u64>, i: int) -> nat
    decreases i,
{
    if i <= 0 {
        0
    } else {
        spec_prefix(stakes, i - 1) + stakes[i - 1] as nat
    }
}

proof fn lemma_prefix_monotonic(stakes: Seq<u64>, i: int, j: int)
    requires
        0 <= i <= j,
    ensures
        spec_prefix(stakes, i) <= spec_prefix(stakes, j),
    decreases j - i,
{
    if i < j {
        lemma_prefix_monotonic(stakes, i, j - 1);
    }
}

/// Total stake of the provisioners.
pub fn total_stake(ps: &Vec<Provisioner>) -> (r: u128)
    ensures
        r == spec_prefix(stakes_of(ps@), ps@.len() as int),
{
    let mut acc: u128 = 0;
    let mut i: usize = 0;
    while i < ps.len()
        invariant
            0 <= i <= ps@.len(),
            acc == spec_prefix(stakes_of(ps@), i as int),
            acc <= i * 0x1_0000_0000_0000_0000,
        decreases ps@.len() - i,
    {
        acc = acc + ps[i].stake as u128;
        i = i + 1;
    }
    acc
}

/// Draws one provisioner for a score below the total stake: the one whose
/// share of the cumulated stakes, in list order, contains the score. A
/// provisioner is thus drawn by exactly as many scores as it has stake.
pub fn draw_one(ps: &Vec<Provisioner>, score: u128) -> (r: usize)
    requires
        score < spec_prefix(stakes_of(ps@), ps@.len() as int),
    ensures
        r < ps@.len(),
        spec_prefix(stakes_of(ps@), r as int) <= score < spec_prefix(stakes_of(ps@), r + 1),
{
    let ghost stakes = stakes_of(ps@);
    let mut acc: u128 = 0;
    let mut i: usize = 0;
    while i < ps.len()
        invariant
            0 <= i <= ps@.len(),
            stakes == stakes_of(ps@),
            acc == spec_prefix(stakes, i as int),
            acc <= score,
            score < spec_prefix(stakes, ps@.len() as int),
            acc <= i * 0x1_0000_0000_0000_0000,
        decreases ps@.len() - i,
    {
        let next = acc + ps[i].stake as u128;
        if score < next {
            return i;
        }
        acc = next;
        i = i + 1;
    }
    i
}

/// The provisioner drawn for a score is the only one whose share contains
/// it: a score below the total stake draws exactly one provisioner.
pub proof fn lemma_draw_unique(stakes: Seq<u64>, score: nat, i: int, j: int)
    requires
        0 <= i,
        0 <= j,
        spec_prefix(stakes, i) <= score < spec_prefix(stakes, i + 1),
        spec_prefix(stakes, j) <= score < spec_prefix(stakes, j + 1),
    ensures
        i == j,
{
    if i < j {
        lemma_prefix_monotonic(stakes, i + 1, j);
    } else if j < i {
        lemma_prefix_monotonic(stakes, j + 1, i);
    }
}

/// The number of scores below the total stake that draw provisioner `i` is
/// its stake: the scores from the stake of those before it, up to that plus
/// its own.
pub proof fn lemma_draw_proportional(stakes: Seq<u64>, i: int)
    requires
        0 <= i < stakes.len(),
    ensures
        spec_prefix(stakes, i + 1) - spec_prefix(stakes, i) == stakes[i],
        spec_prefix(stakes, i + 1) <= spec_prefix(stakes, stakes.len() as int),
{
    lemma_prefix_monotonic(stakes, i + 1, stakes.len() as int);
}

/// Whether `seat` is the provisioner drawn for `score` reduced modulo the
/// total stake.
pub open spec fn spec_drawn(ps: Seq<Provisioner>, score: u128, seat: PublicKeyBytes) -> bool {
    let total = spec_prefix(stakes_of(ps), ps.len() as int);
    exists|i: int|
        0 <= i < ps.len() && spec_prefix(stakes_of(ps), i) <= (score as nat) % total
            < spec_prefix(stakes_of(ps), i + 1) && ps[i].key == seat
}

/// Committee determinism: the seat drawn for a score is a function of the
/// provisioners, their order and the score alone.
pub proof fn lemma_committee_deterministic(
    ps: Seq<Provisioner>,
    score: u128,
    a: PublicKeyBytes,
    b: PublicKeyBytes,
)
    requires
        spec_drawn(ps, score, a),
        spec_drawn(ps, score, b),
    ensures
        a == b,
{
    let total = spec_prefix(stakes_of(ps), ps.len() as int);
    let s = (score as nat) % total;
    let i = choose|i: int|
        0 <= i < ps.len() && spec_prefix(stakes_of(ps), i) <= s < spec_prefix(stakes_of(ps), i + 1)
            && ps[i].key == a;
    let j = choose|j: int|
        0 <= j < ps.len() && spec_prefix(stakes_of(ps), j) <= s < spec_prefix(stakes_of(ps), j + 1)
            && ps[j].key == b;
    lemma_draw_unique(stakes_of(ps), s, i, j);
}

/// Draws a committee of one seat per score: seat `k` goes to the
/// provisioner drawn for `scores[k]` modulo the total stake. A provisioner
/// may hold several seats. The result depends on the provisioners, their
/// order and the scores alone.
pub fn create_committee(ps: &Vec<Provisioner>, scores: &Vec<u128>) -> (r: Vec<PublicKeyBytes>)
    requires
        spec_prefix(stakes_of(ps@), ps@.len() as int) > 0,
    ensures
        r@.len() == scores@.len(),
        forall|k: int| 0 <= k < scores@.len() ==> spec_drawn(ps@, #[trigger] scores@[k], r@[k]),
{
    let total = total_stake(ps);
    let mut seats: Vec<PublicKeyBytes> = Vec::new();
    let mut k: usize = 0;
    while k < scores.len()
        invariant
            0 <= k <= scores@.len(),
            total == spec_prefix(stakes_of(ps@), ps@.len() as int),
            total > 0,
            seats@.len() == k,
            forall|j: int| 0 <= j < k ==> spec_drawn(ps@, #[trigger] scores@[j], seats@[j]),
        decreases scores@.len() - k,
    {
        let s = scores[k] % total;
        let i = draw_one(ps, s);
        seats.push(ps[i].key);
        assert(spec_drawn(ps@, scores@[k as int], seats@[k as int]));
        k = k + 1;
    }
    seats
}

} // verus!
