//! The kinds of strategy generators that take turns searching for good strategies.
use vstd::prelude::*;

verus! {

/// Where a hill climb starts.
#[derive(Clone, Copy, Debug, PartialEq, Eq, Structural)]
pub enum HillClimbStart {
    NewRandom,
    FromSeedSearch,
}

/// How a hill climb proposes its next candidate.
#[derive(Clone, Copy, Debug, PartialEq, Eq, Structural)]
pub enum HillClimbKind {
    BunchOfRandomChanges,
    BunchOfRandomChangesInspired,
    OneRelevantRule,
}

/// A way of generating strategies.
#[derive(Clone, Copy, Debug, PartialEq, Eq, Structural)]
pub enum GeneratorKind {
    HillClimb {
        steps: usize,
        num_verification_seeds: usize,
        start: HillClimbStart,
        kind: HillClimbKind,
    },
}

/// A generator and the time it has used so far.
pub struct SharingGenerator {
    pub time_used: std::time::Duration,
    pub generator: GeneratorKind,
}

impl GeneratorKind {
    /// How many playouts a strategy of this generator gets before it may be culled:
    /// the number of hill-climb steps, at most 32.
    pub fn min_playouts_before_culling(&self) -> (playouts: usize)
        ensures
            playouts == match *self {
                GeneratorKind::HillClimb { steps, .. } => if steps < 32 {
                    steps
                } else {
                    32
                },
            },
    {
        match self {
            GeneratorKind::HillClimb { steps, .. } => if *steps < 32 {
                *steps
            } else {
                32
            },
        }
    }
}

/// 2 to the power `n`.
pub open spec fn doubling(n: int) -> int
    decreases n,
{
    if n <= 0 {
        1
    } else {
        2 * doubling(n - 1)
    }
}

/// The `k`-th hill climb of the standard set: 2^a steps and 2^b verification seeds for
/// a in 0..=8 and b in 0..=5, each start, each kind, the kind varying fastest.
pub open spec fn spec_standard_generator(k: int) -> GeneratorKind {
    GeneratorKind::HillClimb {
        steps: doubling(k / 36) as usize,
        num_verification_seeds: doubling((k / 6) % 6) as usize,
        start: if (k / 3) % 2 == 0 {
            HillClimbStart::NewRandom
        } else {
            HillClimbStart::FromSeedSearch
        },
        kind: if k % 3 == 0 {
            HillClimbKind::BunchOfRandomChanges
        } else if k % 3 == 1 {
            HillClimbKind::BunchOfRandomChangesInspired
        } else {
            HillClimbKind::OneRelevantRule
        },
    }
}

proof fn lemma_doubling_monotone(n: int, m: int)
    requires
        0 <= n <= m,
    ensures
        1 <= doubling(n) <= doubling(m),
    decreases m,
{
    if n < m {
        lemma_doubling_monotone(n, m - 1);
    } else if n > 0 {
        lemma_doubling_monotone(n - 1, n - 1);
    }
}

proof fn lemma_generator_index(a: int, b: int, s: int, j: int)
    by (nonlinear_arith)
    requires
        0 <= a <= 8,
        0 <= b <= 5,
        0 <= s < 2,
        0 <= j < 3,
    ensures
        (36 * a + 6 * b + 3 * s + j) / 36 == a,
        ((36 * a + 6 * b + 3 * s + j) / 6) % 6 == b,
        ((36 * a + 6 * b + 3 * s + j) / 3) % 2 == s,
        (36 * a + 6 * b + 3 * s + j) % 3 == j,
{
}

/// The standard set of hill climbs the generators share the search between, in order
/// (see `spec_standard_generator`).
pub fn standard_generators() -> (generators: Vec<GeneratorKind>)
    ensures
        generators@.len() == 324,
        forall|k: int| 0 <= k < 324 ==> #[trigger] generators@[k] == spec_standard_generator(k),
{
    let mut generators: Vec<GeneratorKind> = Vec::new();
    let mut a: usize = 0;
    let mut steps: usize = 1;
    proof {
        reveal_with_fuel(doubling, 10);
        assert(doubling(8) == 256);
        assert(doubling(5) == 32);
    }
    while a <= 8
        invariant
            a <= 9,
            steps == doubling(a as int),
            doubling(8) == 256,
            doubling(5) == 32,
            generators@.len() == 36 * a,
            forall|k: int| 0 <= k < generators@.len() ==> #[trigger] generators@[k]
                == spec_standard_generator(k),
        decreases 9 - a,
    {
        let mut b: usize = 0;
        let mut seeds: usize = 1;
        proof {
            lemma_doubling_monotone(a as int, 8);
        }
        while b <= 5
            invariant
                a <= 8,
                b <= 6,
                steps == doubling(a as int),
                seeds == doubling(b as int),
                steps <= 256,
                doubling(5) == 32,
                generators@.len() == 36 * a + 6 * b,
                forall|k: int| 0 <= k < generators@.len() ==> #[trigger] generators@[k]
                    == spec_standard_generator(k),
            decreases 6 - b,
        {
            let mut s: usize = 0;
            while s < 2
                invariant
                    a <= 8,
                    b <= 5,
                    s <= 2,
                    steps == doubling(a as int),
                    seeds == doubling(b as int),
                    generators@.len() == 36 * a + 6 * b + 3 * s,
                    forall|k: int| 0 <= k < generators@.len() ==> #[trigger] generators@[k]
                        == spec_standard_generator(k),
                decreases 2 - s,
            {
                let start = if s == 0 {
                    HillClimbStart::NewRandom
                } else {
                    HillClimbStart::FromSeedSearch
                };
                let ghost base: int = 36 * a + 6 * b + 3 * s;
                proof {
                    lemma_generator_index(a as int, b as int, s as int, 0);
                    lemma_generator_index(a as int, b as int, s as int, 1);
                    lemma_generator_index(a as int, b as int, s as int, 2);
                }
                generators.push(
                    GeneratorKind::HillClimb {
                        steps,
                        num_verification_seeds: seeds,
                        start,
                        kind: HillClimbKind::BunchOfRandomChanges,
                    },
                );
                generators.push(
                    GeneratorKind::HillClimb {
                        steps,
                        num_verification_seeds: seeds,
                        start,
                        kind: HillClimbKind::BunchOfRandomChangesInspired,
                    },
                );
                generators.push(
                    GeneratorKind::HillClimb {
                        steps,
                        num_verification_seeds: seeds,
                        start,
                        kind: HillClimbKind::OneRelevantRule,
                    },
                );
                proof {
                    assert(generators@[base] == spec_standard_generator(base));
                    assert(generators@[base + 1] == spec_standard_generator(base + 1));
                    assert(generators@[base + 2] == spec_standard_generator(base + 2));
                }
                s = s + 1;
            }
            proof {
                lemma_doubling_monotone(b as int, 5);
            }
            b = b + 1;
            seeds = seeds * 2;
        }
        a = a + 1;
        steps = steps * 2;
    }
    generators
}

} // verus!
