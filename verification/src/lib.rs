//! Online (streaming) statistics accumulators over exact rational arithmetic:
//! a running-mean accumulator and a running-variance accumulator built on it.
//!
//! Values are added one at a time; no history is stored beyond the current
//! statistic and the count. All arithmetic is exact (pairs of integers), so
//! every statistic is pinned down precisely by the contracts.

mod frac;
mod mean;
mod variance;
mod laws;

pub use frac::Frac;
pub use frac::Ratio;
pub use frac::fzero;
pub use frac::fint;
pub use frac::fadd;
pub use frac::fsub;
pub use frac::fmul;
pub use frac::feq;
pub use frac::wf_seq;
pub use frac::i128_ok;
pub use mean::MeanIncrementor;
pub use mean::mean_spec;
pub use mean::mean_add_in_range;
pub use variance::VarianceIncrementor;
pub use variance::var_spec;
pub use variance::var_add_in_range;
pub use laws::sum_spec;
pub use laws::sumsq_spec;
pub use laws::favg;
pub use laws::sample_var;
pub use laws::pop_var;
pub use laws::lemma_sum_den_pos;
pub use laws::lemma_sumsq_den_pos;
pub use laws::lemma_mean_is_arithmetic_mean;
pub use laws::lemma_variance_matches_batch;
pub use laws::lemma_variance_population_single;
pub use laws::lemma_single_value;
pub use laws::lemma_permutation_invariant;
