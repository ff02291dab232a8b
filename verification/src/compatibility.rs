//! Whether a model of a given size and name can run on a host.
//!
//! Every amount is exact. Sizes are whole bytes. The memory a model needs is
//! its size times a multiplier with one decimal, so it is held in tenths of
//! a byte. A ratio is a pair of integers and is compared by cross
//! multiplication; nothing is ever divided.

use vstd::prelude::*;
use crate::resources::{SystemResources, GIB};
use crate::text::{chars_of, contains, find};

verus! {

/// Memory kept back for the operating system and other programs, in bytes.
pub const MEMORY_RESERVE_BYTES: u64 = 2 * GIB;

/// Storage needed on top of a model's own size, in bytes.
pub const STORAGE_OVERHEAD_BYTES: u64 = GIB;

/// The least memory any model is taken to need, in tenths of a byte.
pub const MINIMUM_MEMORY_TENTHS: u64 = 20 * GIB;

/// Below this many cores the host is reported as slow.
pub const COMFORTABLE_CORES: usize = 4;

/// The lowercase form of a text, as `str::to_lowercase` gives it.
pub uninterp spec fn lowercase_of(s: Seq<char>) -> Seq<char>;

/// Calls `str::to_lowercase`. Nothing is claimed of the result but that it
/// is the one text which that function gives for `s`.
#[verifier::external_body]
fn to_lowercase(s: &str) -> (r: String)
    ensures
        r@ == lowercase_of(s@),
{
    s.to_lowercase()
}

/// The memory multiplier for a model whose lowercase name is `lowered`, in
/// tenths. The first rule that matches decides.
pub open spec fn multiplier_tenths(lowered: Seq<char>) -> int {
    if contains(lowered, "70b"@) || contains(lowered, "70-b"@) {
        18
    } else if contains(lowered, "13b"@) || contains(lowered, "13-b"@) {
        16
    } else if contains(lowered, "vision"@) || contains(lowered, "llava"@) {
        17
    } else if contains(lowered, "7b"@) || contains(lowered, "7-b"@) {
        15
    } else if contains(lowered, "code"@) || contains(lowered, "coder"@) {
        14
    } else {
        12
    }
}

/// The memory needed by a model of `size` bytes under a multiplier of
/// `multiplier` tenths, in tenths of a byte: the product, but never less
/// than the minimum.
pub open spec fn required_tenths(size: int, multiplier: int) -> int {
    if size * multiplier < MINIMUM_MEMORY_TENTHS {
        MINIMUM_MEMORY_TENTHS as int
    } else {
        size * multiplier
    }
}

/// A quotient of two integers. With a denominator of zero it stands for
/// nothing, and the comparisons below are still defined.
#[derive(Clone, Copy, Debug, PartialEq, Eq)]
pub struct Ratio {
    pub numerator: i128,
    pub denominator: u128,
}

impl Ratio {
    /// The ratio is at least `p / q`, for a positive `q`.
    pub open spec fn at_least(self, p: int, q: int) -> bool {
        self.numerator * q >= p * self.denominator
    }

    /// The ratio that stands for one.
    pub open spec fn one() -> Ratio {
        Ratio { numerator: 1, denominator: 1 }
    }

    /// `numerator / denominator`, or one where the denominator is zero.
    pub open spec fn of(numerator: int, denominator: int) -> Ratio {
        if denominator > 0 {
            Ratio { numerator: numerator as i128, denominator: denominator as u128 }
        } else {
            Ratio::one()
        }
    }

    /// Whether the ratio is at least one.
    pub fn is_at_least_one(&self) -> (r: bool)
        ensures
            r == self.at_least(1, 1),
    {
        self.numerator >= 0 && self.numerator as u128 >= self.denominator
    }

    /// Whether the ratio is at least one and a half.
    pub fn is_at_least_one_and_a_half(&self) -> (r: bool)
        ensures
            r == self.at_least(3, 2),
    {
        if self.numerator < 0 {
            return false;
        }
        let n: u128 = self.numerator as u128;
        let d: u128 = self.denominator;
        n >= d && n - d >= d / 2 + d % 2
    }

    /// Whether the ratio is at least two.
    pub fn is_at_least_two(&self) -> (r: bool)
        ensures
            r == self.at_least(2, 1),
    {
        self.numerator >= 0 && self.numerator as u128 / 2 >= self.denominator
    }
}

/// The score of a memory ratio, in tenths.
pub open spec fn memory_score(ratio: Ratio) -> int {
    if ratio.at_least(2, 1) {
        10
    } else if ratio.at_least(3, 2) {
        8
    } else if ratio.at_least(1, 1) {
        6
    } else {
        0
    }
}

/// The score of a storage ratio, in tenths.
pub open spec fn storage_score(ratio: Ratio) -> int {
    if ratio.at_least(2, 1) {
        10
    } else if ratio.at_least(3, 2) {
        9
    } else if ratio.at_least(1, 1) {
        7
    } else {
        0
    }
}

/// The confidence that two ratios give, in percent: seven parts memory
/// score and three parts storage score.
pub open spec fn confidence_percent(memory_ratio: Ratio, storage_ratio: Ratio) -> int {
    7 * memory_score(memory_ratio) + 3 * storage_score(storage_ratio)
}

/// The confidence that two ratios give, in percent.
pub fn calculate_confidence_level(memory_ratio: Ratio, storage_ratio: Ratio) -> (percent: u8)
    ensures
        percent == confidence_percent(memory_ratio, storage_ratio),
        percent <= 100,
{
    let memory: u8 = if memory_ratio.is_at_least_two() {
        10
    } else if memory_ratio.is_at_least_one_and_a_half() {
        8
    } else if memory_ratio.is_at_least_one() {
        6
    } else {
        0
    };
    let storage: u8 = if storage_ratio.is_at_least_two() {
        10
    } else if storage_ratio.is_at_least_one_and_a_half() {
        9
    } else if storage_ratio.is_at_least_one() {
        7
    } else {
        0
    };
    7 * memory + 3 * storage
}

/// Whether `needle` stands somewhere in `s`.
fn has_text(s: &[char], needle: &str) -> (r: bool)
    ensures
        r == contains(s@, needle@),
{
    let n = chars_of(needle);
    find(s, n.as_slice(), 0).is_some()
}

/// The memory multiplier for a model whose name, already in lowercase, is
/// `lowered_name`, in tenths.
pub fn memory_multiplier_tenths(lowered_name: &str) -> (m: u8)
    ensures
        m == multiplier_tenths(lowered_name@),
        12 <= m <= 18,
{
    let name = chars_of(lowered_name);
    let s = name.as_slice();
    if has_text(s, "70b") || has_text(s, "70-b") {
        18
    } else if has_text(s, "13b") || has_text(s, "13-b") {
        16
    } else if has_text(s, "vision") || has_text(s, "llava") {
        17
    } else if has_text(s, "7b") || has_text(s, "7-b") {
        15
    } else if has_text(s, "code") || has_text(s, "coder") {
        14
    } else {
        12
    }
}

/// The memory needed by a model of `model_size_bytes` bytes under a
/// multiplier of `multiplier` tenths, in tenths of a byte.
pub fn required_memory_tenths(model_size_bytes: u64, multiplier: u8) -> (tenths: u128)
    ensures
        tenths == required_tenths(model_size_bytes as int, multiplier as int),
{
    assert(model_size_bytes * multiplier <= 0xffff_ffff_ffff_ffff * 255) by (nonlinear_arith)
        requires
            model_size_bytes <= 0xffff_ffff_ffff_ffff,
            multiplier <= 255,
    ;
    let product: u128 = model_size_bytes as u128 * multiplier as u128;
    if product < MINIMUM_MEMORY_TENTHS as u128 {
        MINIMUM_MEMORY_TENTHS as u128
    } else {
        product
    }
}

/// The memory that a model of `model_size_bytes` bytes named `model_name`
/// needs, in tenths of a byte. The name is compared in lowercase.
pub fn estimate_model_memory_requirements(model_size_bytes: u64, model_name: &str) -> (tenths:
    u128)
    ensures
        tenths == required_tenths(
            model_size_bytes as int,
            multiplier_tenths(lowercase_of(model_name@)),
        ),
        tenths >= MINIMUM_MEMORY_TENTHS,
{
    let lowered = to_lowercase(model_name);
    let multiplier = memory_multiplier_tenths(lowered.as_str());
    required_memory_tenths(model_size_bytes, multiplier)
}

/// One thing to tell the user about a verdict, with the amounts that it is
/// about.
#[derive(Clone, Copy, Debug, PartialEq, Eq)]
pub enum CompatibilityWarning {
    /// The model needs more memory than is usable.
    InsufficientMemory { required_tenths: u128, usable_bytes: i128 },
    /// The model fits, with less than half as much again to spare.
    TightMemory { required_tenths: u128, usable_bytes: i128 },
    /// The model and its overhead need more storage than is free.
    InsufficientStorage { needed_bytes: u128, available_bytes: u64 },
    /// The host has fewer cores than is comfortable.
    LowCoreCount,
}

/// The verdict on one model and one snapshot of the host.
#[derive(Clone, Debug, PartialEq, Eq)]
pub struct ModelCompatibility {
    pub is_compatible: bool,
    /// The confidence, from 0 to 100.
    pub confidence_percent: u8,
    /// The memory the model is taken to need, in tenths of a byte.
    pub required_memory_tenths: u128,
    /// The memory left once the reserve is taken off, in bytes. It is
    /// negative where the host has less than the reserve.
    pub usable_memory_bytes: i128,
    pub memory_sufficient: bool,
    pub storage_sufficient: bool,
    pub warnings: Vec<CompatibilityWarning>,
}

/// The memory that is left once the reserve is taken off, in bytes.
pub open spec fn usable_memory(resources: SystemResources) -> int {
    resources.available_memory_bytes - MEMORY_RESERVE_BYTES
}

/// The storage that a model of `size` bytes needs, in bytes.
pub open spec fn needed_storage(size: int) -> int {
    size + STORAGE_OVERHEAD_BYTES
}

/// Usable memory over required memory, or one where nothing is required.
pub open spec fn memory_ratio(resources: SystemResources, required: int) -> Ratio {
    Ratio::of(10 * usable_memory(resources), required)
}

/// Free storage over needed storage, or one for a model of no size.
pub open spec fn storage_ratio(resources: SystemResources, size: int) -> Ratio {
    if size > 0 {
        Ratio::of(resources.available_storage_bytes as int, needed_storage(size))
    } else {
        Ratio::one()
    }
}

/// The usable memory covers what is required.
pub open spec fn memory_suffices(resources: SystemResources, required: int) -> bool {
    10 * usable_memory(resources) >= required
}

/// The free storage covers the model and its overhead.
pub open spec fn storage_suffices(resources: SystemResources, size: int) -> bool {
    resources.available_storage_bytes >= needed_storage(size)
}

/// The warnings of a verdict, in the order in which they are given: one on
/// memory at most, then storage, then cores.
pub open spec fn warnings_for(resources: SystemResources, size: int, required: int) -> Seq<
    CompatibilityWarning,
> {
    let about_memory = if !memory_suffices(resources, required) {
        seq![
            CompatibilityWarning::InsufficientMemory {
                required_tenths: required as u128,
                usable_bytes: usable_memory(resources) as i128,
            },
        ]
    } else if !memory_ratio(resources, required).at_least(3, 2) {
        seq![
            CompatibilityWarning::TightMemory {
                required_tenths: required as u128,
                usable_bytes: usable_memory(resources) as i128,
            },
        ]
    } else {
        Seq::empty()
    };
    let about_storage = if !storage_suffices(resources, size) {
        seq![
            CompatibilityWarning::InsufficientStorage {
                needed_bytes: needed_storage(size) as u128,
                available_bytes: resources.available_storage_bytes,
            },
        ]
    } else {
        Seq::empty()
    };
    let about_cores = if resources.cpu_cores < COMFORTABLE_CORES {
        seq![CompatibilityWarning::LowCoreCount]
    } else {
        Seq::empty()
    };
    about_memory + about_storage + about_cores
}

/// `verdict` is the verdict on a model of `size` bytes that needs `required`
/// tenths of a byte of memory, on a host with `resources`.
pub open spec fn is_verdict(
    verdict: ModelCompatibility,
    resources: SystemResources,
    size: int,
    required: int,
) -> bool {
    &&& verdict.required_memory_tenths == required
    &&& verdict.usable_memory_bytes == usable_memory(resources)
    &&& verdict.memory_sufficient == memory_suffices(resources, required)
    &&& verdict.storage_sufficient == storage_suffices(resources, size)
    &&& verdict.is_compatible == (memory_suffices(resources, required) && storage_suffices(
        resources,
        size,
    ))
    &&& verdict.confidence_percent == confidence_percent(
        memory_ratio(resources, required),
        storage_ratio(resources, size),
    )
    &&& verdict.warnings@ == warnings_for(resources, size, required)
}

/// The verdict on a model of `model_size_bytes` bytes that needs
/// `required_tenths` tenths of a byte of memory, on a host with `resources`.
pub fn assess_compatibility(
    resources: &SystemResources,
    model_size_bytes: u64,
    required_tenths: u128,
) -> (verdict: ModelCompatibility)
    ensures
        is_verdict(verdict, *resources, model_size_bytes as int, required_tenths as int),
        verdict.confidence_percent <= 100,
        verdict.warnings@.contains(CompatibilityWarning::LowCoreCount) == (resources.cpu_cores
            < COMFORTABLE_CORES),
{
    let usable: i128 = resources.available_memory_bytes as i128 - MEMORY_RESERVE_BYTES as i128;
    let usable_tenths: i128 = 10 * usable;
    let needed: u128 = model_size_bytes as u128 + STORAGE_OVERHEAD_BYTES as u128;
    let memory_sufficient = usable_tenths >= 0 && usable_tenths as u128 >= required_tenths;
    let storage_sufficient = resources.available_storage_bytes as u128 >= needed;
    let memory = if required_tenths > 0 {
        Ratio { numerator: usable_tenths, denominator: required_tenths }
    } else {
        Ratio { numerator: 1, denominator: 1 }
    };
    let storage = if model_size_bytes > 0 {
        Ratio { numerator: resources.available_storage_bytes as i128, denominator: needed }
    } else {
        Ratio { numerator: 1, denominator: 1 }
    };
    let confidence = calculate_confidence_level(memory, storage);
    let mut warnings: Vec<CompatibilityWarning> = Vec::new();
    if !memory_sufficient {
        warnings.push(
            CompatibilityWarning::InsufficientMemory { required_tenths, usable_bytes: usable },
        );
    } else if !memory.is_at_least_one_and_a_half() {
        warnings.push(CompatibilityWarning::TightMemory { required_tenths, usable_bytes: usable });
    }
    if !storage_sufficient {
        warnings.push(
            CompatibilityWarning::InsufficientStorage {
                needed_bytes: needed,
                available_bytes: resources.available_storage_bytes,
            },
        );
    }
    if resources.cpu_cores < COMFORTABLE_CORES {
        warnings.push(CompatibilityWarning::LowCoreCount);
    }
    proof {
        assert(warnings@ =~= warnings_for(
            *resources,
            model_size_bytes as int,
            required_tenths as int,
        ));
        lemma_low_core_warning(*resources, model_size_bytes as int, required_tenths as int);
    }
    ModelCompatibility {
        is_compatible: memory_sufficient && storage_sufficient,
        confidence_percent: confidence,
        required_memory_tenths: required_tenths,
        usable_memory_bytes: usable,
        memory_sufficient,
        storage_sufficient,
        warnings,
    }
}

/// The verdict on a model of `model_size_bytes` bytes named `model_name`,
/// on a host with `resources`.
pub fn validate_model_compatibility(
    resources: &SystemResources,
    model_size_bytes: u64,
    model_name: &str,
) -> (verdict: ModelCompatibility)
    ensures
        is_verdict(
            verdict,
            *resources,
            model_size_bytes as int,
            required_tenths(
                model_size_bytes as int,
                multiplier_tenths(lowercase_of(model_name@)),
            ),
        ),
        verdict.confidence_percent <= 100,
        verdict.warnings@.contains(CompatibilityWarning::LowCoreCount) == (resources.cpu_cores
            < COMFORTABLE_CORES),
{
    let required = estimate_model_memory_requirements(model_size_bytes, model_name);
    assess_compatibility(resources, model_size_bytes, required)
}

/// A host with fewer cores than is comfortable is warned of, and no other
/// host is, whatever its memory and storage.
pub proof fn lemma_low_core_warning(resources: SystemResources, size: int, required: int)
    ensures
        warnings_for(resources, size, required).contains(CompatibilityWarning::LowCoreCount) == (
        resources.cpu_cores < COMFORTABLE_CORES),
{
    let w = warnings_for(resources, size, required);
    if resources.cpu_cores < COMFORTABLE_CORES {
        assert(w[w.len() - 1] == CompatibilityWarning::LowCoreCount);
    } else {
        assert forall|i: int| 0 <= i < w.len() implies w[i] != CompatibilityWarning::LowCoreCount by {}
    }
}

/// Where no memory is required, or the model has no size, the ratio is one:
/// nothing is divided by zero, and the scores are those of a ratio of one.
pub proof fn lemma_ratio_defaults_to_one(resources: SystemResources)
    ensures
        memory_ratio(resources, 0) == Ratio::one(),
        storage_ratio(resources, 0) == Ratio::one(),
        memory_score(memory_ratio(resources, 0)) == 6,
        storage_score(storage_ratio(resources, 0)) == 7,
{
}

/// The confidence lies between 0 and 100 for every pair of ratios.
pub proof fn lemma_confidence_in_range(memory_ratio: Ratio, storage_ratio: Ratio)
    ensures
        0 <= confidence_percent(memory_ratio, storage_ratio) <= 100,
{
}

/// A verdict is favourable exactly when memory and storage both suffice,
/// and memory suffices exactly when its ratio, where one is formed, is at
/// least one.
pub proof fn lemma_sufficiency(resources: SystemResources, size: int, required: int)
    requires
        0 < required <= u128::MAX,
        0 <= size <= u64::MAX,
    ensures
        memory_suffices(resources, required) == memory_ratio(resources, required).at_least(1, 1),
        size > 0 ==> storage_suffices(resources, size) == storage_ratio(resources, size).at_least(
            1,
            1,
        ),
{
}

} // verus!
