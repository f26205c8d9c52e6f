//! The workload engine: the configuration it runs from, the operation mix,
//! how store keys are derived from sampled numbers, and how the records to
//! write are synthesized.
use crate::generator::{
    random_alphanumeric, is_alphanumeric, pick_index, total_weight, AcknowledgedCounterGenerator,
    ConstantGenerator, CounterGenerator, DiscreteGenerator, UniformLongGenerator, WeightPair,
};
use rand::rngs::SmallRng;
use vstd::prelude::*;
use vstd::string::*;

verus! {

/// Offset basis of 64-bit FNV; this hash uses it both as the start value and
/// as the multiplier of each round.
pub const FNV_OFFSET_BASIS_64: u64 = 0xcbf29ce484222325;

/// One round of the hash: fold in the lowest byte of `val`, then multiply
/// (modulo 2^64).
pub open spec fn fnv_round(hash: u64, val: u64) -> u64 {
    vstd::wrapping::u64_specs::wrapping_mul(hash ^ (val & 0xff), FNV_OFFSET_BASIS_64)
}

/// The hash after `n` rounds over the low `n` bytes of `val`, little-endian first.
pub open spec fn fnv_rounds(hash: u64, val: u64, n: nat) -> u64
    decreases n,
{
    if n == 0 {
        hash
    } else {
        fnv_rounds(fnv_round(hash, val), val >> 8, (n - 1) as nat)
    }
}

/// The avalanche hash of a numeric key: all eight bytes folded in.
pub open spec fn fnv64(val: u64) -> u64 {
    fnv_rounds(FNV_OFFSET_BASIS_64, val, 8)
}

/// The keys of the first two numeric keys are fixed constants, and they
/// differ.
pub proof fn lemma_hash_constants()
    ensures
        fnv64(0) == 5416181115624265093u64,
        fnv64(1) == 10437823426863123108u64,
        fnv64(0) != fnv64(1),
{
    assert(0u64 & 0xff == 0) by (bit_vector);
    assert(0u64 >> 8 == 0) by (bit_vector);
    assert(1u64 & 0xff == 1) by (bit_vector);
    assert(1u64 >> 8 == 0) by (bit_vector);
    assert(forall|h: u64| #[trigger] (h ^ 0u64) == h) by (bit_vector);
    assert(0xcbf29ce484222325u64 ^ 1u64 == 0xcbf29ce484222324u64) by (bit_vector);
    assert(((14695981039346656037u64 ^ 0u64) as nat * 14695981039346656037nat) % 18446744073709551616nat == 6614357059459031897nat);
    assert(fnv_rounds(14695981039346656037u64, 0u64, 8) == fnv_rounds(6614357059459031897u64, 0u64, 7));
    assert(((6614357059459031897u64 ^ 0u64) as nat * 14695981039346656037nat) % 18446744073709551616nat == 17377058345181988573nat);
    assert(fnv_rounds(6614357059459031897u64, 0u64, 7) == fnv_rounds(17377058345181988573u64, 0u64, 6));
    assert(((17377058345181988573u64 ^ 0u64) as nat * 14695981039346656037nat) % 18446744073709551616nat == 10627456612651988209nat);
    assert(fnv_rounds(17377058345181988573u64, 0u64, 6) == fnv_rounds(10627456612651988209u64, 0u64, 5));
    assert(((10627456612651988209u64 ^ 0u64) as nat * 14695981039346656037nat) % 18446744073709551616nat == 2121768464328350165nat);
    assert(fnv_rounds(10627456612651988209u64, 0u64, 5) == fnv_rounds(2121768464328350165u64, 0u64, 4));
    assert(((2121768464328350165u64 ^ 0u64) as nat * 14695981039346656037nat) % 18446744073709551616nat == 12674640018237790921nat);
    assert(fnv_rounds(2121768464328350165u64, 0u64, 4) == fnv_rounds(12674640018237790921u64, 0u64, 3));
    assert(((12674640018237790921u64 ^ 0u64) as nat * 14695981039346656037nat) % 18446744073709551616nat == 17454468554603682317nat);
    assert(fnv_rounds(12674640018237790921u64, 0u64, 3) == fnv_rounds(17454468554603682317u64, 0u64, 2));
    assert(((17454468554603682317u64 ^ 0u64) as nat * 14695981039346656037nat) % 18446744073709551616nat == 13425101762470693601nat);
    assert(fnv_rounds(17454468554603682317u64, 0u64, 2) == fnv_rounds(13425101762470693601u64, 0u64, 1));
    assert(((13425101762470693601u64 ^ 0u64) as nat * 14695981039346656037nat) % 18446744073709551616nat == 5416181115624265093nat);
    assert(fnv_rounds(13425101762470693601u64, 0u64, 1) == fnv_rounds(5416181115624265093u64, 0u64, 0));
    assert(fnv_rounds(5416181115624265093u64, 0u64, 0) == 5416181115624265093u64);
    assert(((14695981039346656037u64 ^ 1u64) as nat * 14695981039346656037nat) % 18446744073709551616nat == 10365120093821927476nat);
    assert(fnv_rounds(14695981039346656037u64, 1u64, 8) == fnv_rounds(10365120093821927476u64, 0u64, 7));
    assert(((10365120093821927476u64 ^ 0u64) as nat * 14695981039346656037nat) % 18446744073709551616nat == 10762701285722956676nat);
    assert(fnv_rounds(10365120093821927476u64, 0u64, 7) == fnv_rounds(10762701285722956676u64, 0u64, 6));
    assert(((10762701285722956676u64 ^ 0u64) as nat * 14695981039346656037nat) % 18446744073709551616nat == 11697142341179551252nat);
    assert(fnv_rounds(10762701285722956676u64, 0u64, 6) == fnv_rounds(11697142341179551252u64, 0u64, 5));
    assert(((11697142341179551252u64 ^ 0u64) as nat * 14695981039346656037nat) % 18446744073709551616nat == 9941055925385913572nat);
    assert(fnv_rounds(11697142341179551252u64, 0u64, 5) == fnv_rounds(9941055925385913572u64, 0u64, 4));
    assert(((9941055925385913572u64 ^ 0u64) as nat * 14695981039346656037nat) % 18446744073709551616nat == 10552871553909440756nat);
    assert(fnv_rounds(9941055925385913572u64, 0u64, 4) == fnv_rounds(10552871553909440756u64, 0u64, 3));
    assert(((10552871553909440756u64 ^ 0u64) as nat * 14695981039346656037nat) % 18446744073709551616nat == 4779828536365891396nat);
    assert(fnv_rounds(10552871553909440756u64, 0u64, 3) == fnv_rounds(4779828536365891396u64, 0u64, 2));
    assert(((4779828536365891396u64 ^ 0u64) as nat * 14695981039346656037nat) % 18446744073709551616nat == 14417377281576562900nat);
    assert(fnv_rounds(4779828536365891396u64, 0u64, 2) == fnv_rounds(14417377281576562900u64, 0u64, 1));
    assert(((14417377281576562900u64 ^ 0u64) as nat * 14695981039346656037nat) % 18446744073709551616nat == 10437823426863123108nat);
    assert(fnv_rounds(14417377281576562900u64, 0u64, 1) == fnv_rounds(10437823426863123108u64, 0u64, 0));
    assert(fnv_rounds(10437823426863123108u64, 0u64, 0) == 10437823426863123108u64);
}

/// FNV-64 over the eight little-endian bytes of `val`.
pub fn fnvhash64(val: u64) -> (r: u64)
    ensures
        r == fnv64(val),
{
    let mut rest: u64 = val;
    let mut hashval: u64 = FNV_OFFSET_BASIS_64;
    let mut i: u64 = 0;
    while i < 8
        invariant
            i <= 8,
            fnv_rounds(hashval, rest, (8 - i) as nat) == fnv64(val),
        decreases 8 - i,
    {
        let octet = rest & 0xff;
        assert(fnv_rounds(hashval, rest, (8 - i) as nat) == fnv_rounds(
            fnv_round(hashval, rest),
            rest >> 8,
            (8 - i - 1) as nat,
        ));
        hashval = (hashval ^ octet).wrapping_mul(FNV_OFFSET_BASIS_64);
        rest = rest >> 8;
        i = i + 1;
    }
    hashval
}


/// Decimal digit `d` as a character.
pub open spec fn digit_char(d: nat) -> char {
    if d == 0 { '0' } else if d == 1 { '1' } else if d == 2 { '2' } else if d == 3 { '3' }
    else if d == 4 { '4' } else if d == 5 { '5' } else if d == 6 { '6' } else if d == 7 { '7' }
    else if d == 8 { '8' } else { '9' }
}

/// The decimal notation of `n`, without leading zeros.
pub open spec fn decimal_digits(n: nat) -> Seq<char>
    decreases n,
{
    if n < 10 {
        seq![digit_char(n)]
    } else {
        decimal_digits(n / 10) + seq![digit_char(n % 10)]
    }
}

/// The characters of digits `ds`, read from the last to the first.
spec fn digits_reversed(ds: Seq<u64>) -> Seq<char> {
    Seq::new(ds.len(), |k: int| digit_char(ds[ds.len() - 1 - k] as nat))
}

/// The one-character string of digit `d`.
fn digit_str(d: u64) -> (r: &'static str)
    requires
        d < 10,
    ensures
        r@ == seq![digit_char(d as nat)],
{
    proof {
        reveal_strlit("0");
        reveal_strlit("1");
        reveal_strlit("2");
        reveal_strlit("3");
        reveal_strlit("4");
        reveal_strlit("5");
        reveal_strlit("6");
        reveal_strlit("7");
        reveal_strlit("8");
        reveal_strlit("9");
    }
    if d == 0 { "0" } else if d == 1 { "1" } else if d == 2 { "2" } else if d == 3 { "3" }
    else if d == 4 { "4" } else if d == 5 { "5" } else if d == 6 { "6" } else if d == 7 { "7" }
    else if d == 8 { "8" } else { "9" }
}

/// `n` in decimal notation.
fn decimal_string(n: u64) -> (r: String)
    ensures
        r@ == decimal_digits(n as nat),
{
    let mut ds: Vec<u64> = Vec::new();
    let mut m: u64 = n;
    assert(digits_reversed(ds@) =~= Seq::<char>::empty());
    while m >= 10
        invariant
            decimal_digits(n as nat) == decimal_digits(m as nat) + digits_reversed(ds@),
            forall|k: int| 0 <= k < ds@.len() ==> #[trigger] ds@[k] < 10,
        decreases m,
    {
        let ghost before = ds@;
        ds.push(m % 10);
        assert(digits_reversed(ds@) =~= seq![digit_char((m % 10) as nat)] + digits_reversed(before));
        assert(decimal_digits(m as nat) == decimal_digits((m / 10) as nat) + seq![
            digit_char((m % 10) as nat),
        ]);
        m = m / 10;
        assert(decimal_digits(n as nat) =~= decimal_digits(m as nat) + digits_reversed(ds@));
    }
    let ghost before = ds@;
    ds.push(m);
    assert(digits_reversed(ds@) =~= seq![digit_char(m as nat)] + digits_reversed(before));
    assert(decimal_digits(n as nat) =~= digits_reversed(ds@));
    let mut out = String::new();
    let mut i: usize = ds.len();
    while i > 0
        invariant
            i <= ds@.len(),
            forall|k: int| 0 <= k < ds@.len() ==> #[trigger] ds@[k] < 10,
            out@ == digits_reversed(ds@).subrange(0, ds@.len() - i),
        decreases i,
    {
        let d = digit_str(ds[i - 1]);
        out.append(d);
        i = i - 1;
        assert(out@ =~= digits_reversed(ds@).subrange(0, ds@.len() - i));
    }
    assert(digits_reversed(ds@).subrange(0, ds@.len() as int) =~= digits_reversed(ds@));
    out
}

/// The store key for numeric key `keynum`: its hash, in decimal.
pub open spec fn key_name(keynum: u64) -> Seq<char> {
    decimal_digits(fnv64(keynum) as nat)
}

/// The primary key under which numeric key `keynum` is stored.
pub fn build_key_name(keynum: u64) -> (r: String)
    ensures
        r@ == key_name(keynum),
{
    decimal_string(fnvhash64(keynum))
}

/// Number of value columns of a record.
pub const FIELD_COUNT: u64 = 10;

/// The name of column `i`: `field` followed by `i` in decimal.
pub open spec fn field_name(i: nat) -> Seq<char> {
    "field"@ + decimal_digits(i)
}

/// The names of the value columns, `field0` to `field9`.
pub fn field_names() -> (r: Vec<String>)
    ensures
        r@.len() == FIELD_COUNT,
        forall|i: int| 0 <= i < FIELD_COUNT ==> #[trigger] r@[i]@ == field_name(i as nat),
{
    let mut names: Vec<String> = Vec::new();
    let mut i: u64 = 0;
    while i < FIELD_COUNT
        invariant
            i <= FIELD_COUNT,
            names@.len() == i,
            forall|j: int| 0 <= j < i ==> #[trigger] names@[j]@ == field_name(j as nat),
        decreases FIELD_COUNT - i,
    {
        let mut name = String::from_str("field");
        let digits = decimal_string(i);
        name.append(digits.as_str());
        proof {
            reveal_strlit("field");
        }
        names.push(name);
        i = i + 1;
    }
    names
}

/// The kinds of operation a transaction can be.
#[derive(Clone, Copy, Debug, PartialEq, Eq)]
pub enum CoreOperation {
    Read,
    Update,
    Insert,
    Scan,
    ReadModifyWrite,
}

impl CoreOperation {
    /// The operation's name, as it is printed.
    pub fn name(&self) -> (r: &'static str)
        ensures
            r@ == operation_name(*self),
    {
        match self {
            CoreOperation::Read => "Read",
            CoreOperation::Update => "Update",
            CoreOperation::Insert => "Insert",
            CoreOperation::Scan => "Scan",
            CoreOperation::ReadModifyWrite => "ReadModifyWrite",
        }
    }
}

pub open spec fn operation_name(op: CoreOperation) -> Seq<char> {
    match op {
        CoreOperation::Read => "Read"@,
        CoreOperation::Update => "Update"@,
        CoreOperation::Insert => "Insert"@,
        CoreOperation::Scan => "Scan"@,
        CoreOperation::ReadModifyWrite => "ReadModifyWrite"@,
    }
}


/// The run configuration. Proportions are weights in parts per million:
/// each one above zero makes its operation choosable; they need not add up
/// to a million.
#[derive(Clone, Debug)]
pub struct Properties {
    pub table: String,
    pub field_length: u64,
    pub field_length_distribution: String,
    pub record_count: u64,
    pub operation_count: u64,
    pub insert_start: u64,
    pub insert_count: u64,
    pub request_distribution: String,
    pub read_proportion: u32,
    pub update_proportion: u32,
    pub insert_proportion: u32,
    pub scan_proportion: u32,
    pub read_modify_write_proportion: u32,
}

/// A configuration the run cannot start from.
#[derive(Clone, Copy, Debug, PartialEq, Eq)]
pub enum ConfigError {
    /// The distribution name is not one this use of it knows.
    UnknownDistribution,
    /// The distribution is recognized but has no sampler.
    UnsupportedDistribution,
    /// The range to sample from is empty.
    EmptyRange,
    /// The key range holds fewer than two keys, or does not fit in `u64`.
    InvalidKeyRange,
}

/// The distributions a configuration can name.
#[derive(Clone, Copy, Debug, PartialEq, Eq)]
pub enum DistributionKind {
    Constant,
    Uniform,
    Zipfian,
    Histogram,
}

/// A sampler's description: which distribution, over which values.
#[derive(Clone, Copy, Debug, PartialEq, Eq)]
pub enum GeneratorConfig {
    Constant { value: u64 },
    Uniform { lb: u64, ub: u64 },
    Zipfian { min: u64, max: u64 },
}

impl GeneratorConfig {
    /// The range to draw from is not empty.
    pub open spec fn wf(&self) -> bool {
        match *self {
            GeneratorConfig::Constant { .. } => true,
            GeneratorConfig::Uniform { lb, ub } => lb <= ub,
            GeneratorConfig::Zipfian { min, max } => min <= max,
        }
    }

    /// Draws from a constant or uniform sampler; `None` for a Zipfian one,
    /// whose draw is left to the caller.
    pub fn draw(&self, rng: &mut SmallRng) -> (r: Option<u64>)
        requires
            self.wf(),
        ensures
            match *self {
                GeneratorConfig::Constant { value } => r == Some(value),
                GeneratorConfig::Uniform { lb, ub } => r matches Some(v) && lb <= v <= ub,
                GeneratorConfig::Zipfian { .. } => r is None,
            },
    {
        match *self {
            GeneratorConfig::Constant { value } => Some(ConstantGenerator::new(value).next_value()),
            GeneratorConfig::Uniform { lb, ub } => Some(UniformLongGenerator::new(lb, ub).next_value(rng)),
            GeneratorConfig::Zipfian { .. } => None,
        }
    }
}

/// What `str::to_lowercase` makes of a string.
pub uninterp spec fn lower_of(s: Seq<char>) -> Seq<char>;

/// Relies on `str::to_lowercase`: the result depends on the characters alone.
#[verifier::external_body]
fn lowercase(s: &String) -> (r: String)
    ensures
        r@ == lower_of(s@),
{
    s.to_lowercase()
}

/// The distribution a (lower-case) name denotes.
pub open spec fn distribution_of(name: Seq<char>) -> Option<DistributionKind> {
    if name == "constant"@ {
        Some(DistributionKind::Constant)
    } else if name == "uniform"@ {
        Some(DistributionKind::Uniform)
    } else if name == "zipfian"@ {
        Some(DistributionKind::Zipfian)
    } else if name == "histogram"@ {
        Some(DistributionKind::Histogram)
    } else {
        None
    }
}

/// Reads a distribution name that is already in lower case.
pub fn parse_distribution(name: &String) -> (r: Option<DistributionKind>)
    ensures
        r == distribution_of(name@),
{
    let constant = String::from_str("constant");
    let uniform = String::from_str("uniform");
    let zipfian = String::from_str("zipfian");
    let histogram = String::from_str("histogram");
    proof {
        reveal_strlit("constant");
        reveal_strlit("uniform");
        reveal_strlit("zipfian");
        reveal_strlit("histogram");
    }
    if *name == constant {
        Some(DistributionKind::Constant)
    } else if *name == uniform {
        Some(DistributionKind::Uniform)
    } else if *name == zipfian {
        Some(DistributionKind::Zipfian)
    } else if *name == histogram {
        Some(DistributionKind::Histogram)
    } else {
        None
    }
}

/// The field-length sampler for distribution `kind` and bound `field_length`.
pub open spec fn field_length_spec(kind: Option<DistributionKind>, field_length: u64) -> Result<
    GeneratorConfig,
    ConfigError,
> {
    match kind {
        Some(DistributionKind::Constant) => Ok(GeneratorConfig::Constant { value: field_length }),
        Some(DistributionKind::Uniform) => if field_length >= 1 {
            Ok(GeneratorConfig::Uniform { lb: 1, ub: field_length })
        } else {
            Err(ConfigError::EmptyRange)
        },
        Some(DistributionKind::Zipfian) => if field_length >= 1 {
            Ok(GeneratorConfig::Zipfian { min: 1, max: field_length })
        } else {
            Err(ConfigError::EmptyRange)
        },
        Some(DistributionKind::Histogram) => Err(ConfigError::UnsupportedDistribution),
        None => Err(ConfigError::UnknownDistribution),
    }
}

/// Field lengths: always `field_length`, or drawn from `[1, field_length]`.
pub fn field_length_config(kind: Option<DistributionKind>, field_length: u64) -> (r: Result<
    GeneratorConfig,
    ConfigError,
>)
    ensures
        r == field_length_spec(kind, field_length),
{
    match kind {
        Some(DistributionKind::Constant) => Ok(GeneratorConfig::Constant { value: field_length }),
        Some(DistributionKind::Uniform) => if field_length >= 1 {
            Ok(GeneratorConfig::Uniform { lb: 1, ub: field_length })
        } else {
            Err(ConfigError::EmptyRange)
        },
        Some(DistributionKind::Zipfian) => if field_length >= 1 {
            Ok(GeneratorConfig::Zipfian { min: 1, max: field_length })
        } else {
            Err(ConfigError::EmptyRange)
        },
        Some(DistributionKind::Histogram) => Err(ConfigError::UnsupportedDistribution),
        None => Err(ConfigError::UnknownDistribution),
    }
}

/// The sampler of field lengths that `prop` configures.
pub fn get_field_length_generator(prop: &Properties) -> (r: Result<GeneratorConfig, ConfigError>)
    ensures
        r == field_length_spec(
            distribution_of(lower_of(prop.field_length_distribution@)),
            prop.field_length,
        ),
{
    let name = lowercase(&prop.field_length_distribution);
    field_length_config(parse_distribution(&name), prop.field_length)
}

/// The number of keys that reads choose among: `insert_count` when above
/// one, else the records from `insert_start` to `record_count`.
pub open spec fn key_count(prop: Properties) -> int {
    if prop.insert_count > 1 {
        prop.insert_count as int
    } else {
        prop.record_count - prop.insert_start
    }
}

/// The read-key sampler for distribution `kind` over the configured keys.
pub open spec fn key_chooser_spec(kind: Option<DistributionKind>, prop: Properties) -> Result<
    GeneratorConfig,
    ConfigError,
> {
    let n = key_count(prop);
    let last = prop.insert_start + n - 1;
    if n <= 1 || last > u64::MAX {
        Err(ConfigError::InvalidKeyRange)
    } else {
        match kind {
            Some(DistributionKind::Uniform) => Ok(
                GeneratorConfig::Uniform { lb: prop.insert_start, ub: last as u64 },
            ),
            Some(DistributionKind::Zipfian) => Ok(
                GeneratorConfig::Zipfian { min: prop.insert_start, max: last as u64 },
            ),
            _ => Err(ConfigError::UnknownDistribution),
        }
    }
}

/// Read keys: uniform or Zipfian over `[insert_start, insert_start + count - 1]`.
pub fn key_chooser_config(kind: Option<DistributionKind>, prop: &Properties) -> (r: Result<
    GeneratorConfig,
    ConfigError,
>)
    ensures
        r == key_chooser_spec(kind, *prop),
{
    let count: u64 = if prop.insert_count > 1 {
        prop.insert_count
    } else if prop.record_count >= prop.insert_start {
        prop.record_count - prop.insert_start
    } else {
        return Err(ConfigError::InvalidKeyRange);
    };
    if count <= 1 || count - 1 > u64::MAX - prop.insert_start {
        return Err(ConfigError::InvalidKeyRange);
    }
    let last = prop.insert_start + (count - 1);
    match kind {
        Some(DistributionKind::Uniform) => Ok(GeneratorConfig::Uniform { lb: prop.insert_start, ub: last }),
        Some(DistributionKind::Zipfian) => Ok(GeneratorConfig::Zipfian { min: prop.insert_start, max: last }),
        _ => Err(ConfigError::UnknownDistribution),
    }
}

/// The sampler of read keys that `prop` configures.
pub fn get_key_chooser_generator(prop: &Properties) -> (r: Result<GeneratorConfig, ConfigError>)
    ensures
        r == key_chooser_spec(distribution_of(lower_of(prop.request_distribution@)), *prop),
{
    let name = lowercase(&prop.request_distribution);
    key_chooser_config(parse_distribution(&name), prop)
}

/// The arm an operation contributes to the mix: none when its weight is zero.
pub open spec fn arm(weight: u32, op: CoreOperation) -> Seq<WeightPair<CoreOperation>> {
    if weight > 0 {
        seq![WeightPair { weight, value: op }]
    } else {
        Seq::empty()
    }
}

/// The weighted arms of the operation mix, in a fixed order.
pub open spec fn operation_pairs(prop: Properties) -> Seq<WeightPair<CoreOperation>> {
    arm(prop.read_proportion, CoreOperation::Read) + arm(
        prop.update_proportion,
        CoreOperation::Update,
    ) + arm(prop.insert_proportion, CoreOperation::Insert) + arm(
        prop.scan_proportion,
        CoreOperation::Scan,
    ) + arm(prop.read_modify_write_proportion, CoreOperation::ReadModifyWrite)
}

proof fn lemma_total_weight_bound(pairs: Seq<WeightPair<CoreOperation>>)
    ensures
        total_weight(pairs) <= pairs.len() * (u32::MAX as nat),
    decreases pairs.len(),
{
    if pairs.len() > 0 {
        lemma_total_weight_bound(pairs.drop_last());
        assert(total_weight(pairs) <= pairs.len() * (u32::MAX as nat)) by (nonlinear_arith)
            requires
                total_weight(pairs) == total_weight(pairs.drop_last()) + pairs.last().weight as nat,
                total_weight(pairs.drop_last()) <= (pairs.len() - 1) * (u32::MAX as nat),
                pairs.last().weight <= u32::MAX,
        ;
    }
}

fn push_arm(pairs: &mut Vec<WeightPair<CoreOperation>>, weight: u32, op: CoreOperation)
    ensures
        final(pairs)@ == old(pairs)@ + arm(weight, op),
{
    if weight > 0 {
        pairs.push(WeightPair::new(weight, op));
    }
    assert(final(pairs)@ =~= old(pairs)@ + arm(weight, op));
}

/// The operation chooser: one arm per operation with a positive proportion.
pub fn create_operation_generator(prop: &Properties) -> (r: DiscreteGenerator<CoreOperation>)
    ensures
        r.wf(),
        r.pairs@ == operation_pairs(*prop),
{
    let mut pairs: Vec<WeightPair<CoreOperation>> = Vec::new();
    push_arm(&mut pairs, prop.read_proportion, CoreOperation::Read);
    push_arm(&mut pairs, prop.update_proportion, CoreOperation::Update);
    push_arm(&mut pairs, prop.insert_proportion, CoreOperation::Insert);
    push_arm(&mut pairs, prop.scan_proportion, CoreOperation::Scan);
    push_arm(&mut pairs, prop.read_modify_write_proportion, CoreOperation::ReadModifyWrite);
    assert(pairs@ =~= operation_pairs(*prop));
    proof {
        lemma_total_weight_bound(pairs@);
    }
    DiscreteGenerator::new(pairs)
}


/// The store operation that a transaction runs.
#[derive(Clone, Copy, Debug, PartialEq, Eq)]
pub enum StoreOperation {
    Read,
    Update,
    Insert,
}

/// A transaction kind that can be configured but has no execution path.
#[derive(Clone, Copy, Debug, PartialEq, Eq)]
pub enum TransactionError {
    Unsupported(CoreOperation),
}

/// What a transaction of kind `op` runs: reads, updates and inserts run
/// their store operation; scans and read-modify-writes are refused.
pub open spec fn dispatch_spec(op: CoreOperation) -> Result<StoreOperation, TransactionError> {
    match op {
        CoreOperation::Read => Ok(StoreOperation::Read),
        CoreOperation::Update => Ok(StoreOperation::Update),
        CoreOperation::Insert => Ok(StoreOperation::Insert),
        _ => Err(TransactionError::Unsupported(op)),
    }
}

pub fn dispatch(op: CoreOperation) -> (r: Result<StoreOperation, TransactionError>)
    ensures
        r == dispatch_spec(op),
{
    match op {
        CoreOperation::Read => Ok(StoreOperation::Read),
        CoreOperation::Update => Ok(StoreOperation::Update),
        CoreOperation::Insert => Ok(StoreOperation::Insert),
        _ => Err(TransactionError::Unsupported(op)),
    }
}

/// A row to write: its primary key and its `(column, value)` pairs.
#[derive(Clone, Debug)]
pub struct Record {
    pub key: String,
    pub values: Vec<(String, String)>,
}

/// The state a workload keeps across operations: the table, the column
/// names, the insert key sequence, the operation mix, and the samplers'
/// descriptions.
#[derive(Clone, Debug)]
pub struct CoreWorkload {
    pub table: String,
    pub field_names: Vec<String>,
    pub field_length_generator: GeneratorConfig,
    pub key_sequence: CounterGenerator,
    pub operation_chooser: DiscreteGenerator<CoreOperation>,
    pub key_chooser: GeneratorConfig,
    pub transaction_insert_key_sequence: AcknowledgedCounterGenerator,
    pub timeout_ms: u64,
    pub retries: u64,
}

impl CoreWorkload {
    pub open spec fn wf(&self) -> bool {
        &&& self.field_names@.len() == FIELD_COUNT
        &&& forall|i: int| 0 <= i < FIELD_COUNT ==> #[trigger] self.field_names@[i]@ == field_name(i as nat)
        &&& self.operation_chooser.wf()
        &&& self.field_length_generator.wf()
        &&& self.key_chooser.wf()
    }

    /// Builds the workload that `prop` configures; fails when either
    /// sampler cannot be built from it.
    pub fn new(prop: &Properties, timeout_ms: u64, retries: u64) -> (r: Result<Self, ConfigError>)
        ensures
            match r {
                Ok(w) => {
                    &&& w.wf()
                    &&& w.table@ == prop.table@
                    &&& Ok::<GeneratorConfig, ConfigError>(w.field_length_generator) == field_length_spec(
                        distribution_of(lower_of(prop.field_length_distribution@)),
                        prop.field_length,
                    )
                    &&& Ok::<GeneratorConfig, ConfigError>(w.key_chooser) == key_chooser_spec(
                        distribution_of(lower_of(prop.request_distribution@)),
                        *prop,
                    )
                    &&& w.key_sequence.counter == prop.insert_start
                    &&& w.operation_chooser.pairs@ == operation_pairs(*prop)
                    &&& w.transaction_insert_key_sequence.wf()
                    &&& w.transaction_insert_key_sequence.counter.counter == 1
                    &&& w.transaction_insert_key_sequence.watermark == 1
                    &&& w.transaction_insert_key_sequence.acknowledged() == Set::<int>::empty()
                    &&& w.timeout_ms == timeout_ms
                    &&& w.retries == retries
                },
                Err(e) => {
                    ||| field_length_spec(
                        distribution_of(lower_of(prop.field_length_distribution@)),
                        prop.field_length,
                    ) == Err::<GeneratorConfig, ConfigError>(e)
                    ||| key_chooser_spec(
                        distribution_of(lower_of(prop.request_distribution@)),
                        *prop,
                    ) == Err::<GeneratorConfig, ConfigError>(e)
                },
            },
            r is Err <==> (field_length_spec(
                distribution_of(lower_of(prop.field_length_distribution@)),
                prop.field_length,
            ) is Err || key_chooser_spec(
                distribution_of(lower_of(prop.request_distribution@)),
                *prop,
            ) is Err),
    {
        let field_length_generator = match get_field_length_generator(prop) {
            Ok(g) => g,
            Err(e) => return Err(e),
        };
        let key_chooser = match get_key_chooser_generator(prop) {
            Ok(g) => g,
            Err(e) => return Err(e),
        };
        let table = prop.table.clone();
        Ok(CoreWorkload {
            table,
            field_names: field_names(),
            field_length_generator,
            key_sequence: CounterGenerator::new(prop.insert_start),
            operation_chooser: create_operation_generator(prop),
            key_chooser,
            transaction_insert_key_sequence: AcknowledgedCounterGenerator::new(1),
            timeout_ms,
            retries,
        })
    }

    /// Draws the kind of the next transaction; `None` when no operation has
    /// a positive proportion.
    pub fn next_operation(&self, rng: &mut SmallRng) -> (r: Option<CoreOperation>)
        requires
            self.wf(),
        ensures
            r is None <==> self.operation_chooser.total == 0,
            r matches Some(op) ==> exists|d: int|
                0 <= d < self.operation_chooser.total && 0 <= #[trigger] pick_index(
                    self.operation_chooser.pairs@,
                    d,
                ) < self.operation_chooser.pairs@.len() && op == self.operation_chooser.pairs@[
                    pick_index(self.operation_chooser.pairs@, d)].value,
    {
        self.operation_chooser.next_value(rng)
    }

    /// The record that the next insert or update writes: the next value of
    /// the key sequence, hashed, and one random alphanumeric value per
    /// column, of the length given for that column.
    pub fn next_record(&mut self, lengths: &Vec<usize>, rng: &mut SmallRng) -> (r: Record)
        requires
            old(self).wf(),
            old(self).key_sequence.counter < u64::MAX,
            lengths@.len() == FIELD_COUNT,
        ensures
            final(self).wf(),
            final(self).key_sequence.counter == old(self).key_sequence.counter + 1,
            *final(self) == (CoreWorkload { key_sequence: final(self).key_sequence, ..*old(self) }),
            r.key@ == key_name(old(self).key_sequence.counter),
            r.values@.len() == FIELD_COUNT,
            forall|i: int|
                0 <= i < FIELD_COUNT ==> {
                    &&& (#[trigger] r.values@[i]).0@ == field_name(i as nat)
                    &&& r.values@[i].1@.len() == lengths@[i]
                    &&& forall|j: int|
                        0 <= j < lengths@[i] ==> is_alphanumeric(#[trigger] r.values@[i].1@[j])
                },
    {
        let keynum = self.key_sequence.next_value();
        let key = build_key_name(keynum);
        let mut values: Vec<(String, String)> = Vec::new();
        let mut i: usize = 0;
        while i < self.field_names.len()
            invariant
                self.wf(),
                lengths@.len() == FIELD_COUNT,
                i <= FIELD_COUNT,
                values@.len() == i,
                forall|k: int|
                    0 <= k < i ==> {
                        &&& (#[trigger] values@[k]).0@ == field_name(k as nat)
                        &&& values@[k].1@.len() == lengths@[k]
                        &&& forall|j: int|
                            0 <= j < lengths@[k] ==> is_alphanumeric(#[trigger] values@[k].1@[j])
                    },
            decreases FIELD_COUNT - i,
        {
            let value = random_alphanumeric(rng, lengths[i]);
            let name = self.field_names[i].clone();
            values.push((name, value));
            i = i + 1;
        }
        Record { key, values }
    }

    /// A field length, unless the lengths are Zipfian (then `None`).
    pub fn draw_field_length(&self, rng: &mut SmallRng) -> (r: Option<u64>)
        requires
            self.wf(),
        ensures
            match self.field_length_generator {
                GeneratorConfig::Constant { value } => r == Some(value),
                GeneratorConfig::Uniform { lb, ub } => r matches Some(v) && lb <= v <= ub,
                GeneratorConfig::Zipfian { .. } => r is None,
            },
    {
        self.field_length_generator.draw(rng)
    }

    /// A numeric read key, unless read keys are Zipfian (then `None`).
    pub fn draw_read_keynum(&self, rng: &mut SmallRng) -> (r: Option<u64>)
        requires
            self.wf(),
        ensures
            match self.key_chooser {
                GeneratorConfig::Constant { value } => r == Some(value),
                GeneratorConfig::Uniform { lb, ub } => r matches Some(v) && lb <= v <= ub,
                GeneratorConfig::Zipfian { .. } => r is None,
            },
    {
        self.key_chooser.draw(rng)
    }

    /// The store key for a sampled read key `keynum`.
    pub fn read_key(&self, keynum: u64) -> (r: String)
        ensures
            r@ == key_name(keynum),
    {
        build_key_name(keynum)
    }
}


/// A run of `next_record` calls on one workload, inserts and updates alike,
/// in whatever order concurrent callers were serialized: `states[i]` is the
/// workload before call `i` and `keys[i]` the key of the record it built.
/// The keys are those of `start, start + 1, ..., start + calls - 1`, each
/// used once, so the store receives exactly that multiset of keys.
pub proof fn lemma_records_use_consecutive_keys(states: Seq<CoreWorkload>, keys: Seq<Seq<char>>)
    requires
        states.len() == keys.len() + 1,
        forall|i: int|
            0 <= i < keys.len() ==> #[trigger] keys[i] == key_name(states[i].key_sequence.counter),
        forall|i: int|
            0 < i < states.len() ==> #[trigger] states[i].key_sequence.counter == states[i
                - 1].key_sequence.counter + 1,
    ensures
        states[0].key_sequence.counter + keys.len() <= u64::MAX,
        keys == Seq::new(
            keys.len(),
            |i: int| key_name((states[0].key_sequence.counter + i) as u64),
        ),
        keys.to_multiset() == Seq::new(
            keys.len(),
            |i: int| key_name((states[0].key_sequence.counter + i) as u64),
        ).to_multiset(),
{
    let start = states[0].key_sequence.counter as int;
    assert forall|i: int| 0 <= i < states.len() implies #[trigger] states[i].key_sequence.counter
        == start + i by {
        lemma_counter_at(states, i);
    }
    assert(states[keys.len() as int].key_sequence.counter == start + keys.len());
    let expected = Seq::new(keys.len(), |i: int| key_name((start + i) as u64));
    assert forall|i: int| 0 <= i < keys.len() implies keys[i] == expected[i] by {
        assert(states[i].key_sequence.counter == start + i);
    }
    assert(keys =~= expected);
}

proof fn lemma_counter_at(states: Seq<CoreWorkload>, i: int)
    requires
        0 <= i < states.len(),
        forall|j: int|
            0 < j < states.len() ==> #[trigger] states[j].key_sequence.counter == states[j
                - 1].key_sequence.counter + 1,
    ensures
        states[i].key_sequence.counter == states[0].key_sequence.counter + i,
    decreases i,
{
    if i > 0 {
        lemma_counter_at(states, i - 1);
    }
}

} // verus!
