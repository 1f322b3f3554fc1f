//! Configuration and command generation for running benchmark clients and
//! validators: the benchmark type with its shared-object ratio, and the
//! generator that renders the genesis and per-node shell command lines
//! from the deployment settings.

use vstd::prelude::*;
use vstd::string::StringExecFns;
use vstd::string::StringSliceAdditionalSpecFns;

use crate::strings::{dec_str, join_str, join_strings, str_views, u64_to_dec};
use crate::types::AuthorityIndex;

verus! {

pub const NODE_METRICS_PORT: u16 = 9091;

pub const CLIENT_METRICS_PORT: u16 = 8081;

pub const BENCHMARK_DURATION: &'static str = "benchmark_duration";

pub const TOTAL_TRANSACTIONS: &'static str = "latency_s_count";

pub const LATENCY_BUCKETS: &'static str = "latency_s";

pub const LATENCY_SUM: &'static str = "latency_s_sum";

pub const LATENCY_SQUARED_SUM: &'static str = "latency_squared_s";

/// The deployment settings this layer reads: the working directory.
pub struct Settings {
    pub working_dir: String,
}

/// A deployment instance, read here only for its main IP address.
pub struct Instance {
    pub main_ip: String,
}

/// Benchmark parameters; the command generator does not read them.
pub struct BenchmarkParameters {
    pub benchmark_type: MysticetiBenchmarkType,
}

/// Why a benchmark-type string does not parse as a ratio.
#[derive(Clone, Copy, PartialEq, Eq, Structural, Debug)]
pub enum RatioParseError {
    Empty,
    InvalidDigit,
    PosOverflow,
}

/// Whether a byte is an ASCII decimal digit.
pub open spec fn is_digit_byte(c: u8) -> bool {
    48 <= c <= 57
}

/// The value of a sequence of ASCII digits, most significant first.
pub open spec fn digits_value(ds: Seq<u8>) -> int
    decreases ds.len(),
{
    if ds.len() == 0 {
        0
    } else {
        digits_value(ds.drop_last()) * 10 + (ds.last() - 48)
    }
}

/// Length of the leading run of digits.
pub open spec fn digit_prefix_len(ds: Seq<u8>) -> int
    decreases ds.len(),
{
    if ds.len() == 0 || !is_digit_byte(ds[0]) {
        0
    } else {
        1 + digit_prefix_len(ds.subrange(1, ds.len() as int))
    }
}

proof fn lemma_digit_prefix_len(ds: Seq<u8>)
    ensures
        0 <= digit_prefix_len(ds) <= ds.len(),
        forall|j: int| 0 <= j < digit_prefix_len(ds) ==> is_digit_byte(#[trigger] ds[j]),
        digit_prefix_len(ds) < ds.len() ==> !is_digit_byte(ds[digit_prefix_len(ds)]),
    decreases ds.len(),
{
    if ds.len() != 0 && is_digit_byte(ds[0]) {
        let rest = ds.subrange(1, ds.len() as int);
        lemma_digit_prefix_len(rest);
        assert forall|j: int| 0 <= j < digit_prefix_len(ds) implies is_digit_byte(
            #[trigger] ds[j],
        ) by {
            if j > 0 {
                assert(rest[j - 1] == ds[j]);
            }
        }
        if digit_prefix_len(ds) < ds.len() {
            assert(ds[digit_prefix_len(ds)] == rest[digit_prefix_len(rest)]);
        }
    }
}

proof fn lemma_digits_value_bounds(ds: Seq<u8>, m: int)
    requires
        0 <= m <= ds.len(),
        forall|j: int| 0 <= j < m ==> is_digit_byte(#[trigger] ds[j]),
    ensures
        0 <= digits_value(ds.take(m)),
        m > 0 ==> digits_value(ds.take(m)) >= digits_value(ds.take(m - 1)),
    decreases m,
{
    if m > 0 {
        lemma_digits_value_bounds(ds, m - 1);
        assert(ds.take(m).drop_last() =~= ds.take(m - 1));
        assert(ds.take(m).last() == ds[m - 1]);
    }
}

/// The digits of a benchmark-type string: an optional leading plus sign
/// is skipped.
pub open spec fn ratio_digits(bs: Seq<u8>) -> Seq<u8> {
    if bs.len() > 0 && bs[0] == 43 {
        bs.subrange(1, bs.len() as int)
    } else {
        bs
    }
}

/// What parsing a benchmark-type string yields, over its bytes: the
/// decimal value when the whole string (after an optional plus sign) is
/// digits and fits a u16; otherwise the first failure the left-to-right
/// scan meets.
pub open spec fn parse_u16_spec(bs: Seq<u8>) -> Result<u16, RatioParseError> {
    let ds = ratio_digits(bs);
    if bs.len() == 0 {
        Err(RatioParseError::Empty)
    } else if ds.len() == 0 {
        Err(RatioParseError::InvalidDigit)
    } else if digits_value(ds.take(digit_prefix_len(ds))) > 65535 {
        Err(RatioParseError::PosOverflow)
    } else if digit_prefix_len(ds) < ds.len() {
        Err(RatioParseError::InvalidDigit)
    } else {
        Ok(digits_value(ds) as u16)
    }
}

/// The type of benchmarks supported: the percentage of shared (versus
/// owned) objects, between 0 and 100.
#[derive(Clone, Copy, PartialEq, Eq, Structural, PartialOrd, Ord, Hash, Debug)]
pub struct MysticetiBenchmarkType {
    shared_objects_ratio: u16,
}

impl MysticetiBenchmarkType {
    /// Percentage of shared objects: 0 means only owned objects, 100 only
    /// shared objects.
    pub closed spec fn ratio(self) -> u16 {
        self.shared_objects_ratio
    }

    /// The ratio, for callers.
    pub fn shared_objects_ratio(&self) -> (r: u16)
        ensures
            r == self.ratio(),
    {
        self.shared_objects_ratio
    }

    /// Parse a ratio, capping it at 100. Succeeds exactly when the string
    /// (after an optional plus sign) is one or more decimal digits whose
    /// value fits a u16; the error says what the scan met first.
    pub fn from_str(s: &str) -> (r: Result<MysticetiBenchmarkType, RatioParseError>)
        ensures
            match parse_u16_spec(s.spec_bytes()) {
                Ok(v) => r matches Ok(t) && t.ratio() == vstd::math::min(v as int, 100),
                Err(e) => r == Err::<MysticetiBenchmarkType, RatioParseError>(e),
            },
    {
        let bs = s.as_bytes();
        let n = bs.len();
        if n == 0 {
            return Err(RatioParseError::Empty);
        }
        let start: usize = if bs[0] == 43 {
            1
        } else {
            0
        };
        let ghost ds = ratio_digits(bs@);
        proof {
            assert(ds =~= bs@.subrange(start as int, n as int));
            lemma_digit_prefix_len(ds);
        }
        if n == start {
            return Err(RatioParseError::InvalidDigit);
        }
        let mut acc: u32 = 0;
        let mut i: usize = start;
        while i < n
            invariant
                start <= i <= n,
                n == bs@.len(),
                bs@ == s.spec_bytes(),
                start <= 1,
                n > start,
                ds == ratio_digits(bs@),
                ds =~= bs@.subrange(start as int, n as int),
                acc == digits_value(ds.take(i - start)),
                acc <= 65535,
                forall|j: int| 0 <= j < i - start ==> is_digit_byte(#[trigger] ds[j]),
                digit_prefix_len(ds) >= i - start,
            decreases n - i,
        {
            proof {
                lemma_digit_prefix_len(ds);
            }
            let c = bs[i];
            assert(ds[i - start] == c);
            if c < 48 || c > 57 {
                proof {
                    if digit_prefix_len(ds) > i - start {
                        assert(is_digit_byte(ds[i - start]));
                    }
                    assert(digit_prefix_len(ds) == i - start);
                }
                return Err(RatioParseError::InvalidDigit);
            }
            let d = (c - 48) as u32;
            proof {
                assert(ds.take(i - start + 1).drop_last() =~= ds.take(i - start));
                assert(ds.take(i - start + 1).last() == ds[i - start]);
            }
            acc = acc * 10 + d;
            if acc > 65535 {
                proof {
                    assert(digits_value(ds.take(i - start + 1)) == acc);
                    assert forall|j: int| 0 <= j < i + 1 - start implies is_digit_byte(
                        #[trigger] ds[j],
                    ) by {}
                    if digit_prefix_len(ds) < i - start + 1 {
                        assert(is_digit_byte(ds[digit_prefix_len(ds)]));
                        assert(false);
                    }
                    assert(digits_value(ds.take(digit_prefix_len(ds))) >= digits_value(
                        ds.take(i - start + 1),
                    )) by {
                        lemma_digits_value_monotone(ds, i - start + 1, digit_prefix_len(ds));
                    }
                }
                return Err(RatioParseError::PosOverflow);
            }
            i += 1;
        }
        proof {
            assert(digit_prefix_len(ds) == ds.len());
            assert(ds.take(ds.len() as int) =~= ds);
        }
        let ratio: u32 = if acc > 100 {
            100
        } else {
            acc
        };
        Ok(MysticetiBenchmarkType { shared_objects_ratio: ratio as u16 })
    }
}

/// Digit-prefix values grow with the prefix.
proof fn lemma_digits_value_monotone(ds: Seq<u8>, m: int, m2: int)
    requires
        0 <= m <= m2 <= ds.len(),
        forall|j: int| 0 <= j < m2 ==> is_digit_byte(#[trigger] ds[j]),
    ensures
        digits_value(ds.take(m)) <= digits_value(ds.take(m2)),
    decreases m2 - m,
{
    if m < m2 {
        lemma_digits_value_monotone(ds, m, m2 - 1);
        lemma_digits_value_bounds(ds, m2);
    }
}

impl Default for MysticetiBenchmarkType {
    /// The default benchmark uses only owned objects.
    fn default() -> (r: Self)
        ensures
            r.ratio() == 0,
    {
        MysticetiBenchmarkType { shared_objects_ratio: 0 }
    }
}

/// All configuration information to run a benchmark client or validator.
pub struct MysticetiProtocol {
    working_dir: String,
}

/// A path under the working directory, joined with a single separator.
pub open spec fn path_join_str(dir: Seq<char>, file: Seq<char>) -> Seq<char> {
    dir + "/"@ + file
}

/// The per-authority private configuration file name.
pub open spec fn private_config_filename_str(authority: int) -> Seq<char> {
    "private-config-"@ + dec_str(authority) + ".yaml"@
}

/// The genesis command line for the given instance IPs.
pub open spec fn genesis_command_str(ips: Seq<Seq<char>>, dir: Seq<char>) -> Seq<char> {
    "source $HOME/.cargo/env && cargo run --release --bin mysticeti -- benchmark-genesis --ips "@
        + join_str(ips, " "@) + " --working_directory "@ + dir
}

/// The node command line for one authority index.
pub open spec fn node_command_str(dir: Seq<char>, authority: int) -> Seq<char> {
    "source $HOME/.cargo/env && cargo run --release --bin mysticeti -- --authority "@ + dec_str(
        authority,
    ) + " --committee-path "@ + path_join_str(dir, "committee.yaml"@) + " --parameters-path "@
        + path_join_str(dir, "parameters.yaml"@) + " --private-config-path "@ + path_join_str(
        dir,
        private_config_filename_str(authority),
    )
}

/// The main IPs of a sequence of instances.
pub open spec fn instance_ips(instances: Seq<Instance>) -> Seq<Seq<char>> {
    instances.map_values(|i: Instance| i.main_ip@)
}

fn path_join(dir: &str, file: &str) -> (r: String)
    ensures
        r@ == path_join_str(dir@, file@),
{
    let mut r = String::from_str(dir);
    r.append("/");
    r.append(file);
    r
}

fn private_config_filename(authority: AuthorityIndex) -> (r: String)
    ensures
        r@ == private_config_filename_str(authority as int),
{
    let mut r = String::from_str("private-config-");
    let d = u64_to_dec(authority);
    r.append(d.as_str());
    r.append(".yaml");
    r
}

impl MysticetiProtocol {
    /// The configured working directory.
    pub closed spec fn working_dir(self) -> Seq<char> {
        self.working_dir@
    }

    /// Make a new instance of the protocol commands generator.
    pub fn new(settings: &Settings) -> (r: Self)
        ensures
            r.working_dir() == settings.working_dir@,
    {
        MysticetiProtocol { working_dir: settings.working_dir.clone() }
    }

    /// Operating-system packages the nodes depend on: none.
    pub fn protocol_dependencies(&self) -> (r: Vec<&'static str>)
        ensures
            r@.len() == 0,
    {
        Vec::new()
    }

    /// Database directories to clean up between runs: none yet.
    pub fn db_directories(&self) -> (r: Vec<String>)
        ensures
            r@.len() == 0,
    {
        Vec::new()
    }

    /// The command that generates the genesis configuration on the given
    /// instances.
    pub fn genesis_command(&self, instances: &Vec<Instance>) -> (r: String)
        ensures
            r@ == genesis_command_str(instance_ips(instances@), self.working_dir()),
    {
        let mut ips: Vec<String> = Vec::new();
        let n = instances.len();
        let mut i: usize = 0;
        while i < n
            invariant
                0 <= i <= n,
                n == instances@.len(),
                ips@.len() == i,
                forall|j: int| 0 <= j < i ==> (#[trigger] ips@[j])@ == instances@[j].main_ip@,
            decreases n - i,
        {
            ips.push(instances[i].main_ip.clone());
            i += 1;
        }
        proof {
            assert(str_views(ips@) =~= instance_ips(instances@));
        }
        let joined = join_strings(&ips, " ");
        let mut r = String::from_str(
            "source $HOME/.cargo/env && cargo run --release --bin mysticeti -- benchmark-genesis --ips ",
        );
        r.append(joined.as_str());
        r.append(" --working_directory ");
        r.append(self.working_dir.as_str());
        r
    }

    /// One command line per instance, the instance's position in the list
    /// being its authority index.
    pub fn node_command(&self, instances: &Vec<Instance>, _parameters: &BenchmarkParameters) -> (r:
        Vec<(Instance, String)>)
        ensures
            r@.len() == instances@.len(),
            forall|i: int|
                0 <= i < r@.len() ==> (#[trigger] r@[i]).0 == instances@[i] && r@[i].1@
                    == node_command_str(self.working_dir(), i),
    {
        let mut out: Vec<(Instance, String)> = Vec::new();
        let n = instances.len();
        let mut i: usize = 0;
        while i < n
            invariant
                0 <= i <= n,
                n == instances@.len(),
                out@.len() == i,
                forall|j: int|
                    0 <= j < i ==> (#[trigger] out@[j]).0 == instances@[j] && out@[j].1@
                        == node_command_str(self.working_dir(), j),
            decreases n - i,
        {
            let authority = i as AuthorityIndex;
            let mut cmd = String::from_str(
                "source $HOME/.cargo/env && cargo run --release --bin mysticeti -- --authority ",
            );
            let d = u64_to_dec(authority);
            cmd.append(d.as_str());
            cmd.append(" --committee-path ");
            let committee_path = path_join(self.working_dir.as_str(), "committee.yaml");
            cmd.append(committee_path.as_str());
            cmd.append(" --parameters-path ");
            let parameters_path = path_join(self.working_dir.as_str(), "parameters.yaml");
            cmd.append(parameters_path.as_str());
            cmd.append(" --private-config-path ");
            let pc_name = private_config_filename(authority);
            let private_config_path = path_join(self.working_dir.as_str(), pc_name.as_str());
            cmd.append(private_config_path.as_str());
            let instance = Instance { main_ip: instances[i].main_ip.clone() };
            out.push((instance, cmd));
            i += 1;
        }
        out
    }

    /// Client command lines: none yet.
    pub fn client_command(&self, _instances: &Vec<Instance>, _parameters: &BenchmarkParameters)
        -> (r: Vec<(Instance, String)>)
        ensures
            r@.len() == 0,
    {
        Vec::new()
    }
}

} // verus!
