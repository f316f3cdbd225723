//! Settings of the stress program, and what it does with them.

use vstd::prelude::*;
use crate::duration::Duration;
use crate::text;
use crate::text::{parse_usize, same_text};

verus! {

/// How the producers write.
#[derive(Debug, Clone, Copy, PartialEq, Eq, Structural)]
pub enum StressMode {
    Append,
    Batch,
}

/// The settings.
#[derive(Debug, Clone, Copy, PartialEq, Eq, Structural)]
pub struct Args {
    pub core_count: usize,
    pub raft_group_count: usize,
    pub stream_count: usize,
    pub producer_count: usize,
    pub setup_concurrency: usize,
    pub mailbox_capacity: usize,
    pub batch_size: usize,
    pub payload_bytes: usize,
    pub duration: Duration,
    pub mode: StressMode,
}

/// What an argument is for.
#[derive(Debug, Clone, Copy, PartialEq, Eq, Structural)]
pub enum StressOption {
    CoreCount,
    RaftGroupCount,
    StreamCount,
    ProducerCount,
    SetupConcurrency,
    MailboxCapacity,
    BatchSize,
    PayloadBytes,
    DurationSecs,
    Mode,
    Help,
}

/// Why the arguments are refused.
pub enum ArgsFault {
    /// Somebody asked what the arguments are.
    Help,
    Unknown { name: Seq<char> },
    NoValue { name: Seq<char> },
    /// The value is no number; what is said against it is left to the standard
    /// library.
    NoNumber { name: Seq<char>, value: Seq<char> },
    NoMode { value: Seq<char> },
    Zero { name: Seq<char> },
}

/// Where reading the arguments has come to.
pub enum ArgsStep {
    /// A length of time that is to be read by the caller.
    Duration { value: Seq<char>, args: Args, at: int },
    Done(Args),
    Failed(ArgsFault),
}

impl StressMode {
    pub open spec fn words(self) -> Seq<char> {
        match self {
            StressMode::Append => "append"@,
            StressMode::Batch => "batch"@,
        }
    }

    pub fn as_str(self) -> (r: &'static str)
        ensures
            r@ == self.words(),
    {
        match self {
            StressMode::Append => "append",
            StressMode::Batch => "batch",
        }
    }

    /// The mode of that name.
    pub fn from_name(raw: &str) -> (r: Option<StressMode>)
        ensures
            r == named_mode(raw@),
    {
        if same_text(raw, "append") {
            Some(StressMode::Append)
        } else if same_text(raw, "batch") {
            Some(StressMode::Batch)
        } else {
            None
        }
    }
}

/// The mode of that name.
pub open spec fn named_mode(raw: Seq<char>) -> Option<StressMode> {
    if raw == "append"@ {
        Some(StressMode::Append)
    } else if raw == "batch"@ {
        Some(StressMode::Batch)
    } else {
        None
    }
}

/// What an argument of that name is for.
pub open spec fn named_option(name: Seq<char>) -> Option<StressOption> {
    if name == "--core-count"@ {
        Some(StressOption::CoreCount)
    } else if name == "--raft-group-count"@ {
        Some(StressOption::RaftGroupCount)
    } else if name == "--stream-count"@ {
        Some(StressOption::StreamCount)
    } else if name == "--producer-count"@ {
        Some(StressOption::ProducerCount)
    } else if name == "--setup-concurrency"@ {
        Some(StressOption::SetupConcurrency)
    } else if name == "--mailbox-capacity"@ {
        Some(StressOption::MailboxCapacity)
    } else if name == "--batch-size"@ {
        Some(StressOption::BatchSize)
    } else if name == "--payload-bytes"@ {
        Some(StressOption::PayloadBytes)
    } else if name == "--duration-secs"@ {
        Some(StressOption::DurationSecs)
    } else if name == "--mode"@ {
        Some(StressOption::Mode)
    } else if name == "--help"@ || name == "-h"@ {
        Some(StressOption::Help)
    } else {
        None
    }
}

fn option_of(name: &str) -> (r: Option<StressOption>)
    ensures
        r == named_option(name@),
{
    if same_text(name, "--core-count") {
        Some(StressOption::CoreCount)
    } else if same_text(name, "--raft-group-count") {
        Some(StressOption::RaftGroupCount)
    } else if same_text(name, "--stream-count") {
        Some(StressOption::StreamCount)
    } else if same_text(name, "--producer-count") {
        Some(StressOption::ProducerCount)
    } else if same_text(name, "--setup-concurrency") {
        Some(StressOption::SetupConcurrency)
    } else if same_text(name, "--mailbox-capacity") {
        Some(StressOption::MailboxCapacity)
    } else if same_text(name, "--batch-size") {
        Some(StressOption::BatchSize)
    } else if same_text(name, "--payload-bytes") {
        Some(StressOption::PayloadBytes)
    } else if same_text(name, "--duration-secs") {
        Some(StressOption::DurationSecs)
    } else if same_text(name, "--mode") {
        Some(StressOption::Mode)
    } else if same_text(name, "--help") || same_text(name, "-h") {
        Some(StressOption::Help)
    } else {
        None
    }
}

/// The settings with one number changed.
pub open spec fn with_number(args: Args, option: StressOption, value: usize) -> Args {
    match option {
        StressOption::CoreCount => Args { core_count: value, ..args },
        StressOption::RaftGroupCount => Args { raft_group_count: value, ..args },
        StressOption::StreamCount => Args { stream_count: value, ..args },
        StressOption::ProducerCount => Args { producer_count: value, ..args },
        StressOption::SetupConcurrency => Args { setup_concurrency: value, ..args },
        StressOption::MailboxCapacity => Args { mailbox_capacity: value, ..args },
        StressOption::BatchSize => Args { batch_size: value, ..args },
        StressOption::PayloadBytes => Args { payload_bytes: value, ..args },
        _ => args,
    }
}

/// The settings, unless one of them is zero that must not be.
pub open spec fn checked(args: Args) -> ArgsStep {
    if args.core_count == 0 {
        ArgsStep::Failed(ArgsFault::Zero { name: "--core-count"@ })
    } else if args.raft_group_count == 0 {
        ArgsStep::Failed(ArgsFault::Zero { name: "--raft-group-count"@ })
    } else if args.stream_count == 0 {
        ArgsStep::Failed(ArgsFault::Zero { name: "--stream-count"@ })
    } else if args.producer_count == 0 {
        ArgsStep::Failed(ArgsFault::Zero { name: "--producer-count"@ })
    } else if args.batch_size == 0 {
        ArgsStep::Failed(ArgsFault::Zero { name: "--batch-size"@ })
    } else if args.payload_bytes == 0 {
        ArgsStep::Failed(ArgsFault::Zero { name: "--payload-bytes"@ })
    } else if args.duration.total_nanos() == 0 {
        ArgsStep::Failed(ArgsFault::Zero { name: "--duration-secs"@ })
    } else {
        ArgsStep::Done(args)
    }
}

/// Where reading the arguments from `at` on comes to.
pub open spec fn read_from(args: Args, raw: Seq<String>, at: int) -> ArgsStep
    decreases raw.len() - at,
{
    if at < 0 || at >= raw.len() {
        checked(args)
    } else {
        let name = raw[at]@;
        match named_option(name) {
            None => ArgsStep::Failed(ArgsFault::Unknown { name }),
            Some(StressOption::Help) => ArgsStep::Failed(ArgsFault::Help),
            Some(option) => if at + 1 >= raw.len() {
                ArgsStep::Failed(ArgsFault::NoValue { name })
            } else {
                let value = raw[at + 1]@;
                match option {
                    StressOption::DurationSecs => ArgsStep::Duration { value, args, at: at + 2 },
                    StressOption::Mode => match named_mode(value) {
                        Some(mode) => read_from(Args { mode, ..args }, raw, at + 2),
                        None => ArgsStep::Failed(ArgsFault::NoMode { value }),
                    },
                    _ => match text::parsed_number(value, usize::MAX as nat) {
                        Some(number) => read_from(
                            with_number(args, option, number as usize),
                            raw,
                            at + 2,
                        ),
                        None => ArgsStep::Failed(ArgsFault::NoNumber { name, value }),
                    },
                }
            },
        }
    }
}

/// How the program is to be called.
pub const USAGE: &'static str = "usage: ursula-runtime-stress [--mode append|batch] [--core-count N] [--raft-group-count N] [--stream-count N] [--producer-count N] [--setup-concurrency N] [--mailbox-capacity N] [--batch-size N] [--payload-bytes N] [--duration-secs N]";

/// Whether words are the words for a refusal.
pub open spec fn is_fault_text(words: Seq<char>, fault: ArgsFault) -> bool {
    match fault {
        ArgsFault::Help => words == USAGE@,
        ArgsFault::Unknown { name } => words == "unknown argument '"@ + name + "'\n\n"@ + USAGE@,
        ArgsFault::NoValue { name } => words == name + " requires a value"@,
        ArgsFault::NoNumber { name, value } => words == invalid_text(
            name,
            value,
            number_fault_words(value, usize::BITS),
        ),
        ArgsFault::NoMode { value } => words == invalid_text(
            "--mode"@,
            value,
            "expected append or batch"@,
        ),
        ArgsFault::Zero { name } => words == name + " must be greater than zero"@,
    }
}

/// The words for a value that cannot be read.
pub open spec fn invalid_text(name: Seq<char>, value: Seq<char>, detail: Seq<char>) -> Seq<char> {
    "invalid "@ + name + " '"@ + value + "': "@ + detail
}

/// The words for a value that cannot be read.
pub fn invalid_value(name: &str, value: &str, detail: &str) -> (r: String)
    ensures
        r@ == invalid_text(name@, value@, detail@),
{
    let mut words = "invalid ".to_owned();
    words.append(name);
    words.append(" '");
    words.append(value);
    words.append("': ");
    words.append(detail);
    words
}

/// What `str::parse` says against a text as a number that has so many bits.
pub uninterp spec fn number_fault_words(value: Seq<char>, bits: u32) -> Seq<char>;

/// `str::parse` to a `usize`, and the words of its error. The words depend on the text
/// and on the width of a `usize` alone. A text that is a number gives no words.
#[verifier::external_body]
fn number_fault(value: &str) -> (r: String)
    ensures
        r@ == number_fault_words(value@, usize::BITS),
{
    value.parse::<usize>().map_or_else(|err| err.to_string(), |_| String::new())
}

/// The settings that hold where nothing else is said.
pub open spec fn default_args(core_count: usize) -> Args {
    Args {
        core_count,
        raft_group_count: many_per_core(core_count, 16),
        stream_count: 4096,
        producer_count: many_per_core(core_count, 64),
        setup_concurrency: 1024,
        mailbox_capacity: 1024,
        batch_size: 16,
        payload_bytes: 128,
        duration: Duration { secs: 10, nanos: 0 },
        mode: StressMode::Batch,
    }
}

impl Args {
    /// The settings that hold where nothing else is said.
    pub fn for_cores(core_count: usize) -> (r: Self)
        ensures
            r == default_args(core_count),
    {
        Args {
            core_count,
            raft_group_count: times_per_core(core_count, 16),
            stream_count: 4096,
            producer_count: times_per_core(core_count, 64),
            setup_concurrency: 1024,
            mailbox_capacity: 1024,
            batch_size: 16,
            payload_bytes: 128,
            duration: Duration { secs: 10, nanos: 0 },
            mode: StressMode::Batch,
        }
    }

    fn set_number(&mut self, option: StressOption, value: usize)
        ensures
            *final(self) == with_number(*old(self), option, value),
    {
        match option {
            StressOption::CoreCount => {
                self.core_count = value;
            },
            StressOption::RaftGroupCount => {
                self.raft_group_count = value;
            },
            StressOption::StreamCount => {
                self.stream_count = value;
            },
            StressOption::ProducerCount => {
                self.producer_count = value;
            },
            StressOption::SetupConcurrency => {
                self.setup_concurrency = value;
            },
            StressOption::MailboxCapacity => {
                self.mailbox_capacity = value;
            },
            StressOption::BatchSize => {
                self.batch_size = value;
            },
            StressOption::PayloadBytes => {
                self.payload_bytes = value;
            },
            _ => {},
        }
    }
}

/// So many for each core, as far as they can be counted, and at least one.
pub open spec fn many_per_core(core_count: usize, each: usize) -> usize {
    if core_count * each > usize::MAX {
        usize::MAX
    } else if core_count * each == 0 {
        1
    } else {
        (core_count * each) as usize
    }
}

fn times_per_core(core_count: usize, each: usize) -> (r: usize)
    ensures
        r == many_per_core(core_count, each),
{
    match core_count.checked_mul(each) {
        Some(product) => if product == 0 {
            1
        } else {
            product
        },
        None => usize::MAX,
    }
}

/// The arguments, and how far they were read.
#[derive(Debug)]
pub struct ArgsReader {
    pub args: Args,
    pub raw: Vec<String>,
    pub at: usize,
}

/// What the reader needs or has found.
#[derive(Debug)]
pub enum ArgsRead {
    /// A length of time, to be read and given to `set_duration`.
    Duration { value: String },
    Finished(Result<Args, String>),
}

fn zero_fault(name: &str) -> (r: String)
    ensures
        is_fault_text(r@, ArgsFault::Zero { name: name@ }),
{
    let mut words = name.to_owned();
    words.append(" must be greater than zero");
    words
}

fn check_args(args: Args) -> (r: Result<Args, String>)
    ensures
        match checked(args) {
            ArgsStep::Done(args) => r == Ok::<Args, String>(args),
            ArgsStep::Failed(fault) => r is Err && is_fault_text(r->Err_0@, fault),
            _ => false,
        },
{
    if args.core_count == 0 {
        return Err(zero_fault("--core-count"));
    }
    if args.raft_group_count == 0 {
        return Err(zero_fault("--raft-group-count"));
    }
    if args.stream_count == 0 {
        return Err(zero_fault("--stream-count"));
    }
    if args.producer_count == 0 {
        return Err(zero_fault("--producer-count"));
    }
    if args.batch_size == 0 {
        return Err(zero_fault("--batch-size"));
    }
    if args.payload_bytes == 0 {
        return Err(zero_fault("--payload-bytes"));
    }
    if args.duration.is_zero() {
        return Err(zero_fault("--duration-secs"));
    }
    Ok(args)
}

impl ArgsReader {
    pub fn new(core_count: usize, raw: Vec<String>) -> (r: Self)
        ensures
            r.raw == raw,
            r.at == 0,
            r.args == default_args(core_count),
    {
        ArgsReader { args: Args::for_cores(core_count), raw, at: 0 }
    }

    /// Sets the length of time.
    pub fn set_duration(&mut self, duration: Duration)
        ensures
            *final(self) == (ArgsReader {
                args: Args { duration, ..old(self).args },
                ..*old(self)
            }),
    {
        self.args.duration = duration;
    }

    /// Reads on, to the end or to a length of time.
    pub fn read(&mut self) -> (r: ArgsRead)
        requires
            old(self).raw@.len() < usize::MAX,
        ensures
            final(self).raw == old(self).raw,
            match read_from(old(self).args, old(self).raw@, old(self).at as int) {
                ArgsStep::Duration { value, args, at } => r is Duration && r->value@ == value
                    && final(self).args == args && final(self).at == at,
                ArgsStep::Done(args) => r is Finished && r->Finished_0 == Ok::<Args, String>(args),
                ArgsStep::Failed(fault) => r is Finished && r->Finished_0 is Err && is_fault_text(
                    r->Finished_0->Err_0@,
                    fault,
                ),
            },
    {
        let ghost expected = read_from(self.args, self.raw@, self.at as int);
        while self.at < self.raw.len()
            invariant
                self.raw == old(self).raw,
                self.raw@.len() < usize::MAX,
                expected == read_from(old(self).args, old(self).raw@, old(self).at as int),
                expected == read_from(self.args, self.raw@, self.at as int),
            decreases self.raw@.len() - self.at,
        {
            let name = &self.raw[self.at];
            let option = match option_of(name.as_str()) {
                Some(option) => option,
                None => {
                    let mut words = "unknown argument '".to_owned();
                    words.append(name.as_str());
                    words.append("'\n\n");
                    words.append(USAGE);
                    return ArgsRead::Finished(Err(words));
                },
            };
            if option == StressOption::Help {
                return ArgsRead::Finished(Err(USAGE.to_owned()));
            }
            if self.at + 1 >= self.raw.len() {
                let mut words = name.clone();
                words.append(" requires a value");
                return ArgsRead::Finished(Err(words));
            }
            let value = self.raw[self.at + 1].clone();
            match option {
                StressOption::DurationSecs => {
                    self.at = self.at + 2;
                    return ArgsRead::Duration { value };
                },
                StressOption::Mode => match StressMode::from_name(value.as_str()) {
                    Some(mode) => {
                        self.args.mode = mode;
                    },
                    None => {
                        return ArgsRead::Finished(
                            Err(
                                invalid_value(
                                    "--mode",
                                    value.as_str(),
                                    "expected append or batch",
                                ),
                            ),
                        );
                    },
                },
                _ => match parse_usize(value.as_str()) {
                    Some(number) => {
                        self.args.set_number(option, number);
                    },
                    None => {
                        let detail = number_fault(value.as_str());
                        let words = invalid_value(name.as_str(), value.as_str(), detail.as_str());
                        return ArgsRead::Finished(Err(words));
                    },
                },
            }
            self.at = self.at + 2;
        }
        ArgsRead::Finished(check_args(self.args))
    }
}

/// The stream that a producer writes to next: `step` further, round and round.
pub fn next_stream_index(index: usize, step: usize, stream_count: usize) -> (r: usize)
    requires
        stream_count > 0,
        index < stream_count,
        index + step <= usize::MAX,
    ensures
        r == (index + step) % stream_count as int,
{
    let next: usize = index + step;
    if next >= stream_count {
        next % stream_count
    } else {
        assert(next as int % stream_count as int == next) by {
            vstd::arithmetic::div_mod::lemma_small_mod(next as nat, stream_count as nat);
        }
        next
    }
}

/// Where a group of streams ends that is made at once, and begins with `from`.
pub fn setup_group_end(from: usize, setup_concurrency: usize, stream_count: usize) -> (r: usize)
    requires
        from < stream_count,
    ensures
        ({
            let step = if setup_concurrency == 0 {
                1
            } else {
                setup_concurrency as int
            };
            r == if from + step > stream_count {
                stream_count as int
            } else {
                from + step
            }
        }),
{
    let step: usize = if setup_concurrency == 0 {
        1
    } else {
        setup_concurrency
    };
    if step > stream_count - from {
        stream_count
    } else {
        from + step
    }
}

/// How many counters of a row were used.
pub open spec fn active_of(row: Seq<u64>) -> nat
    decreases row.len(),
{
    if row.len() == 0 {
        0
    } else {
        active_of(row.drop_last()) + if row.last() > 0 {
            1nat
        } else {
            0nat
        }
    }
}

/// How many counters of a row were used.
pub fn count_active(row: &Vec<u64>) -> (r: usize)
    ensures
        r == active_of(row@),
{
    let mut count: usize = 0;
    let mut i: usize = 0;
    assert(row@.take(0) =~= Seq::empty());
    while i < row.len()
        invariant
            i <= row@.len(),
            count <= i,
            count == active_of(row@.take(i as int)),
        decreases row@.len() - i,
    {
        assert(row@.take(i + 1).drop_last() =~= row@.take(i as int));
        if row[i] > 0 {
            count = count + 1;
        }
        i = i + 1;
    }
    assert(row@.take(i as int) =~= row@);
    count
}

/// An argument and a number set the setting that bears the name of the argument, and no
/// other; reading goes on behind them.
pub proof fn law_number_argument_sets_its_setting(
    args: Args,
    raw: Seq<String>,
    at: int,
    value: usize,
)
    requires
        0 <= at,
        at + 1 < raw.len(),
        raw[at + 1]@ == text::decimal(value as nat),
    ensures
        raw[at]@ == "--core-count"@ ==> read_from(args, raw, at) == read_from(
            Args { core_count: value, ..args },
            raw,
            at + 2,
        ),
        raw[at]@ == "--raft-group-count"@ ==> read_from(args, raw, at) == read_from(
            Args { raft_group_count: value, ..args },
            raw,
            at + 2,
        ),
        raw[at]@ == "--stream-count"@ ==> read_from(args, raw, at) == read_from(
            Args { stream_count: value, ..args },
            raw,
            at + 2,
        ),
        raw[at]@ == "--producer-count"@ ==> read_from(args, raw, at) == read_from(
            Args { producer_count: value, ..args },
            raw,
            at + 2,
        ),
        raw[at]@ == "--setup-concurrency"@ ==> read_from(args, raw, at) == read_from(
            Args { setup_concurrency: value, ..args },
            raw,
            at + 2,
        ),
        raw[at]@ == "--mailbox-capacity"@ ==> read_from(args, raw, at) == read_from(
            Args { mailbox_capacity: value, ..args },
            raw,
            at + 2,
        ),
        raw[at]@ == "--batch-size"@ ==> read_from(args, raw, at) == read_from(
            Args { batch_size: value, ..args },
            raw,
            at + 2,
        ),
        raw[at]@ == "--payload-bytes"@ ==> read_from(args, raw, at) == read_from(
            Args { payload_bytes: value, ..args },
            raw,
            at + 2,
        ),
{
    reveal_strlit("--core-count");
    reveal_strlit("--raft-group-count");
    reveal_strlit("--stream-count");
    reveal_strlit("--producer-count");
    reveal_strlit("--setup-concurrency");
    reveal_strlit("--mailbox-capacity");
    reveal_strlit("--batch-size");
    reveal_strlit("--payload-bytes");
    reveal_strlit("--duration-secs");
    reveal_strlit("--mode");
    reveal_strlit("--help");
    reveal_strlit("-h");
    assert("--core-count"@.len() == 12);
    assert("--raft-group-count"@.len() == 18);
    assert("--stream-count"@.len() == 14);
    assert("--producer-count"@.len() == 16);
    assert("--setup-concurrency"@.len() == 19);
    assert("--mailbox-capacity"@.len() == 18);
    assert("--batch-size"@.len() == 12);
    assert("--payload-bytes"@.len() == 15);
    assert("--duration-secs"@.len() == 15);
    assert("--mode"@.len() == 6);
    assert("--help"@.len() == 6);
    assert("-h"@.len() == 2);
    assert("--core-count"@[2] != "--batch-size"@[2]);
    assert("--raft-group-count"@[2] != "--mailbox-capacity"@[2]);
    assert("--payload-bytes"@[2] != "--duration-secs"@[2]);
    assert("--mode"@[2] != "--help"@[2]);
    text::law_written_number_is_read_back(value as nat, usize::MAX as nat);
}

/// The settings that come of the arguments are at work: no number of them is zero that is
/// used up, and time is given. Settings that are not are refused.
pub proof fn law_settings_are_not_zero(args: Args)
    ensures
        match checked(args) {
            ArgsStep::Done(given) => {
                &&& given == args
                &&& args.core_count > 0
                &&& args.raft_group_count > 0
                &&& args.stream_count > 0
                &&& args.producer_count > 0
                &&& args.batch_size > 0
                &&& args.payload_bytes > 0
                &&& args.duration.total_nanos() != 0
            },
            ArgsStep::Failed(_) => {
                ||| args.core_count == 0
                ||| args.raft_group_count == 0
                ||| args.stream_count == 0
                ||| args.producer_count == 0
                ||| args.batch_size == 0
                ||| args.payload_bytes == 0
                ||| args.duration.total_nanos() == 0
            },
            _ => false,
        },
{
}

/// The counters that were used are those above zero.
pub proof fn law_used_counters_are_above_zero(row: Seq<u64>)
    ensures
        active_of(row) == row.filter(|count: u64| count > 0).len(),
    decreases row.len(),
{
    reveal(Seq::filter);
    if row.len() > 0 {
        law_used_counters_are_above_zero(row.drop_last());
    }
}

/// There are as many for each core as were asked for, where they can be counted, and never
/// none.
pub proof fn law_each_core_has_its_share(core_count: usize, each: usize)
    ensures
        many_per_core(core_count, each) >= 1,
        0 < core_count * each <= usize::MAX ==> many_per_core(core_count, each) == core_count
            * each,
{
}

} // verus!
