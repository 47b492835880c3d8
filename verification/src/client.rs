//! The driver client's option shapes: what a caller types, and how it
//! becomes a session descriptor or a monitor filter.

use vstd::prelude::*;

use crate::connection_manager::{CounterFilter, Mode, Mtu, Operation, Request};
use crate::text::str_eq;
use vstd::std_specs::convert::FromSpec;

verus! {

/// The operation a caller picks on the command line.
#[derive(Clone, Copy, PartialEq, Eq, Structural, Debug)]
pub enum ClientOperation {
    Send,
    Read,
    Write,
    Atomic,
}

impl ClientOperation {
    /// Parses the lower-case operation name.
    pub fn from_str(s: &str) -> (r: Result<ClientOperation, &'static str>)
        ensures
            match r {
                Ok(op) => (op == ClientOperation::Send && s@ == "send"@) || (op
                    == ClientOperation::Read && s@ == "read"@) || (op == ClientOperation::Write
                    && s@ == "write"@) || (op == ClientOperation::Atomic && s@ == "atomic"@),
                Err(e) => s@ != "send"@ && s@ != "read"@ && s@ != "write"@ && s@ != "atomic"@
                    && e@ == "invalid operation"@,
            },
    {
        if str_eq(s, "send") {
            Ok(ClientOperation::Send)
        } else if str_eq(s, "read") {
            Ok(ClientOperation::Read)
        } else if str_eq(s, "write") {
            Ok(ClientOperation::Write)
        } else if str_eq(s, "atomic") {
            Ok(ClientOperation::Atomic)
        } else {
            Err("invalid operation")
        }
    }
}

impl From<ClientOperation> for Operation {
    fn from(op: ClientOperation) -> (r: Operation) {
        match op {
            ClientOperation::Send => Operation::Send,
            ClientOperation::Read => Operation::Read,
            ClientOperation::Write => Operation::Write,
            ClientOperation::Atomic => Operation::Atomic,
        }
    }
}

impl vstd::std_specs::convert::FromSpecImpl<ClientOperation> for Operation {
    open spec fn obeys_from_spec() -> bool {
        true
    }

    open spec fn from_spec(op: ClientOperation) -> Operation {
        match op {
            ClientOperation::Send => Operation::Send,
            ClientOperation::Read => Operation::Read,
            ClientOperation::Write => Operation::Write,
            ClientOperation::Atomic => Operation::Atomic,
        }
    }
}

/// The measurement mode a caller picks.
#[derive(Clone, Copy, PartialEq, Eq, Structural, Debug)]
pub enum ClientMode {
    Bw,
    Lat,
}

impl ClientMode {
    /// Parses the lower-case mode name.
    pub fn from_str(s: &str) -> (r: Result<ClientMode, &'static str>)
        ensures
            match r {
                Ok(m) => (m == ClientMode::Bw && s@ == "bw"@) || (m == ClientMode::Lat && s@
                    == "lat"@),
                Err(e) => s@ != "bw"@ && s@ != "lat"@ && e@ == "invalid mode"@,
            },
    {
        if str_eq(s, "bw") {
            Ok(ClientMode::Bw)
        } else if str_eq(s, "lat") {
            Ok(ClientMode::Lat)
        } else {
            Err("invalid mode")
        }
    }
}

impl From<ClientMode> for Mode {
    fn from(m: ClientMode) -> (r: Mode) {
        match m {
            ClientMode::Bw => Mode::Bw,
            ClientMode::Lat => Mode::Lat,
        }
    }
}

impl vstd::std_specs::convert::FromSpecImpl<ClientMode> for Mode {
    open spec fn obeys_from_spec() -> bool {
        true
    }

    open spec fn from_spec(m: ClientMode) -> Mode {
        match m {
            ClientMode::Bw => Mode::Bw,
            ClientMode::Lat => Mode::Lat,
        }
    }
}

/// The MTU size a caller picks.
#[derive(Clone, Copy, PartialEq, Eq, Structural, Debug)]
pub enum MtuSize {
    Mtu512,
    Mtu1024,
    Mtu2048,
    Mtu4096,
}

impl MtuSize {
    /// Parses the MTU as its byte size.
    pub fn from_str(s: &str) -> (r: Result<MtuSize, &'static str>)
        ensures
            match r {
                Ok(m) => (m == MtuSize::Mtu512 && s@ == "512"@) || (m == MtuSize::Mtu1024 && s@
                    == "1024"@) || (m == MtuSize::Mtu2048 && s@ == "2048"@) || (m
                    == MtuSize::Mtu4096 && s@ == "4096"@),
                Err(e) => s@ != "512"@ && s@ != "1024"@ && s@ != "2048"@ && s@ != "4096"@ && e@
                    == "invalid mtu"@,
            },
    {
        if str_eq(s, "512") {
            Ok(MtuSize::Mtu512)
        } else if str_eq(s, "1024") {
            Ok(MtuSize::Mtu1024)
        } else if str_eq(s, "2048") {
            Ok(MtuSize::Mtu2048)
        } else if str_eq(s, "4096") {
            Ok(MtuSize::Mtu4096)
        } else {
            Err("invalid mtu")
        }
    }
}

impl From<MtuSize> for Mtu {
    fn from(m: MtuSize) -> (r: Mtu) {
        match m {
            MtuSize::Mtu512 => Mtu::Mtu512,
            MtuSize::Mtu1024 => Mtu::Mtu1024,
            MtuSize::Mtu2048 => Mtu::Mtu2048,
            MtuSize::Mtu4096 => Mtu::Mtu4096,
        }
    }
}

impl vstd::std_specs::convert::FromSpecImpl<MtuSize> for Mtu {
    open spec fn obeys_from_spec() -> bool {
        true
    }

    open spec fn from_spec(m: MtuSize) -> Mtu {
        match m {
            MtuSize::Mtu512 => Mtu::Mtu512,
            MtuSize::Mtu1024 => Mtu::Mtu1024,
            MtuSize::Mtu2048 => Mtu::Mtu2048,
            MtuSize::Mtu4096 => Mtu::Mtu4096,
        }
    }
}

/// Relies on `byte_unit::Byte::parse_str` with byte units assumed: the
/// size a human-readable byte string denotes, if it parses.
#[verifier::external_body]
fn parse_byte_size(s: &str) -> (r: Option<u64>)
    ensures
        r == byte_size_of(s@),
{
    byte_unit::Byte::parse_str(s, true).ok().map(|b| b.as_u64())
}

pub uninterp spec fn byte_size_of(s: Seq<char>) -> Option<u64>;

/// One session as typed on the command line or read from a job file.
pub struct CliArgs {
    pub server: Option<String>,
    pub initiator: Option<String>,
    pub server_port: Option<u16>,
    pub initiator_port: Option<u16>,
    pub op: ClientOperation,
    pub mode: ClientMode,
    pub message_size: Option<String>,
    pub iterations: Option<u32>,
    pub mtu: Option<MtuSize>,
    pub duration: Option<u32>,
    pub config: Option<String>,
    pub cm: Option<bool>,
}

/// What a session descriptor built from typed options must hold, when the
/// options suffice: the addressed server, the parsed message size, and
/// the mapped enums; the identifier stays unassigned.
pub open spec fn spec_args_to_request(a: CliArgs, r: Request) -> bool {
    &&& r.uuid is None
    &&& r.server_address == a.server.unwrap()
    &&& r.server_port == a.server_port.unwrap() as u32
    &&& r.iterations == a.iterations
    &&& (match a.message_size {
        Some(s) => r.message_size == byte_size_of(s@),
        None => r.message_size is None,
    })
    &&& (match a.mtu {
        Some(m) => r.mtu == Some(Mtu::from_spec(m)),
        None => r.mtu is None,
    })
    &&& r.duration == a.duration
    &&& r.operation == Operation::from_spec(a.op)
    &&& r.mode == Mode::from_spec(a.mode)
    &&& r.cm == (match a.cm {
        Some(c) => c,
        None => false,
    })
}

impl CliArgs {
    /// Builds the session descriptor these options describe.  Nothing is
    /// returned when the server address or port is missing, or when the
    /// message size does not parse as a byte size.
    pub fn to_request(&self) -> (r: Option<Request>)
        ensures
            r == self.to_request_spec(),
            r matches Some(req) ==> spec_args_to_request(*self, req),
    {
        let server = match &self.server {
            Some(s) => s.clone(),
            None => {
                return None;
            },
        };
        let server_port = match self.server_port {
            Some(p) => p,
            None => {
                return None;
            },
        };
        let message_size = match &self.message_size {
            Some(s) => {
                match parse_byte_size(s.as_str()) {
                    Some(v) => Some(v),
                    None => {
                        return None;
                    },
                }
            },
            None => None,
        };
        let mtu = match self.mtu {
            Some(m) => Some(Mtu::from(m)),
            None => None,
        };
        Some(
            Request {
                uuid: None,
                server_address: server,
                server_port: server_port as u32,
                iterations: self.iterations,
                message_size,
                mtu,
                duration: self.duration,
                operation: Operation::from(self.op),
                mode: Mode::from(self.mode),
                cm: match self.cm {
                    Some(c) => c,
                    None => false,
                },
            },
        )
    }
}

/// The client's top-level options: one command.
pub struct Args {
    pub command: Commands,
}

/// A path to a job file given instead of inline options.
pub struct ConfigArgs {
    pub path: String,
}

/// Either inline options or a job-file path; a path is recognised by its
/// extension.
pub enum CliConfig {
    CliArgs(Args),
    ConfigArgs(ConfigArgs),
}

/// Whether a command-line word names a job file: it ends in `.yaml`.
pub fn is_yaml_path(s: &str) -> (r: bool)
    ensures
        r == (s@.len() >= 5 && s@.subrange(s@.len() - 5, s@.len() as int) == ".yaml"@),
{
    let n = s.unicode_len();
    if n < 5 {
        return false;
    }
    let tail_ok = s.get_char(n - 5) == '.' && s.get_char(n - 4) == 'y' && s.get_char(n - 3) == 'a'
        && s.get_char(n - 2) == 'm' && s.get_char(n - 1) == 'l';
    proof {
        reveal_strlit(".yaml");
        let t = s@.subrange(s@.len() - 5, s@.len() as int);
        assert(t[0] == s@[s@.len() - 5] && t[1] == s@[s@.len() - 4] && t[2] == s@[s@.len() - 3]
            && t[3] == s@[s@.len() - 2] && t[4] == s@[s@.len() - 1]);
        assert(".yaml"@[0] == '.' && ".yaml"@[1] == 'y' && ".yaml"@[2] == 'a' && ".yaml"@[3] == 'm'
            && ".yaml"@[4] == 'l');
        if tail_ok {
            assert(t =~= ".yaml"@);
        }
    }
    tail_ok
}

/// What a caller asks the client to do.
pub enum Commands {
    Run {
        server: Option<String>,
        initiator: Option<String>,
        server_port: Option<u16>,
        initiator_port: Option<u16>,
        op: ClientOperation,
        mode: ClientMode,
        message_size: Option<String>,
        iterations: Option<u32>,
        mtu: Option<MtuSize>,
        duration: Option<u32>,
        config: Option<String>,
        cm: Option<bool>,
    },
    Stats { address: String, port: u16, command: StatsCommands },
    Monitor { address: String, port: u16, filter: Option<MonitorFilter> },
}

/// The statistics subcommands.
pub enum StatsCommands {
    Get { uuid: String, suffix: String },
    List,
    Remove { uuid: String, suffix: String },
}

impl Commands {
    /// Builds the session descriptor a `Run` command describes; other
    /// commands, or a `Run` with missing or unparsable options, yield
    /// nothing.
    pub fn to_request(&self) -> (r: Option<Request>)
        ensures
            self matches Commands::Run { .. } ==> r == self.spec_run_args().to_request_spec(),
            !(self matches Commands::Run { .. }) ==> r is None,
    {
        match self {
            Commands::Run {
                server,
                initiator,
                server_port,
                initiator_port,
                op,
                mode,
                message_size,
                iterations,
                mtu,
                duration,
                config,
                cm,
            } => {
                let args = CliArgs {
                    server: match server {
                        Some(s) => Some(s.clone()),
                        None => None,
                    },
                    initiator: match initiator {
                        Some(s) => Some(s.clone()),
                        None => None,
                    },
                    server_port: *server_port,
                    initiator_port: *initiator_port,
                    op: *op,
                    mode: *mode,
                    message_size: match message_size {
                        Some(s) => Some(s.clone()),
                        None => None,
                    },
                    iterations: *iterations,
                    mtu: *mtu,
                    duration: *duration,
                    config: match config {
                        Some(s) => Some(s.clone()),
                        None => None,
                    },
                    cm: *cm,
                };
                proof {
                    assert(args == self.spec_run_args());
                }
                args.to_request()
            },
            _ => None,
        }
    }

    /// The option record a `Run` command carries.
    pub open spec fn spec_run_args(self) -> CliArgs {
        match self {
            Commands::Run {
                server,
                initiator,
                server_port,
                initiator_port,
                op,
                mode,
                message_size,
                iterations,
                mtu,
                duration,
                config,
                cm,
            } => CliArgs {
                server,
                initiator,
                server_port,
                initiator_port,
                op,
                mode,
                message_size,
                iterations,
                mtu,
                duration,
                config,
                cm,
            },
            _ => CliArgs {
                server: None,
                initiator: None,
                server_port: None,
                initiator_port: None,
                op: ClientOperation::Send,
                mode: ClientMode::Bw,
                message_size: None,
                iterations: None,
                mtu: None,
                duration: None,
                config: None,
                cm: None,
            },
        }
    }
}

impl CliArgs {
    /// What `to_request` returns, as a value: the descriptor when the
    /// options suffice, nothing otherwise.
    pub open spec fn to_request_spec(self) -> Option<Request> {
        if self.server is Some && self.server_port is Some && (match self.message_size {
            Some(s) => byte_size_of(s@) is Some,
            None => true,
        }) {
            Some(
                Request {
                    uuid: None,
                    server_address: self.server.unwrap(),
                    server_port: self.server_port.unwrap() as u32,
                    iterations: self.iterations,
                    message_size: match self.message_size {
                        Some(s) => byte_size_of(s@),
                        None => None,
                    },
                    mtu: match self.mtu {
                        Some(m) => Some(Mtu::from_spec(m)),
                        None => None,
                    },
                    duration: self.duration,
                    operation: Operation::from_spec(self.op),
                    mode: Mode::from_spec(self.mode),
                    cm: match self.cm {
                        Some(c) => c,
                        None => false,
                    },
                },
            )
        } else {
            None
        }
    }
}

/// The monitor filter as typed: `key=value` words for the interface, the
/// port and the counter list.
pub struct MonitorFilter {
    pub interface: Option<String>,
    pub port: Option<u32>,
    pub counter_list: Vec<String>,
}

impl MonitorFilter {
    /// The stream filter these options stand for.
    pub fn to_counter_filter(&self) -> (r: CounterFilter)
        ensures
            r.interface == self.interface,
            r.port == self.port,
            r.counter_list@ == self.counter_list@,
    {
        let mut counter_list: Vec<String> = Vec::new();
        let mut i: usize = 0;
        while i < self.counter_list.len()
            invariant
                i <= self.counter_list@.len(),
                counter_list@.len() == i,
                forall|j: int| 0 <= j < i ==> counter_list@[j] == self.counter_list@[j],
            decreases self.counter_list@.len() - i,
        {
            counter_list.push(self.counter_list[i].clone());
            i = i + 1;
        }
        proof {
            assert(counter_list@ =~= self.counter_list@);
        }
        CounterFilter {
            interface: match &self.interface {
                Some(s) => Some(s.clone()),
                None => None,
            },
            port: self.port,
            counter_list,
        }
    }

    /// The filter as the parsing specification sees it.
    pub open spec fn spec_view(self) -> (Option<Seq<char>>, Option<u32>, Seq<Seq<char>>) {
        (
            match self.interface {
                Some(x) => Some(x@),
                None => None,
            },
            self.port,
            self.counter_list.deep_view(),
        )
    }

    /// Parses filter words.  Each whitespace-separated word must be
    /// `interface=<name>`, `port=<number>` or `counter_list=<a,b,..>`;
    /// a later word for the same key wins.  A word without a value, an
    /// unknown key or an unparsable port is refused.
    pub fn from_str(s: &str) -> (r: Result<MonitorFilter, &'static str>)
        ensures
            match r {
                Ok(f) => spec_filter_fold(spec_filter_words(s@), (None, None, Seq::empty()))
                    == Some(f.spec_view()),
                Err(e) => spec_filter_fold(spec_filter_words(s@), (None, None, Seq::empty()))
                    is None && e@ == "invalid filter"@,
            },
    {
        let mut filter = MonitorFilter { interface: None, port: None, counter_list: Vec::new() };
        let chars = crate::text::str_to_chars(s);
        let n = chars.len();
        let mut i: usize = 0;
        proof {
            assert(chars@.skip(0) =~= chars@);
            assert(filter.counter_list.deep_view() =~= Seq::<Seq<char>>::empty());
        }
        while i < n
            invariant
                chars@ == s@,
                n == chars@.len(),
                i <= n,
                spec_filter_fold(spec_filter_words(s@), (None, None, Seq::empty()))
                    == spec_filter_fold(
                    spec_filter_words(chars@.skip(i as int)),
                    filter.spec_view(),
                ),
            decreases n - i,
        {
            let ghost rest = chars@.skip(i as int);
            if is_space_ch(chars[i]) {
                proof {
                    assert(rest.skip(1) =~= chars@.skip(i + 1));
                }
                i = i + 1;
            } else {
                let mut j: usize = i + 1;
                while j < n && !is_space_ch(chars[j])
                    invariant
                        n == chars@.len(),
                        i < j <= n,
                        !crate::text::spec_is_space(chars@[i as int]),
                        forall|m: int|
                            i <= m < j ==> !crate::text::spec_is_space(#[trigger] chars@[m]),
                    decreases n - j,
                {
                    j = j + 1;
                }
                let ghost word = chars@.subrange(i as int, j as int);
                proof {
                    assert(forall|m: int| 0 <= m < j - i ==> rest[m] == chars@[m + i]);
                    lemma_nonspace_len_is(rest, j - i);
                    assert(rest.take(j - i) =~= word);
                    assert(rest.skip(j - i) =~= chars@.skip(j as int));
                    assert(spec_filter_words(rest) == seq![word] + spec_filter_words(
                        chars@.skip(j as int),
                    ));
                    assert((seq![word] + spec_filter_words(chars@.skip(j as int)))[0] == word);
                    assert((seq![word] + spec_filter_words(chars@.skip(j as int))).skip(1)
                        =~= spec_filter_words(chars@.skip(j as int)));
                }
                let mut eq: usize = i;
                while eq < j && chars[eq] != '='
                    invariant
                        n == chars@.len(),
                        i <= eq <= j <= n,
                        forall|m: int| i <= m < eq ==> #[trigger] chars@[m] != '=',
                    decreases j - eq,
                {
                    eq = eq + 1;
                }
                proof {
                    assert(forall|m: int| 0 <= m < eq - i ==> word[m] == chars@[m + i]);
                    lemma_noneq_len_is(word, eq - i);
                }
                if eq == j {
                    proof {
                        assert(spec_word_value(word) is None);
                    }
                    return Err("invalid filter");
                }
                let mut val_end: usize = eq + 1;
                while val_end < j && chars[val_end] != '='
                    invariant
                        n == chars@.len(),
                        eq < val_end <= j <= n,
                        forall|m: int| eq < m < val_end ==> #[trigger] chars@[m] != '=',
                    decreases j - val_end,
                {
                    val_end = val_end + 1;
                }
                let ghost value_seq = chars@.subrange(eq + 1, val_end as int);
                proof {
                    let tail = word.skip(eq - i + 1);
                    assert(tail =~= chars@.subrange(eq + 1, j as int));
                    assert(forall|m: int| 0 <= m < val_end - eq - 1 ==> tail[m] == chars@[m + eq
                        + 1]);
                    lemma_noneq_len_is(tail, val_end - (eq + 1));
                    assert(tail.take(val_end - (eq + 1)) =~= value_seq);
                    assert(spec_word_value(word) == Some(value_seq));
                }
                let mut key: Vec<char> = Vec::new();
                let mut m: usize = i;
                while m < eq
                    invariant
                        n == chars@.len(),
                        i <= m <= eq <= n,
                        key@ == chars@.subrange(i as int, m as int),
                    decreases eq - m,
                {
                    key.push(chars[m]);
                    proof {
                        assert(key@ =~= chars@.subrange(i as int, m + 1));
                    }
                    m = m + 1;
                }
                let mut value: Vec<char> = Vec::new();
                let mut v: usize = eq + 1;
                while v < val_end
                    invariant
                        n == chars@.len(),
                        eq < v <= val_end <= n,
                        value@ == chars@.subrange(eq + 1, v as int),
                    decreases val_end - v,
                {
                    value.push(chars[v]);
                    proof {
                        assert(value@ =~= chars@.subrange(eq + 1, v + 1));
                    }
                    v = v + 1;
                }
                proof {
                    assert(spec_word_key(word) =~= key@);
                }
                let key_s = crate::text::chars_to_string(&key);
                let value_s = crate::text::chars_to_string(&value);
                if str_eq(key_s.as_str(), "interface") {
                    filter.interface = Some(value_s);
                } else if str_eq(key_s.as_str(), "port") {
                    match crate::text::parse_u32(value_s.as_str()) {
                        Some(p) => {
                            filter.port = Some(p);
                        },
                        None => {
                            return Err("invalid filter");
                        },
                    }
                } else if str_eq(key_s.as_str(), "counter_list") {
                    filter.counter_list = split_commas(&value);
                } else {
                    proof {
                        reveal_strlit("interface");
                        reveal_strlit("port");
                        reveal_strlit("counter_list");
                    }
                    return Err("invalid filter");
                }
                i = j;
            }
        }
        proof {
            assert(chars@.skip(n as int) =~= Seq::<char>::empty());
            assert(spec_filter_words(chars@.skip(n as int)) =~= Seq::<Seq<char>>::empty());
        }
        Ok(filter)
    }
}

/// How many characters the sequence starts with before its first
/// whitespace.
pub open spec fn spec_nonspace_len(s: Seq<char>) -> nat
    decreases s.len(),
{
    if s.len() > 0 && !crate::text::spec_is_space(s[0]) {
        1 + spec_nonspace_len(s.skip(1))
    } else {
        0
    }
}

proof fn lemma_nonspace_len_bound(s: Seq<char>)
    ensures
        spec_nonspace_len(s) <= s.len(),
    decreases s.len(),
{
    if s.len() > 0 && !crate::text::spec_is_space(s[0]) {
        lemma_nonspace_len_bound(s.skip(1));
    }
}

proof fn lemma_nonspace_len_is(s: Seq<char>, k: int)
    requires
        0 <= k <= s.len(),
        forall|m: int| 0 <= m < k ==> !crate::text::spec_is_space(#[trigger] s[m]),
        k < s.len() ==> crate::text::spec_is_space(s[k]),
    ensures
        spec_nonspace_len(s) == k,
    decreases k,
{
    if k == 0 {
    } else {
        lemma_nonspace_len_is(s.skip(1), k - 1);
    }
}

/// How many characters the sequence starts with before its first equals
/// sign.
pub open spec fn spec_noneq_len(s: Seq<char>) -> nat
    decreases s.len(),
{
    if s.len() > 0 && s[0] != '=' {
        1 + spec_noneq_len(s.skip(1))
    } else {
        0
    }
}

proof fn lemma_noneq_len_is(s: Seq<char>, k: int)
    requires
        0 <= k <= s.len(),
        forall|m: int| 0 <= m < k ==> #[trigger] s[m] != '=',
        k < s.len() ==> s[k] == '=',
    ensures
        spec_noneq_len(s) == k,
    decreases k,
{
    if k == 0 {
    } else {
        lemma_noneq_len_is(s.skip(1), k - 1);
    }
}

/// How many characters the sequence starts with before its first comma.
pub open spec fn spec_nocomma_len(s: Seq<char>) -> nat
    decreases s.len(),
{
    if s.len() > 0 && s[0] != ',' {
        1 + spec_nocomma_len(s.skip(1))
    } else {
        0
    }
}

proof fn lemma_nocomma_len_bound(s: Seq<char>)
    ensures
        spec_nocomma_len(s) <= s.len(),
    decreases s.len(),
{
    if s.len() > 0 && s[0] != ',' {
        lemma_nocomma_len_bound(s.skip(1));
    }
}

proof fn lemma_nocomma_len_is(s: Seq<char>, k: int)
    requires
        0 <= k <= s.len(),
        forall|m: int| 0 <= m < k ==> #[trigger] s[m] != ',',
        k < s.len() ==> s[k] == ',',
    ensures
        spec_nocomma_len(s) == k,
    decreases k,
{
    if k == 0 {
    } else {
        lemma_nocomma_len_is(s.skip(1), k - 1);
    }
}

/// The whitespace-separated words of the filter text.
pub open spec fn spec_filter_words(s: Seq<char>) -> Seq<Seq<char>>
    decreases s.len(),
    via spec_filter_words_decreases
{
    if s.len() == 0 {
        Seq::empty()
    } else if crate::text::spec_is_space(s[0]) {
        spec_filter_words(s.skip(1))
    } else {
        seq![s.take(spec_nonspace_len(s) as int)] + spec_filter_words(
            s.skip(spec_nonspace_len(s) as int),
        )
    }
}

#[via_fn]
proof fn spec_filter_words_decreases(s: Seq<char>) {
    lemma_nonspace_len_bound(s);
}

/// One word's key: everything before its first equals sign.
pub open spec fn spec_word_key(w: Seq<char>) -> Seq<char> {
    w.take(spec_noneq_len(w) as int)
}

/// One word's value: the piece between its first equals sign and its
/// second or its end; a word without an equals sign has none.
pub open spec fn spec_word_value(w: Seq<char>) -> Option<Seq<char>> {
    let e = spec_noneq_len(w) as int;
    if e == w.len() {
        None
    } else {
        Some(w.skip(e + 1).take(spec_noneq_len(w.skip(e + 1)) as int))
    }
}

/// The pieces of a counter list, split at commas; empty pieces are kept.
pub open spec fn spec_comma_split(s: Seq<char>) -> Seq<Seq<char>>
    decreases s.len(),
    via spec_comma_split_decreases
{
    let k = spec_nocomma_len(s) as int;
    if k == s.len() {
        seq![s]
    } else {
        seq![s.take(k)] + spec_comma_split(s.skip(k + 1))
    }
}

#[via_fn]
proof fn spec_comma_split_decreases(s: Seq<char>) {
    lemma_nocomma_len_bound(s);
}

/// What the filter words leave behind, processed left to right from an
/// accumulated `(interface, port, counter list)`: the final triple, or
/// nothing when a word is malformed, names an unknown key, or carries an
/// unparsable port.
pub open spec fn spec_filter_fold(
    words: Seq<Seq<char>>,
    acc: (Option<Seq<char>>, Option<u32>, Seq<Seq<char>>),
) -> Option<(Option<Seq<char>>, Option<u32>, Seq<Seq<char>>)>
    decreases words.len(),
{
    if words.len() == 0 {
        Some(acc)
    } else {
        let w = words[0];
        match spec_word_value(w) {
            None => None,
            Some(v) => if spec_word_key(w) == "interface"@ {
                spec_filter_fold(words.skip(1), (Some(v), acc.1, acc.2))
            } else if spec_word_key(w) == "port"@ {
                match crate::text::spec_parse_u32(v) {
                    Some(p) => spec_filter_fold(words.skip(1), (acc.0, Some(p), acc.2)),
                    None => None,
                }
            } else if spec_word_key(w) == "counter_list"@ {
                spec_filter_fold(words.skip(1), (acc.0, acc.1, spec_comma_split(v)))
            } else {
                None
            },
        }
    }
}

fn is_space_ch(c: char) -> (r: bool)
    ensures
        r == crate::text::spec_is_space(c),
{
    c == ' ' || c == '\t' || c == '\n' || c == '\r'
}

/// Splits a counter list at commas; empty pieces are kept.
fn split_commas(value: &Vec<char>) -> (r: Vec<String>)
    ensures
        r.deep_view() == spec_comma_split(value@),
        r@.len() >= 1,
{
    let chars = value;
    let n = chars.len();
    let mut parts: Vec<String> = Vec::new();
    let mut i: usize = 0;
    proof {
        assert(chars@.skip(0) =~= chars@);
        assert(parts.deep_view() =~= Seq::<Seq<char>>::empty());
    }
    loop
        invariant_except_break
            n == chars@.len(),
            i <= n,
            spec_comma_split(chars@) == parts.deep_view() + spec_comma_split(
                chars@.skip(i as int),
            ),
        ensures
            parts.deep_view() == spec_comma_split(chars@),
            parts@.len() >= 1,
        decreases n - i,
    {
        let ghost pre = parts.deep_view();
        let ghost rest = chars@.skip(i as int);
        let mut j: usize = i;
        while j < n && chars[j] != ','
            invariant
                n == chars@.len(),
                i <= j <= n,
                forall|m: int| i <= m < j ==> #[trigger] chars@[m] != ',',
            decreases n - j,
        {
            j = j + 1;
        }
        proof {
            assert(forall|m: int| 0 <= m < j - i ==> rest[m] == chars@[m + i]);
            lemma_nocomma_len_is(rest, j - i);
            assert(rest.take(j - i) =~= chars@.subrange(i as int, j as int));
        }
        let mut piece: Vec<char> = Vec::new();
        let mut m: usize = i;
        while m < j
            invariant
                n == chars@.len(),
                i <= m <= j <= n,
                piece@ == chars@.subrange(i as int, m as int),
            decreases j - m,
        {
            piece.push(chars[m]);
            proof {
                assert(piece@ =~= chars@.subrange(i as int, m + 1));
            }
            m = m + 1;
        }
        parts.push(crate::text::chars_to_string(&piece));
        if j == n {
            proof {
                assert(spec_comma_split(rest) =~= seq![rest]);
                assert(rest =~= chars@.subrange(i as int, j as int));
                assert(parts.deep_view() =~= pre + seq![rest]);
            }
            break;
        }
        proof {
            assert(rest.skip(j - i + 1) =~= chars@.skip(j + 1));
            assert(spec_comma_split(rest) == seq![rest.take(j - i)] + spec_comma_split(
                rest.skip(j - i + 1),
            ));
            assert(parts.deep_view() =~= pre + seq![rest.take(j - i)]);
            assert(pre + (seq![rest.take(j - i)] + spec_comma_split(rest.skip(j - i + 1)))
                =~= parts.deep_view() + spec_comma_split(chars@.skip(j + 1)));
        }
        i = j + 1;
    }
    parts
}

} // verus!
