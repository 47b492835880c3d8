//! Builds the benchmark child's command line from a session descriptor:
//! which `ib_*` binary to run and which flags it receives, exactly as the
//! external benchmark suite expects them.

use vstd::prelude::*;

use crate::connection_manager::{Mode, Operation, Request};
use crate::text::{spec_decimal, u64_to_string};

verus! {

/// A fully built child invocation: the binary path and its arguments in
/// order.  The caller appends nothing but, for the initiator role, the
/// positional peer address.
pub struct CommandLine {
    pub program: String,
    pub args: Vec<String>,
}

/// The binary path a session runs: operation picks the verb, mode picks
/// the bandwidth or latency flavour.
pub open spec fn spec_program(op: Operation, mode: Mode) -> Seq<char> {
    let m = match mode {
        Mode::Bw => "bw"@,
        Mode::Lat => "lat"@,
    };
    let base = match op {
        Operation::Send => "/usr/bin/ib_send_"@,
        Operation::Write => "/usr/bin/ib_write_"@,
        Operation::Read => "/usr/bin/ib_read_"@,
        Operation::Atomic => "/usr/bin/ib_atomic_"@,
    };
    base + m
}

/// The report file a child writes: `/tmp/<uuid>-<suffix>.json`.
pub open spec fn spec_report_path(uuid: Seq<char>, suffix: Seq<char>) -> Seq<char> {
    "/tmp/"@ + uuid + "-"@ + suffix + ".json"@
}

/// The argument list for a session: every optional flag appears exactly
/// when its field is set, in this fixed order.
pub open spec fn spec_args(req: Request, device: Option<String>, suffix: Seq<char>) -> Seq<
    Seq<char>,
> {
    (match device {
        Some(d) => seq!["-d"@, d@],
        None => Seq::empty(),
    }) + (match req.mtu {
        Some(m) => seq!["-m"@, spec_decimal(m.spec_size() as nat)],
        None => Seq::empty(),
    }) + (match req.iterations {
        Some(n) => seq!["-n"@, spec_decimal(n as nat)],
        None => Seq::empty(),
    }) + (match req.duration {
        Some(d) => seq!["-D"@, spec_decimal(d as nat)],
        None => Seq::empty(),
    }) + seq!["-p"@, spec_decimal(req.server_port as nat)] + (match req.message_size {
        Some(s) => seq!["-s"@, spec_decimal(s as nat)],
        None => Seq::empty(),
    }) + seq![
        "--out_json"@,
        "--out_json_file"@,
        spec_report_path(req.uuid.unwrap()@, suffix),
    ] + (if req.cm {
        seq!["-R"@]
    } else {
        Seq::empty()
    })
}

/// Composes the report file path for one session and role.
pub fn report_path(uuid: &str, suffix: &str) -> (r: String)
    ensures
        r@ == spec_report_path(uuid@, suffix@),
{
    let mut p = String::new();
    p.append("/tmp/");
    p.append(uuid);
    p.append("-");
    p.append(suffix);
    p.append(".json");
    p
}

/// Builds the child's command line from a session descriptor.  The
/// descriptor must already carry its session identifier; `suffix` is the
/// role tag that names the report file.
#[verifier::rlimit(60)]
pub fn request_to_cmd(req: &Request, device: &Option<String>, suffix: &str) -> (r: CommandLine)
    requires
        req.uuid.is_some(),
    ensures
        r.program@ == spec_program(req.operation, req.mode),
        r.args.deep_view() == spec_args(*req, *device, suffix@),
{
    let program = match (req.operation, req.mode) {
        (Operation::Send, Mode::Bw) => "/usr/bin/ib_send_bw",
        (Operation::Send, Mode::Lat) => "/usr/bin/ib_send_lat",
        (Operation::Write, Mode::Bw) => "/usr/bin/ib_write_bw",
        (Operation::Write, Mode::Lat) => "/usr/bin/ib_write_lat",
        (Operation::Read, Mode::Bw) => "/usr/bin/ib_read_bw",
        (Operation::Read, Mode::Lat) => "/usr/bin/ib_read_lat",
        (Operation::Atomic, Mode::Bw) => "/usr/bin/ib_atomic_bw",
        (Operation::Atomic, Mode::Lat) => "/usr/bin/ib_atomic_lat",
    };
    proof {
        reveal_strlit("/usr/bin/ib_send_bw");
        reveal_strlit("/usr/bin/ib_send_lat");
        reveal_strlit("/usr/bin/ib_write_bw");
        reveal_strlit("/usr/bin/ib_write_lat");
        reveal_strlit("/usr/bin/ib_read_bw");
        reveal_strlit("/usr/bin/ib_read_lat");
        reveal_strlit("/usr/bin/ib_atomic_bw");
        reveal_strlit("/usr/bin/ib_atomic_lat");
        reveal_strlit("/usr/bin/ib_send_");
        reveal_strlit("/usr/bin/ib_write_");
        reveal_strlit("/usr/bin/ib_read_");
        reveal_strlit("/usr/bin/ib_atomic_");
        reveal_strlit("bw");
        reveal_strlit("lat");
        assert(program@ =~= spec_program(req.operation, req.mode));
    }
    let mut args: Vec<String> = Vec::new();
    match device {
        Some(d) => {
            args.push("-d".to_owned());
            args.push(d.clone());
        },
        None => {},
    }
    let ghost seg_device = args.deep_view();
    proof {
        assert(seg_device =~= (match *device {
            Some(d) => seq!["-d"@, d@],
            None => Seq::<Seq<char>>::empty(),
        }));
    }
    match &req.mtu {
        Some(m) => {
            args.push("-m".to_owned());
            args.push(u64_to_string(m.size() as u64));
        },
        None => {},
    }
    let ghost seg_mtu = args.deep_view();
    proof {
        assert(seg_mtu =~= seg_device + (match req.mtu {
            Some(m) => seq!["-m"@, spec_decimal(m.spec_size() as nat)],
            None => Seq::<Seq<char>>::empty(),
        }));
    }
    match req.iterations {
        Some(n) => {
            args.push("-n".to_owned());
            args.push(u64_to_string(n as u64));
        },
        None => {},
    }
    let ghost seg_iter = args.deep_view();
    proof {
        assert(seg_iter =~= seg_mtu + (match req.iterations {
            Some(n) => seq!["-n"@, spec_decimal(n as nat)],
            None => Seq::<Seq<char>>::empty(),
        }));
    }
    match req.duration {
        Some(d) => {
            args.push("-D".to_owned());
            args.push(u64_to_string(d as u64));
        },
        None => {},
    }
    let ghost seg_dur = args.deep_view();
    proof {
        assert(seg_dur =~= seg_iter + (match req.duration {
            Some(d) => seq!["-D"@, spec_decimal(d as nat)],
            None => Seq::<Seq<char>>::empty(),
        }));
    }
    args.push("-p".to_owned());
    args.push(u64_to_string(req.server_port as u64));
    let ghost seg_port = args.deep_view();
    proof {
        assert(seg_port =~= seg_dur + seq!["-p"@, spec_decimal(req.server_port as nat)]);
    }
    match req.message_size {
        Some(s) => {
            args.push("-s".to_owned());
            args.push(u64_to_string(s));
        },
        None => {},
    }
    let ghost seg_size = args.deep_view();
    proof {
        assert(seg_size =~= seg_port + (match req.message_size {
            Some(s) => seq!["-s"@, spec_decimal(s as nat)],
            None => Seq::<Seq<char>>::empty(),
        }));
    }
    args.push("--out_json".to_owned());
    args.push("--out_json_file".to_owned());
    let uuid = match &req.uuid {
        Some(u) => u.as_str(),
        None => "",
    };
    args.push(report_path(uuid, suffix));
    let ghost seg_json = args.deep_view();
    proof {
        assert(seg_json =~= seg_size + seq![
            "--out_json"@,
            "--out_json_file"@,
            spec_report_path(req.uuid.unwrap()@, suffix@),
        ]);
    }
    if req.cm {
        args.push("-R".to_owned());
    }
    proof {
        assert(args.deep_view() =~= seg_json + (if req.cm {
            seq!["-R"@]
        } else {
            Seq::<Seq<char>>::empty()
        }));
        assert(args.deep_view() =~= spec_args(*req, *device, suffix@));
    }
    CommandLine { program: program.to_owned(), args }
}

/// A decimal argument can never equal a dash flag: it starts with a digit.
proof fn lemma_decimal_is_no_flag(n: nat, flag: Seq<char>)
    requires
        flag.len() > 0,
        flag[0] == '-',
    ensures
        spec_decimal(n) != flag,
{
    crate::text::lemma_decimal_digits(n);
    assert(crate::text::spec_is_digit(spec_decimal(n)[0]));
}

/// The report path argument can never equal a dash flag: it starts with a
/// slash.
proof fn lemma_path_is_no_flag(uuid: Seq<char>, suffix: Seq<char>, flag: Seq<char>)
    requires
        flag.len() > 0,
        flag[0] == '-',
    ensures
        spec_report_path(uuid, suffix) != flag,
{
    reveal_strlit("/tmp/");
    assert(spec_report_path(uuid, suffix)[0] == '/');
}

/// What holds no occurrence of a token in either part holds none in the
/// whole.
proof fn lemma_not_contains_concat(a: Seq<Seq<char>>, b: Seq<Seq<char>>, x: Seq<char>)
    requires
        !a.contains(x),
        !b.contains(x),
    ensures
        !(a + b).contains(x),
{
    if (a + b).contains(x) {
        let i = choose|i: int| 0 <= i < (a + b).len() && (a + b)[i] == x;
        if i < a.len() {
            assert(a[i] == x);
        } else {
            assert(b[i - a.len()] == x);
        }
    }
}

/// One flag token and its rendered value never spell the given other flag.
proof fn lemma_flag_pair_free(flag: Seq<char>, value: nat, other: Seq<char>)
    requires
        flag != other,
        other.len() > 0,
        other[0] == '-',
    ensures
        !seq![flag, spec_decimal(value)].contains(other),
{
    lemma_decimal_is_no_flag(value, other);
    if seq![flag, spec_decimal(value)].contains(other) {
        let i = choose|i: int|
            0 <= i < 2 && seq![flag, spec_decimal(value)][i] == other;
        assert(false);
    }
}

/// When the descriptor carries no MTU, the command line carries no `-m`
/// flag.  A device that is itself literally named `-m` is left out: its
/// `-d` value would then spell the same token.
pub proof fn lemma_mtu_absent_no_flag(req: Request, device: Option<String>, suffix: Seq<char>)
    requires
        req.uuid.is_some(),
        req.mtu.is_none(),
        device matches Some(d) ==> d@ != "-m"@,
    ensures
        !spec_args(req, device, suffix).contains("-m"@),
{
    reveal_strlit("-m");
    reveal_strlit("-n");
    reveal_strlit("-D");
    assert("-m"@[1] == 'm' && "-n"@[1] == 'n' && "-D"@[1] == 'D');
    lemma_flag_free(req, device, suffix, "-m"@);
}

/// When the descriptor carries neither an iteration count nor a duration,
/// the command line carries neither `-n` nor `-D`: the child then runs its
/// own default.  A device literally named `-n` or `-D` is left out, as in
/// `lemma_mtu_absent_no_flag`.
pub proof fn lemma_iterations_duration_absent_no_flags(
    req: Request,
    device: Option<String>,
    suffix: Seq<char>,
)
    requires
        req.uuid.is_some(),
        req.iterations.is_none(),
        req.duration.is_none(),
        device matches Some(d) ==> d@ != "-n"@ && d@ != "-D"@,
    ensures
        !spec_args(req, device, suffix).contains("-n"@),
        !spec_args(req, device, suffix).contains("-D"@),
{
    reveal_strlit("-m");
    reveal_strlit("-n");
    reveal_strlit("-D");
    assert("-m"@[1] == 'm' && "-n"@[1] == 'n' && "-D"@[1] == 'D');
    lemma_flag_free(req, device, suffix, "-n"@);
    lemma_flag_free(req, device, suffix, "-D"@);
}

/// The argument list holds a dash token only where its segment emits it:
/// with the matching descriptor field absent and the device not spelling
/// the token itself, the token does not occur.
proof fn lemma_flag_free(req: Request, device: Option<String>, suffix: Seq<char>, other: Seq<char>)
    requires
        req.uuid.is_some(),
        other == "-m"@ ==> req.mtu.is_none(),
        other == "-n"@ ==> req.iterations.is_none(),
        other == "-D"@ ==> req.duration.is_none(),
        other == "-m"@ || other == "-n"@ || other == "-D"@,
        device matches Some(d) ==> d@ != other,
    ensures
        !spec_args(req, device, suffix).contains(other),
{
    reveal_strlit("-m");
    reveal_strlit("-d");
    reveal_strlit("-n");
    reveal_strlit("-D");
    reveal_strlit("-p");
    reveal_strlit("-s");
    reveal_strlit("-R");
    reveal_strlit("--out_json");
    reveal_strlit("--out_json_file");
    assert(other.len() > 0 && other[0] == '-');
    assert("-d"@[1] == 'd' && "-m"@[1] == 'm' && "-n"@[1] == 'n' && "-D"@[1] == 'D' && "-p"@[1]
        == 'p' && "-s"@[1] == 's' && "-R"@[1] == 'R');
    assert("--out_json"@.len() == 10 && "--out_json_file"@.len() == 15 && "-m"@.len() == 2
        && "-n"@.len() == 2 && "-D"@.len() == 2);
    let seg_device: Seq<Seq<char>> = match device {
        Some(d) => seq!["-d"@, d@],
        None => Seq::empty(),
    };
    let seg_mtu: Seq<Seq<char>> = match req.mtu {
        Some(m) => seq!["-m"@, spec_decimal(m.spec_size() as nat)],
        None => Seq::empty(),
    };
    let seg_iter: Seq<Seq<char>> = match req.iterations {
        Some(n) => seq!["-n"@, spec_decimal(n as nat)],
        None => Seq::empty(),
    };
    let seg_dur: Seq<Seq<char>> = match req.duration {
        Some(d) => seq!["-D"@, spec_decimal(d as nat)],
        None => Seq::empty(),
    };
    let seg_port: Seq<Seq<char>> = seq!["-p"@, spec_decimal(req.server_port as nat)];
    let seg_size: Seq<Seq<char>> = match req.message_size {
        Some(s) => seq!["-s"@, spec_decimal(s as nat)],
        None => Seq::empty(),
    };
    let seg_json: Seq<Seq<char>> = seq![
        "--out_json"@,
        "--out_json_file"@,
        spec_report_path(req.uuid.unwrap()@, suffix),
    ];
    let seg_cm: Seq<Seq<char>> = if req.cm {
        seq!["-R"@]
    } else {
        Seq::empty()
    };
    match device {
        Some(d) => {
            if seg_device.contains(other) {
                let i = choose|i: int| 0 <= i < 2 && seg_device[i] == other;
                assert(false);
            }
        },
        None => {},
    }
    match req.mtu {
        Some(m) => {
            lemma_flag_pair_free("-m"@, m.spec_size() as nat, other);
        },
        None => {},
    }
    match req.iterations {
        Some(n) => {
            lemma_flag_pair_free("-n"@, n as nat, other);
        },
        None => {},
    }
    match req.duration {
        Some(d) => {
            lemma_flag_pair_free("-D"@, d as nat, other);
        },
        None => {},
    }
    lemma_flag_pair_free("-p"@, req.server_port as nat, other);
    match req.message_size {
        Some(s) => {
            lemma_flag_pair_free("-s"@, s as nat, other);
        },
        None => {},
    }
    lemma_path_is_no_flag(req.uuid.unwrap()@, suffix, other);
    if seg_json.contains(other) {
        let i = choose|i: int| 0 <= i < 3 && seg_json[i] == other;
        assert(false);
    }
    if seg_cm.contains(other) {
        let i = choose|i: int| 0 <= i < seg_cm.len() && seg_cm[i] == other;
        assert(false);
    }
    lemma_not_contains_concat(seg_device, seg_mtu, other);
    lemma_not_contains_concat(seg_device + seg_mtu, seg_iter, other);
    lemma_not_contains_concat(seg_device + seg_mtu + seg_iter, seg_dur, other);
    lemma_not_contains_concat(seg_device + seg_mtu + seg_iter + seg_dur, seg_port, other);
    lemma_not_contains_concat(
        seg_device + seg_mtu + seg_iter + seg_dur + seg_port,
        seg_size,
        other,
    );
    lemma_not_contains_concat(
        seg_device + seg_mtu + seg_iter + seg_dur + seg_port + seg_size,
        seg_json,
        other,
    );
    lemma_not_contains_concat(
        seg_device + seg_mtu + seg_iter + seg_dur + seg_port + seg_size + seg_json,
        seg_cm,
        other,
    );
    assert(spec_args(req, device, suffix) == seg_device + seg_mtu + seg_iter + seg_dur + seg_port
        + seg_size + seg_json + seg_cm);
}

} // verus!
