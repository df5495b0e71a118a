//! How mpv is started.

use vstd::prelude::*;
use vstd::string::*;

use crate::player::ipc::MpvError;
use crate::text::{decimal, lemma_pair_injective, push_decimal};

verus! {

/// Options governing how mpv is started.
#[derive(Debug, Clone)]
pub struct SpawnOptions {
    /// The mpv binary. Defaults to `mpv`, looked up on the path.
    pub mpv_binary: String,
    /// The IPC endpoint. If `None`, a unique one is generated.
    pub ipc_path: Option<String>,
    /// File to open on startup. `None` starts mpv idle.
    pub initial_file: Option<String>,
    /// Extra flags to pass to mpv.
    pub extra_args: Vec<String>,
    /// How long to wait for the IPC endpoint to appear.
    pub connect_timeout_ms: u64,
    /// Keep mpv alive even with no file.
    pub keep_alive: bool,
}

impl Default for SpawnOptions {
    fn default() -> (r: Self)
        ensures
            r.mpv_binary@ == "mpv"@,
            r.ipc_path is None,
            r.initial_file is None,
            r.extra_args@.len() == 0,
            r.connect_timeout_ms == 5_000,
            r.keep_alive,
    {
        SpawnOptions {
            mpv_binary: "mpv".to_owned(),
            ipc_path: None,
            initial_file: None,
            extra_args: Vec::new(),
            connect_timeout_ms: 5_000,
            keep_alive: true,
        }
    }
}

/// What a list of arguments says.
pub open spec fn texts(args: Seq<String>) -> Seq<Seq<char>> {
    args.map_values(|a: String| a@)
}

/// The arguments for mpv: the IPC endpoint, no terminal, idling if it is to be
/// kept alive, the extra flags, and the file last.
pub open spec fn mpv_arguments(options: SpawnOptions, ipc_path: Seq<char>) -> Seq<Seq<char>> {
    seq!["--input-ipc-server="@ + ipc_path, "--no-terminal"@] + (if options.keep_alive {
        seq!["--idle=yes"@, "--force-window=yes"@]
    } else {
        seq![]
    }) + texts(options.extra_args@) + (match options.initial_file {
        Some(file) => seq![file@],
        None => seq![],
    })
}

/// The arguments for mpv.
pub fn mpv_args(options: &SpawnOptions, ipc_path: &str) -> (r: Vec<String>)
    ensures
        texts(r@) == mpv_arguments(*options, ipc_path@),
{
    let mut server = "--input-ipc-server=".to_owned();
    server.append(ipc_path);
    let mut args: Vec<String> = Vec::new();
    args.push(server);
    args.push("--no-terminal".to_owned());
    if options.keep_alive {
        args.push("--idle=yes".to_owned());
        args.push("--force-window=yes".to_owned());
    }
    let ghost head = texts(args@);
    assert(head =~= seq!["--input-ipc-server="@ + ipc_path@, "--no-terminal"@] + (
    if options.keep_alive {
        seq!["--idle=yes"@, "--force-window=yes"@]
    } else {
        seq![]
    }));
    let ghost extra = texts(options.extra_args@);
    let mut i: usize = 0;
    assert(texts(args@) =~= head + extra.take(0));
    while i < options.extra_args.len()
        invariant
            0 <= i <= options.extra_args@.len(),
            extra == texts(options.extra_args@),
            texts(args@) == head + extra.take(i as int),
        decreases options.extra_args@.len() - i,
    {
        let ghost before = args@;
        args.push(options.extra_args[i].clone());
        proof {
            assert(texts(args@) =~= texts(before).push(extra[i as int]));
            assert(extra.take(i + 1) =~= extra.take(i as int).push(extra[i as int]));
            assert(texts(args@) =~= head + extra.take(i + 1));
        }
        i = i + 1;
    }
    assert(extra.take(i as int) =~= extra);
    let ghost before = args@;
    if let Some(file) = &options.initial_file {
        args.push(file.clone());
    }
    assert(texts(args@) =~= mpv_arguments(*options, ipc_path@));
    args
}

/// The name of an IPC socket: unique by process and time.
pub open spec fn socket_name(pid: u32, nanos: u128) -> Seq<char> {
    "syncmesh-"@ + decimal(pid as nat) + "-"@ + decimal(nanos as nat) + ".sock"@
}

/// The name of an IPC socket, to be placed in the directory for temporary
/// files.
pub fn ipc_socket_name(pid: u32, nanos: u128) -> (r: String)
    ensures
        r@ == socket_name(pid, nanos),
{
    let mut r = "syncmesh-".to_owned();
    push_decimal(&mut r, pid as u128);
    r.append("-");
    push_decimal(&mut r, nanos);
    r.append(".sock");
    r
}

/// The name of an IPC pipe: unique by process and time.
pub open spec fn pipe_name(pid: u32, nanos: u128) -> Seq<char> {
    "\\\\.\\pipe\\syncmesh-"@ + decimal(pid as nat) + "-"@ + decimal(nanos as nat)
}

/// The IPC pipe on Windows: mpv only accepts pipes in this namespace.
pub fn ipc_pipe_name(pid: u32, nanos: u128) -> (r: String)
    ensures
        r@ == pipe_name(pid, nanos),
{
    let mut r = "\\\\.\\pipe\\syncmesh-".to_owned();
    push_decimal(&mut r, pid as u128);
    r.append("-");
    push_decimal(&mut r, nanos);
    r
}

/// After a failed attempt to reach the IPC endpoint, which mpv creates a short
/// while after it starts: try again until the deadline, then give up.
pub fn after_failed_connect(
    now_ms: u64,
    deadline_ms: u64,
    waited_ms: u64,
    source: std::io::Error,
) -> (r: Result<(), MpvError>)
    ensures
        r == if now_ms < deadline_ms {
            Ok::<(), MpvError>(())
        } else {
            Err(MpvError::Connect { waited_ms, source })
        },
{
    if now_ms < deadline_ms {
        Ok(())
    } else {
        Err(MpvError::Connect { waited_ms, source })
    }
}

/// IPC endpoints of different processes or times have different names.
pub proof fn law_ipc_names_are_unique(pid: u32, nanos: u128, other_pid: u32, other_nanos: u128)
    requires
        pid != other_pid || nanos != other_nanos,
    ensures
        socket_name(pid, nanos) != socket_name(other_pid, other_nanos),
        pipe_name(pid, nanos) != pipe_name(other_pid, other_nanos),
{
    let a = decimal(pid as nat) + "-"@ + decimal(nanos as nat);
    let b = decimal(other_pid as nat) + "-"@ + decimal(other_nanos as nat);
    if a == b {
        reveal_strlit("-");
        assert("-"@ =~= seq!['-']);
        lemma_pair_injective(pid as nat, nanos as nat, other_pid as nat, other_nanos as nat);
    }
    if socket_name(pid, nanos) == socket_name(other_pid, other_nanos) {
        let s = socket_name(pid, nanos);
        let head = "syncmesh-"@;
        let tail = ".sock"@;
        assert(s =~= head + a + tail);
        assert(s =~= head + b + tail);
        assert(s.subrange(head.len() as int, s.len() - tail.len()) =~= a);
        assert(s.subrange(head.len() as int, s.len() - tail.len()) =~= b);
    }
    if pipe_name(pid, nanos) == pipe_name(other_pid, other_nanos) {
        let s = pipe_name(pid, nanos);
        let head = "\\\\.\\pipe\\syncmesh-"@;
        assert(s =~= head + a);
        assert(s =~= head + b);
        assert(s.skip(head.len() as int) =~= a);
        assert(s.skip(head.len() as int) =~= b);
    }
}

/// mpv is told first where to listen; the extra flags are passed on in order, and
/// the file, if there is one, comes last.
pub proof fn law_mpv_is_told_where_to_listen(options: SpawnOptions, ipc_path: Seq<char>, i: int)
    ensures
        ({
            let args = mpv_arguments(options, ipc_path);
            let fixed: int = if options.keep_alive {
                4
            } else {
                2
            };
            let extra = options.extra_args@.len() as int;
            &&& args.len() == fixed + extra + if options.initial_file is Some {
                1int
            } else {
                0
            }
            &&& args[0] == "--input-ipc-server="@ + ipc_path
            &&& args[1] == "--no-terminal"@
            &&& options.keep_alive ==> args[2] == "--idle=yes"@ && args[3]
                == "--force-window=yes"@
            &&& 0 <= i < extra ==> args[fixed + i] == options.extra_args@[i]@
            &&& options.initial_file is Some ==> args.last() == options.initial_file->0@
        }),
{
}

} // verus!
