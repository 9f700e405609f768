//! What the decisions of the library come to, however they are reached.

use vstd::prelude::*;
use crate::access_laws;
use crate::background;
use crate::brain::Ferrous;
use crate::builtin::BuiltinResult;
use crate::capability::{CapabilityError, CapabilityGrant, FilesystemAccess, ResourceLimits};
use crate::catalog;
use crate::catalog::Catalog;
use crate::command::Stream;
use crate::command_run::{CommandEnd, NativeReply, Redirections};
use crate::config;
use crate::config::Config;
use crate::model::Model;
use crate::native::NativeOutput;
use crate::native_session;
use crate::native_session::{NativeStop, WatchdogStep};
use crate::pipeline;
use crate::pipeline::{ComponentCode, StageEnd};
use crate::policy::{NetworkPolicy, SocketAddress, SocketUse};
use crate::shell;
use crate::shell_executor::{ExecuteError, PlanStatus};
use crate::text_laws;
use crate::wterm;
use crate::wterm::{BridgeAction, SocketEvent};

verus! {

/// A watchdog leaves a session that is over alone. Of one that is not, it kills
/// the child that was cancelled, and that has reached its deadline, and no other.
pub proof fn watchdogs_kill_for_a_reason(
    over: bool,
    cancelled: bool,
    now: u64,
    deadline: u64,
    step: WatchdogStep,
)
    requires
        call_ensures(native_session::watchdog_step, (over, cancelled, now, deadline), step),
    ensures
        step is Leave <==> over,
        step == WatchdogStep::Kill(NativeStop::Cancelled) <==> !over && cancelled,
        step == WatchdogStep::Kill(NativeStop::TimedOut) <==> !over && !cancelled && now
            >= deadline,
        step is Wait <==> !over && !cancelled && now < deadline,
{
}

/// A session has the seconds of its limits, counted from its start.
pub proof fn deadlines_leave_the_whole_time(now: u64, limits: ResourceLimits, deadline: u64)
    requires
        call_ensures(native_session::deadline, (now, &limits), deadline),
    ensures
        deadline - now == limits.seconds_bound() * 1000,
{
}

/// Without auto-approval a native program runs only where a human answered yes.
pub proof fn programs_need_a_yes(
    auto_approve: bool,
    answer: Option<&str>,
    verdict: Result<(), ExecuteError>,
)
    requires
        call_ensures(shell::prompt_verdict, (auto_approve, answer), verdict),
    ensures
        auto_approve ==> verdict is Ok,
        answer is None && !auto_approve ==> verdict == Err::<(), ExecuteError>(
            ExecuteError::HumanDenied,
        ),
        answer is Some && !auto_approve ==> (verdict is Ok <==> shell::is_yes(answer->0@)),
        verdict is Err ==> verdict->Err_0 == ExecuteError::HumanDenied,
{
}

/// A terminal is written what was typed, answers a ping with what the ping held,
/// is resized by a control message that says how, and ends where the client does.
pub proof fn terminals_do_what_the_client_says(event: SocketEvent, action: BridgeAction)
    requires
        call_ensures(wterm::bridge_action, (event,), action),
    ensures
        event matches SocketEvent::Binary(bytes) ==> action == BridgeAction::Write(bytes),
        event matches SocketEvent::Ping(payload) ==> action == BridgeAction::Pong(payload),
        event is Closed <==> action is Stop,
        event is Quiet || event is Ignored ==> action is Nothing,
        event matches SocketEvent::Text(message) ==> match wterm::resize_for(message@) {
            Some(size) => action == BridgeAction::Resize(size),
            None => action is Nothing,
        },
{
}

/// A job that ended is recorded with its exit code, and one that has none, or
/// that failed, with a code that is not success.
pub proof fn jobs_are_recorded_with_their_code(
    result: Result<Option<i32>, ExecuteError>,
    code: i32,
)
    requires
        call_ensures(background::background_code, (&result,), code),
    ensures
        result matches Ok(Some(reached)) ==> code == reached,
        !(result matches Ok(Some(_))) ==> code == 1,
{
}

/// A stage reads what the stage before it prints unless its input is redirected,
/// and a component hands on its errors unless they are.
pub proof fn pipes_give_way_to_redirections(
    redirections: Redirections,
    stream: Stream,
    takes: bool,
    hands: bool,
)
    requires
        call_ensures(pipeline::takes_pipe, (&redirections,), takes),
        call_ensures(pipeline::hands_on, (stream, &redirections), hands),
    ensures
        takes <==> redirections@.stdin is None,
        stream == Stream::Stdout ==> hands,
        stream == Stream::Stderr ==> (hands <==> redirections@.stderr is None),
{
}

/// A builtin stage ends with its exit code and hands on what it printed to
/// standard output; a component stage does so where it exited, and one that was
/// cancelled or failed ends with a code that is not success.
pub proof fn stages_end_with_their_code(
    result: BuiltinResult,
    built: StageEnd,
    printed: Vec<u8>,
    errors: Vec<u8>,
    code: ComponentCode,
    run: StageEnd,
)
    requires
        call_ensures(StageEnd::builtin, (result,), built),
        call_ensures(StageEnd::component, (printed, errors, code), run),
    ensures
        built@.code == result@.exit_code,
        built@.reached,
        built@.output == Some(result@.stdout),
        built@.errors == result@.stderr,
        run@.output == Some(printed@),
        run@.errors == errors@,
        code matches ComponentCode::Exited(reached) ==> run@.code == reached && run@.reached,
        code is Cancelled ==> run@.code == 130 && !run@.reached,
        code is Failed ==> run@.code == 1 && !run@.reached,
{
}

/// A limit of zero is refused, and limits keep what they are given.
pub proof fn limits_are_positive(
    bytes: usize,
    seconds: u64,
    limits: Result<ResourceLimits, CapabilityError>,
)
    requires
        call_ensures(ResourceLimits::new, (bytes, seconds), limits),
    ensures
        limits is Ok <==> bytes > 0 && seconds > 0,
        limits is Err ==> limits->Err_0 == CapabilityError::ZeroLimit,
        limits is Ok ==> limits->Ok_0.output_bound() == bytes && limits->Ok_0.seconds_bound()
            == seconds && limits->Ok_0.fuel_bound() is None,
{
}

/// Where no home directory is known, the working directory stands in its place.
pub proof fn homes_are_known_or_here(home: Option<String>, directory: String)
    requires
        call_ensures(config::home_or_here, (home,), directory),
    ensures
        home is Some ==> directory@ == home->0@,
        home is None ==> directory@ == seq!['.'],
{
    reveal_strlit(".");
    assert("."@ =~= seq!['.']);
}

/// A grant of nothing covers no path, no variable and no port, and does not let a
/// program run natively.
pub proof fn grants_start_from_nothing(
    grant: CapabilityGrant,
    path: Seq<Seq<char>>,
    name: Seq<char>,
    port: u16,
)
    requires
        call_ensures(CapabilityGrant::empty, (), grant),
    ensures
        !grant@.covers(path),
        !grant@.covers_write(path),
        !grant@.environment.contains(name),
        !grant@.ports.contains(port),
        !grant@.native,
{
}

/// A workspace grant covers what stands below its root, for writing only where
/// it was asked for that, and nothing besides.
pub proof fn workspaces_are_granted_as_asked(
    root: &str,
    names: Seq<Seq<char>>,
    access: FilesystemAccess,
    granted: Result<CapabilityGrant, CapabilityError>,
    below: Seq<Seq<char>>,
    name: Seq<char>,
    port: u16,
)
    requires
        call_ensures(CapabilityGrant::workspace, (root, access), granted),
        names.len() > 0,
        forall|i: int| 0 <= i < names.len() ==> text_laws::is_entry_name(#[trigger] names[i]),
        root@ == seq!['/'] + text_laws::joined(names, '/'),
    ensures
        granted is Ok,
        granted->Ok_0@.covers(names + below),
        granted->Ok_0@.covers_write(names + below) <==> access == FilesystemAccess::ReadWrite,
        !granted->Ok_0@.environment.contains(name),
        !granted->Ok_0@.ports.contains(port),
        !granted->Ok_0@.native,
{
    text_laws::absolute_paths_are_read_as_written(names);
    let grant = granted->Ok_0@;
    assert(grant.trees[0].root == names);
    access_laws::trees_hold_what_stands_below_them(grant, 0, below);
}

/// Each allowance adds what it names to a grant, and changes nothing else of it.
pub proof fn allowances_add_what_they_name(
    grant: CapabilityGrant,
    name: &str,
    named: Result<CapabilityGrant, CapabilityError>,
    port: u16,
    opened: CapabilityGrant,
    native: CapabilityGrant,
    other: Seq<char>,
    another: u16,
)
    requires
        call_ensures(CapabilityGrant::allow_environment, (grant, name), named),
        call_ensures(CapabilityGrant::allow_loopback_port, (grant, port), opened),
        call_ensures(CapabilityGrant::allow_native_execution, (grant,), native),
    ensures
        named is Ok <==> name@.len() > 0 && (forall|i: int|
            0 <= i < name@.len() ==> #[trigger] name@[i] != '=' && name@[i] != '\0'),
        named is Ok ==> {
            &&& named->Ok_0@.environment.contains(other) <==> other == name@
                || grant@.environment.contains(other)
            &&& named->Ok_0@.trees == grant@.trees
            &&& named->Ok_0@.ports == grant@.ports
            &&& named->Ok_0@.native == grant@.native
            &&& named->Ok_0@.limits == grant@.limits
        },
        opened@.ports.contains(another) <==> another == port || grant@.ports.contains(another),
        opened@.trees == grant@.trees && opened@.environment == grant@.environment
            && opened@.native == grant@.native && opened@.limits == grant@.limits,
        native@.native,
        native@.trees == grant@.trees && native@.environment == grant@.environment
            && native@.ports == grant@.ports && native@.limits == grant@.limits,
{
    access_laws::variables_have_a_name(name@);
}

/// A port that was granted may be used over TCP on a loopback address, and no
/// other port, and nothing over UDP.
pub proof fn granted_ports_are_permitted(
    grant: CapabilityGrant,
    policy: NetworkPolicy,
    addr: SocketAddress,
    use_: SocketUse,
)
    requires
        call_ensures(NetworkPolicy::from_grant, (&grant,), policy),
    ensures
        !policy.udp,
        policy.permitted(addr, use_) ==> grant@.ports.contains(addr.port),
        grant@.ports.contains(addr.port) && crate::policy::is_loopback(addr.ip) && (use_
            == SocketUse::TcpBind || use_ == SocketUse::TcpConnect) ==> policy.permitted(
            addr,
            use_,
        ),
{
    if grant@.ports.contains(addr.port) {
        assert(!grant@.ports.is_empty());
    }
}

/// A snapshot that holds models is what the catalog starts with; an empty one is
/// filled from the bundled models.
pub proof fn snapshots_win_over_the_bundled_models(
    config: Config,
    snapshot: Catalog,
    fallback: Vec<Model>,
    loaded: Ferrous,
)
    requires
        call_ensures(Ferrous::load, (config, snapshot, fallback), loaded),
    ensures
        loaded.config == config,
        snapshot@.len() > 0 ==> loaded.catalog@ == snapshot@,
        snapshot@.len() == 0 ==> loaded.catalog@ == catalog::merged(
            Seq::empty(),
            catalog::data_of(fallback@),
        ),
{
    if snapshot@.len() == 0 {
        assert(snapshot@ =~= Seq::empty());
    }
}

/// A pipeline of which every stage came out ends with the code of the last one,
/// and one with a stage whose runner broke down does not end.
pub proof fn pipelines_report_their_last_stage(
    stages: Vec<Option<StageEnd>>,
    end: Result<CommandEnd, ExecuteError>,
    i: int,
)
    requires
        call_ensures(pipeline::finish_pipeline, (stages,), end),
        0 <= i < stages@.len(),
    ensures
        stages@[i] is None ==> end is Err,
        (forall|k: int| 0 <= k < stages@.len() ==> (#[trigger] stages@[k]) is Some) ==> end is Ok
            && end->Ok_0@.outcome.exit_code == Some(stages@.last()->0@.code)
            && (end->Ok_0@.outcome.status == PlanStatus::Exited <==> stages@.last()->0@.reached),
{
}

/// A native stage that exited hands on what it printed, and one that was stopped
/// did not run.
pub proof fn native_stages_end_as_they_came_out(
    output: NativeOutput,
    reply: NativeReply,
    end: StageEnd,
)
    requires
        call_ensures(StageEnd::native, (reply,), end),
    ensures
        reply == NativeReply::Ran(Ok(output)) ==> {
            &&& end@.output == Some(output.stdout@)
            &&& end@.errors == output.stderr@
            &&& end@.reached
            &&& output.exit_code < 0x8000_0000 ==> end@.code as int == output.exit_code
        },
        !(reply matches NativeReply::Ran(Ok(_))) ==> end@.output is None && !end@.reached
            && end@.code == 1,
{
}

} // verus!
